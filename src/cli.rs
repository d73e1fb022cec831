//! What one invocation of the command line prints, and the status it exits
//! with, as a function of its arguments.
use vstd::prelude::*;
use vstd::string::*;
use vstd::utf8::*;

use crate::codec::{
    all_hex_digits, decode_hex, hex_of, hex_to_text, lossy_text_of, text_to_hex,
    INVALID_HEX_ERROR, ODD_LENGTH_ERROR,
};
use crate::strings::{push_text, same_text};

verus! {

/// The usage text, with `program` as the name of the program.
pub open spec fn usage_of(program: Seq<char>) -> Seq<char> {
    "Usage: "@ + program + " [to-hex|to-text] <input>\n  to-hex: Convert text to hexadecimal\n  to-text: Convert hexadecimal to text\nExample:\n  "@
        + program + " to-hex \"Hello\"\n  "@ + program + " to-text \"48656c6c6f\"\n"@
}

/// Builds the usage text for the program named `program`.
pub fn usage_text(program: &str) -> (r: String)
    ensures
        r@ == usage_of(program@),
{
    let mut s = String::new();
    push_text(&mut s, "Usage: ");
    assert(s@ == "Usage: "@);
    push_text(&mut s, program);
    push_text(
        &mut s,
        " [to-hex|to-text] <input>\n  to-hex: Convert text to hexadecimal\n  to-text: Convert hexadecimal to text\nExample:\n  ",
    );
    push_text(&mut s, program);
    push_text(&mut s, " to-hex \"Hello\"\n  ");
    push_text(&mut s, program);
    push_text(&mut s, " to-text \"48656c6c6f\"\n");
    s
}

/// What an invocation writes to standard output and to standard error, and
/// the status it exits with.
pub struct Report {
    pub stdout: String,
    pub stderr: String,
    pub status: i32,
}

/// The model of a `Report`: its texts as character sequences.
pub ghost struct ReportView {
    pub stdout: Seq<char>,
    pub stderr: Seq<char>,
    pub status: i32,
}

impl View for Report {
    type V = ReportView;

    open spec fn view(&self) -> ReportView {
        ReportView { stdout: self.stdout@, stderr: self.stderr@, status: self.status }
    }
}

/// The text that decoding the hex string `h` gives, or the message of the
/// error it fails with.
pub open spec fn decoded_of(h: Seq<u8>) -> Result<Seq<char>, Seq<char>> {
    if h.len() % 2 == 1 {
        Err(ODD_LENGTH_ERROR@)
    } else if !all_hex_digits(h) {
        Err(INVALID_HEX_ERROR@)
    } else {
        Ok(lossy_text_of(decode_hex(h)))
    }
}

/// The name of the program: the first argument, or nothing when there is none.
pub open spec fn program_of(args: Seq<Seq<char>>) -> Seq<char> {
    if args.len() > 0 {
        args[0]
    } else {
        Seq::empty()
    }
}

/// What an invocation with the argument vector `args` (the program's name
/// first) prints, and the status it exits with.
pub open spec fn report_of(args: Seq<Seq<char>>) -> ReportView {
    let usage = usage_of(program_of(args));
    if args.len() != 3 {
        ReportView { stdout: usage, stderr: Seq::empty(), status: 1 }
    } else if args[1] == "to-hex"@ {
        ReportView {
            stdout: "Hex: "@ + hex_of(encode_utf8(args[2])) + "\n"@,
            stderr: Seq::empty(),
            status: 0,
        }
    } else if args[1] == "to-text"@ {
        match decoded_of(encode_utf8(args[2])) {
            Ok(t) => ReportView { stdout: "Text: "@ + t + "\n"@, stderr: Seq::empty(), status: 0 },
            Err(m) => ReportView {
                stdout: Seq::empty(),
                stderr: "Error: "@ + m + "\n"@,
                status: 1,
            },
        }
    } else {
        ReportView {
            stdout: usage,
            stderr: "Error: Invalid command '"@ + args[1] + "'\n"@,
            status: 1,
        }
    }
}

/// Runs one invocation on its argument vector, the program's name first:
/// `to-hex <text>` encodes, `to-text <hex>` decodes; a wrong number of
/// arguments or an unknown command gives the usage text and status 1.
pub fn run(args: &Vec<String>) -> (r: Report)
    ensures
        r@ == report_of(args.deep_view()),
        args@.len() != 3 ==> r.status == 1 && r.stdout@ == usage_of(
            program_of(args.deep_view()),
        ),
        args@.len() == 3 && args@[1]@ != "to-hex"@ && args@[1]@ != "to-text"@ ==> r.status == 1
            && r.stdout@ == usage_of(args@[0]@) && r.stderr@ == "Error: Invalid command '"@
            + args@[1]@ + "'\n"@,
{
    let ghost a = args.deep_view();
    let program: &str = if args.len() > 0 {
        args[0].as_str()
    } else {
        ""
    };
    proof {
        reveal_strlit("");
    }
    assert(program@ == program_of(a));
    let mut stdout = String::new();
    let mut stderr = String::new();
    if args.len() != 3 {
        let usage = usage_text(program);
        return Report { stdout: usage, stderr, status: 1 };
    }
    let command = args[1].as_str();
    let input = args[2].as_str();
    assert(command@ == a[1] && input@ == a[2]);
    if same_text(command, "to-hex") {
        let hex = text_to_hex(input);
        push_text(&mut stdout, "Hex: ");
        push_text(&mut stdout, hex.as_str());
        push_text(&mut stdout, "\n");
        assert(stdout@ =~= "Hex: "@ + hex_of(encode_utf8(a[2])) + "\n"@);
        Report { stdout, stderr, status: 0 }
    } else if same_text(command, "to-text") {
        match hex_to_text(input) {
            Ok(text) => {
                push_text(&mut stdout, "Text: ");
                push_text(&mut stdout, text.as_str());
                push_text(&mut stdout, "\n");
                assert(stdout@ =~= "Text: "@ + text@ + "\n"@);
                Report { stdout, stderr, status: 0 }
            },
            Err(message) => {
                push_text(&mut stderr, "Error: ");
                push_text(&mut stderr, message);
                push_text(&mut stderr, "\n");
                assert(stderr@ =~= "Error: "@ + message@ + "\n"@);
                Report { stdout, stderr, status: 1 }
            },
        }
    } else {
        push_text(&mut stderr, "Error: Invalid command '");
        push_text(&mut stderr, command);
        push_text(&mut stderr, "'\n");
        assert(stderr@ =~= "Error: Invalid command '"@ + a[1] + "'\n"@);
        let usage = usage_text(program);
        Report { stdout: usage, stderr, status: 1 }
    }
}

} // verus!
