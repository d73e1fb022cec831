//! Conversion between UTF-8 text and its lowercase hexadecimal form, and the
//! decisions of the command line that drives it.
use vstd::prelude::*;

pub mod cli;
pub mod codec;
pub mod strings;

verus! {

} // verus!
