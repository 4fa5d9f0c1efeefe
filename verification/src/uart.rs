//! The character output: a line on which one byte at a time is sent, each
//! send blocking until the byte is out. The library says which bytes make up
//! a piece of text; sending them is left to whoever owns the line.

use vstd::prelude::*;
use vstd::string::StringSliceAdditionalSpecFns;

verus! {

/// The serial line on which the kernel and its tasks write their messages.
#[derive(Debug, Clone, Copy)]
pub struct Uart;

impl Uart {
    /// The bytes that writing `text` puts on the line, in the order in which
    /// they are sent: the bytes of the text, each once, none added.
    pub fn payload<'a>(&self, text: &'a str) -> (bytes: &'a [u8])
        ensures
            bytes@ == text.spec_bytes(),
    {
        text.as_bytes()
    }
}

} // verus!
