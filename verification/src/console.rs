//! Serial console sink.
//!
//! The runtime prints diagnostics one byte at a time to the board's UART.
//! The sink is held here as the sequence of bytes pushed out so far, so what
//! reaches the console is stated exactly; the platform layer forwards the
//! same bytes to the UART character output.

use vstd::prelude::*;
use vstd::string::StringSliceAdditionalSpecFns;

verus! {

/// The console output channel.
pub struct Console {
    pub out: Vec<u8>,
}

impl Console {
    /// A console that has printed nothing yet.
    pub fn new() -> (r: Console)
        ensures
            r.out@ =~= Seq::<u8>::empty(),
    {
        Console { out: Vec::new() }
    }

    /// Prints a string: every byte of its UTF-8 form goes out, in order, and
    /// nothing else.
    pub fn write_str(&mut self, s: &str)
        ensures
            final(self).out@ == old(self).out@ + s.spec_bytes(),
    {
        self.out.extend_from_slice(s.as_bytes());
    }
}

} // verus!
