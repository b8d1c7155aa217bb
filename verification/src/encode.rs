//! The byte encoder handed to the locals emitter: plain bytes and
//! unsigned LEB128.

use vstd::prelude::*;

verus! {

/// The unsigned LEB128 encoding of `n`: seven bits per byte, low bits
/// first, the high bit marking continuation.
pub open spec fn spec_leb(n: int) -> Seq<u8>
    decreases n,
{
    if n < 0x80 {
        seq![(if n >= 0 { n } else { 0 }) as u8]
    } else {
        seq![(n % 0x80 + 0x80) as u8] + spec_leb(n / 0x80)
    }
}

/// A growing byte buffer.
#[derive(Debug)]
pub struct Encoder {
    pub bytes: Vec<u8>,
}

impl Encoder {
    /// A fresh, empty encoder.
    pub fn new() -> (r: Encoder)
        ensures
            r.bytes@.len() == 0,
    {
        Encoder { bytes: Vec::new() }
    }

    /// Appends one byte.
    pub fn byte(&mut self, b: u8)
        ensures
            final(self).bytes@ == old(self).bytes@.push(b),
    {
        self.bytes.push(b);
    }

    /// Appends the unsigned LEB128 encoding of `n`.
    pub fn uleb(&mut self, n: usize)
        ensures
            final(self).bytes@ == old(self).bytes@ + spec_leb(n as int),
        decreases n,
    {
        if n < 0x80 {
            self.bytes.push(n as u8);
            proof {
                assert(final(self).bytes@ =~= old(self).bytes@ + spec_leb(n as int));
            }
        } else {
            self.bytes.push((n % 0x80 + 0x80) as u8);
            self.uleb(n / 0x80);
            proof {
                assert(final(self).bytes@ =~= old(self).bytes@ + spec_leb(n as int));
            }
        }
    }
}

} // verus!
