use vstd::prelude::*;

verus! {

/// The value of bit `i` of `byte`, counted from the most significant bit.
pub open spec fn msb_bit(byte: u8, i: int) -> bool {
    (byte >> ((7 - i) as u8)) & 1 == 1
}

/// Walks the eight bits of a byte, most significant first.
pub struct BitIteratoru8 {
    count: usize,
    byte: u8,
}

impl BitIteratoru8 {
    /// How many bits have been handed out so far.
    pub closed spec fn position(&self) -> int {
        self.count as int
    }

    /// The byte being walked.
    pub closed spec fn source(&self) -> u8 {
        self.byte
    }

    pub fn new(byte: u8) -> (r: BitIteratoru8)
        ensures
            r.position() == 0,
            r.source() == byte,
    {
        BitIteratoru8 { count: 0, byte }
    }

    /// The next bit, or `None` once all eight have been handed out.
    pub fn next(&mut self) -> (r: Option<bool>)
        requires
            old(self).position() <= 8,
        ensures
            final(self).source() == old(self).source(),
            old(self).position() == 8 ==> r is None && final(self).position() == 8,
            old(self).position() < 8 ==> r == Some(msb_bit(old(self).source(), old(self).position()))
                && final(self).position() == old(self).position() + 1,
    {
        if self.count > 7 {
            return None;
        }
        let bit = (self.byte >> ((7 - self.count) as u8)) & 1;
        self.count = self.count + 1;
        Some(bit == 1)
    }
}

} // verus!
