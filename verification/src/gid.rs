//! The 128-bit global identifier of a port.

use vstd::prelude::*;

verus! {

/// The number that eight bytes spell, most significant byte first.
pub open spec fn be_u64(bytes: Seq<u8>) -> int
    recommends
        bytes.len() == 8,
{
    bytes[0] * 0x0100_0000_0000_0000 + bytes[1] * 0x0001_0000_0000_0000 + bytes[2]
        * 0x0000_0100_0000_0000 + bytes[3] * 0x0000_0001_0000_0000 + bytes[4] * 0x0100_0000
        + bytes[5] * 0x0001_0000 + bytes[6] * 0x0100 + bytes[7]
}

/// A global identifier: sixteen bytes, of which the first eight are the
/// subnet prefix and the last eight the interface identifier.
#[derive(Clone, Copy, Debug, PartialEq, Eq, Hash)]
pub struct Gid {
    raw: [u8; 16],
}

impl View for Gid {
    type V = Seq<u8>;

    closed spec fn view(&self) -> Seq<u8> {
        self.raw@
    }
}

impl Gid {
    /// The identifier with these bytes.
    pub fn new(raw: [u8; 16]) -> (gid: Self)
        ensures
            gid@ == raw@,
    {
        Gid { raw }
    }

    /// The identifier whose bytes are all zero.
    pub closed spec fn zero() -> Gid {
        Gid {
            raw: [
                0u8,
                0u8,
                0u8,
                0u8,
                0u8,
                0u8,
                0u8,
                0u8,
                0u8,
                0u8,
                0u8,
                0u8,
                0u8,
                0u8,
                0u8,
                0u8,
            ],
        }
    }

    /// The sixteen bytes.
    pub fn raw(&self) -> (raw: [u8; 16])
        ensures
            raw@ == self@,
    {
        self.raw
    }

    /// An identifier always has sixteen bytes.
    pub proof fn lemma_len(&self)
        ensures
            self@.len() == 16,
    {
    }

    /// Identifiers with the same bytes are the same identifier.
    pub proof fn lemma_same_bytes(&self, other: Gid)
        requires
            self@ == other@,
        ensures
            *self == other,
    {
        assert(self.raw =~= other.raw);
    }

    /// The first eight bytes, read as one number, most significant byte first.
    pub fn subnet_prefix(&self) -> (prefix: u64)
        ensures
            prefix == be_u64(self@.subrange(0, 8)),
    {
        self.read_be(0)
    }

    /// The last eight bytes, read as one number, most significant byte first.
    pub fn interface_id(&self) -> (id: u64)
        ensures
            id == be_u64(self@.subrange(8, 16)),
    {
        self.read_be(8)
    }

    fn read_be(&self, from: usize) -> (value: u64)
        requires
            from + 8 <= 16,
        ensures
            value == be_u64(self@.subrange(from as int, from + 8)),
    {
        let b0: u64 = self.raw[from] as u64;
        let b1: u64 = self.raw[from + 1] as u64;
        let b2: u64 = self.raw[from + 2] as u64;
        let b3: u64 = self.raw[from + 3] as u64;
        let b4: u64 = self.raw[from + 4] as u64;
        let b5: u64 = self.raw[from + 5] as u64;
        let b6: u64 = self.raw[from + 6] as u64;
        let b7: u64 = self.raw[from + 7] as u64;
        b0 * 0x0100_0000_0000_0000 + b1 * 0x0001_0000_0000_0000 + b2 * 0x0000_0100_0000_0000 + b3
            * 0x0000_0001_0000_0000 + b4 * 0x0100_0000 + b5 * 0x0001_0000 + b6 * 0x0100 + b7
    }
}

impl Default for Gid {
    /// The identifier whose bytes are all zero.
    fn default() -> (gid: Self)
        ensures
            gid == Gid::zero(),
            gid@ == Seq::new(16, |i: int| 0u8),
    {
        let gid = Gid {
            raw: [
                0u8,
                0u8,
                0u8,
                0u8,
                0u8,
                0u8,
                0u8,
                0u8,
                0u8,
                0u8,
                0u8,
                0u8,
                0u8,
                0u8,
                0u8,
                0u8,
            ],
        };
        assert(gid@ =~= Seq::new(16, |i: int| 0u8));
        gid
    }
}

} // verus!
