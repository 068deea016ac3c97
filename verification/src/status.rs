//! The processor status register: seven named flags packed into one byte.
//!
//! Mathematically a status register is a set of raised flags. The byte is
//! its encoding: each flag owns one bit, and one bit of the byte is owned
//! by no flag and stays clear.

use vstd::prelude::*;

verus! {

/// The seven processor status flags.
#[derive(Debug, Clone, Copy, PartialEq, Eq, Structural)]
pub enum Flag {
    /// Negative: bit 7 of the last result was set.
    N,
    /// Overflow: the last signed operation left the two's complement range.
    V,
    /// Break command.
    B,
    /// Decimal mode.
    D,
    /// Interrupt disable.
    I,
    /// Zero: the last result was zero.
    Z,
    /// Carry.
    C,
}

/// The one bit of the packed byte that belongs to no flag.
pub const RESERVED: u8 = 0x20;

impl Flag {
    /// Where each flag lives in the packed byte. This table is the only
    /// place that ties a flag to a bit; the order of the variants plays
    /// no part in it.
    pub open spec fn position(self) -> u8 {
        match self {
            Flag::N => 7,
            Flag::V => 6,
            Flag::B => 4,
            Flag::D => 3,
            Flag::I => 2,
            Flag::Z => 1,
            Flag::C => 0,
        }
    }

    /// The byte in which only this flag's bit is set.
    pub open spec fn mask(self) -> u8 {
        1u8 << self.position()
    }

    /// The bit position of this flag.
    pub fn bit(self) -> (pos: u8)
        ensures
            pos == self.position(),
    {
        match self {
            Flag::N => 7,
            Flag::V => 6,
            Flag::B => 4,
            Flag::D => 3,
            Flag::I => 2,
            Flag::Z => 1,
            Flag::C => 0,
        }
    }
}

/// The flags that are raised in a packed byte.
pub open spec fn flags_of(raw: u8) -> Set<Flag> {
    Set::new(|f: Flag| raw & f.mask() != 0)
}

/// What one flag contributes to the packed byte.
pub open spec fn weight(flags: Set<Flag>, f: Flag) -> u8 {
    if flags.contains(f) {
        f.mask()
    } else {
        0
    }
}

/// The packed byte that holds exactly the given flags.
pub open spec fn raw_of(flags: Set<Flag>) -> u8 {
    weight(flags, Flag::N) | weight(flags, Flag::V) | weight(flags, Flag::B) | weight(
        flags,
        Flag::D,
    ) | weight(flags, Flag::I) | weight(flags, Flag::Z) | weight(flags, Flag::C)
}

/// Packing a set of flags and reading the byte back gives the same set, and
/// the packed byte never has the reserved bit set.
pub proof fn lemma_pack_unpack(flags: Set<Flag>)
    ensures
        flags_of(raw_of(flags)) == flags,
        raw_of(flags) & RESERVED == 0,
{
    let n = flags.contains(Flag::N);
    let v = flags.contains(Flag::V);
    let b = flags.contains(Flag::B);
    let d = flags.contains(Flag::D);
    let i = flags.contains(Flag::I);
    let z = flags.contains(Flag::Z);
    let c = flags.contains(Flag::C);
    let raw = raw_of(flags);
    assert(raw == packed(n, v, b, d, i, z, c));
    lemma_packed_bits(n, v, b, d, i, z, c);
    assert forall|f: Flag| #[trigger] flags_of(raw).contains(f) == flags.contains(f) by {
        match f {
            Flag::N => {},
            Flag::V => {},
            Flag::B => {},
            Flag::D => {},
            Flag::I => {},
            Flag::Z => {},
            Flag::C => {},
        }
    }
    assert(flags_of(raw) =~= flags);
}

/// Reading the flags of a byte and packing them gives the byte back, as long
/// as its reserved bit is clear.
pub proof fn lemma_unpack_pack(raw: u8)
    requires
        raw & RESERVED == 0,
    ensures
        raw_of(flags_of(raw)) == raw,
{
    assert(raw == packed(
        raw & (1u8 << 7u8) != 0,
        raw & (1u8 << 6u8) != 0,
        raw & (1u8 << 4u8) != 0,
        raw & (1u8 << 3u8) != 0,
        raw & (1u8 << 2u8) != 0,
        raw & (1u8 << 1u8) != 0,
        raw & (1u8 << 0u8) != 0,
    )) by (bit_vector)
        requires
            raw & 0x20 == 0,
    ;
}

/// The byte made of seven single bits, each at its flag's position.
spec fn packed(n: bool, v: bool, b: bool, d: bool, i: bool, z: bool, c: bool) -> u8 {
    single(n, 7) | single(v, 6) | single(b, 4) | single(d, 3) | single(i, 2) | single(z, 1)
        | single(c, 0)
}

/// The byte with the bit at `position` set if `raised`, and no other.
spec fn single(raised: bool, position: u8) -> u8 {
    if raised {
        1u8 << position
    } else {
        0
    }
}

proof fn lemma_packed_bits(n: bool, v: bool, b: bool, d: bool, i: bool, z: bool, c: bool)
    by (bit_vector)
    ensures
        (packed(n, v, b, d, i, z, c) & (1u8 << 7u8) != 0) == n,
        (packed(n, v, b, d, i, z, c) & (1u8 << 6u8) != 0) == v,
        (packed(n, v, b, d, i, z, c) & (1u8 << 4u8) != 0) == b,
        (packed(n, v, b, d, i, z, c) & (1u8 << 3u8) != 0) == d,
        (packed(n, v, b, d, i, z, c) & (1u8 << 2u8) != 0) == i,
        (packed(n, v, b, d, i, z, c) & (1u8 << 1u8) != 0) == z,
        (packed(n, v, b, d, i, z, c) & (1u8 << 0u8) != 0) == c,
        packed(n, v, b, d, i, z, c) & 0x20 == 0,
{
}

/// Processor status flags, one bit each, packed into a single byte.
///
/// Its view is the set of flags that are raised.
#[derive(Debug)]
pub struct Status {
    register: u8,
}

impl Clone for Status {
    fn clone(&self) -> (copy: Status)
        ensures
            copy == *self,
    {
        proof {
            use_type_invariant(self);
        }
        Status { register: self.register }
    }
}

impl View for Status {
    type V = Set<Flag>;

    open spec fn view(&self) -> Set<Flag> {
        flags_of(self.raw())
    }
}

impl Status {
    /// The packed byte.
    pub closed spec fn raw(&self) -> u8 {
        self.register
    }

    /// The reserved bit is clear in every status register.
    #[verifier::type_invariant]
    pub open spec fn wf(&self) -> bool {
        self.raw() & RESERVED == 0
    }

    /// A status register with every flag clear.
    pub fn new() -> (status: Status)
        ensures
            status@ == Set::<Flag>::empty(),
            status.raw() == 0,
    {
        proof {
            assert(0u8 & 0x20 == 0) by (bit_vector);
            assert forall|f: Flag| !(#[trigger] flags_of(0).contains(f)) by {
                let q = f.position();
                assert(0u8 & (1u8 << q) == 0) by (bit_vector);
            }
            assert(flags_of(0) =~= Set::<Flag>::empty());
        }
        Status { register: 0x00 }
    }

    /// The bit at position `pos` of the packed byte, as 1 or 0.
    fn read_bit(&self, pos: u8) -> (bit: u8)
        requires
            pos < 8,
        ensures
            bit == if self.raw() & (1u8 << pos) != 0 { 1u8 } else { 0u8 },
    {
        let r = self.register;
        assert((r >> pos) & 1 == if r & (1u8 << pos) != 0 { 1u8 } else { 0u8 }) by (bit_vector)
            requires
                pos < 8,
        ;
        (r >> pos) & 1
    }

    /// Whether `flag` is raised.
    pub fn read(&self, flag: Flag) -> (raised: bool)
        ensures
            raised == self@.contains(flag),
    {
        self.read_bit(flag.bit()) == 1
    }

    /// Raises `bit` and leaves every other flag as it was.
    pub fn set_bit(&mut self, bit: Flag)
        ensures
            final(self)@ == old(self)@.insert(bit),
            final(self).raw() == old(self).raw() | bit.mask(),
    {
        let pos = bit.bit();
        proof {
            use_type_invariant(&*self);
            let r = self.register;
            assert((r | (1u8 << pos)) & 0x20 == 0) by (bit_vector)
                requires
                    r & 0x20 == 0,
                    pos < 8,
                    pos != 5,
            ;
            assert forall|f: Flag| #[trigger]
                flags_of(r | (1u8 << pos)).contains(f) == flags_of(r).insert(bit).contains(f) by {
                let q = f.position();
                assert(((r | (1u8 << pos)) & (1u8 << q) != 0) == (pos == q || r & (1u8 << q) != 0))
                    by (bit_vector)
                    requires
                        pos < 8,
                        q < 8,
                ;
            }
            assert(flags_of(r | (1u8 << pos)) =~= flags_of(r).insert(bit));
        }
        self.register = self.register | (1u8 << pos);
    }

    /// Clears `bit` and leaves every other flag as it was.
    pub fn unset_bit(&mut self, bit: Flag)
        ensures
            final(self)@ == old(self)@.remove(bit),
            final(self).raw() == old(self).raw() & !bit.mask(),
    {
        let pos = bit.bit();
        proof {
            use_type_invariant(&*self);
            let r = self.register;
            assert((r & !(1u8 << pos)) & 0x20 == 0) by (bit_vector)
                requires
                    r & 0x20 == 0,
            ;
            assert forall|f: Flag| #[trigger]
                flags_of(r & !(1u8 << pos)).contains(f) == flags_of(r).remove(bit).contains(f) by {
                let q = f.position();
                assert(((r & !(1u8 << pos)) & (1u8 << q) != 0) == (pos != q && r & (1u8 << q) != 0))
                    by (bit_vector)
                    requires
                        pos < 8,
                        q < 8,
                ;
            }
            assert(flags_of(r & !(1u8 << pos)) =~= flags_of(r).remove(bit));
        }
        self.register = self.register & !(1u8 << pos);
    }

    /// Flips `bit` and leaves every other flag as it was.
    pub fn toggle_bit(&mut self, bit: Flag)
        ensures
            final(self)@ == if old(self)@.contains(bit) {
                old(self)@.remove(bit)
            } else {
                old(self)@.insert(bit)
            },
            final(self).raw() == old(self).raw() ^ bit.mask(),
    {
        let pos = bit.bit();
        proof {
            use_type_invariant(&*self);
            let r = self.register;
            assert((r ^ (1u8 << pos)) & 0x20 == 0) by (bit_vector)
                requires
                    r & 0x20 == 0,
                    pos < 8,
                    pos != 5,
            ;
            let flipped = if flags_of(r).contains(bit) {
                flags_of(r).remove(bit)
            } else {
                flags_of(r).insert(bit)
            };
            assert forall|f: Flag| #[trigger]
                flags_of(r ^ (1u8 << pos)).contains(f) == flipped.contains(f) by {
                let q = f.position();
                assert(((r ^ (1u8 << pos)) & (1u8 << q) != 0) == if pos == q {
                    r & (1u8 << q) == 0
                } else {
                    r & (1u8 << q) != 0
                }) by (bit_vector)
                    requires
                        pos < 8,
                        q < 8,
                ;
            }
            assert(flags_of(r ^ (1u8 << pos)) =~= flipped);
        }
        self.register = self.register ^ (1u8 << pos);
    }

    /// The whole packed byte.
    pub fn register(&self) -> (raw: u8)
        ensures
            raw == self.raw(),
            raw == raw_of(self@),
    {
        proof {
            use_type_invariant(self);
            lemma_unpack_pack(self.register);
        }
        self.register
    }

    /// The negative flag (bit 7), as 1 or 0.
    pub fn n(&self) -> (bit: u8)
        ensures
            bit == if self@.contains(Flag::N) { 1u8 } else { 0u8 },
    {
        self.read_bit(Flag::N.bit())
    }

    /// The overflow flag (bit 6), as 1 or 0.
    pub fn v(&self) -> (bit: u8)
        ensures
            bit == if self@.contains(Flag::V) { 1u8 } else { 0u8 },
    {
        self.read_bit(Flag::V.bit())
    }

    /// The break flag (bit 4), as 1 or 0.
    pub fn b(&self) -> (bit: u8)
        ensures
            bit == if self@.contains(Flag::B) { 1u8 } else { 0u8 },
    {
        self.read_bit(Flag::B.bit())
    }

    /// The decimal mode flag (bit 3), as 1 or 0.
    pub fn d(&self) -> (bit: u8)
        ensures
            bit == if self@.contains(Flag::D) { 1u8 } else { 0u8 },
    {
        self.read_bit(Flag::D.bit())
    }

    /// The interrupt disable flag (bit 2), as 1 or 0.
    pub fn i(&self) -> (bit: u8)
        ensures
            bit == if self@.contains(Flag::I) { 1u8 } else { 0u8 },
    {
        self.read_bit(Flag::I.bit())
    }

    /// The zero flag (bit 1), as 1 or 0.
    pub fn z(&self) -> (bit: u8)
        ensures
            bit == if self@.contains(Flag::Z) { 1u8 } else { 0u8 },
    {
        self.read_bit(Flag::Z.bit())
    }

    /// The carry flag (bit 0), as 1 or 0.
    pub fn c(&self) -> (bit: u8)
        ensures
            bit == if self@.contains(Flag::C) { 1u8 } else { 0u8 },
    {
        self.read_bit(Flag::C.bit())
    }
}

/// The set of raised flags says everything about a status register: two
/// registers that raise the same flags hold the same byte.
pub proof fn lemma_flags_determine_status(a: Status, b: Status)
    requires
        a.wf(),
        b.wf(),
        a@ == b@,
    ensures
        a == b,
{
    lemma_unpack_pack(a.raw());
    lemma_unpack_pack(b.raw());
}

} // verus!
