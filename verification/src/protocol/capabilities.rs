//! Capability bitset.
//!
//! The server picks the intersection of client and server bits; an
//! intersection that lacks `BLAKE3` or any chunking mode is rejected.

use vstd::prelude::*;

use crate::text;

verus! {

/// A single capability.
#[derive(Debug, Clone, Copy, PartialEq, Eq, Hash, Structural)]
pub enum Capability {
    /// Fixed-size chunking.
    FixedChunking,
    /// Content-defined (gear rolling hash) chunking.
    CdcChunking,
    /// BLAKE3-256 hashing. Mandatory.
    Blake3,
    /// SHA-256 hashing. Interop and compliance mode only.
    Sha256,
    /// Content-addressed dedup chunk store.
    DedupChunkStore,
    /// zstd compression.
    CompressionZstd,
    /// Sparse file support.
    SparseFiles,
    /// Symlink preservation.
    Symlinks,
    /// Hardlink preservation.
    Hardlinks,
    /// Bloom filter inventory hint.
    InventoryBloom,
}

impl Capability {
    /// The number of the capability's bit.
    pub open spec fn index(self) -> u32 {
        match self {
            Capability::FixedChunking => 0,
            Capability::CdcChunking => 1,
            Capability::Blake3 => 2,
            Capability::Sha256 => 3,
            Capability::DedupChunkStore => 4,
            Capability::CompressionZstd => 5,
            Capability::SparseFiles => 6,
            Capability::Symlinks => 7,
            Capability::Hardlinks => 8,
            Capability::InventoryBloom => 9,
        }
    }

    /// The capability's bit.
    pub open spec fn mask(self) -> u32 {
        1u32 << self.index()
    }

    fn bit(self) -> (m: u32)
        ensures
            m == self.mask(),
    {
        let i: u32 = match self {
            Capability::FixedChunking => 0,
            Capability::CdcChunking => 1,
            Capability::Blake3 => 2,
            Capability::Sha256 => 3,
            Capability::DedupChunkStore => 4,
            Capability::CompressionZstd => 5,
            Capability::SparseFiles => 6,
            Capability::Symlinks => 7,
            Capability::Hardlinks => 8,
            Capability::InventoryBloom => 9,
        };
        1u32 << i
    }
}

/// A set of capabilities, held as a bitset.
#[derive(Debug, Clone, Copy, PartialEq, Eq, Hash, Structural)]
pub struct Capabilities(pub u32);

/// The bits that are sent as they are; the others are sent as zero.
pub const WIRE_MASK: u32 = 0x0000_0FFF;

/// The bits that stand for capabilities; the others are reserved, and zeroed
/// on receipt.
pub const DEFINED_MASK: u32 = 0x0000_03FF;

impl Default for Capabilities {
    fn default() -> (r: Self)
        ensures
            r.0 == 0,
    {
        Capabilities(0)
    }
}

impl Capabilities {
    /// Whether the set holds `c`.
    pub open spec fn contains(self, c: Capability) -> bool {
        self.0 & c.mask() != 0
    }

    /// What is wrong with a negotiated set, if anything: it must hold BLAKE3
    /// and at least one chunking mode.
    pub open spec fn intersection_fault(self) -> Option<&'static str> {
        if !self.contains(Capability::Blake3) {
            Some("intersection lacks mandatory BLAKE3")
        } else if !self.contains(Capability::FixedChunking) && !self.contains(
            Capability::CdcChunking,
        ) {
            Some("intersection lacks any chunking mode")
        } else {
            None
        }
    }

    /// Empty capability set.
    pub fn empty() -> (r: Self)
        ensures
            r.0 == 0,
    {
        Capabilities(0)
    }

    /// Construct from a raw bitset as received on the wire. Reserved bits
    /// (10..=31) are zeroed.
    pub fn from_wire(bits: u32) -> (r: Self)
        ensures
            r.0 == bits & DEFINED_MASK,
    {
        Capabilities(bits & DEFINED_MASK)
    }

    /// Raw bitset as transmitted on the wire. Reserved bits are zeroed.
    pub fn to_wire(self) -> (r: u32)
        ensures
            r == self.0 & WIRE_MASK,
    {
        self.0 & WIRE_MASK
    }

    /// Set a single capability.
    pub fn set(&mut self, c: Capability) -> (r: &mut Self)
        ensures
            r.0 == old(self).0 | c.mask(),
            *final(self) == *final(r),
    {
        self.0 = self.0 | c.bit();
        self
    }

    /// Clear a single capability.
    pub fn clear(&mut self, c: Capability) -> (r: &mut Self)
        ensures
            r.0 == old(self).0 & !c.mask(),
            *final(self) == *final(r),
    {
        self.0 = self.0 & !c.bit();
        self
    }

    /// Test a single capability.
    pub fn has(self, c: Capability) -> (r: bool)
        ensures
            r == self.contains(c),
    {
        (self.0 & c.bit()) != 0
    }

    /// Bitwise intersection of two capability sets.
    pub fn intersect(self, other: Self) -> (r: Self)
        ensures
            r.0 == self.0 & other.0,
    {
        Capabilities(self.0 & other.0)
    }

    /// True if this set is empty.
    pub fn is_empty(self) -> (r: bool)
        ensures
            r == (self.0 == 0),
    {
        self.0 == 0
    }

    /// Mandatory checks on a negotiated set: it must hold `BLAKE3` and at
    /// least one chunking mode.
    pub fn validate_intersection(intersection: Self) -> (r: Result<(), &'static str>)
        ensures
            match intersection.intersection_fault() {
                Some(s) => r == Err::<(), &'static str>(s),
                None => r is Ok,
            },
    {
        if !intersection.has(Capability::Blake3) {
            return Err("intersection lacks mandatory BLAKE3");
        }
        if !intersection.has(Capability::FixedChunking) && !intersection.has(
            Capability::CdcChunking,
        ) {
            return Err("intersection lacks any chunking mode");
        }
        Ok(())
    }
}

impl std::ops::BitOr for Capabilities {
    type Output = Self;

    fn bitor(self, rhs: Self) -> (r: Self) {
        Capabilities(self.0 | rhs.0)
    }
}

impl vstd::std_specs::ops::BitOrSpecImpl for Capabilities {
    open spec fn obeys_bitor_spec() -> bool {
        true
    }

    open spec fn bitor_req(self, rhs: Self) -> bool {
        true
    }

    open spec fn bitor_spec(self, rhs: Self) -> Self {
        Capabilities(self.0 | rhs.0)
    }
}

impl std::ops::BitOrAssign for Capabilities {
    fn bitor_assign(&mut self, rhs: Self)
        ensures
            final(self).0 == old(self).0 | rhs.0,
    {
        self.0 = self.0 | rhs.0;
    }
}

/// The capabilities and their names, in the order of their bits.
pub open spec fn named(i: int) -> (Capability, &'static str) {
    if i == 0 {
        (Capability::FixedChunking, "fixed")
    } else if i == 1 {
        (Capability::CdcChunking, "cdc")
    } else if i == 2 {
        (Capability::Blake3, "blake3")
    } else if i == 3 {
        (Capability::Sha256, "sha256")
    } else if i == 4 {
        (Capability::DedupChunkStore, "dedup")
    } else if i == 5 {
        (Capability::CompressionZstd, "zstd")
    } else if i == 6 {
        (Capability::SparseFiles, "sparse")
    } else if i == 7 {
        (Capability::Symlinks, "symlinks")
    } else if i == 8 {
        (Capability::Hardlinks, "hardlinks")
    } else {
        (Capability::InventoryBloom, "bloom")
    }
}

/// Names, with commas between them.
pub open spec fn with_name(list: Seq<char>, name: Seq<char>) -> Seq<char> {
    if list.len() == 0 {
        name
    } else {
        list + ","@ + name
    }
}

fn name_at(i: usize) -> (r: (Capability, &'static str))
    requires
        i < 10,
    ensures
        r == named(i as int),
{
    match i {
        0 => (Capability::FixedChunking, "fixed"),
        1 => (Capability::CdcChunking, "cdc"),
        2 => (Capability::Blake3, "blake3"),
        3 => (Capability::Sha256, "sha256"),
        4 => (Capability::DedupChunkStore, "dedup"),
        5 => (Capability::CompressionZstd, "zstd"),
        6 => (Capability::SparseFiles, "sparse"),
        7 => (Capability::Symlinks, "symlinks"),
        8 => (Capability::Hardlinks, "hardlinks"),
        _ => (Capability::InventoryBloom, "bloom"),
    }
}

impl Capabilities {
    /// The names of those of the first `n` capabilities that are in the set.
    pub open spec fn listed(self, n: int) -> Seq<char>
        decreases n,
    {
        if n <= 0 {
            Seq::empty()
        } else if self.contains(named(n - 1).0) {
            with_name(self.listed(n - 1), named(n - 1).1@)
        } else {
            self.listed(n - 1)
        }
    }

    /// The set as text: the names of its capabilities in braces.
    pub fn to_string(&self) -> (r: String)
        ensures
            r@ == "{"@ + self.listed(10) + "}"@,
    {
        let mut list: String = String::new();
        let mut i: usize = 0;
        assert(list@ =~= self.listed(0));
        while i < 10
            invariant
                i <= 10,
                list@ == self.listed(i as int),
            decreases 10 - i,
        {
            let (c, name) = name_at(i);
            if self.has(c) {
                if text::chars_of(list.as_str()).len() > 0 {
                    text::push_str(&mut list, ",");
                }
                text::push_str(&mut list, name);
                assert(list@ =~= self.listed(i + 1));
            }
            i = i + 1;
        }
        let mut out: String = String::new();
        text::push_str(&mut out, "{");
        text::push_str(&mut out, list.as_str());
        text::push_str(&mut out, "}");
        assert(out@ =~= "{"@ + self.listed(10) + "}"@);
        out
    }
}

/// A capability is in the intersection exactly if it is in both sets.
pub proof fn law_intersect_contains(a: Capabilities, b: Capabilities, c: Capability)
    ensures
        Capabilities(a.0 & b.0).contains(c) <==> a.contains(c) && b.contains(c),
{
    let x = a.0;
    let y = b.0;
    let i = c.index();
    assert((x & y) & (1u32 << i) != 0 <==> x & (1u32 << i) != 0 && y & (1u32 << i) != 0)
        by (bit_vector)
        requires
            i < 32,
    ;
}

/// Setting a capability adds it and no other.
pub proof fn law_set_contains(a: Capabilities, c: Capability, d: Capability)
    ensures
        Capabilities(a.0 | c.mask()).contains(d) <==> c == d || a.contains(d),
{
    let x = a.0;
    let i = c.index();
    let j = d.index();
    assert((x | (1u32 << i)) & (1u32 << j) != 0 <==> i == j || x & (1u32 << j) != 0)
        by (bit_vector)
        requires
            i < 32,
            j < 32,
    ;
}

/// Clearing a capability removes it and no other.
pub proof fn law_clear_contains(a: Capabilities, c: Capability, d: Capability)
    ensures
        Capabilities(a.0 & !c.mask()).contains(d) <==> c != d && a.contains(d),
{
    let x = a.0;
    let i = c.index();
    let j = d.index();
    assert((x & !(1u32 << i)) & (1u32 << j) != 0 <==> i != j && x & (1u32 << j) != 0)
        by (bit_vector)
        requires
            i < 32,
            j < 32,
    ;
}

/// Every capability survives the wire.
pub proof fn law_wire_keeps_capabilities(a: Capabilities, c: Capability)
    ensures
        Capabilities((a.0 & WIRE_MASK) & DEFINED_MASK).contains(c) <==> a.contains(c),
{
    let x = a.0;
    let i = c.index();
    assert(((x & 0xFFFu32) & 0x3FFu32) & (1u32 << i) != 0 <==> x & (1u32 << i) != 0)
        by (bit_vector)
        requires
            i < 10,
    ;
}

/// No capability is a reserved bit.
pub proof fn lemma_mask_contains(a: Capabilities, c: Capability)
    ensures
        Capabilities(a.0 & DEFINED_MASK).contains(c) <==> a.contains(c),
{
    let x = a.0;
    let i = c.index();
    assert((x & 0x3FFu32) & (1u32 << i) != 0 <==> x & (1u32 << i) != 0) by (bit_vector)
        requires
            i < 10,
    ;
}

/// Setting a capability sets no reserved bit.
pub proof fn lemma_set_within_mask(a: Capabilities, c: Capability)
    requires
        a.0 & DEFINED_MASK == a.0,
    ensures
        (a.0 | c.mask()) & DEFINED_MASK == a.0 | c.mask(),
{
    let x = a.0;
    let i = c.index();
    assert((x | (1u32 << i)) & 0x3FFu32 == x | (1u32 << i)) by (bit_vector)
        requires
            x & 0x3FFu32 == x,
            i < 10,
    ;
}

} // verus!
