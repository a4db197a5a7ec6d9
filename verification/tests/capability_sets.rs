//! Capability sets.

use velcrux::protocol::capabilities::{Capabilities, Capability};

#[test]
fn intersect_basic() {
    let mut a = Capabilities::empty();
    a.set(Capability::Blake3);
    a.set(Capability::CdcChunking);
    a.set(Capability::CompressionZstd);

    let mut b = Capabilities::empty();
    b.set(Capability::Blake3);
    b.set(Capability::FixedChunking);
    b.set(Capability::DedupChunkStore);

    let i = a.intersect(b);
    assert!(i.has(Capability::Blake3));
    assert!(!i.has(Capability::CdcChunking));
    assert!(!i.has(Capability::FixedChunking));
    assert!(!i.has(Capability::CompressionZstd));
    assert!(!i.has(Capability::DedupChunkStore));
}

#[test]
fn intersection_must_have_blake3() {
    let mut a = Capabilities::empty();
    a.set(Capability::FixedChunking);
    let mut b = Capabilities::empty();
    b.set(Capability::FixedChunking);
    let i = a.intersect(b);
    assert!(Capabilities::validate_intersection(i).is_err());
}

#[test]
fn intersection_must_have_chunking() {
    let mut a = Capabilities::empty();
    a.set(Capability::Blake3);
    let i = a.intersect(Capabilities::empty());
    assert!(Capabilities::validate_intersection(i).is_err());
}

#[test]
fn reserved_bits_masked_on_wire() {
    // Bits 10..=31 are reserved; to_wire() must zero them.
    let c = Capabilities(0xFFFF_FFFF);
    assert_eq!(c.to_wire(), 0x0000_0FFF);
}

#[test]
fn reserved_bits_are_zeroed_on_receipt() {
    assert_eq!(Capabilities::from_wire(0x0000_0C00), Capabilities::empty());
    assert_eq!(Capabilities::from_wire(0xFFFF_FFFF).0, 0x0000_03FF);
}
