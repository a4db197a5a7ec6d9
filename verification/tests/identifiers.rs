//! Digests, transfer ids, virtual paths and texts.

use velcrux::storage::{VPath, VPathError};
use velcrux::text;
use velcrux::util;

#[test]
fn digest_of_nothing() {
    assert_eq!(
        util::Hash::of(b"").to_string(),
        "af1349b9f5f9a1a6a0404dea36dcc9499bcb25c9adc112b7cc9a93cae41f3262"
    );
    assert_ne!(util::Hash::of(b""), util::Hash::zero());
}

#[test]
fn digest_does_not_depend_on_the_pieces() {
    let data: Vec<u8> = (0..=255u8).cycle().take(10_000).collect();
    let mut h = util::HashHasher::new();
    for piece in data.chunks(777) {
        h.feed(piece);
    }
    assert_eq!(h.finalize(), util::Hash::of(&data));
}

#[test]
fn hashes_have_32_bytes() {
    assert!(util::Hash::from_bytes(&[1u8; 31]).is_none());
    assert!(util::Hash::from_bytes(&[1u8; 33]).is_none());
    assert_eq!(util::Hash::from_bytes(&[1u8; 32]).unwrap().as_bytes(), &[1u8; 32]);
}

#[test]
fn transfer_id_text_is_read_back() {
    for _ in 0..20 {
        let id = util::TransferId::generate();
        let s = id.to_string();
        assert_eq!(s.len(), 26);
        assert_eq!(util::TransferId::from_string(&s), Some(id));
    }
    let zero = util::TransferId::from_bytes(&[0u8; 16]).unwrap();
    assert_eq!(zero.to_string(), "00000000000000000000000000");
    let top = util::TransferId::from_bytes(&[0xFFu8; 16]).unwrap();
    assert_eq!(top.to_string(), "7ZZZZZZZZZZZZZZZZZZZZZZZZZ");
}

#[test]
fn what_is_no_transfer_id() {
    assert_eq!(util::TransferId::from_string(""), None);
    assert_eq!(util::TransferId::from_string("0000000000000000000000000"), None);
    assert_eq!(util::TransferId::from_string("8ZZZZZZZZZZZZZZZZZZZZZZZZZ"), None);
    assert_eq!(util::TransferId::from_string("0000000000000000000000000!"), None);
    assert!(util::TransferId::from_bytes(&[0u8; 15]).is_none());
}

#[test]
fn fresh_transfer_ids_differ() {
    assert_ne!(util::TransferId::generate(), util::TransferId::generate());
}

#[test]
fn virtual_paths() {
    assert_eq!(VPath::validate("a/b.c/d e").unwrap().as_str(), "a/b.c/d e");
    assert_eq!(VPath::validate("...").unwrap().as_str(), "...");
    assert_eq!(VPath::validate("").unwrap_err(), VPathError::Empty);
    assert_eq!(VPath::validate("/a").unwrap_err(), VPathError::Absolute);
    assert_eq!(VPath::validate("a//b").unwrap_err(), VPathError::EmptyComponent);
    assert_eq!(VPath::validate("a/").unwrap_err(), VPathError::EmptyComponent);
    assert_eq!(VPath::validate("a/../b").unwrap_err(), VPathError::Traversal);
    assert_eq!(VPath::validate("./a").unwrap_err(), VPathError::Traversal);
    assert_eq!(VPath::validate("a\u{0}b").unwrap_err(), VPathError::ControlCharacter);
    assert_eq!(VPath::validate(&"x".repeat(256)).unwrap_err(), VPathError::ComponentTooLong);
    assert_eq!(VPath::validate(&"x/".repeat(3000)).unwrap_err(), VPathError::TooLong);
    assert!(VPath::validate(&"x".repeat(255)).is_ok());
    assert_eq!(VPathError::Traversal.message(), "path traversal");
}

#[test]
fn numbers_as_text() {
    let mut s = String::new();
    text::push_decimal(&mut s, u64::MAX);
    text::push_str(&mut s, " ");
    text::push_signed(&mut s, i64::MIN);
    text::push_str(&mut s, " ");
    text::push_hex(&mut s, &[0, 15, 16, 255]);
    assert_eq!(s, "18446744073709551615 -9223372036854775808 000f10ff");
}

#[test]
fn padded_text() {
    let mut s = String::new();
    text::push_padded_right(&mut s, "abc", 5);
    text::push_padded_number(&mut s, 42, 4);
    text::push_padded_right(&mut s, "longer", 3);
    text::push_padded_number(&mut s, 12345, 3);
    assert_eq!(s, format!("{:<5}{:>4}{:<3}{:>3}", "abc", 42, "longer", 12345));
}

#[test]
fn slashes_are_trimmed() {
    assert_eq!(text::trim_start("//a/b/"), "a/b/");
    assert_eq!(text::trim_end("//a/b//"), "//a/b");
    assert_eq!(text::trim_start("///"), "");
    assert_eq!(text::trim_end(""), "");
}
