//! Contracts of the functions of other crates and of std that the library
//! calls. What stands here is believed, not proved.

use vstd::prelude::*;

use bytes::Bytes;

verus! {

/// `bytes::Bytes`: an immutable, cheaply cloned byte string.
#[verifier::external_type_specification]
#[verifier::external_body]
pub struct ExBytes(bytes::Bytes);

/// The bytes that a `bytes::Bytes` holds.
pub uninterp spec fn bytes_content(b: bytes::Bytes) -> Seq<u8>;

/// `Bytes::from(Vec<u8>)`: takes over the vector's bytes unchanged.
#[verifier::external_body]
pub(crate) fn bytes_from_vec(v: Vec<u8>) -> (b: Bytes)
    ensures
        bytes_content(b) == v@,
{
    Bytes::from(v)
}

/// `Bytes::copy_from_slice`: holds a copy of the slice.
#[verifier::external_body]
pub(crate) fn bytes_copy_from_slice(data: &[u8]) -> (b: Bytes)
    ensures
        bytes_content(b) == data@,
{
    Bytes::copy_from_slice(data)
}

/// `<Bytes as Deref>::deref`: the bytes held, as a slice.
#[verifier::external_body]
pub(crate) fn bytes_as_slice(b: &Bytes) -> (s: &[u8])
    ensures
        s@ == bytes_content(*b),
{
    b
}

/// `<Bytes as Clone>::clone`: the same bytes.
pub assume_specification[ <bytes::Bytes as std::clone::Clone>::clone ](
    b: &bytes::Bytes,
) -> (r: bytes::Bytes)
    ensures
        bytes_content(r) == bytes_content(*b),
;

/// `blake3::Hasher`: an incremental BLAKE3 hasher.
#[verifier::external_type_specification]
#[verifier::external_body]
pub struct ExBlake3Hasher(blake3::Hasher);

/// The bytes that were fed to a hasher, in order.
pub uninterp spec fn blake3_input(h: blake3::Hasher) -> Seq<u8>;

/// The 32-byte BLAKE3 digest of an input.
pub uninterp spec fn blake3_digest(input: Seq<u8>) -> Seq<u8>;

/// `blake3::Hasher::new`: a hasher that was fed nothing.
#[verifier::external_body]
pub(crate) fn blake3_new() -> (h: blake3::Hasher)
    ensures
        blake3_input(h) == Seq::<u8>::empty(),
{
    blake3::Hasher::new()
}

/// `blake3::Hasher::update`: appends to the input.
#[verifier::external_body]
pub(crate) fn blake3_update(h: &mut blake3::Hasher, data: &[u8])
    ensures
        blake3_input(*final(h)) == blake3_input(*old(h)) + data@,
{
    h.update(data);
}

/// `blake3::Hasher::finalize`: the digest of everything fed so far. It is a
/// function of that input alone, not of how the input was split.
#[verifier::external_body]
pub(crate) fn blake3_finalize(h: &blake3::Hasher) -> (d: [u8; 32])
    ensures
        d@ == blake3_digest(blake3_input(*h)),
{
    *h.finalize().as_bytes()
}

/// `rand::random`: sixteen random bytes. Nothing is promised of them.
#[verifier::external_body]
pub(crate) fn random_bytes16() -> (r: [u8; 16])
{
    rand::random()
}

/// `rand::random`: a random number. Nothing is promised of it.
#[verifier::external_body]
pub(crate) fn random_u64() -> (r: u64)
{
    rand::random()
}

/// `std::str::from_utf8`: succeeds exactly on well-formed UTF-8, and gives
/// the text that the bytes encode.
#[verifier::external_body]
pub(crate) fn str_from_utf8(v: &[u8]) -> (r: Option<&str>)
    ensures
        r is Some <==> vstd::utf8::valid_utf8(v@),
        r matches Some(s) ==> vstd::utf8::encode_utf8(s@) == v@,
{
    std::str::from_utf8(v).ok()
}

/// `String::push`: appends one character.
#[verifier::external_body]
pub(crate) fn string_push(s: &mut String, c: char)
    ensures
        final(s)@ == old(s)@.push(c),
{
    s.push(c);
}

/// `zstd::stream::read::Decoder`: hands out the contents of zstd frames.
#[verifier::external_type_specification]
#[verifier::external_body]
#[verifier::reject_recursive_types(R)]
pub struct ExZstdDecoder<'a, R>(zstd::stream::read::Decoder<'a, R>);

/// `std::io::BufReader`: a reader with a buffer in front of it.
#[verifier::external_type_specification]
#[verifier::external_body]
#[verifier::reject_recursive_types(R)]
pub struct ExBufReader<R: ?Sized>(std::io::BufReader<R>);

/// The bytes that a zstd decoder was made on.
pub uninterp spec fn zstd_input(
    d: zstd::stream::read::Decoder<'static, std::io::BufReader<&[u8]>>,
) -> Seq<u8>;

/// The bytes that a zstd decoder has handed out so far, in order.
pub uninterp spec fn zstd_output(
    d: zstd::stream::read::Decoder<'static, std::io::BufReader<&[u8]>>,
) -> Seq<u8>;

/// What a zstd decoder made by `Decoder::new` hands out in all for an input,
/// if it is read 65536 bytes at a time; none where it fails before the end.
/// Read in other portions, it may fail on other inputs.
pub uninterp spec fn zstd_decoded(input: Seq<u8>) -> Option<Seq<u8>>;

/// The zstd frame that a level makes of an input; none where the compressor
/// fails.
pub uninterp spec fn zstd_compressed(input: Seq<u8>, level: i32) -> Option<Seq<u8>>;

/// `zstd::stream::read::Decoder::new`: a decoder that has handed out
/// nothing. Where none can be made, nothing can be decoded. Memory is taken
/// to suffice: that it runs out is left out of account.
#[verifier::external_body]
pub(crate) fn zstd_decoder(input: &[u8]) -> (r: Option<
    zstd::stream::read::Decoder<'static, std::io::BufReader<&[u8]>>,
>)
    ensures
        r matches Some(d) ==> zstd_input(d) == input@ && zstd_output(d) == Seq::<u8>::empty(),
        r is None ==> zstd_decoded(input@) is None,
{
    zstd::stream::read::Decoder::new(input).ok()
}

/// `<zstd::stream::read::Decoder as Read>::read`: puts the next bytes of the
/// contents at the front of `buf`, and no bytes only at a clean end. On an
/// input that decodes as a whole it does not fail; on a failure its text is
/// returned, and the decoder is dropped. All reads are of 65536 bytes: on some
/// inputs it depends on the length of `buf` whether zstd checks the window of a
/// frame. Memory is taken to suffice.
#[verifier::external_body]
pub(crate) fn zstd_read<'a>(
    d: zstd::stream::read::Decoder<'static, std::io::BufReader<&'a [u8]>>,
    buf: &mut Vec<u8>,
) -> (r: Result<
    (zstd::stream::read::Decoder<'static, std::io::BufReader<&'a [u8]>>, usize),
    String,
>)
    requires
        old(buf)@.len() == 65536,
    ensures
        final(buf)@.len() == old(buf)@.len(),
        match r {
            Ok((e, n)) => {
                &&& n <= final(buf)@.len()
                &&& zstd_input(e) == zstd_input(d)
                &&& zstd_output(e) == zstd_output(d) + final(buf)@.take(n as int)
                &&& n == 0 ==> zstd_decoded(zstd_input(d)) == Some(zstd_output(d))
                &&& zstd_decoded(zstd_input(d)) matches Some(all) ==> zstd_output(e).is_prefix_of(
                    all,
                )
            },
            Err(_) => zstd_decoded(zstd_input(d)) is None,
        },
{
    let mut d = d;
    match std::io::Read::read(&mut d, buf.as_mut_slice()) {
        Ok(n) => Ok((d, n)),
        Err(e) => Err(e.to_string()),
    }
}

/// `zstd::encode_all`: one frame, from which a decoder hands the input out
/// again. Memory is taken to suffice.
#[verifier::external_body]
pub(crate) fn zstd_encode_all(input: &[u8], level: i32) -> (r: Option<Vec<u8>>)
    ensures
        match zstd_compressed(input@, level) {
            Some(c) => r matches Some(v) && v@ == c && zstd_decoded(c) == Some(input@),
            None => r is None,
        },
{
    zstd::encode_all(input, level).ok()
}

/// `ring::signature::Ed25519KeyPair`: a key pair for signing.
#[verifier::external_type_specification]
#[verifier::external_body]
pub struct ExEd25519KeyPair(ring::signature::Ed25519KeyPair);

/// The public key of a key pair.
pub uninterp spec fn ed25519_public_key(k: ring::signature::Ed25519KeyPair) -> Seq<u8>;

/// The signature that a key pair makes of a message.
pub uninterp spec fn ed25519_signature(k: ring::signature::Ed25519KeyPair, msg: Seq<u8>) -> Seq<u8>;

/// Whether a signature of a message is valid under a public key.
pub uninterp spec fn ed25519_valid(public_key: Seq<u8>, msg: Seq<u8>, sig: Seq<u8>) -> bool;

/// `<Ed25519KeyPair as KeyPair>::public_key`: the 32 bytes of the public key.
#[verifier::external_body]
pub(crate) fn ed25519_public(k: &ring::signature::Ed25519KeyPair) -> (r: &[u8])
    ensures
        r@ == ed25519_public_key(*k),
        r@.len() == 32,
{
    ring::signature::KeyPair::public_key(k).as_ref()
}

/// `Ed25519KeyPair::sign`: a signature of 64 bytes, the same for the same key
/// and message, and valid under the public key of the pair.
#[verifier::external_body]
pub(crate) fn ed25519_sign(k: &ring::signature::Ed25519KeyPair, msg: &[u8]) -> (r: Vec<u8>)
    ensures
        r@ == ed25519_signature(*k, msg@),
        r@.len() == 64,
        ed25519_valid(ed25519_public_key(*k), msg@, r@),
{
    k.sign(msg).as_ref().to_vec()
}

/// `UnparsedPublicKey::verify` with `ED25519`: whether the signature is
/// valid. Which signatures are is not stated here.
#[verifier::external_body]
pub(crate) fn ed25519_verify(public_key: &[u8], msg: &[u8], sig: &[u8]) -> (r: bool)
    ensures
        r == ed25519_valid(public_key@, msg@, sig@),
{
    ring::signature::UnparsedPublicKey::new(&ring::signature::ED25519, public_key).verify(
        msg,
        sig,
    ).is_ok()
}

/// Byte strings by their contents.
pub open spec fn byte_strings(s: Seq<Vec<u8>>) -> Seq<Seq<u8>> {
    s.map_values(|b: Vec<u8>| b@)
}

/// The certificates of a PEM file, or what is wrong with the file.
pub uninterp spec fn pem_certs(pem: Seq<u8>) -> Result<Seq<Seq<u8>>, Seq<char>>;

/// The PKCS#8 keys of a PEM file, or what is wrong with the file.
pub uninterp spec fn pem_pkcs8_keys(pem: Seq<u8>) -> Result<Seq<Seq<u8>>, Seq<char>>;

/// `rustls_pemfile::certs`: the DER form of each certificate section, in order;
/// none where the file has no such section. On a malformed section, the text of
/// the error. How sections are told apart is not stated here.
#[verifier::external_body]
pub(crate) fn read_pem_certs(pem: &[u8]) -> (r: Result<Vec<Vec<u8>>, String>)
    ensures
        match pem_certs(pem@) {
            Ok(s) => r matches Ok(v) && byte_strings(v@) == s,
            Err(t) => r matches Err(e) && e@ == t,
        },
{
    let mut rest: &[u8] = pem;
    match rustls_pemfile::certs(&mut rest) {
        Ok(v) => Ok(v),
        Err(e) => Err(e.to_string()),
    }
}

/// `rustls_pemfile::pkcs8_private_keys`: the DER form of each PKCS#8 key
/// section, in order; none where the file has no such section. On a malformed
/// section, the text of the error. How sections are told apart is not stated
/// here.
#[verifier::external_body]
pub(crate) fn read_pem_pkcs8_keys(pem: &[u8]) -> (r: Result<Vec<Vec<u8>>, String>)
    ensures
        match pem_pkcs8_keys(pem@) {
            Ok(s) => r matches Ok(v) && byte_strings(v@) == s,
            Err(t) => r matches Err(e) && e@ == t,
        },
{
    let mut rest: &[u8] = pem;
    match rustls_pemfile::pkcs8_private_keys(&mut rest) {
        Ok(v) => Ok(v),
        Err(e) => Err(e.to_string()),
    }
}

/// What `{:?}` makes of a text.
pub uninterp spec fn debug_text(s: Seq<char>) -> Seq<char>;

/// `<str as Debug>::fmt`: the text in quotes, with escapes.
#[verifier::external_body]
pub(crate) fn str_debug(s: &str) -> (r: String)
    ensures
        r@ == debug_text(s@),
{
    format!("{:?}", s)
}

} // verus!
