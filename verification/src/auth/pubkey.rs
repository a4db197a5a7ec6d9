//! Channel-bound public-key authentication.
//!
//! A file maps Ed25519 public keys to identities. The AUTH token carries a
//! public key and a signature over a fixed prefix and a secret that is
//! exported from the TLS connection, so that a token is good for one
//! connection only.

use vstd::prelude::*;
use vstd::utf8;

use crate::error::{Fault, ProtocolError, Result, VelcruxError};
use crate::foreign;
use crate::protocol::wire;
use crate::state::rows::{Row, Rows};
use crate::text;
use crate::transport::identity::{Identity, IdentityView};
use crate::util;

verus! {

/// Label for the TLS keying material exporter (`"velcrux-auth-v1"`).
pub const AUTH_EXPORTER_LABEL: [u8; 15] = [
    0x76, 0x65, 0x6C, 0x63, 0x72, 0x75, 0x78, 0x2D, 0x61, 0x75, 0x74, 0x68, 0x2D, 0x76, 0x31,
];

/// Exporter secret size in bytes.
pub const EXPORTER_SECRET_LEN: usize = 32;

/// What stands in front of the exporter secret in the signed payload
/// (`"velcrux-auth-v1"`).
pub const AUTH_SIGNATURE_PREFIX: [u8; 15] = [
    0x76, 0x65, 0x6C, 0x63, 0x72, 0x75, 0x78, 0x2D, 0x61, 0x75, 0x74, 0x68, 0x2D, 0x76, 0x31,
];

/// Size of an Ed25519 public key in bytes.
pub const ED25519_PUBKEY_LEN: usize = 32;

/// Size of an Ed25519 signature in bytes.
pub const ED25519_SIGNATURE_LEN: usize = 64;

/// Size of a token: public key and signature.
pub const SSH_PUBKEY_TOKEN_LEN: usize = 96;

/// The payload that is signed for a connection.
pub open spec fn signed_payload(secret: Seq<u8>) -> Seq<u8> {
    AUTH_SIGNATURE_PREFIX@ + secret
}

/// The payload that is signed for a connection.
pub fn compute_signed_payload(exporter_secret: &[u8; 32]) -> (r: Vec<u8>)
    ensures
        r@ == signed_payload(exporter_secret@),
{
    let mut payload: Vec<u8> = Vec::new();
    wire::push_bytes(&mut payload, AUTH_SIGNATURE_PREFIX.as_slice());
    wire::push_bytes(&mut payload, exporter_secret.as_slice());
    assert(payload@ =~= signed_payload(exporter_secret@));
    payload
}

/// The token of a key pair for a connection: the public key, and the
/// signature of the payload.
pub fn create_pubkey_auth_token(
    keypair: &ring::signature::Ed25519KeyPair,
    exporter_secret: &[u8; 32],
) -> (r: Vec<u8>)
    ensures
        r@ == foreign::ed25519_public_key(*keypair) + foreign::ed25519_signature(
            *keypair,
            signed_payload(exporter_secret@),
        ),
        token_fault(r@, exporter_secret@) is None,
        r@.take(32) == foreign::ed25519_public_key(*keypair),
{
    let payload = compute_signed_payload(exporter_secret);
    let sig = foreign::ed25519_sign(keypair, payload.as_slice());
    let public = foreign::ed25519_public(keypair);
    let mut token: Vec<u8> = Vec::new();
    wire::push_bytes(&mut token, public);
    wire::push_bytes(&mut token, sig.as_slice());
    proof {
        assert(token@ =~= public@ + sig@);
        assert(token@.take(32) =~= public@);
        assert(token@.skip(32) =~= sig@);
    }
    token
}

/// What is wrong with a token on a connection.
pub open spec fn token_fault(token: Seq<u8>, secret: Seq<u8>) -> Option<ProtocolError> {
    if token.len() != SSH_PUBKEY_TOKEN_LEN {
        Some(ProtocolError::Malformed("AUTH token invalid length for SSH pubkey mechanism"))
    } else if !foreign::ed25519_valid(token.take(32), signed_payload(secret), token.skip(32)) {
        Some(
            ProtocolError::InvalidIdentity("channel-bound pubkey signature verification failed"),
        )
    } else {
        None
    }
}

/// Verify a token on a connection. Returns the public key.
pub fn verify_pubkey_auth_token(token: &[u8], exporter_secret: &[u8; 32]) -> (r: Result<[u8; 32]>)
    ensures
        match token_fault(token@, exporter_secret@) {
            None => r matches Ok(k) && k@ == token@.take(32),
            Some(f) => r matches Err(e) && e.is(Fault::Plain(f)),
        },
{
    if token.len() != SSH_PUBKEY_TOKEN_LEN {
        return Err(
            VelcruxError::Protocol(
                ProtocolError::Malformed("AUTH token invalid length for SSH pubkey mechanism"),
            ),
        );
    }
    let pubkey: [u8; 32] = util::array_of::<32>(token);
    let sig = wire::slice_from(token, ED25519_PUBKEY_LEN);
    let payload = compute_signed_payload(exporter_secret);
    if !foreign::ed25519_verify(pubkey.as_slice(), payload.as_slice(), sig) {
        return Err(
            VelcruxError::Protocol(
                ProtocolError::InvalidIdentity(
                    "channel-bound pubkey signature verification failed",
                ),
            ),
        );
    }
    Ok(pubkey)
}

/// A public key.
pub struct PublicKey {
    bytes: [u8; 32],
}

impl View for PublicKey {
    type V = Seq<u8>;

    closed spec fn view(&self) -> Seq<u8> {
        self.bytes@
    }
}

/// A public key and its identity.
pub struct KeyRow {
    key_bytes: [u8; 32],
    identity: String,
}

impl View for KeyRow {
    type V = Seq<char>;

    closed spec fn view(&self) -> Seq<char> {
        self.identity@
    }
}

impl Row for KeyRow {
    type Key = PublicKey;

    closed spec fn key(&self) -> Seq<u8> {
        self.key_bytes@
    }

    fn has_key(&self, k: &PublicKey) -> (r: bool) {
        util::same_bytes(self.key_bytes.as_slice(), k.bytes.as_slice())
    }
}

/// Authorized public keys and the identities that they stand for.
pub struct AuthorizedKeys {
    keys: Rows<KeyRow>,
}

impl View for AuthorizedKeys {
    type V = Map<Seq<u8>, Seq<char>>;

    closed spec fn view(&self) -> Map<Seq<u8>, Seq<char>> {
        self.keys@
    }
}

impl Default for AuthorizedKeys {
    fn default() -> (r: Self)
        ensures
            r@ == Map::<Seq<u8>, Seq<char>>::empty(),
    {
        AuthorizedKeys::new()
    }
}

impl AuthorizedKeys {
    /// No keys.
    pub fn new() -> (r: Self)
        ensures
            r@ == Map::<Seq<u8>, Seq<char>>::empty(),
    {
        AuthorizedKeys { keys: Rows::new() }
    }

    /// Authorize a key for an identity.
    pub fn add_key(&mut self, pubkey: [u8; 32], identity: String)
        ensures
            final(self)@ == old(self)@.insert(pubkey@, identity@),
    {
        self.keys.put(
            &PublicKey { bytes: pubkey },
            KeyRow { key_bytes: pubkey, identity },
        );
    }

    /// The identity of a key.
    pub fn lookup(&self, pubkey: &[u8; 32]) -> (r: Option<&str>)
        ensures
            r is Some <==> self@.dom().contains(pubkey@),
            r matches Some(s) ==> s@ == self@[pubkey@],
    {
        match self.keys.get(&PublicKey { bytes: *pubkey }) {
            Some(row) => Some(row.identity.as_str()),
            None => None,
        }
    }

    /// Parse a file of authorized keys. A line holds either a public key in
    /// hexadecimal and an identity, or `ssh-ed25519`, a key in base64 and an
    /// identity. Blank lines and lines that start with `#` are skipped.
    pub fn parse(content: &str) -> (r: Result<Self>)
        ensures
            match keys_of(text::lines(content@), text::lines(content@).len() as int) {
                Ok(m) => r matches Ok(k) && k@ == m,
                Err(t) => r matches Err(VelcruxError::Config(s)) && s@ == t,
            },
    {
        let lines = text::lines_of(content);
        let ghost all = text::texts(lines@);
        let mut set = AuthorizedKeys::new();
        let mut i: usize = 0;
        while i < lines.len()
            invariant
                i <= lines.len(),
                all == text::texts(lines@),
                all == text::lines(content@),
                keys_of(all, i as int) == Ok::<Map<Seq<u8>, Seq<char>>, Seq<char>>(set@),
            decreases lines.len() - i,
        {
            assert(all[i as int] == lines@[i as int]@);
            match parse_line(i as u64 + 1, &lines[i]) {
                Ok(Some((key, identity))) => {
                    set.add_key(key, identity);
                },
                Ok(None) => {},
                Err(t) => {
                    proof {
                        lemma_keys_fault(all, i + 1, all.len() as int);
                    }
                    return Err(VelcruxError::Config(t));
                },
            }
            i = i + 1;
        }
        Ok(set)
    }

    /// Authenticate a peer by its token on a connection.
    pub fn authenticate(&self, token: &[u8], exporter_secret: &[u8; 32]) -> (r: Result<Identity>)
        ensures
            match token_fault(token@, exporter_secret@) {
                Some(f) => r matches Err(e) && e.is(Fault::Plain(f)),
                None => if self@.dom().contains(token@.take(32)) {
                    r matches Ok(i) && i@ == (IdentityView {
                        name: self@[token@.take(32)],
                        issuer_fingerprint: "ssh-pubkey"@,
                        cert_fingerprint: text::hex(token@.take(32)),
                    })
                } else {
                    r matches Err(e) && e.is(
                        Fault::Plain(
                            ProtocolError::InvalidIdentity("public key not in authorized_keys"),
                        ),
                    )
                },
            },
    {
        let pubkey = match verify_pubkey_auth_token(token, exporter_secret) {
            Ok(k) => k,
            Err(e) => {
                return Err(e);
            },
        };
        match self.lookup(&pubkey) {
            Some(name) => {
                let mut fingerprint: String = String::new();
                text::push_hex(&mut fingerprint, pubkey.as_slice());
                assert(fingerprint@ =~= text::hex(pubkey@));
                Ok(Identity::new(name, "ssh-pubkey", fingerprint.as_str()))
            },
            None => Err(
                VelcruxError::Protocol(
                    ProtocolError::InvalidIdentity("public key not in authorized_keys"),
                ),
            ),
        }
    }
}

/// A public key with a valid signature for a connection is a token that is
/// accepted on it, as that key.
pub proof fn law_pubkey_token_accepted(
    public_key: Seq<u8>,
    signature: Seq<u8>,
    secret: Seq<u8>,
)
    requires
        public_key.len() == 32,
        signature.len() == 64,
        foreign::ed25519_valid(public_key, signed_payload(secret), signature),
    ensures
        token_fault(public_key + signature, secret) is None,
        (public_key + signature).take(32) == public_key,
{
    assert((public_key + signature).take(32) =~= public_key);
    assert((public_key + signature).skip(32) =~= signature);
}

/// `line {n}: ` and a text.
pub open spec fn line_text(n: u64, t: Seq<char>) -> Seq<char> {
    "line "@ + text::decimal(n as nat) + ": "@ + t
}

fn line_error(n: u64, t: &str) -> (r: String)
    ensures
        r@ == line_text(n, t@),
{
    let mut s: String = text::with_number("line ", n, ": ");
    text::push_str(&mut s, t);
    s
}

/// The key and the identity on a line, by its words; none on a line without
/// a key; or what is wrong with the line.
pub open spec fn key_line(n: u64, w: Seq<Seq<char>>) -> std::result::Result<
    Option<(Seq<u8>, Seq<char>)>,
    Seq<char>,
> {
    if w.len() == 0 || w[0][0] == '#' {
        Ok(None)
    } else if w.len() < 2 {
        Err(line_text(n, "invalid authorized_keys entry: "@ + w[0]))
    } else if w[0] == "ssh-ed25519"@ {
        let identity = if w.len() >= 3 {
            text::joined(w.skip(2))
        } else {
            "key-"@ + text::decimal(n as nat)
        };
        match base64_decoded(w[1]) {
            Err(c) => Err(
                line_text(
                    n,
                    "invalid base64 in ssh-ed25519 key: configuration error: invalid base64 char: "@
                        + seq![c],
                ),
            ),
            Ok(raw) => if raw.len() == 32 {
                Ok(Some((raw, identity)))
            } else if raw.len() >= 51 {
                Ok(Some((raw.subrange(19, 51), identity)))
            } else {
                Err(
                    line_text(
                        n,
                        "unexpected length "@ + text::decimal(raw.len())
                            + " for ssh-ed25519 key"@,
                    ),
                )
            },
        }
    } else {
        match hex_decoded(utf8::encode_utf8(w[0])) {
            Err(t) => Err(
                line_text(n, "invalid hex in authorized key: configuration error: "@ + t),
            ),
            Ok(raw) => if raw.len() == 32 {
                Ok(Some((raw, text::joined(w.skip(1)))))
            } else {
                Err(
                    line_text(
                        n,
                        "ed25519 pubkey must be 32 bytes (got "@ + text::decimal(raw.len())
                            + ")"@,
                    ),
                )
            },
        }
    }
}

/// The keys on the first `n` lines, later ones in place of earlier ones; or
/// what is wrong with the first line that is wrong.
pub open spec fn keys_of(lines: Seq<Seq<char>>, n: int) -> std::result::Result<
    Map<Seq<u8>, Seq<char>>,
    Seq<char>,
>
    decreases n,
{
    if n <= 0 {
        Ok(Map::empty())
    } else {
        match keys_of(lines, n - 1) {
            Err(t) => Err(t),
            Ok(m) => match key_line(n as u64, text::words(lines[n - 1])) {
                Err(t) => Err(t),
                Ok(None) => Ok(m),
                Ok(Some((k, identity))) => Ok(m.insert(k, identity)),
            },
        }
    }
}

proof fn lemma_keys_fault(lines: Seq<Seq<char>>, k: int, n: int)
    requires
        0 <= k <= n,
        keys_of(lines, k) is Err,
    ensures
        keys_of(lines, n) == keys_of(lines, k),
    decreases n - k,
{
    if k < n {
        lemma_keys_fault(lines, k, n - 1);
    }
}

/// The key and the identity on a line.
fn parse_line(n: u64, line: &Vec<char>) -> (r: std::result::Result<
    Option<([u8; 32], String)>,
    String,
>)
    ensures
        match key_line(n, text::words(line@)) {
            Ok(None) => r matches Ok(None),
            Ok(Some((k, i))) => r matches Ok(Some((key, identity))) && key@ == k && identity@ == i,
            Err(t) => r matches Err(s) && s@ == t,
        },
{
    let words = text::words_of(line.as_slice());
    let ghost w = text::texts(words@);
    if words.len() == 0 {
        return Ok(None);
    }
    proof {
        text::lemma_words_not_empty(line@, 0);
        assert(w[0] == words@[0]@);
    }
    if words[0][0] == '#' {
        return Ok(None);
    }
    let first = text::string_of(words[0].as_slice());
    if words.len() < 2 {
        let mut t: String = "invalid authorized_keys entry: ".to_owned();
        text::push_str(&mut t, first.as_str());
        return Err(line_error(n, t.as_str()));
    }
    assert(w[1] == words@[1]@);
    if text::same_text(first.as_str(), "ssh-ed25519") {
        let identity: String = if words.len() >= 3 {
            text::join_from(&words, 2)
        } else {
            let mut t: String = "key-".to_owned();
            text::push_decimal(&mut t, n);
            t
        };
        let raw = match decode_base64(&words[1]) {
            Ok(v) => v,
            Err(c) => {
                let mut t: String =
                    "invalid base64 in ssh-ed25519 key: configuration error: invalid base64 char: ".to_owned();
                foreign::string_push(&mut t, c);
                assert(t@
                    =~= "invalid base64 in ssh-ed25519 key: configuration error: invalid base64 char: "@
                    + seq![c]);
                return Err(line_error(n, t.as_str()));
            },
        };
        if raw.len() == 32 {
            let key: [u8; 32] = util::array_of::<32>(raw.as_slice());
            assert(key@ =~= raw@);
            Ok(Some((key, identity)))
        } else if raw.len() >= 51 {
            let part = wire::slice_from(raw.as_slice(), 19);
            let key: [u8; 32] = util::array_of::<32>(part);
            assert(key@ =~= raw@.subrange(19, 51));
            Ok(Some((key, identity)))
        } else {
            let t: String = text::with_number(
                "unexpected length ",
                raw.len() as u64,
                " for ssh-ed25519 key",
            );
            Err(line_error(n, t.as_str()))
        }
    } else {
        let identity: String = text::join_from(&words, 1);
        let raw = match decode_hex(first.as_str()) {
            Ok(v) => v,
            Err(e) => {
                let mut t: String = "invalid hex in authorized key: configuration error: ".to_owned();
                text::push_str(&mut t, e);
                return Err(line_error(n, t.as_str()));
            },
        };
        if raw.len() != ED25519_PUBKEY_LEN {
            let t: String = text::with_number(
                "ed25519 pubkey must be 32 bytes (got ",
                raw.len() as u64,
                ")",
            );
            return Err(line_error(n, t.as_str()));
        }
        let key: [u8; 32] = util::array_of::<32>(raw.as_slice());
        assert(key@ =~= raw@);
        Ok(Some((key, identity)))
    }
}

/// The value of a hexadecimal digit.
pub open spec fn hex_value(b: u8) -> Option<int> {
    if 48 <= b <= 57 {
        Some(b - 48)
    } else if 97 <= b <= 102 {
        Some(b - 87)
    } else if 65 <= b <= 70 {
        Some(b - 55)
    } else {
        None
    }
}

/// The value of two characters as a hexadecimal number; a plus sign may
/// stand in front of a single digit.
pub open spec fn hex_pair(a: u8, b: u8) -> Option<u8> {
    if a == 43 {
        match hex_value(b) {
            Some(y) => Some(y as u8),
            None => None,
        }
    } else {
        match (hex_value(a), hex_value(b)) {
            (Some(x), Some(y)) => Some((16 * x + y) as u8),
            _ => None,
        }
    }
}

/// The bytes of the first `n` pairs of hexadecimal digits, if they all are.
pub open spec fn hex_pairs(s: Seq<u8>, n: int) -> Option<Seq<u8>>
    decreases n,
{
    if n <= 0 {
        Some(Seq::empty())
    } else {
        match (hex_pairs(s, n - 1), hex_pair(s[2 * n - 2], s[2 * n - 1])) {
            (Some(v), Some(b)) => Some(v.push(b)),
            _ => None,
        }
    }
}

/// The bytes of a hexadecimal text, or what is wrong with it.
pub open spec fn hex_decoded(s: Seq<u8>) -> std::result::Result<Seq<u8>, Seq<char>> {
    if s.len() % 2 != 0 {
        Err("hex string odd length"@)
    } else {
        match hex_pairs(s, (s.len() / 2) as int) {
            Some(v) => Ok(v),
            None => Err("invalid hex: invalid digit found in string"@),
        }
    }
}

fn hex_digit_value(b: u8) -> (r: Option<u8>)
    ensures
        match hex_value(b) {
            Some(x) => r matches Some(y) && y == x && y < 16,
            None => r is None,
        },
{
    if 48 <= b && b <= 57 {
        Some(b - 48)
    } else if 97 <= b && b <= 102 {
        Some(b - 87)
    } else if 65 <= b && b <= 70 {
        Some(b - 55)
    } else {
        None
    }
}

proof fn lemma_hex_pairs_fault(s: Seq<u8>, k: int, n: int)
    requires
        0 <= k <= n,
        hex_pairs(s, k) is None,
    ensures
        hex_pairs(s, n) is None,
    decreases n - k,
{
    if k < n {
        lemma_hex_pairs_fault(s, k, n - 1);
    }
}

/// The bytes of a hexadecimal text.
fn decode_hex(s: &str) -> (r: std::result::Result<Vec<u8>, &'static str>)
    ensures
        match hex_decoded(utf8::encode_utf8(s@)) {
            Ok(b) => r matches Ok(v) && v@ == b,
            Err(t) => r matches Err(e) && e@ == t,
        },
{
    let b = s.as_bytes();
    let n: usize = b.len() / 2;
    if b.len() % 2 != 0 {
        return Err("hex string odd length");
    }
    let mut out: Vec<u8> = Vec::new();
    let mut i: usize = 0;
    while i < n
        invariant
            i <= n,
            b.len() == 2 * n,
            b@ == utf8::encode_utf8(s@),
            hex_pairs(b@, i as int) == Some(out@),
        decreases n - i,
    {
        let lo = hex_digit_value(b[2 * i + 1]);
        let value: Option<u8> = if b[2 * i] == 43 {
            lo
        } else {
            match (hex_digit_value(b[2 * i]), lo) {
                (Some(x), Some(y)) => Some(16 * x + y),
                _ => None,
            }
        };
        match value {
            Some(v) => {
                out.push(v);
            },
            None => {
                proof {
                    lemma_hex_pairs_fault(b@, i + 1, n as int);
                }
                return Err("invalid hex: invalid digit found in string");
            },
        }
        i = i + 1;
    }
    Ok(out)
}

/// The value of a base64 character.
pub open spec fn base64_value(c: char) -> Option<int> {
    let x = c as u32;
    if 65 <= x <= 90 {
        Some(x - 65)
    } else if 97 <= x <= 122 {
        Some(x - 97 + 26)
    } else if 48 <= x <= 57 {
        Some(x - 48 + 52)
    } else if c == '+' {
        Some(62)
    } else if c == '/' {
        Some(63)
    } else {
        None
    }
}

/// How many characters stand in front of the padding.
pub open spec fn base64_len(s: Seq<char>) -> nat
    decreases s.len(),
{
    if s.len() == 0 {
        0
    } else if s[0] == '=' {
        0
    } else {
        1 + base64_len(s.skip(1))
    }
}

/// The number that the first `n` base64 digits stand for, or the first
/// character that is no digit.
pub open spec fn base64_number(s: Seq<char>, n: nat) -> std::result::Result<nat, char>
    decreases n,
{
    if n == 0 {
        Ok(0)
    } else {
        match base64_number(s, (n - 1) as nat) {
            Err(c) => Err(c),
            Ok(v) => match base64_value(s[n - 1]) {
                None => Err(s[n - 1]),
                Some(x) => Ok((64 * v + x) as nat),
            },
        }
    }
}

/// Two to the power of what is left over of `n` base64 digits behind whole
/// bytes.
pub open spec fn base64_rest(n: nat) -> nat {
    if n % 4 == 0 {
        1
    } else if n % 4 == 1 {
        64
    } else if n % 4 == 2 {
        16
    } else {
        4
    }
}

/// The bytes of a base64 text, or the first character that is no digit. Bits
/// that make no whole byte are dropped.
pub open spec fn base64_decoded(s: Seq<char>) -> std::result::Result<Seq<u8>, char> {
    let n = base64_len(s);
    match base64_number(s, n) {
        Err(c) => Err(c),
        Ok(v) => Ok(util::be_bytes(v / base64_rest(n), (6 * n) / 8)),
    }
}

fn base64_digit(c: char) -> (r: Option<u32>)
    ensures
        match base64_value(c) {
            Some(x) => r matches Some(y) && y == x && y < 64,
            None => r is None,
        },
{
    let x: u32 = c as u32;
    if 65 <= x && x <= 90 {
        Some(x - 65)
    } else if 97 <= x && x <= 122 {
        Some(x - 97 + 26)
    } else if 48 <= x && x <= 57 {
        Some(x - 48 + 52)
    } else if c == '+' {
        Some(62)
    } else if c == '/' {
        Some(63)
    } else {
        None
    }
}

proof fn lemma_base64_fault(s: Seq<char>, k: nat, n: nat)
    requires
        k <= n,
        base64_number(s, k) is Err,
    ensures
        base64_number(s, n) == base64_number(s, k),
    decreases n - k,
{
    if k < n {
        lemma_base64_fault(s, k, (n - 1) as nat);
    }
}

proof fn lemma_base64_len(s: Seq<char>, k: int)
    requires
        0 <= k <= s.len(),
        forall|j: int| 0 <= j < k ==> s[j] != '=',
        k < s.len() ==> s[k] == '=',
    ensures
        base64_len(s) == k,
    decreases k,
{
    if k > 0 {
        let t = s.skip(1);
        assert(s[0] != '=');
        assert forall|j: int| 0 <= j < k - 1 implies t[j] != '=' by {
            assert(t[j] == s[j + 1]);
        }
        lemma_base64_len(t, k - 1);
    }
}

proof fn lemma_base64_len_lower(s: Seq<char>, k: int)
    requires
        0 <= k <= s.len(),
        forall|j: int| 0 <= j < k ==> s[j] != '=',
    ensures
        k <= base64_len(s),
    decreases k,
{
    if k > 0 {
        let t = s.skip(1);
        assert(s[0] != '=');
        assert forall|j: int| 0 <= j < k - 1 implies t[j] != '=' by {
            assert(t[j] == s[j + 1]);
        }
        lemma_base64_len_lower(t, k - 1);
    }
}

/// One more base64 digit completes a byte, or not.
proof fn lemma_base64_step(v: nat, x: nat, n: nat)
    requires
        x < 64,
    ensures
        ({
            let rest = v % base64_rest(n);
            let buf = 64 * rest + x;
            let w = (64 * v + x) as nat;
            if n % 4 == 0 {
                &&& w / base64_rest(n + 1) == v / base64_rest(n)
                &&& w % base64_rest(n + 1) == buf
                &&& (6 * (n + 1)) / 8 == (6 * n) / 8
            } else {
                &&& w / base64_rest(n + 1) == 256 * (v / base64_rest(n)) + buf / base64_rest(n + 1)
                &&& w % base64_rest(n + 1) == buf % base64_rest(n + 1)
                &&& buf / base64_rest(n + 1) < 256
                &&& (6 * (n + 1)) / 8 == (6 * n) / 8 + 1
            }
        }),
{
    if n % 4 == 0 {
        assert((n + 1) % 4 == 1);
    } else if n % 4 == 1 {
        assert((n + 1) % 4 == 2);
    } else if n % 4 == 2 {
        assert((n + 1) % 4 == 3);
    } else {
        assert((n + 1) % 4 == 0);
    }
}

/// What one more base64 digit appends to the bytes: the next byte, or nothing.
proof fn lemma_base64_bytes(v: nat, x: nat, n: nat)
    requires
        x < 64,
    ensures
        ({
            let w = (64 * v + x) as nat;
            let joint = (64 * (v % base64_rest(n)) + x) as nat;
            let before = util::be_bytes(v / base64_rest(n), (6 * n) / 8);
            let after = util::be_bytes(w / base64_rest(n + 1), (6 * (n + 1)) / 8);
            &&& w % base64_rest(n + 1) == if n % 4 == 0 {
                joint
            } else {
                joint % base64_rest(n + 1)
            }
            &&& after == if n % 4 == 0 {
                before
            } else {
                before.push((joint / base64_rest(n + 1)) as u8)
            }
        }),
{
    lemma_base64_step(v, x, n);
    if n % 4 != 0 {
        let w = (64 * v + x) as nat;
        let a = v / base64_rest(n);
        let b = ((64 * (v % base64_rest(n)) + x) as nat) / base64_rest(n + 1);
        let q = w / base64_rest(n + 1);
        let k = (6 * n) / 8;
        assert(q == 256 * a + b);
        assert(b < 256);
        assert(q / 256 == a && q % 256 == b);
        assert((6 * (n + 1)) / 8 == k + 1);
        assert(util::be_bytes(q, k + 1) == util::be_bytes(q / 256, k).push((q % 256) as u8));
    }
}

/// The bytes of a base64 text, or the character that is no digit.
fn decode_base64(s: &Vec<char>) -> (r: std::result::Result<Vec<u8>, char>)
    ensures
        match base64_decoded(s@) {
            Ok(b) => r matches Ok(v) && v@ == b,
            Err(c) => r == Err::<Vec<u8>, char>(c),
        },
{
    let mut out: Vec<u8> = Vec::new();
    let mut buf: u32 = 0;
    let mut phase: u8 = 0;
    let mut i: usize = 0;
    let ghost mut v: nat = 0;
    while i < s.len() && s[i] != '='
        invariant
            i <= s.len(),
            forall|j: int| 0 <= j < i ==> s@[j] != '=',
            phase == i % 4,
            base64_number(s@, i as nat) == Ok::<nat, char>(v),
            buf == v % base64_rest(i as nat),
            buf < 64,
            out@ == util::be_bytes(v / base64_rest(i as nat), (6 * i as nat) / 8),
        decreases s.len() - i,
    {
        let x: u32 = match base64_digit(s[i]) {
            Some(x) => x,
            None => {
                proof {
                    lemma_base64_len_lower(s@, i + 1);
                    lemma_base64_fault(s@, (i + 1) as nat, base64_len(s@));
                }
                return Err(s[i]);
            },
        };
        proof {
            lemma_base64_step(v, x as nat, i as nat);
            lemma_base64_bytes(v, x as nat, i as nat);
        }
        let joint: u32 = 64 * buf + x;
        if phase == 0 {
            assert(base64_rest((i + 1) as nat) == 64);
            buf = joint;
            phase = 1;
        } else if phase == 1 {
            assert(base64_rest((i + 1) as nat) == 16);
            out.push((joint / 16) as u8);
            buf = joint % 16;
            phase = 2;
        } else if phase == 2 {
            assert(base64_rest((i + 1) as nat) == 4);
            out.push((joint / 4) as u8);
            buf = joint % 4;
            phase = 3;
        } else {
            assert(base64_rest((i + 1) as nat) == 1);
            out.push(joint as u8);
            buf = 0;
            phase = 0;
        }
        proof {
            v = (64 * v + x) as nat;
        }
        i = i + 1;
    }
    proof {
        lemma_base64_len(s@, i as int);
    }
    Ok(out)
}

} // verus!
