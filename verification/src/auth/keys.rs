//! Who is let in by a public key.

use vstd::prelude::*;
use vstd::utf8;

use crate::auth::pubkey;
use crate::foreign;
use crate::text;

verus! {

/// A token is accepted exactly if it is a public key and a signature with that
/// key, over a fixed text and the secret of the connection.
pub proof fn law_token_is_signed(token: Seq<u8>, secret: Seq<u8>)
    ensures
        pubkey::token_fault(token, secret) is None <==> token.len() == 96 && foreign::ed25519_valid(
            token.take(32),
            seq![
                0x76u8,
                0x65,
                0x6C,
                0x63,
                0x72,
                0x75,
                0x78,
                0x2D,
                0x61,
                0x75,
                0x74,
                0x68,
                0x2D,
                0x76,
                0x31,
            ] + secret,
            token.skip(32),
        ),
{
    assert(pubkey::AUTH_SIGNATURE_PREFIX@ =~= seq![
        0x76u8,
        0x65,
        0x6C,
        0x63,
        0x72,
        0x75,
        0x78,
        0x2D,
        0x61,
        0x75,
        0x74,
        0x68,
        0x2D,
        0x76,
        0x31,
    ]);
}

/// What is signed for one connection is not what is signed for another.
pub proof fn law_signature_is_bound_to_connection(a: Seq<u8>, b: Seq<u8>)
    ensures
        pubkey::signed_payload(a) == pubkey::signed_payload(b) <==> a == b,
{
    let n = pubkey::AUTH_SIGNATURE_PREFIX@.len() as int;
    assert(pubkey::signed_payload(a).skip(n) =~= a);
    assert(pubkey::signed_payload(b).skip(n) =~= b);
}

/// A line without words and a line that starts with a number sign hold no key.
pub proof fn law_lines_without_key(n: u64, w: Seq<Seq<char>>)
    requires
        w.len() == 0 || (w[0].len() > 0 && w[0][0] == '#'),
    ensures
        pubkey::key_line(n, w) == Ok::<Option<(Seq<u8>, Seq<char>)>, Seq<char>>(None),
{
}

/// A line with the name of the key type, a key in base64 and an identity
/// authorizes the key for the identity: a bare key, or one behind the nineteen
/// bytes that name its type and its length.
pub proof fn law_ssh_line(n: u64, w: Seq<Seq<char>>, head: Seq<u8>, key: Seq<u8>)
    requires
        w.len() >= 3,
        w[0] == "ssh-ed25519"@,
        key.len() == 32,
        head.len() == 19,
    ensures
        pubkey::base64_decoded(w[1]) == Ok::<Seq<u8>, char>(key) ==> pubkey::key_line(n, w) == Ok::<
            Option<(Seq<u8>, Seq<char>)>,
            Seq<char>,
        >(Some((key, text::joined(w.skip(2))))),
        pubkey::base64_decoded(w[1]) == Ok::<Seq<u8>, char>(head + key) ==> pubkey::key_line(n, w)
            == Ok::<Option<(Seq<u8>, Seq<char>)>, Seq<char>>(
            Some((key, text::joined(w.skip(2)))),
        ),
        pubkey::base64_decoded(w[1]) is Err ==> pubkey::key_line(n, w) is Err,
{
    reveal_strlit("ssh-ed25519");
    assert((head + key).subrange(19, 51) =~= key);
}

/// What the line at a place of a file comes to; lines are counted from one.
#[verifier::opaque]
pub open spec fn on_line(lines: Seq<Seq<char>>, i: int) -> Result<
    Option<(Seq<u8>, Seq<char>)>,
    Seq<char>,
> {
    pubkey::key_line((i + 1) as u64, text::words(lines[i]))
}

/// A line holds a key.
pub open spec fn holds_key(lines: Seq<Seq<char>>, i: int, key: Seq<u8>) -> bool {
    on_line(lines, i) matches Ok(Some((k, _))) && k == key
}

/// The keys of the first `n` lines, put together line by line.
#[verifier::opaque]
spec fn keys_so_far(lines: Seq<Seq<char>>, n: int) -> Result<Map<Seq<u8>, Seq<char>>, Seq<char>> {
    pubkey::keys_of(lines, n)
}

proof fn lemma_next_line(lines: Seq<Seq<char>>, n: int)
    requires
        0 < n <= lines.len() <= u64::MAX,
    ensures
        keys_so_far(lines, 0) == Ok::<Map<Seq<u8>, Seq<char>>, Seq<char>>(Map::empty()),
        keys_so_far(lines, n) == match keys_so_far(lines, n - 1) {
            Err(t) => Err(t),
            Ok(m) => match on_line(lines, n - 1) {
                Err(t) => Err(t),
                Ok(None) => Ok(m),
                Ok(Some((k, identity))) => Ok(m.insert(k, identity)),
            },
        },
{
    reveal(on_line);
    reveal(keys_so_far);
}

proof fn lemma_keys_so_far(lines: Seq<Seq<char>>, n: int, key: Seq<u8>)
    requires
        0 <= n <= lines.len() <= u64::MAX,
    ensures
        keys_so_far(lines, n) is Ok <==> forall|i: int|
            0 <= i < n ==> #[trigger] on_line(lines, i) is Ok,
        keys_so_far(lines, n) matches Ok(m) ==> {
            &&& m.dom().contains(key) <==> exists|i: int|
                0 <= i < n && #[trigger] holds_key(lines, i, key)
            &&& forall|i: int|
                0 <= i < n && #[trigger] holds_key(lines, i, key) && (forall|j: int|
                    i < j < n ==> !#[trigger] holds_key(lines, j, key)) ==> on_line(lines, i) == Ok::<
                    Option<(Seq<u8>, Seq<char>)>,
                    Seq<char>,
                >(Some((key, m[key])))
        },
    decreases n,
{
    if n > 0 {
        lemma_next_line(lines, n);
        lemma_keys_so_far(lines, n - 1, key);
        if keys_so_far(lines, n) is Ok {
            let m = keys_so_far(lines, n)->Ok_0;
            let before = keys_so_far(lines, n - 1)->Ok_0;
            if holds_key(lines, n - 1, key) {
                assert(m.dom().contains(key));
            } else {
                assert(m.dom().contains(key) == before.dom().contains(key));
                assert(m.dom().contains(key) ==> m[key] == before[key]);
            }
            assert forall|i: int|
                0 <= i < n && #[trigger] holds_key(lines, i, key) && (forall|j: int|
                    i < j < n ==> !#[trigger] holds_key(lines, j, key)) implies on_line(lines, i)
                == Ok::<Option<(Seq<u8>, Seq<char>)>, Seq<char>>(Some((key, m[key]))) by {
                if i < n - 1 {
                    assert(!holds_key(lines, n - 1, key));
                }
            }
        }
    } else if lines.len() > 0 {
        lemma_next_line(lines, 1);
    } else {
        reveal(keys_so_far);
    }
}

/// A key is authorized exactly if a line holds it, and for the identity on the
/// last such line. A file with a bad line authorizes nothing.
pub proof fn law_authorized_by_a_line(lines: Seq<Seq<char>>, key: Seq<u8>)
    requires
        lines.len() <= u64::MAX,
    ensures
        pubkey::keys_of(lines, lines.len() as int) is Ok <==> forall|i: int|
            0 <= i < lines.len() ==> #[trigger] on_line(lines, i) is Ok,
        pubkey::keys_of(lines, lines.len() as int) matches Ok(m) ==> {
            &&& m.dom().contains(key) <==> exists|i: int|
                0 <= i < lines.len() && #[trigger] holds_key(lines, i, key)
            &&& forall|i: int|
                0 <= i < lines.len() && #[trigger] holds_key(lines, i, key) && (forall|j: int|
                    i < j < lines.len() ==> !#[trigger] holds_key(lines, j, key)) ==> on_line(
                    lines,
                    i,
                ) == Ok::<Option<(Seq<u8>, Seq<char>)>, Seq<char>>(Some((key, m[key])))
        },
{
    lemma_keys_so_far(lines, lines.len() as int, key);
    assert(keys_so_far(lines, lines.len() as int) == pubkey::keys_of(lines, lines.len() as int)) by {
        reveal(keys_so_far);
    }
}

/// The value of a base64 digit is its place in the alphabet.
pub proof fn law_base64_alphabet(i: int)
    requires
        0 <= i < 64,
    ensures
        pubkey::base64_value(
            "ABCDEFGHIJKLMNOPQRSTUVWXYZabcdefghijklmnopqrstuvwxyz0123456789+/"@[i],
        ) == Some(i),
        pubkey::base64_value('=') is None,
        pubkey::base64_value(' ') is None,
{
    reveal_strlit("ABCDEFGHIJKLMNOPQRSTUVWXYZabcdefghijklmnopqrstuvwxyz0123456789+/");
}

proof fn lemma_hex_char(d: int)
    requires
        0 <= d < 16,
    ensures
        pubkey::hex_value(text::hex_char(d) as u8) == Some(d),
        '\0' <= text::hex_char(d) <= '\u{7f}',
        text::hex_char(d) as u8 != 43,
        text::hex_char(d) != '#',
{
}

proof fn lemma_hex_pairs(b: Seq<u8>, key: Seq<u8>, n: int)
    requires
        0 <= n <= key.len(),
        b.len() == 2 * key.len(),
        forall|k: int| 0 <= k < b.len() ==> #[trigger] b[k] == text::hex(key)[k] as u8,
    ensures
        pubkey::hex_pairs(b, n) == Some(key.take(n)),
    decreases n,
{
    if n > 0 {
        lemma_hex_pairs(b, key, n - 1);
        lemma_hex_at(key, n - 1);
        let x = key[n - 1];
        lemma_hex_char(x as int / 16);
        lemma_hex_char(x as int % 16);
        assert(b[2 * n - 2] == text::hex(key)[2 * n - 2] as u8);
        assert(b[2 * n - 1] == text::hex(key)[2 * n - 1] as u8);
        assert(key.take(n) =~= key.take(n - 1).push(x));
    } else {
        assert(key.take(0) =~= Seq::empty());
    }
}

proof fn lemma_hex_at(b: Seq<u8>, i: int)
    requires
        0 <= i < b.len(),
    ensures
        text::hex(b).len() == 2 * b.len(),
        text::hex(b)[2 * i] == text::hex_char(b[i] as int / 16),
        text::hex(b)[2 * i + 1] == text::hex_char(b[i] as int % 16),
    decreases b.len(),
{
    text::lemma_hex_len(b);
    text::lemma_hex_len(b.drop_last());
    if i < b.len() - 1 {
        lemma_hex_at(b.drop_last(), i);
    }
}

/// A line with a key in hexadecimal and an identity authorizes the key for the
/// identity.
pub proof fn law_hex_line(n: u64, key: Seq<u8>, names: Seq<Seq<char>>)
    requires
        key.len() == 32,
        names.len() > 0,
    ensures
        pubkey::key_line(n, seq![text::hex(key)] + names) == Ok::<
            Option<(Seq<u8>, Seq<char>)>,
            Seq<char>,
        >(Some((key, text::joined(names)))),
{
    reveal_strlit("ssh-ed25519");
    let w = seq![text::hex(key)] + names;
    let h = text::hex(key);
    text::lemma_hex_len(key);
    lemma_hex_at(key, 0);
    lemma_hex_char(key[0] as int / 16);
    assert(w.skip(1) =~= names);
    assert forall|k: int| 0 <= k < h.len() implies '\0' <= #[trigger] h[k] <= '\u{7f}' by {
        lemma_hex_at(key, k / 2);
        lemma_hex_char(key[k / 2] as int / 16);
        lemma_hex_char(key[k / 2] as int % 16);
        assert(k == 2 * (k / 2) || k == 2 * (k / 2) + 1);
    }
    assert(utf8::is_ascii_chars(h));
    utf8::is_ascii_chars_encode_utf8(h);
    let b = utf8::encode_utf8(h);
    lemma_hex_pairs(b, key, 32);
    assert(key.take(32) =~= key);
}

} // verus!
