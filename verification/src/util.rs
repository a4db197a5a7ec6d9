//! Identifiers and digests.

use vstd::prelude::*;

use crate::foreign;
use crate::protocol::le;
use crate::text;

verus! {

/// A 32-byte BLAKE3 digest.
#[derive(Debug, Clone, Copy, Eq, Hash)]
pub struct Hash([u8; 32]);

impl View for Hash {
    type V = Seq<u8>;

    closed spec fn view(&self) -> Seq<u8> {
        self.0@
    }
}

/// Compare two byte strings.
pub(crate) fn same_bytes(a: &[u8], b: &[u8]) -> (r: bool)
    ensures
        r == (a@ == b@),
{
    if a.len() != b.len() {
        return false;
    }
    let mut i: usize = 0;
    while i < a.len()
        invariant
            a.len() == b.len(),
            i <= a.len(),
            forall|k: int| 0 <= k < i ==> a@[k] == b@[k],
        decreases a.len() - i,
    {
        if a[i] != b[i] {
            return false;
        }
        i = i + 1;
    }
    assert(a@ =~= b@);
    true
}

impl PartialEq for Hash {
    fn eq(&self, other: &Self) -> (r: bool) {
        same_bytes(self.0.as_slice(), other.0.as_slice())
    }
}

impl vstd::std_specs::cmp::PartialEqSpecImpl for Hash {
    open spec fn obeys_eq_spec() -> bool {
        true
    }

    open spec fn eq_spec(&self, other: &Self) -> bool {
        self@ == other@
    }
}

/// The first `N` bytes of a slice as an array.
pub(crate) fn array_of<const N: usize>(b: &[u8]) -> (r: [u8; N])
    requires
        b.len() >= N,
    ensures
        r@ == b@.take(N as int),
{
    let mut r: [u8; N] = [0u8; N];
    let mut i: usize = 0;
    while i < N
        invariant
            b.len() >= N,
            i <= N,
            forall|k: int| 0 <= k < i ==> r@[k] == b@[k],
        decreases N - i,
    {
        r[i] = b[i];
        i = i + 1;
    }
    assert(r@ =~= b@.take(N as int));
    r
}

/// The digest of all zero bytes.
pub open spec fn zero_hash() -> Seq<u8> {
    Seq::new(32, |i: int| 0u8)
}

impl Hash {
    /// The digest of all zero bytes, used where there is none.
    pub fn zero() -> (h: Hash)
        ensures
            h@ == zero_hash(),
    {
        let h = Hash([0u8; 32]);
        assert(h@ =~= zero_hash());
        h
    }

    /// The digest of `data`.
    pub fn of(data: &[u8]) -> (h: Hash)
        ensures
            h@ == foreign::blake3_digest(data@),
    {
        let mut hasher = foreign::blake3_new();
        foreign::blake3_update(&mut hasher, data);
        assert(foreign::blake3_input(hasher) =~= data@);
        Hash(foreign::blake3_finalize(&hasher))
    }

    /// The digest with the given 32 bytes; `None` for any other length.
    pub fn from_bytes(b: &[u8]) -> (r: Option<Hash>)
        ensures
            r is Some <==> b@.len() == 32,
            r matches Some(h) ==> h@ == b@,
    {
        if b.len() != 32 {
            return None;
        }
        let a: [u8; 32] = array_of::<32>(b);
        assert(b@.take(32) =~= b@);
        Some(Hash(a))
    }

    /// The 32 bytes.
    pub fn as_bytes(&self) -> (b: &[u8; 32])
        ensures
            b@ == self@,
            b@.len() == 32,
    {
        &self.0
    }
}

impl Hash {
    /// The digest in hexadecimal.
    pub fn to_string(&self) -> (s: String)
        ensures
            s@ == text::hex(self@),
    {
        let mut s: String = String::new();
        text::push_hex(&mut s, self.0.as_slice());
        assert(s@ =~= text::hex(self@));
        s
    }
}

/// Every digest is 32 bytes long.
pub broadcast proof fn lemma_hash_len(h: Hash)
    ensures
        #[trigger] h@.len() == 32,
{
}

/// Incremental digest of a stream.
pub struct HashHasher {
    inner: blake3::Hasher,
}

impl View for HashHasher {
    type V = Seq<u8>;

    /// Everything that was fed.
    closed spec fn view(&self) -> Seq<u8> {
        foreign::blake3_input(self.inner)
    }
}

impl HashHasher {
    /// A hasher that was fed nothing.
    pub fn new() -> (h: Self)
        ensures
            h@ == Seq::<u8>::empty(),
    {
        HashHasher { inner: foreign::blake3_new() }
    }

    /// Append `data` to the input.
    pub fn feed(&mut self, data: &[u8])
        ensures
            final(self)@ == old(self)@ + data@,
    {
        foreign::blake3_update(&mut self.inner, data);
    }

    /// The digest of everything that was fed.
    pub fn finalize(&self) -> (h: Hash)
        ensures
            h@ == foreign::blake3_digest(self@),
    {
        Hash(foreign::blake3_finalize(&self.inner))
    }
}

/// A 16-byte transfer identifier.
#[derive(Debug, Clone, Copy, Eq, Hash)]
pub struct TransferId([u8; 16]);

impl View for TransferId {
    type V = Seq<u8>;

    closed spec fn view(&self) -> Seq<u8> {
        self.0@
    }
}

impl PartialEq for TransferId {
    fn eq(&self, other: &Self) -> (r: bool) {
        same_bytes(self.0.as_slice(), other.0.as_slice())
    }
}

impl vstd::std_specs::cmp::PartialEqSpecImpl for TransferId {
    open spec fn obeys_eq_spec() -> bool {
        true
    }

    open spec fn eq_spec(&self, other: &Self) -> bool {
        self@ == other@
    }
}

/// Every identifier is 16 bytes long.
pub broadcast proof fn lemma_transfer_id_len(t: TransferId)
    ensures
        #[trigger] t@.len() == 16,
{
}

impl TransferId {
    /// A fresh identifier, drawn at random.
    pub fn generate() -> (t: TransferId)
        ensures
            t@.len() == 16,
    {
        TransferId(foreign::random_bytes16())
    }

    /// The identifier with the given 16 bytes; `None` for any other length.
    pub fn from_bytes(b: &[u8]) -> (r: Option<TransferId>)
        ensures
            r is Some <==> b@.len() == 16,
            r matches Some(t) ==> t@ == b@,
    {
        if b.len() != 16 {
            return None;
        }
        let a: [u8; 16] = array_of::<16>(b);
        assert(b@.take(16) =~= b@);
        Some(TransferId(a))
    }

    /// The 16 bytes.
    pub fn as_bytes(&self) -> (b: &[u8; 16])
        ensures
            b@ == self@,
            b@.len() == 16,
    {
        &self.0
    }
}

/// The alphabet of the text form: Crockford's base 32.
pub open spec fn base32_digit(d: int) -> char {
    if d < 10 {
        (('0' as int) + d) as char
    } else if d < 18 {
        (('A' as int) + d - 10) as char
    } else if d < 20 {
        (('J' as int) + d - 18) as char
    } else if d < 22 {
        (('M' as int) + d - 20) as char
    } else if d < 27 {
        (('P' as int) + d - 22) as char
    } else {
        (('V' as int) + d - 27) as char
    }
}

/// The value of a base-32 digit, in either case.
pub open spec fn base32_value(c: char) -> Option<int> {
    let x = c as int;
    let u = if 'a' as int <= x <= 'z' as int { x - 32 } else { x };
    if '0' as int <= u <= '9' as int {
        Some(u - '0' as int)
    } else if 'A' as int <= u <= 'H' as int {
        Some(u - 'A' as int + 10)
    } else if 'J' as int <= u <= 'K' as int {
        Some(u - 'J' as int + 18)
    } else if 'M' as int <= u <= 'N' as int {
        Some(u - 'M' as int + 20)
    } else if 'P' as int <= u <= 'T' as int {
        Some(u - 'P' as int + 22)
    } else if 'V' as int <= u <= 'Z' as int {
        Some(u - 'V' as int + 27)
    } else {
        None
    }
}

/// The number that a big-endian byte string denotes.
pub open spec fn be_value(s: Seq<u8>) -> nat
    decreases s.len(),
{
    if s.len() == 0 {
        0
    } else {
        256 * be_value(s.drop_last()) + s.last() as nat
    }
}

/// The `n` base-32 digits of `v`, most significant first.
pub open spec fn base32_text(v: nat, n: nat) -> Seq<char>
    decreases n,
{
    if n == 0 {
        Seq::empty()
    } else {
        base32_text(v / 32, (n - 1) as nat).push(base32_digit((v % 32) as int))
    }
}

/// The number that base-32 digits denote; `None` if one is not a digit.
pub open spec fn base32_number(s: Seq<char>) -> Option<nat>
    decreases s.len(),
{
    if s.len() == 0 {
        Some(0)
    } else {
        match (base32_number(s.drop_last()), base32_value(s.last())) {
            (Some(v), Some(d)) => Some((32 * v + d) as nat),
            _ => None,
        }
    }
}

proof fn lemma_base32_digit(d: int)
    requires
        0 <= d < 32,
    ensures
        base32_value(base32_digit(d)) == Some(d),
{
}

/// `32` to the power `n`.
pub open spec fn pow32(n: nat) -> nat
    decreases n,
{
    if n == 0 {
        1
    } else {
        32 * pow32((n - 1) as nat)
    }
}

/// The `n` low bytes of `v`, most significant first.
pub open spec fn be_bytes(v: nat, n: nat) -> Seq<u8>
    decreases n,
{
    if n == 0 {
        Seq::empty()
    } else {
        be_bytes(v / 256, (n - 1) as nat).push((v % 256) as u8)
    }
}

proof fn lemma_be_canonical(s: Seq<u8>)
    ensures
        be_bytes(be_value(s), s.len()) == s,
        be_bytes(be_value(s), s.len()).len() == s.len(),
    decreases s.len(),
{
    if s.len() > 0 {
        lemma_be_canonical(s.drop_last());
        let v = be_value(s);
        assert(v / 256 == be_value(s.drop_last()) && v % 256 == s.last());
        assert(be_bytes(v, s.len()) =~= s);
    } else {
        assert(be_bytes(0, 0) =~= s);
    }
}

proof fn lemma_be_roundtrip(v: nat, n: nat)
    requires
        v < le::pow256(n),
    ensures
        be_value(be_bytes(v, n)) == v,
        be_bytes(v, n).len() == n,
    decreases n,
{
    if n > 0 {
        lemma_be_roundtrip(v / 256, (n - 1) as nat);
        assert(be_bytes(v, n).drop_last() =~= be_bytes(v / 256, (n - 1) as nat));
    }
}

proof fn lemma_base32_roundtrip(v: nat, n: nat)
    requires
        v < pow32(n),
    ensures
        base32_number(base32_text(v, n)) == Some(v),
        base32_text(v, n).len() == n,
    decreases n,
{
    if n > 0 {
        lemma_base32_roundtrip(v / 32, (n - 1) as nat);
        assert(base32_text(v, n).drop_last() =~= base32_text(v / 32, (n - 1) as nat));
        lemma_base32_digit((v % 32) as int);
    }
}

/// The digits in front denote no more than all of them.
proof fn lemma_base32_prefix(s: Seq<char>, k: int)
    requires
        0 <= k <= s.len(),
        base32_number(s) is Some,
    ensures
        base32_number(s.take(k)) matches Some(u) && u <= base32_number(s)->0,
    decreases s.len() - k,
{
    if k < s.len() {
        lemma_base32_prefix(s.drop_last(), k);
        assert(s.drop_last().take(k) =~= s.take(k));
    } else {
        assert(s.take(k) =~= s);
    }
}

fn digit_to_char(d: u8) -> (c: char)
    requires
        d < 32,
    ensures
        c == base32_digit(d as int),
{
    let x: u8 = if d < 10 {
        48 + d
    } else if d < 18 {
        65 + (d - 10)
    } else if d < 20 {
        74 + (d - 18)
    } else if d < 22 {
        77 + (d - 20)
    } else if d < 27 {
        80 + (d - 22)
    } else {
        86 + (d - 27)
    };
    x as char
}

fn char_to_digit(c: char) -> (r: Option<u8>)
    ensures
        match base32_value(c) {
            Some(d) => r == Some(d as u8) && 0 <= d < 32,
            None => r is None,
        },
{
    let x: u32 = c as u32;
    let u: u32 = if 97 <= x && x <= 122 {
        x - 32
    } else {
        x
    };
    if 48 <= u && u <= 57 {
        Some((u - 48) as u8)
    } else if 65 <= u && u <= 72 {
        Some((u - 65 + 10) as u8)
    } else if 74 <= u && u <= 75 {
        Some((u - 74 + 18) as u8)
    } else if 77 <= u && u <= 78 {
        Some((u - 77 + 20) as u8)
    } else if 80 <= u && u <= 84 {
        Some((u - 80 + 22) as u8)
    } else if 86 <= u && u <= 90 {
        Some((u - 86 + 27) as u8)
    } else {
        None
    }
}

fn push_base32(out: &mut String, v: u128, n: usize)
    ensures
        final(out)@ == old(out)@ + base32_text(v as nat, n as nat),
    decreases n,
{
    if n > 0 {
        push_base32(out, v / 32, n - 1);
        foreign::string_push(out, digit_to_char((v % 32) as u8));
    }
    assert(out@ =~= old(out)@ + base32_text(v as nat, n as nat));
}

fn push_be(out: &mut Vec<u8>, v: u128, n: usize)
    ensures
        final(out)@ == old(out)@ + be_bytes(v as nat, n as nat),
    decreases n,
{
    if n > 0 {
        push_be(out, v / 256, n - 1);
        out.push((v % 256) as u8);
    }
    assert(out@ =~= old(out)@ + be_bytes(v as nat, n as nat));
}

/// Number of characters of an identifier's text form.
pub const TRANSFER_ID_TEXT_LEN: usize = 26;

/// The text form of the identifier with the given bytes: 26 base-32 digits.
pub open spec fn transfer_id_text(id: Seq<u8>) -> Seq<char> {
    base32_text(be_value(id), TRANSFER_ID_TEXT_LEN as nat)
}

/// The identifier bytes that a text denotes, if it is 26 base-32 digits of a
/// 128-bit number.
pub open spec fn transfer_id_of_text(s: Seq<char>) -> Option<Seq<u8>> {
    match base32_number(s) {
        Some(v) if s.len() == TRANSFER_ID_TEXT_LEN && v <= u128::MAX => Some(be_bytes(v, 16)),
        _ => None,
    }
}

impl TransferId {
    fn number(&self) -> (v: u128)
        ensures
            v == be_value(self@),
    {
        let mut v: u128 = 0;
        let mut i: usize = 0;
        assert(self@.take(0) =~= Seq::<u8>::empty());
        while i < 16
            invariant
                i <= 16,
                self@.len() == 16,
                v == be_value(self@.take(i as int)),
                v < le::pow256(i as nat),
            decreases 16 - i,
        {
            proof {
                le::lemma_pow256_monotone(i as nat, 15);
                reveal_with_fuel(le::pow256, 16);
                assert(self@.take(i + 1).drop_last() =~= self@.take(i as int));
            }
            v = 256 * v + self.0[i] as u128;
            i = i + 1;
        }
        assert(self@.take(16) =~= self@);
        v
    }

    /// The text form: 26 base-32 digits.
    pub fn to_string(&self) -> (s: String)
        ensures
            s@ == transfer_id_text(self@),
    {
        let mut s: String = String::new();
        push_base32(&mut s, self.number(), TRANSFER_ID_TEXT_LEN);
        assert(s@ =~= transfer_id_text(self@));
        s
    }

    /// Read the text form; `None` where the text is not one.
    pub fn from_string(s: &str) -> (r: Option<TransferId>)
        ensures
            match transfer_id_of_text(s@) {
                Some(id) => r matches Some(t) && t@ == id,
                None => r is None,
            },
    {
        if s.unicode_len() != TRANSFER_ID_TEXT_LEN {
            return None;
        }
        let mut v: u128 = 0;
        let mut i: usize = 0;
        assert(s@.take(0) =~= Seq::<char>::empty());
        while i < TRANSFER_ID_TEXT_LEN
            invariant
                i <= TRANSFER_ID_TEXT_LEN,
                s@.len() == TRANSFER_ID_TEXT_LEN,
                base32_number(s@.take(i as int)) == Some(v as nat),
            decreases TRANSFER_ID_TEXT_LEN - i,
        {
            let c: char = s.get_char(i);
            proof {
                assert(s@.take(i + 1).drop_last() =~= s@.take(i as int));
                assert(s@.take(i + 1).last() == c);
                if base32_number(s@) is Some {
                    lemma_base32_prefix(s@, i + 1);
                }
            }
            let d: u8 = match char_to_digit(c) {
                Some(d) => d,
                None => {
                    return None;
                },
            };
            if v > u128::MAX / 32 {
                return None;
            }
            v = 32 * v + d as u128;
            i = i + 1;
        }
        assert(s@.take(26) =~= s@);
        let mut bytes: Vec<u8> = Vec::new();
        push_be(&mut bytes, v, 16);
        proof {
            reveal_with_fuel(le::pow256, 17);
            lemma_be_roundtrip(v as nat, 16);
            assert(bytes@ =~= be_bytes(v as nat, 16));
        }
        TransferId::from_bytes(bytes.as_slice())
    }
}

/// Reading the text form of an identifier gives the identifier back.
pub proof fn law_transfer_id_text_roundtrip(t: TransferId)
    ensures
        transfer_id_of_text(transfer_id_text(t@)) == Some(t@),
{
    lemma_be_canonical(t@);
    lemma_be_value_bound(t@);
    reveal_with_fuel(le::pow256, 17);
    reveal_with_fuel(pow32, 27);
    lemma_base32_roundtrip(be_value(t@), 26);
}

proof fn lemma_be_value_bound(s: Seq<u8>)
    ensures
        be_value(s) < le::pow256(s.len()),
    decreases s.len(),
{
    if s.len() > 0 {
        lemma_be_value_bound(s.drop_last());
    }
}

} // verus!
