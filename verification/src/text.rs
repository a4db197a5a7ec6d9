//! Numbers and bytes as text.

use vstd::prelude::*;

use crate::foreign;
use crate::util;

verus! {

/// The decimal digit `d`.
pub open spec fn digit_char(d: int) -> char {
    (('0' as int) + d) as char
}

/// A number in decimal.
pub open spec fn decimal(n: nat) -> Seq<char>
    decreases n,
{
    if n < 10 {
        seq![digit_char(n as int)]
    } else {
        decimal(n / 10).push(digit_char((n % 10) as int))
    }
}

/// The hexadecimal digit `d`, in lower case.
pub open spec fn hex_char(d: int) -> char {
    if d < 10 {
        (('0' as int) + d) as char
    } else {
        (('a' as int) + d - 10) as char
    }
}

/// Bytes in lower-case hexadecimal, two digits each.
pub open spec fn hex(b: Seq<u8>) -> Seq<char>
    decreases b.len(),
{
    if b.len() == 0 {
        Seq::empty()
    } else {
        hex(b.drop_last()).push(hex_char((b.last() / 16) as int)).push(
            hex_char((b.last() % 16) as int),
        )
    }
}

/// Append a number in decimal.
pub fn push_decimal(out: &mut String, n: u64)
    ensures
        final(out)@ == old(out)@ + decimal(n as nat),
    decreases n,
{
    let d: u8 = 48 + (n % 10) as u8;
    if n >= 10 {
        push_decimal(out, n / 10);
    }
    foreign::string_push(out, d as char);
    assert(out@ =~= old(out)@ + decimal(n as nat));
}

/// Append a text.
pub fn push_str(out: &mut String, s: &str)
    ensures
        final(out)@ == old(out)@ + s@,
{
    out.append(s);
}

/// The hexadecimal digit `d`, in lower case.
fn hex_digit(d: u8) -> (c: char)
    requires
        d < 16,
    ensures
        c == hex_char(d as int),
{
    let x: u8 = if d < 10 {
        48 + d
    } else {
        97 + (d - 10)
    };
    x as char
}

/// Append bytes in hexadecimal.
pub fn push_hex(out: &mut String, b: &[u8])
    ensures
        final(out)@ == old(out)@ + hex(b@),
{
    let mut i: usize = 0;
    assert(b@.take(0) =~= Seq::<u8>::empty());
    assert(out@ =~= old(out)@ + hex(b@.take(0)));
    while i < b.len()
        invariant
            i <= b.len(),
            out@ == old(out)@ + hex(b@.take(i as int)),
        decreases b.len() - i,
    {
        foreign::string_push(out, hex_digit(b[i] / 16));
        foreign::string_push(out, hex_digit(b[i] % 16));
        assert(b@.take(i + 1).drop_last() =~= b@.take(i as int));
        assert(out@ =~= old(out)@ + hex(b@.take(i + 1)));
        i = i + 1;
    }
    assert(b@.take(i as int) =~= b@);
}

/// Append a byte in hexadecimal.
pub fn push_hex_byte(out: &mut String, b: u8)
    ensures
        final(out)@ == old(out)@ + hex(seq![b]),
{
    foreign::string_push(out, hex_digit(b / 16));
    foreign::string_push(out, hex_digit(b % 16));
    proof {
        reveal_with_fuel(hex, 2);
        assert(seq![b].drop_last() =~= Seq::empty());
        assert(out@ =~= old(out)@ + hex(seq![b]));
    }
}

/// Append the low `k` bytes of a number in hexadecimal, highest first.
pub fn push_hex_number(out: &mut String, n: u64, k: usize)
    ensures
        final(out)@ == old(out)@ + hex(util::be_bytes(n as nat, k as nat)),
    decreases k,
{
    if k > 0 {
        push_hex_number(out, n / 256, k - 1);
        let b: u8 = (n % 256) as u8;
        foreign::string_push(out, hex_digit(b / 16));
        foreign::string_push(out, hex_digit(b % 16));
        proof {
            let all = util::be_bytes(n as nat, k as nat);
            assert(all.drop_last() =~= util::be_bytes((n / 256) as nat, (k - 1) as nat));
        }
    }
    assert(out@ =~= old(out)@ + hex(util::be_bytes(n as nat, k as nat)));
}

/// `a`, then a number, then `b`.
pub fn with_number(a: &str, n: u64, b: &str) -> (r: String)
    ensures
        r@ == a@ + decimal(n as nat) + b@,
{
    let mut s: String = a.to_owned();
    push_decimal(&mut s, n);
    push_str(&mut s, b);
    s
}

/// A number in decimal, with a sign if it is negative.
pub open spec fn signed(n: int) -> Seq<char> {
    if n < 0 {
        "-"@ + decimal((-n) as nat)
    } else {
        decimal(n as nat)
    }
}

/// Append a number in decimal, with a sign if it is negative.
pub fn push_signed(out: &mut String, n: i64)
    ensures
        final(out)@ == old(out)@ + signed(n as int),
{
    if n < 0 {
        push_str(out, "-");
        push_decimal(out, (-(n as i128)) as u64);
    } else {
        push_decimal(out, n as u64);
    }
    assert(out@ =~= old(out)@ + signed(n as int));
}

/// The characters of a text.
pub fn chars_of(s: &str) -> (r: Vec<char>)
    ensures
        r@ == s@,
{
    let mut out: Vec<char> = Vec::new();
    for c in it: s.chars()
        invariant
            it.seq() == s@,
            out@ == s@.take(it.index() as int),
    {
        out.push(c);
        assert(out@ =~= s@.take(it.index() + 1));
    }
    assert(s@.take(s@.len() as int) =~= s@);
    out
}

/// Whether two texts are the same.
pub fn same_text(a: &str, b: &str) -> (r: bool)
    ensures
        r == (a@ == b@),
{
    proof {
        vstd::utf8::encode_utf8_decode_utf8(a@);
        vstd::utf8::encode_utf8_decode_utf8(b@);
    }
    util::same_bytes(a.as_bytes(), b.as_bytes())
}

/// Whether a text begins with another.
pub fn starts_with(s: &str, prefix: &str) -> (r: bool)
    ensures
        r == prefix@.is_prefix_of(s@),
{
    let a = chars_of(s);
    let b = chars_of(prefix);
    if b.len() > a.len() {
        return false;
    }
    let mut i: usize = 0;
    while i < b.len()
        invariant
            i <= b.len() <= a.len(),
            a@ == s@,
            b@ == prefix@,
            forall|j: int| 0 <= j < i ==> a@[j] == b@[j],
        decreases b.len() - i,
    {
        if a[i] != b[i] {
            return false;
        }
        i = i + 1;
    }
    true
}

/// Append characters.
pub fn push_chars(out: &mut String, s: &[char])
    ensures
        final(out)@ == old(out)@ + s@,
{
    let mut i: usize = 0;
    assert(s@.take(0) =~= Seq::<char>::empty());
    assert(out@ =~= old(out)@ + s@.take(0));
    while i < s.len()
        invariant
            i <= s.len(),
            out@ == old(out)@ + s@.take(i as int),
        decreases s.len() - i,
    {
        foreign::string_push(out, s[i]);
        assert(out@ =~= old(out)@ + s@.take(i + 1));
        i = i + 1;
    }
    assert(s@.take(i as int) =~= s@);
}

/// The text of characters.
pub fn string_of(s: &[char]) -> (r: String)
    ensures
        r@ == s@,
{
    let mut out: String = String::new();
    push_chars(&mut out, s);
    assert(out@ =~= s@);
    out
}

/// White space, as Unicode has it.
pub open spec fn is_white(c: char) -> bool {
    let x = c as u32;
    9 <= x <= 13 || x == 0x20 || x == 0x85 || x == 0xA0 || x == 0x1680 || 0x2000 <= x <= 0x200A || x
        == 0x2028 || x == 0x2029 || x == 0x202F || x == 0x205F || x == 0x3000
}

/// Whether a character is white space.
pub fn is_whitespace(c: char) -> (r: bool)
    ensures
        r == is_white(c),
{
    let x: u32 = c as u32;
    (9 <= x && x <= 13) || x == 0x20 || x == 0x85 || x == 0xA0 || x == 0x1680 || (0x2000 <= x && x
        <= 0x200A) || x == 0x2028 || x == 0x2029 || x == 0x202F || x == 0x205F || x == 0x3000
}

/// Where the next word starts, at or behind `i`.
pub open spec fn word_start(s: Seq<char>, i: int) -> int
    decreases s.len() - i,
{
    if i >= s.len() || !is_white(s[i]) {
        i
    } else {
        word_start(s, i + 1)
    }
}

/// Where a word ends that has a part at `i`.
pub open spec fn word_end(s: Seq<char>, i: int) -> int
    decreases s.len() - i,
{
    if i >= s.len() || is_white(s[i]) {
        i
    } else {
        word_end(s, i + 1)
    }
}

/// The next word starts no earlier.
pub proof fn lemma_word_start(s: Seq<char>, i: int)
    ensures
        i <= word_start(s, i),
        word_start(s, i) < s.len() ==> !is_white(s[word_start(s, i)]),
    decreases s.len() - i,
{
    if i < s.len() && is_white(s[i]) {
        lemma_word_start(s, i + 1);
    }
}

/// A word ends behind its parts.
pub proof fn lemma_word_end(s: Seq<char>, i: int)
    requires
        i <= s.len(),
    ensures
        i <= word_end(s, i) <= s.len(),
        i < s.len() && !is_white(s[i]) ==> i < word_end(s, i),
    decreases s.len() - i,
{
    if i < s.len() && !is_white(s[i]) {
        lemma_word_end(s, i + 1);
    }
}

/// The words of a text from `i` on.
pub open spec fn words_from(s: Seq<char>, i: int) -> Seq<Seq<char>>
    decreases s.len() - i,
{
    let a = word_start(s, i);
    let b = word_end(s, a);
    if a >= s.len() {
        Seq::empty()
    } else {
        proof {
            lemma_word_start(s, i);
            lemma_word_end(s, a);
        }
        seq![s.subrange(a, b)] + words_from(s, b)
    }
}

/// The words of a text: what stands between white space.
pub open spec fn words(s: Seq<char>) -> Seq<Seq<char>> {
    words_from(s, 0)
}

/// A word has at least one character.
pub proof fn lemma_words_not_empty(s: Seq<char>, i: int)
    requires
        0 <= i,
    ensures
        forall|k: int| 0 <= k < words_from(s, i).len() ==> (#[trigger] words_from(s, i)[k]).len() > 0,
    decreases s.len() - i,
{
    let a = word_start(s, i);
    lemma_word_start(s, i);
    if a < s.len() {
        lemma_word_end(s, a);
        let b = word_end(s, a);
        lemma_words_not_empty(s, b);
        assert forall|k: int| 0 <= k < words_from(s, i).len() implies (#[trigger] words_from(
            s,
            i,
        )[k]).len() > 0 by {
            if k > 0 {
                assert(words_from(s, i)[k] == words_from(s, b)[k - 1]);
            }
        }
    }
}

/// Characters of several texts.
pub open spec fn texts(v: Seq<Vec<char>>) -> Seq<Seq<char>> {
    v.map_values(|w: Vec<char>| w@)
}

/// The words of a text.
pub fn words_of(s: &[char]) -> (r: Vec<Vec<char>>)
    ensures
        texts(r@) == words(s@),
{
    let mut out: Vec<Vec<char>> = Vec::new();
    let mut i: usize = 0;
    assert(texts(out@) + words_from(s@, 0) =~= words(s@));
    while i < s.len()
        invariant
            i <= s.len(),
            texts(out@) + words_from(s@, i as int) == words(s@),
        decreases s.len() - i,
    {
        let from: usize = i;
        while i < s.len() && is_whitespace(s[i])
            invariant
                from <= i <= s.len(),
                word_start(s@, from as int) == word_start(s@, i as int),
            decreases s.len() - i,
        {
            i = i + 1;
        }
        let start: usize = i;
        let mut word: Vec<char> = Vec::new();
        assert(s@.subrange(start as int, start as int) =~= word@);
        while i < s.len() && !is_whitespace(s[i])
            invariant
                start <= i <= s.len(),
                word@ == s@.subrange(start as int, i as int),
                word_end(s@, start as int) == word_end(s@, i as int),
            decreases s.len() - i,
        {
            word.push(s[i]);
            assert(word@ =~= s@.subrange(start as int, i + 1));
            i = i + 1;
        }
        if start < s.len() {
            let ghost had = texts(out@);
            let ghost rest = words_from(s@, i as int);
            out.push(word);
            proof {
                assert(texts(out@) =~= had.push(s@.subrange(start as int, i as int)));
                assert(texts(out@) + rest =~= had + (seq![s@.subrange(start as int, i as int)]
                    + rest));
            }
        }
    }
    assert(texts(out@) + words_from(s@, i as int) =~= texts(out@));
    out
}

/// Texts with a blank between each two.
pub open spec fn joined(s: Seq<Seq<char>>) -> Seq<char>
    decreases s.len(),
{
    if s.len() == 0 {
        Seq::empty()
    } else if s.len() == 1 {
        s[0]
    } else {
        joined(s.drop_last()) + " "@ + s.last()
    }
}

/// The words from position `from` on, with a blank between each two.
pub fn join_from(v: &Vec<Vec<char>>, from: usize) -> (r: String)
    requires
        from <= v.len(),
    ensures
        r@ == joined(texts(v@).skip(from as int)),
{
    let ghost all = texts(v@).skip(from as int);
    let mut out: String = String::new();
    let mut i: usize = from;
    assert(all.take(0) =~= Seq::empty());
    assert(out@ =~= joined(all.take(0)));
    while i < v.len()
        invariant
            from <= i <= v.len(),
            all == texts(v@).skip(from as int),
            out@ == joined(all.take(i - from)),
        decreases v.len() - i,
    {
        proof {
            let t = all.take(i + 1 - from);
            assert(t.drop_last() =~= all.take(i - from));
            assert(t.last() == v@[i as int]@);
        }
        let ghost before = out@;
        if i > from {
            push_str(&mut out, " ");
        }
        push_chars(&mut out, v[i].as_slice());
        proof {
            if i == from {
                assert(out@ =~= v@[i as int]@);
            }
        }
        i = i + 1;
    }
    assert(all.take(i - from) =~= all);
    out
}

/// Where a line ends that has a part at `i`.
pub open spec fn line_end(s: Seq<char>, i: int) -> int
    decreases s.len() - i,
{
    if i >= s.len() || s[i] == '\n' {
        i
    } else {
        line_end(s, i + 1)
    }
}

/// A line ends no earlier.
pub proof fn lemma_line_end(s: Seq<char>, i: int)
    ensures
        i <= line_end(s, i),
    decreases s.len() - i,
{
    if i < s.len() && s[i] != '\n' {
        lemma_line_end(s, i + 1);
    }
}

/// The lines of a text from `i` on, without the line feeds between them.
pub open spec fn lines_from(s: Seq<char>, i: int) -> Seq<Seq<char>>
    decreases s.len() - i,
{
    let e = line_end(s, i);
    if e >= s.len() {
        seq![s.subrange(i, s.len() as int)]
    } else {
        proof {
            lemma_line_end(s, i);
        }
        seq![s.subrange(i, e)] + lines_from(s, e + 1)
    }
}

/// The lines of a text.
pub open spec fn lines(s: Seq<char>) -> Seq<Seq<char>> {
    lines_from(s, 0)
}

/// The lines of a text.
pub fn lines_of(s: &str) -> (r: Vec<Vec<char>>)
    ensures
        texts(r@) == lines(s@),
{
    let c = chars_of(s);
    let mut out: Vec<Vec<char>> = Vec::new();
    let mut i: usize = 0;
    assert(texts(out@) + lines_from(c@, 0) =~= lines(c@));
    loop
        invariant
            i <= c.len(),
            c@ == s@,
            texts(out@) + lines_from(c@, i as int) == lines(c@),
        decreases c.len() - i,
    {
        let start: usize = i;
        let mut line: Vec<char> = Vec::new();
        assert(c@.subrange(start as int, start as int) =~= line@);
        while i < c.len() && c[i] != '\n'
            invariant
                start <= i <= c.len(),
                line@ == c@.subrange(start as int, i as int),
                line_end(c@, start as int) == line_end(c@, i as int),
            decreases c.len() - i,
        {
            line.push(c[i]);
            assert(line@ =~= c@.subrange(start as int, i + 1));
            i = i + 1;
        }
        let ghost had = texts(out@);
        let ghost piece = line@;
        out.push(line);
        assert(texts(out@) =~= had.push(piece));
        if i >= c.len() {
            assert(texts(out@) =~= had + lines_from(c@, start as int));
            return out;
        }
        i = i + 1;
        proof {
            let rest = lines_from(c@, i as int);
            assert(texts(out@) + rest =~= had + (seq![piece] + rest));
        }
    }
}

/// Two hexadecimal digits for each byte.
pub proof fn lemma_hex_len(b: Seq<u8>)
    ensures
        hex(b).len() == 2 * b.len(),
    decreases b.len(),
{
    if b.len() > 0 {
        lemma_hex_len(b.drop_last());
    }
}

/// Different bytes have different hexadecimal forms.
pub proof fn law_hex_injective(a: Seq<u8>, b: Seq<u8>)
    requires
        hex(a) == hex(b),
    ensures
        a == b,
    decreases a.len(),
{
    lemma_hex_len(a);
    lemma_hex_len(b);
    if a.len() > 0 {
        let x = hex(a);
        let y = hex(b);
        assert(x.drop_last().drop_last() =~= hex(a.drop_last()));
        assert(y.drop_last().drop_last() =~= hex(b.drop_last()));
        law_hex_injective(a.drop_last(), b.drop_last());
        assert(x[x.len() - 2] == hex_char((a.last() / 16) as int));
        assert(y[y.len() - 2] == hex_char((b.last() / 16) as int));
        assert(x.last() == hex_char((a.last() % 16) as int));
        assert(y.last() == hex_char((b.last() % 16) as int));
        assert(a.last() == b.last());
        assert(a =~= a.drop_last().push(a.last()));
        assert(b =~= b.drop_last().push(b.last()));
    } else {
        assert(a =~= b);
    }
}

/// Without the slashes in front.
pub open spec fn without_leading(s: Seq<char>) -> Seq<char>
    decreases s.len(),
{
    if s.len() > 0 && s[0] == '/' {
        without_leading(s.skip(1))
    } else {
        s
    }
}

/// Without the slashes at the end.
pub open spec fn without_trailing(s: Seq<char>) -> Seq<char>
    decreases s.len(),
{
    if s.len() > 0 && s.last() == '/' {
        without_trailing(s.drop_last())
    } else {
        s
    }
}

/// A text without the slashes at its start.
pub fn trim_start(s: &str) -> (r: String)
    ensures
        r@ == without_leading(s@),
{
    let v = chars_of(s);
    let mut a: usize = 0;
    assert(v@.skip(0) =~= v@);
    while a < v.len() && v[a] == '/'
        invariant
            a <= v.len(),
            without_leading(v@) == without_leading(v@.skip(a as int)),
        decreases v.len() - a,
    {
        assert(v@.skip(a as int).skip(1) =~= v@.skip(a + 1));
        a = a + 1;
    }
    let end: usize = v.len();
    assert(v@.subrange(a as int, end as int) =~= v@.skip(a as int));
    range_of(&v, a, end)
}

/// A text without the slashes at its end.
pub fn trim_end(s: &str) -> (r: String)
    ensures
        r@ == without_trailing(s@),
{
    let v = chars_of(s);
    let mut b: usize = v.len();
    assert(v@.take(b as int) =~= v@);
    while b > 0 && v[b - 1] == '/'
        invariant
            b <= v.len(),
            without_trailing(v@) == without_trailing(v@.take(b as int)),
        decreases b,
    {
        assert(v@.take(b as int).drop_last() =~= v@.take(b - 1));
        b = b - 1;
    }
    assert(v@.subrange(0, b as int) =~= v@.take(b as int));
    range_of(&v, 0, b)
}

/// A part of a text.
pub fn range_of(v: &Vec<char>, a: usize, b: usize) -> (r: String)
    requires
        a <= b <= v.len(),
    ensures
        r@ == v@.subrange(a as int, b as int),
{
    let mut out: String = String::new();
    let mut i: usize = a;
    assert(out@ =~= v@.subrange(a as int, a as int));
    while i < b
        invariant
            a <= i <= b <= v.len(),
            out@ == v@.subrange(a as int, i as int),
        decreases b - i,
    {
        foreign::string_push(&mut out, v[i]);
        assert(out@ =~= v@.subrange(a as int, i + 1));
        i = i + 1;
    }
    out
}

/// Where a character comes first in a text, at or behind `i`; the end if it
/// does not.
pub open spec fn find_from(s: Seq<char>, c: char, i: int) -> int
    decreases s.len() - i,
{
    if i < s.len() && s[i] != c {
        find_from(s, c, i + 1)
    } else {
        i
    }
}

/// The place behind the last occurrence of a character in the first `i` of a
/// text; 0 if there is none.
pub open spec fn find_back(s: Seq<char>, c: char, i: int) -> int
    decreases i,
{
    if i > 0 && s[i - 1] != c {
        find_back(s, c, i - 1)
    } else {
        i
    }
}

/// Where a character comes first in a text.
pub fn find_char(v: &Vec<char>, c: char, from: usize) -> (r: usize)
    requires
        from <= v.len(),
    ensures
        r == find_from(v@, c, from as int),
        from <= r <= v.len(),
{
    let mut i: usize = from;
    while i < v.len() && v[i] != c
        invariant
            from <= i <= v.len(),
            find_from(v@, c, from as int) == find_from(v@, c, i as int),
        decreases v.len() - i,
    {
        i = i + 1;
    }
    i
}

/// Behind the last occurrence of a character in the first `to` of a text.
pub fn find_last(v: &Vec<char>, c: char, to: usize) -> (r: usize)
    requires
        to <= v.len(),
    ensures
        r == find_back(v@, c, to as int),
        r <= to,
        r > 0 ==> v@[r - 1] == c,
{
    let mut i: usize = to;
    while i > 0 && v[i - 1] != c
        invariant
            i <= to <= v.len(),
            find_back(v@, c, to as int) == find_back(v@, c, i as int),
        decreases i,
    {
        i = i - 1;
    }
    i
}

/// The value of a decimal digit.
pub open spec fn digit_value(c: char) -> Option<nat> {
    if '0' <= c <= '9' {
        Some((c as int - '0' as int) as nat)
    } else {
        None
    }
}

/// The number that decimal digits write; none for anything else. No digits
/// write 0.
pub open spec fn digits_value(s: Seq<char>) -> Option<nat>
    decreases s.len(),
{
    if s.len() == 0 {
        Some(0)
    } else {
        match (digits_value(s.drop_last()), digit_value(s.last())) {
            (Some(n), Some(d)) => Some(10 * n + d),
            _ => None,
        }
    }
}

/// A number in decimal is made of digits that write it.
pub proof fn lemma_decimal_digits(n: nat)
    ensures
        decimal(n).len() > 0,
        digits_value(decimal(n)) == Some(n),
        forall|i: int| 0 <= i < decimal(n).len() ==> '0' <= #[trigger] decimal(n)[i] <= '9',
    decreases n,
{
    let s = decimal(n);
    if n < 10 {
        assert(s.drop_last() =~= Seq::<char>::empty());
        assert(digits_value(s.drop_last()) == Some(0nat));
    } else {
        lemma_decimal_digits(n / 10);
        assert(s.drop_last() =~= decimal(n / 10));
    }
}

/// What is no digit makes the whole no number.
proof fn lemma_no_digit(s: Seq<char>, i: int)
    requires
        0 <= i < s.len(),
        digit_value(s[i]) is None,
    ensures
        digits_value(s) is None,
    decreases s.len(),
{
    if i < s.len() - 1 {
        assert(s.drop_last()[i] == s[i]);
        lemma_no_digit(s.drop_last(), i);
    }
}

/// The number that a part of a text writes in decimal, at least one digit,
/// if it fits in 16 bits.
pub fn parse_u16(v: &Vec<char>, a: usize, b: usize) -> (r: Option<u16>)
    requires
        a <= b <= v.len(),
    ensures
        match digits_value(v@.subrange(a as int, b as int)) {
            Some(n) => if a < b && n <= u16::MAX {
                r == Some(n as u16)
            } else {
                r is None
            },
            None => r is None,
        },
{
    let ghost s = v@.subrange(a as int, b as int);
    let mut n: u32 = 0;
    let mut over: bool = false;
    let mut i: usize = a;
    assert(s.take(0) =~= Seq::<char>::empty());
    while i < b
        invariant
            a <= i <= b <= v.len(),
            s == v@.subrange(a as int, b as int),
            digits_value(s.take(i - a)) matches Some(m) && (if over {
                m > u16::MAX
            } else {
                m == n && n <= u16::MAX
            }),
        decreases b - i,
    {
        let c: char = v[i];
        assert(s[i - a] == c);
        assert(s.take(i - a + 1).drop_last() =~= s.take(i - a));
        assert(s.take(i - a + 1).last() == c);
        if !('0' <= c && c <= '9') {
            proof {
                lemma_no_digit(s, i - a);
            }
            return None;
        }
        let d: u32 = c as u32 - 48;
        if !over {
            n = 10 * n + d;
            over = n > 65535;
        }
        i = i + 1;
    }
    assert(s.take(b - a) =~= s);
    if a == b || over {
        None
    } else {
        Some(n as u16)
    }
}

/// A text filled up with spaces on the right.
pub open spec fn padded_right(s: Seq<char>, width: nat) -> Seq<char> {
    if s.len() < width {
        s + Seq::new((width - s.len()) as nat, |i: int| ' ')
    } else {
        s
    }
}

/// A text filled up with spaces on the left.
pub open spec fn padded_left(s: Seq<char>, width: nat) -> Seq<char> {
    if s.len() < width {
        Seq::new((width - s.len()) as nat, |i: int| ' ') + s
    } else {
        s
    }
}

/// Append `n` spaces.
fn push_spaces(out: &mut String, n: usize)
    ensures
        final(out)@ == old(out)@ + Seq::new(n as nat, |i: int| ' '),
{
    let mut i: usize = 0;
    assert(out@ =~= old(out)@ + Seq::new(0, |k: int| ' '));
    while i < n
        invariant
            i <= n,
            out@ == old(out)@ + Seq::new(i as nat, |k: int| ' '),
        decreases n - i,
    {
        foreign::string_push(out, ' ');
        assert(out@ =~= old(out)@ + Seq::new((i + 1) as nat, |k: int| ' '));
        i = i + 1;
    }
}

/// Append a text, filled up with spaces on the right.
pub fn push_padded_right(out: &mut String, s: &str, width: usize)
    ensures
        final(out)@ == old(out)@ + padded_right(s@, width as nat),
{
    let n: usize = chars_of(s).len();
    push_str(out, s);
    if n < width {
        push_spaces(out, width - n);
    }
    assert(out@ =~= old(out)@ + padded_right(s@, width as nat));
}

/// Append a number in decimal, filled up with spaces on the left.
pub fn push_padded_number(out: &mut String, n: u64, width: usize)
    ensures
        final(out)@ == old(out)@ + padded_left(decimal(n as nat), width as nat),
{
    let mut digits: String = String::new();
    push_decimal(&mut digits, n);
    assert(digits@ =~= decimal(n as nat));
    let len: usize = chars_of(digits.as_str()).len();
    if len < width {
        push_spaces(out, width - len);
    }
    push_str(out, digits.as_str());
    assert(out@ =~= old(out)@ + padded_left(decimal(n as nat), width as nat));
}

/// The path of a file in a directory.
pub open spec fn joined_path(dir: Seq<char>, name: Seq<char>) -> Seq<char> {
    if dir.len() == 0 || dir.last() == '/' {
        dir + name
    } else {
        dir + "/"@ + name
    }
}

/// Join a directory and a name.
pub(crate) fn join_path(dir: &str, name: &str) -> (r: String)
    ensures
        r@ == joined_path(dir@, name@),
{
    let mut path: String = dir.to_owned();
    let n: usize = dir.unicode_len();
    if n > 0 && dir.get_char(n - 1) != '/' {
        push_str(&mut path, "/");
    }
    push_str(&mut path, name);
    assert(path@ =~= joined_path(dir@, name@));
    path
}

} // verus!
