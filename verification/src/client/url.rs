//! `velcrux://host[:port][/path]` URLs.

use vstd::prelude::*;
use vstd::utf8;

use crate::foreign;
use crate::text;

verus! {

/// Port that a URL without one means.
pub const DEFAULT_PORT: u16 = 7443;

/// Why a URL is refused.
#[derive(Debug, Clone, Copy, PartialEq, Eq, Structural)]
pub enum UrlError {
    /// The scheme is another one.
    Scheme,
    /// What follows the last colon is no port.
    Port,
    /// There is no host.
    NoHost,
}

impl UrlError {
    /// The description of the error.
    pub open spec fn text(self) -> &'static str {
        match self {
            UrlError::Scheme => "URL must start with velcrux://",
            UrlError::Port => "invalid port",
            UrlError::NoHost => "URL has no host",
        }
    }

    /// The description of the error.
    pub fn message(self) -> (r: &'static str)
        ensures
            r == self.text(),
    {
        match self {
            UrlError::Scheme => "URL must start with velcrux://",
            UrlError::Port => "invalid port",
            UrlError::NoHost => "URL has no host",
        }
    }
}

/// What a URL names.
#[derive(Debug)]
pub struct Target {
    /// Host name or address.
    pub host: String,
    /// Port.
    pub port: u16,
    /// Path, decoded, with a slash in front.
    pub path: String,
}

/// What a URL names, by its contents.
#[verifier::ext_equal]
pub struct TargetView {
    pub host: Seq<char>,
    pub port: u16,
    pub path: Seq<char>,
}

impl View for Target {
    type V = TargetView;

    open spec fn view(&self) -> TargetView {
        TargetView { host: self.host@, port: self.port, path: self.path@ }
    }
}

/// The port that a text writes: decimal digits, with a plus sign in front or
/// without.
pub open spec fn port_of(s: Seq<char>) -> Option<u16> {
    let d = if s.len() > 0 && s[0] == '+' {
        s.skip(1)
    } else {
        s
    };
    match text::digits_value(d) {
        Some(n) => if d.len() > 0 && n <= u16::MAX {
            Some(n as u16)
        } else {
            None
        },
        None => None,
    }
}

/// The value of a hexadecimal digit.
pub open spec fn hex_value(b: u8) -> Option<u8> {
    if 0x30 <= b <= 0x39 {
        Some((b - 0x30) as u8)
    } else if 0x41 <= b <= 0x46 {
        Some((b - 0x41 + 10) as u8)
    } else if 0x61 <= b <= 0x66 {
        Some((b - 0x61 + 10) as u8)
    } else {
        None
    }
}

/// The byte that bytes start with the escape of: a percent sign and two
/// hexadecimal digits.
pub open spec fn escape_at_start(b: Seq<u8>) -> Option<u8> {
    if b.len() < 3 || b[0] != 0x25 {
        None
    } else {
        match (hex_value(b[1]), hex_value(b[2])) {
            (Some(high), Some(low)) => Some((16 * high + low) as u8),
            _ => None,
        }
    }
}

/// Bytes with every escape replaced by the byte it stands for. A percent sign
/// that starts no escape stands for itself.
pub open spec fn unescaped(b: Seq<u8>) -> Seq<u8>
    decreases b.len(),
{
    if b.len() == 0 {
        Seq::empty()
    } else {
        match escape_at_start(b) {
            Some(x) => seq![x] + unescaped(b.skip(3)),
            None => seq![b[0]] + unescaped(b.skip(1)),
        }
    }
}

/// A text that was decoded: its escapes stand for the bytes of its UTF-8 form.
/// One whose escapes do not give UTF-8 stays as it is.
pub open spec fn url_decoded(s: Seq<char>) -> Seq<char> {
    let b = unescaped(utf8::encode_utf8(s));
    if utf8::valid_utf8(b) {
        utf8::decode_utf8(b)
    } else {
        s
    }
}

fn hex_digit(b: u8) -> (r: Option<u8>)
    ensures
        r == hex_value(b),
{
    if 0x30 <= b && b <= 0x39 {
        Some(b - 0x30)
    } else if 0x41 <= b && b <= 0x46 {
        Some(b - 0x41 + 10)
    } else if 0x61 <= b && b <= 0x66 {
        Some(b - 0x61 + 10)
    } else {
        None
    }
}

/// Replace the escapes of a text.
fn url_decode(s: &str) -> (r: String)
    ensures
        r@ == url_decoded(s@),
{
    let b = s.as_bytes();
    let mut out: Vec<u8> = Vec::new();
    let mut i: usize = 0;
    assert(b@.skip(0) =~= b@);
    assert(out@ + unescaped(b@) =~= unescaped(b@));
    while i < b.len()
        invariant
            i <= b.len(),
            out@ + unescaped(b@.skip(i as int)) == unescaped(b@),
        decreases b.len() - i,
    {
        let ghost rest = b@.skip(i as int);
        let ghost before = out@;
        let mut escaped: Option<u8> = None;
        if b[i] == 0x25 && b.len() - i >= 3 {
            if let (Some(high), Some(low)) = (hex_digit(b[i + 1]), hex_digit(b[i + 2])) {
                escaped = Some(16 * high + low);
            }
        }
        assert(escaped == escape_at_start(rest));
        match escaped {
            Some(x) => {
                out.push(x);
                assert(rest.skip(3) =~= b@.skip(i + 3));
                assert(before + (seq![x] + unescaped(rest.skip(3))) =~= out@ + unescaped(
                    rest.skip(3),
                ));
                i = i + 3;
            },
            None => {
                out.push(b[i]);
                assert(rest.skip(1) =~= b@.skip(i + 1));
                assert(before + (seq![rest[0]] + unescaped(rest.skip(1))) =~= out@ + unescaped(
                    rest.skip(1),
                ));
                i = i + 1;
            },
        }
    }
    assert(b@.skip(i as int) =~= Seq::empty());
    assert(out@ =~= unescaped(b@));
    match foreign::str_from_utf8(out.as_slice()) {
        Some(t) => {
            proof {
                utf8::encode_utf8_decode_utf8(t@);
            }
            t.to_owned()
        },
        None => s.to_owned(),
    }
}

/// What stands between the scheme and the first slash, and the path, decoded.
pub open spec fn authority_and_path(rest: Seq<char>) -> (Seq<char>, Seq<char>) {
    let slash = text::find_from(rest, '/', 0);
    (
        rest.take(slash),
        if slash < rest.len() {
            url_decoded(rest.skip(slash))
        } else {
            "/"@
        },
    )
}

/// What a URL names. The port stands behind the last colon of the authority.
pub open spec fn target_of(url: Seq<char>) -> Result<TargetView, UrlError> {
    if !"velcrux://"@.is_prefix_of(url) {
        Err(UrlError::Scheme)
    } else {
        let (authority, path) = authority_and_path(url.skip("velcrux://"@.len() as int));
        let colon = text::find_back(authority, ':', authority.len() as int);
        if colon == 0 {
            if authority.len() == 0 {
                Err(UrlError::NoHost)
            } else {
                Ok(TargetView { host: authority, port: DEFAULT_PORT, path })
            }
        } else {
            match port_of(authority.skip(colon)) {
                None => Err(UrlError::Port),
                Some(port) => if colon == 1 {
                    Err(UrlError::NoHost)
                } else {
                    Ok(TargetView { host: authority.take(colon - 1), port, path })
                },
            }
        }
    }
}

/// Whether a text names something on a server.
pub open spec fn is_remote(s: Seq<char>) -> bool {
    "velcrux://"@.is_prefix_of(s)
}

/// Split a URL.
pub fn parse_url_with_path(s: &str) -> (r: Result<Target, UrlError>)
    ensures
        match target_of(s@) {
            Ok(t) => r matches Ok(x) && x@ == t,
            Err(e) => r == Err::<Target, UrlError>(e),
        },
{
    if !text::starts_with(s, "velcrux://") {
        return Err(UrlError::Scheme);
    }
    let all = text::chars_of(s);
    let start: usize = text::chars_of("velcrux://").len();
    let mut v: Vec<char> = Vec::new();
    let mut i: usize = start;
    while i < all.len()
        invariant
            start <= i <= all.len(),
            v@ == all@.subrange(start as int, i as int),
        decreases all.len() - i,
    {
        v.push(all[i]);
        assert(v@ =~= all@.subrange(start as int, i + 1));
        i = i + 1;
    }
    let ghost rest = s@.skip(start as int);
    assert(v@ =~= rest);
    let slash: usize = text::find_char(&v, '/', 0);
    let path: String = if slash < v.len() {
        let p = text::range_of(&v, slash, v.len());
        assert(p@ =~= rest.skip(slash as int));
        url_decode(p.as_str())
    } else {
        "/".to_owned()
    };
    let ghost authority = rest.take(slash as int);
    let colon: usize = text::find_last(&v, ':', slash);
    proof {
        lemma_find_back_prefix(v@, authority, ':', slash as int);
    }
    if colon == 0 {
        if slash == 0 {
            return Err(UrlError::NoHost);
        }
        let host = text::range_of(&v, 0, slash);
        assert(host@ =~= authority);
        return Ok(Target { host, port: DEFAULT_PORT, path });
    }
    let signed: bool = colon < slash && v[colon] == '+';
    let from: usize = if signed {
        colon + 1
    } else {
        colon
    };
    proof {
        let p = authority.skip(colon as int);
        if signed {
            assert(p.skip(1) =~= v@.subrange(from as int, slash as int));
        } else {
            assert(p =~= v@.subrange(from as int, slash as int));
        }
    }
    let port: u16 = match text::parse_u16(&v, from, slash) {
        Some(p) => p,
        None => {
            return Err(UrlError::Port);
        },
    };
    if colon == 1 {
        return Err(UrlError::NoHost);
    }
    let host = text::range_of(&v, 0, colon - 1);
    assert(host@ =~= authority.take(colon - 1));
    Ok(Target { host, port, path })
}

/// Looking back from a place depends only on what is before it.
proof fn lemma_find_back_prefix(s: Seq<char>, t: Seq<char>, c: char, i: int)
    requires
        0 <= i <= t.len() <= s.len(),
        t == s.take(t.len() as int),
    ensures
        text::find_back(s, c, i) == text::find_back(t, c, i),
    decreases i,
{
    if i > 0 {
        assert(t[i - 1] == s[i - 1]);
        lemma_find_back_prefix(s, t, c, i - 1);
    }
}

/// Host and port of a URL; the path is of no interest.
pub fn parse_url(s: &str) -> (r: Result<(String, u16), UrlError>)
    ensures
        match target_of(s@) {
            Ok(t) => r matches Ok((host, port)) && host@ == t.host && port == t.port,
            Err(e) => r == Err::<(String, u16), UrlError>(e),
        },
{
    match parse_url_with_path(s) {
        Ok(t) => Ok((t.host, t.port)),
        Err(e) => Err(e),
    }
}

/// Which of the addresses of a host is used: the first of IPv4, or else the
/// first. For each address it is told whether it is of IPv4.
pub fn preferred(v4: &Vec<bool>) -> (r: Option<usize>)
    ensures
        match r {
            None => v4@.len() == 0,
            Some(i) => {
                &&& i < v4@.len()
                &&& v4@[i as int] ==> forall|j: int| 0 <= j < i ==> !(#[trigger] v4@[j])
                &&& !v4@[i as int] ==> i == 0 && forall|j: int|
                    0 <= j < v4@.len() ==> !(#[trigger] v4@[j])
            },
        },
{
    let mut i: usize = 0;
    while i < v4.len()
        invariant
            i <= v4.len(),
            forall|j: int| 0 <= j < i ==> !(#[trigger] v4@[j]),
        decreases v4.len() - i,
    {
        if v4[i] {
            return Some(i);
        }
        i = i + 1;
    }
    if v4.len() == 0 {
        None
    } else {
        Some(0)
    }
}

/// The server name for TLS: the given one, or the host of the URL.
pub fn get_sni(given: &Option<String>, target: &Target) -> (r: String)
    ensures
        r@ == match *given {
            Some(s) => s@,
            None => target@.host,
        },
{
    match given {
        Some(s) => s.clone(),
        None => target.host.clone(),
    }
}

/// A text without percent signs is decoded to itself.
pub proof fn law_plain_text_stays(s: Seq<char>)
    requires
        forall|i: int| 0 <= i < s.len() ==> s[i] != '%',
    ensures
        url_decoded(s) == s,
{
    let b = utf8::encode_utf8(s);
    lemma_plain_bytes(s);
    lemma_unescaped_same(b);
    utf8::encode_utf8_valid_utf8(s);
    utf8::encode_utf8_decode_utf8(s);
}

/// Only a percent sign has the byte of one in its UTF-8 form.
proof fn lemma_plain_bytes(s: Seq<char>)
    requires
        forall|i: int| 0 <= i < s.len() ==> s[i] != '%',
    ensures
        forall|i: int| 0 <= i < utf8::encode_utf8(s).len() ==> utf8::encode_utf8(s)[i] != 0x25,
    decreases s.len(),
{
    if s.len() > 0 {
        let rest = s.drop_first();
        let c = s[0] as u32;
        let first = utf8::encode_scalar(c);
        assert forall|i: int| 0 <= i < rest.len() implies rest[i] != '%' by {
            assert(rest[i] == s[i + 1]);
        }
        lemma_plain_bytes(rest);
        utf8::char_is_scalar(s[0]);
        utf8::char_u32_cast(s[0], c);
        utf8::char_u32_cast('%', 0x25);
        assert(s[0] != '%');
        lemma_scalar_bytes(c);
        assert forall|i: int| 0 <= i < first.len() implies first[i] != 0x25 by {}
        assert(utf8::encode_utf8(s) =~= first + utf8::encode_utf8(rest));
    }
}

proof fn lemma_scalar_bytes(c: u32)
    requires
        c != 0x25,
        utf8::is_scalar(c),
    ensures
        forall|i: int|
            0 <= i < utf8::encode_scalar(c).len() ==> utf8::encode_scalar(c)[i] != 0x25,
{
    assert(c <= 0x7F && c != 0x25 ==> (c & 0x7F) as u8 != 0x25) by (bit_vector);
    assert(forall|y: u8| #[trigger] (0x80u8 | y) >= 0x80) by (bit_vector);
    assert(forall|y: u8| #[trigger] (0xC0u8 | y) >= 0x80) by (bit_vector);
    assert(forall|y: u8| #[trigger] (0xE0u8 | y) >= 0x80) by (bit_vector);
    assert(forall|y: u8| #[trigger] (0xF0u8 | y) >= 0x80) by (bit_vector);
}

proof fn lemma_unescaped_same(b: Seq<u8>)
    requires
        forall|i: int| 0 <= i < b.len() ==> b[i] != 0x25,
    ensures
        unescaped(b) == b,
    decreases b.len(),
{
    if b.len() > 0 {
        assert forall|i: int| 0 <= i < b.skip(1).len() implies b.skip(1)[i] != 0x25 by {
            assert(b.skip(1)[i] == b[i + 1]);
        }
        lemma_unescaped_same(b.skip(1));
        assert(seq![b[0]] + b.skip(1) =~= b);
    }
}

/// A URL that is made of a host without colons and slashes, a port and a path
/// names these, with the escapes of the path replaced.
pub proof fn law_url_names_its_parts(host: Seq<char>, port: u16, path: Seq<char>)
    requires
        host.len() > 0,
        forall|i: int| 0 <= i < host.len() ==> host[i] != ':' && host[i] != '/',
    ensures
        target_of("velcrux://"@ + host + ":"@ + text::decimal(port as nat) + "/"@ + path) == Ok::<
            TargetView,
            UrlError,
        >(TargetView { host, port, path: url_decoded("/"@ + path) }),
        target_of("velcrux://"@ + host) == Ok::<TargetView, UrlError>(
            TargetView { host, port: DEFAULT_PORT, path: "/"@ },
        ),
{
    reveal_strlit(":");
    reveal_strlit("/");
    let scheme = "velcrux://"@;
    let digits = text::decimal(port as nat);
    text::lemma_decimal_digits(port as nat);
    let rest = host + ":"@ + digits + "/"@ + path;
    let url = scheme + host + ":"@ + digits + "/"@ + path;
    assert(url =~= scheme + rest);
    assert(url.skip(scheme.len() as int) =~= rest);
    let n = host.len() + 1 + digits.len();
    assert forall|i: int| 0 <= i < n implies rest[i] != '/' by {
        if host.len() < i {
            assert(rest[i] == digits[i - host.len() - 1]);
        }
    }
    lemma_find_from_at(rest, '/', 0, n as int);
    let authority = rest.take(n as int);
    assert(authority =~= host + ":"@ + digits);
    assert forall|i: int| host.len() < i < n implies authority[i] != ':' by {
        assert(authority[i] == digits[i - host.len() - 1]);
    }
    lemma_find_back_at(authority, ':', n as int, (host.len() + 1) as int);
    assert(authority.skip((host.len() + 1) as int) =~= digits);
    assert(authority.take(host.len() as int) =~= host);
    assert(rest.skip(n as int) =~= "/"@ + path);
    let bare = scheme + host;
    assert(bare.skip(scheme.len() as int) =~= host);
    lemma_find_from_at(host, '/', 0, host.len() as int);
    assert(host.take(host.len() as int) =~= host);
    lemma_find_back_at(host, ':', host.len() as int, 0);
}

proof fn lemma_find_from_at(s: Seq<char>, c: char, i: int, k: int)
    requires
        0 <= i <= k <= s.len(),
        forall|j: int| i <= j < k ==> s[j] != c,
        k < s.len() ==> s[k] == c,
    ensures
        text::find_from(s, c, i) == k,
    decreases k - i,
{
    if i < k {
        lemma_find_from_at(s, c, i + 1, k);
    }
}

proof fn lemma_find_back_at(s: Seq<char>, c: char, i: int, k: int)
    requires
        0 <= k <= i <= s.len(),
        forall|j: int| k <= j < i ==> s[j] != c,
        k > 0 ==> s[k - 1] == c,
    ensures
        text::find_back(s, c, i) == k,
    decreases i,
{
    if k < i {
        lemma_find_back_at(s, c, i - 1, k);
    }
}

} // verus!
