//! How texts are taken apart and put together.

use vstd::prelude::*;

use crate::client::ClientFault;
use crate::error::{ProtocolError, TransportError, VelcruxError};
use crate::foreign;
use crate::protocol::error;
use crate::state;
use crate::state::{StateStoreError, TransferRecordView};
use crate::text;
use crate::util;
use crate::util::TransferId;

verus! {

/// A line feed ends a line: the text in front of the first is the first line,
/// and the rest has the others.
pub proof fn law_first_line(a: Seq<char>, b: Seq<char>)
    requires
        forall|i: int| 0 <= i < a.len() ==> a[i] != '\n',
    ensures
        text::lines(a + seq!['\n'] + b) == seq![a] + text::lines(b),
        text::lines(a) == seq![a],
{
    let s = a + seq!['\n'] + b;
    lemma_line_end_at(s, 0, a.len() as int);
    assert(s.subrange(0, a.len() as int) =~= a);
    lemma_lines_behind(a + seq!['\n'], b, 0);
    lemma_line_end_at(a, 0, a.len() as int);
    assert(a.subrange(0, a.len() as int) =~= a);
}

proof fn lemma_line_end_at(s: Seq<char>, i: int, k: int)
    requires
        0 <= i <= k <= s.len(),
        forall|j: int| i <= j < k ==> s[j] != '\n',
        k < s.len() ==> s[k] == '\n',
    ensures
        text::line_end(s, i) == k,
    decreases k - i,
{
    if i < k {
        lemma_line_end_at(s, i + 1, k);
    }
}

proof fn lemma_line_end_behind(a: Seq<char>, b: Seq<char>, i: int)
    requires
        0 <= i,
    ensures
        text::line_end(a + b, a.len() + i) == a.len() + text::line_end(b, i),
    decreases b.len() - i,
{
    if i < b.len() && b[i] != '\n' {
        lemma_line_end_behind(a, b, i + 1);
    }
}

proof fn lemma_lines_behind(a: Seq<char>, b: Seq<char>, i: int)
    requires
        0 <= i <= b.len(),
    ensures
        text::lines_from(a + b, a.len() + i) == text::lines_from(b, i),
    decreases b.len() - i,
{
    lemma_line_end_behind(a, b, i);
    text::lemma_line_end(b, i);
    let e = text::line_end(b, i);
    if e >= b.len() {
        lemma_line_end_within(b, i);
        assert((a + b).subrange(a.len() + i, (a + b).len() as int) =~= b.subrange(
            i,
            b.len() as int,
        ));
    } else {
        lemma_lines_behind(a, b, e + 1);
        assert((a + b).subrange(a.len() + i, a.len() + e) =~= b.subrange(i, e));
    }
}

proof fn lemma_line_end_within(s: Seq<char>, i: int)
    requires
        0 <= i <= s.len(),
    ensures
        text::line_end(s, i) <= s.len(),
    decreases s.len() - i,
{
    if i < s.len() && s[i] != '\n' {
        lemma_line_end_within(s, i + 1);
    }
}

/// The characters between words.
pub proof fn law_blanks()
    ensures
        text::is_white(' ') && text::is_white('\t') && text::is_white('\n') && text::is_white('\r'),
        !text::is_white('#') && !text::is_white('a') && !text::is_white('-') && !text::is_white('='),
{
}

/// A word in front of a blank is the first word, and the rest has the others.
/// Blanks in front do not matter.
pub proof fn law_first_word(blank: Seq<char>, w: Seq<char>, rest: Seq<char>)
    requires
        forall|i: int| 0 <= i < blank.len() ==> text::is_white(blank[i]),
        forall|i: int| 0 <= i < w.len() ==> !text::is_white(w[i]),
        w.len() > 0,
        rest.len() == 0 || text::is_white(rest[0]),
    ensures
        text::words(blank + w + rest) == seq![w] + text::words(rest),
        text::words(blank) == Seq::<Seq<char>>::empty(),
{
    let s = blank + w + rest;
    let a = blank.len() as int;
    let b = a + w.len();
    lemma_word_start_at(s, 0, a);
    lemma_word_end_at(s, a, b);
    assert(s.subrange(a, b) =~= w);
    lemma_words_behind(blank + w, rest, 0);
    lemma_word_start_at(blank, 0, a);
}

proof fn lemma_word_start_at(s: Seq<char>, i: int, k: int)
    requires
        0 <= i <= k <= s.len(),
        forall|j: int| i <= j < k ==> text::is_white(s[j]),
        k < s.len() ==> !text::is_white(s[k]),
    ensures
        text::word_start(s, i) == k,
    decreases k - i,
{
    if i < k {
        lemma_word_start_at(s, i + 1, k);
    }
}

proof fn lemma_word_end_at(s: Seq<char>, i: int, k: int)
    requires
        0 <= i <= k <= s.len(),
        forall|j: int| i <= j < k ==> !text::is_white(s[j]),
        k < s.len() ==> text::is_white(s[k]),
    ensures
        text::word_end(s, i) == k,
    decreases k - i,
{
    if i < k {
        lemma_word_end_at(s, i + 1, k);
    }
}

proof fn lemma_word_start_behind(a: Seq<char>, b: Seq<char>, i: int)
    requires
        0 <= i,
    ensures
        text::word_start(a + b, a.len() + i) == a.len() + text::word_start(b, i),
    decreases b.len() - i,
{
    if i < b.len() && text::is_white(b[i]) {
        lemma_word_start_behind(a, b, i + 1);
    }
}

proof fn lemma_word_end_behind(a: Seq<char>, b: Seq<char>, i: int)
    requires
        0 <= i,
    ensures
        text::word_end(a + b, a.len() + i) == a.len() + text::word_end(b, i),
    decreases b.len() - i,
{
    if i < b.len() && !text::is_white(b[i]) {
        lemma_word_end_behind(a, b, i + 1);
    }
}

proof fn lemma_word_end_within(s: Seq<char>, i: int)
    requires
        0 <= i <= s.len(),
    ensures
        i <= text::word_end(s, i) <= s.len(),
        i < s.len() && !text::is_white(s[i]) ==> i < text::word_end(s, i),
    decreases s.len() - i,
{
    if i < s.len() && !text::is_white(s[i]) {
        lemma_word_end_within(s, i + 1);
    }
}

proof fn lemma_words_behind(a: Seq<char>, b: Seq<char>, i: int)
    requires
        0 <= i <= b.len(),
    ensures
        text::words_from(a + b, a.len() + i) == text::words_from(b, i),
    decreases b.len() - i,
{
    lemma_word_start_behind(a, b, i);
    text::lemma_word_start(b, i);
    let x = text::word_start(b, i);
    if x < b.len() {
        lemma_word_end_behind(a, b, x);
        lemma_word_end_within(b, x);
        let y = text::word_end(b, x);
        lemma_words_behind(a, b, y);
        assert((a + b).subrange(a.len() + x, a.len() + y) =~= b.subrange(x, y));
    }
}

/// Words are put together with one blank between each two.
pub proof fn law_joined_words(s: Seq<Seq<char>>, w: Seq<char>)
    ensures
        s.len() > 0 ==> text::joined(s.push(w)) == text::joined(s) + seq![' '] + w,
        text::joined(seq![w]) == w,
        text::joined(Seq::empty()) == Seq::<char>::empty(),
{
    reveal_strlit(" ");
    assert(" "@ =~= seq![' ']);
    if s.len() > 0 {
        assert(s.push(w).drop_last() =~= s);
    }
}

/// Hexadecimal is written with two digits for each byte, the higher first, in
/// lower case.
pub proof fn law_hex_digits(b: Seq<u8>, i: int)
    requires
        0 <= i < b.len(),
    ensures
        text::hex(b).len() == 2 * b.len(),
        text::hex(b)[2 * i] == "0123456789abcdef"@[b[i] as int / 16],
        text::hex(b)[2 * i + 1] == "0123456789abcdef"@[b[i] as int % 16],
    decreases b.len(),
{
    reveal_strlit("0123456789abcdef");
    text::lemma_hex_len(b);
    text::lemma_hex_len(b.drop_last());
    if i < b.len() - 1 {
        law_hex_digits(b.drop_last(), i);
    } else {
        let hi = b[i] as int / 16;
        let lo = b[i] as int % 16;
        assert(text::hex_char(hi) == "0123456789abcdef"@[hi]);
        assert(text::hex_char(lo) == "0123456789abcdef"@[lo]);
    }
}

/// A number is written in decimal, with its last digit last.
pub proof fn law_decimal_digits(n: nat)
    ensures
        n < 10 ==> text::decimal(n).len() == 1 && text::decimal(n)[0] == "0123456789"@[n as int],
        n >= 10 ==> text::decimal(n).drop_last() == text::decimal(n / 10) && text::decimal(n).last()
            == "0123456789"@[(n % 10) as int],
        text::digits_value(text::decimal(n)) == Some(n),
{
    reveal_strlit("0123456789");
    text::lemma_decimal_digits(n);
    if n >= 10 {
        assert(text::decimal(n).drop_last() =~= text::decimal(n / 10));
    }
}

/// The digits of the text form of an identifier: no letter that can be taken
/// for a digit or another letter. Small letters are read like capitals.
pub proof fn law_identifier_digits(d: int)
    requires
        0 <= d < 32,
    ensures
        util::base32_digit(d) == "0123456789ABCDEFGHJKMNPQRSTVWXYZ"@[d],
        util::base32_value("0123456789ABCDEFGHJKMNPQRSTVWXYZ"@[d]) == Some(d),
        util::base32_value("0123456789abcdefghjkmnpqrstvwxyz"@[d]) == Some(d),
        util::base32_value('I') is None && util::base32_value('L') is None && util::base32_value(
            'O',
        ) is None && util::base32_value('U') is None,
{
    reveal_strlit("0123456789ABCDEFGHJKMNPQRSTVWXYZ");
    reveal_strlit("0123456789abcdefghjkmnpqrstvwxyz");
}

/// A text is filled up with blanks to a width, on the one side or on the other,
/// and never cut.
pub proof fn law_padding(s: Seq<char>, width: nat, i: int)
    ensures
        ({
            let n = if s.len() < width {
                width
            } else {
                s.len()
            };
            &&& text::padded_right(s, width).len() == n
            &&& text::padded_left(s, width).len() == n
            &&& 0 <= i < s.len() ==> text::padded_right(s, width)[i] == s[i] && text::padded_left(
                s,
                width,
            )[n - s.len() + i] == s[i]
            &&& s.len() <= i < n ==> text::padded_right(s, width)[i] == ' '
            &&& 0 <= i < n - s.len() ==> text::padded_left(s, width)[i] == ' '
        }),
{
}

/// A name in a directory: with one slash between, unless there is one already
/// or there is no directory.
pub proof fn law_joined_paths(dir: Seq<char>, name: Seq<char>)
    requires
        dir.len() > 0,
        dir.last() != '/',
    ensures
        text::joined_path(dir, name) == dir + seq!['/'] + name,
        text::joined_path(dir + seq!['/'], name) == dir + seq!['/'] + name,
        text::joined_path(Seq::empty(), name) == name,
{
    reveal_strlit("/");
    assert("/"@ =~= seq!['/']);
    assert((dir + seq!['/']).last() == '/');
    assert(Seq::<char>::empty() + name =~= name);
}

/// A negative number has a sign in front.
pub proof fn law_signed_numbers(n: nat)
    ensures
        text::signed(n as int) == text::decimal(n),
        n > 0 ==> text::signed(-(n as int)) == seq!['-'] + text::decimal(n),
{
    reveal_strlit("-");
    assert("-"@ =~= seq!['-']);
}

/// The text form of an identifier has 26 digits; the last ones stand for its
/// last bits.
pub proof fn law_identifier_text(id: Seq<u8>)
    requires
        id.len() == 16,
    ensures
        util::transfer_id_text(id).len() == 26,
        util::transfer_id_text(id)[25] == util::base32_digit(id[15] as int % 32),
{
    lemma_base32_len(util::be_value(id), 26);
    assert(util::be_value(id) % 256 == id[15]);
    assert(util::be_value(id) % 32 == id[15] as int % 32);
}

proof fn lemma_base32_len(v: nat, n: nat)
    ensures
        util::base32_text(v, n).len() == n,
    decreases n,
{
    if n > 0 {
        lemma_base32_len(v / 32, (n - 1) as nat);
    }
}

/// The digest that stands for none is 32 zero bytes.
pub proof fn law_zero_digest(i: int)
    requires
        0 <= i < 32,
    ensures
        util::zero_hash().len() == 32,
        util::zero_hash()[i] == 0,
{
}

/// What the user is told of an error of the protocol.
pub proof fn law_texts_of_errors(e: ProtocolError)
    ensures
        e.text() == match e {
            ProtocolError::Empty => "input is empty"@,
            ProtocolError::NonCanonicalVarint => "non-canonical varint encoding"@,
            ProtocolError::VarintOverflow => "varint overflow (>10 bytes)"@,
            ProtocolError::FrameTooLarge { declared, limit } => "frame length "@ + text::decimal(
                declared as nat,
            ) + " exceeds limit "@ + text::decimal(limit as nat),
            ProtocolError::VersionMismatch { got, expected } => "protocol version mismatch: got "@
                + text::decimal(got as nat) + ", expected "@ + text::decimal(expected as nat),
            ProtocolError::UnsupportedMessage(t) => "unsupported message type: 0x"@ + text::hex(
                seq![t],
            ),
            ProtocolError::InvalidStateTransition(s) => "invalid state transition: "@ + s@,
            ProtocolError::Malformed(s) => "malformed payload: "@ + s@,
            ProtocolError::InvalidPath => "invalid path"@,
            ProtocolError::InvalidIdentity(s) => "invalid identity: "@ + s@,
            ProtocolError::PermissionDenied => "permission denied"@,
            ProtocolError::InvalidManifest(s) => "invalid manifest: "@ + s@,
            ProtocolError::ResourceLimitExceeded(s) => "resource limit exceeded: "@ + s@,
            ProtocolError::QuotaExceeded(s) => "quota exceeded: "@ + s@,
        },
{
}

/// What a peer is told of an error: nothing of what was sent or of what is
/// there; that something is denied looks as if it were missing.
pub proof fn law_peers_are_told_little(e: ProtocolError, f: ProtocolError)
    ensures
        error::error_category(ProtocolError::PermissionDenied) == "not found",
        error::error_category(ProtocolError::InvalidPath) == "not found",
        e is Malformed && f is Malformed ==> error::error_category(e) == error::error_category(f),
        e is InvalidManifest && f is InvalidManifest ==> error::error_category(e)
            == error::error_category(f),
        e is InvalidIdentity && f is InvalidIdentity ==> error::error_category(e)
            == error::error_category(f),
        e is FrameTooLarge ==> error::error_category(e) == "frame too large",
        e is VersionMismatch ==> error::error_category(e) == "version mismatch",
        e is UnsupportedMessage ==> error::error_category(e) == "unsupported message",
        e is InvalidStateTransition ==> error::error_category(e) == "invalid state transition",
        e is Malformed ==> error::error_category(e) == "malformed payload",
        e is InvalidManifest ==> error::error_category(e) == "invalid manifest",
        e is InvalidIdentity ==> error::error_category(e) == "invalid identity",
        e is ResourceLimitExceeded ==> error::error_category(e) == "resource limit exceeded",
        e is QuotaExceeded ==> error::error_category(e) == "quota exceeded",
{
}

/// What the user is told of other errors.
pub proof fn law_texts_of_failures(e: VelcruxError, t: TransportError, s: StateStoreError)
    ensures
        e.text() == match e {
            VelcruxError::Protocol(p) => p.text(),
            VelcruxError::Transport(t) => t.text(),
            VelcruxError::Io(m) => "I/O error: "@ + m@,
            VelcruxError::Config(m) => "configuration error: "@ + m@,
            VelcruxError::Internal(m) => "internal error: "@ + m@,
        },
        t.text() == match t {
            TransportError::Connection(m) => "QUIC connection error: "@ + m@,
            TransportError::Write(m) => "QUIC write error: "@ + m@,
            TransportError::ReadError(m) => "QUIC read error: "@ + m@,
            TransportError::Tls(m) => "TLS error: "@ + m@,
            TransportError::NoClientCertificate => "peer did not present a client certificate"@,
            TransportError::Endpoint(m) => "endpoint error: "@ + m@,
            TransportError::ClosedByPeer { code, reason } => "connection closed by peer: code="@
                + text::decimal(code as nat) + " reason="@ + reason@,
        },
        s.text() == match s {
            StateStoreError::NotFound => "transfer not found"@,
            StateStoreError::IdempotencyConflict(m) => "idempotency key conflict: "@ + m@,
            StateStoreError::Database(m) => "database error: "@ + m@,
            StateStoreError::Corrupt(m) => "corrupt state: "@ + m@,
        },
{
}

/// A key that is used for something else is named, and the transfer that it
/// belongs to.
pub proof fn law_conflict_is_told(existing: TransferRecordView, request: TransferRecordView)
    ensures
        state::conflict_text(existing, request) == "idempotency key '"@ + request.idempotency_key
            + "' already used by transfer "@ + util::transfer_id_text(existing.transfer_id)
            + " with different parameters"@,
{
}

/// What the user is told when the server does not answer as it should.
pub proof fn law_unexpected_answer_is_told(what: &'static str, got: u8)
    ensures
        (ClientFault::Expected { what, got }).text() == "expected "@ + what@ + ", got 0x"@
            + text::hex(seq![got]),
{
}

/// A transfer id and a digest are read back from their bytes and from their
/// text.
pub proof fn law_ids_are_read_back(
    id: TransferId,
    t: String,
    s: &str,
    r: Option<TransferId>,
    b: &[u8],
    x: Option<TransferId>,
    h: Option<util::Hash>,
)
    requires
        call_ensures(TransferId::to_string, (&id,), t),
        s@ == t@,
        call_ensures(TransferId::from_string, (s,), r),
        call_ensures(TransferId::from_bytes, (b,), x),
        call_ensures(util::Hash::from_bytes, (b,), h),
    ensures
        r matches Some(y) && y@ == id@,
        x is Some <==> b@.len() == 16,
        h is Some <==> b@.len() == 32,
        x matches Some(y) ==> y@ == b@,
        h matches Some(y) ==> y@ == b@,
{
    util::law_transfer_id_text_roundtrip(id);
}

/// A digest is shown by its digits, and two that are shown alike are the same.
pub proof fn law_digests_are_shown(data: &[u8], h: util::Hash, g: util::Hash, s: String, t: String)
    requires
        call_ensures(util::Hash::of, (data,), h),
        call_ensures(util::Hash::to_string, (&h,), s),
        call_ensures(util::Hash::to_string, (&g,), t),
        h@.len() == 32,
        g@.len() == 32,
    ensures
        h@ == foreign::blake3_digest(data@),
        s@.len() == 64,
        s@ == t@ ==> h@ == g@,
{
    text::lemma_hex_len(h@);
    if s@ == t@ {
        text::law_hex_injective(h@, g@);
    }
}

} // verus!
