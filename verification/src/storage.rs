//! Virtual paths: the paths that peers may name.

use vstd::prelude::*;
use vstd::utf8;

use crate::protocol::limits::{MAX_PATH_COMPONENT, MAX_PATH_TOTAL};

verus! {

/// Why a path is not a virtual path.
#[derive(Debug, Clone, Copy, PartialEq, Eq, Structural)]
pub enum VPathError {
    /// The path is empty.
    Empty,
    /// The path is longer than `MAX_PATH_TOTAL` bytes.
    TooLong,
    /// The path starts with a slash.
    Absolute,
    /// The path holds a control character.
    ControlCharacter,
    /// Two slashes follow each other, or the path ends in one.
    EmptyComponent,
    /// A component is `.` or `..`.
    Traversal,
    /// A component is longer than `MAX_PATH_COMPONENT` bytes.
    ComponentTooLong,
}

impl VPathError {
    /// What is wrong, in words.
    pub open spec fn text(self) -> &'static str {
        match self {
            VPathError::Empty => "empty path",
            VPathError::TooLong => "path too long",
            VPathError::Absolute => "absolute path",
            VPathError::ControlCharacter => "control character in path",
            VPathError::EmptyComponent => "empty path component",
            VPathError::Traversal => "path traversal",
            VPathError::ComponentTooLong => "path component too long",
        }
    }

    /// What is wrong, in words.
    pub fn message(self) -> (r: &'static str)
        ensures
            r == self.text(),
    {
        match self {
            VPathError::Empty => "empty path",
            VPathError::TooLong => "path too long",
            VPathError::Absolute => "absolute path",
            VPathError::ControlCharacter => "control character in path",
            VPathError::EmptyComponent => "empty path component",
            VPathError::Traversal => "path traversal",
            VPathError::ComponentTooLong => "path component too long",
        }
    }
}

/// `/` in UTF-8.
pub const SLASH: u8 = 0x2F;

/// `.` in UTF-8.
pub const DOT: u8 = 0x2E;

/// Whether a control character (U+0000 to U+001F, U+007F to U+009F) starts at
/// `i` in the UTF-8 text `b`.
pub open spec fn control_at(b: Seq<u8>, i: int) -> bool {
    ||| b[i] < 0x20
    ||| b[i] == 0x7F
    ||| b[i] == 0xC2 && i + 1 < b.len() && 0x80 <= b[i + 1] <= 0x9F
}

/// Whether the text holds a control character.
pub open spec fn has_control(b: Seq<u8>) -> bool {
    exists|i: int| 0 <= i < b.len() && #[trigger] control_at(b, i)
}

/// The end of the component that starts at `i`: the next slash, or the end.
pub open spec fn component_end(b: Seq<u8>, i: int) -> int
    decreases b.len() - i,
{
    if i >= b.len() || b[i] == SLASH {
        i
    } else {
        component_end(b, i + 1)
    }
}

/// What is wrong with one component.
pub open spec fn single_fault(c: Seq<u8>) -> Option<VPathError> {
    if c.len() == 0 {
        Some(VPathError::EmptyComponent)
    } else if c == seq![DOT] || c == seq![DOT, DOT] {
        Some(VPathError::Traversal)
    } else if c.len() > MAX_PATH_COMPONENT {
        Some(VPathError::ComponentTooLong)
    } else {
        None
    }
}

/// What is wrong with the first bad component at or behind `i`.
pub open spec fn component_fault(b: Seq<u8>, i: int) -> Option<VPathError>
    decreases b.len() - i,
{
    let j = component_end(b, i);
    if j < i || j > b.len() {
        None
    } else if single_fault(b.subrange(i, j)) is Some {
        single_fault(b.subrange(i, j))
    } else if j == b.len() {
        None
    } else {
        component_fault(b, j + 1)
    }
}

/// What is wrong with a path, given by its UTF-8 bytes.
pub open spec fn path_fault(b: Seq<u8>) -> Option<VPathError> {
    if b.len() == 0 {
        Some(VPathError::Empty)
    } else if b.len() > MAX_PATH_TOTAL {
        Some(VPathError::TooLong)
    } else if b[0] == SLASH {
        Some(VPathError::Absolute)
    } else if has_control(b) {
        Some(VPathError::ControlCharacter)
    } else {
        component_fault(b, 0)
    }
}

/// Whether a text is a virtual path.
pub open spec fn is_vpath(s: Seq<char>) -> bool {
    path_fault(utf8::encode_utf8(s)) is None
}

proof fn lemma_component_end(b: Seq<u8>, i: int)
    requires
        0 <= i <= b.len(),
    ensures
        i <= component_end(b, i) <= b.len(),
        component_end(b, i) < b.len() ==> b[component_end(b, i)] == SLASH,
        forall|k: int| i <= k < component_end(b, i) ==> b[k] != SLASH,
    decreases b.len() - i,
{
    if i < b.len() && b[i] != SLASH {
        lemma_component_end(b, i + 1);
    }
}

/// Whether `b[i..j]` is a whole component of the path.
pub open spec fn is_component(b: Seq<u8>, i: int, j: int) -> bool {
    &&& 0 <= i <= j <= b.len()
    &&& i == 0 || b[i - 1] == SLASH
    &&& j == b.len() || b[j] == SLASH
    &&& forall|k: int| i <= k < j ==> b[k] != SLASH
}

proof fn lemma_component_fault(b: Seq<u8>, from: int, i: int, j: int)
    requires
        0 <= from <= b.len(),
        from == 0 || b[from - 1] == SLASH,
        component_fault(b, from) is None,
        is_component(b, i, j),
        from <= i,
    ensures
        single_fault(b.subrange(i, j)) is None,
    decreases b.len() - from,
{
    lemma_component_end(b, from);
    let e = component_end(b, from);
    if i == from {
        if j < e {
            assert(b[j] != SLASH);
        } else if j > e {
            assert(b[e] != SLASH);
        }
    } else if i <= e {
        assert(b[i - 1] != SLASH);
    } else {
        lemma_component_fault(b, e + 1, i, j);
    }
}

/// A virtual path stays below the root: it is relative, and every component
/// of it is a name, never empty, `.` or `..`, and free of control characters.
pub proof fn law_vpath_confined(s: Seq<char>, i: int, j: int)
    requires
        is_vpath(s),
        is_component(utf8::encode_utf8(s), i, j),
    ensures
        ({
            let b = utf8::encode_utf8(s);
            let c = b.subrange(i, j);
            &&& b[0] != SLASH
            &&& 0 < c.len() <= MAX_PATH_COMPONENT
            &&& c != seq![DOT]
            &&& c != seq![DOT, DOT]
            &&& b.len() <= MAX_PATH_TOTAL
            &&& forall|k: int| 0 <= k < b.len() ==> !#[trigger] control_at(b, k)
        }),
{
    lemma_component_fault(utf8::encode_utf8(s), 0, i, j);
}

/// A validated, relative, slash-separated path.
#[derive(Debug, PartialEq, Eq)]
pub struct VPath {
    text: String,
}

impl View for VPath {
    type V = Seq<char>;

    closed spec fn view(&self) -> Seq<char> {
        self.text@
    }
}

impl Clone for VPath {
    fn clone(&self) -> (r: Self)
        ensures
            r@ == self@,
    {
        proof {
            use_type_invariant(self);
        }
        VPath { text: self.text.clone() }
    }
}

fn check_component(b: &[u8], i: usize, j: usize) -> (r: Option<VPathError>)
    requires
        i <= j <= b.len(),
    ensures
        r == single_fault(b@.subrange(i as int, j as int)),
{
    let ghost c = b@.subrange(i as int, j as int);
    if j == i {
        return Some(VPathError::EmptyComponent);
    }
    if j - i == 1 && b[i] == DOT {
        assert(c =~= seq![DOT]);
        return Some(VPathError::Traversal);
    }
    if j - i == 2 && b[i] == DOT && b[i + 1] == DOT {
        assert(c =~= seq![DOT, DOT]);
        return Some(VPathError::Traversal);
    }
    proof {
        if c == seq![DOT] {
            assert(c[0] == DOT && c.len() == 1);
        }
        if c == seq![DOT, DOT] {
            assert(c[0] == DOT && c[1] == DOT && c.len() == 2);
        }
    }
    if j - i > MAX_PATH_COMPONENT {
        return Some(VPathError::ComponentTooLong);
    }
    None
}

fn check_components(b: &[u8]) -> (r: Option<VPathError>)
    ensures
        r == component_fault(b@, 0),
{
    let mut start: usize = 0;
    loop
        invariant
            start <= b.len(),
            component_fault(b@, 0) == component_fault(b@, start as int),
        decreases b.len() - start,
    {
        let mut end: usize = start;
        while end < b.len() && b[end] != SLASH
            invariant
                start <= end <= b.len(),
                component_end(b@, start as int) == component_end(b@, end as int),
            decreases b.len() - end,
        {
            end = end + 1;
        }
        if let Some(e) = check_component(b, start, end) {
            return Some(e);
        }
        if end == b.len() {
            return None;
        }
        start = end + 1;
    }
}

fn find_control(b: &[u8]) -> (r: bool)
    ensures
        r == has_control(b@),
{
    let mut i: usize = 0;
    while i < b.len()
        invariant
            i <= b.len(),
            forall|k: int| 0 <= k < i ==> !#[trigger] control_at(b@, k),
        decreases b.len() - i,
    {
        let x: u8 = b[i];
        if x < 0x20 || x == 0x7F {
            assert(control_at(b@, i as int));
            return true;
        }
        if x == 0xC2 && i + 1 < b.len() && 0x80 <= b[i + 1] && b[i + 1] <= 0x9F {
            assert(control_at(b@, i as int));
            return true;
        }
        i = i + 1;
    }
    false
}

impl VPath {
    #[verifier::type_invariant]
    spec fn validated(self) -> bool {
        is_vpath(self.text@)
    }

    /// Validate an untrusted path.
    pub fn validate(raw: &str) -> (r: Result<VPath, VPathError>)
        ensures
            match path_fault(utf8::encode_utf8(raw@)) {
                None => r matches Ok(p) && p@ == raw@,
                Some(e) => r matches Err(d) && d == e,
            },
    {
        let b = raw.as_bytes();
        if b.len() == 0 {
            return Err(VPathError::Empty);
        }
        if b.len() > MAX_PATH_TOTAL {
            return Err(VPathError::TooLong);
        }
        if b[0] == SLASH {
            return Err(VPathError::Absolute);
        }
        if find_control(b) {
            return Err(VPathError::ControlCharacter);
        }
        if let Some(e) = check_components(b) {
            return Err(e);
        }
        Ok(VPath { text: raw.to_owned() })
    }

    /// The path as text.
    pub fn as_str(&self) -> (r: &str)
        ensures
            r@ == self@,
            is_vpath(self@),
    {
        proof {
            use_type_invariant(self);
        }
        self.text.as_str()
    }
}

proof fn lemma_no_component_fault(b: Seq<u8>, from: int)
    requires
        0 <= from <= b.len(),
        from == 0 || b[from - 1] == SLASH,
        forall|i: int, j: int| #[trigger]
            is_component(b, i, j) ==> single_fault(b.subrange(i, j)) is None,
    ensures
        component_fault(b, from) is None,
    decreases b.len() - from,
{
    lemma_component_end(b, from);
    let e = component_end(b, from);
    assert(is_component(b, from, e));
    if e < b.len() {
        lemma_no_component_fault(b, e + 1);
    }
}

/// Which texts are virtual paths: those of one to 4096 bytes that do not start
/// with a slash, hold no control character, and whose components, between
/// slashes, have one to 255 bytes each and are neither one dot nor two.
pub proof fn law_which_paths_are_valid(s: Seq<char>)
    ensures
        is_vpath(s) <==> ({
            let b = utf8::encode_utf8(s);
            &&& 0 < b.len() <= 4096
            &&& b[0] != 0x2F
            &&& forall|k: int|
                0 <= k < b.len() ==> (#[trigger] b[k]) >= 0x20 && b[k] != 0x7F && !(b[k] == 0xC2 && k
                    + 1 < b.len() && 0x80 <= b[k + 1] <= 0x9F)
            &&& forall|i: int, j: int| #[trigger]
                is_component(b, i, j) ==> 0 < j - i <= 255 && !(j == i + 1 && b[i] == 0x2E) && !(j
                    == i + 2 && b[i] == 0x2E && b[i + 1] == 0x2E)
        }),
{
    let b = utf8::encode_utf8(s);
    if is_vpath(s) {
        assert forall|k: int| 0 <= k < b.len() implies (#[trigger] b[k]) >= 0x20 && b[k] != 0x7F
            && !(b[k] == 0xC2 && k + 1 < b.len() && 0x80 <= b[k + 1] <= 0x9F) by {
            assert(!control_at(b, k));
        }
        assert forall|i: int, j: int| #[trigger] is_component(b, i, j) implies 0 < j - i <= 255 && !(
        j == i + 1 && b[i] == 0x2E) && !(j == i + 2 && b[i] == 0x2E && b[i + 1] == 0x2E) by {
            lemma_component_fault(b, 0, i, j);
            let c = b.subrange(i, j);
            if j == i + 1 && b[i] == 0x2E {
                assert(c =~= seq![DOT]);
            }
            if j == i + 2 && b[i] == 0x2E && b[i + 1] == 0x2E {
                assert(c =~= seq![DOT, DOT]);
            }
        }
    }
    if ({
        &&& 0 < b.len() <= 4096
        &&& b[0] != 0x2F
        &&& forall|k: int|
            0 <= k < b.len() ==> (#[trigger] b[k]) >= 0x20 && b[k] != 0x7F && !(b[k] == 0xC2 && k + 1
                < b.len() && 0x80 <= b[k + 1] <= 0x9F)
        &&& forall|i: int, j: int| #[trigger]
            is_component(b, i, j) ==> 0 < j - i <= 255 && !(j == i + 1 && b[i] == 0x2E) && !(j == i
                + 2 && b[i] == 0x2E && b[i + 1] == 0x2E)
    }) {
        assert forall|k: int| 0 <= k < b.len() implies !#[trigger] control_at(b, k) by {
            assert(b[k] >= 0x20);
        }
        assert forall|i: int, j: int| #[trigger] is_component(b, i, j) implies single_fault(
            b.subrange(i, j),
        ) is None by {
            let c = b.subrange(i, j);
            if c == seq![DOT] {
                assert(c.len() == 1 && c[0] == DOT);
            }
            if c == seq![DOT, DOT] {
                assert(c.len() == 2 && c[0] == DOT && c[1] == DOT);
            }
        }
        lemma_no_component_fault(b, 0);
    }
}

/// What is wrong with a text that is no path, in the order in which it is
/// looked for.
pub proof fn law_path_faults(b: Seq<u8>)
    ensures
        b.len() == 0 ==> path_fault(b) == Some(VPathError::Empty),
        b.len() > 4096 ==> path_fault(b) == Some(VPathError::TooLong),
        0 < b.len() <= 4096 && b[0] == 0x2F ==> path_fault(b) == Some(VPathError::Absolute),
        0 < b.len() <= 4096 && b[0] != 0x2F && has_control(b) ==> path_fault(b) == Some(
            VPathError::ControlCharacter,
        ),
        single_fault(Seq::empty()) == Some(VPathError::EmptyComponent),
        single_fault(seq![0x2E]) == Some(VPathError::Traversal),
        single_fault(seq![0x2E, 0x2E]) == Some(VPathError::Traversal),
        b.len() > 255 ==> single_fault(b) == Some(VPathError::ComponentTooLong),
{
    if b.len() > 255 {
        assert(b != seq![DOT] && b != seq![DOT, DOT]) by {
            assert(seq![DOT].len() == 1 && seq![DOT, DOT].len() == 2);
        }
    }
}

} // verus!
