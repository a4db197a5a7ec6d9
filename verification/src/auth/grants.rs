//! What the grants of a configuration allow.

use vstd::prelude::*;

use crate::auth;
use crate::auth::{GrantToml, GrantView, Op};
use crate::error::ProtocolError;
use crate::storage;
use crate::text;

verus! {

/// The name of an operation in a configuration.
pub open spec fn op_name(op: Op) -> Seq<char> {
    match op {
        Op::Upload => "upload"@,
        Op::Download => "download"@,
        Op::List => "list"@,
        Op::Delete => "delete"@,
        Op::Sync => "sync"@,
        Op::Resume => "resume"@,
        Op::Admin => "admin"@,
    }
}

/// A text names an operation.
pub open spec fn names_op(s: Seq<char>) -> bool {
    exists|op: Op| s == #[trigger] op_name(op)
}

proof fn lemma_names_distinct(a: Op, b: Op)
    ensures
        op_name(a) == op_name(b) <==> a == b,
{
    reveal_strlit("upload");
    reveal_strlit("download");
    reveal_strlit("list");
    reveal_strlit("delete");
    reveal_strlit("sync");
    reveal_strlit("resume");
    reveal_strlit("admin");
    if a != b {
        assert(op_name(a).len() != op_name(b).len() || op_name(a)[0] != op_name(b)[0]);
    }
}

proof fn lemma_bit_named(s: Seq<char>, op: Op)
    ensures
        names_op(s) <==> auth::permission_named(s) is Some,
        auth::permission_named(s) matches Some(bit) ==> (bit & op.bit() != 0 <==> s == op_name(op)),
{
    if names_op(s) {
        let o = choose|o: Op| s == #[trigger] op_name(o);
        lemma_names_distinct(o, Op::Upload);
        lemma_names_distinct(o, Op::Download);
        lemma_names_distinct(o, Op::List);
        lemma_names_distinct(o, Op::Delete);
        lemma_names_distinct(o, Op::Sync);
        lemma_names_distinct(o, Op::Resume);
        lemma_names_distinct(o, Op::Admin);
        lemma_names_distinct(o, op);
        auth::law_permissions_independent(o, op);
        assert(auth::permission_named(s) == Some(o.bit()));
    } else {
        assert(s != op_name(Op::Upload));
        assert(s != op_name(Op::Download));
        assert(s != op_name(Op::List));
        assert(s != op_name(Op::Delete));
        assert(s != op_name(Op::Sync));
        assert(s != op_name(Op::Resume));
        assert(s != op_name(Op::Admin));
    }
}

/// The permissions of a list of names hold an operation exactly if its name is
/// in the list. A list with any other name in it is refused.
pub proof fn law_names_are_permissions(s: Seq<String>, n: int, op: Op)
    requires
        0 <= n <= s.len(),
    ensures
        auth::permissions_named(s, n) is Ok <==> forall|j: int|
            0 <= j < n ==> names_op((#[trigger] s[j])@),
        auth::permissions_named(s, n) matches Ok(p) ==> (p & op.bit() != 0 <==> exists|j: int|
            0 <= j < n && (#[trigger] s[j])@ == op_name(op)),
    decreases n,
{
    let bit = op.bit();
    if n > 0 {
        law_names_are_permissions(s, n - 1, op);
        lemma_bit_named(s[n - 1]@, op);
        if let Ok(p) = auth::permissions_named(s, n - 1) {
            if let Some(b) = auth::permission_named(s[n - 1]@) {
                assert((p | b) & bit != 0 <==> (p & bit != 0 || b & bit != 0)) by (bit_vector);
            }
        }
    } else {
        assert(0u64 & bit == 0) by (bit_vector);
    }
}

/// A text of nothing but slashes.
pub open spec fn slashes(s: Seq<char>) -> bool {
    forall|i: int| 0 <= i < s.len() ==> s[i] == '/'
}

/// A text that neither starts nor ends with a slash.
pub open spec fn bare(s: Seq<char>) -> bool {
    s.len() > 0 && s[0] != '/' && s.last() != '/'
}

/// Slashes in front of a text are taken away, and nothing else.
pub proof fn law_leading_slashes(a: Seq<char>, s: Seq<char>)
    requires
        slashes(a),
        s.len() == 0 || s[0] != '/',
    ensures
        text::without_leading(a + s) == s,
    decreases a.len(),
{
    if a.len() == 0 {
        assert(a + s =~= s);
    } else {
        law_leading_slashes(a.skip(1), s);
        assert((a + s).skip(1) =~= a.skip(1) + s);
    }
}

/// Slashes behind a text are taken away, and nothing else.
pub proof fn law_trailing_slashes(s: Seq<char>, b: Seq<char>)
    requires
        slashes(b),
        s.len() == 0 || s.last() != '/',
    ensures
        text::without_trailing(s + b) == s,
    decreases b.len(),
{
    if b.len() == 0 {
        assert(s + b =~= s);
    } else {
        law_trailing_slashes(s, b.drop_last());
        assert((s + b).drop_last() =~= s + b.drop_last());
    }
}

proof fn lemma_trimmed(a: Seq<char>, s: Seq<char>, b: Seq<char>)
    requires
        slashes(a),
        slashes(b),
        bare(s),
    ensures
        auth::trimmed(a + s + b) == s,
        auth::trimmed(s) == s,
{
    assert(a + s + b =~= a + (s + b));
    law_leading_slashes(a, s + b);
    law_trailing_slashes(s, b);
    assert(Seq::<char>::empty() + s =~= s);
    law_leading_slashes(Seq::empty(), s);
    assert(s + Seq::<char>::empty() =~= s);
    law_trailing_slashes(s, Seq::empty());
}

/// A path is a directory, or below it.
pub open spec fn below(dir: Seq<char>, path: Seq<char>) -> bool {
    path == dir || exists|rest: Seq<char>| path == #[trigger] (dir + seq!['/'] + rest)
}

proof fn lemma_below(dir: Seq<char>, path: Seq<char>)
    requires
        bare(dir),
    ensures
        auth::covers(dir, path) <==> below(dir, path),
{
    lemma_trimmed(Seq::empty(), dir, Seq::empty());
    if dir.len() < path.len() && dir.is_prefix_of(path) && path[dir.len() as int] == '/' {
        let rest = path.skip(dir.len() as int + 1);
        assert(path =~= dir + seq!['/'] + rest);
    }
    if exists|rest: Seq<char>| path == #[trigger] (dir + seq!['/'] + rest) {
        let rest = choose|rest: Seq<char>| path == #[trigger] (dir + seq!['/'] + rest);
        assert(path[dir.len() as int] == '/');
        assert(dir =~= path.subrange(0, dir.len() as int));
    }
}

/// A configured grant allows to its identity the operations that it names, on
/// every valid path that is its directory or below it, and nothing else: no
/// other operation, no other path, and nothing to anybody else. Slashes around
/// the directory do not matter.
pub proof fn law_configured_grant_allows(
    g: GrantToml,
    a: Seq<char>,
    dir: Seq<char>,
    b: Seq<char>,
    name: Seq<char>,
    op: Op,
    path: Seq<char>,
)
    requires
        g.path@ == a + dir + b,
        slashes(a),
        slashes(b),
        bare(dir),
        storage::is_vpath(dir),
        forall|j: int| 0 <= j < g.permissions@.len() ==> names_op((#[trigger] g.permissions@[j])@),
    ensures
        auth::config_grants(seq![g], 1) is Ok,
        ({
            let s = auth::config_grants(seq![g], 1)->Ok_0;
            let named = exists|j: int|
                0 <= j < g.permissions@.len() && (#[trigger] g.permissions@[j])@ == op_name(op);
            auth::checked(s, name, op, path) == if !storage::is_vpath(path) {
                Some(ProtocolError::InvalidPath)
            } else if name == g.identity@ && below(dir, path) && named {
                None
            } else {
                Some(ProtocolError::PermissionDenied)
            }
        }),
{
    let one = seq![g];
    reveal_with_fuel(auth::config_grants, 2);
    lemma_trimmed(a, dir, b);
    lemma_below(dir, path);
    law_names_are_permissions(g.permissions@, g.permissions@.len() as int, op);
    assert(one[0] == g);
    let s = auth::config_grants(one, 1)->Ok_0;
    assert(s.len() == 1);
    if auth::applies(s[0], name, path) {
        assert(auth::decides(s, 0, name, path));
    }
}

/// A configured grant on the root allows the operations that it names on every
/// valid path.
pub proof fn law_root_grant_allows(g: GrantToml, op: Op, path: Seq<char>)
    requires
        slashes(g.path@),
        storage::is_vpath(path),
        forall|j: int| 0 <= j < g.permissions@.len() ==> names_op((#[trigger] g.permissions@[j])@),
    ensures
        auth::config_grants(seq![g], 1) is Ok,
        auth::checked(auth::config_grants(seq![g], 1)->Ok_0, g.identity@, op, path) is None
            <==> exists|j: int|
            0 <= j < g.permissions@.len() && (#[trigger] g.permissions@[j])@ == op_name(op),
{
    reveal_with_fuel(auth::config_grants, 2);
    law_leading_slashes(g.path@, Seq::empty());
    assert(g.path@ + Seq::<char>::empty() =~= g.path@);
    law_names_are_permissions(g.permissions@, g.permissions@.len() as int, op);
    assert(seq![g][0] == g);
    let s = auth::config_grants(seq![g], 1)->Ok_0;
    assert(auth::trimmed(Seq::<char>::empty()).len() == 0);
    assert(auth::applies(s[0], g.identity@, path));
    assert(auth::decides(s, 0, g.identity@, path));
}

/// Of two grants of an identity on nested directories, the one on the inner
/// directory decides about what is in it, whichever stands first, and the one
/// on the outer about the rest of the outer.
pub proof fn law_inner_grant_decides(
    outer: GrantView,
    inner: GrantView,
    sub: Seq<char>,
    op: Op,
    path: Seq<char>,
)
    requires
        outer.identity == inner.identity,
        bare(outer.path_prefix),
        bare(inner.path_prefix),
        inner.path_prefix == outer.path_prefix + seq!['/'] + sub,
        storage::is_vpath(path),
        below(outer.path_prefix, path),
    ensures
        ({
            let g = if below(inner.path_prefix, path) {
                inner
            } else {
                outer
            };
            let allowed = g.permissions & op.bit() != 0;
            &&& auth::checked(seq![outer, inner], outer.identity, op, path) is None <==> allowed
            &&& auth::checked(seq![inner, outer], outer.identity, op, path) is None <==> allowed
        }),
{
    let name = outer.identity;
    lemma_below(outer.path_prefix, path);
    lemma_below(inner.path_prefix, path);
    lemma_trimmed(Seq::empty(), outer.path_prefix, Seq::empty());
    lemma_trimmed(Seq::empty(), inner.path_prefix, Seq::empty());
    let s = seq![outer, inner];
    let t = seq![inner, outer];
    auth::law_one_grant_decides(s, name, path);
    auth::law_one_grant_decides(t, name, path);
    assert(auth::applies(s[0], name, path) && auth::applies(t[1], name, path));
    if below(inner.path_prefix, path) {
        assert(auth::applies(s[1], name, path) && auth::applies(t[0], name, path));
        assert(auth::decides(s, 1, name, path));
        assert(auth::decides(t, 0, name, path));
    } else {
        assert(!auth::applies(s[1], name, path) && !auth::applies(t[0], name, path));
        assert(auth::decides(s, 0, name, path));
        assert(auth::decides(t, 1, name, path));
    }
}

/// Of two grants of an identity on the same directory the first decides.
pub proof fn law_first_grant_decides(first: GrantView, second: GrantView, op: Op, path: Seq<char>)
    requires
        first.identity == second.identity,
        first.path_prefix == second.path_prefix,
        bare(first.path_prefix),
        storage::is_vpath(path),
        below(first.path_prefix, path),
    ensures
        auth::checked(seq![first, second], first.identity, op, path) is None <==> first.permissions
            & op.bit() != 0,
{
    let s = seq![first, second];
    lemma_below(first.path_prefix, path);
    auth::law_one_grant_decides(s, first.identity, path);
    assert(auth::applies(s[0], first.identity, path));
    assert(auth::decides(s, 0, first.identity, path));
}

/// What is announced to an identity are the operations that some grant of it
/// holds.
pub proof fn law_granted_is_union(s: Seq<GrantView>, name: Seq<char>, op: Op)
    ensures
        auth::granted(s, name) & op.bit() != 0 <==> exists|i: int|
            0 <= i < s.len() && (#[trigger] s[i]).identity == name && s[i].permissions & op.bit()
                != 0,
    decreases s.len(),
{
    let bit = op.bit();
    if s.len() == 0 {
        assert(0u64 & bit == 0) by (bit_vector);
    } else {
        let less = s.drop_last();
        law_granted_is_union(less, name, op);
        let g = auth::granted(less, name);
        let p = s.last().permissions;
        assert((g | p) & bit != 0 <==> (g & bit != 0 || p & bit != 0)) by (bit_vector);
        if exists|i: int|
            0 <= i < less.len() && (#[trigger] less[i]).identity == name && less[i].permissions & bit
                != 0 {
            let i = choose|i: int|
                0 <= i < less.len() && (#[trigger] less[i]).identity == name && less[i].permissions
                    & bit != 0;
            assert(s[i] == less[i]);
        }
        if exists|i: int|
            0 <= i < s.len() && (#[trigger] s[i]).identity == name && s[i].permissions & bit != 0 {
            let i = choose|i: int|
                0 <= i < s.len() && (#[trigger] s[i]).identity == name && s[i].permissions & bit
                    != 0;
            if i < less.len() {
                assert(less[i] == s[i]);
            }
        }
        assert(s[s.len() - 1] == s.last());
    }
}

} // verus!
