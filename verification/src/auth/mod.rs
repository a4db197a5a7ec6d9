//! Authentication and authorization.
//!
//! An `Authenticator` verifies who the peer is; an `Authorizer` decides
//! whether an identity may perform an operation on a path. Authorization is
//! deny by default: without a grant that covers the path, nothing is allowed.

use vstd::prelude::*;
use vstd::utf8;

use crate::error::{Fault, ProtocolError, Result, VelcruxError};
use crate::foreign;
use crate::storage;
use crate::storage::{VPath, VPathError};
use crate::text;
use crate::transport::identity::{Identity, IdentityView};

pub mod checking;
pub mod grants;
pub mod keys;
pub mod pubkey;

verus! {

/// Permissions as a set of bits.
#[derive(Debug, Clone, Copy, PartialEq, Eq, Structural)]
pub struct PermSet(pub u64);

pub const PERM_UPLOAD: u64 = 0x01;

pub const PERM_DOWNLOAD: u64 = 0x02;

pub const PERM_LIST: u64 = 0x04;

pub const PERM_DELETE: u64 = 0x08;

pub const PERM_SYNC: u64 = 0x10;

pub const PERM_RESUME: u64 = 0x20;

pub const PERM_ADMIN: u64 = 0x40;

/// Upload, download, list, sync and resume.
pub const PERM_ALL_TRANSFER: u64 = 0x37;

impl Default for PermSet {
    fn default() -> (r: Self)
        ensures
            r.0 == 0,
    {
        PermSet(0)
    }
}

impl PermSet {
    /// Permission to upload.
    pub fn upload() -> (r: Self)
        ensures
            r.0 == PERM_UPLOAD,
    {
        PermSet(PERM_UPLOAD)
    }

    /// Permission to download.
    pub fn download() -> (r: Self)
        ensures
            r.0 == PERM_DOWNLOAD,
    {
        PermSet(PERM_DOWNLOAD)
    }

    /// Permission to list.
    pub fn list() -> (r: Self)
        ensures
            r.0 == PERM_LIST,
    {
        PermSet(PERM_LIST)
    }

    /// Permission to delete.
    pub fn delete() -> (r: Self)
        ensures
            r.0 == PERM_DELETE,
    {
        PermSet(PERM_DELETE)
    }

    /// Permission to synchronize.
    pub fn sync() -> (r: Self)
        ensures
            r.0 == PERM_SYNC,
    {
        PermSet(PERM_SYNC)
    }

    /// Permission to resume.
    pub fn resume() -> (r: Self)
        ensures
            r.0 == PERM_RESUME,
    {
        PermSet(PERM_RESUME)
    }

    /// Permission to administer.
    pub fn admin() -> (r: Self)
        ensures
            r.0 == PERM_ADMIN,
    {
        PermSet(PERM_ADMIN)
    }

    /// Permission for every kind of transfer: not to delete, not to
    /// administer.
    pub fn all_transfer() -> (r: Self)
        ensures
            r.0 == PERM_UPLOAD | PERM_DOWNLOAD | PERM_LIST | PERM_SYNC | PERM_RESUME,
    {
        assert(0x01u64 | 0x02u64 | 0x04u64 | 0x10u64 | 0x20u64 == 0x37u64) by (bit_vector);
        PermSet(PERM_ALL_TRANSFER)
    }

    /// From its form on the wire.
    pub fn from_wire(bits: u64) -> (r: Self)
        ensures
            r.0 == bits,
    {
        PermSet(bits)
    }

    /// In its form on the wire.
    pub fn to_wire(self) -> (r: u64)
        ensures
            r == self.0,
    {
        self.0
    }

    /// Whether a permission is in the set.
    pub fn has(self, perm: PermSet) -> (r: bool)
        ensures
            r == (self.0 & perm.0 != 0),
    {
        (self.0 & perm.0) != 0
    }

    /// The permissions of both sets.
    pub fn union(self, other: PermSet) -> (r: PermSet)
        ensures
            r.0 == self.0 | other.0,
    {
        PermSet(self.0 | other.0)
    }
}

impl std::ops::BitOr for PermSet {
    type Output = PermSet;

    fn bitor(self, rhs: PermSet) -> (r: PermSet) {
        self.union(rhs)
    }
}

impl vstd::std_specs::ops::BitOrSpecImpl for PermSet {
    open spec fn obeys_bitor_spec() -> bool {
        true
    }

    open spec fn bitor_req(self, rhs: PermSet) -> bool {
        true
    }

    open spec fn bitor_spec(self, rhs: PermSet) -> PermSet {
        PermSet(self.0 | rhs.0)
    }
}

/// Operation that is authorized.
#[derive(Debug, Clone, Copy, PartialEq, Eq, Structural)]
pub enum Op {
    Upload,
    Download,
    List,
    Delete,
    Sync,
    Resume,
    Admin,
}

impl Op {
    /// The permission bit that the operation requires.
    pub open spec fn bit(self) -> u64 {
        match self {
            Op::Upload => PERM_UPLOAD,
            Op::Download => PERM_DOWNLOAD,
            Op::List => PERM_LIST,
            Op::Delete => PERM_DELETE,
            Op::Sync => PERM_SYNC,
            Op::Resume => PERM_RESUME,
            Op::Admin => PERM_ADMIN,
        }
    }

    /// The permission that the operation requires.
    pub fn required_perm(self) -> (r: PermSet)
        ensures
            r.0 == self.bit(),
    {
        match self {
            Op::Upload => PermSet::upload(),
            Op::Download => PermSet::download(),
            Op::List => PermSet::list(),
            Op::Delete => PermSet::delete(),
            Op::Sync => PermSet::sync(),
            Op::Resume => PermSet::resume(),
            Op::Admin => PermSet::admin(),
        }
    }
}

/// Each operation has a bit of its own: the permission for one never allows
/// another.
pub proof fn law_permissions_independent(a: Op, b: Op)
    ensures
        a.bit() & b.bit() != 0 <==> a == b,
{
    let x = a.bit();
    let y = b.bit();
    assert(forall|i: u64, j: u64|
        (i == 0x01 || i == 0x02 || i == 0x04 || i == 0x08 || i == 0x10 || i == 0x20 || i == 0x40)
            && (j == 0x01 || j == 0x02 || j == 0x04 || j == 0x08 || j == 0x10 || j == 0x20 || j
            == 0x40) ==> ((#[trigger] (i & j) != 0) <==> i == j)) by (bit_vector);
    assert(x & y != 0 <==> x == y);
}

/// A grant: permissions of an identity below a path.
#[derive(Debug, Clone, PartialEq, Eq)]
pub struct Grant {
    /// The identity that the grant is for.
    pub identity: String,
    /// The directory that the grant covers.
    pub path_prefix: String,
    /// The permissions.
    pub permissions: PermSet,
}

/// Contents of a grant.
#[verifier::ext_equal]
pub struct GrantView {
    pub identity: Seq<char>,
    pub path_prefix: Seq<char>,
    pub permissions: u64,
}

impl View for Grant {
    type V = GrantView;

    open spec fn view(&self) -> GrantView {
        GrantView {
            identity: self.identity@,
            path_prefix: self.path_prefix@,
            permissions: self.permissions.0,
        }
    }
}

/// Verifies the identity of a peer.
pub trait Authenticator {
    /// The identity that the claimed one is verified as, or why it is
    /// refused.
    spec fn accepts(&self, identity: IdentityView) -> std::result::Result<
        IdentityView,
        ProtocolError,
    >;

    /// The verified identity.
    fn authenticate(&self, identity: &Identity) -> (r: Result<Identity>)
        ensures
            match self.accepts(identity@) {
                Ok(v) => r matches Ok(i) && i@ == v,
                Err(f) => r matches Err(e) && e.is(Fault::Plain(f)),
            },
    ;
}

/// Decides about operations.
pub trait Authorizer {
    /// Why an operation on a path is refused to an identity; none if it is
    /// allowed.
    spec fn verdict(&self, name: Seq<char>, op: Op, path: Seq<char>) -> Option<ProtocolError>;

    /// The permission bits of an identity.
    spec fn permissions(&self, name: Seq<char>) -> u64;

    /// Whether an identity may perform an operation on an untrusted path;
    /// the validated path if it may.
    fn check(&self, identity: &Identity, op: Op, raw_path: &str) -> (r: Result<VPath>)
        ensures
            match self.verdict(identity.name@, op, raw_path@) {
                None => r matches Ok(p) && p@ == raw_path@,
                Some(f) => r matches Err(e) && e.is(Fault::Plain(f)),
            },
    ;

    /// All permissions of an identity, wherever they apply. Advisory: each
    /// operation is still checked on its path.
    fn granted_permissions(&self, identity: &Identity) -> (r: PermSet)
        ensures
            r.0 == self.permissions(identity.name@),
    ;
}

/// Without the slashes at both ends.
pub open spec fn trimmed(s: Seq<char>) -> Seq<char> {
    text::without_trailing(text::without_leading(s))
}

/// A prefix covers a path: it is the whole root, or the path, or a directory
/// above it.
pub open spec fn covers(prefix: Seq<char>, path: Seq<char>) -> bool {
    let g = trimmed(prefix);
    ||| g.len() == 0
    ||| path == g
    ||| g.len() < path.len() && g.is_prefix_of(path) && path[g.len() as int] == '/'
}

/// A grant applies to an identity on a path.
pub open spec fn applies(g: GrantView, name: Seq<char>, path: Seq<char>) -> bool {
    g.identity == name && covers(g.path_prefix, path)
}

/// How specific a grant is.
pub open spec fn specificity(g: GrantView) -> nat {
    trimmed(g.path_prefix).len()
}

/// The grant at `i` decides: it applies, and of those that apply it is the
/// first of the most specific.
pub open spec fn decides(s: Seq<GrantView>, i: int, name: Seq<char>, path: Seq<char>) -> bool {
    &&& 0 <= i < s.len()
    &&& applies(s[i], name, path)
    &&& forall|j: int|
        0 <= j < i && applies(#[trigger] s[j], name, path) ==> specificity(s[j]) < specificity(
            s[i],
        )
    &&& forall|j: int|
        i < j < s.len() && applies(#[trigger] s[j], name, path) ==> specificity(s[j])
            <= specificity(s[i])
}

/// Where a grant applies, exactly one decides.
pub proof fn law_one_grant_decides(s: Seq<GrantView>, name: Seq<char>, path: Seq<char>)
    ensures
        (exists|k: int| 0 <= k < s.len() && applies(#[trigger] s[k], name, path)) <==> (exists|
            i: int,
        | #[trigger]
            decides(s, i, name, path)),
        forall|i: int, j: int| #[trigger]
            decides(s, i, name, path) && #[trigger] decides(s, j, name, path) ==> i == j,
    decreases s.len(),
{
    if s.len() > 0 {
        let t = s.drop_last();
        let n = s.len() - 1;
        law_one_grant_decides(t, name, path);
        if exists|k: int| 0 <= k < s.len() && applies(#[trigger] s[k], name, path) {
            let k = choose|k: int| 0 <= k < s.len() && applies(#[trigger] s[k], name, path);
            if exists|i: int| decides(t, i, name, path) {
                let i = choose|i: int| decides(t, i, name, path);
                assert forall|j: int|
                    0 <= j < i && applies(#[trigger] s[j], name, path) implies specificity(s[j])
                    < specificity(s[i]) by {
                    assert(applies(t[j], name, path));
                }
                if applies(s[n], name, path) && specificity(s[n]) > specificity(s[i]) {
                    assert forall|j: int|
                        0 <= j < n && applies(#[trigger] s[j], name, path) implies specificity(s[j])
                        < specificity(s[n]) by {
                        assert(applies(t[j], name, path));
                    }
                    assert(decides(s, n, name, path));
                } else {
                    assert forall|j: int|
                        i < j < s.len() && applies(#[trigger] s[j], name, path) implies specificity(
                        s[j],
                    ) <= specificity(s[i]) by {
                        if j < n {
                            assert(applies(t[j], name, path));
                        }
                    }
                    assert(decides(s, i, name, path));
                }
            } else {
                if k < n {
                    assert(applies(t[k], name, path));
                }
                assert(forall|j: int| 0 <= j < n ==> !applies(#[trigger] t[j], name, path));
                assert forall|j: int| 0 <= j < n implies !applies(#[trigger] s[j], name, path) by {
                    assert(t[j] == s[j]);
                }
                assert(decides(s, n, name, path));
            }
        }
    }
}

/// What a check of a path comes to.
pub open spec fn checked(s: Seq<GrantView>, name: Seq<char>, op: Op, path: Seq<char>) -> Option<
    ProtocolError,
> {
    if !storage::is_vpath(path) {
        Some(ProtocolError::InvalidPath)
    } else if exists|i: int| #[trigger]
        decides(s, i, name, path) && s[i].permissions & op.bit() != 0 {
        None
    } else {
        Some(ProtocolError::PermissionDenied)
    }
}

/// All permissions of an identity.
pub open spec fn granted(s: Seq<GrantView>, name: Seq<char>) -> u64
    decreases s.len(),
{
    if s.len() == 0 {
        0
    } else if s.last().identity == name {
        granted(s.drop_last(), name) | s.last().permissions
    } else {
        granted(s.drop_last(), name)
    }
}

/// Authorizer over a list of grants.
#[derive(Debug)]
pub struct FileAuthorizer {
    grants: Vec<Grant>,
}

impl View for FileAuthorizer {
    type V = Seq<GrantView>;

    closed spec fn view(&self) -> Seq<GrantView> {
        grant_views(self.grants@)
    }
}

/// Contents of grants.
pub open spec fn grant_views(s: Seq<Grant>) -> Seq<GrantView> {
    s.map_values(|g: Grant| g@)
}

impl Default for FileAuthorizer {
    fn default() -> (r: Self)
        ensures
            r@ == Seq::<GrantView>::empty(),
    {
        FileAuthorizer::new()
    }
}

impl FileAuthorizer {
    /// An authorizer without grants.
    pub fn new() -> (r: Self)
        ensures
            r@ == Seq::<GrantView>::empty(),
    {
        let r = FileAuthorizer { grants: Vec::new() };
        assert(r@ =~= Seq::empty());
        r
    }

    /// An authorizer with the given grants.
    pub fn from_grants(grants: Vec<Grant>) -> (r: Self)
        ensures
            r@ == grant_views(grants@),
    {
        FileAuthorizer { grants }
    }

    /// An authorizer with the grants of a configuration. A grant with an
    /// unknown permission or a malformed path is an error: a typo never
    /// widens or narrows access.
    pub fn from_config(config: Vec<GrantToml>) -> (r: Result<Self>)
        ensures
            match config_grants(config@, config@.len() as int) {
                Ok(s) => r matches Ok(a) && a@ == s,
                Err(t) => r matches Err(VelcruxError::Config(m)) && m@ == t,
            },
    {
        let mut grants: Vec<Grant> = Vec::new();
        let mut i: usize = 0;
        assert(grant_views(grants@) =~= Seq::empty());
        while i < config.len()
            invariant
                i <= config.len(),
                config_grants(config@, i as int) == Ok::<Seq<GrantView>, Seq<char>>(
                    grant_views(grants@),
                ),
            decreases config.len() - i,
        {
            match grant_from_toml(&config[i]) {
                Ok(g) => {
                    let ghost had = grant_views(grants@);
                    let ghost v = g@;
                    grants.push(g);
                    assert(grant_views(grants@) =~= had.push(v));
                },
                Err(e) => {
                    proof {
                        lemma_config_fault(config@, i + 1, config@.len() as int);
                    }
                    return Err(e);
                },
            }
            i = i + 1;
        }
        Ok(FileAuthorizer { grants })
    }
}

impl Authorizer for FileAuthorizer {
    open spec fn verdict(&self, name: Seq<char>, op: Op, path: Seq<char>) -> Option<ProtocolError> {
        checked(self@, name, op, path)
    }

    open spec fn permissions(&self, name: Seq<char>) -> u64 {
        granted(self@, name)
    }

    fn check(&self, identity: &Identity, op: Op, raw_path: &str) -> (r: Result<VPath>) {
        let vpath = match VPath::validate(raw_path) {
            Ok(p) => p,
            Err(_) => {
                return Err(VelcruxError::Protocol(ProtocolError::InvalidPath));
            },
        };
        let ghost s = self@;
        let ghost name = identity.name@;
        let path = text::chars_of(raw_path);
        let mut best: Option<(usize, usize)> = None;
        let mut i: usize = 0;
        while i < self.grants.len()
            invariant
                i <= self.grants.len() == s.len(),
                s == grant_views(self.grants@),
                name == identity.name@,
                path@ == raw_path@,
                match best {
                    None => forall|j: int|
                        0 <= j < i ==> !applies(#[trigger] s[j], name, raw_path@),
                    Some((b, len)) => b < i && len == specificity(s[b as int]) && decides(
                        s.take(i as int),
                        b as int,
                        name,
                        raw_path@,
                    ),
                },
            decreases self.grants.len() - i,
        {
            let grant = &self.grants[i];
            let ghost had = best;
            assert(s[i as int] == grant@);
            let mut len: Option<usize> = None;
            if text::same_text(grant.identity.as_str(), identity.name.as_str()) {
                len = prefix_match_len(grant.path_prefix.as_str(), &path);
            }
            match len {
                None => {},
                Some(n) => {
                    let longer: bool = match best {
                        None => true,
                        Some((_, b)) => n > b,
                    };
                    if longer {
                        best = Some((i, n));
                    }
                },
            }
            proof {
                let t = s.take(i as int);
                let u = s.take(i + 1);
                if let Some((b, _)) = had {
                    assert(t[b as int] == s[b as int]);
                }
                if let Some((b, _)) = best {
                    assert(u[b as int] == s[b as int]);
                    assert forall|j: int|
                        0 <= j < b && applies(#[trigger] u[j], name, raw_path@) implies specificity(
                        u[j],
                    ) < specificity(u[b as int]) by {
                        assert(u[j] == t[j] && t[j] == s[j]);
                    }
                    assert forall|j: int|
                        b < j < u.len() && applies(
                            #[trigger] u[j],
                            name,
                            raw_path@,
                        ) implies specificity(u[j]) <= specificity(u[b as int]) by {
                        if j < i {
                            assert(u[j] == t[j]);
                        } else {
                            assert(u[j] == s[i as int]);
                        }
                    }
                    assert(decides(u, b as int, name, raw_path@));
                }
            }
            i = i + 1;
        }
        proof {
            assert(s.take(i as int) =~= s);
            law_one_grant_decides(s, name, raw_path@);
        }
        match best {
            None => Err(VelcruxError::Protocol(ProtocolError::PermissionDenied)),
            Some((b, _)) => {
                assert(s[b as int] == self.grants@[b as int]@);
                if self.grants[b].permissions.has(op.required_perm()) {
                    Ok(vpath)
                } else {
                    Err(VelcruxError::Protocol(ProtocolError::PermissionDenied))
                }
            },
        }
    }

    fn granted_permissions(&self, identity: &Identity) -> (r: PermSet) {
        let ghost s = self@;
        let mut perms = PermSet::default();
        let mut i: usize = 0;
        assert(s.take(0) =~= Seq::empty());
        while i < self.grants.len()
            invariant
                i <= self.grants.len() == s.len(),
                s == grant_views(self.grants@),
                perms.0 == granted(s.take(i as int), identity.name@),
            decreases self.grants.len() - i,
        {
            proof {
                assert(s.take(i + 1).drop_last() =~= s.take(i as int));
                assert(s.take(i + 1).last() == self.grants@[i as int]@);
            }
            let grant = &self.grants[i];
            if text::same_text(grant.identity.as_str(), identity.name.as_str()) {
                perms = perms.union(grant.permissions);
            }
            i = i + 1;
        }
        assert(s.take(i as int) =~= s);
        perms
    }
}

/// What a check allows is in the permissions that are announced.
pub proof fn law_check_within_granted(s: Seq<GrantView>, name: Seq<char>, op: Op, path: Seq<char>)
    requires
        checked(s, name, op, path) is None,
    ensures
        granted(s, name) & op.bit() != 0,
{
    let i = choose|i: int| #[trigger]
        decides(s, i, name, path) && s[i].permissions & op.bit() != 0;
    lemma_granted_has(s, name, i, op.bit());
}

proof fn lemma_granted_has(s: Seq<GrantView>, name: Seq<char>, i: int, bit: u64)
    requires
        0 <= i < s.len(),
        s[i].identity == name,
        s[i].permissions & bit != 0,
    ensures
        granted(s, name) & bit != 0,
    decreases s.len(),
{
    let g = granted(s.drop_last(), name);
    let p = s.last().permissions;
    assert(p & bit != 0 ==> (g | p) & bit != 0) by (bit_vector);
    assert(g & bit != 0 ==> (g | p) & bit != 0) by (bit_vector);
    if i < s.len() - 1 {
        lemma_granted_has(s.drop_last(), name, i, bit);
    }
}

/// Without a grant for the identity nothing is allowed, whatever the path.
pub proof fn law_deny_by_default(s: Seq<GrantView>, name: Seq<char>, op: Op, path: Seq<char>)
    requires
        forall|i: int| 0 <= i < s.len() ==> (#[trigger] s[i]).identity != name,
    ensures
        checked(s, name, op, path) is Some,
        granted(s, name) == 0,
    decreases s.len(),
{
    if s.len() > 0 {
        assert(s.last() == s[s.len() - 1]);
        assert forall|i: int| 0 <= i < s.drop_last().len() implies (#[trigger] s.drop_last()[i]).identity
            != name by {
            assert(s.drop_last()[i] == s[i]);
        }
        law_deny_by_default(s.drop_last(), name, op, path);
    }
}

fn trim_slashes(s: &Vec<char>) -> (r: Vec<char>)
    ensures
        r@ == trimmed(s@),
{
    let mut a: usize = 0;
    assert(s@.skip(0) =~= s@);
    while a < s.len() && s[a] == '/'
        invariant
            a <= s.len(),
            text::without_leading(s@) == text::without_leading(s@.skip(a as int)),
        decreases s.len() - a,
    {
        assert(s@.skip(a as int).skip(1) =~= s@.skip(a + 1));
        a = a + 1;
    }
    let mut b: usize = s.len();
    assert(s@.subrange(a as int, b as int) =~= s@.skip(a as int));
    while b > a && s[b - 1] == '/'
        invariant
            a <= b <= s.len(),
            text::without_trailing(text::without_leading(s@)) == text::without_trailing(
                s@.subrange(a as int, b as int),
            ),
        decreases b - a,
    {
        assert(s@.subrange(a as int, b as int).drop_last() =~= s@.subrange(a as int, b - 1));
        b = b - 1;
    }
    let mut out: Vec<char> = Vec::new();
    let mut i: usize = a;
    while i < b
        invariant
            a <= i <= b <= s.len(),
            out@ == s@.subrange(a as int, i as int),
        decreases b - i,
    {
        out.push(s[i]);
        assert(out@ =~= s@.subrange(a as int, i + 1));
        i = i + 1;
    }
    out
}

/// If the prefix covers the path, how much of the path it matches.
fn prefix_match_len(grant_prefix: &str, path: &Vec<char>) -> (r: Option<usize>)
    ensures
        r is Some <==> covers(grant_prefix@, path@),
        r matches Some(n) ==> n == trimmed(grant_prefix@).len(),
{
    let raw = text::chars_of(grant_prefix);
    let gp = trim_slashes(&raw);
    if gp.len() == 0 {
        return Some(0);
    }
    if path.len() < gp.len() {
        return None;
    }
    let mut i: usize = 0;
    while i < gp.len()
        invariant
            i <= gp.len() <= path.len(),
            gp@ == trimmed(grant_prefix@),
            gp@.len() > 0,
            forall|j: int| 0 <= j < i ==> gp@[j] == path@[j],
        decreases gp.len() - i,
    {
        if gp[i] != path[i] {
            return None;
        }
        i = i + 1;
    }
    if path.len() == gp.len() {
        assert(path@ =~= gp@);
        return Some(gp.len());
    }
    if path[gp.len()] == '/' {
        return Some(gp.len());
    }
    None
}

/// A grant of a configuration file.
#[derive(Debug)]
pub struct GrantToml {
    /// The identity.
    pub identity: String,
    /// The path, with or without slashes at its ends.
    pub path: String,
    /// Names of permissions.
    pub permissions: Vec<String>,
}

/// The permission with a name.
pub open spec fn permission_named(s: Seq<char>) -> Option<u64> {
    if s == "upload"@ {
        Some(PERM_UPLOAD)
    } else if s == "download"@ {
        Some(PERM_DOWNLOAD)
    } else if s == "list"@ {
        Some(PERM_LIST)
    } else if s == "delete"@ {
        Some(PERM_DELETE)
    } else if s == "sync"@ {
        Some(PERM_SYNC)
    } else if s == "resume"@ {
        Some(PERM_RESUME)
    } else if s == "admin"@ {
        Some(PERM_ADMIN)
    } else {
        None
    }
}

/// The first `n` permissions together, or the first name that is unknown.
pub open spec fn permissions_named(s: Seq<String>, n: int) -> std::result::Result<u64, Seq<char>>
    decreases n,
{
    if n <= 0 {
        Ok(0)
    } else {
        match permissions_named(s, n - 1) {
            Err(t) => Err(t),
            Ok(p) => match permission_named(s[n - 1]@) {
                None => Err(s[n - 1]@),
                Some(bit) => Ok(p | bit),
            },
        }
    }
}

/// The grant of a configuration entry, or what is wrong with the entry.
pub open spec fn config_grant(g: GrantToml) -> std::result::Result<GrantView, Seq<char>> {
    match permissions_named(g.permissions@, g.permissions@.len() as int) {
        Err(other) => Err(
            "unknown permission "@ + foreign::debug_text(other) + " for identity "@
                + foreign::debug_text(g.identity@),
        ),
        Ok(p) => {
            let prefix = trimmed(g.path@);
            if prefix.len() == 0 {
                Ok(GrantView { identity: g.identity@, path_prefix: prefix, permissions: p })
            } else {
                match storage::path_fault(utf8::encode_utf8(prefix)) {
                    Some(e) => Err(
                        "invalid grant path "@ + foreign::debug_text(g.path@) + " for identity "@
                            + foreign::debug_text(g.identity@) + ": "@ + e.text()@,
                    ),
                    None => Ok(
                        GrantView { identity: g.identity@, path_prefix: prefix, permissions: p },
                    ),
                }
            }
        },
    }
}

/// The grants of the first `n` configuration entries, or what is wrong with
/// the first that is wrong.
pub open spec fn config_grants(s: Seq<GrantToml>, n: int) -> std::result::Result<
    Seq<GrantView>,
    Seq<char>,
>
    decreases n,
{
    if n <= 0 {
        Ok(Seq::empty())
    } else {
        match config_grants(s, n - 1) {
            Err(t) => Err(t),
            Ok(v) => match config_grant(s[n - 1]) {
                Err(t) => Err(t),
                Ok(g) => Ok(v.push(g)),
            },
        }
    }
}

proof fn lemma_config_fault(s: Seq<GrantToml>, k: int, n: int)
    requires
        0 <= k <= n,
        config_grants(s, k) is Err,
    ensures
        config_grants(s, n) == config_grants(s, k),
    decreases n - k,
{
    if k < n {
        lemma_config_fault(s, k, n - 1);
    }
}

proof fn lemma_permissions_fault(s: Seq<String>, k: int, n: int)
    requires
        0 <= k <= n,
        permissions_named(s, k) is Err,
    ensures
        permissions_named(s, n) == permissions_named(s, k),
    decreases n - k,
{
    if k < n {
        lemma_permissions_fault(s, k, n - 1);
    }
}

fn permission_bit(s: &str) -> (r: Option<PermSet>)
    ensures
        match permission_named(s@) {
            Some(b) => r matches Some(p) && p.0 == b,
            None => r is None,
        },
{
    if text::same_text(s, "upload") {
        Some(PermSet::upload())
    } else if text::same_text(s, "download") {
        Some(PermSet::download())
    } else if text::same_text(s, "list") {
        Some(PermSet::list())
    } else if text::same_text(s, "delete") {
        Some(PermSet::delete())
    } else if text::same_text(s, "sync") {
        Some(PermSet::sync())
    } else if text::same_text(s, "resume") {
        Some(PermSet::resume())
    } else if text::same_text(s, "admin") {
        Some(PermSet::admin())
    } else {
        None
    }
}

/// The grant of a configuration entry. Permissions are matched exactly; the
/// path is taken relative to the storage root, and the root itself is the
/// empty prefix.
pub fn grant_from_toml(g: &GrantToml) -> (r: Result<Grant>)
    ensures
        match config_grant(*g) {
            Ok(v) => r matches Ok(x) && x@ == v,
            Err(t) => r matches Err(VelcruxError::Config(m)) && m@ == t,
        },
{
    let mut perms = PermSet::default();
    let mut i: usize = 0;
    while i < g.permissions.len()
        invariant
            i <= g.permissions.len(),
            permissions_named(g.permissions@, i as int) == Ok::<u64, Seq<char>>(perms.0),
        decreases g.permissions.len() - i,
    {
        match permission_bit(g.permissions[i].as_str()) {
            Some(bit) => {
                perms = perms.union(bit);
            },
            None => {
                proof {
                    lemma_permissions_fault(
                        g.permissions@,
                        i + 1,
                        g.permissions@.len() as int,
                    );
                }
                let mut t: String = "unknown permission ".to_owned();
                text::push_str(&mut t, foreign::str_debug(g.permissions[i].as_str()).as_str());
                text::push_str(&mut t, " for identity ");
                text::push_str(&mut t, foreign::str_debug(g.identity.as_str()).as_str());
                return Err(VelcruxError::Config(t));
            },
        }
        i = i + 1;
    }
    match normalize_grant_prefix(g.path.as_str()) {
        Ok(prefix) => Ok(
            Grant { identity: g.identity.clone(), path_prefix: prefix, permissions: perms },
        ),
        Err(e) => {
            let mut t: String = "invalid grant path ".to_owned();
            text::push_str(&mut t, foreign::str_debug(g.path.as_str()).as_str());
            text::push_str(&mut t, " for identity ");
            text::push_str(&mut t, foreign::str_debug(g.identity.as_str()).as_str());
            text::push_str(&mut t, ": ");
            text::push_str(&mut t, e.message());
            Err(VelcruxError::Config(t))
        },
    }
}

/// A path of a grant without slashes at its ends; empty for the whole root.
fn normalize_grant_prefix(raw: &str) -> (r: std::result::Result<String, VPathError>)
    ensures
        ({
            let t = trimmed(raw@);
            if t.len() == 0 {
                r matches Ok(s) && s@ == t
            } else {
                match storage::path_fault(utf8::encode_utf8(t)) {
                    Some(e) => r == Err::<String, VPathError>(e),
                    None => r matches Ok(s) && s@ == t,
                }
            }
        }),
{
    let chars = text::chars_of(raw);
    let t = trim_slashes(&chars);
    let s = text::string_of(t.as_slice());
    if t.len() == 0 {
        return Ok(s);
    }
    match VPath::validate(s.as_str()) {
        Ok(_) => Ok(s),
        Err(e) => Err(e),
    }
}

/// Authenticator for peers whose certificate chain was validated by the TLS
/// handshake: the identity is taken as it is.
#[derive(Debug)]
pub struct MtlsAuthenticator {}

impl Default for MtlsAuthenticator {
    fn default() -> Self {
        MtlsAuthenticator::new()
    }
}

impl MtlsAuthenticator {
    /// Create the authenticator.
    pub fn new() -> Self {
        MtlsAuthenticator {  }
    }
}

impl Authenticator for MtlsAuthenticator {
    open spec fn accepts(&self, identity: IdentityView) -> std::result::Result<
        IdentityView,
        ProtocolError,
    > {
        Ok(identity)
    }

    fn authenticate(&self, identity: &Identity) -> (r: Result<Identity>) {
        Ok(identity.clone())
    }
}

} // verus!
