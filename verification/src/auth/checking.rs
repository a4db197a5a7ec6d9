//! Who may do what, told of what the functions of this module give back.

use vstd::prelude::*;

use crate::auth::grants;
use crate::auth::pubkey;
use crate::auth::pubkey::AuthorizedKeys;
use crate::auth::{
    Authenticator, Authorizer, FileAuthorizer, GrantToml, MtlsAuthenticator, Op, PermSet,
};
use crate::error::VelcruxError;
use crate::foreign;
use crate::storage;
use crate::storage::VPath;
use crate::transport::Identity;

verus! {

/// An authorizer that was configured with one grant lets its identity do what
/// the grant names, at or below its directory, and nothing else.
pub proof fn law_check_follows_configuration(
    g: GrantToml,
    dir: Seq<char>,
    config: Vec<GrantToml>,
    a: Result<FileAuthorizer, VelcruxError>,
    who: Identity,
    op: Op,
    path: &str,
    r: Result<VPath, VelcruxError>,
)
    requires
        config@ == seq![g],
        g.path@ == dir,
        grants::bare(dir),
        storage::is_vpath(dir),
        forall|j: int|
            0 <= j < g.permissions@.len() ==> grants::names_op((#[trigger] g.permissions@[j])@),
        call_ensures(FileAuthorizer::from_config, (config,), a),
        a is Ok ==> call_ensures(
            <FileAuthorizer as Authorizer>::check,
            (&a->Ok_0, &who, op, path),
            r,
        ),
    ensures
        a is Ok,
        r is Ok <==> storage::is_vpath(path@) && who.name@ == g.identity@ && grants::below(
            dir,
            path@,
        ) && exists|j: int|
            0 <= j < g.permissions@.len() && (#[trigger] g.permissions@[j])@ == grants::op_name(op),
        r matches Ok(p) ==> p@ == path@,
{
    let e = Seq::<char>::empty();
    assert(g.path@ =~= e + dir + e);
    grants::law_configured_grant_allows(g, e, dir, e, who.name@, op, path@);
}

/// The permission that an operation needs is in a set that was joined from sets
/// of which one has it.
pub proof fn law_permissions_are_joined(
    op: Op,
    need: PermSet,
    a: PermSet,
    b: PermSet,
    c: PermSet,
    x: bool,
    y: bool,
    z: bool,
)
    requires
        call_ensures(Op::required_perm, (op,), need),
        call_ensures(PermSet::union, (a, b), c),
        call_ensures(PermSet::has, (a, need), x),
        call_ensures(PermSet::has, (b, need), y),
        call_ensures(PermSet::has, (c, need), z),
    ensures
        z == (x || y),
{
    let (p, q, n) = (a.0, b.0, need.0);
    assert((p | q) & n != 0 <==> p & n != 0 || q & n != 0) by (bit_vector);
}

/// A key that is added is found with its identity; the others stay.
pub proof fn law_added_key_is_found(
    k: &mut AuthorizedKeys,
    key: [u8; 32],
    who: String,
    other: [u8; 32],
    unit: (),
    r: Option<&str>,
    s: Option<&str>,
)
    requires
        call_ensures(AuthorizedKeys::add_key, (k, key, who), unit),
        call_ensures(AuthorizedKeys::lookup, (&*final(k), &key), r),
        call_ensures(AuthorizedKeys::lookup, (&*final(k), &other), s),
    ensures
        r matches Some(n) && n@ == who@,
        other@ != key@ ==> (s is Some <==> old(k)@.dom().contains(other@)),
        other@ != key@ ==> (s matches Some(n) ==> n@ == old(k)@[other@]),
{
}

/// A token that was made with a key is accepted on the connection that it was
/// made for, for the identity of the key; with a key that is not known it is
/// not.
pub proof fn law_token_is_accepted_for_its_key(
    pair: ring::signature::Ed25519KeyPair,
    secret: [u8; 32],
    made: Vec<u8>,
    keys: AuthorizedKeys,
    token: &[u8],
    r: Result<Identity, VelcruxError>,
)
    requires
        call_ensures(pubkey::create_pubkey_auth_token, (&pair, &secret), made),
        token@ == made@,
        call_ensures(AuthorizedKeys::authenticate, (&keys, token, &secret), r),
    ensures
        r is Ok <==> keys@.dom().contains(foreign::ed25519_public_key(pair)),
        r matches Ok(i) ==> i@.name == keys@[foreign::ed25519_public_key(pair)],
{
}

/// The certificate of a connection is taken as it is.
pub proof fn law_certificate_is_taken(
    m: MtlsAuthenticator,
    name: &str,
    issuer: &str,
    cert: &str,
    i: Identity,
    r: Result<Identity, VelcruxError>,
)
    requires
        call_ensures(Identity::new, (name, issuer, cert), i),
        call_ensures(<MtlsAuthenticator as Authenticator>::authenticate, (&m, &i), r),
    ensures
        r matches Ok(x) && x@ == i@,
        i@.name == name@ && i@.issuer_fingerprint == issuer@ && i@.cert_fingerprint == cert@,
{
}

} // verus!
