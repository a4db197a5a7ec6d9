//! Identity of a peer.

use vstd::prelude::*;

verus! {

/// A peer, as its credentials name it.
#[derive(Debug, PartialEq, Eq)]
pub struct Identity {
    /// The name that grants refer to.
    pub name: String,
    /// Fingerprint of the issuer of the credentials.
    pub issuer_fingerprint: String,
    /// Fingerprint of the credentials.
    pub cert_fingerprint: String,
}

/// Contents of an identity.
#[verifier::ext_equal]
pub struct IdentityView {
    pub name: Seq<char>,
    pub issuer_fingerprint: Seq<char>,
    pub cert_fingerprint: Seq<char>,
}

impl View for Identity {
    type V = IdentityView;

    open spec fn view(&self) -> IdentityView {
        IdentityView {
            name: self.name@,
            issuer_fingerprint: self.issuer_fingerprint@,
            cert_fingerprint: self.cert_fingerprint@,
        }
    }
}

impl Clone for Identity {
    fn clone(&self) -> (r: Self)
        ensures
            r@ == self@,
    {
        Identity {
            name: self.name.clone(),
            issuer_fingerprint: self.issuer_fingerprint.clone(),
            cert_fingerprint: self.cert_fingerprint.clone(),
        }
    }
}

impl Identity {
    /// An identity with the given name and fingerprints.
    pub fn new(name: &str, issuer_fingerprint: &str, cert_fingerprint: &str) -> (r: Self)
        ensures
            r@ == (IdentityView {
                name: name@,
                issuer_fingerprint: issuer_fingerprint@,
                cert_fingerprint: cert_fingerprint@,
            }),
    {
        Identity {
            name: name.to_owned(),
            issuer_fingerprint: issuer_fingerprint.to_owned(),
            cert_fingerprint: cert_fingerprint.to_owned(),
        }
    }
}

} // verus!
