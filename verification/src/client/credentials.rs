//! The certificates and the key of the client, from their PEM files.

use vstd::prelude::*;

use crate::client::options::ClientOptions;
use crate::foreign;
use crate::text;

verus! {

/// Why the credentials cannot be used.
#[derive(Debug)]
pub enum CredentialError {
    /// No CA certificates are given. There is no insecure mode.
    NoCa,
    /// The PEM file of the certificates is malformed.
    Certificates(String),
    /// The PEM file of the key is malformed.
    Key(String),
    /// There is no key in the file.
    NoKey(String),
}

/// Why the credentials cannot be used, by its contents.
pub enum CredentialFault {
    NoCa,
    Certificates(Seq<char>),
    Key(Seq<char>),
    NoKey(Seq<char>),
}

impl View for CredentialError {
    type V = CredentialFault;

    open spec fn view(&self) -> CredentialFault {
        match *self {
            CredentialError::NoCa => CredentialFault::NoCa,
            CredentialError::Certificates(s) => CredentialFault::Certificates(s@),
            CredentialError::Key(s) => CredentialFault::Key(s@),
            CredentialError::NoKey(s) => CredentialFault::NoKey(s@),
        }
    }
}

impl CredentialFault {
    /// What the user is told.
    pub open spec fn text(self) -> Seq<char> {
        match self {
            CredentialFault::NoCa => "--ca is required (no insecure mode is supported)"@,
            CredentialFault::Certificates(s) => "parsing client cert PEM: "@ + s,
            CredentialFault::Key(s) => "parsing client key PEM: "@ + s,
            CredentialFault::NoKey(s) => "no PKCS#8 key in "@ + s,
        }
    }
}

impl CredentialError {
    /// What the user is told.
    pub fn to_string(&self) -> (r: String)
        ensures
            r@ == self@.text(),
    {
        let mut out: String = String::new();
        match self {
            CredentialError::NoCa => {
                text::push_str(&mut out, "--ca is required (no insecure mode is supported)");
            },
            CredentialError::Certificates(s) => {
                text::push_str(&mut out, "parsing client cert PEM: ");
                text::push_str(&mut out, s.as_str());
            },
            CredentialError::Key(s) => {
                text::push_str(&mut out, "parsing client key PEM: ");
                text::push_str(&mut out, s.as_str());
            },
            CredentialError::NoKey(s) => {
                text::push_str(&mut out, "no PKCS#8 key in ");
                text::push_str(&mut out, s.as_str());
            },
        }
        assert(out@ =~= self@.text());
        out
    }
}

/// The file of the CA certificates.
pub fn ca_file(options: &ClientOptions) -> (r: Result<String, CredentialError>)
    ensures
        match options.ca {
            Some(p) => r matches Ok(s) && s@ == p@,
            None => r matches Err(e) && e@ == CredentialFault::NoCa,
        },
{
    match &options.ca {
        Some(p) => Ok(p.clone()),
        None => Err(CredentialError::NoCa),
    }
}

/// The certificates of a PEM file, in order.
pub fn client_certs(pem: &[u8]) -> (r: Result<Vec<Vec<u8>>, CredentialError>)
    ensures
        match foreign::pem_certs(pem@) {
            Ok(s) => r matches Ok(v) && foreign::byte_strings(v@) == s,
            Err(t) => r matches Err(e) && e@ == CredentialFault::Certificates(t),
        },
{
    match foreign::read_pem_certs(pem) {
        Ok(v) => Ok(v),
        Err(t) => Err(CredentialError::Certificates(t)),
    }
}

/// The key that is used of those in a file: the last one.
pub fn last_key(keys: Vec<Vec<u8>>, path: &str) -> (r: Result<Vec<u8>, CredentialError>)
    ensures
        if keys@.len() > 0 {
            r matches Ok(k) && k@ == keys@.last()@
        } else {
            r matches Err(e) && e@ == CredentialFault::NoKey(path@)
        },
{
    let mut keys = keys;
    match keys.pop() {
        Some(k) => Ok(k),
        None => Err(CredentialError::NoKey(path.to_owned())),
    }
}

/// The private key of a PEM file, which stands at `path`.
pub fn client_key(pem: &[u8], path: &str) -> (r: Result<Vec<u8>, CredentialError>)
    ensures
        match foreign::pem_pkcs8_keys(pem@) {
            Ok(s) => if s.len() > 0 {
                r matches Ok(k) && k@ == s.last()
            } else {
                r matches Err(e) && e@ == CredentialFault::NoKey(path@)
            },
            Err(t) => r matches Err(e) && e@ == CredentialFault::Key(t),
        },
{
    match foreign::read_pem_pkcs8_keys(pem) {
        Ok(keys) => last_key(keys, path),
        Err(t) => Err(CredentialError::Key(t)),
    }
}

} // verus!
