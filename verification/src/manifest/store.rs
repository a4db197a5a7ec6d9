//! Names of cached manifests.
//!
//! A manifest is kept under its digest, so that transfers of an unchanged
//! tree find it again.

use vstd::prelude::*;

use crate::text;
use crate::util;

verus! {

/// Content-addressed store for manifest files.
#[derive(Debug)]
pub struct ManifestStore {
    root_dir: String,
}

/// The file name of the manifest with a digest.
pub open spec fn manifest_name(hash: Seq<u8>) -> Seq<char> {
    text::hex(hash) + ".manifest"@
}

impl ManifestStore {
    /// The directory of the store.
    pub closed spec fn root(self) -> Seq<char> {
        self.root_dir@
    }

    /// A store in the given directory.
    pub fn new(root_dir: &str) -> (r: Self)
        ensures
            r.root() == root_dir@,
    {
        ManifestStore { root_dir: root_dir.to_owned() }
    }

    /// The path of the manifest with the given digest.
    pub fn manifest_path(&self, hash: &util::Hash) -> (r: String)
        ensures
            r@ == text::joined_path(self.root(), manifest_name(hash@)),
    {
        let mut name: String = String::new();
        text::push_hex(&mut name, hash.as_bytes().as_slice());
        text::push_str(&mut name, ".manifest");
        assert(name@ =~= manifest_name(hash@));
        text::join_path(self.root_dir.as_str(), name.as_str())
    }
}

/// Manifests with different digests are kept under different paths.
pub proof fn law_manifest_path_injective(dir: Seq<char>, a: Seq<u8>, b: Seq<u8>)
    requires
        text::joined_path(dir, manifest_name(a)) == text::joined_path(dir, manifest_name(b)),
    ensures
        a == b,
{
    let p = text::joined_path(dir, manifest_name(a));
    let base = p.len() - manifest_name(a).len();
    let suffix = ".manifest"@;
    text::lemma_hex_len(a);
    text::lemma_hex_len(b);
    assert(a.len() == b.len()) by {
        assert(text::joined_path(dir, manifest_name(a)).len() - manifest_name(a).len() == text::joined_path(
            dir,
            manifest_name(b),
        ).len() - manifest_name(b).len());
    }
    assert(text::hex(a) =~= p.subrange(base, base + 2 * a.len()));
    assert(text::hex(b) =~= p.subrange(base, base + 2 * b.len()));
    text::law_hex_injective(a, b);
}

} // verus!
