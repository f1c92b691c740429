//! The incremental cache: one content hash per tracked file.
//!
//! The cache answers "has this file changed since its hash was last
//! recorded".  A file that was never recorded is conservatively reported
//! as changed; recording is a separate step, so a change keeps being
//! reported until the caller records the new hash.  The cache holds plain
//! values only: callers read the file and hand its bytes in, so an
//! unreadable file is the caller's error to report.

use vstd::prelude::*;
use sha2::{Digest, Sha256};
use crate::assoc::{lemma_stored_absent, lemma_stored_at, lemma_stored_push_other, lemma_stored_update_other, spec_stored};
use crate::error::McpResult;
use crate::text::str_eq;

verus! {

/// The lowercase-hex SHA-256 digest of a byte sequence.  The digest is a
/// function of the bytes alone, so the name is shared by every call.
pub uninterp spec fn sha256_hex_of(bytes: Seq<u8>) -> Seq<char>;

/// Relies on `sha2::Sha256` through the `Digest` trait: the digest depends
/// on the hashed bytes alone, and is rendered here as lowercase hex, two
/// digits per digest byte.
#[verifier::external_body]
fn sha256_hex(content: &[u8]) -> (r: String)
    ensures
        r@ == sha256_hex_of(content@),
{
    let digest = Sha256::digest(content);
    let mut s = String::new();
    for b in digest.iter() {
        s.push_str(&format!("{:02x}", b));
    }
    s
}

/// Whether a file whose current content hashes to `h` counts as changed
/// against the stored bindings `s`: never seen, or seen with another hash.
pub open spec fn spec_changed(
    s: Seq<(Seq<char>, Seq<char>)>,
    path: Seq<char>,
    h: Seq<char>,
) -> bool {
    match spec_stored(s, path) {
        Some(stored) => stored != h,
        None => true,
    }
}

/// The state of one watch session: a mapping from tracked file path to the
/// hex digest of the file's bytes when it was last recorded.  Created
/// empty when the session starts, populated lazily as files are first
/// seen, and discarded when the session ends.
pub struct IncrementalBuilder {
    file_hashes: Vec<(String, String)>,
    cache_dir: String,
}

impl IncrementalBuilder {
    /// The stored bindings, in insertion order; every key is bound once.
    pub closed spec fn entries(&self) -> Seq<(Seq<char>, Seq<char>)> {
        self.file_hashes@.map_values(|p: (String, String)| (p.0@, p.1@))
    }

    /// The directory a watch session of this cache observes.
    pub closed spec fn spec_cache_dir(&self) -> Seq<char> {
        self.cache_dir@
    }

    /// An empty cache for a watch session over `cache_dir`.
    pub fn new(cache_dir: String) -> (r: Self)
        ensures
            r.entries() == Seq::<(Seq<char>, Seq<char>)>::empty(),
            r.spec_cache_dir() == cache_dir@,
    {
        let r = IncrementalBuilder { file_hashes: Vec::new(), cache_dir };
        proof {
            assert(r.entries() =~= Seq::<(Seq<char>, Seq<char>)>::empty());
        }
        r
    }

    /// The directory this cache's watch session observes.
    pub fn cache_dir(&self) -> (r: &String)
        ensures
            r@ == self.spec_cache_dir(),
    {
        &self.cache_dir
    }

    /// Record the hash of `file_path`'s current bytes, overwriting any
    /// stored value.  The caller read the bytes, so recording itself
    /// cannot fail.
    pub fn cache_file_hash(&mut self, file_path: &str, content: &[u8]) -> (r: McpResult<()>)
        ensures
            r is Ok,
            spec_stored(final(self).entries(), file_path@) == Some(sha256_hex_of(content@)),
            forall|k2: Seq<char>|
                k2 != file_path@ ==> #[trigger] spec_stored(final(self).entries(), k2)
                    == spec_stored(old(self).entries(), k2),
            final(self).spec_cache_dir() == old(self).spec_cache_dir(),
    {
        let hash = sha256_hex(content);
        let ghost prev = self.entries();
        match find_entry(&self.file_hashes, file_path) {
            Some(i) => {
                self.file_hashes.remove(i);
                self.file_hashes.insert(i, (file_path.to_owned(), hash));
                proof {
                    let p = (file_path@, sha256_hex_of(content@));
                    assert(self.entries() =~= prev.update(i as int, p));
                    assert forall|j: int| 0 <= j < i implies (#[trigger] self.entries()[j]).0
                        != file_path@ by {
                        assert(prev[j].0 != file_path@);
                    }
                    lemma_stored_at(self.entries(), file_path@, i as int);
                    assert forall|k2: Seq<char>| k2 != file_path@ implies #[trigger] spec_stored(
                        self.entries(),
                        k2,
                    ) == spec_stored(prev, k2) by {
                        lemma_stored_update_other(prev, i as int, p, k2);
                    }
                }
            },
            None => {
                self.file_hashes.push((file_path.to_owned(), hash));
                proof {
                    let p = (file_path@, sha256_hex_of(content@));
                    assert(self.entries() =~= prev.push(p));
                    assert forall|j: int| 0 <= j < prev.len() implies (#[trigger] self.entries()[j]).0
                        != file_path@ by {
                        assert(prev[j].0 != file_path@);
                    }
                    assert(self.entries()[prev.len() as int] == p);
                    lemma_stored_at(self.entries(), file_path@, prev.len() as int);
                    assert forall|k2: Seq<char>| k2 != file_path@ implies #[trigger] spec_stored(
                        self.entries(),
                        k2,
                    ) == spec_stored(prev, k2) by {
                        lemma_stored_push_other(prev, p, k2);
                    }
                }
            },
        }
        Ok(())
    }

    /// The hex digest last recorded for a file, if any.
    pub fn stored_hash(&self, file_path: &str) -> (r: Option<String>)
        ensures
            match spec_stored(self.entries(), file_path@) {
                Some(h) => r matches Some(s) && s@ == h,
                None => r is None,
            },
    {
        match find_entry(&self.file_hashes, file_path) {
            Some(i) => {
                proof {
                    lemma_stored_at(self.entries(), file_path@, i as int);
                }
                Some(self.file_hashes[i].1.clone())
            },
            None => {
                proof {
                    lemma_stored_absent(self.entries(), file_path@);
                }
                None
            },
        }
    }

    /// Whether `file_path`'s current bytes differ from the hash last
    /// recorded for it; a file never recorded counts as changed.  The
    /// stored value is not updated: the caller records it after acting on
    /// the change.
    pub fn detect_changes(&self, file_path: &str, content: &[u8]) -> (r: McpResult<bool>)
        ensures
            r matches Ok(changed) && changed == spec_changed(
                self.entries(),
                file_path@,
                sha256_hex_of(content@),
            ),
    {
        let current = sha256_hex(content);
        match find_entry(&self.file_hashes, file_path) {
            Some(i) => {
                proof {
                    lemma_stored_at(self.entries(), file_path@, i as int);
                }
                let stored = &self.file_hashes[i].1;
                Ok(!str_eq(stored.as_str(), current.as_str()))
            },
            None => {
                proof {
                    lemma_stored_absent(self.entries(), file_path@);
                }
                Ok(true)
            },
        }
    }
}

/// The index of the first binding of `key`, if any.
fn find_entry(v: &Vec<(String, String)>, key: &str) -> (r: Option<usize>)
    ensures
        match r {
            Some(i) => i < v@.len() && v@[i as int].0@ == key@ && forall|j: int|
                0 <= j < i ==> (#[trigger] v@[j]).0@ != key@,
            None => forall|j: int| 0 <= j < v@.len() ==> (#[trigger] v@[j]).0@ != key@,
        },
{
    let n = v.len();
    for i in 0..n
        invariant
            n == v@.len(),
            forall|j: int| 0 <= j < i ==> (#[trigger] v@[j]).0@ != key@,
    {
        if str_eq(v[i].0.as_str(), key) {
            return Some(i);
        }
    }
    None
}

/// Recording a file's hash and asking again at once reports no change;
/// asking with other bytes reports a change exactly when the digests
/// differ.
pub proof fn lemma_record_then_detect(
    s2: Seq<(Seq<char>, Seq<char>)>,
    path: Seq<char>,
    content: Seq<u8>,
    content2: Seq<u8>,
)
    requires
        spec_stored(s2, path) == Some(sha256_hex_of(content)),
    ensures
        !spec_changed(s2, path, sha256_hex_of(content)),
        spec_changed(s2, path, sha256_hex_of(content2)) == (sha256_hex_of(content2)
            != sha256_hex_of(content)),
{
}

} // verus!
