//! The interning table itself: handles, path values, and the digest-keyed
//! forward table paired with an append-only reverse table.

use std::collections::HashMap;
use std::hash::{BuildHasher, Hash, Hasher};

use rustc_hash::FxBuildHasher;
use vstd::prelude::*;

verus! {

/// A dense integer handle for an interned path. Handles are minted by
/// [`PathInterner::intern`] as `0, 1, 2, …` in first-insertion order and
/// are never reused.
#[derive(Clone, Copy, Debug, PartialEq, Eq, PartialOrd, Ord, Hash)]
pub struct FileId(pub u32);

/// An owned, immutable path value. The interner only ever hashes it and
/// hands it back; it never inspects or normalizes the text.
pub struct VfsPath {
    repr: String,
}

impl View for VfsPath {
    type V = Seq<char>;

    closed spec fn view(&self) -> Seq<char> {
        self.repr@
    }
}

impl VfsPath {
    /// Wraps a path string as a path value.
    pub fn new(text: String) -> (p: VfsPath)
        ensures
            p@ == text@,
    {
        VfsPath { repr: text }
    }

    /// The path's text.
    pub fn as_str(&self) -> (s: &str)
        ensures
            s@ == self@,
    {
        self.repr.as_str()
    }
}

/// Declares `rustc_hash::FxBuildHasher`, the hasher state of the forward
/// table, so that it can stand in the table's type. It is a unit struct;
/// nothing about it is assumed here.
#[verifier::external_type_specification]
#[verifier::external_body]
pub struct ExFxBuildHasher(FxBuildHasher);

/// The 64-bit digest that the Fx hasher assigns to a path's text. The
/// hasher is unseeded and deterministic, so the digest is a function of
/// the characters alone; no further structure of it is assumed anywhere.
pub uninterp spec fn digest_of(s: Seq<char>) -> u64;

/// Holds when some entry of `paths` has digest `d`.
pub open spec fn has_digest(paths: Seq<Seq<char>>, d: u64) -> bool {
    exists|i: int| 0 <= i < paths.len() && digest_of(paths[i]) == d
}

/// An index of an entry of `paths` whose digest is `d`, meaningful only
/// when `has_digest(paths, d)` holds. When the digests of `paths` are
/// pairwise distinct the index is unique.
pub open spec fn digest_index(paths: Seq<Seq<char>>, d: u64) -> int {
    choose|i: int| 0 <= i < paths.len() && digest_of(paths[i]) == d
}

/// Holds when no two entries of `paths` share a digest. Every table the
/// interner builds satisfies this: an entry is appended only when its
/// digest is absent.
pub open spec fn distinct_digests(paths: Seq<Seq<char>>) -> bool {
    forall|i: int, j: int|
        #![trigger digest_of(paths[i]), digest_of(paths[j])]
        0 <= i < j < paths.len() ==> digest_of(paths[i]) != digest_of(paths[j])
}

/// What `get` returns on a table holding `paths`: the handle of the entry
/// sharing the queried path's digest, if there is one.
pub open spec fn spec_get(paths: Seq<Seq<char>>, p: Seq<char>) -> Option<FileId> {
    if has_digest(paths, digest_of(p)) {
        Some(FileId(digest_index(paths, digest_of(p)) as u32))
    } else {
        None
    }
}

/// The table after interning `p` into a table holding `paths`: unchanged
/// on a digest hit, extended by `p` otherwise.
pub open spec fn spec_intern(paths: Seq<Seq<char>>, p: Seq<char>) -> Seq<Seq<char>> {
    if has_digest(paths, digest_of(p)) {
        paths
    } else {
        paths.push(p)
    }
}

/// The handle that interning `p` into a table holding `paths` returns:
/// the existing handle on a digest hit, the next sequential handle
/// otherwise.
pub open spec fn spec_intern_id(paths: Seq<Seq<char>>, p: Seq<char>) -> FileId {
    match spec_get(paths, p) {
        Some(id) => id,
        None => FileId(paths.len() as u32),
    }
}

/// Maps path values to dense integer handles and back.
///
/// The forward table is keyed by the Fx digest of a path, never by the
/// path value itself: the authoritative path values live solely in the
/// append-only reverse table. The structure performs no equality check on
/// digest collision — two distinct paths with the same 64-bit digest
/// would silently alias to one handle, a risk accepted as statistically
/// negligible for a well-distributed 64-bit hash. Entries are never
/// removed or updated; growth is unbounded by design.
pub struct PathInterner {
    map: HashMap<u64, FileId, FxBuildHasher>,
    vec: Vec<VfsPath>,
}

impl View for PathInterner {
    type V = Seq<Seq<char>>;

    closed spec fn view(&self) -> Seq<Seq<char>> {
        Seq::new(self.vec@.len(), |i: int| self.vec@[i]@)
    }
}

/// Relies on `std::collections::HashMap::get`, with `rustc_hash`'s
/// `FxBuildHasher`, a deterministic hasher over a properly equatable
/// `u64` key: returns the value stored under the key, if any.
#[verifier::external_body]
fn map_get(m: &HashMap<u64, FileId, FxBuildHasher>, k: u64) -> (r: Option<FileId>)
    ensures
        r == (if m@.contains_key(k) {
            Some(m@[k])
        } else {
            None::<FileId>
        }),
{
    m.get(&k).copied()
}

/// Relies on `std::collections::HashMap::insert`, with `rustc_hash`'s
/// `FxBuildHasher`, a deterministic hasher over a properly equatable
/// `u64` key: after the call the map holds `v` under `k` and is
/// otherwise unchanged.
#[verifier::external_body]
fn map_insert(m: &mut HashMap<u64, FileId, FxBuildHasher>, k: u64, v: FileId)
    ensures
        final(m)@ == old(m)@.insert(k, v),
{
    m.insert(k, v);
}

impl PathInterner {
    /// The table is well formed: its digests are pairwise distinct, the
    /// forward table holds exactly the digests of the reverse table's
    /// entries, and each one maps to the entry's own position.
    pub closed spec fn wf(&self) -> bool {
        &&& self@.len() <= u32::MAX
        &&& distinct_digests(self@)
        &&& (forall|i: int|
            0 <= i < self@.len() ==> self.map@.contains_key(#[trigger] digest_of(self@[i]))
                && self.map@[digest_of(self@[i])] == FileId(i as u32))
        &&& (forall|d: u64| #[trigger] self.map@.contains_key(d) ==> has_digest(self@, d))
    }

    /// Creates an empty interner.
    pub fn new() -> (s: PathInterner)
        ensures
            s.wf(),
            s@ == Seq::<Seq<char>>::empty(),
    {
        let s = PathInterner { map: HashMap::default(), vec: Vec::new() };
        proof {
            assert(s@ =~= Seq::<Seq<char>>::empty());
        }
        s
    }

    /// The number of interned paths, which is also the value of the next
    /// handle to be minted.
    pub fn len(&self) -> (n: usize)
        ensures
            n == self@.len(),
    {
        self.vec.len()
    }

    /// Relies on `rustc_hash`: `FxBuildHasher::build_hasher` returns the
    /// unseeded `FxHasher`, whose `finish` value is a function of the
    /// bytes hashed into it alone, so the digest depends on nothing but
    /// the path's text.
    #[verifier::external_body]
    fn hash(&self, path: &VfsPath) -> (d: u64)
        ensures
            d == digest_of(path@),
    {
        let mut hasher = self.map.hasher().build_hasher();
        path.repr.hash(&mut hasher);
        hasher.finish()
    }

    /// Gets the handle corresponding to `path`, without side effects.
    ///
    /// Returns `None` exactly when no interned path shares `path`'s
    /// digest; in particular it returns the existing handle for any path
    /// value equal to one already interned.
    pub fn get(&self, path: &VfsPath) -> (r: Option<FileId>)
        requires
            self.wf(),
        ensures
            r == spec_get(self@, path@),
    {
        let d: u64 = self.hash(path);
        let r = map_get(&self.map, d);
        proof {
            if has_digest(self@, d) {
                let j: int = digest_index(self@, d);
                assert(0 <= j < self@.len() && digest_of(self@[j]) == d);
                assert(self.map@.contains_key(digest_of(self@[j])));
            }
        }
        r
    }

    /// Interns `path`.
    ///
    /// If a previously interned path shares `path`'s digest, the handle
    /// assigned back then is returned and the table is unchanged — the
    /// supplied value is simply dropped. Otherwise `path` is appended to
    /// the reverse table, the next sequential handle (the old table
    /// size) is recorded for its digest in the forward table, and that
    /// new handle is returned.
    pub fn intern(&mut self, path: VfsPath) -> (id: FileId)
        requires
            old(self).wf(),
            old(self)@.len() < u32::MAX,
        ensures
            final(self).wf(),
            final(self)@ == spec_intern(old(self)@, path@),
            id == spec_intern_id(old(self)@, path@),
    {
        let ghost p_view: Seq<char> = path@;
        if let Some(id) = self.get(&path) {
            return id;
        }
        let id = FileId(self.vec.len() as u32);
        let d: u64 = self.hash(&path);
        map_insert(&mut self.map, d, id);
        self.vec.push(path);
        proof {
            let prev: Seq<Seq<char>> = old(self)@;
            let n: int = prev.len() as int;
            assert(self@ =~= prev.push(p_view));
            assert forall|i: int, j: int|
                #![trigger digest_of(self@[i]), digest_of(self@[j])]
                0 <= i < j < self@.len() implies digest_of(self@[i]) != digest_of(self@[j]) by {
                if j < n {
                    assert(digest_of(prev[i]) != digest_of(prev[j]));
                } else {
                    if digest_of(self@[i]) == d {
                        assert(digest_of(prev[i]) == d);
                        assert(has_digest(prev, d));
                    }
                }
            }
            assert forall|i: int|
                0 <= i < self@.len() implies self.map@.contains_key(
                #[trigger] digest_of(self@[i]),
            ) && self.map@[digest_of(self@[i])] == FileId(i as u32) by {
                if i < n {
                    assert(self@[i] == prev[i]);
                    assert(old(self).map@.contains_key(digest_of(prev[i])));
                    if digest_of(prev[i]) == d {
                        assert(has_digest(prev, d));
                    }
                } else {
                    assert(digest_of(self@[i]) == d);
                }
            }
            assert forall|dd: u64| #[trigger] self.map@.contains_key(dd) implies has_digest(
                self@,
                dd,
            ) by {
                if dd == d {
                    assert(digest_of(self@[n]) == dd);
                } else {
                    assert(old(self).map@.contains_key(dd));
                    assert(has_digest(prev, dd));
                    let k: int = choose|k: int|
                        0 <= k < prev.len() && digest_of(prev[k]) == dd;
                    assert(digest_of(self@[k]) == dd);
                }
            }
        }
        id
    }

    /// Returns the path corresponding to `id`.
    ///
    /// The handle must have been obtained from this same instance via
    /// `intern`; the position it indexes then holds the path that
    /// produced it.
    pub fn lookup(&self, id: FileId) -> (path: &VfsPath)
        requires
            id.0 < self@.len(),
        ensures
            path@ == self@[id.0 as int],
    {
        &self.vec[id.0 as usize]
    }
}

impl Default for PathInterner {
    /// An empty interner.
    fn default() -> (s: PathInterner)
        ensures
            s.wf(),
            s@ == Seq::<Seq<char>>::empty(),
    {
        PathInterner::new()
    }
}

} // verus!
