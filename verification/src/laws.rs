//! Laws of the interning model, proved once and for all over the spec
//! functions that the exec contracts are stated with.

use vstd::prelude::*;

use crate::interner::digest_index;
use crate::interner::digest_of;
use crate::interner::distinct_digests;
use crate::interner::has_digest;
use crate::interner::spec_get;
use crate::interner::spec_intern;
use crate::interner::spec_intern_id;
use crate::interner::FileId;

verus! {

/// Idempotence: interning the same path a second time returns the very
/// handle the first call returned and leaves the table unchanged, so the
/// table's size after the second call equals its size after the first.
pub proof fn lemma_intern_idempotent(paths: Seq<Seq<char>>, p: Seq<char>)
    ensures
        spec_intern(spec_intern(paths, p), p) == spec_intern(paths, p),
        spec_intern_id(spec_intern(paths, p), p) == spec_intern_id(paths, p),
{
    let d: u64 = digest_of(p);
    if !has_digest(paths, d) {
        let paths1 = paths.push(p);
        assert(digest_of(paths1[paths.len() as int]) == d);
        assert(has_digest(paths1, d));
        let j: int = digest_index(paths1, d);
        assert(0 <= j < paths1.len() && digest_of(paths1[j]) == d);
        if j < paths.len() {
            assert(paths1[j] == paths[j]);
            assert(has_digest(paths, d));
        }
        assert(j == paths.len());
    }
}

/// Round-trip: interning a path and looking the returned handle up yields
/// a value-equal path. This rests on `p` not colliding with a distinct
/// path already in the table: two distinct paths sharing one 64-bit
/// digest would alias to one handle, a risk the design accepts.
pub proof fn lemma_intern_lookup_roundtrip(paths: Seq<Seq<char>>, p: Seq<char>)
    requires
        paths.len() < u32::MAX,
        forall|i: int|
            0 <= i < paths.len() && #[trigger] digest_of(paths[i]) == digest_of(p) ==> paths[i]
                == p,
    ensures
        ({
            let id = spec_intern_id(paths, p);
            &&& id.0 < spec_intern(paths, p).len()
            &&& spec_intern(paths, p)[id.0 as int] == p
        }),
{
    let d: u64 = digest_of(p);
    if has_digest(paths, d) {
        let j: int = digest_index(paths, d);
        assert(0 <= j < paths.len() && digest_of(paths[j]) == d);
        assert(paths[j] == p);
    }
}

/// Miss correctness, hit half: immediately after a path is interned,
/// `get` on a value-equal path finds it and returns the very handle that
/// `intern` returned.
pub proof fn lemma_get_after_intern(paths: Seq<Seq<char>>, p: Seq<char>)
    ensures
        spec_get(spec_intern(paths, p), p) == Some(spec_intern_id(paths, p)),
{
    let d: u64 = digest_of(p);
    if !has_digest(paths, d) {
        let paths1 = paths.push(p);
        assert(digest_of(paths1[paths.len() as int]) == d);
        assert(has_digest(paths1, d));
        let j: int = digest_index(paths1, d);
        assert(0 <= j < paths1.len() && digest_of(paths1[j]) == d);
        if j < paths.len() {
            assert(paths1[j] == paths[j]);
            assert(has_digest(paths, d));
        }
        assert(j == paths.len());
    }
}

/// Miss correctness, miss half: `get` reports a path absent whenever no
/// interned path shares its digest — in particular for any path value
/// never interned, short of a digest collision.
pub proof fn lemma_get_miss(paths: Seq<Seq<char>>, p: Seq<char>)
    requires
        forall|i: int| 0 <= i < paths.len() ==> #[trigger] digest_of(paths[i]) != digest_of(p),
    ensures
        spec_get(paths, p) is None,
{
    if has_digest(paths, digest_of(p)) {
        let j: int = digest_index(paths, digest_of(p));
        assert(0 <= j < paths.len() && digest_of(paths[j]) == digest_of(p));
    }
}

/// The table grown by interning each entry of `ps` in turn, starting
/// from an empty table.
pub open spec fn intern_all(ps: Seq<Seq<char>>) -> Seq<Seq<char>>
    decreases ps.len(),
{
    if ps.len() == 0 {
        Seq::empty()
    } else {
        spec_intern(intern_all(ps.drop_last()), ps.last())
    }
}

/// The handle returned by the interning of `ps[i]` in that same run.
pub open spec fn handle_at(ps: Seq<Seq<char>>, i: int) -> FileId {
    spec_intern_id(intern_all(ps.take(i)), ps[i])
}

/// Density: interning `k` paths with pairwise-distinct digests — in
/// particular `k` distinct paths, short of a digest collision — into a
/// fresh table stores exactly those paths and hands out exactly the
/// handles `0, 1, …, k-1`, each once, in first-insertion order.
pub proof fn lemma_density(ps: Seq<Seq<char>>)
    requires
        ps.len() <= u32::MAX,
        distinct_digests(ps),
    ensures
        intern_all(ps) == ps,
        forall|i: int| 0 <= i < ps.len() ==> #[trigger] handle_at(ps, i) == FileId(i as u32),
    decreases ps.len(),
{
    if ps.len() == 0 {
        assert(intern_all(ps) =~= ps);
    } else {
        let prefix = ps.drop_last();
        let n: int = prefix.len() as int;
        assert forall|i: int, j: int|
            #![trigger digest_of(prefix[i]), digest_of(prefix[j])]
            0 <= i < j < prefix.len() implies digest_of(prefix[i]) != digest_of(prefix[j]) by {
            assert(prefix[i] == ps[i] && prefix[j] == ps[j]);
            assert(digest_of(ps[i]) != digest_of(ps[j]));
        }
        lemma_density(prefix);
        if has_digest(prefix, digest_of(ps.last())) {
            let j: int = digest_index(prefix, digest_of(ps.last()));
            assert(0 <= j < prefix.len() && digest_of(prefix[j]) == digest_of(ps.last()));
            assert(prefix[j] == ps[j]);
            assert(digest_of(ps[j]) != digest_of(ps[n]));
        }
        assert(intern_all(ps) == prefix.push(ps.last()));
        assert(intern_all(ps) =~= ps);
        assert forall|i: int| 0 <= i < ps.len() implies #[trigger] handle_at(ps, i) == FileId(
            i as u32,
        ) by {
            assert(ps.take(i) =~= prefix.take(i));
            if i < n {
                assert(ps[i] == prefix[i]);
                assert(handle_at(prefix, i) == FileId(i as u32));
            } else {
                assert(ps.take(i) =~= prefix);
                assert(intern_all(prefix) == prefix);
                if has_digest(prefix, digest_of(ps[i])) {
                    let j: int = digest_index(prefix, digest_of(ps[i]));
                    assert(0 <= j < prefix.len() && digest_of(prefix[j]) == digest_of(ps[i]));
                    assert(prefix[j] == ps[j]);
                    assert(digest_of(ps[j]) != digest_of(ps[i]));
                }
                assert(spec_get(intern_all(ps.take(i)), ps[i]) is None);
            }
        }
    }
}

} // verus!
