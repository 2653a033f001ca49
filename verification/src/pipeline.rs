//! The similarity pipeline: rank every image of one project by its
//! distance to a query hash.
//!
//! The ranking is a stable sort ascending by distance: entries of equal
//! distance keep the relative order they had in the project's list.  The
//! whole ranked sequence is returned; truncation to a top-K is the
//! caller's concern.  Dispatching the computation to a worker context and
//! guarding the shared registry are likewise the caller's concern: every
//! function here is a plain computation on values, so any number of
//! callers may run it concurrently against one registry.

use vstd::prelude::*;
use vstd::multiset::Multiset;
use crate::image_hash::calc_similarity_list;
use crate::image_hash::hash_lengths_match;
use crate::image_hash::spec_dist_entries;
use crate::image_hash::ImageDistEntry;
use crate::metric::ImageHash;
use crate::metric::MetricError;
use crate::registry::ProjectRegistry;

verus! {

/// Errors of a comparison request.
#[derive(Clone, Copy, Debug, PartialEq, Eq, Structural)]
pub enum CompareError {
    /// The named project is not registered.
    ProjectNotFound,
    /// The comparison itself is undefined, e.g. a project entry's hash
    /// length differs from the query hash's.
    Metric(MetricError),
}

/// The sequence is sorted ascending by distance.
pub open spec fn sorted_by_dist(s: Seq<ImageDistEntry>) -> bool {
    forall|i: int, j: int|
        0 <= i <= j < s.len() ==> (#[trigger] s[i]).distance <= (#[trigger] s[j]).distance
}

/// `e` placed into `s` directly before the first entry of strictly greater
/// distance: entries of equal distance stay before `e`.
pub open spec fn spec_insert_by_dist(e: ImageDistEntry, s: Seq<ImageDistEntry>) -> Seq<
    ImageDistEntry,
>
    decreases s.len(),
{
    if s.len() == 0 {
        seq![e]
    } else if e.distance < s[0].distance {
        seq![e] + s
    } else {
        seq![s[0]] + spec_insert_by_dist(e, s.drop_first())
    }
}

/// The stable ranking of `s` ascending by distance: each entry, taken in
/// list order, is placed after every already placed entry of equal or
/// smaller distance, so ties keep their original relative order.
pub open spec fn spec_rank(s: Seq<ImageDistEntry>) -> Seq<ImageDistEntry>
    decreases s.len(),
{
    if s.len() == 0 {
        Seq::empty()
    } else {
        spec_insert_by_dist(s.last(), spec_rank(s.drop_last()))
    }
}

/// Placing an entry keeps the collection: the result holds `e` once more
/// and everything of `s` exactly as often as before.
proof fn lemma_insert_by_dist_multiset(e: ImageDistEntry, s: Seq<ImageDistEntry>)
    ensures
        spec_insert_by_dist(e, s).to_multiset() == s.to_multiset().insert(e),
    decreases s.len(),
{
    broadcast use vstd::seq_lib::group_to_multiset_ensures;
    broadcast use vstd::multiset::group_multiset_axioms;

    if s.len() == 0 {
        assert(seq![e] =~= Seq::<ImageDistEntry>::empty().push(e));
        assert(Seq::<ImageDistEntry>::empty().to_multiset() =~= Multiset::<
            ImageDistEntry,
        >::empty());
        assert(spec_insert_by_dist(e, s).to_multiset() =~= s.to_multiset().insert(e));
    } else if e.distance < s[0].distance {
        assert(seq![e] + s =~= s.insert(0, e));
        assert(spec_insert_by_dist(e, s).to_multiset() =~= s.to_multiset().insert(e));
    } else {
        lemma_insert_by_dist_multiset(e, s.drop_first());
        let rest = spec_insert_by_dist(e, s.drop_first());
        assert(seq![s[0]] + rest =~= rest.insert(0, s[0]));
        assert(s =~= s.drop_first().insert(0, s[0]));
        assert(spec_insert_by_dist(e, s).to_multiset() =~= s.to_multiset().insert(e));
    }
}

/// The ranking is a permutation: the ranked sequence holds exactly the
/// entries of the distance list, each as often as it occurs there.
pub proof fn lemma_rank_multiset(s: Seq<ImageDistEntry>)
    ensures
        spec_rank(s).to_multiset() == s.to_multiset(),
    decreases s.len(),
{
    broadcast use vstd::seq_lib::group_to_multiset_ensures;

    if s.len() > 0 {
        lemma_rank_multiset(s.drop_last());
        lemma_insert_by_dist_multiset(s.last(), spec_rank(s.drop_last()));
        assert(s =~= s.drop_last().push(s.last()));
    }
}

/// The entries having one given distance value.
pub open spec fn with_distance(d: u64) -> spec_fn(ImageDistEntry) -> bool {
    |e: ImageDistEntry| e.distance == d
}

proof fn lemma_filter_none(s: Seq<ImageDistEntry>, d: u64)
    requires
        forall|i: int| 0 <= i < s.len() ==> (#[trigger] s[i]).distance != d,
    ensures
        s.filter(with_distance(d)) == Seq::<ImageDistEntry>::empty(),
    decreases s.len(),
{
    reveal(Seq::filter);
    if s.len() > 0 {
        lemma_filter_none(s.drop_last(), d);
    }
}

/// Placing an entry into a sorted sequence keeps it sorted.
proof fn lemma_insert_by_dist_sorted(e: ImageDistEntry, s: Seq<ImageDistEntry>)
    requires
        sorted_by_dist(s),
    ensures
        sorted_by_dist(spec_insert_by_dist(e, s)),
    decreases s.len(),
{
    broadcast use vstd::seq_lib::group_to_multiset_ensures;
    broadcast use vstd::multiset::group_multiset_axioms;

    if s.len() == 0 {
    } else if e.distance < s[0].distance {
        let r = seq![e] + s;
        assert forall|i: int, j: int| 0 <= i <= j < r.len() implies r[i].distance
            <= r[j].distance by {
            if i > 0 {
                assert(r[i] == s[i - 1] && r[j] == s[j - 1]);
            } else if j > 0 {
                assert(r[j] == s[j - 1] && s[0].distance <= s[j - 1].distance);
            }
        }
    } else {
        assert(sorted_by_dist(s.drop_first()));
        lemma_insert_by_dist_sorted(e, s.drop_first());
        lemma_insert_by_dist_multiset(e, s.drop_first());
        let rp = spec_insert_by_dist(e, s.drop_first());
        assert forall|m: int| 0 <= m < rp.len() implies s[0].distance <= rp[m].distance by {
            let x = rp[m];
            assert(rp.contains(x));
            assert(rp.to_multiset().count(x) > 0);
            if x != e {
                assert(s.drop_first().to_multiset().count(x) > 0);
                assert(s.drop_first().contains(x));
                let k = choose|k: int|
                    0 <= k < s.drop_first().len() && s.drop_first()[k] == x;
                assert(s[0].distance <= s[k + 1].distance);
            }
        }
        let r = seq![s[0]] + rp;
        assert forall|i: int, j: int| 0 <= i <= j < r.len() implies r[i].distance
            <= r[j].distance by {
            if i > 0 {
                assert(r[i] == rp[i - 1] && r[j] == rp[j - 1]);
            } else if j > 0 {
                assert(r[j] == rp[j - 1]);
            }
        }
    }
}

/// The ranking is sorted ascending by distance.
pub proof fn lemma_rank_sorted(s: Seq<ImageDistEntry>)
    ensures
        sorted_by_dist(spec_rank(s)),
    decreases s.len(),
{
    if s.len() > 0 {
        lemma_rank_sorted(s.drop_last());
        lemma_insert_by_dist_sorted(s.last(), spec_rank(s.drop_last()));
    }
}

proof fn lemma_insert_by_dist_filter(e: ImageDistEntry, s: Seq<ImageDistEntry>, d: u64)
    requires
        sorted_by_dist(s),
    ensures
        spec_insert_by_dist(e, s).filter(with_distance(d)) == (if e.distance == d {
            s.filter(with_distance(d)).push(e)
        } else {
            s.filter(with_distance(d))
        }),
    decreases s.len(),
{
    reveal_with_fuel(Seq::filter, 3);
    let pd = with_distance(d);
    assert(Seq::<ImageDistEntry>::empty().filter(pd) =~= Seq::<ImageDistEntry>::empty());
    if s.len() == 0 {
        assert(seq![e].drop_last() =~= Seq::<ImageDistEntry>::empty());
        if e.distance == d {
            assert(seq![e].filter(pd) =~= s.filter(pd).push(e));
        } else {
            assert(seq![e].filter(pd) =~= Seq::<ImageDistEntry>::empty());
        }
    } else if e.distance < s[0].distance {
        Seq::filter_distributes_over_add(seq![e], s, pd);
        assert(seq![e].drop_last() =~= Seq::<ImageDistEntry>::empty());
        if e.distance == d {
            lemma_filter_none(s, d);
            assert(seq![e].filter(pd) =~= seq![e]);
            assert(seq![e].filter(pd) + s.filter(pd) =~= s.filter(pd).push(e));
        } else {
            assert(seq![e].filter(pd) =~= Seq::<ImageDistEntry>::empty());
            assert(seq![e].filter(pd) + s.filter(pd) =~= s.filter(pd));
        }
    } else {
        assert(sorted_by_dist(s.drop_first()));
        lemma_insert_by_dist_filter(e, s.drop_first(), d);
        let rp = spec_insert_by_dist(e, s.drop_first());
        Seq::filter_distributes_over_add(seq![s[0]], rp, pd);
        assert(s =~= seq![s[0]] + s.drop_first());
        Seq::filter_distributes_over_add(seq![s[0]], s.drop_first(), pd);
        assert(seq![s[0]].drop_last() =~= Seq::<ImageDistEntry>::empty());
        if e.distance == d {
            assert(seq![s[0]].filter(pd) + s.drop_first().filter(pd).push(e) =~= (seq![s[0]].filter(
                pd,
            ) + s.drop_first().filter(pd)).push(e));
        }
    }
}

/// Stability: for every distance value, the ranked sequence lists the
/// entries having that distance in exactly their original relative
/// order.
pub proof fn lemma_rank_stable(s: Seq<ImageDistEntry>, d: u64)
    ensures
        spec_rank(s).filter(with_distance(d)) == s.filter(with_distance(d)),
    decreases s.len(),
{
    reveal(Seq::filter);
    if s.len() > 0 {
        lemma_rank_stable(s.drop_last(), d);
        lemma_rank_sorted(s.drop_last());
        lemma_insert_by_dist_filter(s.last(), spec_rank(s.drop_last()), d);
    }
}

/// Inserting at the position found by scanning past every entry of equal
/// or smaller distance is exactly `spec_insert_by_dist`.
proof fn lemma_insert_at_pos(s: Seq<ImageDistEntry>, e: ImageDistEntry, pos: int)
    requires
        0 <= pos <= s.len(),
        forall|j: int| 0 <= j < pos ==> (#[trigger] s[j]).distance <= e.distance,
        pos == s.len() || s[pos].distance > e.distance,
    ensures
        s.insert(pos, e) == spec_insert_by_dist(e, s),
    decreases pos,
{
    if pos == 0 {
        if s.len() == 0 {
            assert(s.insert(0, e) =~= seq![e]);
        } else {
            assert(s.insert(0, e) =~= seq![e] + s);
        }
    } else {
        lemma_insert_at_pos(s.drop_first(), e, pos - 1);
        assert(s.insert(pos, e) =~= seq![s[0]] + s.drop_first().insert(pos - 1, e));
    }
}

/// Rank a list of distance entries: stable sort ascending by distance.
pub fn rank_entries(list: Vec<ImageDistEntry>) -> (r: Vec<ImageDistEntry>)
    ensures
        r@ == spec_rank(list@),
        sorted_by_dist(r@),
        r@.len() == list@.len(),
        r@.to_multiset() == list@.to_multiset(),
{
    proof {
        lemma_rank_multiset(list@);
        lemma_rank_sorted(list@);
    }
    let ghost orig = list@;
    let mut rest = list;
    let total = rest.len();
    proof {
        assert(orig.len() == total);
    }
    let mut out: Vec<ImageDistEntry> = Vec::new();
    let mut k: usize = 0;
    proof {
        assert(orig.take(0) =~= Seq::<ImageDistEntry>::empty());
        assert(rest@ =~= orig.skip(0));
    }
    while rest.len() > 0
        invariant
            orig.len() <= usize::MAX,
            k + rest@.len() == orig.len(),
            rest@ == orig.skip(k as int),
            out@ == spec_rank(orig.take(k as int)),
            out@.len() == k,
        decreases rest@.len(),
    {
        let e = rest.remove(0);
        proof {
            assert(e == orig[k as int]);
            assert(orig.skip(k as int).remove(0) =~= orig.skip(k + 1));
        }
        let mut pos: usize = 0;
        while pos < out.len() && out[pos].distance <= e.distance
            invariant
                pos <= out@.len(),
                forall|j: int| 0 <= j < pos ==> (#[trigger] out@[j]).distance <= e.distance,
            decreases out@.len() - pos,
        {
            pos = pos + 1;
        }
        let ghost before = out@;
        out.insert(pos, e);
        proof {
            lemma_insert_at_pos(before, e, pos as int);
            assert(orig.take(k + 1).drop_last() =~= orig.take(k as int));
            assert(orig.take(k + 1).last() == orig[k as int]);
        }
        k = k + 1;
    }
    proof {
        assert(orig.take(k as int) =~= orig);
    }
    out
}

/// Compare a query hash against every entry of the named project and
/// return the whole ranked result, sorted ascending by distance with
/// ties in their original list order.  An unknown project name is a
/// `ProjectNotFound` error, never a crash and never an empty success;
/// a project entry whose hash length differs from the query's is a
/// metric error.
pub fn compare_in_project(
    query: &ImageHash,
    project_name: &String,
    registry: &ProjectRegistry,
) -> (r: Result<Vec<ImageDistEntry>, CompareError>)
    ensures
        r is Ok <==> (registry.spec_get(project_name@) matches Some(l) && hash_lengths_match(
            *query,
            l,
        )),
        !registry.contains_project(project_name@) <==> r matches Err(
            CompareError::ProjectNotFound,
        ),
        r matches Ok(v) ==> (registry.spec_get(project_name@) matches Some(l) && v@ == spec_rank(
            spec_dist_entries(*query, l),
        ) && sorted_by_dist(v@) && v@.len() == l.len()),
        registry.contains_project(project_name@) && r is Err ==> r matches Err(
            CompareError::Metric(MetricError::LengthMismatch),
        ),
{
    match registry.lookup(project_name) {
        None => Err(CompareError::ProjectNotFound),
        Some(hash_list) => match calc_similarity_list(query, hash_list) {
            Err(e) => Err(CompareError::Metric(e)),
            Ok(dists) => Ok(rank_entries(dists)),
        },
    }
}

} // verus!
