//! Deduplication of hits by the natural key (public key, color).
//!
//! Duplicates arise when the same validator row is seen on more than one
//! fetched page; duplicates are expected to be identical in content, so the
//! first hit seen with a key is kept and every later one dropped.

use vstd::prelude::*;
use crate::HitView;
use crate::IconColor;
use crate::ValidatorHit;
use crate::hit_views;

verus! {

/// Natural key of a hit: its public key and its color.
pub open spec fn hit_key(h: HitView) -> (Seq<char>, IconColor) {
    (h.public_key, h.color)
}

/// Some hit of `s` has key `k`.
pub open spec fn has_key(s: Seq<HitView>, k: (Seq<char>, IconColor)) -> bool {
    exists|i: int| 0 <= i < s.len() && hit_key(s[i]) == k
}

/// No two hits of `s` share a key.
pub open spec fn unique_keys(s: Seq<HitView>) -> bool {
    forall|i: int, j: int| 0 <= i < j < s.len() ==> hit_key(s[i]) != hit_key(s[j])
}

/// First-seen-wins deduplication by key: a hit is kept exactly when no
/// earlier hit has its key.
pub open spec fn spec_dedup(s: Seq<HitView>) -> Seq<HitView>
    decreases s.len(),
{
    if s.len() == 0 {
        Seq::empty()
    } else {
        let pre = spec_dedup(s.drop_last());
        if has_key(s.drop_last(), hit_key(s.last())) {
            pre
        } else {
            pre.push(s.last())
        }
    }
}

/// Pushing a hit adds exactly its key to the keys present.
proof fn lemma_has_key_push(s: Seq<HitView>, h: HitView, k: (Seq<char>, IconColor))
    ensures
        has_key(s.push(h), k) <==> (has_key(s, k) || hit_key(h) == k),
{
    if has_key(s, k) {
        let i = choose|i: int| 0 <= i < s.len() && hit_key(s[i]) == k;
        assert(hit_key(s.push(h)[i]) == k);
    }
    if hit_key(h) == k {
        assert(hit_key(s.push(h)[s.len() as int]) == k);
    }
    if has_key(s.push(h), k) && hit_key(h) != k {
        let i = choose|i: int| 0 <= i < s.push(h).len() && hit_key(s.push(h)[i]) == k;
        assert(hit_key(s[i]) == k);
    }
}

/// Deduplication keeps exactly the keys of its input.
pub proof fn lemma_dedup_keys(s: Seq<HitView>)
    ensures
        forall|k: (Seq<char>, IconColor)| has_key(spec_dedup(s), k) <==> has_key(s, k),
    decreases s.len(),
{
    if s.len() > 0 {
        let rest = s.drop_last();
        let last = s.last();
        lemma_dedup_keys(rest);
        assert forall|k: (Seq<char>, IconColor)|
            has_key(spec_dedup(s), k) <==> has_key(s, k) by {
            lemma_has_key_push(spec_dedup(rest), last, k);
            lemma_has_key_push(rest, last, k);
            assert(rest.push(last) =~= s);
        }
    }
}

/// Law of uniqueness: after deduplication no two hits share a
/// (public key, color) key.
pub proof fn lemma_dedup_unique(s: Seq<HitView>)
    ensures
        unique_keys(spec_dedup(s)),
    decreases s.len(),
{
    if s.len() > 0 {
        let rest = s.drop_last();
        let last = s.last();
        lemma_dedup_unique(rest);
        lemma_dedup_keys(rest);
        let pre = spec_dedup(rest);
        if !has_key(rest, hit_key(last)) {
            assert forall|i: int, j: int|
                0 <= i < j < pre.push(last).len() implies hit_key(pre.push(last)[i]) != hit_key(
                pre.push(last)[j],
            ) by {
                if j == pre.len() {
                    assert(hit_key(pre[i]) != hit_key(last)) by {
                        if hit_key(pre[i]) == hit_key(last) {
                            assert(has_key(pre, hit_key(last)));
                        }
                    }
                }
            }
        }
    }
}

/// A sequence whose keys are already unique is left unchanged by
/// deduplication.
pub proof fn lemma_dedup_of_unique(s: Seq<HitView>)
    requires
        unique_keys(s),
    ensures
        spec_dedup(s) == s,
    decreases s.len(),
{
    if s.len() > 0 {
        let rest = s.drop_last();
        let last = s.last();
        assert(unique_keys(rest));
        lemma_dedup_of_unique(rest);
        assert(!has_key(rest, hit_key(last))) by {
            if has_key(rest, hit_key(last)) {
                let i = choose|i: int| 0 <= i < rest.len() && hit_key(rest[i]) == hit_key(last);
                assert(hit_key(s[i]) == hit_key(s[s.len() - 1]));
            }
        }
        assert(spec_dedup(s) =~= s);
    }
}

/// Law of idempotence: deduplicating twice yields the same result as
/// deduplicating once.
pub proof fn lemma_dedup_idempotent(s: Seq<HitView>)
    ensures
        spec_dedup(spec_dedup(s)) == spec_dedup(s),
{
    lemma_dedup_unique(s);
    lemma_dedup_of_unique(spec_dedup(s));
}

/// Whether some hit of `out` already has `h`'s key.
fn contains_hit_key(out: &Vec<ValidatorHit>, h: &ValidatorHit) -> (b: bool)
    ensures
        b == has_key(hit_views(out@), hit_key(h@)),
{
    let n = out.len();
    let mut j: usize = 0;
    while j < n
        invariant
            n == out@.len(),
            0 <= j <= n,
            forall|k: int| 0 <= k < j ==> hit_key(hit_views(out@)[k]) != hit_key(h@),
        decreases n - j,
    {
        if out[j].public_key == h.public_key && out[j].color == h.color {
            assert(hit_key(hit_views(out@)[j as int]) == hit_key(h@));
            return true;
        }
        j = j + 1;
    }
    false
}

/// Deduplicates a collection of hits by (public key, color), keeping the
/// first hit seen with each key and the order of the kept hits.
pub fn dedup_hits(hits: Vec<ValidatorHit>) -> (r: Vec<ValidatorHit>)
    ensures
        hit_views(r@) == spec_dedup(hit_views(hits@)),
        unique_keys(hit_views(r@)),
{
    let mut out: Vec<ValidatorHit> = Vec::new();
    proof {
        assert(hit_views(out@) =~= Seq::<HitView>::empty());
        assert(hit_views(hits@).take(0) =~= Seq::<HitView>::empty());
    }
    let n = hits.len();
    let mut i: usize = 0;
    while i < n
        invariant
            n == hits@.len(),
            0 <= i <= n,
            hit_views(out@) == spec_dedup(hit_views(hits@).take(i as int)),
        decreases n - i,
    {
        let h = &hits[i];
        proof {
            lemma_dedup_keys(hit_views(hits@).take(i as int));
        }
        let dup = contains_hit_key(&out, h);
        let ghost old_out = out@;
        if !dup {
            out.push(crate::clone_hit(h));
            proof {
                assert(hit_views(out@) =~= hit_views(old_out).push(h@));
            }
        }
        proof {
            let hv = hit_views(hits@);
            assert(hv.take(i + 1).drop_last() =~= hv.take(i as int));
            assert(hv.take(i + 1).last() == hv[i as int]);
        }
        i = i + 1;
    }
    proof {
        assert(hit_views(hits@).take(n as int) =~= hit_views(hits@));
        lemma_dedup_unique(hit_views(hits@));
    }
    out
}

} // verus!
