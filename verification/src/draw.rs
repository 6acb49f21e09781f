//! Drawing winners: a uniform shuffle and the sample taken from it.
//!
//! Winners are the first entries of a uniformly shuffled copy of the
//! participant list, so no participant can be drawn twice and, when the
//! requested count covers the whole list, the result is a permutation
//! of it.

use crate::ids::fresh_uuid;
use crate::models::{distinct_ids, views_of, User, UserView};
use vstd::prelude::*;

verus! {

broadcast use {vstd::seq_lib::group_to_multiset_ensures, vstd::multiset::group_multiset_axioms};

/// A permutation carries distinctness of identities over.
pub proof fn lemma_permutation_distinct_ids(a: Seq<UserView>, b: Seq<UserView>)
    requires
        a.to_multiset() == b.to_multiset(),
        distinct_ids(a),
    ensures
        distinct_ids(b),
{
    assert(a.no_duplicates()) by {
        assert forall|p: int, q: int|
            0 <= p < a.len() && 0 <= q < a.len() && p != q implies a[p] != a[q] by {
            if a[p] == a[q] {
                if p < q {
                    assert(a[p].id != a[q].id);
                } else {
                    assert(a[q].id != a[p].id);
                }
            }
        }
    }
    a.lemma_multiset_has_no_duplicates();
    b.lemma_multiset_has_no_duplicates_conv();
    assert forall|i: int, j: int| 0 <= i < j < b.len() implies b[i].id != b[j].id by {
        if b[i].id == b[j].id {
            assert(b[i] != b[j]);
            assert(b.contains(b[i]));
            assert(b.contains(b[j]));
            assert(a.to_multiset().count(b[i]) > 0);
            assert(a.to_multiset().count(b[j]) > 0);
            assert(a.contains(b[i]));
            assert(a.contains(b[j]));
            let p = choose|p: int| 0 <= p < a.len() && a[p] == b[i];
            let q = choose|q: int| 0 <= q < a.len() && a[q] == b[j];
            assert(p != q);
            if p < q {
                assert(a[p].id != a[q].id);
            } else {
                assert(a[q].id != a[p].id);
            }
            assert(false);
        }
    }
}

/// One more than the largest value the 56 uniformly random low bits of
/// a fresh version-4 id can take.
const RANDOM_WINDOW: u64 = 0x100000000000000;

/// A random index below `bound`, by rejection sampling over the 56
/// uniformly random low bits of a fresh version-4 id: rolls at or past
/// the largest multiple of `bound` in the window are rejected, so each
/// accepted index is equally likely. After a bounded number of
/// rejections, and for bounds the window cannot cover, the full id
/// reduced modulo `bound` stands in.
fn random_index(bound: u64) -> (r: u64)
    requires
        0 < bound,
    ensures
        r < bound,
{
    if bound >= RANDOM_WINDOW {
        return (fresh_uuid() % (bound as u128)) as u64;
    }
    let limit = RANDOM_WINDOW - (RANDOM_WINDOW % bound);
    let mut attempts: u64 = 64;
    while attempts > 0
        invariant
            0 < bound,
        decreases attempts,
    {
        let raw = fresh_uuid();
        let masked = raw & 0xFFFFFFFFFFFFFFu128;
        proof {
            assert(raw & 0xFFFFFFFFFFFFFFu128 <= 0xFFFFFFFFFFFFFFu128) by (bit_vector);
        }
        let roll = masked as u64;
        if roll < limit {
            return roll % bound;
        }
        attempts -= 1;
    }
    (fresh_uuid() % (bound as u128)) as u64
}

/// Returns the input in a uniformly shuffled order: each step draws the
/// next entry uniformly from what is left, so the identities are
/// exactly those that went in.
pub fn shuffle(v: Vec<User>) -> (r: Vec<User>)
    ensures
        r@.len() == v@.len(),
        views_of(r@).to_multiset() == views_of(v@).to_multiset(),
{
    let mut src = v;
    let mut out: Vec<User> = Vec::new();
    proof {
        assert(views_of(out@).to_multiset().add(views_of(src@).to_multiset()) =~= views_of(
            v@,
        ).to_multiset());
    }
    while src.len() > 0
        invariant
            out@.len() + src@.len() == v@.len(),
            views_of(out@).to_multiset().add(views_of(src@).to_multiset()) == views_of(
                v@,
            ).to_multiset(),
        decreases src@.len(),
    {
        let n = src.len();
        let idx = random_index(n as u64) as usize;
        let ghost old_src = src@;
        let ghost old_out = out@;
        let u = src.remove(idx);
        out.push(u);
        proof {
            assert(views_of(old_src.remove(idx as int)) =~= views_of(old_src).remove(idx as int));
            assert(views_of(old_out.push(u)) =~= views_of(old_out).push(u@));
            assert(views_of(old_src)[idx as int] == u@);
            assert(views_of(src@).to_multiset() =~= views_of(old_src).to_multiset().remove(u@));
            assert(views_of(out@).to_multiset() =~= views_of(old_out).to_multiset().insert(u@));
            assert(views_of(old_src).to_multiset().count(u@) > 0);
            assert(views_of(out@).to_multiset().add(views_of(src@).to_multiset()) =~= views_of(
                old_out,
            ).to_multiset().add(views_of(old_src).to_multiset()));
        }
    }
    proof {
        assert(views_of(src@) =~= Seq::<UserView>::empty());
        assert(views_of(out@).to_multiset().add(views_of(src@).to_multiset()) =~= views_of(
            out@,
        ).to_multiset());
    }
    out
}

/// Samples `min(count, |participants|)` distinct participants uniformly
/// without replacement: the first entries of a uniform shuffle. No
/// identity is returned twice, every returned identity is one of the
/// participants, and a count that covers the whole list yields a
/// permutation of it.
pub fn draw_from(participants: Vec<User>, count: usize) -> (w: Vec<User>)
    requires
        distinct_ids(views_of(participants@)),
    ensures
        w@.len() == if count <= participants@.len() {
            count as int
        } else {
            participants@.len() as int
        },
        distinct_ids(views_of(w@)),
        forall|i: int|
            0 <= i < w@.len() ==> views_of(participants@).contains(#[trigger] views_of(w@)[i]),
        count >= participants@.len() ==> views_of(w@).to_multiset() == views_of(
            participants@,
        ).to_multiset(),
{
    let ghost orig = views_of(participants@);
    let n = participants.len();
    let k = if count <= n {
        count
    } else {
        n
    };
    let mut shuffled = shuffle(participants);
    proof {
        lemma_permutation_distinct_ids(orig, views_of(shuffled@));
        assert(views_of(shuffled@).to_multiset().len() == views_of(shuffled@).len());
        assert(orig.to_multiset().len() == orig.len());
    }
    let ghost shuffled_all = views_of(shuffled@);
    let mut w: Vec<User> = Vec::new();
    let mut i: usize = 0;
    while i < k
        invariant
            0 <= i <= k <= n,
            n == shuffled_all.len(),
            w@.len() == i,
            w@.len() + shuffled@.len() == n,
            views_of(w@) =~= shuffled_all.take(i as int),
            views_of(shuffled@) =~= shuffled_all.skip(i as int),
        decreases k - i,
    {
        let ghost old_rest = shuffled@;
        let ghost old_w = w@;
        let u = shuffled.remove(0);
        w.push(u);
        proof {
            assert(views_of(old_rest)[0] == u@);
            assert(views_of(old_rest.remove(0)) =~= views_of(old_rest).remove(0));
            assert(views_of(old_w.push(u)) =~= views_of(old_w).push(u@));
            assert(views_of(w@) =~= shuffled_all.take(i + 1));
            assert(views_of(shuffled@) =~= shuffled_all.skip(i + 1));
        }
        i += 1;
    }
    proof {
        assert(views_of(w@) =~= shuffled_all.take(k as int));
        assert(distinct_ids(views_of(w@))) by {
            assert forall|p: int, q: int| 0 <= p < q < k implies views_of(w@)[p].id != views_of(
                w@,
            )[q].id by {
                assert(views_of(w@)[p] == shuffled_all[p]);
                assert(views_of(w@)[q] == shuffled_all[q]);
            }
        }
        assert forall|j: int| 0 <= j < views_of(w@).len() implies orig.contains(
            #[trigger] views_of(w@)[j],
        ) by {
            assert(views_of(w@)[j] == shuffled_all[j]);
            assert(shuffled_all.contains(shuffled_all[j]));
            assert(shuffled_all.to_multiset().count(shuffled_all[j]) > 0);
            assert(orig.to_multiset().count(shuffled_all[j]) > 0);
        }
        if count >= n {
            assert(views_of(w@) =~= shuffled_all);
        }
    }
    w
}

} // verus!
