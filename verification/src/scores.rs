//! Leaderboard ordering: score records sorted by score, best first, for
//! display. Reading and writing the records is a collaborator's concern;
//! the ordering is verified here.

use vstd::prelude::*;

verus! {

use vstd::seq_lib::group_to_multiset_ensures;

/// One leaderboard line: a player's initials and their score.
pub struct ScoreEntry {
    pub initials: String,
    pub score: u32,
}

/// Scores descending: no entry is beaten by a later one.
pub open spec fn spec_sorted_desc(s: Seq<ScoreEntry>) -> bool {
    forall|i: int, j: int| 0 <= i < j < s.len() ==> s[i].score >= s[j].score
}

/// Sort the leaderboard by score in descending order: the result is a
/// rearrangement (same entries, same multiplicities) with scores
/// descending. Equal scores keep no promised order.
pub fn sort_scores(entries: Vec<ScoreEntry>) -> (r: Vec<ScoreEntry>)
    ensures
        spec_sorted_desc(r@),
        r@.to_multiset() == entries@.to_multiset(),
        r@.len() == entries@.len(),
{
    broadcast use group_to_multiset_ensures;

    let ghost orig = entries@;
    let mut rest = entries;
    let mut out: Vec<ScoreEntry> = Vec::new();
    while rest.len() > 0
        invariant
            spec_sorted_desc(out@),
            out@.to_multiset().add(rest@.to_multiset()) =~= orig.to_multiset(),
            out@.len() + rest@.len() == orig.len(),
            forall|i: int, j: int|
                0 <= i < out@.len() && 0 <= j < rest@.len() ==> out@[i].score >= rest@[j].score,
        decreases rest@.len(),
    {
        let mut best: usize = 0;
        let mut k: usize = 1;
        while k < rest.len()
            invariant
                rest@.len() > 0,
                best < k <= rest@.len(),
                forall|t: int| 0 <= t < k ==> (#[trigger] rest@[t].score) <= rest@[best as int].score,
            decreases rest@.len() - k,
        {
            if rest[k].score > rest[best].score {
                best = k;
            }
            k = k + 1;
        }
        let ghost out0 = out@;
        let ghost rest0 = rest@;
        let e = rest.remove(best);
        out.push(e);
        proof {
            broadcast use group_to_multiset_ensures;

            assert(rest@.to_multiset() =~= rest0.to_multiset().remove(e));
            assert(out@.to_multiset() =~= out0.to_multiset().insert(e));
            assert(rest0.to_multiset().count(e) > 0) by {
                assert(rest0.contains(e));
            }
            assert(out@.to_multiset().add(rest@.to_multiset()) =~= orig.to_multiset());
            assert forall|i: int, j: int|
                0 <= i < j < out@.len() implies out@[i].score >= out@[j].score by {
                if j < out0.len() {
                    assert(out@[i] == out0[i] && out@[j] == out0[j]);
                } else {
                    assert(out@[j] == e);
                }
            }
            assert forall|i: int, j: int|
                0 <= i < out@.len() && 0 <= j < rest@.len() implies out@[i].score
                >= rest@[j].score by {
                if j < best {
                    assert(rest@[j] == rest0[j]);
                } else {
                    assert(rest@[j] == rest0[j + 1]);
                }
                if i < out0.len() {
                    assert(out@[i] == out0[i]);
                } else {
                    assert(out@[i] == e);
                }
            }
        }
    }
    out
}

} // verus!
