//! The session registry's entries and the order in which they are shown:
//! active entries first, then, within the same activity bucket, the most
//! recently updated first.

use crate::time::is_active;
use crate::time::is_active_spec;
use vstd::prelude::*;

verus! {

/// One row of the registry: a session identifier and the moment it was
/// last updated, in milliseconds since the Unix epoch.
pub struct SessionEntry {
    pub id: String,
    pub updated_at: i64,
}

/// The display order at `now_ms`: an active entry comes before a stopped
/// one; within the same activity bucket, larger `updated_at` comes first.
/// Entries that tie on both keys are before each other, so the relation is
/// a total preorder.
pub open spec fn entry_before(now_ms: int, a: SessionEntry, b: SessionEntry) -> bool {
    let a_active = is_active_spec(a.updated_at as int, now_ms);
    let b_active = is_active_spec(b.updated_at as int, now_ms);
    if a_active != b_active {
        a_active
    } else {
        a.updated_at >= b.updated_at
    }
}

/// Every earlier entry is in display order with every later one.
pub open spec fn sorted_for_display(s: Seq<SessionEntry>, now_ms: int) -> bool {
    forall|i: int, j: int| 0 <= i < j < s.len() ==> entry_before(now_ms, s[i], s[j])
}

/// Decide the display order of two entries at `now_ms`.
pub fn entry_before_exec(now_ms: i64, a: &SessionEntry, b: &SessionEntry) -> (r: bool)
    ensures
        r == entry_before(now_ms as int, *a, *b),
{
    let a_active = is_active(a.updated_at, now_ms);
    let b_active = is_active(b.updated_at, now_ms);
    if a_active != b_active {
        a_active
    } else {
        a.updated_at >= b.updated_at
    }
}

/// Sort the entries into display order. The result holds exactly the given
/// entries (as a multiset: duplicates kept), in an order where active
/// entries precede stopped ones and each bucket is sorted by `updated_at`
/// descending.
pub fn sort_entries(entries: Vec<SessionEntry>, now_ms: i64) -> (r: Vec<SessionEntry>)
    ensures
        r@.to_multiset() == entries@.to_multiset(),
        sorted_for_display(r@, now_ms as int),
{
    let mut rest = entries;
    let mut out: Vec<SessionEntry> = Vec::new();
    proof {
        broadcast use vstd::seq_lib::group_to_multiset_ensures;
        broadcast use vstd::multiset::group_multiset_axioms;

        assert(out@.to_multiset().add(rest@.to_multiset()) =~= rest@.to_multiset());
    }
    let ghost all = rest@;
    while rest.len() > 0
        invariant
            out@.to_multiset().add(rest@.to_multiset()) == all.to_multiset(),
            sorted_for_display(out@, now_ms as int),
        decreases rest.len(),
    {
        let ghost rest0 = rest@;
        let e = rest.remove(0);
        let mut pos: usize = 0;
        while pos < out.len() && entry_before_exec(now_ms, &out[pos], &e)
            invariant
                pos <= out.len(),
                forall|k: int| 0 <= k < pos ==> entry_before(now_ms as int, out@[k], e),
            decreases out.len() - pos,
        {
            pos += 1;
        }
        let ghost prev = out@;
        out.insert(pos, e);
        proof {
            broadcast use vstd::seq_lib::group_to_multiset_ensures;
            broadcast use vstd::multiset::group_multiset_axioms;

            prev.insert_ensures(pos as int, e);
            assert(out@ == prev.insert(pos as int, e));
            assert(rest@.to_multiset() == rest0.to_multiset().remove(rest0[0]));
            assert(rest0.contains(rest0[0]));
            assert(out@.to_multiset().add(rest@.to_multiset()) =~= all.to_multiset());
            assert forall|k: int| pos <= k < prev.len() implies entry_before(
                now_ms as int,
                e,
                prev[k],
            ) by {
                assert(!entry_before(now_ms as int, prev[pos as int], e));
                if k > pos {
                    assert(entry_before(now_ms as int, prev[pos as int], prev[k]));
                }
            }
            assert forall|i: int, j: int| 0 <= i < j < out@.len() implies entry_before(
                now_ms as int,
                out@[i],
                out@[j],
            ) by {
                if j < pos {
                    assert(out@[i] == prev[i]);
                    assert(out@[j] == prev[j]);
                } else if i < pos && j == pos {
                    assert(out@[i] == prev[i]);
                } else if i < pos && j > pos {
                    assert(out@[i] == prev[i]);
                    assert(out@[j] == prev[j - 1]);
                } else if i == pos {
                    assert(out@[j] == prev[j - 1]);
                } else {
                    assert(out@[i] == prev[i - 1]);
                    assert(out@[j] == prev[j - 1]);
                }
            }
        }
    }
    proof {
        broadcast use vstd::multiset::group_multiset_axioms;

        assert(out@.to_multiset() =~= all.to_multiset());
    }
    out
}

/// The shape of the rendered order: no stopped entry ever stands above an
/// active one, and within one activity bucket the timestamps never
/// increase going down the table.
pub proof fn lemma_display_order(s: Seq<SessionEntry>, now_ms: int, i: int, j: int)
    requires
        sorted_for_display(s, now_ms),
        0 <= i < j < s.len(),
    ensures
        is_active_spec(s[j].updated_at as int, now_ms) ==> is_active_spec(
            s[i].updated_at as int,
            now_ms,
        ),
        is_active_spec(s[i].updated_at as int, now_ms) == is_active_spec(
            s[j].updated_at as int,
            now_ms,
        ) ==> s[i].updated_at >= s[j].updated_at,
{
    assert(entry_before(now_ms, s[i], s[j]));
}

} // verus!
