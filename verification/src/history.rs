//! The in-memory history: entries in the order of capture, kept in step with
//! the store by explicit calls.

use vstd::prelude::*;
use crate::content::ClipboardContent;
use crate::entry::{embedding_view, history_view, ClipboardEntry, EntryView, Timestamp};

verus! {

/// The entry with another id.
pub open spec fn with_id(entry: EntryView, id: i64) -> EntryView {
    EntryView { id, ..entry }
}

/// The id that an entry has once the store has answered: the one that the
/// store assigned, or the entry's own where storing failed.
pub open spec fn settled_id(entry: EntryView, assigned: Option<i64>) -> i64 {
    match assigned {
        Some(id) => id,
        None => entry.id,
    }
}

/// The history without the entries that have the given id.
pub open spec fn without_id(history: Seq<EntryView>, id: i64) -> Seq<EntryView> {
    history.filter(|e: EntryView| e.id != id)
}

impl ClipboardEntry {
    /// Makes the entry for a content that was just captured. It has the id
    /// `0`, which says that it is not stored yet.
    pub fn new(content: ClipboardContent, copied_at: Timestamp, embedding: Option<Vec<u32>>) -> (res:
        ClipboardEntry)
        ensures
            res@ == (EntryView {
                id: 0,
                content: content@,
                copied_at,
                embedding: embedding_view(embedding),
            }),
    {
        ClipboardEntry { id: 0, content, copied_at, embedding }
    }
}

/// Adds a captured entry at the end of the history, with the id that the
/// store assigned to it. Where storing failed (`assigned` is `None`) the
/// entry is kept all the same, with the id it came with.
pub fn record(history: &mut Vec<ClipboardEntry>, entry: ClipboardEntry, assigned: Option<i64>)
    ensures
        history_view(final(history)@) == history_view(old(history)@).push(
            with_id(entry@, settled_id(entry@, assigned)),
        ),
{
    let mut entry = entry;
    match assigned {
        Some(id) => {
            entry.id = id;
        },
        None => {},
    }
    history.push(entry);
    proof {
        assert(history_view(history@) =~= history_view(old(history)@).push(
            with_id(entry@, settled_id(entry@, assigned)),
        ));
    }
}

/// Takes the entries with the given id out of the history. The others stay
/// in their order. An id that no entry has changes nothing.
pub fn remove_by_id(history: &mut Vec<ClipboardEntry>, id: i64)
    ensures
        history_view(final(history)@) == without_id(history_view(old(history)@), id),
{
    let ghost before = history_view(history@);
    let ghost keep = |e: EntryView| e.id != id;
    let ghost mut done: int = 0;
    let mut i: usize = 0;
    proof {
        assert(before.take(0).filter(keep) =~= Seq::<EntryView>::empty()) by {
            reveal(Seq::filter);
        }
        assert(before.skip(0) =~= before);
    }
    while i < history.len()
        invariant
            0 <= done <= before.len(),
            i <= history.len(),
            i == before.take(done).filter(keep).len(),
            history_view(history@) == before.take(done).filter(keep) + before.skip(done),
            keep == |e: EntryView| e.id != id,
        decreases before.len() - done,
    {
        let ghost current = history_view(history@);
        proof {
            assert(current.len() == history@.len());
            assert(done < before.len());
            assert(current[i as int] == before.skip(done)[0]);
            assert(current[i as int] == history@[i as int]@);
            assert(before.take(done + 1) =~= before.take(done).push(before[done]));
            assert(before.take(done + 1).drop_last() =~= before.take(done));
            reveal(Seq::filter);
        }
        if history[i].id == id {
            let _ = history.remove(i);
            proof {
                assert(before.take(done + 1).filter(keep) == before.take(done).filter(keep));
                assert(history_view(history@) =~= current.remove(i as int));
                assert(current.remove(i as int) =~= before.take(done).filter(keep) + before.skip(
                    done + 1,
                ));
                assert(history_view(history@) =~= before.take(done + 1).filter(keep) + before.skip(
                    done + 1,
                ));
                done = done + 1;
            }
        } else {
            proof {
                assert(before.take(done + 1).filter(keep) == before.take(done).filter(keep).push(
                    before[done],
                ));
                let kept = before.take(done).filter(keep);
                assert(before.skip(done) =~= seq![before[done]] + before.skip(done + 1));
                assert(kept + (seq![before[done]] + before.skip(done + 1)) =~= kept.push(
                    before[done],
                ) + before.skip(done + 1));
                assert(history_view(history@) =~= before.take(done + 1).filter(keep) + before.skip(
                    done + 1,
                ));
                done = done + 1;
            }
            i = i + 1;
        }
    }
    proof {
        assert(history_view(history@).len() == history@.len());
        assert(before.skip(done).len() == 0);
        assert(done == before.len());
        assert(before.take(done) =~= before);
        assert(history_view(history@) =~= before.filter(keep));
    }
}

/// After an id was removed no entry of the history has it, and every entry
/// with another id is still there.
pub proof fn lemma_removed_id_is_absent(history: Seq<EntryView>, id: i64)
    ensures
        forall|k: int|
            0 <= k < without_id(history, id).len() ==> (#[trigger] without_id(history, id)[k]).id
                != id,
        forall|k: int|
            0 <= k < history.len() && (#[trigger] history[k]).id != id ==> without_id(
                history,
                id,
            ).contains(history[k]),
{
    let keep = |e: EntryView| e.id != id;
    assert forall|k: int| 0 <= k < without_id(history, id).len() implies (#[trigger] without_id(
        history,
        id,
    )[k]).id != id by {
        history.lemma_filter_pred(keep, k);
    }
    assert forall|k: int| 0 <= k < history.len() && (#[trigger] history[k]).id
        != id implies without_id(history, id).contains(history[k]) by {
        history.lemma_filter_contains(keep, k);
    }
}

} // verus!
