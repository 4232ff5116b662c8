//! What holds of whole cycles of rotations.
//!
//! A cycle shows every known wallpaper once. The statements here are about
//! runs of rotations, each of which succeeds at its first attempt, and about
//! what syncing with a source keeps. They are stated over what the store
//! holds and proved from the definitions that the engine's contracts use.

use crate::content_managers::ContentManagerTypes;
use crate::retry::MAX_ATTEMPTS;
use crate::retry::RETRY_DELAY_SECONDS;
use crate::schedule::Timestamp;
use crate::store::all_unseen;
use crate::store::has_id;
use crate::store::ids_unique;
use crate::store::is_seen;
use crate::store::kinds_known;
use crate::store::marked_seen;
use crate::store::unseen;
use crate::store::upserted;
use crate::store::StoreView;
use crate::store::WallpaperRow;
use crate::wallpaper::concluded_step;
use crate::wallpaper::concluded_store;
use crate::wallpaper::drawn;
use crate::wallpaper::eligible;
use crate::wallpaper::lemma_all_unseen_is_unseen;
use crate::wallpaper::lemma_unseen_within;
use crate::wallpaper::meta_consistent;
use crate::wallpaper::refreshed;
use crate::wallpaper::rotated;
use crate::wallpaper::upserted_all;
use crate::wallpaper::AttemptView;
use crate::wallpaper::StepView;
use crate::wallpaper::WallpaperView;
use vstd::prelude::*;

verus! {

/// Whether some row carries `id` and is not marked as seen.
pub open spec fn is_unseen(rows: Seq<WallpaperRow>, id: Seq<char>) -> bool {
    exists|i: int| 0 <= i < rows.len() && (#[trigger] rows[i]).id == id && !rows[i].seen
}

/// The id of the wallpaper that a rotation shows when it draws `pick`.
pub open spec fn picked_id(rows: Seq<WallpaperRow>, pick: int) -> Seq<char> {
    eligible(rows)[pick].id
}

/// The rows after a rotation that drew `pick` and succeeded.
pub open spec fn after_rotation(rows: Seq<WallpaperRow>, pick: int) -> Seq<WallpaperRow> {
    marked_seen(refreshed(rows), picked_id(rows, pick))
}

/// Whether each draw of a run of rotations points at a candidate of its
/// rotation.
pub open spec fn valid_picks(rows: Seq<WallpaperRow>, picks: Seq<int>) -> bool
    decreases picks.len(),
{
    picks.len() == 0 || (0 <= picks[0] < eligible(rows).len() && valid_picks(
        after_rotation(rows, picks[0]),
        picks.drop_first(),
    ))
}

/// The ids of the wallpapers that a run of rotations shows, in order.
pub open spec fn selected_ids(rows: Seq<WallpaperRow>, picks: Seq<int>) -> Seq<Seq<char>>
    decreases picks.len(),
{
    if picks.len() == 0 {
        Seq::empty()
    } else {
        seq![picked_id(rows, picks[0])] + selected_ids(
            after_rotation(rows, picks[0]),
            picks.drop_first(),
        )
    }
}

/// A rotation that succeeds at its first attempt leaves the rows that
/// [`after_rotation`] names, and shows the wallpaper that [`picked_id`]
/// names.
pub proof fn lemma_rotation_rows(store: StoreView, pick: int, now: Timestamp)
    requires
        kinds_known(store.rows),
        0 <= pick < eligible(store.rows).len(),
    ensures
        rotated(store, pick, true, now).0.rows == after_rotation(store.rows, pick),
        rotated(store, pick, true, now).0.last_used == Some(picked_id(store.rows, pick)),
        rotated(store, pick, true, now).0.last_update == Some(now),
        rotated(store, pick, true, now).1 == StepView::Done,
        drawn(eligible(store.rows), pick) matches Some(wallpaper) && wallpaper.id == picked_id(
            store.rows,
            pick,
        ),
{
    lemma_eligible_within(store.rows);
    let row = eligible(store.rows)[pick];
    assert(ContentManagerTypes::known_id(row.manager_id));
}

/// Every candidate is a row of the table once the candidates have been read,
/// unseen there; the candidates are the unseen rows of that table; and there
/// is a candidate wherever there is a row.
pub proof fn lemma_eligible_within(rows: Seq<WallpaperRow>)
    ensures
        eligible(rows) == unseen(refreshed(rows)),
        refreshed(rows).len() == rows.len(),
        forall|i: int| 0 <= i < rows.len() ==> (#[trigger] refreshed(rows)[i]).id == rows[i].id,
        forall|i: int|
            0 <= i < rows.len() ==> (#[trigger] refreshed(rows)[i]).manager_id
                == rows[i].manager_id,
        forall|k: int|
            0 <= k < eligible(rows).len() ==> is_unseen(
                refreshed(rows),
                (#[trigger] eligible(rows)[k]).id,
            ) && has_id(rows, eligible(rows)[k].id),
        kinds_known(rows) ==> kinds_known(eligible(rows)) && kinds_known(refreshed(rows)),
        ids_unique(rows) ==> ids_unique(refreshed(rows)),
        eligible(rows).len() == 0 <==> rows.len() == 0,
{
    lemma_all_unseen_is_unseen(rows);
    let fresh = refreshed(rows);
    lemma_unseen_within(fresh);
    assert forall|k: int| 0 <= k < eligible(rows).len() implies is_unseen(
        fresh,
        (#[trigger] eligible(rows)[k]).id,
    ) && has_id(rows, eligible(rows)[k].id) by {
        let row = unseen(fresh)[k];
        assert(fresh.contains(row));
        let i = choose|i: int| 0 <= i < fresh.len() && fresh[i] == row;
        assert(fresh[i].id == row.id && !fresh[i].seen);
        assert(rows[i].id == row.id);
    }
    if kinds_known(rows) {
        assert(kinds_known(fresh));
    }
    if ids_unique(rows) {
        assert(ids_unique(fresh));
    }
    if rows.len() > 0 && unseen(rows).len() == 0 {
        assert(eligible(rows).len() == rows.len());
    }
    if rows.len() == 0 {
        rows.lemma_filter_len(|row: WallpaperRow| !row.seen);
    }
}

/// Marking one id as seen takes exactly that id, if it was unseen, out of
/// the unseen rows, and nothing else.
pub proof fn lemma_mark_count(rows: Seq<WallpaperRow>, id: Seq<char>)
    requires
        ids_unique(rows),
    ensures
        unseen(marked_seen(rows, id)).len() == unseen(rows).len() - (if is_unseen(rows, id) {
            1int
        } else {
            0int
        }),
        ids_unique(marked_seen(rows, id)),
        forall|other: Seq<char>|
            is_unseen(marked_seen(rows, id), other) <==> other != id && is_unseen(rows, other),
    decreases rows.len(),
{
    let pred = |row: WallpaperRow| !row.seen;
    let marked = marked_seen(rows, id);
    assert forall|other: Seq<char>| is_unseen(marked, other) <==> other != id && is_unseen(
        rows,
        other,
    ) by {
        if is_unseen(marked, other) {
            let i = choose|i: int|
                0 <= i < marked.len() && (#[trigger] marked[i]).id == other && !marked[i].seen;
            assert(rows[i].id == other && !rows[i].seen);
        }
        if other != id && is_unseen(rows, other) {
            let i = choose|i: int|
                0 <= i < rows.len() && (#[trigger] rows[i]).id == other && !rows[i].seen;
            assert(marked[i].id == other && !marked[i].seen);
        }
    }
    assert(ids_unique(marked)) by {
        assert forall|i: int, j: int| 0 <= i < j < marked.len() implies (#[trigger] marked[i]).id
            != (#[trigger] marked[j]).id by {
            assert(rows[i].id != rows[j].id);
        }
    }
    if rows.len() == 0 {
        reveal(Seq::filter);
        assert(marked =~= rows);
    } else {
        let init = rows.drop_last();
        let last = rows.last();
        assert(ids_unique(init)) by {
            assert forall|i: int, j: int| 0 <= i < j < init.len() implies (#[trigger] init[i]).id
                != (#[trigger] init[j]).id by {
                assert(rows[i].id != rows[j].id);
            }
        }
        lemma_mark_count(init, id);
        assert(rows =~= init.push(last));
        assert(marked =~= marked_seen(init, id).push(marked.last()));
        init.lemma_filter_len_push(pred, last);
        marked_seen(init, id).lemma_filter_len_push(pred, marked.last());
        if last.id == id {
            assert(!is_unseen(init, id)) by {
                if is_unseen(init, id) {
                    let i = choose|i: int|
                        0 <= i < init.len() && (#[trigger] init[i]).id == id && !init[i].seen;
                    assert(rows[i].id != rows[rows.len() - 1].id);
                }
            }
            if !last.seen {
                assert(rows[rows.len() - 1].id == id && !rows[rows.len() - 1].seen);
            } else {
                assert(!is_unseen(rows, id)) by {
                    if is_unseen(rows, id) {
                        let i = choose|i: int|
                            0 <= i < rows.len() && (#[trigger] rows[i]).id == id && !rows[i].seen;
                        if i < init.len() {
                            assert(init[i].id == id && !init[i].seen);
                        }
                    }
                }
            }
        } else {
            assert(marked.last() == last);
            assert(is_unseen(rows, id) <==> is_unseen(init, id)) by {
                if is_unseen(rows, id) {
                    let i = choose|i: int|
                        0 <= i < rows.len() && (#[trigger] rows[i]).id == id && !rows[i].seen;
                    assert(init[i].id == id && !init[i].seen);
                }
                if is_unseen(init, id) {
                    let i = choose|i: int|
                        0 <= i < init.len() && (#[trigger] init[i]).id == id && !init[i].seen;
                    assert(rows[i].id == id && !rows[i].seen);
                }
            }
        }
    }
}

/// A run of rotations that never exhausts the cycle shows unseen wallpapers
/// only, and none of them twice.
pub proof fn lemma_run_within_cycle(rows: Seq<WallpaperRow>, picks: Seq<int>)
    requires
        ids_unique(rows),
        valid_picks(rows, picks),
        picks.len() <= unseen(rows).len(),
    ensures
        selected_ids(rows, picks).len() == picks.len(),
        forall|k: int|
            0 <= k < picks.len() ==> is_unseen(rows, #[trigger] selected_ids(rows, picks)[k]),
        forall|k: int, l: int|
            0 <= k < l < picks.len() ==> #[trigger] selected_ids(rows, picks)[k]
                != #[trigger] selected_ids(rows, picks)[l],
    decreases picks.len(),
{
    if picks.len() > 0 {
        let id = picked_id(rows, picks[0]);
        let next = after_rotation(rows, picks[0]);
        let rest = picks.drop_first();
        let ids = selected_ids(rows, picks);
        let later = selected_ids(next, rest);
        assert(refreshed(rows) == rows && eligible(rows) == unseen(rows));
        lemma_eligible_within(rows);
        assert(is_unseen(rows, id));
        lemma_mark_count(rows, id);
        lemma_run_within_cycle(next, rest);
        assert(ids =~= seq![id] + later);
        assert forall|k: int| 0 <= k < picks.len() implies is_unseen(rows, #[trigger] ids[k]) by {
            if k > 0 {
                assert(ids[k] == later[k - 1]);
                assert(is_unseen(next, later[k - 1]));
            }
        }
        assert forall|k: int, l: int| 0 <= k < l < picks.len() implies #[trigger] ids[k]
            != #[trigger] ids[l] by {
            assert(ids[l] == later[l - 1]);
            assert(is_unseen(next, later[l - 1]));
            if k > 0 {
                assert(ids[k] == later[k - 1]);
            }
        }
    }
}

/// No repeat within a cycle: a run of rotations that is no longer than the
/// list of candidates it starts from shows pairwise distinct wallpapers, all
/// of them known to the store. The candidates are all rows where the store
/// is fresh or exhausted, and the unseen rows otherwise.
pub proof fn lemma_no_repeat(rows: Seq<WallpaperRow>, picks: Seq<int>)
    requires
        ids_unique(rows),
        valid_picks(rows, picks),
        picks.len() <= eligible(rows).len(),
    ensures
        selected_ids(rows, picks).len() == picks.len(),
        forall|k: int| 0 <= k < picks.len() ==> has_id(rows, #[trigger] selected_ids(rows, picks)[k]),
        forall|k: int, l: int|
            0 <= k < l < picks.len() ==> #[trigger] selected_ids(rows, picks)[k]
                != #[trigger] selected_ids(rows, picks)[l],
{
    let fresh = refreshed(rows);
    lemma_eligible_within(rows);
    lemma_eligible_within(fresh);
    lemma_all_unseen_is_unseen(rows);
    assert(refreshed(fresh) == fresh && eligible(fresh) == eligible(rows)) by {
        if picks.len() == 0 && eligible(rows).len() == 0 {
            assert(rows.len() == 0);
            assert(fresh =~= rows);
            assert(all_unseen(fresh) =~= fresh);
        }
    }
    lemma_run_from_refreshed(rows, picks);
    lemma_run_within_cycle(fresh, picks);
    assert forall|k: int| 0 <= k < picks.len() implies has_id(
        rows,
        #[trigger] selected_ids(rows, picks)[k],
    ) by {
        let id = selected_ids(fresh, picks)[k];
        assert(is_unseen(fresh, id));
        let i = choose|i: int|
            0 <= i < fresh.len() && (#[trigger] fresh[i]).id == id && !fresh[i].seen;
        assert(rows[i].id == id);
    }
}

/// A run of rotations goes the same way from a table and from that table
/// once its candidates have been read.
pub proof fn lemma_run_from_refreshed(rows: Seq<WallpaperRow>, picks: Seq<int>)
    ensures
        eligible(refreshed(rows)) == eligible(rows),
        refreshed(refreshed(rows)) == refreshed(rows),
        selected_ids(refreshed(rows), picks) == selected_ids(rows, picks),
        valid_picks(refreshed(rows), picks) == valid_picks(rows, picks),
{
    let fresh = refreshed(rows);
    lemma_all_unseen_is_unseen(rows);
    if unseen(rows).len() == 0 {
        if rows.len() == 0 {
            assert(fresh =~= rows);
        } else {
            assert(unseen(fresh).len() > 0);
        }
    }
    assert(eligible(fresh) == eligible(rows));
    assert(refreshed(fresh) == fresh);
    if picks.len() > 0 {
        assert(after_rotation(fresh, picks[0]) == after_rotation(rows, picks[0]));
    }
}

/// After exhaustion the cycle starts again: where rows exist and all of them
/// are marked as seen, every row is a candidate again, so the next selection
/// finds a wallpaper, and whichever it draws is one of the rows.
pub proof fn lemma_exhaustion_resets(rows: Seq<WallpaperRow>, pick: int)
    requires
        rows.len() > 0,
        kinds_known(rows),
        forall|i: int| 0 <= i < rows.len() ==> (#[trigger] rows[i]).seen,
        0 <= pick < rows.len(),
    ensures
        unseen(rows).len() == 0,
        eligible(rows) == all_unseen(rows),
        eligible(rows).len() == rows.len(),
        refreshed(rows) == all_unseen(rows),
        drawn(eligible(rows), pick) matches Some(wallpaper) && wallpaper.id == rows[pick].id
            && has_id(rows, wallpaper.id),
{
    lemma_all_seen_none_unseen(rows);
    lemma_all_unseen_is_unseen(rows);
    assert(ContentManagerTypes::known_id(rows[pick].manager_id));
    assert(eligible(rows)[pick].id == rows[pick].id);
}

/// Rows that are all marked as seen have no unseen row among them.
pub proof fn lemma_all_seen_none_unseen(rows: Seq<WallpaperRow>)
    requires
        forall|i: int| 0 <= i < rows.len() ==> (#[trigger] rows[i]).seen,
    ensures
        unseen(rows).len() == 0,
    decreases rows.len(),
{
    reveal(Seq::filter);
    if rows.len() > 0 {
        let init = rows.drop_last();
        assert forall|i: int| 0 <= i < init.len() implies (#[trigger] init[i]).seen by {
            assert(rows[i].seen);
        }
        lemma_all_seen_none_unseen(init);
        assert(rows[rows.len() - 1].seen);
    }
}

/// An upsert never takes a seen mark away: every row keeps its place, its id
/// and its seen flag, and an id that was seen before is seen after.
pub proof fn lemma_upsert_keeps_seen(rows: Seq<WallpaperRow>, id: Seq<char>, manager_id: u8)
    ensures
        upserted(rows, id, manager_id).len() >= rows.len(),
        forall|i: int|
            0 <= i < rows.len() ==> (#[trigger] upserted(rows, id, manager_id)[i]).id == rows[i].id
                && upserted(rows, id, manager_id)[i].seen == rows[i].seen,
        forall|other: Seq<char>|
            is_seen(rows, other) ==> is_seen(upserted(rows, id, manager_id), other),
        forall|other: Seq<char>| has_id(rows, other) ==> has_id(upserted(rows, id, manager_id), other),
        has_id(upserted(rows, id, manager_id), id),
        ids_unique(rows) ==> ids_unique(upserted(rows, id, manager_id)),
{
    let after = upserted(rows, id, manager_id);
    assert forall|other: Seq<char>| is_seen(rows, other) implies is_seen(after, other) by {
        let i = choose|i: int|
            0 <= i < rows.len() && (#[trigger] rows[i]).id == other && rows[i].seen;
        assert(after[i].id == other && after[i].seen);
    }
    assert forall|other: Seq<char>| has_id(rows, other) implies has_id(after, other) by {
        let i = choose|i: int| 0 <= i < rows.len() && (#[trigger] rows[i]).id == other;
        assert(after[i].id == other);
    }
    if has_id(rows, id) {
        let i = choose|i: int| 0 <= i < rows.len() && (#[trigger] rows[i]).id == id;
        assert(after[i].id == id);
    } else {
        assert(after[rows.len() as int].id == id);
    }
    if ids_unique(rows) {
        assert forall|i: int, j: int| 0 <= i < j < after.len() implies (#[trigger] after[i]).id
            != (#[trigger] after[j]).id by {
            if j < rows.len() {
                assert(rows[i].id != rows[j].id);
            } else {
                assert(rows[i].id != id);
            }
        }
    }
}

/// A whole sync never takes a seen mark away, and never takes a row away.
pub proof fn lemma_sync_keeps_seen(rows: Seq<WallpaperRow>, listed: Seq<WallpaperView>)
    ensures
        upserted_all(rows, listed).len() >= rows.len(),
        forall|i: int|
            0 <= i < rows.len() ==> (#[trigger] upserted_all(rows, listed)[i]).id == rows[i].id
                && upserted_all(rows, listed)[i].seen == rows[i].seen,
        forall|other: Seq<char>| is_seen(rows, other) ==> is_seen(upserted_all(rows, listed), other),
        forall|other: Seq<char>| has_id(rows, other) ==> has_id(upserted_all(rows, listed), other),
    decreases listed.len(),
{
    if listed.len() > 0 {
        let before = upserted_all(rows, listed.drop_last());
        lemma_sync_keeps_seen(rows, listed.drop_last());
        lemma_upsert_keeps_seen(before, listed.last().id, listed.last().type_id.spec_id());
        let after = upserted_all(rows, listed);
        assert forall|i: int| 0 <= i < rows.len() implies (#[trigger] after[i]).id == rows[i].id
            && after[i].seen == rows[i].seen by {
            assert(before[i].id == rows[i].id);
        }
    }
}

/// The record of the last rotation keeps naming a wallpaper that the store
/// knows: a rotation names the wallpaper it drew from the rows, and neither
/// rotating nor syncing takes a row away.
pub proof fn lemma_record_stays_known(
    store: StoreView,
    pick: int,
    applied: bool,
    now: Timestamp,
    listed: Seq<WallpaperView>,
)
    requires
        meta_consistent(store),
    ensures
        meta_consistent(rotated(store, pick, applied, now).0),
        meta_consistent(
            StoreView {
                rows: upserted_all(store.rows, listed),
                last_update: store.last_update,
                last_used: store.last_used,
            },
        ),
{
    lemma_sync_keeps_seen(store.rows, listed);
    lemma_eligible_within(store.rows);
    let fresh = refreshed(store.rows);
    let after = rotated(store, pick, applied, now).0;
    assert forall|id: Seq<char>| has_id(store.rows, id) implies has_id(after.rows, id) by {
        let i = choose|i: int| 0 <= i < store.rows.len() && (#[trigger] store.rows[i]).id == id;
        assert(fresh[i].id == id);
        assert(after.rows[i].id == id);
    }
    if drawn(eligible(store.rows), pick) is Some && applied {
        let id = picked_id(store.rows, pick);
        assert(has_id(store.rows, id));
    }
}

/// The step after `count` attempts in a row have failed, `attempt` being the
/// first of them and each later one the attempt that the step before it
/// handed out.
pub open spec fn after_failures(attempt: AttemptView, count: nat) -> StepView
    decreases count,
{
    if count <= 1 {
        concluded_step(attempt, false)
    } else {
        match concluded_step(attempt, false) {
            StepView::Retry { delay_seconds, attempt: next } => after_failures(
                next,
                (count - 1) as nat,
            ),
            other => other,
        }
    }
}

/// A backend that keeps failing is tried six times in all: each of the first
/// five failures is answered with a wait of five seconds and another attempt
/// for the same wallpaper, the sixth with giving up. No failure touches the
/// store.
pub proof fn lemma_failures_until_fatal(
    attempt: AttemptView,
    count: nat,
    store: StoreView,
    now: Timestamp,
)
    requires
        count >= 1,
        attempt.failures < MAX_ATTEMPTS,
    ensures
        attempt.failures + count < MAX_ATTEMPTS ==> after_failures(attempt, count)
            == (StepView::Retry {
            delay_seconds: RETRY_DELAY_SECONDS,
            attempt: AttemptView {
                wallpaper: attempt.wallpaper,
                failures: (attempt.failures + count) as u32,
                rotation: attempt.rotation,
            },
        }),
        attempt.failures + count >= MAX_ATTEMPTS ==> after_failures(attempt, count)
            == StepView::Fatal,
        concluded_store(store, attempt, false, now) == store,
    decreases count,
{
    if count > 1 {
        match concluded_step(attempt, false) {
            StepView::Retry { delay_seconds, attempt: next } => {
                lemma_failures_until_fatal(next, (count - 1) as nat, store, now);
            },
            _ => {},
        }
    }
}

} // verus!
