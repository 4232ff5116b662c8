//! The table of known wallpapers and the record of the last rotation.
//!
//! The store keeps one row per wallpaper id, in the order in which the ids
//! first arrived, and beside the rows a single record of when the last
//! rotation happened and which wallpaper it showed.

use crate::content_managers::ContentManagerTypes;
use crate::schedule::local_now;
use crate::schedule::Timestamp;
use crate::wallpaper::Wallpaper;
use vstd::prelude::*;

verus! {

/// Why a write to the store failed.
#[derive(Debug)]
pub enum StoreError {
    InsertFailed,
    UpdateFailed,
}

/// One row of the table: a wallpaper id, whether it has been shown in the
/// current cycle, and the persisted kind of its source.
#[derive(Debug)]
pub struct DatabaseWallpaper {
    pub id: String,
    pub seen: bool,
    pub manager_id: u8,
}

/// A row as plain values.
pub struct WallpaperRow {
    pub id: Seq<char>,
    pub seen: bool,
    pub manager_id: u8,
}

impl View for DatabaseWallpaper {
    type V = WallpaperRow;

    open spec fn view(&self) -> WallpaperRow {
        WallpaperRow { id: self.id@, seen: self.seen, manager_id: self.manager_id }
    }
}

impl Clone for DatabaseWallpaper {
    fn clone(&self) -> (row: DatabaseWallpaper)
        ensures
            row@ == self@,
    {
        DatabaseWallpaper { id: self.id.clone(), seen: self.seen, manager_id: self.manager_id }
    }
}

/// The rows of a vector, each as plain values.
pub open spec fn rows_view(rows: Seq<DatabaseWallpaper>) -> Seq<WallpaperRow> {
    rows.map_values(|row: DatabaseWallpaper| row@)
}

/// Appending to a vector of rows appends to what it holds.
pub proof fn lemma_rows_view_push(rows: Seq<DatabaseWallpaper>, row: DatabaseWallpaper)
    ensures
        rows_view(rows.push(row)) == rows_view(rows).push(row@),
{
    assert(rows_view(rows.push(row)) =~= rows_view(rows).push(row@));
}

/// Replacing one row of a vector replaces it in what the vector holds.
pub proof fn lemma_rows_view_update(rows: Seq<DatabaseWallpaper>, i: int, row: DatabaseWallpaper)
    requires
        0 <= i < rows.len(),
    ensures
        rows_view(rows.update(i, row)) == rows_view(rows).update(i, row@),
{
    assert(rows_view(rows.update(i, row)) =~= rows_view(rows).update(i, row@));
}

/// Whether some row carries `id`.
pub open spec fn has_id(rows: Seq<WallpaperRow>, id: Seq<char>) -> bool {
    exists|i: int| 0 <= i < rows.len() && (#[trigger] rows[i]).id == id
}

/// Whether some row carries `id` and is marked as seen.
pub open spec fn is_seen(rows: Seq<WallpaperRow>, id: Seq<char>) -> bool {
    exists|i: int| 0 <= i < rows.len() && (#[trigger] rows[i]).id == id && rows[i].seen
}

/// No id occurs in two rows.
pub open spec fn ids_unique(rows: Seq<WallpaperRow>) -> bool {
    forall|i: int, j: int|
        0 <= i < j < rows.len() ==> (#[trigger] rows[i]).id != (#[trigger] rows[j]).id
}

/// Every row names a kind of source that exists.
pub open spec fn kinds_known(rows: Seq<WallpaperRow>) -> bool {
    forall|i: int|
        0 <= i < rows.len() ==> ContentManagerTypes::known_id((#[trigger] rows[i]).manager_id)
}

/// The rows after the row of `id`, if there is one, took `manager_id` as its
/// kind of source.
pub open spec fn with_source(rows: Seq<WallpaperRow>, id: Seq<char>, manager_id: u8) -> Seq<
    WallpaperRow,
> {
    rows.map_values(
        |row: WallpaperRow|
            if row.id == id {
                WallpaperRow { id: row.id, seen: row.seen, manager_id }
            } else {
                row
            },
    )
}

/// The rows after an upsert of `id`: a known id keeps its place and its seen
/// flag and takes the new kind of source; a new id is appended as unseen.
pub open spec fn upserted(rows: Seq<WallpaperRow>, id: Seq<char>, manager_id: u8) -> Seq<
    WallpaperRow,
> {
    if has_id(rows, id) {
        with_source(rows, id, manager_id)
    } else {
        rows.push(WallpaperRow { id, seen: false, manager_id })
    }
}

/// The rows after the row of `id`, if there is one, was marked as seen.
pub open spec fn marked_seen(rows: Seq<WallpaperRow>, id: Seq<char>) -> Seq<WallpaperRow> {
    rows.map_values(
        |row: WallpaperRow|
            if row.id == id {
                WallpaperRow { id: row.id, seen: true, manager_id: row.manager_id }
            } else {
                row
            },
    )
}

/// The rows after every one of them was marked as unseen.
pub open spec fn all_unseen(rows: Seq<WallpaperRow>) -> Seq<WallpaperRow> {
    rows.map_values(
        |row: WallpaperRow| WallpaperRow { id: row.id, seen: false, manager_id: row.manager_id },
    )
}

/// The rows that are not marked as seen, in table order.
pub open spec fn unseen(rows: Seq<WallpaperRow>) -> Seq<WallpaperRow> {
    rows.filter(|row: WallpaperRow| !row.seen)
}

/// The row that carries `id`, if there is one.
pub open spec fn lookup(rows: Seq<WallpaperRow>, id: Seq<char>) -> Option<WallpaperRow> {
    if has_id(rows, id) {
        Some(rows[choose|i: int| 0 <= i < rows.len() && (#[trigger] rows[i]).id == id])
    } else {
        None
    }
}

/// Why rows read back from storage are not a store.
#[derive(Debug, Clone, Copy, PartialEq, Eq, Structural)]
pub enum RestoreError {
    /// Two rows carry one id.
    DuplicateId,
    /// A row names a kind of source that does not exist: it was not written
    /// by this library.
    UnsupportedManagerId,
}

/// What restoring from the given rows gives: the rows are refused where one
/// of them names an unknown kind of source, and else where two share an id.
pub open spec fn spec_restore(rows: Seq<WallpaperRow>) -> Result<(), RestoreError> {
    if !kinds_known(rows) {
        Err(RestoreError::UnsupportedManagerId)
    } else if !ids_unique(rows) {
        Err(RestoreError::DuplicateId)
    } else {
        Ok(())
    }
}

/// The record of the last rotation, as stored.
#[derive(Debug)]
pub struct MetaData {
    pub last_update: Option<Timestamp>,
    pub last_used: String,
}

/// What a [`Store`] holds, as plain values.
pub struct StoreView {
    pub rows: Seq<WallpaperRow>,
    pub last_update: Option<Timestamp>,
    pub last_used: Option<Seq<char>>,
}

/// The table of known wallpapers and the record of the last rotation.
pub struct Store {
    rows: Vec<DatabaseWallpaper>,
    last_update: Option<Timestamp>,
    last_used: Option<String>,
}

impl View for Store {
    type V = StoreView;

    closed spec fn view(&self) -> StoreView {
        StoreView {
            rows: rows_view(self.rows@),
            last_update: self.last_update,
            last_used: match self.last_used {
                Some(id) => Some(id@),
                None => None,
            },
        }
    }
}

impl Store {
    /// The store's invariant: no id occurs twice, and every row names a kind
    /// of source that exists.
    pub open spec fn wf(&self) -> bool {
        ids_unique(self@.rows) && kinds_known(self@.rows)
    }

    /// An empty store: no rows, no rotation on record.
    pub fn new() -> (store: Store)
        ensures
            store.wf(),
            store@.rows == Seq::<WallpaperRow>::empty(),
            store@.last_update is None,
            store@.last_used is None,
    {
        Store { rows: Vec::new(), last_update: None, last_used: None }
    }

    /// The store that was persisted as the given rows and record. Rows that
    /// this library cannot have written are refused.
    pub fn restore(
        rows: Vec<DatabaseWallpaper>,
        last_update: Option<Timestamp>,
        last_used: Option<String>,
    ) -> (restored: Result<Store, RestoreError>)
        ensures
            match restored {
                Ok(store) => spec_restore(rows_view(rows@)) is Ok && store.wf() && store@.rows
                    == rows_view(rows@) && store@.last_update == last_update && store@.last_used
                    == match last_used {
                    Some(id) => Some(id@),
                    None => None,
                },
                Err(error) => spec_restore(rows_view(rows@)) == Err::<(), RestoreError>(error),
            },
    {
        let ghost view = rows_view(rows@);
        let mut i: usize = 0;
        while i < rows.len()
            invariant
                i <= rows.len(),
                view == rows_view(rows@),
                forall|j: int|
                    0 <= j < i ==> ContentManagerTypes::known_id((#[trigger] view[j]).manager_id),
            decreases rows.len() - i,
        {
            if rows[i].manager_id > 1 {
                assert(!ContentManagerTypes::known_id(view[i as int].manager_id));
                return Err(RestoreError::UnsupportedManagerId);
            }
            i += 1;
        }
        let mut j: usize = 0;
        while j < rows.len()
            invariant
                j <= rows.len(),
                view == rows_view(rows@),
                kinds_known(view),
                forall|a: int, b: int|
                    0 <= a < b < j ==> (#[trigger] view[a]).id != (#[trigger] view[b]).id,
            decreases rows.len() - j,
        {
            let mut k: usize = 0;
            while k < j
                invariant
                    k <= j < rows.len(),
                    view == rows_view(rows@),
                    kinds_known(view),
                    forall|a: int| 0 <= a < k ==> (#[trigger] view[a]).id != view[j as int].id,
                decreases j - k,
            {
                if rows[k].id == rows[j].id {
                    assert(view[k as int].id == view[j as int].id);
                    return Err(RestoreError::DuplicateId);
                }
                k += 1;
            }
            j += 1;
        }
        Ok(Store { rows, last_update, last_used })
    }

    /// The place of the row that carries `id`.
    fn position(&self, id: &String) -> (found: Option<usize>)
        ensures
            match found {
                Some(i) => i < self@.rows.len() && self@.rows[i as int].id == id@,
                None => !has_id(self@.rows, id@),
            },
    {
        let mut i: usize = 0;
        while i < self.rows.len()
            invariant
                i <= self.rows.len(),
                forall|j: int| 0 <= j < i ==> (#[trigger] self@.rows[j]).id != id@,
            decreases self.rows.len() - i,
        {
            if self.rows[i].id == *id {
                return Some(i);
            }
            i += 1;
        }
        None
    }

    /// Inserts the wallpaper as unseen; if its id is already known, the row
    /// keeps its place and its seen flag and takes the wallpaper's kind of
    /// source. A duplicate id is no failure, and a write to memory cannot
    /// fail: the error is for whoever mirrors the store on disk.
    pub fn insert_wallpaper(&mut self, wallpaper: &Wallpaper) -> (r: Result<(), StoreError>)
        requires
            old(self).wf(),
        ensures
            r is Ok,
            final(self).wf(),
            final(self)@.rows == upserted(
                old(self)@.rows,
                wallpaper.id@,
                wallpaper.type_id.spec_id(),
            ),
            final(self)@.last_update == old(self)@.last_update,
            final(self)@.last_used == old(self)@.last_used,
    {
        let manager_id: u8 = u8::from(wallpaper.type_id);
        match self.position(&wallpaper.id) {
            Some(i) => {
                let seen = self.rows[i].seen;
                let row = DatabaseWallpaper { id: wallpaper.id.clone(), seen, manager_id };
                self.rows.set(i, row);
                assert(self@.rows =~= with_source(old(self)@.rows, wallpaper.id@, manager_id));
            },
            None => {
                let row = DatabaseWallpaper { id: wallpaper.id.clone(), seen: false, manager_id };
                self.rows.push(row);
                assert(self@.rows =~= old(self)@.rows.push(
                    WallpaperRow { id: wallpaper.id@, seen: false, manager_id },
                ));
            },
        }
        Ok(())
    }

    /// Marks the row of the wallpaper's id as seen. An id that the store does
    /// not know changes nothing, and is no failure.
    pub fn mark_as_seen(&mut self, wallpaper: &Wallpaper) -> (r: Result<(), StoreError>)
        requires
            old(self).wf(),
        ensures
            r is Ok,
            final(self).wf(),
            final(self)@.rows == marked_seen(old(self)@.rows, wallpaper.id@),
            final(self)@.last_update == old(self)@.last_update,
            final(self)@.last_used == old(self)@.last_used,
    {
        match self.position(&wallpaper.id) {
            Some(i) => {
                let manager_id = self.rows[i].manager_id;
                let row = DatabaseWallpaper { id: wallpaper.id.clone(), seen: true, manager_id };
                self.rows.set(i, row);
            },
            None => {},
        }
        assert(self@.rows =~= marked_seen(old(self)@.rows, wallpaper.id@));
        Ok(())
    }

    /// Whether the wallpaper's id is known and marked as seen.
    pub fn have_seen(&self, wallpaper: &Wallpaper) -> (seen: bool)
        requires
            self.wf(),
        ensures
            seen == is_seen(self@.rows, wallpaper.id@),
    {
        match self.position(&wallpaper.id) {
            Some(i) => self.rows[i].seen,
            None => false,
        }
    }

    /// All rows, in table order.
    pub fn get_inserted_wallpapers(&self) -> (all: Vec<DatabaseWallpaper>)
        ensures
            rows_view(all@) == self@.rows,
    {
        let mut all: Vec<DatabaseWallpaper> = Vec::new();
        let mut i: usize = 0;
        while i < self.rows.len()
            invariant
                i <= self.rows.len(),
                rows_view(all@) == self@.rows.take(i as int),
            decreases self.rows.len() - i,
        {
            let row = self.rows[i].clone();
            proof {
                lemma_rows_view_push(all@, row);
            }
            all.push(row);
            assert(rows_view(all@) =~= self@.rows.take(i + 1));
            i += 1;
        }
        assert(self@.rows.take(i as int) =~= self@.rows);
        all
    }

    /// The rows that are not marked as seen, in table order. An empty result
    /// means that the cycle is exhausted, or that the store holds nothing.
    pub fn get_unseen_wallpaperrs(&self) -> (rows: Vec<DatabaseWallpaper>)
        ensures
            rows_view(rows@) == unseen(self@.rows),
    {
        let mut found: Vec<DatabaseWallpaper> = Vec::new();
        let mut i: usize = 0;
        assert(self@.rows.take(0) =~= Seq::<WallpaperRow>::empty());
        while i < self.rows.len()
            invariant
                i <= self.rows.len(),
                rows_view(found@) == unseen(self@.rows.take(i as int)),
            decreases self.rows.len() - i,
        {
            proof {
                let prefix = self@.rows.take(i as int);
                assert(self@.rows.take(i + 1) =~= prefix.push(self@.rows[i as int]));
                prefix.lemma_filter_push(self@.rows[i as int], |row: WallpaperRow| !row.seen);
            }
            if !self.rows[i].seen {
                let row = self.rows[i].clone();
                proof {
                    lemma_rows_view_push(found@, row);
                }
                found.push(row);
            }
            i += 1;
        }
        assert(self@.rows.take(i as int) =~= self@.rows);
        found
    }

    /// Marks every row as unseen, which starts a new cycle.
    pub fn reset_seen_state(&mut self)
        requires
            old(self).wf(),
        ensures
            final(self).wf(),
            final(self)@.rows == all_unseen(old(self)@.rows),
            final(self)@.last_update == old(self)@.last_update,
            final(self)@.last_used == old(self)@.last_used,
    {
        let mut i: usize = 0;
        while i < self.rows.len()
            invariant
                i <= self.rows.len(),
                self.rows.len() == old(self).rows.len(),
                self.last_update == old(self).last_update,
                self.last_used == old(self).last_used,
                self@.rows.len() == old(self)@.rows.len(),
                forall|j: int|
                    0 <= j < i ==> (#[trigger] self@.rows[j]) == all_unseen(old(self)@.rows)[j],
                forall|j: int|
                    i <= j < self.rows.len() ==> (#[trigger] self@.rows[j]) == old(self)@.rows[j],
            decreases self.rows.len() - i,
        {
            let row = DatabaseWallpaper {
                id: self.rows[i].id.clone(),
                seen: false,
                manager_id: self.rows[i].manager_id,
            };
            proof {
                assert(self@.rows[i as int] == old(self)@.rows[i as int]);
                assert(row@ == all_unseen(old(self)@.rows)[i as int]);
                lemma_rows_view_update(self.rows@, i as int, row);
            }
            self.rows.set(i, row);
            i += 1;
        }
        assert(self@.rows =~= all_unseen(old(self)@.rows));
    }

    /// When the last rotation happened, if one is on record.
    pub fn get_last_update(&self) -> (last: Option<Timestamp>)
        ensures
            last == self@.last_update,
    {
        self.last_update
    }

    /// Puts `now` on record as the time of the last rotation.
    pub fn set_last_update(&mut self, now: Timestamp)
        ensures
            final(self)@.rows == old(self)@.rows,
            final(self)@.last_update == Some(now),
            final(self)@.last_used == old(self)@.last_used,
            old(self).wf() ==> final(self).wf(),
    {
        self.last_update = Some(now);
    }

    /// Puts the machine's current local time on record as the time of the
    /// last rotation.
    pub fn update_last_run(&mut self)
        ensures
            final(self)@.rows == old(self)@.rows,
            final(self)@.last_update matches Some(now) && now.wf(),
            final(self)@.last_used == old(self)@.last_used,
            old(self).wf() ==> final(self).wf(),
    {
        let now = local_now();
        self.set_last_update(now);
    }

    /// Puts the wallpaper's id on record as the one shown last.
    pub fn set_last_used(&mut self, wallpaper: &Wallpaper)
        ensures
            final(self)@.rows == old(self)@.rows,
            final(self)@.last_update == old(self)@.last_update,
            final(self)@.last_used == Some(wallpaper.id@),
            old(self).wf() ==> final(self).wf(),
    {
        self.last_used = Some(wallpaper.id.clone());
    }

    /// Records a rotation in one step: `now` as its time and the wallpaper's
    /// id as the one shown.
    pub fn record_rotation(&mut self, wallpaper: &Wallpaper, now: Timestamp)
        ensures
            final(self)@.rows == old(self)@.rows,
            final(self)@.last_update == Some(now),
            final(self)@.last_used == Some(wallpaper.id@),
            old(self).wf() ==> final(self).wf(),
    {
        self.last_used = Some(wallpaper.id.clone());
        self.last_update = Some(now);
    }

    /// The record of the last rotation: nothing until a wallpaper has been
    /// put on record as shown.
    pub fn get_meta(&self) -> (meta: Option<MetaData>)
        ensures
            match meta {
                Some(meta) => self@.last_used == Some(meta.last_used@) && meta.last_update
                    == self@.last_update,
                None => self@.last_used is None,
            },
    {
        match &self.last_used {
            Some(id) => Some(MetaData { last_update: self.last_update, last_used: id.clone() }),
            None => None,
        }
    }

    /// The row that carries `id`, if there is one.
    pub fn get_wallpaper(&self, id: &str) -> (row: Option<DatabaseWallpaper>)
        requires
            self.wf(),
        ensures
            match row {
                Some(row) => lookup(self@.rows, id@) == Some(row@),
                None => lookup(self@.rows, id@) is None,
            },
    {
        let id = id.to_owned();
        match self.position(&id) {
            Some(i) => Some(self.rows[i].clone()),
            None => None,
        }
    }
}

} // verus!
