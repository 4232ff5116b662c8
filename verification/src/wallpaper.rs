//! Wallpapers and the manager that rotates them.

use crate::backends::WallpaperBackend;
use crate::backends::WallpaperBackendError;
use crate::config::Config;
use crate::content_managers::git::spec_temp_file;
use crate::content_managers::git::GitContentManager;
use crate::content_managers::git::GitTempRepo;
use crate::content_managers::local::spec_local_path;
use crate::content_managers::local::LocalContentManager;
use crate::content_managers::ContentManagerTypes;
use crate::random::random_index;
use crate::retry::spec_verdict;
use crate::retry::verdict;
use crate::retry::Verdict;
use crate::schedule::due;
use crate::schedule::local_now;
use crate::schedule::spec_due;
use crate::schedule::Timestamp;
use crate::store::all_unseen;
use crate::store::has_id;
use crate::store::ids_unique;
use crate::store::kinds_known;
use crate::store::lookup;
use crate::store::marked_seen;
use crate::store::rows_view;
use crate::store::unseen;
use crate::store::upserted;
use crate::store::DatabaseWallpaper;
use crate::store::Store;
use crate::store::StoreView;
use crate::store::WallpaperRow;
use crate::text::texts;
use vstd::prelude::*;
use vstd::std_specs::convert::TryFromSpecImpl;

verus! {

/// One candidate wallpaper: an id that its source understands, and the kind
/// of that source.
pub struct Wallpaper {
    pub id: String,
    pub type_id: ContentManagerTypes,
}

/// What a [`Wallpaper`] is, as plain values.
pub struct WallpaperView {
    pub id: Seq<char>,
    pub type_id: ContentManagerTypes,
}

impl View for Wallpaper {
    type V = WallpaperView;

    open spec fn view(&self) -> WallpaperView {
        WallpaperView { id: self.id@, type_id: self.type_id }
    }
}

impl Wallpaper {
    /// A wallpaper with the given id, listed by a source of the given kind.
    pub fn new(id: String, type_id: ContentManagerTypes) -> (wallpaper: Wallpaper)
        ensures
            wallpaper.id == id,
            wallpaper.type_id == type_id,
            wallpaper@ == (WallpaperView { id: id@, type_id }),
    {
        Wallpaper { id, type_id }
    }

    /// The parts of the path under which the wallpaper's file lies, first to
    /// last. A local wallpaper lies in the configured directory, whose size
    /// as the file system reports it is `directory_size`; a wallpaper of a
    /// repository lies in the scratch checkout that holds it.
    pub fn get_wallpaper_path(
        &self,
        config: &Config,
        directory_size: Option<u64>,
        checkout: Option<&GitTempRepo>,
    ) -> (parts: Result<Vec<String>, ()>)
        ensures
            match parts {
                Ok(parts) => spec_wallpaper_path(self@, config, directory_size, checkout) == Some(
                    texts(parts@),
                ),
                Err(_) => spec_wallpaper_path(self@, config, directory_size, checkout) is None,
            },
    {
        match self.type_id {
            ContentManagerTypes::Local => {
                LocalContentManager::new(config).wallpaper_path(self.id.as_str(), directory_size)
            },
            ContentManagerTypes::Git => match checkout {
                Some(repo) => GitContentManager::new(config).get_temp_file(repo, self.id.as_str()),
                None => Err(()),
            },
        }
    }
}

/// The parts of the path under which a wallpaper's file lies. There is none
/// for a local wallpaper whose directory could not be examined or is reported
/// with a size of zero, and none for a wallpaper of a repository where no
/// scratch checkout holds it or no path in the repository is configured.
pub open spec fn spec_wallpaper_path(
    wallpaper: WallpaperView,
    config: &Config,
    directory_size: Option<u64>,
    checkout: Option<&GitTempRepo>,
) -> Option<Seq<Seq<char>>> {
    match wallpaper.type_id {
        ContentManagerTypes::Local => spec_local_path(
            config.file_config.local.location@,
            wallpaper.id,
            directory_size,
        ),
        ContentManagerTypes::Git => match (checkout, config.file_config.git.path) {
            (Some(repo), Some(path)) => Some(
                spec_temp_file(texts(repo.path@), path@, wallpaper.id),
            ),
            _ => None,
        },
    }
}

/// The wallpaper that a row stands for, if the row names a kind of source
/// that exists.
pub open spec fn wallpaper_of(row: WallpaperRow) -> Option<WallpaperView> {
    match ContentManagerTypes::spec_from_id(row.manager_id) {
        Some(type_id) => Some(WallpaperView { id: row.id, type_id }),
        None => None,
    }
}

impl TryFrom<DatabaseWallpaper> for Wallpaper {
    type Error = ();

    /// The wallpaper that a row stands for. A row that names no kind of
    /// source that exists is refused: it was not written by this library.
    fn try_from(row: DatabaseWallpaper) -> (r: Result<Self, Self::Error>)
    {
        match ContentManagerTypes::try_from(row.manager_id) {
            Ok(type_id) => Ok(Wallpaper { id: row.id, type_id }),
            Err(_) => Err(()),
        }
    }
}

impl TryFromSpecImpl<DatabaseWallpaper> for Wallpaper {
    open spec fn obeys_try_from_spec() -> bool {
        true
    }

    open spec fn try_from_spec(row: DatabaseWallpaper) -> Result<Self, Self::Error> {
        match ContentManagerTypes::spec_from_id(row.manager_id) {
            Some(type_id) => Ok(Wallpaper { id: row.id, type_id }),
            None => Err(()),
        }
    }
}

/// Why listing the wallpapers of a source failed.
#[derive(Debug)]
pub enum WallpaperContentManagerError {
    Failure,
}

/// Why the manager could not take over the wallpapers of a source.
#[derive(Debug)]
pub enum WallpapersMangerError {
    DatabaseInsertError,
    GetWallpaperError,
}

/// A source of candidate wallpapers. The rotation engine promises nothing
/// about what an implementation lists.
pub trait WallpaperContentManager {
    /// Lists the wallpapers that the source offers now.
    fn get_wallpapers(&self) -> Result<Vec<Wallpaper>, WallpaperContentManagerError>;
}

/// A source of either kind.
pub enum ContentManager {
    Git(GitContentManager),
    Local(LocalContentManager),
}

impl ContentManager {
    /// The kind of the source.
    pub open spec fn spec_kind(&self) -> ContentManagerTypes {
        match self {
            ContentManager::Git(_) => ContentManagerTypes::Git,
            ContentManager::Local(_) => ContentManagerTypes::Local,
        }
    }

    /// The kind of the source.
    pub fn kind(&self) -> (kind: ContentManagerTypes)
        ensures
            kind == self.spec_kind(),
    {
        match self {
            ContentManager::Git(_) => ContentManagerTypes::Git,
            ContentManager::Local(_) => ContentManagerTypes::Local,
        }
    }
}

/// The source that the configuration asks for.
pub fn get_content_manager(config: &Config) -> (manager: ContentManager)
    ensures
        manager.spec_kind() == config.file_config.content_manager_type,
        match manager {
            ContentManager::Git(git) => git.data_dir() == config.data_dir@ && git.url()
                == config.file_config.git.url@,
            ContentManager::Local(local) => local.location() == config.file_config.local.location@,
        },
{
    match config.file_config.content_manager_type {
        ContentManagerTypes::Git => ContentManager::Git(GitContentManager::new(config)),
        ContentManagerTypes::Local => ContentManager::Local(LocalContentManager::new(config)),
    }
}

/// The wallpapers of a vector, each as plain values.
pub open spec fn wallpapers_view(wallpapers: Seq<Wallpaper>) -> Seq<WallpaperView> {
    wallpapers.map_values(|wallpaper: Wallpaper| wallpaper@)
}

/// The rows after every listed wallpaper was upserted, first to last.
pub open spec fn upserted_all(rows: Seq<WallpaperRow>, listed: Seq<WallpaperView>) -> Seq<
    WallpaperRow,
>
    decreases listed.len(),
{
    if listed.len() == 0 {
        rows
    } else {
        upserted(
            upserted_all(rows, listed.drop_last()),
            listed.last().id,
            listed.last().type_id.spec_id(),
        )
    }
}

/// The rows among which the next wallpaper is drawn: the unseen ones, or,
/// when the cycle is exhausted, all of them.
pub open spec fn eligible(rows: Seq<WallpaperRow>) -> Seq<WallpaperRow> {
    if unseen(rows).len() > 0 {
        unseen(rows)
    } else {
        all_unseen(rows)
    }
}

/// The rows once the candidates have been read: as they were, or, when the
/// cycle was exhausted, all marked as unseen.
pub open spec fn refreshed(rows: Seq<WallpaperRow>) -> Seq<WallpaperRow> {
    if unseen(rows).len() > 0 {
        rows
    } else {
        all_unseen(rows)
    }
}

/// The wallpaper drawn with `pick` from the candidates: none where `pick`
/// points past them.
pub open spec fn drawn(candidates: Seq<WallpaperRow>, pick: int) -> Option<WallpaperView> {
    if 0 <= pick < candidates.len() {
        wallpaper_of(candidates[pick])
    } else {
        None
    }
}

/// Draws the wallpaper at `pick` from the candidates.
pub fn choose_from(candidates: &Vec<DatabaseWallpaper>, pick: usize) -> (chosen: Option<Wallpaper>)
    requires
        kinds_known(rows_view(candidates@)),
    ensures
        match chosen {
            Some(wallpaper) => drawn(rows_view(candidates@), pick as int) == Some(wallpaper@),
            None => drawn(rows_view(candidates@), pick as int) is None,
        },
        chosen is Some <==> pick < candidates.len(),
{
    if pick < candidates.len() {
        assert(ContentManagerTypes::known_id(rows_view(candidates@)[pick as int].manager_id));
        match Wallpaper::try_from(candidates[pick].clone()) {
            Ok(wallpaper) => Some(wallpaper),
            Err(_) => None,
        }
    } else {
        None
    }
}

/// An attempt to show one wallpaper: which one, how many attempts have
/// failed before, and whether success counts as a rotation.
pub struct Attempt {
    wallpaper: Wallpaper,
    failures: u32,
    rotation: bool,
}

/// An [`Attempt`] as plain values.
pub struct AttemptView {
    pub wallpaper: WallpaperView,
    pub failures: u32,
    pub rotation: bool,
}

impl View for Attempt {
    type V = AttemptView;

    closed spec fn view(&self) -> AttemptView {
        AttemptView {
            wallpaper: self.wallpaper@,
            failures: self.failures,
            rotation: self.rotation,
        }
    }
}

impl Attempt {
    /// The wallpaper that the attempt is to show.
    pub fn wallpaper(&self) -> (wallpaper: &Wallpaper)
        ensures
            wallpaper@ == self@.wallpaper,
    {
        &self.wallpaper
    }

    /// How many attempts to show it have failed so far.
    pub fn failures(&self) -> (failures: u32)
        ensures
            failures == self@.failures,
    {
        self.failures
    }

    /// Whether success will be recorded as a rotation. It is not where the
    /// wallpaper shown last is only shown again.
    pub fn is_rotation(&self) -> (rotation: bool)
        ensures
            rotation == self@.rotation,
    {
        self.rotation
    }
}

/// What the driver of the engine has to do next.
pub enum Step {
    /// Nothing: no rotation was due, or there is nothing to show.
    Idle,
    /// Nothing: the wallpaper is on the desktop.
    Done,
    /// Wait for the given number of seconds, then hand the attempt back to
    /// [`WallpapersManager::retry`].
    Retry { delay_seconds: u64, attempt: Attempt },
    /// Give up: the backend has failed for the last time.
    Fatal,
}

/// A [`Step`] as plain values.
pub enum StepView {
    Idle,
    Done,
    Retry { delay_seconds: u64, attempt: AttemptView },
    Fatal,
}

impl View for Step {
    type V = StepView;

    open spec fn view(&self) -> StepView {
        match *self {
            Step::Idle => StepView::Idle,
            Step::Done => StepView::Done,
            Step::Retry { delay_seconds, attempt } => StepView::Retry {
                delay_seconds,
                attempt: attempt@,
            },
            Step::Fatal => StepView::Fatal,
        }
    }
}

/// The step that follows an attempt, given whether the backend showed the
/// wallpaper.
pub open spec fn concluded_step(attempt: AttemptView, applied: bool) -> StepView {
    match spec_verdict(attempt.failures, applied) {
        Verdict::Applied => StepView::Done,
        Verdict::RetryAfter(delay_seconds) => StepView::Retry {
            delay_seconds,
            attempt: AttemptView {
                wallpaper: attempt.wallpaper,
                failures: (attempt.failures + 1) as u32,
                rotation: attempt.rotation,
            },
        },
        Verdict::Fatal => StepView::Fatal,
    }
}

/// The store after an attempt, given whether the backend showed the
/// wallpaper: a rotation that succeeded marks its wallpaper as seen and puts
/// it on record with the time; anything else leaves the store as it was.
pub open spec fn concluded_store(
    store: StoreView,
    attempt: AttemptView,
    applied: bool,
    now: Timestamp,
) -> StoreView {
    if applied && attempt.rotation {
        StoreView {
            rows: marked_seen(store.rows, attempt.wallpaper.id),
            last_update: Some(now),
            last_used: Some(attempt.wallpaper.id),
        }
    } else {
        store
    }
}

/// Whether the record of the last rotation, if there is one, names a
/// wallpaper that the store knows.
pub open spec fn meta_consistent(store: StoreView) -> bool {
    match store.last_used {
        Some(id) => has_id(store.rows, id),
        None => true,
    }
}

/// Rows that were all marked as unseen are all unseen.
pub proof fn lemma_all_unseen_is_unseen(rows: Seq<WallpaperRow>)
    ensures
        unseen(all_unseen(rows)) == all_unseen(rows),
        all_unseen(rows).len() == rows.len(),
    decreases rows.len(),
{
    reveal(Seq::filter);
    let fresh = all_unseen(rows);
    if rows.len() > 0 {
        lemma_all_unseen_is_unseen(rows.drop_last());
        assert(fresh.drop_last() =~= all_unseen(rows.drop_last()));
        assert(unseen(fresh) =~= fresh);
    } else {
        assert(unseen(fresh) =~= fresh);
    }
}

/// Every unseen row is a row of the table, so what holds of every row holds
/// of the unseen ones.
pub proof fn lemma_unseen_within(rows: Seq<WallpaperRow>)
    ensures
        forall|k: int|
            0 <= k < unseen(rows).len() ==> rows.contains(#[trigger] unseen(rows)[k]) && !unseen(
                rows,
            )[k].seen,
        kinds_known(rows) ==> kinds_known(unseen(rows)),
{
    let pred = |row: WallpaperRow| !row.seen;
    assert forall|k: int| 0 <= k < unseen(rows).len() implies rows.contains(
        #[trigger] unseen(rows)[k],
    ) && !unseen(rows)[k].seen by {
        rows.lemma_filter_pred(pred, k);
        assert(rows.filter(pred).contains(unseen(rows)[k]));
        rows.lemma_filter_contains_rev(pred, unseen(rows)[k]);
    }
    if kinds_known(rows) {
        assert forall|k: int| 0 <= k < unseen(rows).len() implies ContentManagerTypes::known_id(
            (#[trigger] unseen(rows)[k]).manager_id,
        ) by {
            let row = unseen(rows)[k];
            assert(rows.contains(row));
            let i = choose|i: int| 0 <= i < rows.len() && rows[i] == row;
            assert(ContentManagerTypes::known_id(rows[i].manager_id));
        }
    }
}

/// The store once the candidates have been read.
pub open spec fn refreshed_store(store: StoreView) -> StoreView {
    StoreView {
        rows: refreshed(store.rows),
        last_update: store.last_update,
        last_used: store.last_used,
    }
}

/// The first attempt of a rotation that drew `pick` from the candidates.
pub open spec fn rotation_attempt(rows: Seq<WallpaperRow>, pick: int) -> Option<AttemptView> {
    match drawn(eligible(rows), pick) {
        Some(wallpaper) => Some(AttemptView { wallpaper, failures: 0, rotation: true }),
        None => None,
    }
}

/// The attempt that shows the last wallpaper again, if one is on record and
/// the store knows it.
pub open spec fn restore_attempt(store: StoreView) -> Option<AttemptView> {
    match store.last_used {
        Some(id) => match lookup(store.rows, id) {
            Some(row) => match wallpaper_of(row) {
                Some(wallpaper) => Some(AttemptView { wallpaper, failures: 0, rotation: false }),
                None => None,
            },
            None => None,
        },
        None => None,
    }
}

/// The store and the step after a rotation that drew `pick` from the
/// candidates and whose first attempt the backend answered with `applied`.
pub open spec fn rotated(store: StoreView, pick: int, applied: bool, now: Timestamp) -> (
    StoreView,
    StepView,
) {
    match rotation_attempt(store.rows, pick) {
        Some(attempt) => (
            concluded_store(refreshed_store(store), attempt, applied, now),
            concluded_step(attempt, applied),
        ),
        None => (refreshed_store(store), StepView::Idle),
    }
}

/// Whether a tick at `now` leads from the store `before` to the store `after`
/// and the step `step`: where a rotation is due it is a rotation, with some
/// draw among the candidates and some answer of the backend; where none is
/// due the store stays as it is and there is nothing to do.
pub open spec fn ticked_at(
    before: StoreView,
    interval: u32,
    now: Timestamp,
    after: StoreView,
    step: StepView,
) -> bool {
    if spec_due(interval, before.last_update, now) {
        exists|pick: int, applied: bool|
            (after, step) == #[trigger] rotated(before, pick, applied, now) && (0 <= pick
                < eligible(before.rows).len() || before.rows.len() == 0)
    } else {
        step is Idle && after == before
    }
}

/// The row found under an id is a row of the table and carries that id.
pub proof fn lemma_lookup_within(rows: Seq<WallpaperRow>, id: Seq<char>)
    ensures
        lookup(rows, id) matches Some(row) ==> rows.contains(row) && row.id == id,
        lookup(rows, id) is Some <==> has_id(rows, id),
        kinds_known(rows) ==> (lookup(rows, id) matches Some(row) ==> wallpaper_of(row) is Some),
{
    if has_id(rows, id) {
        let i = choose|i: int| 0 <= i < rows.len() && (#[trigger] rows[i]).id == id;
        assert(rows.contains(rows[i]));
        if kinds_known(rows) {
            assert(ContentManagerTypes::known_id(rows[i].manager_id));
        }
    }
}

/// The rotation engine: it owns the store, and the backend through which
/// wallpapers are shown.
pub struct WallpapersManager<B: WallpaperBackend> {
    store: Store,
    backend: B,
}

impl<B: WallpaperBackend> WallpapersManager<B> {
    /// What the manager's store holds.
    pub closed spec fn store_view(&self) -> StoreView {
        self.store@
    }

    /// The manager's invariant: its store is well formed.
    pub closed spec fn wf(&self) -> bool {
        self.store.wf()
    }

    /// The invariant, over what the store holds.
    pub proof fn lemma_wf(&self)
        ensures
            self.wf() <==> ids_unique(self.store_view().rows) && kinds_known(
                self.store_view().rows,
            ),
    {
    }

    /// A manager over the given store and backend.
    pub fn new(store: Store, backend: B) -> (manager: WallpapersManager<B>)
        requires
            store.wf(),
        ensures
            manager.wf(),
            manager.store_view() == store@,
    {
        WallpapersManager { store, backend }
    }

    /// The store, to read from.
    pub fn store(&self) -> (store: &Store)
        ensures
            store@ == self.store_view(),
            self.wf() ==> store.wf(),
    {
        &self.store
    }

    /// Gives the store back.
    pub fn into_store(self) -> (store: Store)
        ensures
            store@ == self.store_view(),
            self.wf() ==> store.wf(),
    {
        self.store
    }

    /// Takes over what a source has listed: every wallpaper is upserted,
    /// first to last. A listing that failed changes nothing and is reported.
    pub fn store_listed(
        &mut self,
        listed: Result<Vec<Wallpaper>, WallpaperContentManagerError>,
    ) -> (r: Result<(), WallpapersMangerError>)
        requires
            old(self).wf(),
        ensures
            final(self).wf(),
            final(self).store_view().last_update == old(self).store_view().last_update,
            final(self).store_view().last_used == old(self).store_view().last_used,
            match listed {
                Ok(wallpapers) => r is Ok && final(self).store_view().rows == upserted_all(
                    old(self).store_view().rows,
                    wallpapers_view(wallpapers@),
                ),
                Err(_) => r == Err::<(), WallpapersMangerError>(
                    WallpapersMangerError::GetWallpaperError,
                ) && final(self).store_view() == old(self).store_view(),
            },
    {
        let wallpapers = match listed {
            Ok(wallpapers) => wallpapers,
            Err(_) => {
                return Err(WallpapersMangerError::GetWallpaperError);
            },
        };
        let ghost items = wallpapers_view(wallpapers@);
        let mut i: usize = 0;
        assert(items.take(0) =~= Seq::<WallpaperView>::empty());
        while i < wallpapers.len()
            invariant
                i <= wallpapers.len(),
                items == wallpapers_view(wallpapers@),
                self.wf(),
                self.store_view().last_update == old(self).store_view().last_update,
                self.store_view().last_used == old(self).store_view().last_used,
                self.store_view().rows == upserted_all(
                    old(self).store_view().rows,
                    items.take(i as int),
                ),
            decreases wallpapers.len() - i,
        {
            proof {
                assert(items.take(i + 1).drop_last() =~= items.take(i as int));
                assert(items.take(i + 1).last() == wallpapers@[i as int]@);
            }
            match self.store.insert_wallpaper(&wallpapers[i]) {
                Ok(_) => {},
                Err(_) => {
                    return Err(WallpapersMangerError::DatabaseInsertError);
                },
            }
            i += 1;
        }
        assert(items.take(i as int) =~= items);
        Ok(())
    }

    /// Asks the source for its wallpapers and takes them over. What the
    /// source lists is not known beforehand; whatever it is, rows are only
    /// added or given another kind of source, and the record of the last
    /// rotation is not touched.
    pub fn store_wallpapers<C: WallpaperContentManager>(&mut self, content_manager: &C) -> (r:
        Result<(), WallpapersMangerError>)
        requires
            old(self).wf(),
        ensures
            final(self).wf(),
            final(self).store_view().last_update == old(self).store_view().last_update,
            final(self).store_view().last_used == old(self).store_view().last_used,
            r is Ok ==> exists|listed: Seq<WallpaperView>|
                final(self).store_view().rows == #[trigger] upserted_all(
                    old(self).store_view().rows,
                    listed,
                ),
            r is Err ==> r == Err::<(), WallpapersMangerError>(
                WallpapersMangerError::GetWallpaperError,
            ) && final(self).store_view() == old(self).store_view(),
    {
        let listed = content_manager.get_wallpapers();
        self.store_listed(listed)
    }

    /// Reads the candidates for the next rotation: the unseen rows. When
    /// there are none the cycle is exhausted: every row is marked as unseen
    /// and all of them are candidates. No candidates are left only where the
    /// store holds nothing.
    pub fn candidates(&mut self) -> (rows: Vec<DatabaseWallpaper>)
        requires
            old(self).wf(),
        ensures
            final(self).wf(),
            rows_view(rows@) == eligible(old(self).store_view().rows),
            final(self).store_view().rows == refreshed(old(self).store_view().rows),
            final(self).store_view().last_update == old(self).store_view().last_update,
            final(self).store_view().last_used == old(self).store_view().last_used,
            rows.len() == 0 <==> old(self).store_view().rows.len() == 0,
            kinds_known(rows_view(rows@)),
    {
        let ghost before = self.store@.rows;
        let mut rows = self.store.get_unseen_wallpaperrs();
        if rows.len() == 0 {
            self.store.reset_seen_state();
            rows = self.store.get_unseen_wallpaperrs();
            proof {
                lemma_all_unseen_is_unseen(before);
            }
        }
        proof {
            lemma_unseen_within(self.store@.rows);
        }
        rows
    }

    /// Selects the wallpaper for the next rotation: one of the candidates,
    /// drawn at random. Nothing is selected only where the store holds
    /// nothing.
    pub fn select(&mut self) -> (selected: Option<Wallpaper>)
        requires
            old(self).wf(),
        ensures
            final(self).wf(),
            final(self).store_view().rows == refreshed(old(self).store_view().rows),
            final(self).store_view().last_update == old(self).store_view().last_update,
            final(self).store_view().last_used == old(self).store_view().last_used,
            selected is None <==> old(self).store_view().rows.len() == 0,
            selected matches Some(wallpaper) ==> exists|pick: int|
                0 <= pick < eligible(old(self).store_view().rows).len() && #[trigger] drawn(
                    eligible(old(self).store_view().rows),
                    pick,
                ) == Some(wallpaper@),
    {
        let rows = self.candidates();
        if rows.len() == 0 {
            return None;
        }
        let mut generator = rand::rng();
        let pick = random_index(&mut generator, rows.len());
        choose_from(&rows, pick)
    }

    /// Prepares the next rotation: selects a wallpaper and makes the attempt
    /// that is to show it. Nothing is prepared only where the store holds
    /// nothing.
    pub fn next_attempt(&mut self) -> (prepared: Option<Attempt>)
        requires
            old(self).wf(),
        ensures
            final(self).wf(),
            final(self).store_view() == refreshed_store(old(self).store_view()),
            prepared is None <==> old(self).store_view().rows.len() == 0,
            prepared matches Some(attempt) ==> exists|pick: int|
                0 <= pick < eligible(old(self).store_view().rows).len()
                    && #[trigger] rotation_attempt(old(self).store_view().rows, pick) == Some(
                    attempt@,
                ),
    {
        let ghost before = self.store_view().rows;
        match self.select() {
            Some(wallpaper) => {
                let attempt = Attempt { wallpaper, failures: 0, rotation: true };
                proof {
                    let pick = choose|pick: int|
                        0 <= pick < eligible(before).len() && #[trigger] drawn(
                            eligible(before),
                            pick,
                        ) == Some(attempt@.wallpaper);
                    assert(rotation_attempt(before, pick) == Some(attempt@));
                }
                Some(attempt)
            },
            None => None,
        }
    }

    /// Prepares showing again the wallpaper that was shown last: the attempt
    /// for it, if one is on record and the store still knows it.
    pub fn last_attempt(&self) -> (prepared: Option<Attempt>)
        requires
            self.wf(),
        ensures
            match prepared {
                Some(attempt) => restore_attempt(self.store_view()) == Some(attempt@),
                None => restore_attempt(self.store_view()) is None,
            },
    {
        let meta = match self.store.get_meta() {
            Some(meta) => meta,
            None => {
                return None;
            },
        };
        let row = match self.store.get_wallpaper(meta.last_used.as_str()) {
            Some(row) => row,
            None => {
                return None;
            },
        };
        proof {
            lemma_lookup_within(self.store@.rows, meta.last_used@);
        }
        match Wallpaper::try_from(row) {
            Ok(wallpaper) => Some(Attempt { wallpaper, failures: 0, rotation: false }),
            Err(_) => None,
        }
    }

    /// Acts on the outcome of an attempt. Success ends it: a rotation is
    /// marked as seen and put on record with `now`, in that order; showing
    /// the last wallpaper again leaves the store alone. Failure leaves the
    /// store alone too, and asks for another attempt after the delay, or,
    /// when this was the last attempt allowed, for giving up.
    pub fn conclude(
        &mut self,
        attempt: Attempt,
        outcome: Result<(), WallpaperBackendError>,
        now: Timestamp,
    ) -> (step: Step)
        requires
            old(self).wf(),
        ensures
            final(self).wf(),
            final(self).store_view() == concluded_store(
                old(self).store_view(),
                attempt@,
                outcome is Ok,
                now,
            ),
            step@ == concluded_step(attempt@, outcome is Ok),
    {
        match verdict(attempt.failures, &outcome) {
            Verdict::Applied => {
                if attempt.rotation {
                    let _ = self.store.mark_as_seen(&attempt.wallpaper);
                    self.store.record_rotation(&attempt.wallpaper, now);
                }
                Step::Done
            },
            Verdict::RetryAfter(delay_seconds) => Step::Retry {
                delay_seconds,
                attempt: Attempt {
                    wallpaper: attempt.wallpaper,
                    failures: attempt.failures + 1,
                    rotation: attempt.rotation,
                },
            },
            Verdict::Fatal => Step::Fatal,
        }
    }

    /// Makes the attempt: hands the wallpaper to the backend once and acts
    /// on what it answers, as [`Self::conclude`] says for either answer.
    pub fn apply_at(&mut self, attempt: Attempt, now: Timestamp) -> (step: Step)
        requires
            old(self).wf(),
        ensures
            final(self).wf(),
            exists|applied: bool|
                final(self).store_view() == #[trigger] concluded_store(
                    old(self).store_view(),
                    attempt@,
                    applied,
                    now,
                ) && step@ == concluded_step(attempt@, applied),
            step@ !is Idle,
    {
        let outcome = self.backend.set_wallpaper(&attempt.wallpaper);
        self.conclude(attempt, outcome, now)
    }

    /// Makes the attempt that a [`Step::Retry`] handed out, once its delay
    /// has passed. A rotation that succeeds is put on record with the
    /// machine's current local time.
    pub fn retry(&mut self, attempt: Attempt) -> (step: Step)
        requires
            old(self).wf(),
        ensures
            final(self).wf(),
            exists|applied: bool, now: Timestamp|
                now.wf() && final(self).store_view() == #[trigger] concluded_store(
                    old(self).store_view(),
                    attempt@,
                    applied,
                    now,
                ) && step@ == concluded_step(attempt@, applied),
            step@ !is Idle,
    {
        let now = local_now();
        self.apply_at(attempt, now)
    }

    /// Rotates at `now` if a rotation is due: selects a wallpaper and makes
    /// the first attempt to show it. Where none is due, or the store holds
    /// nothing, there is nothing to do, which is no error.
    pub fn tick_at(&mut self, interval: u32, now: Timestamp) -> (step: Step)
        requires
            old(self).wf(),
            interval > 0,
        ensures
            final(self).wf(),
            !spec_due(interval, old(self).store_view().last_update, now) ==> step@ is Idle
                && final(self).store_view() == old(self).store_view(),
            spec_due(interval, old(self).store_view().last_update, now) ==> exists|
                pick: int,
                applied: bool,
            |
                (final(self).store_view(), step@) == #[trigger] rotated(
                    old(self).store_view(),
                    pick,
                    applied,
                    now,
                ) && (0 <= pick < eligible(old(self).store_view().rows).len() || old(
                    self,
                ).store_view().rows.len() == 0),
            ticked_at(old(self).store_view(), interval, now, final(self).store_view(), step@),
            spec_due(interval, old(self).store_view().last_update, now) ==> (step@ is Idle <==> old(
                self,
            ).store_view().rows.len() == 0),
    {
        if !due(interval, self.store.get_last_update(), now) {
            return Step::Idle;
        }
        self.rotate_at(now)
    }

    /// Rotates at `now`, due or not: selects a wallpaper and makes the first
    /// attempt to show it.
    pub fn rotate_at(&mut self, now: Timestamp) -> (step: Step)
        requires
            old(self).wf(),
        ensures
            final(self).wf(),
            exists|pick: int, applied: bool|
                (final(self).store_view(), step@) == #[trigger] rotated(
                    old(self).store_view(),
                    pick,
                    applied,
                    now,
                ) && (0 <= pick < eligible(old(self).store_view().rows).len() || old(
                    self,
                ).store_view().rows.len() == 0),
            step@ is Idle <==> old(self).store_view().rows.len() == 0,
    {
        let ghost before = self.store_view();
        match self.next_attempt() {
            Some(attempt) => {
                let ghost first = attempt@;
                let ghost fresh = self.store_view();
                let step = self.apply_at(attempt, now);
                proof {
                    let pick = choose|pick: int|
                        0 <= pick < eligible(before.rows).len() && #[trigger] rotation_attempt(
                            before.rows,
                            pick,
                        ) == Some(first);
                    let applied = choose|applied: bool|
                        self.store_view() == #[trigger] concluded_store(fresh, first, applied, now)
                            && step@ == concluded_step(first, applied);
                    assert((self.store_view(), step@) == rotated(before, pick, applied, now));
                }
                step
            },
            None => {
                proof {
                    assert((self.store_view(), StepView::Idle) == rotated(before, 0, true, now));
                }
                Step::Idle
            },
        }
    }

    /// Rotates if the machine's local clock says that a rotation is due: the
    /// clock is read once, and what follows is what [`Self::tick_at`] does at
    /// that instant. With no rotation on record one is due at every instant,
    /// so the tick rotates, and there is nothing to do only where the store
    /// holds nothing.
    pub fn tick(&mut self, interval: u32) -> (step: Step)
        requires
            old(self).wf(),
            interval > 0,
        ensures
            final(self).wf(),
            exists|now: Timestamp|
                now.wf() && #[trigger] ticked_at(
                    old(self).store_view(),
                    interval,
                    now,
                    final(self).store_view(),
                    step@,
                ),
            old(self).store_view().last_update is None ==> (step@ is Idle <==> old(
                self,
            ).store_view().rows.len() == 0),
    {
        let now = local_now();
        self.tick_at(interval, now)
    }

    /// Selects the next wallpaper and makes the first attempt to show it. A
    /// rotation that succeeds is put on record with the machine's current
    /// local time.
    pub fn set_next_wallpaper(&mut self) -> (step: Step)
        requires
            old(self).wf(),
        ensures
            final(self).wf(),
            exists|pick: int, applied: bool, now: Timestamp|
                now.wf() && (final(self).store_view(), step@) == #[trigger] rotated(
                    old(self).store_view(),
                    pick,
                    applied,
                    now,
                ) && (0 <= pick < eligible(old(self).store_view().rows).len() || old(
                    self,
                ).store_view().rows.len() == 0),
            step@ is Idle <==> old(self).store_view().rows.len() == 0,
    {
        let now = local_now();
        self.rotate_at(now)
    }

    /// Makes the first attempt to show again the wallpaper that was shown
    /// last. The store is left as it is: this consumes no rotation.
    pub fn set_last_wallpaper(&mut self) -> (step: Step)
        requires
            old(self).wf(),
        ensures
            final(self).wf(),
            final(self).store_view() == old(self).store_view(),
            match restore_attempt(old(self).store_view()) {
                Some(attempt) => exists|applied: bool|
                    step@ == #[trigger] concluded_step(attempt, applied),
                None => step@ is Idle,
            },
    {
        match self.last_attempt() {
            Some(attempt) => {
                let now = local_now();
                self.apply_at(attempt, now)
            },
            None => Step::Idle,
        }
    }

    /// What the engine does when it starts, at `now`: where no rotation is
    /// due it shows the last wallpaper again, as [`Self::set_last_wallpaper`]
    /// does; where one is due it does nothing, since the next tick rotates.
    pub fn startup_at(&mut self, interval: u32, now: Timestamp) -> (step: Step)
        requires
            old(self).wf(),
            interval > 0,
        ensures
            final(self).wf(),
            final(self).store_view() == old(self).store_view(),
            spec_due(interval, old(self).store_view().last_update, now) ==> step@ is Idle,
            !spec_due(interval, old(self).store_view().last_update, now) ==> match restore_attempt(
                old(self).store_view(),
            ) {
                Some(attempt) => exists|applied: bool|
                    step@ == #[trigger] concluded_step(attempt, applied),
                None => step@ is Idle,
            },
    {
        if due(interval, self.store.get_last_update(), now) {
            return Step::Idle;
        }
        self.set_last_wallpaper()
    }
}

} // verus!
