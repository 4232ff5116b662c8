use mirai::backends::WallpaperBackend;
use mirai::backends::WallpaperBackendError;
use mirai::content_managers::ContentManagerTypes;
use mirai::schedule::due;
use mirai::schedule::Timestamp;
use mirai::store::DatabaseWallpaper;
use mirai::store::Store;
use mirai::wallpaper::choose_from;
use mirai::wallpaper::Step;
use mirai::wallpaper::Wallpaper;
use mirai::wallpaper::WallpaperContentManager;
use mirai::wallpaper::WallpaperContentManagerError;
use mirai::wallpaper::WallpapersManager;
use mirai::wallpaper::WallpapersMangerError;
use std::cell::Cell;
use std::cell::RefCell;
use std::collections::BTreeSet;
use std::rc::Rc;

/// A backend that fails its first `failing` calls and keeps count of all.
struct Scripted {
    failing: u32,
    calls: Rc<Cell<u32>>,
    shown: Rc<RefCell<Vec<String>>>,
}

impl Scripted {
    fn new(failing: u32) -> (Scripted, Rc<Cell<u32>>, Rc<RefCell<Vec<String>>>) {
        let calls = Rc::new(Cell::new(0));
        let shown = Rc::new(RefCell::new(Vec::new()));
        (Scripted { failing, calls: calls.clone(), shown: shown.clone() }, calls, shown)
    }
}

impl WallpaperBackend for Scripted {
    fn set_wallpaper(&self, wallpaper: &Wallpaper) -> Result<(), WallpaperBackendError> {
        let call = self.calls.get() + 1;
        self.calls.set(call);
        if call <= self.failing {
            Err(WallpaperBackendError::ChangeFailure)
        } else {
            self.shown.borrow_mut().push(wallpaper.id.clone());
            Ok(())
        }
    }

    fn is_ready(&self) -> bool {
        true
    }
}

struct Listing(Result<Vec<&'static str>, ()>);

impl WallpaperContentManager for Listing {
    fn get_wallpapers(&self) -> Result<Vec<Wallpaper>, WallpaperContentManagerError> {
        match &self.0 {
            Ok(ids) => Ok(ids
                .iter()
                .map(|id| Wallpaper::new(id.to_string(), ContentManagerTypes::Local))
                .collect()),
            Err(_) => Err(WallpaperContentManagerError::Failure),
        }
    }
}

fn store_of(ids: &[&str]) -> Store {
    let mut store = Store::new();
    for id in ids {
        store
            .insert_wallpaper(&Wallpaper::new(id.to_string(), ContentManagerTypes::Local))
            .unwrap();
    }
    store
}

fn unseen_ids(store: &Store) -> Vec<String> {
    store.get_unseen_wallpaperrs().into_iter().map(|row| row.id).collect()
}

const NOW: Timestamp = Timestamp { day: 739_000, second: 36_000, nano: 0 };

#[test]
fn daily_rotation_is_due_once() {
    let (backend, calls, shown) = Scripted::new(0);
    let mut manager = WallpapersManager::new(store_of(&["only"]), backend);
    assert!(due(1440, manager.store().get_last_update(), NOW));

    let step = manager.tick_at(1440, NOW);
    assert!(matches!(step, Step::Done));
    assert_eq!(calls.get(), 1);
    assert_eq!(*shown.borrow(), vec!["only".to_string()]);
    assert_eq!(manager.store().get_meta().unwrap().last_used, "only");
    assert_eq!(manager.store().get_last_update(), Some(NOW));

    assert!(!due(1440, manager.store().get_last_update(), NOW));
    let again = manager.tick_at(1440, NOW);
    assert!(matches!(again, Step::Idle));
    assert_eq!(calls.get(), 1);
}

#[test]
fn three_rotations_show_three_wallpapers_once_each() {
    let (backend, _, shown) = Scripted::new(0);
    let mut manager = WallpapersManager::new(store_of(&["a", "b", "c"]), backend);
    let mut picked = Vec::new();
    for turn in 0..3 {
        let step = manager.rotate_at(Timestamp::new(739_000 + turn, 0, 0));
        assert!(matches!(step, Step::Done));
        picked.push(manager.store().get_meta().unwrap().last_used);
    }
    let distinct: BTreeSet<String> = picked.iter().cloned().collect();
    let expected: BTreeSet<String> = ["a", "b", "c"].iter().map(|id| id.to_string()).collect();
    assert_eq!(picked.len(), 3);
    assert_eq!(distinct, expected);
    assert_eq!(*shown.borrow(), picked);
    assert!(unseen_ids(manager.store()).is_empty());
}

#[test]
fn no_wallpaper_repeats_within_a_cycle() {
    for _ in 0..20 {
        let ids: Vec<String> = (0..12).map(|i| format!("w{i}")).collect();
        let refs: Vec<&str> = ids.iter().map(|id| id.as_str()).collect();
        let (backend, _, shown) = Scripted::new(0);
        let mut manager = WallpapersManager::new(store_of(&refs), backend);
        for _ in 0..12 {
            assert!(matches!(manager.rotate_at(NOW), Step::Done));
        }
        let distinct: BTreeSet<String> = shown.borrow().iter().cloned().collect();
        assert_eq!(distinct.len(), 12);
    }
}

#[test]
fn an_exhausted_cycle_starts_again_from_all_wallpapers() {
    let (backend, _, shown) = Scripted::new(0);
    let mut manager = WallpapersManager::new(store_of(&["a", "b"]), backend);
    assert!(matches!(manager.rotate_at(NOW), Step::Done));
    assert!(matches!(manager.rotate_at(NOW), Step::Done));
    assert!(unseen_ids(manager.store()).is_empty());

    let selected = manager.select().expect("a wallpaper after the reset");
    assert!(selected.id == "a" || selected.id == "b");
    assert_eq!(unseen_ids(manager.store()), vec!["a", "b"]);

    assert!(matches!(manager.rotate_at(NOW), Step::Done));
    assert_eq!(unseen_ids(manager.store()).len(), 1);
    assert_eq!(shown.borrow().len(), 3);
}

#[test]
fn a_single_wallpaper_is_shown_every_time() {
    let (backend, _, shown) = Scripted::new(0);
    let mut manager = WallpapersManager::new(store_of(&["only"]), backend);
    for _ in 0..4 {
        assert!(matches!(manager.rotate_at(NOW), Step::Done));
    }
    assert_eq!(*shown.borrow(), vec!["only"; 4]);
}

#[test]
fn an_empty_store_selects_nothing_and_ticks_idle() {
    let (backend, calls, _) = Scripted::new(0);
    let mut manager = WallpapersManager::new(Store::new(), backend);
    assert!(manager.select().is_none());
    assert!(manager.candidates().is_empty());
    assert!(manager.next_attempt().is_none());
    assert!(matches!(manager.tick_at(1440, NOW), Step::Idle));
    assert!(matches!(manager.tick(1440), Step::Idle));
    assert!(matches!(manager.set_next_wallpaper(), Step::Idle));
    assert!(matches!(manager.set_last_wallpaper(), Step::Idle));
    assert_eq!(calls.get(), 0);
    assert!(manager.store().get_meta().is_none());
    assert!(manager.store().get_last_update().is_none());
}

#[test]
fn six_failures_are_fatal_and_leave_the_store_alone() {
    let (backend, calls, shown) = Scripted::new(u32::MAX);
    let mut manager = WallpapersManager::new(store_of(&["a", "b", "c"]), backend);
    let mut waited = Vec::new();
    let mut step = manager.tick_at(1440, NOW);
    loop {
        match step {
            Step::Retry { delay_seconds, attempt } => {
                waited.push(delay_seconds);
                assert_eq!(attempt.failures() as usize, waited.len());
                assert!(attempt.is_rotation());
                step = manager.retry(attempt);
            }
            Step::Fatal => break,
            Step::Done | Step::Idle => panic!("a failing backend cannot end well"),
        }
    }
    assert_eq!(calls.get(), 6);
    assert_eq!(waited, vec![5, 5, 5, 5, 5]);
    assert!(shown.borrow().is_empty());
    assert_eq!(unseen_ids(manager.store()), vec!["a", "b", "c"]);
    assert!(manager.store().get_meta().is_none());
    assert!(manager.store().get_last_update().is_none());
}

#[test]
fn a_retry_that_succeeds_records_the_rotation() {
    let (backend, calls, shown) = Scripted::new(5);
    let mut manager = WallpapersManager::new(store_of(&["a", "b"]), backend);
    let mut step = manager.rotate_at(NOW);
    let mut retries = 0;
    let mut wanted = None;
    while let Step::Retry { attempt, .. } = step {
        retries += 1;
        match &wanted {
            None => wanted = Some(attempt.wallpaper().id.clone()),
            Some(id) => assert_eq!(&attempt.wallpaper().id, id),
        }
        assert_eq!(unseen_ids(manager.store()).len(), 2);
        step = manager.apply_at(attempt, NOW);
    }
    assert!(matches!(step, Step::Done));
    assert_eq!(retries, 5);
    assert_eq!(calls.get(), 6);
    let wanted = wanted.unwrap();
    assert_eq!(*shown.borrow(), vec![wanted.clone()]);
    assert_eq!(manager.store().get_meta().unwrap().last_used, wanted);
    assert_eq!(manager.store().get_last_update(), Some(NOW));
    assert_eq!(unseen_ids(manager.store()).len(), 1);
    assert!(manager.store().have_seen(&Wallpaper::new(wanted, ContentManagerTypes::Local)));
}

#[test]
fn conclude_follows_the_outcome() {
    let (backend, calls, _) = Scripted::new(0);
    let mut manager = WallpapersManager::new(store_of(&["a"]), backend);
    let attempt = manager.next_attempt().unwrap();
    assert_eq!(attempt.failures(), 0);
    assert!(attempt.is_rotation());
    assert_eq!(attempt.wallpaper().id, "a");

    let step = manager.conclude(attempt, Err(WallpaperBackendError::ChangeFailure), NOW);
    let attempt = match step {
        Step::Retry { delay_seconds, attempt } => {
            assert_eq!(delay_seconds, 5);
            assert_eq!(attempt.failures(), 1);
            attempt
        }
        _ => panic!("one failure asks for a retry"),
    };
    assert_eq!(unseen_ids(manager.store()), vec!["a"]);
    assert!(manager.store().get_meta().is_none());

    let step = manager.conclude(attempt, Ok(()), NOW);
    assert!(matches!(step, Step::Done));
    assert!(unseen_ids(manager.store()).is_empty());
    assert_eq!(manager.store().get_meta().unwrap().last_used, "a");
    assert_eq!(manager.store().get_last_update(), Some(NOW));
    assert_eq!(calls.get(), 0);
}

#[test]
fn the_last_wallpaper_is_shown_again_without_a_rotation() {
    let mut store = store_of(&["a", "b"]);
    let a = Wallpaper::new("a".to_string(), ContentManagerTypes::Local);
    store.mark_as_seen(&a).unwrap();
    store.record_rotation(&a, NOW);
    let (backend, calls, shown) = Scripted::new(0);
    let mut manager = WallpapersManager::new(store, backend);

    let attempt = manager.last_attempt().unwrap();
    assert_eq!(attempt.wallpaper().id, "a");
    assert!(!attempt.is_rotation());
    assert_eq!(attempt.failures(), 0);

    assert!(matches!(manager.set_last_wallpaper(), Step::Done));
    assert_eq!(calls.get(), 1);
    assert_eq!(*shown.borrow(), vec!["a".to_string()]);
    assert_eq!(unseen_ids(manager.store()), vec!["b"]);
    assert_eq!(manager.store().get_last_update(), Some(NOW));
    assert_eq!(manager.store().get_meta().unwrap().last_used, "a");
}

#[test]
fn showing_the_last_wallpaper_again_is_retried_and_given_up_too() {
    let mut store = store_of(&["a"]);
    store.set_last_used(&Wallpaper::new("a".to_string(), ContentManagerTypes::Local));
    let (backend, calls, _) = Scripted::new(u32::MAX);
    let mut manager = WallpapersManager::new(store, backend);
    let mut step = manager.set_last_wallpaper();
    let mut retries = 0;
    while let Step::Retry { delay_seconds, attempt } = step {
        assert_eq!(delay_seconds, 5);
        assert!(!attempt.is_rotation());
        retries += 1;
        step = manager.retry(attempt);
    }
    assert!(matches!(step, Step::Fatal));
    assert_eq!(retries, 5);
    assert_eq!(calls.get(), 6);
    assert_eq!(unseen_ids(manager.store()), vec!["a"]);
}

#[test]
fn a_last_wallpaper_that_the_store_does_not_know_is_not_shown() {
    let mut store = store_of(&["a"]);
    store.set_last_used(&Wallpaper::new("gone".to_string(), ContentManagerTypes::Local));
    let (backend, calls, _) = Scripted::new(0);
    let mut manager = WallpapersManager::new(store, backend);
    assert!(manager.last_attempt().is_none());
    assert!(matches!(manager.set_last_wallpaper(), Step::Idle));
    assert_eq!(calls.get(), 0);
}

#[test]
fn startup_restores_only_where_no_rotation_is_due() {
    let mut store = store_of(&["a", "b"]);
    let a = Wallpaper::new("a".to_string(), ContentManagerTypes::Local);
    store.mark_as_seen(&a).unwrap();
    store.record_rotation(&a, NOW);
    let (backend, calls, shown) = Scripted::new(0);
    let mut manager = WallpapersManager::new(store, backend);

    let next_day = Timestamp::new(NOW.day + 1, 0, 0);
    assert!(matches!(manager.startup_at(1440, next_day), Step::Idle));
    assert_eq!(calls.get(), 0);

    assert!(matches!(manager.startup_at(1440, NOW), Step::Done));
    assert_eq!(*shown.borrow(), vec!["a".to_string()]);
    assert_eq!(unseen_ids(manager.store()), vec!["b"]);
}

#[test]
fn startup_without_a_record_does_nothing() {
    let (backend, calls, _) = Scripted::new(0);
    let mut manager = WallpapersManager::new(store_of(&["a"]), backend);
    assert!(matches!(manager.startup_at(1440, NOW), Step::Idle));
    assert_eq!(calls.get(), 0);
}

#[test]
fn a_tick_by_the_clock_rotates_a_fresh_store() {
    let (backend, _, shown) = Scripted::new(0);
    let mut manager = WallpapersManager::new(store_of(&["a"]), backend);
    assert!(matches!(manager.tick(1440), Step::Done));
    assert_eq!(*shown.borrow(), vec!["a".to_string()]);
    let recorded = manager.store().get_last_update().unwrap();
    assert!(recorded.second < 86_400);
    assert!(matches!(manager.tick(1440), Step::Idle));
    assert_eq!(shown.borrow().len(), 1);
}

#[test]
fn set_next_wallpaper_rotates_whether_due_or_not() {
    let (backend, _, shown) = Scripted::new(0);
    let mut manager = WallpapersManager::new(store_of(&["a", "b"]), backend);
    assert!(matches!(manager.set_next_wallpaper(), Step::Done));
    assert!(matches!(manager.set_next_wallpaper(), Step::Done));
    let distinct: BTreeSet<String> = shown.borrow().iter().cloned().collect();
    assert_eq!(distinct.len(), 2);
    assert!(manager.store().get_last_update().is_some());
}

#[test]
fn sync_takes_over_what_the_source_lists() {
    let (backend, _, _) = Scripted::new(0);
    let mut manager = WallpapersManager::new(Store::new(), backend);
    assert!(manager.store_wallpapers(&Listing(Ok(vec!["a", "b", "a"]))).is_ok());
    let all = manager.store().get_inserted_wallpapers();
    let ids: Vec<&str> = all.iter().map(|row| row.id.as_str()).collect();
    assert_eq!(ids, vec!["a", "b"]);
}

#[test]
fn sync_keeps_seen_marks_and_stale_rows() {
    let mut store = store_of(&["old", "kept"]);
    store
        .mark_as_seen(&Wallpaper::new("kept".to_string(), ContentManagerTypes::Local))
        .unwrap();
    let (backend, _, _) = Scripted::new(0);
    let mut manager = WallpapersManager::new(store, backend);
    manager.store_wallpapers(&Listing(Ok(vec!["kept", "new"]))).unwrap();
    let all = manager.store().get_inserted_wallpapers();
    let state: Vec<(&str, bool)> = all.iter().map(|row| (row.id.as_str(), row.seen)).collect();
    assert_eq!(state, vec![("old", false), ("kept", true), ("new", false)]);
}

#[test]
fn a_listing_that_fails_is_reported_and_changes_nothing() {
    let (backend, _, _) = Scripted::new(0);
    let mut manager = WallpapersManager::new(store_of(&["a"]), backend);
    let result = manager.store_wallpapers(&Listing(Err(())));
    assert!(matches!(result, Err(WallpapersMangerError::GetWallpaperError)));
    assert_eq!(manager.store().get_inserted_wallpapers().len(), 1);
    let listed = manager.store_listed(Err(WallpaperContentManagerError::Failure));
    assert!(matches!(listed, Err(WallpapersMangerError::GetWallpaperError)));
}

#[test]
fn store_listed_upserts_first_to_last() {
    let (backend, _, _) = Scripted::new(0);
    let mut manager = WallpapersManager::new(Store::new(), backend);
    let listed = vec![
        Wallpaper::new("x".to_string(), ContentManagerTypes::Local),
        Wallpaper::new("x".to_string(), ContentManagerTypes::Git),
    ];
    assert!(manager.store_listed(Ok(listed)).is_ok());
    let all = manager.store().get_inserted_wallpapers();
    assert_eq!(all.len(), 1);
    assert_eq!(all[0].manager_id, 1);
}

#[test]
fn choose_from_draws_by_position() {
    let rows = vec![
        DatabaseWallpaper { id: "a".to_string(), seen: false, manager_id: 0 },
        DatabaseWallpaper { id: "b".to_string(), seen: false, manager_id: 1 },
    ];
    let first = choose_from(&rows, 0).unwrap();
    assert_eq!(first.id, "a");
    assert_eq!(first.type_id, ContentManagerTypes::Local);
    let second = choose_from(&rows, 1).unwrap();
    assert_eq!(second.id, "b");
    assert_eq!(second.type_id, ContentManagerTypes::Git);
    assert!(choose_from(&rows, 2).is_none());
    assert!(choose_from(&Vec::new(), 0).is_none());
}

#[test]
fn selection_reaches_every_candidate() {
    let mut seen = BTreeSet::new();
    for _ in 0..200 {
        let (backend, _, _) = Scripted::new(0);
        let mut manager = WallpapersManager::new(store_of(&["a", "b", "c"]), backend);
        seen.insert(manager.select().unwrap().id);
    }
    assert_eq!(seen.len(), 3);
}

#[test]
fn a_row_converts_to_its_wallpaper() {
    let row = DatabaseWallpaper { id: "a".to_string(), seen: true, manager_id: 1 };
    let wallpaper: Wallpaper = row.try_into().unwrap();
    assert_eq!(wallpaper.id, "a");
    assert_eq!(wallpaper.type_id, ContentManagerTypes::Git);
    let bad = DatabaseWallpaper { id: "a".to_string(), seen: true, manager_id: 2 };
    assert!(Wallpaper::try_from(bad).is_err());
}

#[test]
fn into_store_gives_the_store_back() {
    let (backend, _, _) = Scripted::new(0);
    let mut manager = WallpapersManager::new(store_of(&["a"]), backend);
    assert!(matches!(manager.rotate_at(NOW), Step::Done));
    let store = manager.into_store();
    assert_eq!(store.get_meta().unwrap().last_used, "a");
}
