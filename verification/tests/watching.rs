use image_index::watch::WatchManager;

use notify::Watcher;
use std::sync::mpsc;
use std::time::Duration;

#[test]
fn a_fresh_manager_delivers_nothing() {
    let m = WatchManager::new();
    assert!(m.active.is_none());
    assert!(!m.should_deliver(0));
}

#[test]
fn starting_a_second_watch_supersedes_the_first() {
    let mut m = WatchManager::new();
    let a = m.install("/pictures/alpha".to_string());
    assert!(m.should_deliver(a));
    let b = m.install("/pictures/beta".to_string());
    assert_ne!(a, b);
    assert!(!m.should_deliver(a));
    assert!(m.should_deliver(b));
    let active = m.active.as_ref().unwrap();
    assert_eq!(active.root, "/pictures/beta");
    assert_eq!(active.token, b);
}

#[test]
fn a_failed_start_leaves_the_previous_watch_active() {
    let mut m = WatchManager::new();
    let a = m.install("/pictures/alpha".to_string());
    m.keep_on_failure();
    assert!(m.should_deliver(a));
    assert_eq!(m.active.as_ref().unwrap().root, "/pictures/alpha");
}

#[test]
fn creating_an_image_under_a_watched_tree_notifies_at_least_once() {
    let dir = tempfile::tempdir().unwrap();
    let (tx, rx) = mpsc::channel();
    let mut watcher = notify::recommended_watcher(
        move |res: Result<notify::Event, notify::Error>| {
            if res.is_ok() {
                let _ = tx.send(());
            }
        },
    )
    .unwrap();
    watcher.watch(dir.path(), notify::RecursiveMode::Recursive).unwrap();

    let mut manager = WatchManager::new();
    let token = manager.install(dir.path().to_string_lossy().to_string());

    let _image = tempfile::Builder::new()
        .prefix("fresh")
        .suffix(".jpg")
        .tempfile_in(dir.path())
        .unwrap();

    // The OS mechanism may coalesce events: at least one must arrive,
    // and the manager still owns the subscription it would forward to.
    let got = rx.recv_timeout(Duration::from_secs(10));
    assert!(got.is_ok());
    assert!(manager.should_deliver(token));
}
