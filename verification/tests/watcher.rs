use gitclient_worker::watcher::{watched, Dir, Watcher, POLL_INTERVAL};

#[test]
fn a_watcher_notices_a_commit_and_reports_it_once() {
    let mut w = Watcher::start([Some(10), None, Some(10), None], 0);
    assert!(
        !w.take_changed(POLL_INTERVAL, [Some(10), None, Some(10), None]),
        "nothing has happened yet"
    );

    // The first commit writes the index and a ref.
    let after = [Some(10), Some(20), Some(20), None];
    assert!(w.take_changed(2 * POLL_INTERVAL, after), "a commit should be noticed");
    assert!(!w.take_changed(2 * POLL_INTERVAL, after), "the flag is taken, not left set");
    assert!(!w.take_changed(3 * POLL_INTERVAL, after), "the flag is taken, not left set");
}

#[test]
fn a_watcher_notices_staging() {
    let mut w = Watcher::start([Some(10), Some(10), Some(10), None], 5);
    assert!(
        w.take_changed(5 + POLL_INTERVAL, [Some(10), Some(11), Some(10), None]),
        "the index changed"
    );
}

#[test]
fn a_path_that_comes_or_goes_is_a_change() {
    let mut w = Watcher::start([Some(1), Some(1), Some(1), None], 0);
    assert!(w.take_changed(POLL_INTERVAL, [Some(1), Some(1), Some(1), Some(2)]));
    assert!(w.take_changed(2 * POLL_INTERVAL, [Some(1), None, Some(1), Some(2)]));
}

#[test]
fn the_paths_are_looked_at_once_an_interval() {
    let changed = [Some(2), None, None, None];
    let mut w = Watcher::start([Some(1), None, None, None], 100);
    assert!(!w.due(100));
    assert!(!w.due(0));
    assert!(!w.due(99 + POLL_INTERVAL));
    assert!(!w.take_changed(99 + POLL_INTERVAL, changed));
    assert!(w.due(100 + POLL_INTERVAL));
    assert!(w.take_changed(100 + POLL_INTERVAL, changed), "the change was not lost");
    // A look counts whether it found something or not.
    assert!(!w.take_changed(100 + 2 * POLL_INTERVAL, changed));
    assert!(!w.due(100 + 3 * POLL_INTERVAL - 1));
    assert_eq!(POLL_INTERVAL, 1_000_000_000);
}

#[test]
fn four_paths_are_watched() {
    let paths: Vec<(Dir, &str)> = watched().iter().map(|p| (p.dir, p.name)).collect();
    assert_eq!(
        paths,
        vec![
            (Dir::Git, "HEAD"),
            (Dir::Git, "index"),
            (Dir::Common, "refs"),
            (Dir::Common, "packed-refs")
        ]
    );
}
