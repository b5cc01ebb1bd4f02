use fs_librarian::config::FsWatch;
use fs_librarian::fs_notify::{
    fanotify_notifier, notify_notifier, plan_backends, DebounceCache, Error, FsOp, Notify,
};

fn watch_config(freq: Option<u64>) -> Option<FsWatch> {
    Some(FsWatch {
        min_command_exec_freq: freq,
    })
}

#[test]
fn test_debounce_cache_window() {
    let mut cache = DebounceCache::new();
    assert!(!cache.is_live("/a", 100));
    cache.record("/a", 100, 60);
    // Inside the window the key is live; at its end it is not.
    assert!(cache.is_live("/a", 100));
    assert!(cache.is_live("/a", 130));
    assert!(cache.is_live("/a", 159));
    assert!(!cache.is_live("/a", 160));
    assert!(!cache.is_live("/a", 200));
    // Other keys are untouched.
    assert!(!cache.is_live("/b", 130));
}

#[test]
fn test_debounce_cache_purge_keeps_answers() {
    let mut cache = DebounceCache::new();
    cache.record("/a", 100, 10);
    cache.record("/b", 100, 60);
    cache.purge(120);
    assert!(!cache.is_live("/a", 120));
    assert!(cache.is_live("/b", 120));
    assert!(!cache.is_live("/b", 160));
}

#[test]
fn test_should_notify_policy() {
    // No watch settings: always forward.
    let notify = Notify::new(None, vec![]);
    assert!(notify.should_notify("/a", 0));

    // Settings without an interval: always forward.
    let notify = Notify::new(watch_config(None), vec![]);
    assert!(notify.should_notify("/a", 0));

    // Interval zero: always forward, even right after recording.
    let mut notify = Notify::new(watch_config(Some(0)), vec![]);
    notify.record_notify("/a", 0);
    assert!(notify.should_notify("/a", 0));

    // A positive interval suppresses inside the window and not after it.
    let mut notify = Notify::new(watch_config(Some(60)), vec![]);
    notify.record_notify("/a", 100);
    assert!(!notify.should_notify("/a", 100));
    assert!(!notify.should_notify("/a", 159));
    assert!(notify.should_notify("/a", 160));
    assert!(notify.should_notify("/b", 100));
}

#[test]
fn test_watch_step_debounces_same_path() {
    // Two writes to one file within five seconds, window of sixty: the
    // command is triggered exactly once.
    let mut notify = Notify::new(watch_config(Some(60)), vec!["/data".to_string()]);
    let first = notify.watch_step("/data/file", FsOp::Other, false, 0);
    let second = notify.watch_step("/data/file", FsOp::Other, false, 5);
    assert!(first);
    assert!(!second);
}

#[test]
fn test_watch_step_drops_removals_and_directories() {
    let mut notify = Notify::new(None, vec![]);
    assert!(!notify.watch_step("/data/file", FsOp::Remove, false, 0));
    assert!(!notify.watch_step("/data/dir", FsOp::Other, true, 0));
    assert!(notify.watch_step("/data/file", FsOp::Other, false, 0));
}

#[test]
fn test_plan_backends_per_platform() {
    let plan = plan_backends("linux").unwrap();
    assert!(plan.use_notify);
    assert!(plan.use_fanotify);

    let plan = plan_backends("macos").unwrap();
    assert!(plan.use_notify);
    assert!(!plan.use_fanotify);

    let err = plan_backends("windows").unwrap_err();
    assert_eq!(err, Error::FeatureNotSupported);
    assert_eq!(err.to_message(), "The watching feature is unsupported");
}

#[test]
fn test_convert_op() {
    assert_eq!(notify_notifier::convert_op(true), FsOp::Remove);
    assert_eq!(notify_notifier::convert_op(false), FsOp::Other);

    assert_eq!(fanotify_notifier::convert_op(&vec![]), FsOp::Other);
    assert_eq!(
        fanotify_notifier::convert_op(&vec![false, false]),
        FsOp::Other
    );
    assert_eq!(
        fanotify_notifier::convert_op(&vec![false, true]),
        FsOp::Remove
    );
}

#[test]
fn test_backend_support() {
    assert!(notify_notifier::is_supported("linux"));
    assert!(notify_notifier::is_supported("macos"));
    assert!(!notify_notifier::is_supported("windows"));
    assert!(fanotify_notifier::is_supported("linux"));
    assert!(!fanotify_notifier::is_supported("macos"));
    assert!(!fanotify_notifier::is_supported("windows"));
}

#[test]
fn test_record_saturates_at_clock_end() {
    let mut cache = DebounceCache::new();
    cache.record("/a", u64::MAX - 1, u64::MAX);
    assert!(cache.is_live("/a", u64::MAX - 1));
}
