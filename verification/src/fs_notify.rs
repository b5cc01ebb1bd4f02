//! Filesystem-change notification: the event model, the debounce cache that
//! suppresses repeated notifications for one path inside a configured
//! window, and the per-event forwarding decision of watch mode.
//!
//! The OS-specific watch loops run outside the library; they hand each raw
//! event in as plain values — the path, the operation kind, whether the path
//! is a directory, and the clock's current second — and forward the event
//! only when the decision here says so.

pub mod fanotify_notifier;
pub mod notify_notifier;

use crate::config;
use crate::text::str_eq;
use vstd::prelude::*;
use vstd::string::StringExecFns;

verus! {

/// The operation a filesystem event reports, reduced to the two cases the
/// pipeline distinguishes.
#[derive(Debug, Clone, Copy, PartialEq, Eq, Structural)]
pub enum FsOp {
    /// The path was removed.
    Remove,
    /// Any other change.
    Other,
}

/// One raw change event, as a backend reports it.
#[derive(Debug, Clone)]
pub struct Notification {
    pub path: String,
    pub op: FsOp,
}

/// The errors of the notification subsystem.
#[derive(Debug, Clone, Copy, PartialEq, Eq, Structural)]
pub enum Error {
    /// The portable recursive-watch backend failed.
    NotifyNotifier,
    /// The whole-mount backend failed.
    FanotifyNotifier,
    /// A channel of the notification plumbing was closed early.
    Send,
    /// No backend supports the running platform.
    FeatureNotSupported,
}

impl Error {
    /// The line shown to an operator for this error.
    pub fn to_message(&self) -> (m: String)
        ensures
            self == Error::NotifyNotifier ==> m@
                == "An error was thrown by NotifyNotifier"@,
            self == Error::FanotifyNotifier ==> m@
                == "An error was thrown by FanotifyNotifier"@,
            self == Error::Send ==> m@
                == "An error was thrown while trying to interract with the notification system"@,
            self == Error::FeatureNotSupported ==> m@
                == "The watching feature is unsupported"@,
    {
        match self {
            Error::NotifyNotifier => String::from_str("An error was thrown by NotifyNotifier"),
            Error::FanotifyNotifier => String::from_str(
                "An error was thrown by FanotifyNotifier",
            ),
            Error::Send => String::from_str(
                "An error was thrown while trying to interract with the notification system",
            ),
            Error::FeatureNotSupported => String::from_str(
                "The watching feature is unsupported",
            ),
        }
    }
}

/// One debounce entry: a path key and the second its suppression window
/// ends at.
#[derive(Debug, Clone)]
pub struct DebounceEntry {
    pub key: String,
    pub expires_at: u64,
}

impl View for DebounceEntry {
    type V = (Seq<char>, u64);

    open spec fn view(&self) -> (Seq<char>, u64) {
        (self.key@, self.expires_at)
    }
}

impl DeepView for DebounceEntry {
    type V = (Seq<char>, u64);

    open spec fn deep_view(&self) -> (Seq<char>, u64) {
        self@
    }
}

/// Whether some entry holds `key` and is not yet expired at `now`: an entry
/// suppresses its key strictly before `expires_at`, never at or after it.
pub open spec fn live(entries: Seq<(Seq<char>, u64)>, key: Seq<char>, now: u64) -> bool {
    exists|i: int| 0 <= i < entries.len() && (#[trigger] entries[i]).0 == key && entries[i].1 > now
}

/// The second a window opened at `now` with length `interval` ends at,
/// saturating at the clock's end.
pub open spec fn expiry_at(now: u64, interval: u64) -> u64 {
    if now + interval > u64::MAX {
        u64::MAX
    } else {
        (now + interval) as u64
    }
}

/// A time-expiring set of recently notified path keys. Expired entries
/// count as absent; `purge` removes them to bound memory, and removing them
/// never changes a liveness answer.
#[derive(Debug)]
pub struct DebounceCache {
    entries: Vec<DebounceEntry>,
}

impl View for DebounceCache {
    type V = Seq<(Seq<char>, u64)>;

    /// The cache is its entries: key and expiry, in insertion order.
    closed spec fn view(&self) -> Seq<(Seq<char>, u64)> {
        self.entries.deep_view()
    }
}

impl DebounceCache {
    /// An empty cache.
    pub fn new() -> (c: DebounceCache)
        ensures
            c@ == Seq::<(Seq<char>, u64)>::empty(),
    {
        let entries: Vec<DebounceEntry> = Vec::new();
        proof {
            assert(entries.deep_view() =~= Seq::<(Seq<char>, u64)>::empty());
        }
        DebounceCache { entries }
    }

    /// Whether `key` is suppressed at `now`.
    pub fn is_live(&self, key: &str, now: u64) -> (b: bool)
        ensures
            b == live(self@, key@, now),
    {
        let mut i: usize = 0;
        while i < self.entries.len()
            invariant
                i <= self.entries@.len(),
                self@ == self.entries.deep_view(),
                self@.len() == self.entries@.len(),
                forall|k: int| 0 <= k < self@.len() ==> #[trigger] self@[k] == self.entries@[k]@,
                forall|k: int| 0 <= k < i ==> !((#[trigger] self@[k]).0 == key@ && self@[k].1
                    > now),
            decreases self.entries@.len() - i,
        {
            let e = &self.entries[i];
            if e.expires_at > now && str_eq(e.key.as_str(), key) {
                proof {
                    assert(self@[i as int].0 == key@ && self@[i as int].1 > now);
                }
                return true;
            }
            i = i + 1;
        }
        false
    }

    /// Records that `key` was notified at `now`: its suppression window ends
    /// `interval` seconds later. Recording never shortens another entry's
    /// window.
    pub fn record(&mut self, key: &str, now: u64, interval: u64)
        ensures
            final(self)@ == old(self)@.push((key@, expiry_at(now, interval))),
    {
        let ghost before = self@;
        let expires_at = now.saturating_add(interval);
        let entry = DebounceEntry { key: key.to_owned(), expires_at };
        self.entries.push(entry);
        proof {
            assert(self.entries.deep_view() =~= before.push((key@, expiry_at(now, interval))));
        }
    }

    /// Drops every entry whose window has ended: what is kept is live, and
    /// no liveness answer at `now` or later changes.
    pub fn purge(&mut self, now: u64)
        ensures
            forall|k: int| 0 <= k < final(self)@.len() ==> (#[trigger] final(self)@[k]).1 > now,
            forall|key: Seq<char>, t: u64|
                now <= t ==> live(final(self)@, key, t) == live(old(self)@, key, t),
    {
        let ghost oldv = self@;
        let mut kept: Vec<DebounceEntry> = Vec::new();
        let mut i: usize = 0;
        proof {
            assert(kept.deep_view() =~= Seq::<(Seq<char>, u64)>::empty());
            assert(kept.deep_view() + oldv.skip(0) =~= oldv);
        }
        while i < self.entries.len()
            invariant
                i <= self.entries@.len(),
                oldv == self.entries.deep_view(),
                oldv.len() == self.entries@.len(),
                forall|k: int| 0 <= k < oldv.len() ==> #[trigger] oldv[k] == self.entries@[k]@,
                forall|k: int| 0 <= k < kept.deep_view().len() ==> (#[trigger] kept.deep_view()[
                    k
                ]).1 > now,
                forall|key: Seq<char>, t: u64|
                    now <= t ==> live(kept.deep_view() + oldv.skip(i as int), key, t) == live(
                        oldv,
                        key,
                        t,
                    ),
            decreases self.entries@.len() - i,
        {
            let ghost ka = kept.deep_view();
            let e = &self.entries[i];
            if e.expires_at > now {
                let kept_entry = DebounceEntry { key: e.key.clone(), expires_at: e.expires_at };
                proof {
                    assert(kept_entry@ == oldv[i as int]);
                }
                kept.push(kept_entry);
                proof {
                    assert(kept.deep_view() =~= ka.push(oldv[i as int]));
                    assert(kept.deep_view() + oldv.skip(i + 1) =~= ka + oldv.skip(i as int));
                }
            } else {
                proof {
                    let a = ka + oldv.skip(i + 1);
                    let b = ka + oldv.skip(i as int);
                    assert forall|key: Seq<char>, t: u64| now <= t implies live(a, key, t)
                        == live(b, key, t) by {
                        if live(a, key, t) {
                            let j = choose|j: int|
                                0 <= j < a.len() && (#[trigger] a[j]).0 == key && a[j].1 > t;
                            if j < ka.len() {
                                assert(b[j] == a[j]);
                            } else {
                                assert(b[j + 1] == a[j]);
                            }
                        }
                        if live(b, key, t) {
                            let j = choose|j: int|
                                0 <= j < b.len() && (#[trigger] b[j]).0 == key && b[j].1 > t;
                            if j < ka.len() {
                                assert(a[j] == b[j]);
                            } else if j == ka.len() {
                                assert(oldv.skip(i as int)[0] == oldv[i as int]);
                                assert(b[j] == oldv[i as int]);
                                assert(oldv[i as int].1 <= now);
                            } else {
                                assert(a[j - 1] == b[j]);
                            }
                        }
                    }
                }
            }
            i = i + 1;
        }
        proof {
            assert(kept.deep_view() + oldv.skip(i as int) =~= kept.deep_view());
        }
        self.entries = kept;
    }
}

/// The minimum number of seconds between two command runs for one path, as
/// the watch settings give it.
pub open spec fn spec_min_freq(config: Option<config::FsWatch>) -> Option<u64> {
    match config {
        None => None,
        Some(c) => c.min_command_exec_freq,
    }
}

/// The forwarding policy: with no watch settings, no interval, or a zero
/// interval, every notification is forwarded; otherwise one is forwarded
/// exactly when its path has no live debounce entry.
pub open spec fn should_notify_spec(
    config: Option<config::FsWatch>,
    entries: Seq<(Seq<char>, u64)>,
    path: Seq<char>,
    now: u64,
) -> bool {
    match spec_min_freq(config) {
        None => true,
        Some(freq) => freq == 0 || !live(entries, path, now),
    }
}

/// The debounce law, first half: once a notification for a path is recorded
/// at `t0` with a positive interval, a second notification for the same
/// path strictly inside the window is suppressed. Second half: one at or
/// past the window's end is forwarded, as long as no other entry holds the
/// path live. Recording is a `push`, so neither half depends on what else
/// the cache holds.
pub proof fn lemma_debounce_window(
    config: Option<config::FsWatch>,
    entries: Seq<(Seq<char>, u64)>,
    path: Seq<char>,
    t0: u64,
    freq: u64,
    later: u64,
)
    requires
        spec_min_freq(config) == Some(freq),
        freq > 0,
    ensures
        later < expiry_at(t0, freq) ==> !should_notify_spec(
            config,
            entries.push((path, expiry_at(t0, freq))),
            path,
            later,
        ),
        later >= expiry_at(t0, freq) && !live(entries, path, later) ==> should_notify_spec(
            config,
            entries.push((path, expiry_at(t0, freq))),
            path,
            later,
        ),
{
    let recorded = entries.push((path, expiry_at(t0, freq)));
    if later < expiry_at(t0, freq) {
        assert(recorded[entries.len() as int].0 == path);
        assert(recorded[entries.len() as int].1 > later);
        assert(live(recorded, path, later));
    }
    if later >= expiry_at(t0, freq) && !live(entries, path, later) {
        assert forall|i: int|
            0 <= i < recorded.len() implies !((#[trigger] recorded[i]).0 == path && recorded[i].1
            > later) by {
            if i < entries.len() {
                assert(recorded[i] == entries[i]);
            }
        }
    }
}

/// The debounce law, degenerate cases: with no watch settings, no interval,
/// or interval zero, nothing is ever suppressed.
pub proof fn lemma_no_debounce(
    config: Option<config::FsWatch>,
    entries: Seq<(Seq<char>, u64)>,
    path: Seq<char>,
    now: u64,
)
    requires
        spec_min_freq(config) is None || spec_min_freq(config) == Some(0u64),
    ensures
        should_notify_spec(config, entries, path, now),
{
}

/// The watch-mode front end: the watch settings, the target directories,
/// and the debounce cache. The OS watch loops and channels run outside the
/// library and consult this state for every raw event.
#[derive(Debug)]
pub struct Notify {
    config: Option<config::FsWatch>,
    paths: Vec<String>,
    notify_ttl: DebounceCache,
}

impl Notify {
    /// The watch settings the value was built with.
    pub closed spec fn spec_config(&self) -> Option<config::FsWatch> {
        self.config
    }

    /// The directories under watch.
    pub closed spec fn spec_paths(&self) -> Seq<Seq<char>> {
        self.paths.deep_view()
    }

    /// The debounce entries.
    pub closed spec fn spec_entries(&self) -> Seq<(Seq<char>, u64)> {
        self.notify_ttl@
    }

    /// Builds the watch-mode state over the settings and the directories to
    /// watch, with an empty debounce cache.
    pub fn new(config: Option<config::FsWatch>, paths: Vec<String>) -> (n: Notify)
        ensures
            n.spec_config() == config,
            n.spec_paths() == paths.deep_view(),
            n.spec_entries() == Seq::<(Seq<char>, u64)>::empty(),
    {
        Notify { config, paths, notify_ttl: DebounceCache::new() }
    }

    /// The directories under watch, for the backends to register.
    pub fn paths(&self) -> (p: &Vec<String>)
        ensures
            p.deep_view() == self.spec_paths(),
    {
        &self.paths
    }

    /// Decides whether a notification for `path` arriving at `now` is
    /// forwarded.
    pub fn should_notify(&self, path: &str, now: u64) -> (b: bool)
        ensures
            b == should_notify_spec(self.spec_config(), self.spec_entries(), path@, now),
    {
        let freq = match &self.config {
            None => {
                return true;
            },
            Some(c) => match c.min_command_exec_freq {
                None => {
                    return true;
                },
                Some(freq) => freq,
            },
        };
        if freq == 0 {
            return true;
        }
        !self.notify_ttl.is_live(path, now)
    }

    /// Records that a notification for `path` was forwarded at `now`: with
    /// an interval configured, the path's suppression window ends that many
    /// seconds later; with none, nothing is recorded.
    pub fn record_notify(&mut self, path: &str, now: u64)
        ensures
            final(self).spec_config() == old(self).spec_config(),
            final(self).spec_paths() == old(self).spec_paths(),
            match spec_min_freq(old(self).spec_config()) {
                None => final(self).spec_entries() == old(self).spec_entries(),
                Some(freq) => final(self).spec_entries() == old(self).spec_entries().push(
                    (path@, expiry_at(now, freq)),
                ),
            },
    {
        let freq = match &self.config {
            None => {
                return ;
            },
            Some(c) => match c.min_command_exec_freq {
                None => {
                    return ;
                },
                Some(freq) => freq,
            },
        };
        self.notify_ttl.record(path, now, freq);
    }

    /// The per-event decision of the watch loop: an event is forwarded when
    /// its path is not a directory, the operation is not a removal, and the
    /// debounce policy allows it; forwarding records the path. A suppressed
    /// or dropped event changes nothing.
    pub fn watch_step(&mut self, path: &str, op: FsOp, is_dir: bool, now: u64) -> (forward: bool)
        ensures
            forward == (!is_dir && op != FsOp::Remove && should_notify_spec(
                old(self).spec_config(),
                old(self).spec_entries(),
                path@,
                now,
            )),
            final(self).spec_config() == old(self).spec_config(),
            final(self).spec_paths() == old(self).spec_paths(),
            forward ==> match spec_min_freq(old(self).spec_config()) {
                None => final(self).spec_entries() == old(self).spec_entries(),
                Some(freq) => final(self).spec_entries() == old(self).spec_entries().push(
                    (path@, expiry_at(now, freq)),
                ),
            },
            !forward ==> final(self).spec_entries() == old(self).spec_entries(),
    {
        if is_dir {
            return false;
        }
        if op == FsOp::Remove {
            return false;
        }
        if !self.should_notify(path, now) {
            return false;
        }
        self.record_notify(path, now);
        true
    }
}

/// Which backends a watch session starts.
#[derive(Debug, Clone, Copy, PartialEq, Eq, Structural)]
pub struct BackendPlan {
    /// Start the portable recursive-watch backend.
    pub use_notify: bool,
    /// Start the privileged whole-mount backend.
    pub use_fanotify: bool,
}

/// Decides which backends to start on the named platform: every supported
/// backend is started, and a platform where none is supported is refused.
pub fn plan_backends(os: &str) -> (r: Result<BackendPlan, Error>)
    ensures
        r matches Ok(p) ==> p.use_notify == (os@ != "windows"@) && p.use_fanotify == (os@
            == "linux"@) && (p.use_notify || p.use_fanotify),
        r matches Err(e) ==> e == Error::FeatureNotSupported && os@ == "windows"@,
{
    let use_notify = notify_notifier::is_supported(os);
    let use_fanotify = fanotify_notifier::is_supported(os);
    if !use_notify && !use_fanotify {
        return Err(Error::FeatureNotSupported);
    }
    Ok(BackendPlan { use_notify, use_fanotify })
}

} // verus!
