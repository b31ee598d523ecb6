//! The staleness evaluator: decides, one observation at a time, whether a
//! mount may be unmounted.
//!
//! The evaluator never touches the filesystem itself. It names the next
//! observation it needs as an [`Action`], the caller performs it and hands
//! the outcome back as an [`Event`], until the action is `Finish`.
use vstd::prelude::*;
use crate::text::{chars_of, chars_eq};
use crate::mtab::MountedFilesystem;
use crate::lockfile::{get_lockfile_path, is_archive_mount, lockfile_candidates};

verus! {

/// How long, in seconds, to keep retrying the exclusive lock.
pub const LOCK_WAIT_SECS: u64 = 60;

/// Milliseconds to sleep between two attempts to take the lock.
pub const LOCK_RETRY_MS: u64 = 10;

/// Nanoseconds in a second.
pub const NANOS_PER_SEC: i128 = 1_000_000_000;

/// Whether the mount may be unmounted, and the lock-file descriptor that
/// must stay open until the unmount attempt is over and then be closed.
pub struct ShouldUnmountResult {
    pub should_unmount: bool,
    pub lock_fd: Option<i32>,
}

impl ShouldUnmountResult {
    pub fn new(should_unmount: bool, lock_fd: Option<i32>) -> (r: ShouldUnmountResult)
        ensures
            r.should_unmount == should_unmount,
            r.lock_fd == lock_fd,
    {
        ShouldUnmountResult { should_unmount, lock_fd }
    }
}

/// The next move while waiting for the exclusive lock on a lock file.
#[derive(Clone, Copy, Debug, PartialEq, Eq, Structural)]
pub enum LockWait {
    /// The lock is taken.
    Acquired,
    /// The wait is over without the lock.
    GiveUp,
    /// Sleep `sleep_ms` milliseconds, then attempt again.
    Retry { sleep_ms: u64 },
}

/// One step of the wait for the exclusive lock: `elapsed_secs` whole
/// seconds since the wait began, a wait of `timeout_secs` seconds, and
/// whether the attempt made in this step took the lock. No attempt counts
/// once the wait is over.
pub fn lock_wait_step(elapsed_secs: u64, timeout_secs: u64, attempt_ok: bool) -> (r: LockWait)
    ensures
        elapsed_secs >= timeout_secs ==> r == LockWait::GiveUp,
        elapsed_secs < timeout_secs && attempt_ok ==> r == LockWait::Acquired,
        elapsed_secs < timeout_secs && !attempt_ok ==> r == (LockWait::Retry { sleep_ms: LOCK_RETRY_MS }),
{
    if elapsed_secs >= timeout_secs {
        LockWait::GiveUp
    } else if attempt_ok {
        LockWait::Acquired
    } else {
        LockWait::Retry { sleep_ms: LOCK_RETRY_MS }
    }
}

/// A point in time: seconds and nanoseconds since the Unix epoch.
#[derive(Clone, Copy, Debug, PartialEq, Eq, Structural)]
pub struct Timestamp {
    pub secs: i64,
    pub nanos: u32,
}

pub open spec fn nanos_of(t: Timestamp) -> int {
    t.secs * 1_000_000_000 + t.nanos
}

/// A lock file last modified at `mtime` is older, at `now`, than the
/// timeout of `timeout_minutes` whole minutes.
pub open spec fn older_than_timeout(now: Timestamp, mtime: Timestamp, timeout_minutes: u32) -> bool {
    nanos_of(now) - nanos_of(mtime) > timeout_minutes * 60 * 1_000_000_000
}

/// Whether a lock file modified at `mtime` has aged past the timeout at
/// time `now`; a modification time in the future counts as recent.
pub fn lock_is_stale(now: Timestamp, mtime: Timestamp, timeout_minutes: u32) -> (r: bool)
    ensures
        r == older_than_timeout(now, mtime, timeout_minutes),
{
    let now_ns = now.secs as i128 * NANOS_PER_SEC + now.nanos as i128;
    let mtime_ns = mtime.secs as i128 * NANOS_PER_SEC + mtime.nanos as i128;
    let limit = timeout_minutes as i128 * 60 * NANOS_PER_SEC;
    now_ns - mtime_ns > limit
}

/// The filesystem types that archive mounts are made with.
pub open spec fn is_archive_fstype(t: Seq<char>) -> bool {
    t == "fuse.squashfuse"@ || t == "fuse.squashfuse_ll"@ || t == "osxfusefs"@ || t == "osxfuse"@
}

pub fn is_archive_fs_type(fstype: &str) -> (r: bool)
    ensures
        r == is_archive_fstype(fstype@),
{
    let t = chars_of(fstype);
    chars_eq(&t, &chars_of("fuse.squashfuse")) || chars_eq(&t, &chars_of("fuse.squashfuse_ll"))
        || chars_eq(&t, &chars_of("osxfusefs")) || chars_eq(&t, &chars_of("osxfuse"))
}

/// What listing the mount directory showed.
#[derive(Clone, Copy, Debug, PartialEq, Eq, Structural)]
pub enum DirListing {
    Unreadable,
    Empty,
    NonEmpty,
}

/// The observation the evaluator asks for next, or its verdict.
#[derive(Clone, Copy, Debug, PartialEq, Eq, Structural)]
pub enum Action {
    /// List the mount directory resolved against the namespace root.
    ListDir,
    /// Open the lock-file candidate at `index` for reading and writing.
    OpenLock { index: usize },
    /// Take an exclusive advisory lock on the opened lock file, retrying
    /// for up to `timeout_secs` seconds.
    AcquireLock { timeout_secs: u64 },
    /// Read the lock file's modification time and the current time.
    ReadTimes,
    /// The verdict. When `lock_held`, the opened lock file stays open until
    /// the unmount attempt is over and must then be closed once.
    Finish { unmount: bool, lock_held: bool },
}

/// The outcome of the last requested observation.
#[derive(Clone, Copy, Debug, PartialEq, Eq, Structural)]
pub enum Event {
    DirListed { listing: DirListing },
    LockOpened { opened: bool },
    LockAcquired { acquired: bool },
    TimesRead { now: Timestamp, mtime: Timestamp },
}

/// Where an evaluation stands.
#[derive(Clone, Copy, Debug, PartialEq, Eq, Structural)]
pub enum Phase {
    AwaitDir,
    AwaitOpen { index: usize },
    AwaitLock,
    AwaitTimes,
    Done { unmount: bool, lock_held: bool },
}

/// The phase an evaluation starts in: done, without unmounting, unless the
/// type is an archive type and the path has the archive-mount shape.
pub open spec fn initial_phase(fstype: Seq<char>, m: Seq<char>) -> Phase {
    if is_archive_fstype(fstype) && is_archive_mount(m) {
        Phase::AwaitDir
    } else {
        Phase::Done { unmount: false, lock_held: false }
    }
}

/// The phase after `e`, with `n` lock-file candidates and a timeout of
/// `timeout` minutes. An event that does not answer the phase's request
/// changes nothing.
pub open spec fn transition(p: Phase, n: nat, timeout: u32, e: Event) -> Phase {
    match (p, e) {
        (Phase::AwaitDir, Event::DirListed { listing }) => {
            if listing == DirListing::Empty {
                Phase::Done { unmount: true, lock_held: false }
            } else if n > 0 {
                Phase::AwaitOpen { index: 0 }
            } else {
                Phase::Done { unmount: true, lock_held: false }
            }
        },
        (Phase::AwaitOpen { index }, Event::LockOpened { opened }) => {
            if opened {
                Phase::AwaitLock
            } else if index + 1 < n {
                Phase::AwaitOpen { index: (index + 1) as usize }
            } else {
                Phase::Done { unmount: true, lock_held: false }
            }
        },
        (Phase::AwaitLock, Event::LockAcquired { acquired }) => {
            if acquired {
                Phase::AwaitTimes
            } else {
                Phase::Done { unmount: false, lock_held: true }
            }
        },
        (Phase::AwaitTimes, Event::TimesRead { now, mtime }) => {
            Phase::Done { unmount: older_than_timeout(now, mtime, timeout), lock_held: true }
        },
        _ => p,
    }
}

/// What the evaluator asks for in phase `p`.
pub open spec fn action_of(p: Phase) -> Action {
    match p {
        Phase::AwaitDir => Action::ListDir,
        Phase::AwaitOpen { index } => Action::OpenLock { index },
        Phase::AwaitLock => Action::AcquireLock { timeout_secs: LOCK_WAIT_SECS },
        Phase::AwaitTimes => Action::ReadTimes,
        Phase::Done { unmount, lock_held } => Action::Finish { unmount, lock_held },
    }
}

/// The phase after feeding `events` in order, starting from `p`.
pub open spec fn run_events(p: Phase, n: nat, timeout: u32, events: Seq<Event>) -> Phase
    decreases events.len(),
{
    if events.len() == 0 {
        p
    } else {
        run_events(transition(p, n, timeout, events[0]), n, timeout, events.subrange(1, events.len() as int))
    }
}

/// One staleness evaluation of one mount.
pub struct StalenessCheck {
    /// Minimum lock-file age, in whole minutes, before a mount is stale.
    pub timeout_minutes: u32,
    /// The lock-file candidates, most specific first.
    pub candidates: Vec<String>,
    pub phase: Phase,
}

impl StalenessCheck {
    pub open spec fn wf(&self) -> bool {
        self.phase matches Phase::AwaitOpen { index } ==> index < self.candidates@.len()
    }

    /// Starts evaluating `mount`; the first action is `action_of` the
    /// returned phase.
    pub fn new(mount: &MountedFilesystem, timeout_minutes: u32) -> (r: StalenessCheck)
        ensures
            r.wf(),
            r.timeout_minutes == timeout_minutes,
            r.phase == initial_phase(mount.fstype@, mount.mountpoint@),
            r.candidates@.len() == lockfile_candidates(mount.chroot@, mount.mountpoint@).len(),
            forall|i: int| 0 <= i < r.candidates@.len()
                ==> #[trigger] r.candidates@[i]@ == lockfile_candidates(mount.chroot@, mount.mountpoint@)[i],
    {
        let candidates = get_lockfile_path(mount);
        let phase = if is_archive_fs_type(mount.fstype.as_str()) && candidates.len() > 0 {
            Phase::AwaitDir
        } else {
            Phase::Done { unmount: false, lock_held: false }
        };
        StalenessCheck { timeout_minutes, candidates, phase }
    }

    /// What the evaluation asks for now.
    pub fn action(&self) -> (r: Action)
        ensures
            r == action_of(self.phase),
    {
        match self.phase {
            Phase::AwaitDir => Action::ListDir,
            Phase::AwaitOpen { index } => Action::OpenLock { index },
            Phase::AwaitLock => Action::AcquireLock { timeout_secs: LOCK_WAIT_SECS },
            Phase::AwaitTimes => Action::ReadTimes,
            Phase::Done { unmount, lock_held } => Action::Finish { unmount, lock_held },
        }
    }

    /// Takes the outcome of the last action and returns the next one.
    pub fn step(&mut self, e: Event) -> (r: Action)
        requires
            old(self).wf(),
        ensures
            final(self).wf(),
            final(self).timeout_minutes == old(self).timeout_minutes,
            final(self).candidates@ == old(self).candidates@,
            final(self).phase == transition(
                old(self).phase,
                old(self).candidates@.len(),
                old(self).timeout_minutes,
                e,
            ),
            r == action_of(final(self).phase),
    {
        let n = self.candidates.len();
        let next = match (self.phase, e) {
            (Phase::AwaitDir, Event::DirListed { listing }) => {
                if matches!(listing, DirListing::Empty) {
                    Phase::Done { unmount: true, lock_held: false }
                } else if n > 0 {
                    Phase::AwaitOpen { index: 0 }
                } else {
                    Phase::Done { unmount: true, lock_held: false }
                }
            },
            (Phase::AwaitOpen { index }, Event::LockOpened { opened }) => {
                if opened {
                    Phase::AwaitLock
                } else if index + 1 < n {
                    Phase::AwaitOpen { index: index + 1 }
                } else {
                    Phase::Done { unmount: true, lock_held: false }
                }
            },
            (Phase::AwaitLock, Event::LockAcquired { acquired }) => {
                if acquired {
                    Phase::AwaitTimes
                } else {
                    Phase::Done { unmount: false, lock_held: true }
                }
            },
            (Phase::AwaitTimes, Event::TimesRead { now, mtime }) => {
                Phase::Done { unmount: lock_is_stale(now, mtime, self.timeout_minutes), lock_held: true }
            },
            (p, _) => p,
        };
        self.phase = next;
        self.action()
    }
}

proof fn lemma_run_cons(p: Phase, n: nat, timeout: u32, e: Event, rest: Seq<Event>)
    ensures
        run_events(p, n, timeout, seq![e] + rest) == run_events(transition(p, n, timeout, e), n, timeout, rest),
{
    let s = seq![e] + rest;
    assert(s[0] == e);
    assert(s.subrange(1, s.len() as int) =~= rest);
}

proof fn lemma_done_absorbs(unmount: bool, lock_held: bool, n: nat, timeout: u32, events: Seq<Event>)
    ensures
        run_events(Phase::Done { unmount, lock_held }, n, timeout, events) == (Phase::Done { unmount, lock_held }),
    decreases events.len(),
{
    if events.len() > 0 {
        lemma_done_absorbs(unmount, lock_held, n, timeout, events.subrange(1, events.len() as int));
    }
}

/// A mount whose path lacks the archive-mount shape under a recognized root
/// (in particular any path outside those roots) has no lock-file candidate,
/// and its evaluation ends without unmounting whatever its type and
/// whatever is observed.
pub proof fn lemma_unshaped_mount_never_unmounted(
    chroot: Seq<char>,
    fstype: Seq<char>,
    m: Seq<char>,
    n: nat,
    timeout: u32,
    events: Seq<Event>,
)
    requires
        !is_archive_mount(m),
    ensures
        lockfile_candidates(chroot, m).len() == 0,
        run_events(initial_phase(fstype, m), n, timeout, events) == (Phase::Done {
            unmount: false,
            lock_held: false,
        }),
{
    lemma_done_absorbs(false, false, n, timeout, events);
}

/// An archive mount whose directory lists empty is unmounted, with no lock
/// held, whatever the lock files and whatever comes after.
pub proof fn lemma_empty_dir_unmounted(
    fstype: Seq<char>,
    m: Seq<char>,
    n: nat,
    timeout: u32,
    later: Seq<Event>,
)
    requires
        is_archive_fstype(fstype),
        is_archive_mount(m),
    ensures
        run_events(
            initial_phase(fstype, m),
            n,
            timeout,
            seq![Event::DirListed { listing: DirListing::Empty }] + later,
        ) == (Phase::Done { unmount: true, lock_held: false }),
{
    lemma_run_cons(initial_phase(fstype, m), n, timeout, Event::DirListed { listing: DirListing::Empty }, later);
    lemma_done_absorbs(true, false, n, timeout, later);
}

/// Once a lock-file candidate has opened and the lock is taken, the verdict
/// is exactly whether the lock file is older than the timeout, and the lock
/// stays held for the caller.
pub proof fn lemma_lock_age_decides(
    index: usize,
    n: nat,
    timeout: u32,
    now: Timestamp,
    mtime: Timestamp,
    later: Seq<Event>,
)
    ensures
        run_events(
            Phase::AwaitOpen { index },
            n,
            timeout,
            seq![
                Event::LockOpened { opened: true },
                Event::LockAcquired { acquired: true },
                Event::TimesRead { now, mtime },
            ] + later,
        ) == (Phase::Done { unmount: older_than_timeout(now, mtime, timeout), lock_held: true }),
{
    let e1 = Event::LockOpened { opened: true };
    let e2 = Event::LockAcquired { acquired: true };
    let e3 = Event::TimesRead { now, mtime };
    assert(seq![e1, e2, e3] + later =~= seq![e1] + (seq![e2] + (seq![e3] + later)));
    lemma_run_cons(Phase::AwaitOpen { index }, n, timeout, e1, seq![e2] + (seq![e3] + later));
    lemma_run_cons(Phase::AwaitLock, n, timeout, e2, seq![e3] + later);
    lemma_run_cons(Phase::AwaitTimes, n, timeout, e3, later);
    lemma_done_absorbs(older_than_timeout(now, mtime, timeout), true, n, timeout, later);
}

/// An archive mount whose directory is not seen empty and whose first
/// lock-file candidate opens and locks is unmounted exactly when that lock
/// file is older than the timeout: one modified more recently is kept.
pub proof fn lemma_recent_lock_kept(
    fstype: Seq<char>,
    m: Seq<char>,
    n: nat,
    timeout: u32,
    listing: DirListing,
    now: Timestamp,
    mtime: Timestamp,
    later: Seq<Event>,
)
    requires
        is_archive_fstype(fstype),
        is_archive_mount(m),
        listing != DirListing::Empty,
        n > 0,
    ensures
        run_events(
            initial_phase(fstype, m),
            n,
            timeout,
            seq![
                Event::DirListed { listing },
                Event::LockOpened { opened: true },
                Event::LockAcquired { acquired: true },
                Event::TimesRead { now, mtime },
            ] + later,
        ) == (Phase::Done { unmount: older_than_timeout(now, mtime, timeout), lock_held: true }),
        !older_than_timeout(now, mtime, timeout) ==> run_events(
            initial_phase(fstype, m),
            n,
            timeout,
            seq![
                Event::DirListed { listing },
                Event::LockOpened { opened: true },
                Event::LockAcquired { acquired: true },
                Event::TimesRead { now, mtime },
            ] + later,
        ) == (Phase::Done { unmount: false, lock_held: true }),
{
    let e0 = Event::DirListed { listing };
    let rest = seq![
        Event::LockOpened { opened: true },
        Event::LockAcquired { acquired: true },
        Event::TimesRead { now, mtime },
    ] + later;
    assert(seq![
        e0,
        Event::LockOpened { opened: true },
        Event::LockAcquired { acquired: true },
        Event::TimesRead { now, mtime },
    ] + later =~= seq![e0] + rest);
    lemma_run_cons(Phase::AwaitDir, n, timeout, e0, rest);
    lemma_lock_age_decides(0, n, timeout, now, mtime, later);
}

/// A lock file that another holder keeps locked past the wait is never
/// grounds for unmounting; the opened handle is still handed back to be
/// closed.
pub proof fn lemma_contended_lock_kept(n: nat, timeout: u32, later: Seq<Event>)
    ensures
        run_events(
            Phase::AwaitLock,
            n,
            timeout,
            seq![Event::LockAcquired { acquired: false }] + later,
        ) == (Phase::Done { unmount: false, lock_held: true }),
{
    lemma_run_cons(Phase::AwaitLock, n, timeout, Event::LockAcquired { acquired: false }, later);
    lemma_done_absorbs(false, true, n, timeout, later);
}

/// In phase `p` a lock file opened during the evaluation is open and not
/// yet handed to the caller, or has been handed over with the verdict.
pub open spec fn lock_open(p: Phase) -> bool {
    match p {
        Phase::AwaitLock | Phase::AwaitTimes => true,
        Phase::Done { lock_held, .. } => lock_held,
        _ => false,
    }
}

/// A lock file is opened only by a successful open of a candidate, and
/// once open it stays accounted for until the verdict hands it to the
/// caller: no step loses it, so the caller closes it exactly once.
pub proof fn lemma_lock_handle_accounted(p: Phase, n: nat, timeout: u32, e: Event)
    ensures
        !lock_open(p) && lock_open(transition(p, n, timeout, e)) ==> p is AwaitOpen
            && e == (Event::LockOpened { opened: true }),
        lock_open(p) ==> lock_open(transition(p, n, timeout, e)),
{
}

} // verus!
