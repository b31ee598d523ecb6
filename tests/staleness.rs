use clean_xar_mounts::mtab::MountedFilesystem;
use clean_xar_mounts::staleness::{
    is_archive_fs_type, lock_is_stale, lock_wait_step, Action, LockWait, LOCK_RETRY_MS, DirListing, Event, Phase, ShouldUnmountResult,
    StalenessCheck, Timestamp, LOCK_WAIT_SECS,
};

fn mount(path: &str, fstype: &str) -> MountedFilesystem {
    MountedFilesystem {
        mountpoint: String::from(path),
        chroot: String::from("/"),
        fstype: String::from(fstype),
    }
}

fn ts(secs: i64, nanos: u32) -> Timestamp {
    Timestamp { secs, nanos }
}

const XAR: &str = "/mnt/xarfuse/uid-0/8f583eae-ns-4026531840";

#[test]
fn archive_types() {
    assert!(is_archive_fs_type("fuse.squashfuse"));
    assert!(is_archive_fs_type("fuse.squashfuse_ll"));
    assert!(is_archive_fs_type("osxfusefs"));
    assert!(is_archive_fs_type("osxfuse"));
    assert!(!is_archive_fs_type("ext4"));
    assert!(!is_archive_fs_type("fuse"));
    assert!(!is_archive_fs_type("fuse.squashfuse_l"));
}

#[test]
fn stale_iff_older_than_timeout() {
    // 15 minutes is 900 s
    assert!(!lock_is_stale(ts(1900, 0), ts(1000, 0), 15));
    assert!(lock_is_stale(ts(1900, 1), ts(1000, 0), 15));
    assert!(!lock_is_stale(ts(1899, 999_999_999), ts(1000, 0), 15));
    assert!(lock_is_stale(ts(1000, 1), ts(1000, 0), 0));
    assert!(!lock_is_stale(ts(1000, 0), ts(1000, 0), 0));
    // a modification time in the future is recent
    assert!(!lock_is_stale(ts(1000, 0), ts(5000, 0), 0));
}

#[test]
fn wrong_type_is_never_unmounted() {
    let c = StalenessCheck::new(&mount(XAR, "ext4"), 15);
    assert_eq!(c.action(), Action::Finish { unmount: false, lock_held: false });
}

#[test]
fn unrecognized_root_is_never_unmounted() {
    let mut c = StalenessCheck::new(&mount("/tmp/uid-0/8f583eae-ns-4026531840", "fuse.squashfuse_ll"), 15);
    assert!(c.candidates.is_empty());
    assert_eq!(c.action(), Action::Finish { unmount: false, lock_held: false });
    // later events change nothing
    let a = c.step(Event::DirListed { listing: DirListing::Empty });
    assert_eq!(a, Action::Finish { unmount: false, lock_held: false });
}

#[test]
fn empty_directory_is_unmounted_without_lock() {
    let mut c = StalenessCheck::new(&mount(XAR, "fuse.squashfuse_ll"), 15);
    assert_eq!(c.action(), Action::ListDir);
    let a = c.step(Event::DirListed { listing: DirListing::Empty });
    assert_eq!(a, Action::Finish { unmount: true, lock_held: false });
}

#[test]
fn missing_lock_files_mean_stale() {
    let mut c = StalenessCheck::new(&mount(XAR, "fuse.squashfuse"), 15);
    assert_eq!(c.step(Event::DirListed { listing: DirListing::Unreadable }), Action::OpenLock { index: 0 });
    assert_eq!(c.step(Event::LockOpened { opened: false }), Action::OpenLock { index: 1 });
    assert_eq!(
        c.step(Event::LockOpened { opened: false }),
        Action::Finish { unmount: true, lock_held: false }
    );
}

#[test]
fn recent_lock_keeps_mount() {
    let mut c = StalenessCheck::new(&mount(XAR, "fuse.squashfuse_ll"), 15);
    assert_eq!(c.step(Event::DirListed { listing: DirListing::NonEmpty }), Action::OpenLock { index: 0 });
    assert_eq!(
        c.step(Event::LockOpened { opened: true }),
        Action::AcquireLock { timeout_secs: LOCK_WAIT_SECS }
    );
    assert_eq!(LOCK_WAIT_SECS, 60);
    assert_eq!(c.step(Event::LockAcquired { acquired: true }), Action::ReadTimes);
    let a = c.step(Event::TimesRead { now: ts(10_000, 0), mtime: ts(10_000 - 60, 0) });
    assert_eq!(a, Action::Finish { unmount: false, lock_held: true });
}

#[test]
fn old_lock_allows_unmount() {
    let mut c = StalenessCheck::new(&mount(XAR, "fuse.squashfuse_ll"), 15);
    c.step(Event::DirListed { listing: DirListing::NonEmpty });
    assert_eq!(c.step(Event::LockOpened { opened: false }), Action::OpenLock { index: 1 });
    c.step(Event::LockOpened { opened: true });
    c.step(Event::LockAcquired { acquired: true });
    let a = c.step(Event::TimesRead { now: ts(10_000, 0), mtime: ts(10_000 - 16 * 60, 0) });
    assert_eq!(a, Action::Finish { unmount: true, lock_held: true });
    assert!(matches!(c.phase, Phase::Done { unmount: true, lock_held: true }));
}

#[test]
fn contended_lock_keeps_mount() {
    let mut c = StalenessCheck::new(&mount(XAR, "osxfuse"), 1);
    c.step(Event::DirListed { listing: DirListing::NonEmpty });
    c.step(Event::LockOpened { opened: true });
    let a = c.step(Event::LockAcquired { acquired: false });
    assert_eq!(a, Action::Finish { unmount: false, lock_held: true });
}

#[test]
fn unexpected_event_is_ignored() {
    let mut c = StalenessCheck::new(&mount(XAR, "osxfuse"), 1);
    assert_eq!(c.step(Event::LockAcquired { acquired: true }), Action::ListDir);
}

#[test]
fn decision_holds_lock_descriptor() {
    let r = ShouldUnmountResult::new(true, Some(7));
    assert!(r.should_unmount);
    assert_eq!(r.lock_fd, Some(7));
    let r = ShouldUnmountResult::new(false, None);
    assert!(!r.should_unmount);
    assert_eq!(r.lock_fd, None);
}

#[test]
fn lock_wait_policy() {
    assert_eq!(LOCK_RETRY_MS, 10);
    assert_eq!(lock_wait_step(0, 60, true), LockWait::Acquired);
    assert_eq!(lock_wait_step(59, 60, false), LockWait::Retry { sleep_ms: 10 });
    assert_eq!(lock_wait_step(60, 60, true), LockWait::GiveUp);
    assert_eq!(lock_wait_step(0, 0, true), LockWait::GiveUp);
}
