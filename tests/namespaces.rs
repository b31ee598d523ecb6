use clean_xar_mounts::driver::{plan_unmount, skip_namespace, NamespaceGuard, UnmountPlan};
use clean_xar_mounts::mtab::MountedFilesystem;
use clean_xar_mounts::namespaces::{decimal_digits, get_mount_namespaces, parse_pid, proc_file, ProcEntry};
use clean_xar_mounts::staleness::ShouldUnmountResult;

#[test]
fn parses_process_ids() {
    assert_eq!(parse_pid("1"), Some(1));
    assert_eq!(parse_pid("4026531840"), Some(4026531840));
    assert_eq!(parse_pid("+12"), Some(12));
    assert_eq!(parse_pid("18446744073709551615"), Some(u64::MAX));
    assert_eq!(parse_pid("18446744073709551616"), None);
    assert_eq!(parse_pid("self"), None);
    assert_eq!(parse_pid(""), None);
    assert_eq!(parse_pid("+"), None);
    assert_eq!(parse_pid("12a"), None);
}

#[test]
fn builds_proc_paths() {
    assert_eq!(proc_file(1234, "ns/mnt"), "/proc/1234/ns/mnt");
    assert_eq!(proc_file(0, "root"), "/proc/0/root");
    assert_eq!(proc_file(77, "mounts"), "/proc/77/mounts");
    assert_eq!(decimal_digits(u64::MAX).into_iter().collect::<String>(), "18446744073709551615");
}

fn entry(pid: u64, inode: u64, root: &str) -> ProcEntry {
    ProcEntry { pid, namespace_inode: inode, chroot_path: String::from(root) }
}

#[test]
fn one_record_per_namespace() {
    let entries = vec![entry(1, 100, "/"), entry(2, 200, "/jail"), entry(3, 100, "/"), entry(4, 100, "/x")];
    let mut infos = get_mount_namespaces(&entries);
    infos.sort_by_key(|i| i.namespace_inode);
    assert_eq!(infos.len(), 2);
    assert_eq!(infos[0].namespace_inode, 100);
    assert_eq!(infos[0].pid, 4);
    assert_eq!(infos[0].chroot_path, "/x");
    assert_eq!(infos[0].namespace_path, "/proc/4/ns/mnt");
    assert_eq!(infos[1].namespace_inode, 200);
    assert_eq!(infos[1].pid, 2);
    assert_eq!(infos[1].chroot_path, "/jail");
    assert!(get_mount_namespaces(&Vec::new()).is_empty());
}

#[test]
fn namespace_skipping() {
    assert!(skip_namespace(false, true));
    assert!(skip_namespace(false, false));
    assert!(skip_namespace(true, false));
    assert!(!skip_namespace(true, true));
}

#[test]
fn unmount_strategies() {
    let m = MountedFilesystem {
        mountpoint: String::from("/mnt/xarfuse/uid-0/a-ns-1"),
        chroot: String::from("/proc/5/root"),
        fstype: String::from("fuse.squashfuse"),
    };
    let keep = ShouldUnmountResult::new(false, None);
    let go = ShouldUnmountResult::new(true, Some(3));
    let target = String::from("/proc/5/root/mnt/xarfuse/uid-0/a-ns-1");
    assert!(matches!(plan_unmount(&keep, &m, false, true), UnmountPlan::Keep));
    assert!(matches!(plan_unmount(&go, &m, true, true), UnmountPlan::DryRun { target: t } if t == target));
    assert!(matches!(plan_unmount(&go, &m, false, true), UnmountPlan::Direct { target: t } if t == target));
    assert!(matches!(plan_unmount(&go, &m, false, false), UnmountPlan::Helper { target: t } if t == target));
}

#[test]
fn namespace_is_restored_after_contexts() {
    let mut g = NamespaceGuard::new(3);
    // a failed entry leaves the namespace as it was
    assert!(!g.enter(9, false));
    assert_eq!(g.leave(), None);
    assert_eq!(g.active_fd, 3);
    // a successful entry is undone on leaving
    assert!(g.enter(9, true));
    assert_eq!(g.active_fd, 9);
    // no second context while one is live
    assert!(!g.enter(10, true));
    assert_eq!(g.leave(), Some(3));
    assert_eq!(g.active_fd, 3);
    assert!(!g.inside);
}
