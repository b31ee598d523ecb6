use clean_xar_mounts::lockfile::get_lockfile_path;
use clean_xar_mounts::mtab::MountedFilesystem;

fn make_mf(mountpoint: &str) -> MountedFilesystem {
    MountedFilesystem {
        mountpoint: String::from(mountpoint),
        chroot: String::from("/"),
        fstype: String::from("fuse.squashfuse_ll"),
    }
}

fn strings(v: &[&str]) -> Vec<String> {
    v.iter().map(|s| s.to_string()).collect()
}

#[test]
fn get_lockfile_test() {
    // Confirm parsing a non-seed'd directory works
    let mf = make_mf("/mnt/xarfuse/uid-0/8f583eae-ns-4026531840");
    assert_eq!(
        get_lockfile_path(&mf),
        strings(&[
            "/mnt/xarfuse/uid-0/lockfile.8f583eae-ns-4026531840",
            "/mnt/xarfuse/uid-0/lockfile.8f583eae",
        ])
    );

    // Confirm parsing a non-seed'd /dev/shm directory works
    let mf = make_mf("/dev/shm/uid-0/8f583eae-ns-4026531840");
    assert_eq!(
        get_lockfile_path(&mf),
        strings(&[
            "/dev/shm/uid-0/lockfile.8f583eae-ns-4026531840",
            "/dev/shm/uid-0/lockfile.8f583eae",
        ])
    );

    // Confirm parsing a seed'd directory works
    let mf = make_mf("/mnt/xarfuse/uid-0/8f583eae-seed-test-ns-4026531840");
    assert_eq!(
        get_lockfile_path(&mf),
        strings(&[
            "/mnt/xarfuse/uid-0/lockfile.8f583eae-seed-test-ns-4026531840",
            "/mnt/xarfuse/uid-0/lockfile.8f583eae",
        ])
    );

    // Confirm parsing a seed'd directory with dashes works
    let mf = make_mf("/mnt/xarfuse/uid-0/8f583eae-seed-test-foo-bar-ns-4026531840");
    assert_eq!(
        get_lockfile_path(&mf),
        strings(&[
            "/mnt/xarfuse/uid-0/lockfile.8f583eae-seed-test-foo-bar-ns-4026531840",
            "/mnt/xarfuse/uid-0/lockfile.8f583eae",
        ])
    );

    // Confirm a random path doesn't parse
    let mf = make_mf("/dev/null");
    assert!(get_lockfile_path(&mf).len() == 0);
}

#[test]
fn unrecognized_root_has_no_candidates() {
    assert!(get_lockfile_path(&make_mf("/tmp/uid-0/8f583eae-ns-4026531840")).is_empty());
    assert!(get_lockfile_path(&make_mf("/mnt/other/uid-0/8f583eae-ns-4026531840")).is_empty());
    assert!(get_lockfile_path(&make_mf("")).is_empty());
}

#[test]
fn malformed_archive_paths_have_no_candidates() {
    for p in [
        "/mnt/xarfuse/uid-/8f583eae-ns-4026531840",
        "/mnt/xarfuse/uid-x/8f583eae-ns-4026531840",
        "/mnt/xarfuse/uid-0/8f583eae-ns-",
        "/mnt/xarfuse/uid-0/8f583eae-ns-40-26",
        "/mnt/xarfuse/uid-0/-ns-4026531840",
        "/mnt/xarfuse/uid-0/8f583eae-seed--ns-4026531840",
        "/mnt/xarfuse/uid-0/8f583eae-seed-ns-4026531840",
        "/mnt/xarfuse/uid-0/8f583eae-ns-4026531840/sub",
        "/mnt/xarfuse/uid-0/8f583eae",
        "/mnt/xarfuse/8f583eae-ns-4026531840",
    ] {
        assert!(get_lockfile_path(&make_mf(p)).is_empty(), "{}", p);
    }
}

#[test]
fn lock_candidates_resolve_against_namespace_root() {
    let mf = MountedFilesystem {
        mountpoint: String::from("/dev/shm/uid-1000/abc-seed-s-ns-7"),
        chroot: String::from("/proc/42/root"),
        fstype: String::from("fuse.squashfuse"),
    };
    assert_eq!(
        get_lockfile_path(&mf),
        strings(&[
            "/proc/42/root/dev/shm/uid-1000/lockfile.abc-seed-s-ns-7",
            "/proc/42/root/dev/shm/uid-1000/lockfile.abc",
        ])
    );
}

#[test]
fn resolved_path_strips_leading_separator() {
    let mf = MountedFilesystem {
        mountpoint: String::from("/mnt/xarfuse/uid-0/a-ns-1"),
        chroot: String::from("/proc/9/root/"),
        fstype: String::from("fuse.squashfuse"),
    };
    assert_eq!(mf.resolved_path(), "/proc/9/root/mnt/xarfuse/uid-0/a-ns-1");
    let mf = make_mf("/mnt/xarfuse/uid-0/a-ns-1");
    assert_eq!(mf.resolved_path(), "/mnt/xarfuse/uid-0/a-ns-1");
}
