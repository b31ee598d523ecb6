//! Lock discovery: which lock files may govern an archive mount.
use vstd::prelude::*;
use crate::text::{lacks, has_prefix, chars_of, string_of, starts_with_chars, slice_chars, append_chars, is_digit};
use crate::mtab::{MountedFilesystem, join_path, join_chars};

verus! {

/// The mount roots under which archive mounts are recognized.
pub open spec fn xarfuse_root() -> Seq<char> {
    "/mnt/xarfuse/"@
}

pub open spec fn shm_root() -> Seq<char> {
    "/dev/shm/"@
}

/// What follows the first recognized root that `m` starts with.
pub open spec fn mount_suffix(m: Seq<char>) -> Option<Seq<char>> {
    if has_prefix(m, xarfuse_root()) {
        Some(m.subrange(xarfuse_root().len() as int, m.len() as int))
    } else if has_prefix(m, shm_root()) {
        Some(m.subrange(shm_root().len() as int, m.len() as int))
    } else {
        None
    }
}

/// `s` starts with `uid-<digits>/`, the slash standing at `j`.
pub open spec fn uid_dir_split(s: Seq<char>, j: int) -> bool {
    &&& 4 < j < s.len()
    &&& s[0] == 'u' && s[1] == 'i' && s[2] == 'd' && s[3] == '-'
    &&& forall|i: int| 4 <= i < j ==> is_digit(s[i])
    &&& s[j] == '/'
}

/// `d` reads `<id>[-seed-<seed>]-ns-<nsid>`: the id ends at `u`, the
/// `-ns-` marker starts at `k`. The id holds no dash, the seed is not
/// empty, the namespace id is not empty and holds no dash, and no part
/// holds a slash.
pub open spec fn archive_dir_split(d: Seq<char>, u: int, k: int) -> bool {
    &&& 0 < u <= k
    &&& k + 4 < d.len()
    &&& lacks(d, '/')
    &&& forall|i: int| 0 <= i < u ==> d[i] != '-'
    &&& d[k] == '-' && d[k + 1] == 'n' && d[k + 2] == 's' && d[k + 3] == '-'
    &&& forall|i: int| k + 4 <= i < d.len() ==> d[i] != '-'
    &&& (u == k || (u + 6 < k && d[u] == '-' && d[u + 1] == 's' && d[u + 2] == 'e'
        && d[u + 3] == 'e' && d[u + 4] == 'd' && d[u + 5] == '-'))
}

/// The suffix `s` (after the recognized root) reads
/// `uid-<digits>/<archive dir>`, split at `j`, `u` and `k`.
pub open spec fn archive_layout(s: Seq<char>, j: int, u: int, k: int) -> bool {
    uid_dir_split(s, j) && archive_dir_split(s.subrange(j + 1, s.len() as int), u, k)
}

pub open spec fn is_archive_suffix(s: Seq<char>) -> bool {
    exists|j: int, u: int, k: int| archive_layout(s, j, u, k)
}

/// The mount path has the shape of an archive mount under a recognized root.
pub open spec fn is_archive_mount(m: Seq<char>) -> bool {
    match mount_suffix(m) {
        Some(s) => is_archive_suffix(s),
        None => false,
    }
}

/// The lock-file candidates of mount path `m` seen from root `chroot`:
/// `lockfile.<mount dir>` then `lockfile.<id>`, both beside the mount
/// directory; none when `m` is no archive mount.
pub open spec fn lockfile_candidates(chroot: Seq<char>, m: Seq<char>) -> Seq<Seq<char>> {
    if is_archive_mount(m) {
        let s = mount_suffix(m)->Some_0;
        let (j, u, k) = choose|j: int, u: int, k: int| archive_layout(s, j, u, k);
        let d = s.subrange(j + 1, s.len() as int);
        let base = join_path(chroot, m.subrange(1, m.len() - d.len())) + "lockfile."@;
        seq![base + d, base + d.subrange(0, u)]
    } else {
        Seq::empty()
    }
}

proof fn lemma_layout_unique(s: Seq<char>, j1: int, u1: int, k1: int, j2: int, u2: int, k2: int)
    requires
        archive_layout(s, j1, u1, k1),
        archive_layout(s, j2, u2, k2),
    ensures
        j1 == j2 && u1 == u2 && k1 == k2,
{
    if j1 < j2 {
        assert(is_digit(s[j1]));
    }
    if j2 < j1 {
        assert(is_digit(s[j2]));
    }
    let d = s.subrange(j1 + 1, s.len() as int);
    assert(d[u1] == '-');
    assert(d[u2] == '-');
    assert(d[k1 + 3] == '-');
    assert(d[k2 + 3] == '-');
}

/// Position of the `/` that ends the `uid-<digits>` component, if `s`
/// starts with one.
fn uid_component_end(s: &Vec<char>) -> (r: Option<usize>)
    ensures
        r matches Some(j) ==> uid_dir_split(s@, j as int),
        r is None ==> forall|j: int| !uid_dir_split(s@, j),
{
    if s.len() < 6 || s[0] != 'u' || s[1] != 'i' || s[2] != 'd' || s[3] != '-' {
        return None;
    }
    let mut j: usize = 4;
    while j < s.len() && '0' <= s[j] && s[j] <= '9'
        invariant
            4 <= j <= s.len(),
            forall|i: int| 4 <= i < j ==> is_digit(s@[i]),
        decreases s.len() - j,
    {
        j = j + 1;
    }
    if j == 4 || j >= s.len() || s[j] != '/' {
        proof {
            assert forall|j2: int| !uid_dir_split(s@, j2) by {
                if uid_dir_split(s@, j2) && j2 > j {
                    assert(is_digit(s@[j as int]));
                }
            }
        }
        return None;
    }
    Some(j)
}

/// Splits an archive directory name at the end of its id and at its
/// `-ns-` marker.
fn archive_dir_parts(d: &Vec<char>) -> (r: Option<(usize, usize)>)
    ensures
        r matches Some((u, k)) ==> archive_dir_split(d@, u as int, k as int),
        r is None ==> forall|u: int, k: int| !archive_dir_split(d@, u, k),
{
    let n = d.len();
    let mut i: usize = 0;
    while i < n
        invariant
            n == d.len(),
            i <= n,
            forall|t: int| 0 <= t < i ==> d@[t] != '/',
        decreases n - i,
    {
        if d[i] == '/' {
            return None;
        }
        i = i + 1;
    }
    // the last dash
    let mut l: usize = n;
    while l > 0 && d[l - 1] != '-'
        invariant
            l <= n == d.len(),
            forall|t: int| l <= t < n ==> d@[t] != '-',
        decreases l,
    {
        l = l - 1;
    }
    if l < 5 || l >= n || d[l - 4] != '-' || d[l - 3] != 'n' || d[l - 2] != 's' {
        proof {
            assert forall|u: int, k: int| !archive_dir_split(d@, u, k) by {
                if archive_dir_split(d@, u, k) {
                    assert(d@[k + 3] == '-');
                }
            }
        }
        return None;
    }
    let k: usize = l - 4;
    // the first dash
    let mut u: usize = 0;
    while d[u] != '-'
        invariant
            u <= k < n == d.len(),
            d@[k as int] == '-',
            forall|t: int| 0 <= t < u ==> d@[t] != '-',
        decreases k - u,
    {
        u = u + 1;
    }
    let ok = u > 0 && (u == k || (u + 6 < k && d[u + 1] == 's' && d[u + 2] == 'e'
        && d[u + 3] == 'e' && d[u + 4] == 'd' && d[u + 5] == '-'));
    if !ok {
        proof {
            assert forall|u2: int, k2: int| !archive_dir_split(d@, u2, k2) by {
                if archive_dir_split(d@, u2, k2) {
                    assert(d@[k2 + 3] == '-');
                    assert(d@[u2] == '-');
                    assert(k2 == k);
                }
            }
        }
        return None;
    }
    Some((u, k))
}

/// Lock discovery: the candidate lock files of `mount`, most specific
/// first; empty when the mount path has no archive-mount shape under a
/// recognized root, in which case the mount is out of scope.
pub fn get_lockfile_path(mount: &MountedFilesystem) -> (r: Vec<String>)
    ensures
        r@.len() == lockfile_candidates(mount.chroot@, mount.mountpoint@).len(),
        forall|i: int| 0 <= i < r@.len()
            ==> #[trigger] r@[i]@ == lockfile_candidates(mount.chroot@, mount.mountpoint@)[i],
        r@.len() == 0 <==> !is_archive_mount(mount.mountpoint@),
{
    let m = chars_of(mount.mountpoint.as_str());
    let xarfuse = chars_of("/mnt/xarfuse/");
    let shm = chars_of("/dev/shm/");
    let s = if starts_with_chars(&m, &xarfuse) {
        slice_chars(&m, xarfuse.len(), m.len())
    } else if starts_with_chars(&m, &shm) {
        slice_chars(&m, shm.len(), m.len())
    } else {
        return Vec::new();
    };
    assert(mount_suffix(m@) == Some(s@));
    let j = match uid_component_end(&s) {
        Some(j) => j,
        None => {
            return Vec::new();
        },
    };
    let d = slice_chars(&s, j + 1, s.len());
    let (u, k) = match archive_dir_parts(&d) {
        Some(p) => p,
        None => {
            proof {
                assert forall|j2: int, u2: int, k2: int| !archive_layout(s@, j2, u2, k2) by {
                    if archive_layout(s@, j2, u2, k2) {
                        if j2 < j {
                            assert(is_digit(s@[j2]));
                        }
                        if j < j2 {
                            assert(is_digit(s@[j as int]));
                        }
                    }
                }
            }
            return Vec::new();
        },
    };
    assert(archive_layout(s@, j as int, u as int, k as int));
    let ghost chosen = choose|j: int, u: int, k: int| archive_layout(s@, j, u, k);
    proof {
        lemma_layout_unique(s@, j as int, u as int, k as int, chosen.0, chosen.1, chosen.2);
    }
    assert(m@.len() > d@.len());
    let dir_parent = slice_chars(&m, 1, m.len() - d.len());
    let mut base = join_chars(&chars_of(mount.chroot.as_str()), &dir_parent);
    append_chars(&mut base, &chars_of("lockfile."));
    let mut new_style = base.clone();
    append_chars(&mut new_style, &d);
    let mut legacy = base;
    append_chars(&mut legacy, &slice_chars(&d, 0, u));
    let mut r: Vec<String> = Vec::new();
    r.push(string_of(&new_style));
    r.push(string_of(&legacy));
    r
}

} // verus!
