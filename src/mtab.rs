//! Mounts as listed in a namespace's mount table.
use vstd::prelude::*;
use crate::text::{chars_of, string_of, append_chars, slice_chars};

verus! {

/// One mount point as seen inside a mount namespace.
pub struct MountedFilesystem {
    /// Absolute mount path inside the namespace, already unescaped.
    pub mountpoint: String,
    /// Root of the namespace as seen from outside it.
    pub chroot: String,
    /// Filesystem type.
    pub fstype: String,
}

/// `rel` appended to `root` as a further path component.
pub open spec fn join_path(root: Seq<char>, rel: Seq<char>) -> Seq<char> {
    if root.len() == 0 || root.last() == '/' {
        root + rel
    } else {
        root.push('/') + rel
    }
}

/// `m` with a leading separator removed.
pub open spec fn strip_root(m: Seq<char>) -> Seq<char> {
    if m.len() > 0 && m[0] == '/' {
        m.subrange(1, m.len() as int)
    } else {
        m
    }
}

/// The path of mount point `m` seen from outside its namespace.
pub open spec fn resolved_path(chroot: Seq<char>, m: Seq<char>) -> Seq<char> {
    join_path(chroot, strip_root(m))
}

pub fn join_chars(root: &Vec<char>, rel: &Vec<char>) -> (r: Vec<char>)
    ensures
        r@ == join_path(root@, rel@),
{
    let mut r = root.clone();
    if root.len() > 0 && root[root.len() - 1] != '/' {
        r.push('/');
    }
    append_chars(&mut r, rel);
    r
}

impl MountedFilesystem {
    /// The mount point resolved against the namespace root, as a path
    /// usable from outside the namespace.
    pub fn resolved_path(&self) -> (r: String)
        ensures
            r@ == resolved_path(self.chroot@, self.mountpoint@),
    {
        let m = chars_of(self.mountpoint.as_str());
        let rel = if m.len() > 0 && m[0] == '/' {
            slice_chars(&m, 1, m.len())
        } else {
            m
        };
        assert(rel@ == strip_root(m@)) by {
            if m@.len() > 0 && m@[0] == '/' {
            } else {
            }
        }
        string_of(&join_chars(&chars_of(self.chroot.as_str()), &rel))
    }
}

/// The character that the escape at the start of `s` stands for, if `s`
/// starts with one: a backslash and the three octal digits of a backslash
/// (`134`), tab (`011`), carriage return (`015`), newline (`012`) or space
/// (`040`).
pub open spec fn escape_at(s: Seq<char>) -> Option<char> {
    if s.len() >= 4 && s[0] == '\\' {
        if s[1] == '1' && s[2] == '3' && s[3] == '4' {
            Some('\\')
        } else if s[1] == '0' && s[2] == '1' && s[3] == '1' {
            Some('\t')
        } else if s[1] == '0' && s[2] == '1' && s[3] == '5' {
            Some('\r')
        } else if s[1] == '0' && s[2] == '1' && s[3] == '2' {
            Some('\n')
        } else if s[1] == '0' && s[2] == '4' && s[3] == '0' {
            Some(' ')
        } else {
            None
        }
    } else {
        None
    }
}

/// A mount-table path field decoded in one pass from the left: each escape
/// becomes its character, every other character stays.
pub open spec fn unescape_mount_path(s: Seq<char>) -> Seq<char>
    decreases s.len(),
{
    if s.len() == 0 {
        s
    } else {
        match escape_at(s) {
            Some(c) => seq![c] + unescape_mount_path(s.subrange(4, s.len() as int)),
            None => seq![s[0]] + unescape_mount_path(s.subrange(1, s.len() as int)),
        }
    }
}

fn escape_in(s: &Vec<char>, i: usize) -> (r: Option<char>)
    requires
        i <= s.len(),
    ensures
        r == escape_at(s@.subrange(i as int, s@.len() as int)),
{
    let ghost t = s@.subrange(i as int, s@.len() as int);
    if s.len() - i < 4 || s[i] != '\\' {
        return None;
    }
    assert(t[1] == s@[i + 1] && t[2] == s@[i + 2] && t[3] == s@[i + 3]);
    let (a, b, c) = (s[i + 1], s[i + 2], s[i + 3]);
    if a == '1' && b == '3' && c == '4' {
        Some('\\')
    } else if a == '0' && b == '1' && c == '1' {
        Some('\t')
    } else if a == '0' && b == '1' && c == '5' {
        Some('\r')
    } else if a == '0' && b == '1' && c == '2' {
        Some('\n')
    } else if a == '0' && b == '4' && c == '0' {
        Some(' ')
    } else {
        None
    }
}

/// Decodes the octal escapes of a mount-table path field.
pub fn unescape_mountpoint(raw: &str) -> (r: String)
    ensures
        r@ == unescape_mount_path(raw@),
{
    let s = chars_of(raw);
    let n = s.len();
    let mut r: Vec<char> = Vec::new();
    let mut i: usize = 0;
    assert(s@.subrange(0, n as int) =~= s@);
    assert(r@ + unescape_mount_path(s@) =~= unescape_mount_path(s@));
    while i < n
        invariant
            n == s.len(),
            s@ == raw@,
            i <= n,
            r@ + unescape_mount_path(s@.subrange(i as int, n as int)) == unescape_mount_path(s@),
        decreases n - i,
    {
        let ghost rest = s@.subrange(i as int, n as int);
        match escape_in(&s, i) {
            Some(c) => {
                assert(rest.subrange(4, rest.len() as int) =~= s@.subrange(i + 4, n as int));
                assert(r@.push(c) + unescape_mount_path(s@.subrange(i + 4, n as int)) =~= r@ + (
                seq![c] + unescape_mount_path(s@.subrange(i + 4, n as int))));
                r.push(c);
                i = i + 4;
            },
            None => {
                assert(rest.subrange(1, rest.len() as int) =~= s@.subrange(i + 1, n as int));
                assert(r@.push(s@[i as int]) + unescape_mount_path(s@.subrange(i + 1, n as int))
                    =~= r@ + (seq![s@[i as int]] + unescape_mount_path(
                    s@.subrange(i + 1, n as int),
                )));
                r.push(s[i]);
                i = i + 1;
            },
        }
    }
    assert(s@.subrange(n as int, n as int) =~= Seq::<char>::empty());
    assert(r@ + Seq::<char>::empty() =~= r@);
    string_of(&r)
}

/// The first space at or after `from`, or the length of `s` if none.
pub open spec fn next_space(s: Seq<char>, from: int) -> int
    decreases s.len() - from,
{
    if from < 0 || from >= s.len() {
        s.len() as int
    } else if s[from] == ' ' {
        from
    } else {
        next_space(s, from + 1)
    }
}

/// The mount-point and type fields (the second and third space-separated
/// fields) of a mount-table line, the mount point unescaped; `None` when
/// the line has fewer than three fields.
pub open spec fn mount_entry(line: Seq<char>) -> Option<(Seq<char>, Seq<char>)> {
    let a = next_space(line, 0);
    let b = next_space(line, a + 1);
    let c = next_space(line, b + 1);
    if a < line.len() && b < line.len() {
        Some((unescape_mount_path(line.subrange(a + 1, b)), line.subrange(b + 1, c)))
    } else {
        None
    }
}

/// The entries of the well-formed lines among `lines`, in order.
pub open spec fn mount_entries(lines: Seq<Seq<char>>) -> Seq<(Seq<char>, Seq<char>)>
    decreases lines.len(),
{
    if lines.len() == 0 {
        Seq::empty()
    } else {
        let earlier = mount_entries(lines.drop_last());
        match mount_entry(lines.last()) {
            Some(e) => earlier.push(e),
            None => earlier,
        }
    }
}

proof fn lemma_next_space_bounds(s: Seq<char>, from: int)
    ensures
        0 <= from <= s.len() ==> from <= next_space(s, from) <= s.len(),
        next_space(s, from) <= s.len(),
        next_space(s, from) < s.len() ==> s[next_space(s, from)] == ' ',
    decreases s.len() - from,
{
    if from < 0 || from >= s.len() {
    } else if s[from] == ' ' {
    } else {
        lemma_next_space_bounds(s, from + 1);
    }
}

fn find_space(s: &Vec<char>, from: usize) -> (r: usize)
    requires
        from <= s.len(),
    ensures
        r as int == next_space(s@, from as int),
{
    let mut i = from;
    while i < s.len() && s[i] != ' '
        invariant
            from <= i <= s.len(),
            next_space(s@, i as int) == next_space(s@, from as int),
        decreases s.len() - i,
    {
        i = i + 1;
    }
    i
}

/// Parses one mount-table line of a namespace rooted at `chroot`; `None`
/// for a malformed line.
pub fn parse_mount_line(line: &str, chroot: &str) -> (r: Option<MountedFilesystem>)
    ensures
        match mount_entry(line@) {
            Some(e) => r matches Some(mf) && mf.mountpoint@ == e.0 && mf.fstype@ == e.1
                && mf.chroot@ == chroot@,
            None => r is None,
        },
{
    let l = chars_of(line);
    let a = find_space(&l, 0);
    proof { lemma_next_space_bounds(l@, 0); }
    if a >= l.len() {
        return None;
    }
    let b = find_space(&l, a + 1);
    proof { lemma_next_space_bounds(l@, a + 1); }
    if b >= l.len() {
        return None;
    }
    let c = find_space(&l, b + 1);
    proof { lemma_next_space_bounds(l@, b + 1); }
    let raw = string_of(&slice_chars(&l, a + 1, b));
    let mountpoint = unescape_mountpoint(raw.as_str());
    let fstype = string_of(&slice_chars(&l, b + 1, c));
    let chroot = string_of(&chars_of(chroot));
    Some(MountedFilesystem { mountpoint, chroot, fstype })
}

/// The characters of each line.
pub open spec fn line_views(lines: Seq<String>) -> Seq<Seq<char>> {
    lines.map_values(|l: String| l@)
}

/// Mount Table Reader: the mounts listed by the lines of a namespace's
/// mount table, malformed lines skipped, in order.
pub fn get_mounts(lines: &Vec<String>, chroot: &str) -> (r: Vec<MountedFilesystem>)
    ensures
        r@.len() == mount_entries(line_views(lines@)).len(),
        forall|i: int|
            0 <= i < r@.len() ==> {
                let e = mount_entries(line_views(lines@))[i];
                &&& (#[trigger] r@[i]).mountpoint@ == e.0
                &&& r@[i].fstype@ == e.1
                &&& r@[i].chroot@ == chroot@
            },
{
    let ghost views = line_views(lines@);
    let mut r: Vec<MountedFilesystem> = Vec::new();
    let mut i: usize = 0;
    while i < lines.len()
        invariant
            i <= lines.len(),
            views == line_views(lines@),
            r@.len() == mount_entries(views.subrange(0, i as int)).len(),
            forall|q: int|
                0 <= q < r@.len() ==> {
                    let e = #[trigger] mount_entries(views.subrange(0, i as int))[q];
                    &&& r@[q].mountpoint@ == e.0
                    &&& r@[q].fstype@ == e.1
                    &&& r@[q].chroot@ == chroot@
                },
        decreases lines.len() - i,
    {
        assert(views.subrange(0, i + 1).drop_last() =~= views.subrange(0, i as int));
        assert(views.subrange(0, i + 1).last() == lines@[i as int]@);
        match parse_mount_line(lines[i].as_str(), chroot) {
            Some(mf) => {
                r.push(mf);
            },
            None => {},
        }
        i = i + 1;
    }
    assert(views.subrange(0, lines.len() as int) =~= views);
    r
}

} // verus!
