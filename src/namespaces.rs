//! The namespace enumerator: process ids from `/proc`, the paths that reach
//! a process's mount namespace, and one record per distinct namespace.
use vstd::prelude::*;
use crate::text::{chars_of, string_of, append_chars, is_digit};

verus! {

pub open spec fn all_digits(s: Seq<char>) -> bool {
    forall|i: int| 0 <= i < s.len() ==> is_digit(s[i])
}

/// The number written by the decimal digits `s`.
pub open spec fn decimal_value(s: Seq<char>) -> int
    decreases s.len(),
{
    if s.len() == 0 {
        0
    } else {
        decimal_value(s.drop_last()) * 10 + (s.last() as int - '0' as int)
    }
}

/// The character of decimal digit `d`.
pub open spec fn digit_char(d: nat) -> char {
    ((d + '0' as int) as u8) as char
}

/// The decimal text of `n`, without leading zeros.
pub open spec fn decimal_text(n: nat) -> Seq<char>
    decreases n,
{
    if n < 10 {
        seq![digit_char(n)]
    } else {
        decimal_text(n / 10).push(digit_char(n % 10))
    }
}

/// The unsigned integer that `s` reads, as std's integer parser reads it:
/// an optional `+`, then one or more decimal digits, the value fitting in
/// 64 bits.
pub open spec fn pid_of(s: Seq<char>) -> Option<u64> {
    let d = if s.len() > 0 && s[0] == '+' { s.subrange(1, s.len() as int) } else { s };
    if d.len() > 0 && all_digits(d) && decimal_value(d) <= u64::MAX {
        Some(decimal_value(d) as u64)
    } else {
        None
    }
}

proof fn lemma_decimal_prefix(s: Seq<char>, i: int)
    requires
        all_digits(s),
        0 <= i <= s.len(),
    ensures
        decimal_value(s) >= decimal_value(s.subrange(0, i)) >= 0,
    decreases s.len(),
{
    if i == s.len() {
        assert(s.subrange(0, i) =~= s);
        if s.len() > 0 {
            lemma_decimal_prefix(s.drop_last(), i - 1);
            assert(s.drop_last().subrange(0, i - 1) =~= s.drop_last());
        }
    } else {
        lemma_decimal_prefix(s.drop_last(), i);
        assert(s.drop_last().subrange(0, i) =~= s.subrange(0, i));
        lemma_decimal_prefix(s.drop_last(), s.len() - 1);
        assert(s.drop_last().subrange(0, s.len() - 1) =~= s.drop_last());
    }
}

/// Reads a process id from the name of a `/proc` entry; `None` for a name
/// that is not a number.
pub fn parse_pid(name: &str) -> (r: Option<u64>)
    ensures
        r == pid_of(name@),
{
    let s = chars_of(name);
    let start: usize = if s.len() > 0 && s[0] == '+' { 1 } else { 0 };
    let ghost d = if s@.len() > 0 && s@[0] == '+' { s@.subrange(1, s@.len() as int) } else { s@ };
    assert(d =~= s@.subrange(start as int, s@.len() as int));
    if start >= s.len() {
        return None;
    }
    let mut v: u64 = 0;
    let mut i: usize = start;
    while i < s.len()
        invariant
            start <= i <= s.len(),
            s@ == name@,
            d == s@.subrange(start as int, s@.len() as int),
            d == (if s@.len() > 0 && s@[0] == '+' { s@.subrange(1, s@.len() as int) } else { s@ }),
            all_digits(d.subrange(0, i - start)),
            v as int == decimal_value(d.subrange(0, i - start)),
        decreases s.len() - i,
    {
        let c = s[i];
        if !('0' <= c && c <= '9') {
            assert(d[i - start] == c);
            assert(!is_digit(d[i - start]));
            assert(!all_digits(d));
            return None;
        }
        let digit = (c as u32 - '0' as u32) as u64;
        let ghost next = d.subrange(0, i + 1 - start);
        assert(next.drop_last() =~= d.subrange(0, i - start));
        assert(all_digits(next));
        assert(next.last() == c);
        assert(decimal_value(next) == v * 10 + digit);
        if v > (u64::MAX - digit) / 10 {
            assert(v * 10 + digit > u64::MAX) by (nonlinear_arith)
                requires
                    v > (u64::MAX - digit) / 10,
                    digit <= 9,
            ;
            proof {
                if all_digits(d) {
                    lemma_decimal_prefix(d, i + 1 - start);
                }
            }
            return None;
        }
        v = v * 10 + digit;
        i = i + 1;
    }
    assert(d.subrange(0, d.len() as int) =~= d);
    Some(v)
}

/// The decimal digits of `n`.
pub fn decimal_digits(n: u64) -> (r: Vec<char>)
    ensures
        r@ == decimal_text(n as nat),
    decreases n,
{
    if n < 10 {
        let c = ((n as u8) + ('0' as u8)) as char;
        let mut r: Vec<char> = Vec::new();
        r.push(c);
        r
    } else {
        let mut r = decimal_digits(n / 10);
        let c = (((n % 10) as u8) + ('0' as u8)) as char;
        r.push(c);
        r
    }
}

/// `/proc/<pid>/<leaf>`.
pub open spec fn proc_path(pid: u64, leaf: Seq<char>) -> Seq<char> {
    "/proc/"@ + decimal_text(pid as nat) + "/"@ + leaf
}

/// The path `/proc/<pid>/<leaf>`.
pub fn proc_file(pid: u64, leaf: &str) -> (r: String)
    ensures
        r@ == proc_path(pid, leaf@),
{
    let mut p = chars_of("/proc/");
    append_chars(&mut p, &decimal_digits(pid));
    append_chars(&mut p, &chars_of("/"));
    append_chars(&mut p, &chars_of(leaf));
    string_of(&p)
}

/// What a scan of `/proc` learned of one process.
pub struct ProcEntry {
    pub pid: u64,
    /// Inode of the process's dereferenced `ns/mnt` link: the namespace id.
    pub namespace_inode: u64,
    /// Target of the process's `root` link.
    pub chroot_path: String,
}

/// One distinct mount namespace.
pub struct MountNamespaceInfo {
    /// Path through which the namespace can be entered.
    pub namespace_path: String,
    /// Root directory of the namespace as seen from outside it.
    pub chroot_path: String,
    /// A process inside the namespace, whose mount table is read.
    pub pid: u64,
    /// The namespace id.
    pub namespace_inode: u64,
}

/// `info` is the record of entry `e`.
pub open spec fn describes(info: MountNamespaceInfo, e: ProcEntry) -> bool {
    &&& info.pid == e.pid
    &&& info.namespace_inode == e.namespace_inode
    &&& info.chroot_path@ == e.chroot_path@
    &&& info.namespace_path@ == proc_path(e.pid, "ns/mnt"@)
}

/// `info` is the record of the last entry among `entries` with its
/// namespace id.
pub open spec fn represents(info: MountNamespaceInfo, entries: Seq<ProcEntry>) -> bool {
    exists|j: int|
        0 <= j < entries.len() && describes(info, #[trigger] entries[j]) && forall|k: int|
            j < k < entries.len() ==> (#[trigger] entries[k]).namespace_inode != info.namespace_inode
}

/// Some record of `infos` is for namespace `inode`.
pub open spec fn covers(infos: Seq<MountNamespaceInfo>, inode: u64) -> bool {
    exists|a: int| 0 <= a < infos.len() && (#[trigger] infos[a]).namespace_inode == inode
}

impl MountNamespaceInfo {
    pub fn describe(e: &ProcEntry) -> (r: MountNamespaceInfo)
        ensures
            describes(r, *e),
    {
        MountNamespaceInfo {
            namespace_path: proc_file(e.pid, "ns/mnt"),
            chroot_path: e.chroot_path.clone(),
            pid: e.pid,
            namespace_inode: e.namespace_inode,
        }
    }
}

/// Namespace Enumerator: one record per distinct namespace id among the
/// scanned processes, each for the last process scanned in that namespace.
pub fn get_mount_namespaces(entries: &Vec<ProcEntry>) -> (r: Vec<MountNamespaceInfo>)
    ensures
        forall|a: int, b: int|
            0 <= a < b < r@.len() ==> (#[trigger] r@[a]).namespace_inode != (#[trigger] r@[b]).namespace_inode,
        forall|k: int| 0 <= k < entries@.len() ==> covers(r@, #[trigger] entries@[k].namespace_inode),
        forall|a: int| 0 <= a < r@.len() ==> represents(#[trigger] r@[a], entries@),
{
    let mut r: Vec<MountNamespaceInfo> = Vec::new();
    let mut i: usize = 0;
    while i < entries.len()
        invariant
            i <= entries.len(),
            forall|a: int, b: int|
                0 <= a < b < r@.len() ==> (#[trigger] r@[a]).namespace_inode != (#[trigger] r@[b]).namespace_inode,
            forall|k: int| 0 <= k < i ==> covers(r@, #[trigger] entries@[k].namespace_inode),
            forall|a: int| 0 <= a < r@.len() ==> represents(#[trigger] r@[a], entries@.subrange(0, i as int)),
        decreases entries.len() - i,
    {
        let e = &entries[i];
        let info = MountNamespaceInfo::describe(e);
        let mut found: usize = 0;
        while found < r.len() && r[found].namespace_inode != e.namespace_inode
            invariant
                found <= r@.len(),
                forall|a: int| 0 <= a < found ==> (#[trigger] r@[a]).namespace_inode != e.namespace_inode,
            decreases r.len() - found,
        {
            found = found + 1;
        }
        let ghost before = r@;
        let ghost seen = entries@.subrange(0, i as int);
        let ghost seen2 = entries@.subrange(0, i + 1);
        assert(seen2[i as int] == *e);
        if found < r.len() {
            r.set(found, info);
        } else {
            r.push(info);
        }
        assert forall|a: int| 0 <= a < r@.len() implies represents(#[trigger] r@[a], seen2) by {
            if r@[a].namespace_inode == e.namespace_inode {
                assert(describes(r@[a], seen2[i as int]));
            } else {
                assert(r@[a] == before[a]);
                assert(represents(before[a], seen));
                let j = choose|j: int|
                    0 <= j < seen.len() && describes(before[a], #[trigger] seen[j]) && forall|k: int|
                        j < k < seen.len() ==> (#[trigger] seen[k]).namespace_inode != before[a].namespace_inode;
                assert(seen2[j] == seen[j]);
                assert forall|k: int| j < k < seen2.len() implies (#[trigger] seen2[k]).namespace_inode != r@[a].namespace_inode by {
                    if k < i {
                        assert(seen2[k] == seen[k]);
                    }
                }
            }
        }
        assert forall|k: int| 0 <= k < i + 1 implies covers(r@, #[trigger] entries@[k].namespace_inode) by {
            if k < i {
                assert(covers(before, entries@[k].namespace_inode));
                let a = choose|a: int| 0 <= a < before.len() && (#[trigger] before[a]).namespace_inode == entries@[k].namespace_inode;
                if a == found as int {
                    assert(r@[a].namespace_inode == entries@[k].namespace_inode);
                } else {
                    assert(r@[a] == before[a]);
                }
            } else {
                assert(r@[found as int].namespace_inode == entries@[k].namespace_inode);
            }
        }
        i = i + 1;
    }
    assert(entries@.subrange(0, entries@.len() as int) =~= entries@);
    r
}

} // verus!
