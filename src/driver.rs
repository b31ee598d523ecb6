//! The driver's decisions: which namespaces to process, how to unmount a
//! stale mount, and the bookkeeping that brings the process back to its
//! original mount namespace.
use vstd::prelude::*;
use crate::mtab::{MountedFilesystem, resolved_path};
use crate::staleness::ShouldUnmountResult;

verus! {

/// Whether a namespace is skipped as a whole: its mount table could not be
/// read, or it could not be entered.
pub fn skip_namespace(mounts_read: bool, entered: bool) -> (r: bool)
    ensures
        r == (!mounts_read || !entered),
{
    !mounts_read || !entered
}

/// How a mount is dealt with once its staleness is decided.
pub enum UnmountPlan {
    /// Leave the mount alone.
    Keep,
    /// Report that `target` would be unmounted, and do nothing.
    DryRun { target: String },
    /// Unmount `target` with the unmount system call.
    Direct { target: String },
    /// Unmount `target` through the user-level FUSE unmount helper.
    Helper { target: String },
}

/// The plan for `mount` given its staleness decision: stale mounts are
/// unmounted at their path resolved against the namespace root, directly
/// when running privileged and through the helper otherwise, and only
/// reported in a dry run.
pub fn plan_unmount(
    decision: &ShouldUnmountResult,
    mount: &MountedFilesystem,
    dry_run: bool,
    is_root: bool,
) -> (r: UnmountPlan)
    ensures
        !decision.should_unmount <==> r is Keep,
        decision.should_unmount && dry_run ==> (r matches UnmountPlan::DryRun { target }
            && target@ == resolved_path(mount.chroot@, mount.mountpoint@)),
        decision.should_unmount && !dry_run && is_root ==> (r matches UnmountPlan::Direct { target }
            && target@ == resolved_path(mount.chroot@, mount.mountpoint@)),
        decision.should_unmount && !dry_run && !is_root ==> (r matches UnmountPlan::Helper { target }
            && target@ == resolved_path(mount.chroot@, mount.mountpoint@)),
{
    if !decision.should_unmount {
        return UnmountPlan::Keep;
    }
    let target = mount.resolved_path();
    if dry_run {
        UnmountPlan::DryRun { target }
    } else if is_root {
        UnmountPlan::Direct { target }
    } else {
        UnmountPlan::Helper { target }
    }
}

/// An operation on the process's mount namespace.
pub enum NamespaceOp {
    /// An attempt to enter the namespace open as `target`, which took effect
    /// or not.
    Enter { target: i32, ok: bool },
    /// The end of the current namespace context.
    Leave,
}

/// The namespace bookkeeping: the descriptor of the namespace recorded at
/// start, that of the active one, and whether a context is live.
pub struct NamespaceGuard {
    pub original_fd: i32,
    pub active_fd: i32,
    pub inside: bool,
}

/// The bookkeeping after `op`. Entering while a context is live is refused,
/// as only one context may be live at a time; leaving restores the original
/// namespace.
pub open spec fn apply_op(g: NamespaceGuard, op: NamespaceOp) -> NamespaceGuard {
    match op {
        NamespaceOp::Enter { target, ok } => {
            if !g.inside && ok {
                NamespaceGuard { active_fd: target, inside: true, ..g }
            } else {
                g
            }
        },
        NamespaceOp::Leave => NamespaceGuard { active_fd: g.original_fd, inside: false, ..g },
    }
}

pub open spec fn apply_ops(g: NamespaceGuard, ops: Seq<NamespaceOp>) -> NamespaceGuard
    decreases ops.len(),
{
    if ops.len() == 0 {
        g
    } else {
        apply_ops(apply_op(g, ops[0]), ops.subrange(1, ops.len() as int))
    }
}

impl NamespaceGuard {
    /// Bookkeeping for a process in the namespace open as `original_fd`.
    pub fn new(original_fd: i32) -> (r: NamespaceGuard)
        ensures
            r.original_fd == original_fd,
            r.active_fd == original_fd,
            !r.inside,
    {
        NamespaceGuard { original_fd, active_fd: original_fd, inside: false }
    }

    /// Records an attempt to enter `target`; returns whether a context is
    /// now live for it. The caller enters only when no context is live.
    pub fn enter(&mut self, target: i32, ok: bool) -> (r: bool)
        ensures
            *final(self) == apply_op(*old(self), NamespaceOp::Enter { target, ok }),
            r == (!old(self).inside && ok),
    {
        if !self.inside && ok {
            self.active_fd = target;
            self.inside = true;
            true
        } else {
            false
        }
    }

    /// Ends the current context; returns the descriptor of the original
    /// namespace to switch back into when a context was live.
    pub fn leave(&mut self) -> (r: Option<i32>)
        ensures
            *final(self) == apply_op(*old(self), NamespaceOp::Leave),
            r == (if old(self).inside {
                Some(old(self).original_fd)
            } else {
                None
            }),
    {
        let back = if self.inside {
            Some(self.original_fd)
        } else {
            None
        };
        self.active_fd = self.original_fd;
        self.inside = false;
        back
    }
}

/// After any sequence of namespace operations, entries succeeding or
/// failing, the active namespace is the original one whenever no context
/// is live, and in particular after the last context has ended.
pub proof fn lemma_namespace_restored(original_fd: i32, ops: Seq<NamespaceOp>)
    ensures
        !apply_ops(NamespaceGuard { original_fd, active_fd: original_fd, inside: false }, ops).inside
            ==> apply_ops(
            NamespaceGuard { original_fd, active_fd: original_fd, inside: false },
            ops,
        ).active_fd == original_fd,
        apply_ops(
            NamespaceGuard { original_fd, active_fd: original_fd, inside: false },
            ops.push(NamespaceOp::Leave),
        ).active_fd == original_fd,
{
    lemma_ops_keep_original(NamespaceGuard { original_fd, active_fd: original_fd, inside: false }, ops);
    lemma_ops_keep_original(
        NamespaceGuard { original_fd, active_fd: original_fd, inside: false },
        ops.push(NamespaceOp::Leave),
    );
    lemma_last_leave(NamespaceGuard { original_fd, active_fd: original_fd, inside: false }, ops);
}

proof fn lemma_ops_keep_original(g: NamespaceGuard, ops: Seq<NamespaceOp>)
    requires
        !g.inside ==> g.active_fd == g.original_fd,
    ensures
        apply_ops(g, ops).original_fd == g.original_fd,
        !apply_ops(g, ops).inside ==> apply_ops(g, ops).active_fd == g.original_fd,
    decreases ops.len(),
{
    if ops.len() > 0 {
        lemma_ops_keep_original(apply_op(g, ops[0]), ops.subrange(1, ops.len() as int));
    }
}

proof fn lemma_last_leave(g: NamespaceGuard, ops: Seq<NamespaceOp>)
    ensures
        apply_ops(g, ops.push(NamespaceOp::Leave)) == apply_op(apply_ops(g, ops), NamespaceOp::Leave),
    decreases ops.len(),
{
    if ops.len() > 0 {
        assert(ops.push(NamespaceOp::Leave).subrange(1, ops.len() + 1 as int) =~= ops.subrange(
            1,
            ops.len() as int,
        ).push(NamespaceOp::Leave));
        assert(ops.push(NamespaceOp::Leave)[0] == ops[0]);
        lemma_last_leave(apply_op(g, ops[0]), ops.subrange(1, ops.len() as int));
    } else {
        let one = ops.push(NamespaceOp::Leave);
        assert(one[0] == NamespaceOp::Leave);
        assert(one.subrange(1, 1) =~= Seq::<NamespaceOp>::empty());
        assert(apply_ops(apply_op(g, NamespaceOp::Leave), Seq::<NamespaceOp>::empty()) == apply_op(g, NamespaceOp::Leave));
    }
}

} // verus!
