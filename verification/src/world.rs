//! Models of the system, for stating what whole runs of the workflows do.
//!
//! A workflow only asks for operations and reacts to their answers; what
//! the answers are is up to the system. The laws about complete runs
//! answer each operation from one of the models here and follow the
//! workflow to its end ([`drive`]), keeping the operations it asked for
//! ([`ops_asked`]).
use vstd::prelude::*;

use crate::error::ExitView;
use crate::process::{CommandView, EventView, Move, OpView};
use crate::process::EntryView;
use crate::search::Tree;

verus! {

/// A workflow run to its end, each operation it asks for answered by
/// `world`, for at most `fuel` steps: its result, if it finished within
/// them.
pub open spec fn drive<V, R>(
    next: spec_fn(V, EventView) -> Move<V, R>,
    world: spec_fn(OpView) -> EventView,
    v: V,
    op: OpView,
    fuel: nat,
) -> Option<R>
    decreases fuel,
{
    if fuel == 0 {
        None
    } else {
        match next(v, world(op)) {
            Move::Done(r) => Some(r),
            Move::Continue(w, op2) => drive(next, world, w, op2, (fuel - 1) as nat),
        }
    }
}

/// The operations a workflow asks for while [`drive`] runs it, in order.
pub open spec fn ops_asked<V, R>(
    next: spec_fn(V, EventView) -> Move<V, R>,
    world: spec_fn(OpView) -> EventView,
    v: V,
    op: OpView,
    fuel: nat,
) -> Seq<OpView>
    decreases fuel,
{
    if fuel == 0 {
        Seq::empty()
    } else {
        match next(v, world(op)) {
            Move::Done(_) => seq![op],
            Move::Continue(w, op2) => seq![op] + ops_asked(next, world, w, op2, (fuel - 1) as nat),
        }
    }
}

/// The system as a fixed tree: a directory is listed as the tree has it;
/// every other operation fails.
pub open spec fn tree_answer(t: Tree) -> spec_fn(OpView) -> EventView {
    |op: OpView|
        match op {
            OpView::ReadDir(p) => EventView::Listing(t(p)),
            _ => EventView::Failed(Seq::empty()),
        }
}

/// The system as a disk that does not change while a workflow runs: the
/// paths in `files` are regular files, those in `dirs` directories, each
/// listed as `t` has it; creating and removing succeed (they change
/// nothing the workflow looks at again); every command that is run exits,
/// successfully exactly when `commands_succeed`; starting or capturing a
/// command, or a warning, is answered as done or failed.
pub open spec fn disk_answer(
    files: Set<Seq<char>>,
    dirs: Set<Seq<char>>,
    t: Tree,
    commands_succeed: bool,
) -> spec_fn(OpView) -> EventView {
    |op: OpView|
        match op {
            OpView::IsFile(p) => EventView::Answer(files.contains(p)),
            OpView::IsDir(p) => EventView::Answer(dirs.contains(p)),
            OpView::ReadDir(p) => EventView::Listing(t(p)),
            OpView::Run(_) => EventView::Exited(
                ExitView { success: commands_succeed, text: Seq::empty() },
            ),
            OpView::Spawn(_) => EventView::Started,
            OpView::Capture(_) => EventView::Failed(Seq::empty()),
            _ => EventView::Done,
        }
}

/// The path `q` lies strictly inside the directory `p`.
pub open spec fn below(p: Seq<char>, q: Seq<char>) -> bool {
    &&& p.len() < q.len()
    &&& q.subrange(0, p.len() as int) == p
    &&& q[p.len() as int] == '/'
}

/// The path `q` is `p` or lies inside it.
pub open spec fn within(p: Seq<char>, q: Seq<char>) -> bool {
    q == p || below(p, q)
}

/// A disk: the paths that are regular files, those that are directories,
/// and what each directory lists.
pub struct Disk {
    pub files: Set<Seq<char>>,
    pub dirs: Set<Seq<char>>,
    pub tree: Tree,
}

/// A disk as a file system has it: whatever lies inside a path is inside
/// a directory, and only directories list anything.
pub open spec fn disk_wf(d: Disk) -> bool {
    &&& forall|p: Seq<char>, q: Seq<char>|
        (d.dirs.contains(q) || d.files.contains(q)) && #[trigger] below(p, q) && p.len() > 0
            ==> d.dirs.contains(p)
    &&& forall|q: Seq<char>| !d.dirs.contains(q) ==> #[trigger] (d.tree)(q) == Seq::<EntryView>::empty()
}

/// What the disk `d` answers to `op`: questions and listings as it has
/// them (a path that is not a directory cannot be listed), and every
/// change succeeds; commands are not modelled and fail to start.
pub open spec fn disk_event(d: Disk, op: OpView) -> EventView {
    match op {
        OpView::IsFile(p) => EventView::Answer(d.files.contains(p)),
        OpView::IsDir(p) => EventView::Answer(d.dirs.contains(p)),
        OpView::ReadDir(p) => if d.dirs.contains(p) {
            EventView::Listing((d.tree)(p))
        } else {
            EventView::Failed(Seq::empty())
        },
        OpView::Run(_) | OpView::Spawn(_) | OpView::Capture(_) => EventView::Failed(Seq::empty()),
        _ => EventView::Done,
    }
}

/// What `op` leaves of the disk `d`: removing a directory removes it and
/// everything inside it; removing a file removes it; creating a directory
/// adds it, empty if it is new, with every directory above it.
pub open spec fn disk_effect(d: Disk, op: OpView) -> Disk {
    match op {
        OpView::RemoveDirAll(p) => Disk {
            files: d.files.filter(|q: Seq<char>| !within(p, q)),
            dirs: d.dirs.filter(|q: Seq<char>| !within(p, q)),
            tree: |q: Seq<char>|
                if within(p, q) {
                    Seq::empty()
                } else {
                    (d.tree)(q)
                },
        },
        OpView::RemoveFile(p) => Disk { files: d.files.remove(p), ..d },
        OpView::CreateDirAll(p) => Disk {
            files: d.files,
            dirs: d.dirs.union(Set::new(|q: Seq<char>| q == p || (q.len() > 0 && below(q, p)))),
            tree: |q: Seq<char>|
                if q == p && !d.dirs.contains(p) {
                    Seq::empty()
                } else {
                    (d.tree)(q)
                },
        },
        _ => d,
    }
}

/// A workflow run on the disk `d`, which its operations change, for at
/// most `fuel` steps: its result and the disk it leaves, if it finished
/// within them.
pub open spec fn drive_disk<V, R>(
    next: spec_fn(V, EventView) -> Move<V, R>,
    d: Disk,
    v: V,
    op: OpView,
    fuel: nat,
) -> Option<(R, Disk)>
    decreases fuel,
{
    if fuel == 0 {
        None
    } else {
        let d2 = disk_effect(d, op);
        match next(v, disk_event(d, op)) {
            Move::Done(r) => Some((r, d2)),
            Move::Continue(w, op2) => drive_disk(next, d2, w, op2, (fuel - 1) as nat),
        }
    }
}

/// The system as a disk that does not change while a workflow runs (as
/// [`disk_answer`] has it), whose captured commands answer as `capture`
/// (so a lookup on `$PATH` finds what `capture` says), and on which every
/// command that is run or started does so successfully.
pub open spec fn system_answer(
    files: Set<Seq<char>>,
    dirs: Set<Seq<char>>,
    t: Tree,
    capture: spec_fn(CommandView) -> EventView,
) -> spec_fn(OpView) -> EventView {
    |op: OpView|
        match op {
            OpView::IsFile(p) => EventView::Answer(files.contains(p)),
            OpView::IsDir(p) => EventView::Answer(dirs.contains(p)),
            OpView::ReadDir(p) => EventView::Listing(t(p)),
            OpView::Run(_) => EventView::Exited(ExitView { success: true, text: Seq::empty() }),
            OpView::Spawn(_) => EventView::Started,
            OpView::Capture(c) => capture(c),
            _ => EventView::Done,
        }
}

/// Which processes the operations `ops` start without waiting: none when
/// `spawned` is `None`; else exactly one, `spawned`, by the last operation.
pub open spec fn spawns_only(ops: Seq<OpView>, spawned: Option<CommandView>) -> bool {
    match spawned {
        None => forall|i: int| 0 <= i < ops.len() ==> !(#[trigger] ops[i] is Spawn),
        Some(c) => {
            &&& ops.len() > 0
            &&& ops.last() == OpView::Spawn(c)
            &&& forall|i: int| 0 <= i < ops.len() - 1 ==> !(#[trigger] ops[i] is Spawn)
        },
    }
}

/// An operation that starts nothing, put before `ops`, changes nothing of
/// what they start.
pub proof fn spawns_only_after(op: OpView, ops: Seq<OpView>, spawned: Option<CommandView>)
    requires
        !(op is Spawn),
        spawns_only(ops, spawned),
    ensures
        spawns_only(seq![op] + ops, spawned),
{
    let all = seq![op] + ops;
    assert forall|i: int| 0 <= i < all.len() && i > 0 implies #[trigger] all[i] == ops[i - 1] by {}
    match spawned {
        None => {
            assert forall|i: int| 0 <= i < all.len() implies !(#[trigger] all[i] is Spawn) by {
                if i > 0 {
                    assert(all[i] == ops[i - 1]);
                }
            }
        },
        Some(c) => {
            assert(all.last() == ops.last());
            assert forall|i: int| 0 <= i < all.len() - 1 implies !(#[trigger] all[i] is Spawn) by {
                if i > 0 {
                    assert(all[i] == ops[i - 1]);
                }
            }
        },
    }
}

/// A workflow run with `answers` as the answers to its operations, in
/// order, whatever they are: the operations it asked for (the `i`-th
/// answered by `answers[i]`) and its result, if it finished before the
/// answers ran out.
pub open spec fn replay<V, R>(
    next: spec_fn(V, EventView) -> Move<V, R>,
    answers: Seq<EventView>,
    v: V,
    op: OpView,
) -> (Seq<OpView>, Option<R>)
    decreases answers.len(),
{
    if answers.len() == 0 {
        (Seq::empty(), None)
    } else {
        match next(v, answers[0]) {
            Move::Done(r) => (seq![op], Some(r)),
            Move::Continue(w, op2) => {
                let rest = replay(next, answers.drop_first(), w, op2);
                (seq![op] + rest.0, rest.1)
            },
        }
    }
}

/// A replayed run that finished asked first for `op`, and asked for no
/// more operations than it had answers.
pub proof fn replay_shape<V, R>(
    next: spec_fn(V, EventView) -> Move<V, R>,
    answers: Seq<EventView>,
    v: V,
    op: OpView,
)
    ensures
        replay(next, answers, v, op).0.len() <= answers.len(),
        replay(next, answers, v, op).1 is Some ==> replay(next, answers, v, op).0.len() > 0
            && replay(next, answers, v, op).0[0] == op,
    decreases answers.len(),
{
    if answers.len() > 0 {
        match next(v, answers[0]) {
            Move::Done(r) => {},
            Move::Continue(w, op2) => {
                replay_shape(next, answers.drop_first(), w, op2);
            },
        }
    }
}

} // verus!
