//! Reconciliation: the copy operations that clear a delta.
//!
//! The library never touches the file system.  It says which operations
//! bring the destination up to date, in the order in which they are to be
//! carried out; whoever carries them out stops at the first that fails.
use crate::delta::{deltas_view, DeltaView, DirDelta, EntryDelta, FileTimeDelta};
use crate::entry::{DirEntry, Entry, EntryView, FileEntry};
use crate::path::{join, path_join};
use vstd::prelude::*;

verus! {

/// One step of a reconciliation.
#[derive(Debug)]
pub enum Operation {
    /// Make sure that the directory `path` exists: create it unless it is
    /// there already.
    CreateDir { path: String },
    /// Copy the file `from` to `to`, with its modification time and its
    /// permissions.
    CopyFile { from: String, to: String },
}

/// What an operation stands for.
pub enum OperationView {
    CreateDir { path: Seq<char> },
    CopyFile { from: Seq<char>, to: Seq<char> },
}

impl View for Operation {
    type V = OperationView;

    open spec fn view(&self) -> OperationView {
        match self {
            Operation::CreateDir { path } => OperationView::CreateDir { path: path@ },
            Operation::CopyFile { from, to } => OperationView::CopyFile { from: from@, to: to@ },
        }
    }
}

/// What a list of operations stands for.
pub open spec fn plan_view(plan: Seq<Operation>) -> Seq<OperationView> {
    plan.map_values(|operation: Operation| operation@)
}

/// The operations that copy `entry` to the path `dest`: one copy for a file;
/// for a directory, its creation and then the copies of its children in
/// their order, each to its name under `dest`.
pub open spec fn copy_plan(entry: EntryView, dest: Seq<char>) -> Seq<OperationView>
    decreases entry, 1int,
{
    match entry {
        EntryView::File(file) => seq![OperationView::CopyFile { from: file.path, to: dest }],
        EntryView::Dir(dir) => seq![OperationView::CreateDir { path: dest }] + children_copy_plan(
            dir.children,
            dest,
        ),
    }
}

/// The operations that copy `children`, in their order, into the directory
/// `dest`.
pub open spec fn children_copy_plan(
    children: Seq<(Seq<char>, EntryView)>,
    dest: Seq<char>,
) -> Seq<OperationView>
    decreases children, 0int,
{
    if children.len() == 0 {
        Seq::empty()
    } else {
        children_copy_plan(children.drop_last(), dest) + copy_plan(
            children.last().1,
            path_join(dest, children.last().0),
        )
    }
}

/// The operations that clear `delta`: a file is copied over the destination
/// only where the source is newer; what was not found is copied whole; a
/// directory is cleared entry by entry.
pub open spec fn clear_plan(delta: DeltaView) -> Seq<OperationView>
    decreases delta, 1int,
{
    match delta {
        DeltaView::Dir(delta) => entries_clear_plan(delta.entries),
        DeltaView::File(delta) => if delta.diff == FileTimeDelta::Newer {
            seq![OperationView::CopyFile { from: delta.source.path, to: delta.dest.path }]
        } else {
            Seq::empty()
        },
        DeltaView::NotFound { entry, path } => copy_plan(entry, path),
    }
}

/// The operations that clear `entries`, in their order.
pub open spec fn entries_clear_plan(entries: Seq<(Seq<char>, DeltaView)>) -> Seq<OperationView>
    decreases entries, 0int,
{
    if entries.len() == 0 {
        Seq::empty()
    } else {
        entries_clear_plan(entries.drop_last()) + clear_plan(entries.last().1)
    }
}

/// Adds `operation` to the end of `plan`.
fn record(plan: &mut Vec<Operation>, operation: Operation)
    ensures
        plan_view(final(plan)@) == plan_view(old(plan)@).push(operation@),
{
    plan.push(operation);
    assert(plan_view(plan@) =~= plan_view(old(plan)@).push(operation@));
}

/// Adds to `plan` the operations that copy `entry` to `dest`.
fn copy_entry(entry: &Entry, dest: &str, plan: &mut Vec<Operation>)
    ensures
        plan_view(final(plan)@) == plan_view(old(plan)@) + copy_plan(entry@, dest@),
    decreases entry@, 1int,
{
    match entry {
        Entry::File(file) => {
            record(plan, Operation::CopyFile { from: file.path().clone(), to: String::from_str(dest) });
            assert(plan_view(plan@) =~= plan_view(old(plan)@) + copy_plan(entry@, dest@));
        },
        Entry::Dir(dir) => {
            assert(entry@ matches EntryView::Dir(inner) && inner == dir@);
            copy_dir(dir, dest, plan);
        },
    }
}

/// Adds to `plan` the operations that copy `dir` to `dest`.
fn copy_dir(dir: &DirEntry, dest: &str, plan: &mut Vec<Operation>)
    ensures
        plan_view(final(plan)@) == plan_view(old(plan)@) + copy_plan(
            EntryView::Dir(dir@),
            dest@,
        ),
    decreases dir@, 0int,
{
    let ghost children = dir@.children;
    let ghost first = OperationView::CreateDir { path: dest@ };
    record(plan, Operation::CreateDir { path: String::from_str(dest) });
    let count = dir.len();
    let mut i: usize = 0;
    assert(children.take(0) == Seq::<(Seq<char>, EntryView)>::empty());
    assert(plan_view(plan@) =~= plan_view(old(plan)@) + seq![first] + children_copy_plan(
        children.take(0),
        dest@,
    ));
    while i < count
        invariant
            i <= count,
            count == children.len(),
            children == dir@.children,
            plan_view(plan@) == plan_view(old(plan)@) + seq![first] + children_copy_plan(
                children.take(i as int),
                dest@,
            ),
        decreases count - i,
    {
        let ghost before = plan_view(plan@);
        let place = join(dest, dir.name(i).as_str());
        copy_entry(dir.entry(i), place.as_str(), plan);
        proof {
            assert(children.take(i + 1).drop_last() == children.take(i as int));
            assert(children.take(i + 1).last() == children[i as int]);
            assert(plan_view(plan@) =~= plan_view(old(plan)@) + seq![first] + children_copy_plan(
                children.take(i + 1),
                dest@,
            ));
        }
        i += 1;
    }
    assert(children.take(i as int) == children);
    assert(plan_view(plan@) =~= plan_view(old(plan)@) + copy_plan(EntryView::Dir(dir@), dest@));
}

/// Adds to `plan` the operations that clear `delta`.
fn clear_delta<'a>(delta: &EntryDelta<'a>, plan: &mut Vec<Operation>)
    ensures
        plan_view(final(plan)@) == plan_view(old(plan)@) + clear_plan(delta@),
    decreases delta@, 1int,
{
    match delta {
        EntryDelta::Dir(inner) => {
            assert(delta@ matches DeltaView::Dir(dir) && dir == inner@);
            clear_dir(inner, plan);
        },
        EntryDelta::File(delta) => {
            if delta.is_newer() {
                record(
                    plan,
                    Operation::CopyFile {
                        from: delta.source().path().clone(),
                        to: delta.destination().path().clone(),
                    },
                );
            }
            assert(plan_view(plan@) =~= plan_view(old(plan)@) + clear_plan(
                DeltaView::File(delta@),
            ));
        },
        EntryDelta::NotFound { entry, path } => {
            copy_entry(entry, path.as_str(), plan);
        },
    }
}

/// Adds to `plan` the operations that clear the entries of `delta`.
fn clear_dir<'a>(delta: &DirDelta<'a>, plan: &mut Vec<Operation>)
    ensures
        plan_view(final(plan)@) == plan_view(old(plan)@) + entries_clear_plan(delta@.entries),
    decreases delta@, 0int,
{
    let entries = delta.entries();
    let ghost deltas = delta@.entries;
    let mut i: usize = 0;
    assert(deltas.take(0) == Seq::<(Seq<char>, DeltaView)>::empty());
    assert(plan_view(plan@) =~= plan_view(old(plan)@) + entries_clear_plan(deltas.take(0)));
    while i < entries.len()
        invariant
            i <= entries.len(),
            deltas == delta@.entries,
            deltas == deltas_view(entries@),
            plan_view(plan@) == plan_view(old(plan)@) + entries_clear_plan(
                deltas.take(i as int),
            ),
        decreases entries.len() - i,
    {
        proof {
            assert(deltas.take(i + 1).drop_last() == deltas.take(i as int));
            assert(deltas.take(i + 1).last() == deltas[i as int]);
            assert(deltas[i as int].1 == entries@[i as int].1@);
        }
        clear_delta(&entries[i].1, plan);
        assert(plan_view(plan@) =~= plan_view(old(plan)@) + entries_clear_plan(
            deltas.take(i + 1),
        ));
        i += 1;
    }
    assert(deltas.take(i as int) == deltas);
}

impl FileEntry {
    /// Copies self into the given destination: the one operation that does
    /// so.
    pub fn copy(&self, dest: &str) -> (plan: Vec<Operation>)
        ensures
            plan_view(plan@) == copy_plan(EntryView::File(self@), dest@),
    {
        let mut plan: Vec<Operation> = Vec::new();
        record(&mut plan, Operation::CopyFile { from: self.path().clone(), to: String::from_str(dest) });
        assert(plan_view(plan@) =~= copy_plan(EntryView::File(self@), dest@));
        plan
    }
}

impl DirEntry {
    /// Copies self into the given destination: the operations that create
    /// the destination directory and copy every entry into it.
    pub fn copy(&self, dest: &str) -> (plan: Vec<Operation>)
        ensures
            plan_view(plan@) == copy_plan(EntryView::Dir(self@), dest@),
    {
        let mut plan: Vec<Operation> = Vec::new();
        assert(plan_view(plan@) =~= Seq::<OperationView>::empty());
        copy_dir(self, dest, &mut plan);
        assert(plan_view(plan@) =~= copy_plan(EntryView::Dir(self@), dest@));
        plan
    }
}

impl Entry {
    /// Copies self into the given destination: the operations that do so.
    pub fn copy(&self, dest: &str) -> (plan: Vec<Operation>)
        ensures
            plan_view(plan@) == copy_plan(self@, dest@),
    {
        let mut plan: Vec<Operation> = Vec::new();
        assert(plan_view(plan@) =~= Seq::<OperationView>::empty());
        copy_entry(self, dest, &mut plan);
        assert(plan_view(plan@) =~= copy_plan(self@, dest@));
        plan
    }
}

impl<'a> EntryDelta<'a> {
    /// Updates the destination entry according to its given delta with the
    /// source entry: the operations that do so.
    pub fn clear(&self) -> (plan: Vec<Operation>)
        ensures
            plan_view(plan@) == clear_plan(self@),
    {
        let mut plan: Vec<Operation> = Vec::new();
        assert(plan_view(plan@) =~= Seq::<OperationView>::empty());
        clear_delta(self, &mut plan);
        assert(plan_view(plan@) =~= clear_plan(self@));
        plan
    }
}

} // verus!
