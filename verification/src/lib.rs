//! One-way reconciliation of two directory trees.
//!
//! A source tree and a destination tree are held in memory as [`Entry`]
//! values.  Comparing them gives an [`EntryDelta`], which names what the
//! destination lacks and which files the source holds in a newer state;
//! clearing a delta gives the copy operations that bring the destination up to
//! date.  Nothing is ever removed from the destination, and where a file
//! exists on both sides the source wins only if it is newer by more than the
//! accuracy of the comparison.
//!
//! The library never touches the file system.  It is handed what a scan
//! found, as a [`Listing`], and hands back what is to be done, as a list of
//! [`Operation`]s.
//!
//! - [`listing`]: what the file system said of a path.
//! - [`filter`]: the ignore filter of a directory.
//! - [`entry`] and [`visit`]: the tree, and how it is built from a listing.
//! - [`delta`] and [`diff`]: the delta, and how two trees are compared.
//! - [`plan`] and [`reconcile`]: the operations that clear a delta, and the
//!   course of carrying them out.
//! - [`effect`] and [`laws`]: what the destination holds afterwards, and what
//!   holds of every comparison and reconciliation.
//! - [`names`], [`path`], [`span`] and [`error`]: what the others rest on.
use vstd::prelude::*;

pub mod delta;
pub mod diff;
pub mod effect;
pub mod entry;
pub mod error;
pub mod filter;
pub mod laws;
pub mod listing;
pub mod names;
pub mod path;
pub mod plan;
pub mod reconcile;
pub mod span;
pub mod visit;

pub use crate::delta::{DirDelta, EntryDelta, FileDelta, FileTimeDelta};
pub use crate::entry::{DirEntry, Entry, FileEntry};
pub use crate::error::Error;
pub use crate::filter::{IgnoreFilter, IGNORE_FILE_NAME};
pub use crate::listing::Listing;
pub use crate::plan::Operation;
pub use crate::reconcile::Reconciliation;
pub use crate::span::Span;

use crate::diff::diff;
use crate::plan::{clear_plan, plan_view, OperationView};
use crate::visit::tree_of;

verus! {

/// The operations that bring the destination up to date with the source:
/// both trees are built, the source is compared with the destination, and
/// the delta is cleared.  The first error ends the run, that of the source
/// before that of the destination.
pub open spec fn update_plan(
    source: Listing,
    dest: Listing,
    accuracy: nat,
    ignore: bool,
) -> Result<Seq<OperationView>, Error> {
    match tree_of(source, ignore) {
        Err(error) => Err(error),
        Ok(source) => match tree_of(dest, ignore) {
            Err(error) => Err(error),
            Ok(dest) => match diff(source, dest, accuracy) {
                Err(error) => Err(error),
                Ok(None) => Ok(Seq::empty()),
                Ok(Some(delta)) => Ok(clear_plan(delta)),
            },
        },
    }
}

/// What the outcome of an update stands for.
pub open spec fn update_view(outcome: Result<Vec<Operation>, Error>) -> Result<
    Seq<OperationView>,
    Error,
> {
    match outcome {
        Ok(plan) => Ok(plan_view(plan@)),
        Err(error) => Err(error),
    }
}

/// Updates the destination directory according to its delta with the source
/// directory: gives the operations that do so, in the order in which they are
/// to be carried out.  Files count as the same where they were modified within
/// `accuracy` of each other; with `ignore` set, what the ignore files of the
/// directories match is left out of both trees.
pub fn update(source: &Listing, dest: &Listing, accuracy: &Span, ignore: bool) -> (outcome: Result<
    Vec<Operation>,
    Error,
>)
    ensures
        update_view(outcome) == update_plan(*source, *dest, accuracy@, ignore),
{
    let source = match Entry::directory(source, ignore) {
        Ok(source) => source,
        Err(error) => {
            return Err(error);
        },
    };
    let dest = match Entry::directory(dest, ignore) {
        Ok(dest) => dest,
        Err(error) => {
            return Err(error);
        },
    };
    let plan = match source.cmp(&dest, accuracy) {
        Ok(Some(delta)) => delta.clear(),
        Ok(None) => {
            let plan: Vec<Operation> = Vec::new();
            assert(plan_view(plan@) =~= Seq::<OperationView>::empty());
            plan
        },
        Err(error) => {
            return Err(error);
        },
    };
    Ok(plan)
}

} // verus!
