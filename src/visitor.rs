use vstd::prelude::*;

use crate::error::PeError;
use crate::resource::{EntryIdentifier, IdentifierView};
use crate::winnt::{IMAGE_RESOURCE_DATA_ENTRY, IMAGE_RESOURCE_DIRECTORY};

verus! {

/// One call that the walker made on a visitor, with the error the visitor
/// refused it with; `None` where it accepted the call.
pub enum VisitEvent {
    Enter(IMAGE_RESOURCE_DIRECTORY, IdentifierView, Option<PeError>),
    Leave(IMAGE_RESOURCE_DIRECTORY, IdentifierView, Option<PeError>),
    Leaf(IMAGE_RESOURCE_DATA_ENTRY, IdentifierView, Option<PeError>),
}

/// The error a call ended with, if any.
pub open spec fn outcome(r: Result<(), PeError>) -> Option<PeError> {
    match r {
        Ok(_) => None,
        Err(e) => Some(e),
    }
}

/// A consumer of a depth-first walk over the resource tree.
///
/// The walker calls `enter_resource_directory` before the entries of a
/// directory and `leave_resource_directory` after them, with the same label,
/// and `visit_resource_data_entry` for each leaf.
pub trait ResourceDirectoryVisitor {
    /// What the visitor works against, which no call changes.
    type Context;

    spec fn context(&self) -> Self::Context;

    /// The error with which a visitor working against `ctx`, after the calls
    /// `calls`, refuses the call `call` (given with no refusal); `None` where
    /// it accepts it.
    spec fn refusal(ctx: Self::Context, calls: Seq<VisitEvent>, call: VisitEvent) -> Option<PeError>;

    /// What the visitor keeps true between calls.
    spec fn inv(&self) -> bool;

    /// Labels of the directories entered and not yet left, outermost first.
    spec fn open_directories(&self) -> Seq<EntryIdentifier>;

    /// The calls made on the visitor so far, in order.
    spec fn trace(&self) -> Seq<VisitEvent>;

    /// Number of `enter_resource_directory` calls so far.
    spec fn entered(&self) -> nat;

    /// Number of `leave_resource_directory` calls so far.
    spec fn left(&self) -> nat;

    fn enter_resource_directory(
        &mut self,
        dir: &IMAGE_RESOURCE_DIRECTORY,
        identifier: &EntryIdentifier,
    ) -> (r: Result<(), PeError>)
        requires
            old(self).inv(),
        ensures
            final(self).inv(),
            final(self).context() == old(self).context(),
            final(self).open_directories() == old(self).open_directories().push(*identifier),
            final(self).trace() == old(self).trace().push(
                VisitEvent::Enter(*dir, identifier@, outcome(r)),
            ),
            outcome(r) == Self::refusal(
                old(self).context(),
                old(self).trace(),
                VisitEvent::Enter(*dir, identifier@, None),
            ),
            final(self).entered() == old(self).entered() + 1,
            final(self).left() == old(self).left(),
    ;

    fn leave_resource_directory(
        &mut self,
        dir: &IMAGE_RESOURCE_DIRECTORY,
        identifier: &EntryIdentifier,
    ) -> (r: Result<(), PeError>)
        requires
            old(self).inv(),
            old(self).open_directories().len() > 0,
            old(self).open_directories().last() == *identifier,
        ensures
            final(self).inv(),
            final(self).context() == old(self).context(),
            final(self).open_directories() == old(self).open_directories().drop_last(),
            final(self).trace() == old(self).trace().push(
                VisitEvent::Leave(*dir, identifier@, outcome(r)),
            ),
            outcome(r) == Self::refusal(
                old(self).context(),
                old(self).trace(),
                VisitEvent::Leave(*dir, identifier@, None),
            ),
            final(self).entered() == old(self).entered(),
            final(self).left() == old(self).left() + 1,
    ;

    fn visit_resource_data_entry(
        &mut self,
        entry: &IMAGE_RESOURCE_DATA_ENTRY,
        identifier: &EntryIdentifier,
    ) -> (r: Result<(), PeError>)
        requires
            old(self).inv(),
        ensures
            final(self).inv(),
            final(self).context() == old(self).context(),
            final(self).open_directories() == old(self).open_directories(),
            final(self).trace() == old(self).trace().push(
                VisitEvent::Leaf(*entry, identifier@, outcome(r)),
            ),
            outcome(r) == Self::refusal(
                old(self).context(),
                old(self).trace(),
                VisitEvent::Leaf(*entry, identifier@, None),
            ),
            final(self).entered() == old(self).entered(),
            final(self).left() == old(self).left(),
    ;
}

} // verus!
