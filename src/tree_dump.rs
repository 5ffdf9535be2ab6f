use vstd::prelude::*;

use crate::error::PeError;
use crate::resource::EntryIdentifier;
use crate::visitor::{ResourceDirectoryVisitor, VisitEvent};
use crate::winnt::{IMAGE_RESOURCE_DATA_ENTRY, IMAGE_RESOURCE_DIRECTORY};

verus! {

/// One call that the walker made on a visitor.
#[derive(Clone, Debug)]
pub enum TreeEvent {
    Enter(IMAGE_RESOURCE_DIRECTORY, EntryIdentifier),
    Leave(IMAGE_RESOURCE_DIRECTORY, EntryIdentifier),
    Leaf(IMAGE_RESOURCE_DATA_ENTRY, EntryIdentifier),
}

impl TreeEvent {
    /// The call, as the walker's specification records it; the recorder
    /// accepts every call.
    pub open spec fn spec_event(self) -> VisitEvent {
        match self {
            TreeEvent::Enter(d, id) => VisitEvent::Enter(d, id@, None),
            TreeEvent::Leave(d, id) => VisitEvent::Leave(d, id@, None),
            TreeEvent::Leaf(e, id) => VisitEvent::Leaf(e, id@, None),
        }
    }
}

/// Visitor that records the walk as a list of events, for dumping the tree.
pub struct TreeRecorder {
    events: Vec<TreeEvent>,
    open: Ghost<Seq<EntryIdentifier>>,
    n_entered: Ghost<nat>,
    n_left: Ghost<nat>,
}

impl TreeRecorder {
    pub closed spec fn spec_events(&self) -> Seq<TreeEvent> {
        self.events@
    }

    pub fn new() -> (r: Self)
        ensures
            r.inv(),
            r.spec_events() == Seq::<TreeEvent>::empty(),
            r.open_directories() == Seq::<EntryIdentifier>::empty(),
            r.entered() == 0,
            r.left() == 0,
            r.trace() == Seq::<VisitEvent>::empty(),
    {
        let r = TreeRecorder {
            events: Vec::new(),
            open: Ghost(Seq::empty()),
            n_entered: Ghost(0),
            n_left: Ghost(0),
        };
        assert(r.events@.map_values(|e: TreeEvent| e.spec_event()) =~= Seq::<VisitEvent>::empty());
        r
    }

    /// The calls recorded so far, in order.
    pub fn events(&self) -> (r: &[TreeEvent])
        ensures
            r@ == self.spec_events(),
            r@.map_values(|e: TreeEvent| e.spec_event()) == self.trace(),
    {
        self.events.as_slice()
    }
}

impl ResourceDirectoryVisitor for TreeRecorder {
    type Context = ();

    /// The recorder accepts every call.
    open spec fn refusal(ctx: (), calls: Seq<VisitEvent>, call: VisitEvent) -> Option<PeError> {
        None
    }

    closed spec fn context(&self) -> () {
        ()
    }

    closed spec fn inv(&self) -> bool {
        true
    }

    closed spec fn open_directories(&self) -> Seq<EntryIdentifier> {
        self.open@
    }

    closed spec fn trace(&self) -> Seq<VisitEvent> {
        self.events@.map_values(|e: TreeEvent| e.spec_event())
    }

    closed spec fn entered(&self) -> nat {
        self.n_entered@
    }

    closed spec fn left(&self) -> nat {
        self.n_left@
    }

    fn enter_resource_directory(
        &mut self,
        dir: &IMAGE_RESOURCE_DIRECTORY,
        identifier: &EntryIdentifier,
    ) -> (r: Result<(), PeError>) {
        self.events.push(TreeEvent::Enter(*dir, identifier.clone()));
        self.open = Ghost(self.open@.push(*identifier));
        self.n_entered = Ghost(self.n_entered@ + 1);
        assert(self.trace() =~= old(self).trace().push(VisitEvent::Enter(*dir, identifier@, None)));
        Ok(())
    }

    fn leave_resource_directory(
        &mut self,
        dir: &IMAGE_RESOURCE_DIRECTORY,
        identifier: &EntryIdentifier,
    ) -> (r: Result<(), PeError>) {
        self.events.push(TreeEvent::Leave(*dir, identifier.clone()));
        self.open = Ghost(self.open@.drop_last());
        self.n_left = Ghost(self.n_left@ + 1);
        assert(self.trace() =~= old(self).trace().push(VisitEvent::Leave(*dir, identifier@, None)));
        Ok(())
    }

    fn visit_resource_data_entry(
        &mut self,
        entry: &IMAGE_RESOURCE_DATA_ENTRY,
        identifier: &EntryIdentifier,
    ) -> (r: Result<(), PeError>) {
        self.events.push(TreeEvent::Leaf(*entry, identifier.clone()));
        assert(self.trace() =~= old(self).trace().push(VisitEvent::Leaf(*entry, identifier@, None)));
        Ok(())
    }
}

} // verus!
