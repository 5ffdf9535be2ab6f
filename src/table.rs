use vstd::prelude::*;

use crate::error::{FormatIssue, PeError};
use crate::from_bytes::decode_at;
use crate::winnt::IMAGE_RESOURCE_DIRECTORY_ENTRY;
use crate::message::{spec_step, Message, MessagesIterator};
use crate::pefile::{lemma_load_deterministic, PEFile};
use crate::tree_dump::TreeRecorder;
use crate::walk::{
    lemma_walk_entries_next, spec_walk_directory, spec_walk_entries, spec_walk_entry, MAX_RESOURCE_DEPTH,
};
use crate::resource::{EntryIdentifier, IdentifierView};
use crate::visitor::{outcome, ResourceDirectoryVisitor, VisitEvent};
use crate::winnt::{IMAGE_RESOURCE_DATA_ENTRY, IMAGE_RESOURCE_DIRECTORY, MESSAGE_RESOURCE_DATA};

verus! {

/// Resource type of message tables.
pub const RT_MESSAGETABLE: u16 = 11;

/// The labels of a path of open directories, without the root's.
pub open spec fn named_path(s: Seq<EntryIdentifier>) -> Seq<EntryIdentifier>
    decreases s.len(),
{
    if s.len() == 0 {
        Seq::empty()
    } else {
        let p = named_path(s.drop_last());
        if s.last() is NoIdentifier {
            p
        } else {
            p.push(s.last())
        }
    }
}

/// The labels below the root of the directories open after the calls `t`.
pub open spec fn replay_stack(t: Seq<VisitEvent>) -> Seq<IdentifierView>
    decreases t.len(),
{
    if t.len() == 0 {
        Seq::empty()
    } else {
        let s = replay_stack(t.drop_last());
        match t.last() {
            VisitEvent::Enter(_, id, _) => if id is NoIdentifier {
                s
            } else {
                s.push(id)
            },
            VisitEvent::Leave(_, id, _) => if id is NoIdentifier {
                s
            } else {
                s.drop_last()
            },
            VisitEvent::Leaf(_, _, _) => s,
        }
    }
}

/// Whether a leaf below the labels `s` is a message table: type 11, then an
/// ordinal, which gives the language.
pub open spec fn is_table_path(s: Seq<IdentifierView>) -> bool {
    s.len() == 2 && s[0] == IdentifierView::Id(RT_MESSAGETABLE) && s[1] is Id
}

/// The message-table leaves that the calls `t` accepted, with their languages.
pub open spec fn table_leaves(t: Seq<VisitEvent>) -> Seq<(IMAGE_RESOURCE_DATA_ENTRY, u16)>
    decreases t.len(),
{
    if t.len() == 0 {
        Seq::empty()
    } else {
        let l = table_leaves(t.drop_last());
        let s = replay_stack(t.drop_last());
        match t.last() {
            VisitEvent::Leaf(e, _, refused) => if refused is None && is_table_path(s) {
                l.push((e, s[1]->Id_0))
            } else {
                l
            },
            _ => l,
        }
    }
}

/// Whether the labels `s` lead into a message-table type directory.
pub open spec fn in_table_type(s: Seq<IdentifierView>) -> bool {
    s.len() > 0 && s[0] == IdentifierView::Id(RT_MESSAGETABLE)
}

/// The error with which the message-table visitor refuses the leaf `entry`
/// below the labels `s`: none outside type 11; `ResourceLayout` at a depth
/// other than type / name / language, or below a named directory; otherwise
/// the failure to find the table's header, where its address is unmapped or
/// its header does not decode.
pub open spec fn leaf_refusal(pefile: &PEFile, s: Seq<IdentifierView>, entry: IMAGE_RESOURCE_DATA_ENTRY) -> Option<
    PeError,
> {
    if !in_table_type(s) {
        None
    } else if !is_table_path(s) {
        Some(PeError::InvalidFormat(FormatIssue::ResourceLayout))
    } else {
        match pefile.spec_raw_address(entry.OffsetToData as int) {
            None => Some(PeError::UnmappedAddress),
            Some(rde) => match decode_at::<MESSAGE_RESOURCE_DATA>(pefile.spec_image(), rde as int) {
                Err(e) => Some(e),
                Ok(_) => None,
            },
        }
    }
}

/// Whether `it` is a fresh decoder, over `pefile`, for the table that `entry`
/// points to, in language `lang`.
pub open spec fn decodes_table(
    it: MessagesIterator,
    pefile: &PEFile,
    entry: IMAGE_RESOURCE_DATA_ENTRY,
    lang: u16,
) -> bool {
    &&& it.spec_pefile() == pefile
    &&& it.spec_lang_id() == lang as u32
    &&& pefile.spec_raw_address(entry.OffsetToData as int) == Some(it.spec_rde_offset() as usize)
    &&& it.is_fresh(it.spec_rde_offset())
}

/// Whether the next call of `next` on `it` produces a message.
pub open spec fn yields(it: MessagesIterator) -> bool {
    !it.spec_finished() && spec_step(it.spec_image(), it.spec_rde_offset(), it.spec_cursor()) matches Some(
        Ok(_),
    )
}

/// The error that `it` holds once a call of `next` has ended it.
pub open spec fn closing_error(it: MessagesIterator) -> Option<PeError> {
    if it.spec_finished() {
        it.spec_error()
    } else {
        match spec_step(it.spec_image(), it.spec_rde_offset(), it.spec_cursor()) {
            Some(Err(e)) => Some(e),
            _ => it.spec_error(),
        }
    }
}

/// The errors that ending each of `s` leaves, in order.
pub open spec fn closing_errors(s: Seq<MessagesIterator>) -> Seq<PeError>
    decreases s.len(),
{
    if s.len() == 0 {
        Seq::empty()
    } else {
        let p = closing_errors(s.drop_last());
        match closing_error(s.last()) {
            Some(e) => p.push(e),
            None => p,
        }
    }
}

/// Visitor that finds the message tables of an image, one decoder per language.
pub struct MessageTableVisitor<'pefile> {
    id_stack: Vec<EntryIdentifier>,
    iterators: Vec<MessagesIterator<'pefile>>,
    pefile: &'pefile PEFile,
    open: Ghost<Seq<EntryIdentifier>>,
    n_entered: Ghost<nat>,
    n_left: Ghost<nat>,
    calls: Ghost<Seq<VisitEvent>>,
}

impl<'pefile> MessageTableVisitor<'pefile> {
    /// Labels of the open directories below the root.
    pub closed spec fn spec_stack(&self) -> Seq<EntryIdentifier> {
        self.id_stack@
    }

    /// The decoders found so far, in the order of the walk.
    pub closed spec fn spec_iterators(&self) -> Seq<MessagesIterator<'pefile>> {
        self.iterators@
    }

    pub closed spec fn spec_pefile(&self) -> &'pefile PEFile {
        self.pefile
    }

    pub fn new(pefile: &'pefile PEFile) -> (r: Self)
        ensures
            r.inv(),
            r.spec_pefile() == pefile,
            r.spec_stack() == Seq::<EntryIdentifier>::empty(),
            r.spec_iterators() == Seq::<MessagesIterator<'pefile>>::empty(),
            r.open_directories() == Seq::<EntryIdentifier>::empty(),
            r.entered() == 0,
            r.left() == 0,
            r.trace() == Seq::<VisitEvent>::empty(),
    {
        let v = MessageTableVisitor {
            id_stack: Vec::new(),
            iterators: Vec::new(),
            pefile,
            open: Ghost(Seq::empty()),
            n_entered: Ghost(0),
            n_left: Ghost(0),
            calls: Ghost(Seq::empty()),
        };
        assert(v.id_stack@.map_values(|x: EntryIdentifier| x@) =~= replay_stack(v.calls@));
        v
    }

    /// All the strings found, language after language, in the order of the walk.
    pub fn into_iter(self) -> (r: Messages<'pefile>)
        ensures
            r.spec_queue() == self.spec_iterators(),
            r.spec_errors() == Seq::<PeError>::empty(),
    {
        Messages { pending: self.iterators, active: None, errors: Vec::new() }
    }

    /// Whether the walk stands below a message-table type directory.
    pub fn is_in_messagetable(&self) -> (r: bool)
        ensures
            r == (self.spec_stack().len() > 0 && self.spec_stack()[0]@ == IdentifierView::Id(
                RT_MESSAGETABLE,
            )),
    {
        if self.id_stack.len() == 0 {
            return false;
        }
        match &self.id_stack[0] {
            EntryIdentifier::Id(id) => *id == RT_MESSAGETABLE,
            _ => false,
        }
    }
}

impl<'pefile> ResourceDirectoryVisitor for MessageTableVisitor<'pefile> {
    type Context = &'pefile PEFile;

    closed spec fn context(&self) -> &'pefile PEFile {
        self.pefile
    }

    /// Only a message-table leaf can be refused.
    open spec fn refusal(ctx: &'pefile PEFile, calls: Seq<VisitEvent>, call: VisitEvent) -> Option<PeError> {
        match call {
            VisitEvent::Leaf(e, _, _) => leaf_refusal(ctx, replay_stack(calls), e),
            _ => None,
        }
    }

    closed spec fn inv(&self) -> bool {
        &&& self.id_stack@ == named_path(self.open@)
        &&& self.id_stack@.map_values(|x: EntryIdentifier| x@) == replay_stack(self.calls@)
        &&& self.iterators@.len() == table_leaves(self.calls@).len()
        &&& forall|i: int|
            0 <= i < self.iterators@.len() ==> decodes_table(
                #[trigger] self.iterators@[i],
                self.pefile,
                table_leaves(self.calls@)[i].0,
                table_leaves(self.calls@)[i].1,
            )
    }

    closed spec fn open_directories(&self) -> Seq<EntryIdentifier> {
        self.open@
    }

    closed spec fn trace(&self) -> Seq<VisitEvent> {
        self.calls@
    }

    closed spec fn entered(&self) -> nat {
        self.n_entered@
    }

    closed spec fn left(&self) -> nat {
        self.n_left@
    }

    /// Pushes the label onto the path stack, unless it is the root's.
    fn enter_resource_directory(
        &mut self,
        _dir: &IMAGE_RESOURCE_DIRECTORY,
        identifier: &EntryIdentifier,
    ) -> (r: Result<(), PeError>)
        ensures
            r is Ok,
            *identifier is NoIdentifier ==> final(self).spec_stack() == old(self).spec_stack(),
            !(*identifier is NoIdentifier) ==> final(self).spec_stack() == old(self).spec_stack().push(
                *identifier,
            ),
            final(self).spec_iterators() == old(self).spec_iterators(),
            final(self).spec_pefile() == old(self).spec_pefile(),
    {
        match identifier {
            EntryIdentifier::NoIdentifier => {},
            _ => {
                self.id_stack.push(identifier.clone());
            },
        }
        assert(old(self).open@.push(*identifier).drop_last() =~= old(self).open@);
        assert(self.id_stack@ == named_path(old(self).open@.push(*identifier)));
        self.open = Ghost(self.open@.push(*identifier));
        self.n_entered = Ghost(self.n_entered@ + 1);
        self.calls = Ghost(self.calls@.push(VisitEvent::Enter(*_dir, identifier@, None)));
        proof {
            assert(self.calls@.drop_last() =~= old(self).calls@);
            assert(self.id_stack@.map_values(|x: EntryIdentifier| x@) =~= replay_stack(self.calls@));
            assert(table_leaves(self.calls@) == table_leaves(old(self).calls@));
        }
        Ok(())
    }

    /// Pops the label off the path stack, unless it is the root's.
    fn leave_resource_directory(
        &mut self,
        _dir: &IMAGE_RESOURCE_DIRECTORY,
        identifier: &EntryIdentifier,
    ) -> (r: Result<(), PeError>)
        ensures
            r is Ok,
            *identifier is NoIdentifier ==> final(self).spec_stack() == old(self).spec_stack(),
            !(*identifier is NoIdentifier) ==> final(self).spec_stack() == old(
                self,
            ).spec_stack().drop_last(),
            final(self).spec_iterators() == old(self).spec_iterators(),
            final(self).spec_pefile() == old(self).spec_pefile(),
    {
        let ghost p = named_path(self.open@.drop_last());
        assert(self.open@.last() == *identifier);
        match identifier {
            EntryIdentifier::NoIdentifier => {
                assert(named_path(self.open@) == p);
            },
            _ => {
                assert(named_path(self.open@) == p.push(*identifier));
                let _ = self.id_stack.pop();
                assert(self.id_stack@ =~= p);
            },
        }
        self.open = Ghost(self.open@.drop_last());
        self.n_left = Ghost(self.n_left@ + 1);
        self.calls = Ghost(self.calls@.push(VisitEvent::Leave(*_dir, identifier@, None)));
        proof {
            assert(self.calls@.drop_last() =~= old(self).calls@);
            assert(self.id_stack@.map_values(|x: EntryIdentifier| x@) =~= replay_stack(self.calls@));
            assert(table_leaves(self.calls@) == table_leaves(old(self).calls@));
        }
        Ok(())
    }

    /// Below type 11 and a language id, adds a decoder for the table that
    /// `entry` points to; leaves elsewhere are ignored; a type-11 leaf at
    /// another depth, or below a named directory, is refused.
    fn visit_resource_data_entry(
        &mut self,
        entry: &IMAGE_RESOURCE_DATA_ENTRY,
        identifier: &EntryIdentifier,
    ) -> (r: Result<(), PeError>)
        ensures
            ({
                let s = old(self).spec_stack().map_values(|x: EntryIdentifier| x@);
                &&& !in_table_type(s) ==> r is Ok && final(self).spec_iterators() == old(
                    self,
                ).spec_iterators()
                &&& in_table_type(s) && !is_table_path(s) ==> r == Err::<(), PeError>(
                    PeError::InvalidFormat(FormatIssue::ResourceLayout),
                ) && final(self).spec_iterators() == old(self).spec_iterators()
                &&& is_table_path(s) && leaf_refusal(old(self).spec_pefile(), s, *entry) is None ==> r
                    is Ok && final(self).spec_iterators() == old(self).spec_iterators().push(
                    final(self).spec_iterators().last(),
                ) && decodes_table(
                    final(self).spec_iterators().last(),
                    old(self).spec_pefile(),
                    *entry,
                    s[1]->Id_0,
                )
                &&& is_table_path(s) && leaf_refusal(old(self).spec_pefile(), s, *entry) is Some ==> r
                    == Err::<(), PeError>(leaf_refusal(old(self).spec_pefile(), s, *entry)->Some_0)
                    && final(self).spec_iterators() == old(self).spec_iterators()
            }),
            final(self).spec_stack() == old(self).spec_stack(),
            final(self).spec_pefile() == old(self).spec_pefile(),
    {
        let ghost stack = replay_stack(self.calls@);
        let r = self.record_table(entry);
        self.calls = Ghost(self.calls@.push(VisitEvent::Leaf(*entry, identifier@, outcome(r))));
        proof {
            assert(self.calls@.drop_last() =~= old(self).calls@);
            assert(replay_stack(self.calls@) == stack);
        }
        r
    }
}

impl<'pefile> MessageTableVisitor<'pefile> {
    /// Below a message-table type directory, adds a decoder for the table that
    /// `entry` points to; the language is the id of the directory below the type.
    fn record_table(&mut self, entry: &IMAGE_RESOURCE_DATA_ENTRY) -> (r: Result<(), PeError>)
        requires
            old(self).id_stack@.map_values(|x: EntryIdentifier| x@) == replay_stack(old(self).calls@),
        ensures
            ({
                let s = replay_stack(old(self).calls@);
                let l = table_leaves(old(self).calls@);
                &&& r is Ok && is_table_path(s) ==> final(self).iterators@ == old(self).iterators@.push(
                    final(self).iterators@.last(),
                ) && decodes_table(final(self).iterators@.last(), old(self).pefile, *entry, s[1]->Id_0)
                &&& !(r is Ok && is_table_path(s)) ==> final(self).iterators@ == old(self).iterators@
                &&& outcome(r) == leaf_refusal(old(self).pefile, s, *entry)
            }),
            final(self).id_stack == old(self).id_stack,
            final(self).open == old(self).open,
            final(self).n_entered == old(self).n_entered,
            final(self).n_left == old(self).n_left,
            final(self).calls == old(self).calls,
            final(self).pefile == old(self).pefile,
    {
        if self.is_in_messagetable() {
            if self.id_stack.len() != 2 {
                return Err(PeError::InvalidFormat(FormatIssue::ResourceLayout));
            }
            let lang_id = match &self.id_stack[1] {
                EntryIdentifier::Id(x) => *x,
                _ => {
                    proof {
                        assert(self.id_stack@.map_values(|x: EntryIdentifier| x@)[1]
                            == self.id_stack@[1]@);
                    }
                    return Err(PeError::InvalidFormat(FormatIssue::ResourceLayout));
                },
            };
            let iterator = MessagesIterator::new(self.pefile, lang_id as u32, entry)?;
            self.iterators.push(iterator);
            proof {
                assert(self.id_stack@.map_values(|x: EntryIdentifier| x@)[1] == self.id_stack@[1]@);
                assert(self.id_stack@.map_values(|x: EntryIdentifier| x@)[0] == self.id_stack@[0]@);
            }
        } else {
            proof {
                if self.id_stack@.len() > 0 {
                    assert(self.id_stack@.map_values(|x: EntryIdentifier| x@)[0] == self.id_stack@[0]@);
                }
            }
        }
        Ok(())
    }
}

/// A walk over the resource tree leaves the visitor's path stack as it found it:
/// the walker returns the visitor with the open directories it had, and the stack
/// is the labels of those directories below the root.
pub proof fn lemma_walk_restores_stack(before: MessageTableVisitor, after: MessageTableVisitor)
    requires
        before.inv(),
        after.inv(),
        after.open_directories() == before.open_directories(),
    ensures
        after.spec_stack() == before.spec_stack(),
        after.spec_stack().len() == before.spec_stack().len(),
{
}

/// Whether every leaf among the calls `t`, made after the calls `pre`, is
/// readable as the message-table visitor over `p` reads it: outside type 11,
/// or at type / name / language with an ordinal name and a table header that
/// resolves and decodes.
pub open spec fn tables_readable(p: &PEFile, pre: Seq<VisitEvent>, t: Seq<VisitEvent>) -> bool {
    forall|i: int|
        0 <= i < t.len() ==> <MessageTableVisitor as ResourceDirectoryVisitor>::refusal(
            p,
            pre + t.take(i),
            #[trigger] t[i],
        ) is None
}

proof fn lemma_tables_readable_split(p: &PEFile, pre: Seq<VisitEvent>, a: Seq<VisitEvent>, b: Seq<VisitEvent>)
    requires
        tables_readable(p, pre, a + b),
    ensures
        tables_readable(p, pre, a),
        tables_readable(p, pre + a, b),
{
    assert forall|i: int| 0 <= i < a.len() implies <MessageTableVisitor as ResourceDirectoryVisitor>::refusal(
        p,
        pre + a.take(i),
        #[trigger] a[i],
    ) is None by {
        assert((a + b).take(i) =~= a.take(i));
        assert((a + b)[i] == a[i]);
    }
    assert forall|j: int| 0 <= j < b.len() implies <MessageTableVisitor as ResourceDirectoryVisitor>::refusal(
        p,
        (pre + a) + b.take(j),
        #[trigger] b[j],
    ) is None by {
        let i = a.len() + j;
        assert((a + b).take(i) =~= a + b.take(j));
        assert(pre + (a + b).take(i) =~= (pre + a) + b.take(j));
        assert((a + b)[i] == b[j]);
    }
}

proof fn lemma_table_walk_directory(
    p: &PEFile,
    res: Seq<u8>,
    off: int,
    id: IdentifierView,
    depth: nat,
    pre: Seq<VisitEvent>,
)
    requires
        tables_readable(p, pre, spec_walk_directory::<TreeRecorder>((), res, off, id, depth, pre).0),
    ensures
        spec_walk_directory::<MessageTableVisitor>(p, res, off, id, depth, pre)
            == spec_walk_directory::<TreeRecorder>((), res, off, id, depth, pre),
    decreases depth, 2int, 0int,
{
    if let Ok(dir) = decode_at::<IMAGE_RESOURCE_DIRECTORY>(res, off) {
        let named = dir.NumberOfNamedEntries as int;
        let n = (dir.NumberOfNamedEntries + dir.NumberOfIdEntries) as nat;
        let p1 = pre.push(VisitEvent::Enter(dir, id, None));
        let mid = spec_walk_entries::<TreeRecorder>((), res, off + 16, named, n, depth, p1);
        let en = seq![VisitEvent::Enter(dir, id, None)];
        let lv = seq![VisitEvent::Leave(dir, id, None)];
        assert(spec_walk_directory::<TreeRecorder>((), res, off, id, depth, pre).0 == en + mid.0 + lv);
        lemma_tables_readable_split(p, pre, en + mid.0, lv);
        lemma_tables_readable_split(p, pre, en, mid.0);
        assert(pre + en =~= p1);
        lemma_table_walk_entries(p, res, off + 16, named, n, depth, p1);
    }
}

proof fn lemma_table_walk_entries(
    p: &PEFile,
    res: Seq<u8>,
    start: int,
    named: int,
    k: nat,
    depth: nat,
    pre: Seq<VisitEvent>,
)
    requires
        tables_readable(p, pre, spec_walk_entries::<TreeRecorder>((), res, start, named, k, depth, pre).0),
    ensures
        spec_walk_entries::<MessageTableVisitor>(p, res, start, named, k, depth, pre)
            == spec_walk_entries::<TreeRecorder>((), res, start, named, k, depth, pre),
    decreases depth, 1int, k,
{
    if k > 0 {
        let m = (k - 1) as nat;
        lemma_walk_entries_next::<TreeRecorder>((), res, start, named, m, depth, pre);
        lemma_walk_entries_next::<MessageTableVisitor>(p, res, start, named, m, depth, pre);
        let before = spec_walk_entries::<TreeRecorder>((), res, start, named, m, depth, pre);
        if before.1 is Some {
            lemma_table_walk_entries(p, res, start, named, m, depth, pre);
        } else {
            let last = spec_walk_entry::<TreeRecorder>((), res, start + 8 * m, m as int, named, depth, pre + before.0);
            lemma_tables_readable_split(p, pre, before.0, last.0);
            lemma_table_walk_entries(p, res, start, named, m, depth, pre);
            lemma_table_walk_entry(p, res, start + 8 * m, m as int, named, depth, pre + before.0);
        }
    }
}

proof fn lemma_table_walk_entry(
    p: &PEFile,
    res: Seq<u8>,
    off: int,
    index: int,
    named: int,
    depth: nat,
    pre: Seq<VisitEvent>,
)
    requires
        tables_readable(p, pre, spec_walk_entry::<TreeRecorder>((), res, off, index, named, depth, pre).0),
    ensures
        spec_walk_entry::<MessageTableVisitor>(p, res, off, index, named, depth, pre)
            == spec_walk_entry::<TreeRecorder>((), res, off, index, named, depth, pre),
    decreases depth, 0int, 0int,
{
    if let Ok(e) = decode_at::<IMAGE_RESOURCE_DIRECTORY_ENTRY>(res, off) {
        if let Ok(id) = e.spec_identifier_at(res, index, named) {
            if e.OffsetToData >= 0x8000_0000 {
                if depth > 0 {
                    lemma_table_walk_directory(p, res, e.OffsetToData - 0x8000_0000, id, (depth - 1) as nat, pre);
                }
            } else if let Ok(d) = decode_at::<IMAGE_RESOURCE_DATA_ENTRY>(res, e.OffsetToData as int) {
                let t = seq![VisitEvent::Leaf(d, id, None)];
                assert(t.take(0) =~= Seq::<VisitEvent>::empty());
                assert(pre + t.take(0) =~= pre);
                assert(t[0] == VisitEvent::Leaf(d, id, None));
            }
        }
    }
}

/// Where the walk over the resource section, with every call accepted,
/// succeeds, and every leaf it meets below type 11 is readable
/// (`tables_readable`), the message-table walk is that same walk and
/// succeeds; so `messages_iter` returns `Ok`.
pub proof fn lemma_messages_ok_when_tables_readable(p: &PEFile)
    requires
        spec_walk_directory::<TreeRecorder>(
            (),
            p.spec_resource_bytes(),
            0,
            IdentifierView::NoIdentifier,
            MAX_RESOURCE_DEPTH as nat,
            Seq::empty(),
        ).1 is None,
        tables_readable(
            p,
            Seq::empty(),
            spec_walk_directory::<TreeRecorder>(
                (),
                p.spec_resource_bytes(),
                0,
                IdentifierView::NoIdentifier,
                MAX_RESOURCE_DEPTH as nat,
                Seq::empty(),
            ).0,
        ),
    ensures
        p.spec_table_walk() == spec_walk_directory::<TreeRecorder>(
            (),
            p.spec_resource_bytes(),
            0,
            IdentifierView::NoIdentifier,
            MAX_RESOURCE_DEPTH as nat,
            Seq::empty(),
        ),
        p.spec_table_walk().1 is None,
{
    lemma_table_walk_directory(
        p,
        p.spec_resource_bytes(),
        0,
        IdentifierView::NoIdentifier,
        MAX_RESOURCE_DEPTH as nat,
        Seq::empty(),
    );
}

/// Whether the message-table visitors over `a` and over `b` answer every call alike.
pub open spec fn same_answers(a: &PEFile, b: &PEFile) -> bool {
    forall|pre: Seq<VisitEvent>, c: VisitEvent|
        #[trigger] <MessageTableVisitor as ResourceDirectoryVisitor>::refusal(a, pre, c)
            == <MessageTableVisitor as ResourceDirectoryVisitor>::refusal(b, pre, c)
}

proof fn lemma_same_walk_directory(a: &PEFile, b: &PEFile, res: Seq<u8>, off: int, id: IdentifierView, depth: nat, pre: Seq<VisitEvent>)
    requires
        same_answers(a, b),
    ensures
        spec_walk_directory::<MessageTableVisitor>(a, res, off, id, depth, pre)
            == spec_walk_directory::<MessageTableVisitor>(b, res, off, id, depth, pre),
    decreases depth, 2int, 0int,
{
    if let Ok(dir) = decode_at::<IMAGE_RESOURCE_DIRECTORY>(res, off) {
        let re = <MessageTableVisitor as ResourceDirectoryVisitor>::refusal(a, pre, VisitEvent::Enter(dir, id, None));
        assert(re == <MessageTableVisitor as ResourceDirectoryVisitor>::refusal(b, pre, VisitEvent::Enter(dir, id, None)));
        let p1 = pre.push(VisitEvent::Enter(dir, id, re));
        let named = dir.NumberOfNamedEntries as int;
        let n = (dir.NumberOfNamedEntries + dir.NumberOfIdEntries) as nat;
        lemma_same_walk_entries(a, b, res, off + 16, named, n, depth, p1);
        let mid = if re is None {
            spec_walk_entries::<MessageTableVisitor>(a, res, off + 16, named, n, depth, p1)
        } else {
            (Seq::<VisitEvent>::empty(), re)
        };
        let c = VisitEvent::Leave(dir, id, None);
        assert(<MessageTableVisitor as ResourceDirectoryVisitor>::refusal(a, p1 + mid.0, c)
            == <MessageTableVisitor as ResourceDirectoryVisitor>::refusal(b, p1 + mid.0, c));
    }
}

proof fn lemma_same_walk_entries(a: &PEFile, b: &PEFile, res: Seq<u8>, start: int, named: int, k: nat, depth: nat, pre: Seq<VisitEvent>)
    requires
        same_answers(a, b),
    ensures
        spec_walk_entries::<MessageTableVisitor>(a, res, start, named, k, depth, pre)
            == spec_walk_entries::<MessageTableVisitor>(b, res, start, named, k, depth, pre),
    decreases depth, 1int, k,
{
    if k > 0 {
        let m = (k - 1) as nat;
        lemma_same_walk_entries(a, b, res, start, named, m, depth, pre);
        let before = spec_walk_entries::<MessageTableVisitor>(a, res, start, named, m, depth, pre);
        lemma_same_walk_entry(a, b, res, start + 8 * m, m as int, named, depth, pre + before.0);
    }
}

proof fn lemma_same_walk_entry(a: &PEFile, b: &PEFile, res: Seq<u8>, off: int, index: int, named: int, depth: nat, pre: Seq<VisitEvent>)
    requires
        same_answers(a, b),
    ensures
        spec_walk_entry::<MessageTableVisitor>(a, res, off, index, named, depth, pre)
            == spec_walk_entry::<MessageTableVisitor>(b, res, off, index, named, depth, pre),
    decreases depth, 0int, 0int,
{
    if let Ok(e) = decode_at::<IMAGE_RESOURCE_DIRECTORY_ENTRY>(res, off) {
        if let Ok(id) = e.spec_identifier_at(res, index, named) {
            if e.OffsetToData >= 0x8000_0000 {
                if depth > 0 {
                    lemma_same_walk_directory(a, b, res, e.OffsetToData - 0x8000_0000, id, (depth - 1) as nat, pre);
                }
            } else if let Ok(d) = decode_at::<IMAGE_RESOURCE_DATA_ENTRY>(res, e.OffsetToData as int) {
                let c = VisitEvent::Leaf(d, id, None);
                assert(<MessageTableVisitor as ResourceDirectoryVisitor>::refusal(a, pre, c)
                    == <MessageTableVisitor as ResourceDirectoryVisitor>::refusal(b, pre, c));
            }
        }
    }
}

/// Finding the message tables depends on nothing but the bytes: over two
/// images read from equal bytes the message-table walk makes the same calls
/// and ends alike, so `messages_iter` succeeds on both or fails on both with
/// the same error, and on success finds the same tables in the same order.
pub proof fn lemma_table_walk_deterministic(a: &PEFile, b: &PEFile)
    requires
        a.wf(),
        b.wf(),
        a.spec_image() == b.spec_image(),
    ensures
        a.spec_resource_region() == b.spec_resource_region(),
        a.spec_resource_bytes() == b.spec_resource_bytes(),
        a.spec_table_walk() == b.spec_table_walk(),
{
    lemma_load_deterministic(a, b);
    assert(same_answers(a, b));
    lemma_same_walk_directory(
        a,
        b,
        a.spec_resource_bytes(),
        0,
        IdentifierView::NoIdentifier,
        MAX_RESOURCE_DEPTH as nat,
        Seq::empty(),
    );
}

/// The strings of all message tables of an image, one language after another.
pub struct Messages<'pefile> {
    pending: Vec<MessagesIterator<'pefile>>,
    active: Option<MessagesIterator<'pefile>>,
    errors: Vec<PeError>,
}

impl<'pefile> Messages<'pefile> {
    /// The decoders still to be drained, the one in use first.
    pub closed spec fn spec_queue(&self) -> Seq<MessagesIterator<'pefile>> {
        match self.active {
            Some(it) => seq![it] + self.pending@,
            None => self.pending@,
        }
    }

    /// The errors that ended decoders early, in order.
    pub closed spec fn spec_errors(&self) -> Seq<PeError> {
        self.errors@
    }

    /// The next string: the next one of the first decoder that still yields.
    /// Decoders that end on the way leave the queue, and their errors are kept.
    pub fn next(&mut self) -> (r: Option<Message>)
        ensures
            r is None <==> forall|i: int|
                0 <= i < old(self).spec_queue().len() ==> !yields(
                    #[trigger] old(self).spec_queue()[i],
                ),
            r is None ==> final(self).spec_queue().len() == 0 && final(self).spec_errors()
                == old(self).spec_errors() + closing_errors(old(self).spec_queue()),
            r matches Some(m) ==> exists|k: int|
                0 <= k < old(self).spec_queue().len() && yields(old(self).spec_queue()[k]) && (
                forall|i: int| 0 <= i < k ==> !yields(#[trigger] old(self).spec_queue()[i]))
                    && (spec_step(
                    old(self).spec_queue()[k].spec_image(),
                    old(self).spec_queue()[k].spec_rde_offset(),
                    old(self).spec_queue()[k].spec_cursor(),
                ) matches Some(Ok((c, id, text))) && m.msg_id == id && m.text@ == text
                    && m.lang_id == old(self).spec_queue()[k].spec_lang_id()
                    && final(self).spec_queue().len() == old(self).spec_queue().len() - k
                    && final(self).spec_queue()[0].spec_cursor() == c
                    && final(self).spec_queue().skip(1) == old(self).spec_queue().skip(k + 1)
                    && final(self).spec_errors() == old(self).spec_errors() + closing_errors(
                    old(self).spec_queue().take(k),
                )),
    {
        let ghost q0 = self.spec_queue();
        let ghost e0 = self.errors@;
        let ghost mut j: int = 0;
        assert(q0.take(0) =~= Seq::<MessagesIterator>::empty());
        assert(q0.skip(0) =~= q0);
        loop
            invariant
                q0 == old(self).spec_queue(),
                e0 == old(self).spec_errors(),
                0 <= j <= q0.len(),
                self.spec_queue() == q0.skip(j),
                forall|i: int| 0 <= i < j ==> !yields(#[trigger] q0[i]),
                self.errors@ == e0 + closing_errors(q0.take(j)),
            decreases 2 * self.pending@.len() + (if self.active is Some {
                1int
            } else {
                0int
            }),
        {
            if self.active.is_none() {
                if self.pending.len() == 0 {
                    assert(j == q0.len());
                    assert(q0.take(j) =~= q0);
                    assert(q0 == old(self).spec_queue());
                    assert forall|i: int| 0 <= i < q0.len() implies !yields(#[trigger] q0[i]) by {}
                    return None;
                }
                let it = self.pending.remove(0);
                self.active = Some(it);
                assert(self.spec_queue() =~= q0.skip(j));
            }
            let ghost qj = self.spec_queue();
            let mut it = match self.active.take() {
                Some(it) => it,
                None => {
                    assert(false);
                    return None;
                },
            };
            proof {
                assert(qj[0] == q0[j]);
                assert(qj.skip(1) =~= q0.skip(j + 1));
                assert(self.pending@ =~= qj.skip(1));
            }
            let m = it.next();
            match m {
                Some(msg) => {
                    self.active = Some(it);
                    proof {
                        assert(yields(q0[j]));
                        assert(self.spec_queue().skip(1) =~= q0.skip(j + 1));
                        assert(self.spec_queue()[0] == it);
                        assert(q0 == old(self).spec_queue());
                        assert(yields(old(self).spec_queue()[j]));
                    }
                    return Some(msg);
                },
                None => {
                    match it.error() {
                        Some(e) => {
                            self.errors.push(e);
                        },
                        None => {},
                    }
                    proof {
                        assert(q0.take(j + 1).drop_last() =~= q0.take(j));
                        assert(q0.take(j + 1).last() == q0[j]);
                        assert(self.spec_queue() =~= q0.skip(j + 1));
                        j = j + 1;
                    }
                },
            }
        }
    }

    /// The errors that ended decoders early so far, in order.
    pub fn errors(&self) -> (r: &[PeError])
        ensures
            r@ == self.spec_errors(),
    {
        self.errors.as_slice()
    }
}

impl PEFile {
    /// The walk of the message-table visitor over the resource section: the
    /// calls it makes and how it ends.
    pub open spec fn spec_table_walk(&self) -> (Seq<VisitEvent>, Option<PeError>) {
        spec_walk_directory::<MessageTableVisitor>(
            self,
            self.spec_resource_bytes(),
            0,
            IdentifierView::NoIdentifier,
            MAX_RESOURCE_DEPTH as nat,
            Seq::empty(),
        )
    }

    /// Walks the resource tree and gathers a decoder for each message table
    /// found, in the order of the walk: one per leaf below type 11 and an
    /// ordinal, which gives the language.
    ///
    /// It succeeds exactly when the resource section, if any, lies within the
    /// image, the walk over it meets no malformed directory or entry, and every
    /// leaf below type 11 sits at type / name / language with an ordinal name,
    /// and its table's header resolves and decodes (`leaf_refusal`); otherwise
    /// it fails with the first such failure in the order of the walk.
    pub fn messages_iter(&self) -> (r: Result<Messages<'_>, PeError>)
        ensures
            !self.spec_resource_in_bounds() ==> (r matches Err(e) && e == PeError::OutOfBounds),
            self.spec_resource_region() is None ==> (r matches Ok(ms) && ms.spec_queue().len() == 0
                && ms.spec_errors().len() == 0),
            self.spec_resource_region() is Some && self.spec_resource_in_bounds() ==> ({
                let walk = self.spec_table_walk();
                let leaves = table_leaves(walk.0);
                &&& r is Ok <==> walk.1 is None
                &&& r matches Err(e) ==> walk.1 == Some(e)
                &&& r matches Ok(ms) ==> ms.spec_errors().len() == 0 && ms.spec_queue().len()
                    == leaves.len() && forall|j: int|
                    0 <= j < leaves.len() ==> decodes_table(
                        #[trigger] ms.spec_queue()[j],
                        self,
                        leaves[j].0,
                        leaves[j].1,
                    )
            }),
    {
        let mut visitor = MessageTableVisitor::new(self);
        let walked = self.visit_resource_tree(&mut visitor);
        proof {
            assert(Seq::<VisitEvent>::empty() + visitor.trace() =~= visitor.trace());
        }
        match walked {
            Err(e) => Err(e),
            Ok(()) => {
                let ms = visitor.into_iter();
                proof {
                    assert(visitor.pefile == self);
                    assert forall|j: int| 0 <= j < ms.spec_queue().len() implies decodes_table(
                        #[trigger] ms.spec_queue()[j],
                        self,
                        table_leaves(visitor.trace())[j].0,
                        table_leaves(visitor.trace())[j].1,
                    ) by {
                        assert(ms.spec_queue()[j] == visitor.iterators@[j]);
                    }
                }
                Ok(ms)
            },
        }
    }
}

} // verus!
