use vstd::prelude::*;

use crate::error::{FormatIssue, PeError};
use crate::from_bytes::{decode_at, PackedSize, StructFromBytes};
use crate::pefile::PEFile;
use crate::resource::{EntryIdentifier, IdentifierView};
use crate::visitor::{outcome, ResourceDirectoryVisitor, VisitEvent};
use crate::winnt::{IMAGE_RESOURCE_DATA_ENTRY, IMAGE_RESOURCE_DIRECTORY, IMAGE_RESOURCE_DIRECTORY_ENTRY};

verus! {

/// How deep the resource walker follows subdirectories below the root. A
/// deeper tree, which includes any tree with a cycle, fails with
/// `InvalidFormat(ResourceDepth)`.
pub const MAX_RESOURCE_DEPTH: usize = 32;

/// The calls that a walk over the directory at `off` of the resource section
/// `res`, reached through the label `id`, makes on a visitor of type `V`
/// working against `ctx` whose calls so far are `pre`, and how the walk ends.
///
/// The directory is entered; if the visitor accepts that, its entries are
/// visited in order until one fails; then the directory is left, whatever
/// happened below it. The walk ends with the first failure: of the entries,
/// of the enter call, or else of the leave call.
pub open spec fn spec_walk_directory<V: ResourceDirectoryVisitor>(
    ctx: V::Context,
    res: Seq<u8>,
    off: int,
    id: IdentifierView,
    depth: nat,
    pre: Seq<VisitEvent>,
) -> (Seq<VisitEvent>, Option<PeError>)
    decreases depth, 2int, 0int,
{
    match decode_at::<IMAGE_RESOURCE_DIRECTORY>(res, off) {
        Err(e) => (Seq::empty(), Some(e)),
        Ok(dir) => {
            let re = V::refusal(ctx, pre, VisitEvent::Enter(dir, id, None));
            let p1 = pre.push(VisitEvent::Enter(dir, id, re));
            let mid = if re is None {
                spec_walk_entries::<V>(
                    ctx,
                    res,
                    off + 16,
                    dir.NumberOfNamedEntries as int,
                    (dir.NumberOfNamedEntries + dir.NumberOfIdEntries) as nat,
                    depth,
                    p1,
                )
            } else {
                (Seq::empty(), re)
            };
            let rl = V::refusal(ctx, p1 + mid.0, VisitEvent::Leave(dir, id, None));
            (
                seq![VisitEvent::Enter(dir, id, re)] + mid.0 + seq![VisitEvent::Leave(dir, id, rl)],
                if mid.1 is Some {
                    mid.1
                } else {
                    rl
                },
            )
        },
    }
}

/// The calls of a walk over the first `k` entries of the table at `start`,
/// stopping at the first that fails.
pub open spec fn spec_walk_entries<V: ResourceDirectoryVisitor>(
    ctx: V::Context,
    res: Seq<u8>,
    start: int,
    named: int,
    k: nat,
    depth: nat,
    pre: Seq<VisitEvent>,
) -> (Seq<VisitEvent>, Option<PeError>)
    decreases depth, 1int, k,
{
    if k == 0 {
        (Seq::empty(), None)
    } else {
        let before = spec_walk_entries::<V>(ctx, res, start, named, (k - 1) as nat, depth, pre);
        if before.1 is Some {
            before
        } else {
            let last = spec_walk_entry::<V>(
                ctx,
                res,
                start + 8 * (k - 1),
                k - 1,
                named,
                depth,
                pre + before.0,
            );
            (before.0 + last.0, last.1)
        }
    }
}

/// The calls of a walk over the entry at `off`, the `index`-th of its table:
/// the subdirectory it points to, or one visit of its leaf.
pub open spec fn spec_walk_entry<V: ResourceDirectoryVisitor>(
    ctx: V::Context,
    res: Seq<u8>,
    off: int,
    index: int,
    named: int,
    depth: nat,
    pre: Seq<VisitEvent>,
) -> (Seq<VisitEvent>, Option<PeError>)
    decreases depth, 0int, 0int,
{
    match decode_at::<IMAGE_RESOURCE_DIRECTORY_ENTRY>(res, off) {
        Err(e) => (Seq::empty(), Some(e)),
        Ok(e) => match e.spec_identifier_at(res, index, named) {
            Err(x) => (Seq::empty(), Some(x)),
            Ok(id) => if e.OffsetToData >= 0x8000_0000 {
                if depth == 0 {
                    (Seq::empty(), Some(PeError::InvalidFormat(FormatIssue::ResourceDepth)))
                } else {
                    spec_walk_directory::<V>(
                        ctx,
                        res,
                        e.OffsetToData - 0x8000_0000,
                        id,
                        (depth - 1) as nat,
                        pre,
                    )
                }
            } else {
                match decode_at::<IMAGE_RESOURCE_DATA_ENTRY>(res, e.OffsetToData as int) {
                    Err(x) => (Seq::empty(), Some(x)),
                    Ok(d) => {
                        let r = V::refusal(ctx, pre, VisitEvent::Leaf(d, id, None));
                        (seq![VisitEvent::Leaf(d, id, r)], r)
                    },
                }
            },
        },
    }
}

/// A walk over `k + 1` entries is one over `k` of them, then, unless that
/// failed, one over the entry after them.
pub proof fn lemma_walk_entries_next<V: ResourceDirectoryVisitor>(
    ctx: V::Context,
    res: Seq<u8>,
    start: int,
    named: int,
    k: nat,
    depth: nat,
    pre: Seq<VisitEvent>,
)
    ensures
        ({
            let before = spec_walk_entries::<V>(ctx, res, start, named, k, depth, pre);
            let last = spec_walk_entry::<V>(ctx, res, start + 8 * k, k as int, named, depth, pre + before.0);
            spec_walk_entries::<V>(ctx, res, start, named, k + 1, depth, pre) == if before.1 is Some {
                before
            } else {
                (before.0 + last.0, last.1)
            }
        }),
{
    assert((k + 1 - 1) as nat == k);
}

/// Once a walk over the first `k` entries fails, one over more of them fails
/// the same way, with the same calls.
pub proof fn lemma_walk_entries_err<V: ResourceDirectoryVisitor>(
    ctx: V::Context,
    res: Seq<u8>,
    start: int,
    named: int,
    k: nat,
    n: nat,
    depth: nat,
    pre: Seq<VisitEvent>,
)
    requires
        k <= n,
        spec_walk_entries::<V>(ctx, res, start, named, k, depth, pre).1 is Some,
    ensures
        spec_walk_entries::<V>(ctx, res, start, named, n, depth, pre) == spec_walk_entries::<V>(
            ctx,
            res,
            start,
            named,
            k,
            depth,
            pre,
        ),
    decreases n - k,
{
    if k < n {
        lemma_walk_entries_err::<V>(ctx, res, start, named, k, (n - 1) as nat, depth, pre);
    }
}

/// The label of a call on a visitor.
pub open spec fn event_label(e: VisitEvent) -> IdentifierView {
    match e {
        VisitEvent::Enter(_, id, _) => id,
        VisitEvent::Leave(_, id, _) => id,
        VisitEvent::Leaf(_, id, _) => id,
    }
}

/// The walk over the `index`-th entry of a directory whose first `named`
/// entries are named labels what it visits by name exactly when the entry
/// stands among the first `named`, and by ordinal otherwise.
pub proof fn lemma_walk_labels_follow_position<V: ResourceDirectoryVisitor>(
    ctx: V::Context,
    res: Seq<u8>,
    off: int,
    index: int,
    named: int,
    depth: nat,
    pre: Seq<VisitEvent>,
)
    requires
        spec_walk_entry::<V>(ctx, res, off, index, named, depth, pre).0.len() > 0,
    ensures
        ({
            let id = event_label(spec_walk_entry::<V>(ctx, res, off, index, named, depth, pre).0[0]);
            &&& index < named ==> id is Name
            &&& index >= named ==> id is Id
        }),
{
    let e = decode_at::<IMAGE_RESOURCE_DIRECTORY_ENTRY>(res, off)->Ok_0;
    let id = e.spec_identifier_at(res, index, named)->Ok_0;
    if e.OffsetToData >= 0x8000_0000 {
        let d = decode_at::<IMAGE_RESOURCE_DIRECTORY>(res, e.OffsetToData - 0x8000_0000)->Ok_0;
        let w = spec_walk_directory::<V>(ctx, res, e.OffsetToData - 0x8000_0000, id, (depth - 1) as nat, pre);
        let re = V::refusal(ctx, pre, VisitEvent::Enter(d, id, None));
        assert(w.0[0] == VisitEvent::Enter(d, id, re));
    }
}

/// Number of directories entered in `t`.
pub open spec fn count_enters(t: Seq<VisitEvent>) -> nat
    decreases t.len(),
{
    if t.len() == 0 {
        0
    } else {
        count_enters(t.drop_last()) + if t.last() is Enter {
            1nat
        } else {
            0nat
        }
    }
}

/// Number of directories left in `t`.
pub open spec fn count_leaves(t: Seq<VisitEvent>) -> nat
    decreases t.len(),
{
    if t.len() == 0 {
        0
    } else {
        count_leaves(t.drop_last()) + if t.last() is Leave {
            1nat
        } else {
            0nat
        }
    }
}

pub proof fn lemma_counts_concat(a: Seq<VisitEvent>, b: Seq<VisitEvent>)
    ensures
        count_enters(a + b) == count_enters(a) + count_enters(b),
        count_leaves(a + b) == count_leaves(a) + count_leaves(b),
    decreases b.len(),
{
    if b.len() == 0 {
        assert(a + b =~= a);
    } else {
        lemma_counts_concat(a, b.drop_last());
        assert((a + b).drop_last() =~= a + b.drop_last());
    }
}

proof fn lemma_count_one(e: VisitEvent)
    ensures
        count_enters(seq![e]) == (if e is Enter {
            1nat
        } else {
            0nat
        }),
        count_leaves(seq![e]) == (if e is Leave {
            1nat
        } else {
            0nat
        }),
{
    let s = seq![e];
    assert(s.drop_last() =~= Seq::<VisitEvent>::empty());
    assert(s.last() == e);
    assert(count_enters(s.drop_last()) == 0 && count_leaves(s.drop_last()) == 0);
}

/// Every walk over a directory leaves as many directories as it enters,
/// whatever the visitor answers.
pub proof fn lemma_walk_directory_balanced<V: ResourceDirectoryVisitor>(
    ctx: V::Context,
    res: Seq<u8>,
    off: int,
    id: IdentifierView,
    depth: nat,
    pre: Seq<VisitEvent>,
)
    ensures
        count_enters(spec_walk_directory::<V>(ctx, res, off, id, depth, pre).0) == count_leaves(
            spec_walk_directory::<V>(ctx, res, off, id, depth, pre).0,
        ),
    decreases depth, 2int, 0int,
{
    if let Ok(dir) = decode_at::<IMAGE_RESOURCE_DIRECTORY>(res, off) {
        let n = (dir.NumberOfNamedEntries + dir.NumberOfIdEntries) as nat;
        let named = dir.NumberOfNamedEntries as int;
        let re = V::refusal(ctx, pre, VisitEvent::Enter(dir, id, None));
        let p1 = pre.push(VisitEvent::Enter(dir, id, re));
        let mid = if re is None {
            lemma_walk_entries_balanced::<V>(ctx, res, off + 16, named, n, depth, p1);
            spec_walk_entries::<V>(ctx, res, off + 16, named, n, depth, p1)
        } else {
            (Seq::<VisitEvent>::empty(), re)
        };
        let rl = V::refusal(ctx, p1 + mid.0, VisitEvent::Leave(dir, id, None));
        let en = seq![VisitEvent::Enter(dir, id, re)];
        let lv = seq![VisitEvent::Leave(dir, id, rl)];
        lemma_count_one(VisitEvent::Enter(dir, id, re));
        lemma_count_one(VisitEvent::Leave(dir, id, rl));
        lemma_counts_concat(en, mid.0);
        lemma_counts_concat(en + mid.0, lv);
        assert(spec_walk_directory::<V>(ctx, res, off, id, depth, pre).0 == en + mid.0 + lv);
    }
}

/// Every walk over entries leaves as many directories as it enters.
pub proof fn lemma_walk_entries_balanced<V: ResourceDirectoryVisitor>(
    ctx: V::Context,
    res: Seq<u8>,
    start: int,
    named: int,
    k: nat,
    depth: nat,
    pre: Seq<VisitEvent>,
)
    ensures
        count_enters(spec_walk_entries::<V>(ctx, res, start, named, k, depth, pre).0) == count_leaves(
            spec_walk_entries::<V>(ctx, res, start, named, k, depth, pre).0,
        ),
    decreases depth, 1int, k,
{
    if k > 0 {
        let m = (k - 1) as nat;
        lemma_walk_entries_balanced::<V>(ctx, res, start, named, m, depth, pre);
        let before = spec_walk_entries::<V>(ctx, res, start, named, m, depth, pre);
        if before.1 is None {
            let p = pre + before.0;
            lemma_walk_entry_balanced::<V>(ctx, res, start + 8 * m, m as int, named, depth, p);
            lemma_counts_concat(
                before.0,
                spec_walk_entry::<V>(ctx, res, start + 8 * m, m as int, named, depth, p).0,
            );
        }
    }
}

/// Every walk over one entry leaves as many directories as it enters.
pub proof fn lemma_walk_entry_balanced<V: ResourceDirectoryVisitor>(
    ctx: V::Context,
    res: Seq<u8>,
    off: int,
    index: int,
    named: int,
    depth: nat,
    pre: Seq<VisitEvent>,
)
    ensures
        count_enters(spec_walk_entry::<V>(ctx, res, off, index, named, depth, pre).0) == count_leaves(
            spec_walk_entry::<V>(ctx, res, off, index, named, depth, pre).0,
        ),
    decreases depth, 0int, 0int,
{
    if let Ok(e) = decode_at::<IMAGE_RESOURCE_DIRECTORY_ENTRY>(res, off) {
        if let Ok(id) = e.spec_identifier_at(res, index, named) {
            if e.OffsetToData >= 0x8000_0000 {
                if depth > 0 {
                    lemma_walk_directory_balanced::<V>(
                        ctx,
                        res,
                        e.OffsetToData - 0x8000_0000,
                        id,
                        (depth - 1) as nat,
                        pre,
                    );
                }
            } else if let Ok(d) = decode_at::<IMAGE_RESOURCE_DATA_ENTRY>(res, e.OffsetToData as int) {
                lemma_count_one(VisitEvent::Leaf(d, id, V::refusal(ctx, pre, VisitEvent::Leaf(d, id, None))));
            }
        }
    }
}

impl PEFile {
    /// Walks the resource tree depth-first, if the image has one, driving
    /// `visitor`: the calls made and the outcome are those of
    /// `spec_walk_directory` from the root, labelled `NoIdentifier`, for the
    /// answers that this visitor gives. Every directory entered is left again,
    /// whatever fails below it.
    pub fn visit_resource_tree<V: ResourceDirectoryVisitor>(&self, visitor: &mut V) -> (r: Result<
        (),
        PeError,
    >)
        requires
            old(visitor).inv(),
        ensures
            final(visitor).inv(),
            final(visitor).context() == old(visitor).context(),
            final(visitor).open_directories() == old(visitor).open_directories(),
            final(visitor).entered() - old(visitor).entered() == final(visitor).left() - old(
                visitor,
            ).left(),
            self.spec_resource_region() is None ==> r is Ok && *final(visitor) == *old(visitor),
            !self.spec_resource_in_bounds() ==> r == Err::<(), PeError>(PeError::OutOfBounds)
                && *final(visitor) == *old(visitor),
            self.spec_resource_region() is Some && self.spec_resource_in_bounds() ==> ({
                let walk = spec_walk_directory::<V>(
                    old(visitor).context(),
                    self.spec_resource_bytes(),
                    0,
                    IdentifierView::NoIdentifier,
                    MAX_RESOURCE_DEPTH as nat,
                    old(visitor).trace(),
                );
                &&& final(visitor).trace() == old(visitor).trace() + walk.0
                &&& outcome(r) == walk.1
            }),
    {
        match self.resources_region()? {
            None => Ok(()),
            Some(resources) => self.visit_directory(
                resources,
                visitor,
                0,
                EntryIdentifier::NoIdentifier,
                MAX_RESOURCE_DEPTH,
            ),
        }
    }

    /// Visits the directory at `offset` of the resource section and, below it,
    /// `depth` more levels of subdirectories.
    fn visit_directory<V: ResourceDirectoryVisitor>(
        &self,
        resources: &[u8],
        visitor: &mut V,
        offset: usize,
        identifier: EntryIdentifier,
        depth: usize,
    ) -> (r: Result<(), PeError>)
        requires
            old(visitor).inv(),
        ensures
            final(visitor).inv(),
            final(visitor).context() == old(visitor).context(),
            final(visitor).open_directories() == old(visitor).open_directories(),
            final(visitor).entered() - old(visitor).entered() == final(visitor).left() - old(
                visitor,
            ).left(),
            ({
                let walk = spec_walk_directory::<V>(
                    old(visitor).context(),
                    resources@,
                    offset as int,
                    identifier@,
                    depth as nat,
                    old(visitor).trace(),
                );
                &&& final(visitor).trace() == old(visitor).trace() + walk.0
                &&& outcome(r) == walk.1
            }),
        decreases depth, 2usize,
    {
        let ghost t0 = visitor.trace();
        let ghost ctx = visitor.context();
        let dir = match IMAGE_RESOURCE_DIRECTORY::from_bytes(resources, offset) {
            Ok(d) => d,
            Err(e) => {
                assert(t0 + Seq::<VisitEvent>::empty() =~= t0);
                return Err(e);
            },
        };
        let ghost named = dir.NumberOfNamedEntries as int;
        let ghost n = (dir.NumberOfNamedEntries + dir.NumberOfIdEntries) as nat;
        let mut result = visitor.enter_resource_directory(&dir, &identifier);
        let ghost re = outcome(result);
        let ghost t1 = visitor.trace();
        let ghost mut mid: (Seq<VisitEvent>, Option<PeError>) = (Seq::empty(), re);
        assert(t1 + mid.0 =~= t1);
        let _len: usize = resources.len();
        let start = offset + IMAGE_RESOURCE_DIRECTORY::packed_size();
        if result.is_ok() {
            let named_count = dir.NumberOfNamedEntries as usize;
            let count = named_count + dir.NumberOfIdEntries as usize;
            result = self.visit_entries(resources, visitor, start, named_count, count, depth);
            proof {
                mid = spec_walk_entries::<V>(ctx, resources@, start as int, named, n, depth as nat, t1);
            }
        }
        let ghost t2 = visitor.trace();
        let left = visitor.leave_resource_directory(&dir, &identifier);
        proof {
            let rl = outcome(left);
            let walk = spec_walk_directory::<V>(ctx, resources@, offset as int, identifier@, depth as nat, t0);
            assert(t2 == t1 + mid.0);
            assert(walk.0 == seq![VisitEvent::Enter(dir, identifier@, re)] + mid.0 + seq![
                VisitEvent::Leave(dir, identifier@, rl),
            ]);
            assert(visitor.trace() =~= t0 + walk.0);
            assert(outcome(result) == mid.1);
        }
        match result {
            Err(e) => Err(e),
            Ok(()) => left,
        }
    }

    /// Visits the `count` entries of the table at `start`, in order, until one fails.
    fn visit_entries<V: ResourceDirectoryVisitor>(
        &self,
        resources: &[u8],
        visitor: &mut V,
        start: usize,
        named_count: usize,
        count: usize,
        depth: usize,
    ) -> (r: Result<(), PeError>)
        requires
            old(visitor).inv(),
            start <= resources@.len(),
        ensures
            final(visitor).inv(),
            final(visitor).context() == old(visitor).context(),
            final(visitor).open_directories() == old(visitor).open_directories(),
            final(visitor).entered() - old(visitor).entered() == final(visitor).left() - old(
                visitor,
            ).left(),
            ({
                let walk = spec_walk_entries::<V>(
                    old(visitor).context(),
                    resources@,
                    start as int,
                    named_count as int,
                    count as nat,
                    depth as nat,
                    old(visitor).trace(),
                );
                &&& final(visitor).trace() == old(visitor).trace() + walk.0
                &&& outcome(r) == walk.1
            }),
        decreases depth, 1usize,
    {
        let ghost t1 = visitor.trace();
        let ghost ctx = visitor.context();
        let ghost open0 = visitor.open_directories();
        let ghost diff0 = visitor.entered() - visitor.left();
        let ghost named = named_count as int;
        let ghost n = count as nat;
        let ghost mut tk: Seq<VisitEvent> = Seq::empty();
        assert(t1 + tk =~= t1);
        let len = resources.len();
        let mut idx: usize = 0;
        while idx < count
            invariant
                t1 == old(visitor).trace(),
                ctx == old(visitor).context(),
                visitor.context() == ctx,
                open0 == old(visitor).open_directories(),
                diff0 == old(visitor).entered() - old(visitor).left(),
                named == named_count,
                n == count,
                idx <= count,
                start <= len,
                len == resources@.len(),
                visitor.inv(),
                visitor.open_directories() == open0,
                visitor.entered() - visitor.left() == diff0,
                visitor.trace() == t1 + tk,
                tk == spec_walk_entries::<V>(ctx, resources@, start as int, named, idx as nat, depth as nat, t1).0,
                spec_walk_entries::<V>(ctx, resources@, start as int, named, idx as nat, depth as nat, t1).1
                    is None,
            decreases count - idx,
        {
            proof {
                lemma_walk_entries_next::<V>(ctx, resources@, start as int, named, idx as nat, depth as nat, t1);
            }
            if (len - start) / 8 < idx {
                proof {
                    assert(len - start < 8 * idx) by (nonlinear_arith)
                        requires
                            (len - start) / 8 < idx,
                            start <= len,
                    ;
                    assert(decode_at::<IMAGE_RESOURCE_DIRECTORY_ENTRY>(resources@, start + 8 * idx)
                        is Err);
                    assert(spec_walk_entries::<V>(
                        ctx,
                        resources@,
                        start as int,
                        named,
                        (idx + 1) as nat,
                        depth as nat,
                        t1,
                    ).0 =~= tk);
                    lemma_walk_entries_err::<V>(
                        ctx,
                        resources@,
                        start as int,
                        named,
                        (idx + 1) as nat,
                        n,
                        depth as nat,
                        t1,
                    );
                    assert(t1 + tk == visitor.trace());
                }
                return Err(PeError::OutOfBounds);
            }
            let ghost tb = visitor.trace();
            let entry_offset = start + idx * 8;
            let visited = self.visit_directory_entry(
                resources,
                visitor,
                entry_offset,
                idx,
                named_count,
                depth,
            );
            proof {
                let w = spec_walk_entry::<V>(ctx, resources@, start + 8 * idx, idx as int, named, depth as nat, t1 + tk);
                assert(entry_offset as int == start + 8 * idx);
                assert(visitor.trace() =~= t1 + (tk + w.0));
                tk = tk + w.0;
                if visited.is_err() {
                    lemma_walk_entries_err::<V>(
                        ctx,
                        resources@,
                        start as int,
                        named,
                        (idx + 1) as nat,
                        n,
                        depth as nat,
                        t1,
                    );
                }
            }
            if visited.is_err() {
                return visited;
            }
            idx = idx + 1;
        }
        Ok(())
    }

    /// Visits the entry at `offset`, the `index`-th of a directory with
    /// `named_count` named entries: a subdirectory or a leaf.
    fn visit_directory_entry<V: ResourceDirectoryVisitor>(
        &self,
        resources: &[u8],
        visitor: &mut V,
        offset: usize,
        index: usize,
        named_count: usize,
        depth: usize,
    ) -> (r: Result<(), PeError>)
        requires
            old(visitor).inv(),
        ensures
            final(visitor).inv(),
            final(visitor).context() == old(visitor).context(),
            final(visitor).open_directories() == old(visitor).open_directories(),
            final(visitor).entered() - old(visitor).entered() == final(visitor).left() - old(
                visitor,
            ).left(),
            ({
                let walk = spec_walk_entry::<V>(
                    old(visitor).context(),
                    resources@,
                    offset as int,
                    index as int,
                    named_count as int,
                    depth as nat,
                    old(visitor).trace(),
                );
                &&& final(visitor).trace() == old(visitor).trace() + walk.0
                &&& outcome(r) == walk.1
            }),
        decreases depth, 0usize,
    {
        let ghost t0 = visitor.trace();
        proof {
            assert(t0 + Seq::<VisitEvent>::empty() =~= t0);
        }
        let raw_entry = IMAGE_RESOURCE_DIRECTORY_ENTRY::from_bytes(resources, offset)?;
        let identifier = raw_entry.identifier_at(resources, index, named_count)?;
        if raw_entry.OffsetToData >= 0x8000_0000 {
            if depth == 0 {
                return Err(PeError::InvalidFormat(FormatIssue::ResourceDepth));
            }
            let entry_offset = (raw_entry.OffsetToData - 0x8000_0000) as usize;
            self.visit_directory(resources, visitor, entry_offset, identifier, depth - 1)
        } else {
            let entry_offset = raw_entry.OffsetToData as usize;
            let data_entry = IMAGE_RESOURCE_DATA_ENTRY::from_bytes(resources, entry_offset)?;
            let r = visitor.visit_resource_data_entry(&data_entry, &identifier);
            proof {
                assert(visitor.trace() =~= t0 + seq![VisitEvent::Leaf(data_entry, identifier@, outcome(r))]);
            }
            r
        }
    }
}

} // verus!
