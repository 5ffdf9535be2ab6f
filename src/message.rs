use vstd::prelude::*;

use crate::bytes::window;
use crate::error::{FormatIssue, PeError};
use crate::from_bytes::{decode_at, PackedSize, StructFromBytes};
use crate::pefile::PEFile;
use crate::winnt::{
    IMAGE_RESOURCE_DATA_ENTRY, MESSAGE_RESOURCE_BLOCK, MESSAGE_RESOURCE_DATA,
    MESSAGE_RESOURCE_ENTRY,
};

verus! {

/// One string of a message table.
#[derive(Debug)]
pub struct Message {
    pub msg_id: u32,
    pub lang_id: u32,
    /// The decoded text, trailing control characters included.
    pub text: String,
}

impl Message {
    pub fn new(msg_id: u32, lang_id: u32, text: String) -> (r: Self)
        ensures
            r.msg_id == msg_id,
            r.lang_id == lang_id,
            r.text == text,
    {
        Message { msg_id, lang_id, text }
    }
}

/// Text of bytes in code page 1252, as `encoding_rs` decodes it.
pub uninterp spec fn windows_1252_text(b: Seq<u8>) -> Seq<char>;

/// Text of UTF-16LE bytes, as `encoding_rs` decodes it.
pub uninterp spec fn utf16le_text(b: Seq<u8>) -> Seq<char>;

/// Relies on `encoding_rs::WINDOWS_1252.decode`: a function of the bytes alone
/// (a leading byte-order mark selects its encoding, malformed input becomes U+FFFD).
#[verifier::external_body]
fn decode_windows_1252(b: &[u8]) -> (r: String)
    requires
        b@.len() <= 0xffff,
    ensures
        r@ == windows_1252_text(b@),
{
    encoding_rs::WINDOWS_1252.decode(b).0.into_owned()
}

/// Relies on `encoding_rs::UTF_16LE.decode`: a function of the bytes alone
/// (a leading byte-order mark selects its encoding, malformed input becomes U+FFFD).
#[verifier::external_body]
fn decode_utf16le(b: &[u8]) -> (r: String)
    requires
        b@.len() <= 0xffff,
    ensures
        r@ == utf16le_text(b@),
{
    encoding_rs::UTF_16LE.decode(b).0.into_owned()
}

/// Position of a message-table decoder: the active block's id range, the id
/// last produced, and where the next block and the next entry start.
#[derive(Clone, Copy, Debug, PartialEq, Eq, Structural)]
pub struct MessageCursor {
    pub remaining_blocks: u32,
    pub low_id: u32,
    pub high_id: u32,
    pub current_id: u32,
    pub block_offset: usize,
    pub entry_offset: usize,
}

/// The cursor moved onto the id to produce next: the next id of the active
/// block, or the first id of the next block. `None` once no block is left.
pub open spec fn spec_advance(img: Seq<u8>, rde: int, c: MessageCursor) -> Option<
    Result<MessageCursor, PeError>,
> {
    if c.current_id < c.high_id {
        Some(Ok(MessageCursor { current_id: (c.current_id + 1) as u32, ..c }))
    } else if c.remaining_blocks == 0 {
        None
    } else {
        match decode_at::<MESSAGE_RESOURCE_BLOCK>(img, c.block_offset as int) {
            Err(e) => Some(Err(e)),
            Ok(b) => if rde + b.OffsetToEntries > usize::MAX {
                Some(Err(PeError::OutOfBounds))
            } else {
                Some(
                    Ok(
                        MessageCursor {
                            remaining_blocks: (c.remaining_blocks - 1) as u32,
                            low_id: b.LowId,
                            high_id: b.HighId,
                            current_id: b.LowId,
                            block_offset: (c.block_offset + 12) as usize,
                            entry_offset: (rde + b.OffsetToEntries) as usize,
                        },
                    ),
                )
            },
        }
    }
}

/// The message entry at `off`, checked: at least as long as its header, with
/// a known encoding, and all of it within the image.
pub open spec fn spec_entry(img: Seq<u8>, off: int) -> Result<MESSAGE_RESOURCE_ENTRY, PeError> {
    match decode_at::<MESSAGE_RESOURCE_ENTRY>(img, off) {
        Err(e) => Err(e),
        Ok(e) => if e.Length < 4 {
            Err(PeError::InvalidFormat(FormatIssue::EntryLength))
        } else if e.Flags > 1 {
            Err(PeError::InvalidFormat(FormatIssue::EncodingFlags))
        } else if off + e.Length > img.len() {
            Err(PeError::OutOfBounds)
        } else {
            Ok(e)
        },
    }
}

/// The text of the entry `e` at `off`: its bytes after the header, decoded as
/// its flags say.
pub open spec fn spec_text(img: Seq<u8>, off: int, e: MESSAGE_RESOURCE_ENTRY) -> Seq<char> {
    let bytes = img.subrange(off + 4, off + e.Length);
    if e.Flags == 0 {
        windows_1252_text(bytes)
    } else {
        utf16le_text(bytes)
    }
}

/// One step of a decoder: the cursor after it, the id and the text it produces;
/// `None` at the end of the table.
pub open spec fn spec_step(img: Seq<u8>, rde: int, c: MessageCursor) -> Option<
    Result<(MessageCursor, u32, Seq<char>), PeError>,
> {
    match spec_advance(img, rde, c) {
        None => None,
        Some(Err(e)) => Some(Err(e)),
        Some(Ok(c1)) => match spec_entry(img, c1.entry_offset as int) {
            Err(e) => Some(Err(e)),
            Ok(e) => Some(
                Ok(
                    (
                        MessageCursor { entry_offset: (c1.entry_offset + e.Length) as usize, ..c1 },
                        c1.current_id,
                        spec_text(img, c1.entry_offset as int, e),
                    ),
                ),
            ),
        },
    }
}

/// Total length of the `k` entries stored one after another from `off` on, if
/// all of them are well formed.
pub open spec fn entries_span(img: Seq<u8>, off: int, k: nat) -> Option<int>
    decreases k,
{
    if k == 0 {
        Some(0)
    } else {
        match entries_span(img, off, (k - 1) as nat) {
            None => None,
            Some(t) => match spec_entry(img, off + t) {
                Ok(e) => Some(t + e.Length),
                Err(_) => None,
            },
        }
    }
}

/// The cursor after `k` steps that all produce a message, and the ids produced.
pub open spec fn spec_run(img: Seq<u8>, rde: int, c: MessageCursor, k: nat) -> Option<
    (MessageCursor, Seq<u32>),
>
    decreases k,
{
    if k == 0 {
        Some((c, Seq::empty()))
    } else {
        match spec_run(img, rde, c, (k - 1) as nat) {
            None => None,
            Some((c1, ids)) => match spec_step(img, rde, c1) {
                Some(Ok((c2, id, _))) => Some((c2, ids.push(id))),
                _ => None,
            },
        }
    }
}

/// Within a block, the ids produced follow one another by one, and the entry
/// cursor moves by the sum of the lengths of the entries read.
pub proof fn lemma_block_walk(img: Seq<u8>, rde: int, c: MessageCursor, k: nat)
    requires
        img.len() <= usize::MAX,
        c.current_id + k <= c.high_id,
        spec_run(img, rde, c, k) is Some,
    ensures
        entries_span(img, c.entry_offset as int, k) is Some,
        spec_run(img, rde, c, k)->Some_0.1 == Seq::new(k, |j: int| (c.current_id + 1 + j) as u32),
        spec_run(img, rde, c, k)->Some_0.0.entry_offset == c.entry_offset + entries_span(
            img,
            c.entry_offset as int,
            k,
        )->Some_0,
        spec_run(img, rde, c, k)->Some_0.0.current_id == c.current_id + k,
        spec_run(img, rde, c, k)->Some_0.0.low_id == c.low_id,
        spec_run(img, rde, c, k)->Some_0.0.high_id == c.high_id,
        spec_run(img, rde, c, k)->Some_0.0.remaining_blocks == c.remaining_blocks,
        spec_run(img, rde, c, k)->Some_0.0.block_offset == c.block_offset,
    decreases k,
{
    if k == 0 {
        assert(Seq::<u32>::empty() =~= Seq::new(k, |j: int| (c.current_id + 1 + j) as u32));
    } else {
        let m = (k - 1) as nat;
        lemma_run_prefix(img, rde, c, m, k);
        lemma_block_walk(img, rde, c, m);
        let c1 = spec_run(img, rde, c, m)->Some_0.0;
        let ids1 = spec_run(img, rde, c, m)->Some_0.1;
        let t = entries_span(img, c.entry_offset as int, m)->Some_0;
        assert(c1.current_id < c1.high_id);
        let ca = MessageCursor { current_id: (c1.current_id + 1) as u32, ..c1 };
        assert(spec_advance(img, rde, c1) == Some(Ok::<MessageCursor, PeError>(ca)));
        assert(spec_step(img, rde, c1) is Some);
        let e = spec_entry(img, ca.entry_offset as int)->Ok_0;
        assert(spec_entry(img, c.entry_offset + t) == Ok::<MESSAGE_RESOURCE_ENTRY, PeError>(e));
        assert(entries_span(img, c.entry_offset as int, k) == Some(t + e.Length));
        let ids = spec_run(img, rde, c, k)->Some_0.1;
        assert(ids == ids1.push(ca.current_id));
        assert(ids =~= Seq::new(k, |j: int| (c.current_id + 1 + j) as u32));
    }
}

/// A block's ids run from its low id up: the step that opens the block
/// produces `LowId`, and each of the `k` steps after it the next id, while the
/// entry cursor moves from the block's first entry by the lengths of the
/// entries read.
pub proof fn lemma_block_ids(img: Seq<u8>, rde: int, c: MessageCursor, k: nat)
    requires
        img.len() <= usize::MAX,
        0 <= rde,
        c.current_id >= c.high_id,
        c.remaining_blocks > 0,
        decode_at::<MESSAGE_RESOURCE_BLOCK>(img, c.block_offset as int) is Ok,
        decode_at::<MESSAGE_RESOURCE_BLOCK>(img, c.block_offset as int)->Ok_0.LowId + k
            <= decode_at::<MESSAGE_RESOURCE_BLOCK>(img, c.block_offset as int)->Ok_0.HighId,
        spec_run(img, rde, c, k + 1) is Some,
    ensures
        ({
            let b = decode_at::<MESSAGE_RESOURCE_BLOCK>(img, c.block_offset as int)->Ok_0;
            let first = rde + b.OffsetToEntries;
            &&& entries_span(img, first, k + 1) is Some
            &&& spec_run(img, rde, c, k + 1)->Some_0.1 == Seq::new(
                k + 1,
                |j: int| (b.LowId + j) as u32,
            )
            &&& spec_run(img, rde, c, k + 1)->Some_0.0.entry_offset == first + entries_span(
                img,
                first,
                k + 1,
            )->Some_0
        }),
{
    let b = decode_at::<MESSAGE_RESOURCE_BLOCK>(img, c.block_offset as int)->Ok_0;
    let first = rde + b.OffsetToEntries;
    lemma_run_prefix(img, rde, c, 1, k + 1);
    assert(spec_run(img, rde, c, 0) == Some((c, Seq::<u32>::empty())));
    assert(spec_step(img, rde, c) is Some);
    let ca = spec_advance(img, rde, c)->Some_0->Ok_0;
    assert(ca.current_id == b.LowId && ca.high_id == b.HighId && ca.entry_offset == first);
    let e = spec_entry(img, first)->Ok_0;
    let c1 = spec_run(img, rde, c, 1)->Some_0.0;
    let ids1 = spec_run(img, rde, c, 1)->Some_0.1;
    assert(ids1 =~= seq![b.LowId]);
    assert(c1.current_id == b.LowId && c1.high_id == b.HighId);
    assert(entries_span(img, first, 0) == Some(0int));
    assert(entries_span(img, first, 1) == Some(e.Length as int));
    assert(c1.entry_offset == first + e.Length);
    lemma_run_split(img, rde, c, 1, k);
    lemma_block_walk(img, rde, c1, k);
    lemma_span_split(img, first, 1, k);
    let ids = spec_run(img, rde, c, k + 1)->Some_0.1;
    assert(ids =~= Seq::new(k + 1, |j: int| (b.LowId + j) as u32));
}

/// The first `a` steps of a run that goes `n` steps go through too.
pub proof fn lemma_run_prefix(img: Seq<u8>, rde: int, c: MessageCursor, a: nat, n: nat)
    requires
        a <= n,
        spec_run(img, rde, c, n) is Some,
    ensures
        spec_run(img, rde, c, a) is Some,
    decreases n - a,
{
    if a < n {
        lemma_run_prefix(img, rde, c, a, (n - 1) as nat);
    }
}

/// A run of `a + k` steps is a run of `a` steps and then one of `k` steps.
pub proof fn lemma_run_split(img: Seq<u8>, rde: int, c: MessageCursor, a: nat, k: nat)
    requires
        spec_run(img, rde, c, a + k) is Some,
    ensures
        spec_run(img, rde, c, a) is Some,
        spec_run(img, rde, spec_run(img, rde, c, a)->Some_0.0, k) is Some,
        spec_run(img, rde, spec_run(img, rde, c, a)->Some_0.0, k)->Some_0.0 == spec_run(
            img,
            rde,
            c,
            a + k,
        )->Some_0.0,
        spec_run(img, rde, c, a + k)->Some_0.1 == spec_run(img, rde, c, a)->Some_0.1 + spec_run(
            img,
            rde,
            spec_run(img, rde, c, a)->Some_0.0,
            k,
        )->Some_0.1,
    decreases k,
{
    lemma_run_prefix(img, rde, c, a, a + k);
    let c1 = spec_run(img, rde, c, a)->Some_0.0;
    if k == 0 {
        assert(spec_run(img, rde, c, a)->Some_0.1 =~= spec_run(img, rde, c, a)->Some_0.1 + Seq::<
            u32,
        >::empty());
    } else {
        let m = (k - 1) as nat;
        lemma_run_prefix(img, rde, c, a + m, a + k);
        lemma_run_split(img, rde, c, a, m);
        let l = spec_run(img, rde, c, a)->Some_0.1;
        let r = spec_run(img, rde, c1, m)->Some_0.1;
        let (cx, idx) = spec_run(img, rde, c, a + k)->Some_0;
        let (_, id, _) = spec_step(img, rde, spec_run(img, rde, c1, m)->Some_0.0)->Some_0->Ok_0;
        assert((l + r).push(id) =~= l + r.push(id));
    }
}

/// The span of `a + k` entries is that of the first `a` and then of the `k` after them.
pub proof fn lemma_span_split(img: Seq<u8>, off: int, a: nat, k: nat)
    requires
        entries_span(img, off, a) is Some,
        entries_span(img, off + entries_span(img, off, a)->Some_0, k) is Some,
    ensures
        entries_span(img, off, a + k) == Some(
            entries_span(img, off, a)->Some_0 + entries_span(
                img,
                off + entries_span(img, off, a)->Some_0,
                k,
            )->Some_0,
        ),
    decreases k,
{
    if k > 0 {
        let m = (k - 1) as nat;
        let t = entries_span(img, off, a)->Some_0;
        assert(entries_span(img, off + t, m) is Some);
        lemma_span_split(img, off, a, m);
    }
}

/// Decoding depends on nothing but the bytes of the image: two decoders over
/// equal bytes, at the same table and position, produce the same ids and end
/// at the same position, whatever image objects hold the bytes.
pub proof fn lemma_run_deterministic(a: MessagesIterator, b: MessagesIterator, k: nat)
    requires
        a.spec_image() == b.spec_image(),
        a.spec_rde_offset() == b.spec_rde_offset(),
        a.spec_cursor() == b.spec_cursor(),
    ensures
        spec_run(a.spec_image(), a.spec_rde_offset(), a.spec_cursor(), k) == spec_run(
            b.spec_image(),
            b.spec_rde_offset(),
            b.spec_cursor(),
            k,
        ),
        spec_step(a.spec_image(), a.spec_rde_offset(), a.spec_cursor()) == spec_step(
            b.spec_image(),
            b.spec_rde_offset(),
            b.spec_cursor(),
        ),
{
}

/// Decoder of the strings of one message-table resource, one language.
pub struct MessagesIterator<'pefile> {
    pefile: &'pefile PEFile,
    rde_offset: usize,
    lang_id: u32,
    cursor: MessageCursor,
    finished: bool,
    error: Option<PeError>,
}

impl<'pefile> MessagesIterator<'pefile> {
    pub closed spec fn spec_pefile(&self) -> &'pefile PEFile {
        self.pefile
    }

    /// File offset of the message table.
    pub closed spec fn spec_rde_offset(&self) -> int {
        self.rde_offset as int
    }

    pub closed spec fn spec_lang_id(&self) -> u32 {
        self.lang_id
    }

    pub closed spec fn spec_cursor(&self) -> MessageCursor {
        self.cursor
    }

    /// Whether the sequence has ended, at its end or on an error.
    pub closed spec fn spec_finished(&self) -> bool {
        self.finished
    }

    /// The error that ended the sequence, if one did.
    pub closed spec fn spec_error(&self) -> Option<PeError> {
        self.error
    }

    /// The bytes that the decoder reads.
    pub open spec fn spec_image(&self) -> Seq<u8> {
        self.spec_pefile().spec_image()
    }

    /// A decoder that has produced nothing yet, for the table at `rde`.
    pub open spec fn is_fresh(&self, rde: int) -> bool {
        &&& self.spec_rde_offset() == rde
        &&& !self.spec_finished()
        &&& self.spec_error() is None
        &&& decode_at::<MESSAGE_RESOURCE_DATA>(self.spec_image(), rde) matches Ok(d)
            && self.spec_cursor() == (MessageCursor {
            remaining_blocks: d.NumberOfBlocks,
            low_id: 0,
            high_id: 0,
            current_id: 0,
            block_offset: (rde + 4) as usize,
            entry_offset: (rde + 4) as usize,
        })
    }

    /// Prepares to decode the message table that `resource_entry` points to.
    pub fn new(
        pefile: &'pefile PEFile,
        lang_id: u32,
        resource_entry: &IMAGE_RESOURCE_DATA_ENTRY,
    ) -> (r: Result<Self, PeError>)
        ensures
            match pefile.spec_raw_address(resource_entry.OffsetToData as int) {
                None => r == Err::<Self, PeError>(PeError::UnmappedAddress),
                Some(rde) => match decode_at::<MESSAGE_RESOURCE_DATA>(pefile.spec_image(), rde as int) {
                    Err(e) => r == Err::<Self, PeError>(e),
                    Ok(_) => r matches Ok(it) && it.spec_pefile() == pefile && it.spec_lang_id()
                        == lang_id && it.is_fresh(rde as int),
                },
            },
    {
        let rde_offset = match pefile.get_raw_address(resource_entry.OffsetToData as usize) {
            Some(o) => o,
            None => return Err(PeError::UnmappedAddress),
        };
        let _len: usize = pefile.full_image().len();
        let mrd = MESSAGE_RESOURCE_DATA::from_bytes(pefile.full_image(), rde_offset)?;
        let start = rde_offset + MESSAGE_RESOURCE_DATA::packed_size();
        Ok(
            MessagesIterator {
                pefile,
                rde_offset,
                lang_id,
                cursor: MessageCursor {
                    remaining_blocks: mrd.NumberOfBlocks,
                    low_id: 0,
                    high_id: 0,
                    current_id: 0,
                    block_offset: start,
                    entry_offset: start,
                },
                finished: false,
                error: None,
            },
        )
    }

    /// Produces the next message, `Ok(None)` at the end of the table.
    pub fn do_next(&mut self) -> (r: Result<Option<Message>, PeError>)
        ensures
            final(self).spec_pefile() == old(self).spec_pefile(),
            final(self).spec_rde_offset() == old(self).spec_rde_offset(),
            final(self).spec_lang_id() == old(self).spec_lang_id(),
            final(self).spec_finished() == old(self).spec_finished(),
            final(self).spec_error() == old(self).spec_error(),
            match spec_step(old(self).spec_image(), old(self).spec_rde_offset(), old(self).spec_cursor()) {
                None => r matches Ok(None) && final(self).spec_cursor() == old(self).spec_cursor(),
                Some(Err(e)) => r == Err::<Option<Message>, PeError>(e) && final(self).spec_cursor()
                    == old(self).spec_cursor(),
                Some(Ok((c, id, text))) => r matches Ok(Some(m)) && m.msg_id == id && m.lang_id
                    == old(self).spec_lang_id() && m.text@ == text && final(self).spec_cursor() == c,
            },
    {
        let img = self.pefile.full_image();
        let len = img.len();
        let mut c = self.cursor;
        if c.current_id < c.high_id {
            c.current_id = c.current_id + 1;
        } else {
            if c.remaining_blocks == 0 {
                return Ok(None);
            }
            let block = MESSAGE_RESOURCE_BLOCK::from_bytes(img, c.block_offset)?;
            let entry_offset = match self.rde_offset.checked_add(block.OffsetToEntries as usize) {
                Some(o) => o,
                None => return Err(PeError::OutOfBounds),
            };
            c = MessageCursor {
                remaining_blocks: c.remaining_blocks - 1,
                low_id: block.LowId,
                high_id: block.HighId,
                current_id: block.LowId,
                block_offset: c.block_offset + MESSAGE_RESOURCE_BLOCK::packed_size(),
                entry_offset,
            };
        }
        let entry = MESSAGE_RESOURCE_ENTRY::from_bytes(img, c.entry_offset)?;
        if entry.Length < 4 {
            return Err(PeError::InvalidFormat(FormatIssue::EntryLength));
        }
        if entry.Flags > 1 {
            return Err(PeError::InvalidFormat(FormatIssue::EncodingFlags));
        }
        let header_size = MESSAGE_RESOURCE_ENTRY::packed_size();
        let text_bytes = match window(img, c.entry_offset + header_size, entry.Length as usize - header_size) {
            Some(w) => w,
            None => return Err(PeError::OutOfBounds),
        };
        let text = if entry.Flags == 0 {
            decode_windows_1252(text_bytes)
        } else {
            decode_utf16le(text_bytes)
        };
        c.entry_offset = c.entry_offset + entry.Length as usize;
        self.cursor = c;
        Ok(Some(Message::new(c.current_id, self.lang_id, text)))
    }

    /// Produces the next message; at the end of the table, or on the first
    /// error, the sequence ends and the error is kept for `error`.
    pub fn next(&mut self) -> (r: Option<Message>)
        ensures
            final(self).spec_pefile() == old(self).spec_pefile(),
            final(self).spec_rde_offset() == old(self).spec_rde_offset(),
            final(self).spec_lang_id() == old(self).spec_lang_id(),
            old(self).spec_finished() ==> r is None && final(self).spec_finished()
                && final(self).spec_error() == old(self).spec_error() && final(self).spec_cursor()
                == old(self).spec_cursor(),
            !old(self).spec_finished() ==> match spec_step(
                old(self).spec_image(),
                old(self).spec_rde_offset(),
                old(self).spec_cursor(),
            ) {
                None => r is None && final(self).spec_finished() && final(self).spec_error()
                    == old(self).spec_error(),
                Some(Err(e)) => r is None && final(self).spec_finished() && final(self).spec_error()
                    == Some(e),
                Some(Ok((c, id, text))) => r matches Some(m) && m.msg_id == id && m.lang_id
                    == old(self).spec_lang_id() && m.text@ == text && final(self).spec_cursor() == c
                    && !final(self).spec_finished() && final(self).spec_error()
                    == old(self).spec_error(),
            },
    {
        if self.finished {
            return None;
        }
        match self.do_next() {
            Ok(Some(m)) => Some(m),
            Ok(None) => {
                self.finished = true;
                None
            },
            Err(e) => {
                self.finished = true;
                self.error = Some(e);
                None
            },
        }
    }

    /// The error that ended this sequence early, if one did.
    pub fn error(&self) -> (r: Option<PeError>)
        ensures
            r == self.spec_error(),
    {
        self.error
    }

    /// The language id of the strings.
    pub fn lang_id(&self) -> (r: u32)
        ensures
            r == self.spec_lang_id(),
    {
        self.lang_id
    }

    /// The decoder's position.
    pub fn cursor(&self) -> (r: MessageCursor)
        ensures
            r == self.spec_cursor(),
    {
        self.cursor
    }
}

} // verus!
