//! Sources of input blocks: the capabilities the block cache consumes, and an
//! in-memory source that cuts a byte buffer into blocks.
use rsonpath_syntax::str::JsonString;
use std::rc::Rc;
use vstd::prelude::*;

verus! {

/// A window of input bytes. Handing a block out again shares it instead of copying it.
pub type Block = Rc<Vec<u8>>;

#[verifier::external_type_specification]
#[verifier::external_body]
pub struct ExJsonString(JsonString);

/// The bytes of a member name together with the double quotes around it.
pub uninterp spec fn quoted_member(m: JsonString) -> Seq<u8>;

/// Relies on `JsonString::quoted`: the member name wrapped in its quotes, read as bytes.
#[verifier::external_body]
fn member_quoted_bytes(m: &JsonString) -> (r: &[u8])
    ensures
        r@ == quoted_member(*m),
{
    m.quoted().as_bytes()
}

/// A diagnostics sink that an input tells about the blocks it produces. The cache
/// only passes it through.
pub trait InputRecorder {
    /// Called by an input with each block it hands out.
    fn record_block_start(&self, block: &Block);
}

/// A recorder that keeps nothing.
pub struct NoRecorder;

impl InputRecorder for NoRecorder {
    fn record_block_start(&self, _block: &Block) {
    }
}

/// A fallible, forward-only producer of input blocks.
pub trait BasicInput: Sized {
    type Error;

    /// What the input needs between two pulls.
    open spec fn well_formed(&self) -> bool {
        true
    }

    /// Every block this input has handed out so far, oldest first. An input whose
    /// `next_block` is verified against this trait defines it, as it does the spec
    /// functions below; their defaults say nothing.
    open spec fn handed_out(&self) -> Seq<Seq<u8>> {
        arbitrary()
    }

    /// Whether the input has reported that it has no more blocks.
    open spec fn ended(&self) -> bool {
        arbitrary()
    }

    /// The input's size hint.
    open spec fn spec_len_hint(&self) -> Option<usize> {
        arbitrary()
    }

    /// The input's leading padding length.
    open spec fn spec_leading_padding_len(&self) -> usize {
        arbitrary()
    }

    /// The input's trailing padding length.
    open spec fn spec_trailing_padding_len(&self) -> usize {
        arbitrary()
    }

    /// The input's answer on whether `[from, to)` holds `member` with its quotes.
    open spec fn spec_member_match(&self, from: usize, to: usize, member: JsonString) -> Result<
        bool,
        Self::Error,
    > {
        arbitrary()
    }

    /// Best-effort total size of the input, if known.
    fn len_hint(&self) -> (r: Option<usize>)
        ensures
            r == self.spec_len_hint(),
    ;

    /// Number of synthetic bytes placed before the real content.
    fn leading_padding_len(&self) -> (r: usize)
        ensures
            r == self.spec_leading_padding_len(),
    ;

    /// Number of synthetic bytes placed after the real content.
    fn trailing_padding_len(&self) -> (r: usize)
        ensures
            r == self.spec_trailing_padding_len(),
    ;

    /// Pull the next block, telling `recorder` about it: `Ok(None)` once the input is exhausted.
    fn next_block<R: InputRecorder>(&mut self, recorder: &R) -> (r: Result<
        Option<Block>,
        Self::Error,
    >)
        requires
            old(self).well_formed(),
        ensures
            final(self).well_formed(),
            match r {
                Ok(Some(b)) => final(self).handed_out() == old(self).handed_out().push(b@),
                _ => final(self).handed_out() == old(self).handed_out(),
            },
            r matches Ok(None) ==> final(self).ended(),
    ;

    /// Whether the bytes `[from, to)` of the input are `member` with its quotes.
    fn is_member_match(&self, from: usize, to: usize, member: &JsonString) -> (r: Result<
        bool,
        Self::Error,
    >)
        ensures
            r == self.spec_member_match(from, to, *member),
    ;
}

/// An in-memory input cut into blocks of `block_size` bytes; the last may be shorter.
pub struct BytesInput {
    bytes: Vec<u8>,
    block_size: usize,
    position: usize,
    handed: Ghost<Seq<Seq<u8>>>,
}

/// Reading from memory cannot fail; this error is never produced.
#[derive(Debug, Clone, Copy, PartialEq, Eq)]
pub struct NoInputError;

impl BytesInput {
    pub closed spec fn content(&self) -> Seq<u8> {
        self.bytes@
    }

    pub closed spec fn spec_block_size(&self) -> usize {
        self.block_size
    }

    /// Byte offset of the first byte not yet handed out.
    pub closed spec fn spec_position(&self) -> usize {
        self.position
    }

    /// An input over `bytes`, to be read in blocks of `block_size` bytes.
    pub fn new(bytes: Vec<u8>, block_size: usize) -> (r: BytesInput)
        requires
            block_size > 0,
        ensures
            r.well_formed(),
            r.content() == bytes@,
            r.spec_block_size() == block_size,
            r.spec_position() == 0,
            r.handed_out() == Seq::<Seq<u8>>::empty(),
    {
        let r = BytesInput { bytes, block_size, position: 0, handed: Ghost(Seq::empty()) };
        assert(r.bytes@.subrange(0, 0) =~= Seq::<u8>::empty());
        r
    }

    /// The blocks handed out so far, laid end to end, are the buffer up to the position.
    pub proof fn lemma_handed_out_is_prefix(&self)
        requires
            self.well_formed(),
        ensures
            self.handed_out().flatten() == self.content().subrange(0, self.spec_position() as int),
    {
    }
    /// Where the block starting at `pos` ends: `block_size` bytes on, or the end of the buffer.
    pub open spec fn block_end(&self, pos: int) -> int {
        if self.content().len() - pos < self.spec_block_size() {
            self.content().len() as int
        } else {
            pos + self.spec_block_size()
        }
    }

    /// The next block of the buffer, or `None` once every byte was handed out.
    pub fn pull(&mut self) -> (r: Option<Block>)
        requires
            old(self).well_formed(),
        ensures
            final(self).well_formed(),
            final(self).content() == old(self).content(),
            final(self).spec_block_size() == old(self).spec_block_size(),
            old(self).spec_position() >= old(self).content().len() ==> r is None && *final(self)
                == *old(self),
            old(self).spec_position() < old(self).content().len() ==> (r matches Some(b) && {
                let pos = old(self).spec_position() as int;
                let end = old(self).block_end(pos);
                &&& b@ == old(self).content().subrange(pos, end)
                &&& final(self).spec_position() == end
                &&& final(self).handed_out() == old(self).handed_out().push(b@)
            }),
    {
        let len = self.bytes.len();
        if self.position >= len {
            return None;
        }
        let end: usize = if len - self.position < self.block_size {
            len
        } else {
            self.position + self.block_size
        };
        let mut block: Vec<u8> = Vec::new();
        let mut i: usize = self.position;
        while i < end
            invariant
                self.position <= i <= end <= len == self.bytes@.len(),
                block@ == self.bytes@.subrange(self.position as int, i as int),
            decreases end - i,
        {
            block.push(self.bytes[i]);
            i = i + 1;
        }
        let ghost piece = block@;
        proof {
            self.handed@.lemma_flatten_push(piece);
            assert(self.bytes@.subrange(0, end as int) =~= self.bytes@.subrange(
                0,
                self.position as int,
            ) + piece);
        }
        self.handed = Ghost(self.handed@.push(piece));
        self.position = end;
        Some(Rc::new(block))
    }

    /// Whether the bytes `[from, to)` of the buffer are exactly `member` with its quotes.
    pub fn matches_member(&self, from: usize, to: usize, member: &JsonString) -> (r: bool)
        ensures
            r == (from <= to <= self.content().len() && self.content().subrange(
                from as int,
                to as int,
            ) == quoted_member(*member)),
    {
        let quoted = member_quoted_bytes(member);
        if from > to || to > self.bytes.len() {
            return false;
        }
        if to - from != quoted.len() {
            assert(self.bytes@.subrange(from as int, to as int).len() != quoted@.len());
            return false;
        }
        let mut i: usize = 0;
        while i < quoted.len()
            invariant
                from <= to <= self.bytes@.len(),
                to - from == quoted@.len(),
                quoted@ == quoted_member(*member),
                i <= quoted@.len(),
                forall|k: int| 0 <= k < i ==> self.bytes@[from + k] == quoted@[k],
            decreases quoted.len() - i,
        {
            if self.bytes[from + i] != quoted[i] {
                assert(self.bytes@.subrange(from as int, to as int)[i as int] != quoted@[i as int]);
                return false;
            }
            i = i + 1;
        }
        assert(self.bytes@.subrange(from as int, to as int) =~= quoted@);
        true
    }
}

impl BasicInput for BytesInput {
    type Error = NoInputError;

    closed spec fn well_formed(&self) -> bool {
        &&& self.block_size > 0
        &&& self.position <= self.bytes@.len()
        &&& self.handed@.flatten() == self.bytes@.subrange(0, self.position as int)
    }

    closed spec fn handed_out(&self) -> Seq<Seq<u8>> {
        self.handed@
    }

    open spec fn ended(&self) -> bool {
        self.spec_position() >= self.content().len()
    }

    open spec fn spec_len_hint(&self) -> Option<usize> {
        Some(self.content().len() as usize)
    }

    open spec fn spec_leading_padding_len(&self) -> usize {
        0
    }

    open spec fn spec_trailing_padding_len(&self) -> usize {
        0
    }

    open spec fn spec_member_match(&self, from: usize, to: usize, member: JsonString) -> Result<
        bool,
        NoInputError,
    > {
        Ok(from <= to <= self.content().len() && self.content().subrange(from as int, to as int)
            == quoted_member(member))
    }

    fn len_hint(&self) -> Option<usize> {
        Some(self.bytes.len())
    }

    fn leading_padding_len(&self) -> usize {
        0
    }

    fn trailing_padding_len(&self) -> usize {
        0
    }

    fn next_block<R: InputRecorder>(&mut self, recorder: &R) -> (r: Result<
        Option<Block>,
        NoInputError,
    >) {
        let pulled = self.pull();
        match &pulled {
            Some(block) => recorder.record_block_start(block),
            None => {},
        }
        Ok(pulled)
    }

    fn is_member_match(&self, from: usize, to: usize, member: &JsonString) -> Result<
        bool,
        NoInputError,
    > {
        Ok(self.matches_member(from, to, member))
    }
}

} // verus!
