//! The block cache: a store that pulls each block from its input once, a facade
//! over it, and cursors that walk the cached blocks independently.
//!
//! A cursor holds only its position; each advance borrows the manager mutably, so
//! one lookup can never start while another is still pulling from the input.
use crate::input::{BasicInput, Block, InputRecorder};
use rsonpath_syntax::str::JsonString;
use vstd::prelude::*;

verus! {

/// The byte contents of a sequence of blocks.
pub open spec fn block_views(blocks: Seq<Block>) -> Seq<Seq<u8>> {
    blocks.map_values(|b: Block| b@)
}

/// What a lookup handed back, as bytes: `Some` for a block, `None` for exhaustion or an error.
pub open spec fn block_read<E>(r: Result<Option<Block>, E>) -> Option<Seq<u8>> {
    match r {
        Ok(Some(b)) => Some(b@),
        _ => None,
    }
}

/// The append-only store of the blocks pulled so far, with the input they come from.
pub struct InternalManager<I: BasicInput> {
    input: I,
    blocks: Vec<Block>,
    exhausted: bool,
    before: Ghost<Seq<Seq<u8>>>,
}

impl<I: BasicInput> InternalManager<I> {
    /// The blocks cached so far, in the order the input produced them.
    pub closed spec fn cached(&self) -> Seq<Seq<u8>> {
        block_views(self.blocks@)
    }

    /// Whether the input has reported that it has no more blocks.
    pub closed spec fn is_exhausted(&self) -> bool {
        self.exhausted
    }

    /// What the input had handed out before the store took it over.
    pub closed spec fn earlier(&self) -> Seq<Seq<u8>> {
        self.before@
    }

    /// The wrapped input.
    pub closed spec fn source(&self) -> I {
        self.input
    }

    /// Every block the input handed out since the store took it over sits in the
    /// cache, once, at the position of its pull.
    pub open spec fn wf(&self) -> bool {
        &&& self.source().well_formed()
        &&& self.source().handed_out() == self.earlier() + self.cached()
        &&& self.is_exhausted() ==> self.source().ended()
    }

    /// How one lookup of index `idx` moves the store from `pre` to `post` and what it returns.
    pub open spec fn lookup(pre: Self, idx: int, post: Self, r: Result<Option<Block>, I::Error>) -> bool {
        &&& post.earlier() == pre.earlier()
        &&& pre.cached().is_prefix_of(post.cached())
        // a cached index, or an exhausted store, is answered without touching the input
        &&& (idx < pre.cached().len() ==> post == pre && block_read(r) == Some(pre.cached()[idx]))
        &&& (pre.is_exhausted() && idx >= pre.cached().len() ==> post == pre && r matches Ok(None))
        &&& post.is_exhausted() == (pre.is_exhausted() || r matches Ok(None))
        // exhaustion is reported only once the input has reported it
        &&& (r matches Ok(None) ==> post.source().ended())
        // an error comes only from pulling the input on a miss
        &&& (r is Err ==> !pre.is_exhausted() && idx >= pre.cached().len())
        &&& match r {
            // the input was pulled exactly as far as `idx`
            Ok(Some(b)) => 0 <= idx < post.cached().len() && b@ == post.cached()[idx] && (idx
                >= pre.cached().len() ==> post.cached().len() == idx + 1),
            Ok(None) => post.cached().len() <= idx,
            Err(_) => !post.is_exhausted() && post.cached().len() <= idx,
        }
    }

    /// A store over `input`, with nothing cached yet.
    pub fn new(input: I) -> (r: Self)
        requires
            input.well_formed(),
        ensures
            r.wf(),
            r.source() == input,
            r.earlier() == input.handed_out(),
            r.cached() == Seq::<Seq<u8>>::empty(),
            !r.is_exhausted(),
    {
        let ghost before = input.handed_out();
        let r = InternalManager { input, blocks: Vec::new(), exhausted: false, before: Ghost(before) };
        assert(r.cached() =~= Seq::<Seq<u8>>::empty());
        r
    }

    /// Takes in what one pull of the input gave during a lookup that missed the cache:
    /// a block is appended and the lookup goes on (`None`); exhaustion is recorded and
    /// reported (`Some(Ok(None))`); an error is handed back as it came, with the store
    /// left as it was (`Some(Err(e))`).
    pub fn absorb(&mut self, pulled: Result<Option<Block>, I::Error>) -> (r: Option<
        Result<Option<Block>, I::Error>,
    >)
        ensures
            final(self).source() == old(self).source(),
            final(self).earlier() == old(self).earlier(),
            match pulled {
                Ok(Some(b)) => r is None && final(self).cached() == old(self).cached().push(b@)
                    && final(self).is_exhausted() == old(self).is_exhausted(),
                Ok(None) => {
                    &&& r == Some(Ok::<Option<Block>, I::Error>(None))
                    &&& final(self).is_exhausted()
                    &&& final(self).cached() == old(self).cached()
                },
                Err(e) => r == Some(Err::<Option<Block>, I::Error>(e)) && *final(self) == *old(self),
            },
    {
        match pulled {
            Ok(Some(block)) => {
                let ghost pre = self.cached();
                self.blocks.push(block);
                assert(self.cached() =~= pre.push(block@));
                None
            },
            Ok(None) => {
                self.exhausted = true;
                Some(Ok(None))
            },
            Err(e) => Some(Err(e)),
        }
    }

    /// The block at `idx`, pulling the input forward only as far as `idx`;
    /// `Ok(None)` once the input is exhausted before `idx`; the input's error otherwise.
    pub fn get<R: InputRecorder>(&mut self, idx: usize, recorder: &R) -> (r: Result<
        Option<Block>,
        I::Error,
    >)
        requires
            old(self).wf(),
        ensures
            final(self).wf(),
            Self::lookup(*old(self), idx as int, *final(self), r),
    {
        if idx < self.blocks.len() {
            return Ok(Some(self.blocks[idx].clone()));
        }
        if self.exhausted {
            return Ok(None);
        }
        while self.blocks.len() <= idx
            invariant
                self.wf(),
                !self.exhausted,
                !old(self).exhausted,
                self.before == old(self).before,
                old(self).cached().is_prefix_of(self.cached()),
                old(self).cached().len() <= idx,
                self.cached().len() <= idx + 1,
            decreases idx + 1 - self.blocks.len(),
        {
            let pulled = self.input.next_block(recorder);
            match self.absorb(pulled) {
                Some(done) => {
                    return done;
                },
                None => {
                    assert(self.input.handed_out() =~= self.earlier() + self.cached());
                },
            }
        }
        Ok(Some(self.blocks[idx].clone()))
    }
}


/// The cache as callers hold it: the input's descriptive capabilities, forwarded,
/// and fresh cursors over one shared store.
pub struct BlockManager<I: BasicInput> {
    inner: InternalManager<I>,
}

impl<I: BasicInput> BlockManager<I> {
    /// The shared store behind every cursor.
    pub closed spec fn store(&self) -> InternalManager<I> {
        self.inner
    }

    pub open spec fn wf(&self) -> bool {
        self.store().wf()
    }

    /// A cache over `input`, with nothing pulled yet.
    pub fn new(input: I) -> (r: Self)
        requires
            input.well_formed(),
        ensures
            r.wf(),
            r.store().source() == input,
            r.store().earlier() == input.handed_out(),
            r.store().cached() == Seq::<Seq<u8>>::empty(),
            !r.store().is_exhausted(),
    {
        BlockManager { inner: InternalManager::new(input) }
    }

    /// The input's size hint.
    pub fn len_hint(&self) -> (r: Option<usize>)
        ensures
            r == self.store().source().spec_len_hint(),
    {
        self.inner.input.len_hint()
    }

    /// The input's leading padding length.
    pub fn leading_padding_len(&self) -> (r: usize)
        ensures
            r == self.store().source().spec_leading_padding_len(),
    {
        self.inner.input.leading_padding_len()
    }

    /// The input's trailing padding length.
    pub fn trailing_padding_len(&self) -> (r: usize)
        ensures
            r == self.store().source().spec_trailing_padding_len(),
    {
        self.inner.input.trailing_padding_len()
    }

    /// Asks the input itself whether `[from, to)` holds `member` with its quotes.
    pub fn is_member_match(&self, from: usize, to: usize, member: &JsonString) -> (r: Result<
        bool,
        I::Error,
    >)
        ensures
            r == self.store().source().spec_member_match(from, to, *member),
    {
        self.inner.input.is_member_match(from, to, member)
    }

    /// A new cursor at the first block, over the same store as every other cursor.
    pub fn iter_blocks(&self) -> (r: BlockManagerIterator)
        ensures
            r.position() == 0,
    {
        BlockManagerIterator { current_block: 0 }
    }
}

/// A cursor over the cached blocks; its position is its own.
pub struct BlockManagerIterator {
    current_block: usize,
}

impl BlockManagerIterator {
    /// The index this cursor reads next.
    pub closed spec fn position(&self) -> usize {
        self.current_block
    }

    /// The block at this cursor's position, looked up in `manager`'s store, with
    /// `recorder` handed to the input on a pull; the position moves on by one
    /// whatever the outcome.
    pub fn next<I: BasicInput, R: InputRecorder>(
        &mut self,
        manager: &mut BlockManager<I>,
        recorder: &R,
    ) -> (r: Result<
        Option<Block>,
        I::Error,
    >)
        requires
            old(manager).wf(),
            old(self).position() < usize::MAX,
        ensures
            final(manager).wf(),
            final(self).position() == old(self).position() + 1,
            InternalManager::lookup(
                old(manager).store(),
                old(self).position() as int,
                final(manager).store(),
                r,
            ),
    {
        let block = manager.inner.get(self.current_block, recorder);
        self.current_block = self.current_block + 1;
        block
    }
}


/// `states` and `calls` record a run of lookups on one store, made through any number
/// of cursors in any order: `calls[k]` asked for index `calls[k].0`, moved the store
/// from `states[k]` to `states[k + 1]`, and returned `calls[k].1`.
pub open spec fn is_run<I: BasicInput>(
    states: Seq<InternalManager<I>>,
    calls: Seq<(int, Result<Option<Block>, I::Error>)>,
) -> bool {
    &&& states.len() == calls.len() + 1
    &&& forall|k: int| 0 <= k < states.len() ==> #[trigger] states[k].wf()
    &&& forall|k: int|
        0 <= k < calls.len() ==> #[trigger] InternalManager::lookup(
            states[k],
            calls[k].0,
            states[k + 1],
            calls[k].1,
        )
}

proof fn lemma_run_grows<I: BasicInput>(
    states: Seq<InternalManager<I>>,
    calls: Seq<(int, Result<Option<Block>, I::Error>)>,
    a: int,
    b: int,
)
    requires
        is_run(states, calls),
        0 <= a <= b < states.len(),
    ensures
        states[a].cached().is_prefix_of(states[b].cached()),
        states[b].earlier() == states[a].earlier(),
        states[a].is_exhausted() ==> states[b] == states[a],
    decreases b - a,
{
    if a < b {
        lemma_run_grows(states, calls, a, b - 1);
        let k = b - 1;
        assert(InternalManager::lookup(states[k], calls[k].0, states[k + 1], calls[k].1));
    }
}

/// However lookups interleave, the input is pulled once per block: over a run, what
/// the input has handed out grows by exactly the blocks that were newly cached.
pub proof fn lemma_each_block_pulled_once<I: BasicInput>(
    states: Seq<InternalManager<I>>,
    calls: Seq<(int, Result<Option<Block>, I::Error>)>,
)
    requires
        is_run(states, calls),
    ensures
        states.last().source().handed_out() == states[0].source().handed_out()
            + states.last().cached().subrange(
            states[0].cached().len() as int,
            states.last().cached().len() as int,
        ),
{
    let n = states.len() - 1;
    lemma_run_grows(states, calls, 0, n);
    assert(states[0].wf());
    assert(states[n].wf());
    let first = states[0].cached();
    let last = states[n].cached();
    assert(last =~= first + last.subrange(first.len() as int, last.len() as int));
    assert(states[n].source().handed_out() =~= states[0].source().handed_out() + last.subrange(
        first.len() as int,
        last.len() as int,
    ));
}

/// Two lookups of one index that both hand back a block hand back the same bytes,
/// whichever cursor asked first.
pub proof fn lemma_reads_agree<I: BasicInput>(
    states: Seq<InternalManager<I>>,
    calls: Seq<(int, Result<Option<Block>, I::Error>)>,
    j: int,
    k: int,
)
    requires
        is_run(states, calls),
        0 <= j < k < calls.len(),
        calls[j].0 == calls[k].0,
        block_read(calls[j].1) is Some,
        block_read(calls[k].1) is Some,
    ensures
        block_read(calls[j].1) == block_read(calls[k].1),
{
    assert(InternalManager::lookup(states[j], calls[j].0, states[j + 1], calls[j].1));
    assert(InternalManager::lookup(states[k], calls[k].0, states[k + 1], calls[k].1));
    lemma_run_grows(states, calls, j + 1, k);
    let idx = calls[j].0;
    assert(states[k].cached()[idx] == states[j + 1].cached()[idx]);
}

/// The block a lookup of index `i` hands back is the `i`-th block the input produced
/// for the store, at that point and at every later point of the run: what a cursor
/// reads depends on the input alone, not on how the cursors were paced.
pub proof fn lemma_read_is_source_output<I: BasicInput>(
    states: Seq<InternalManager<I>>,
    calls: Seq<(int, Result<Option<Block>, I::Error>)>,
    k: int,
    m: int,
)
    requires
        is_run(states, calls),
        0 <= k < calls.len(),
        k < m < states.len(),
        block_read(calls[k].1) is Some,
    ensures
        block_read(calls[k].1) == Some(
            states[m].source().handed_out()[states[0].earlier().len() + calls[k].0],
        ),
{
    assert(InternalManager::lookup(states[k], calls[k].0, states[k + 1], calls[k].1));
    lemma_run_grows(states, calls, 0, m);
    lemma_run_grows(states, calls, k + 1, m);
    assert(states[m].wf());
    let idx = calls[k].0;
    assert(states[m].cached()[idx] == states[k + 1].cached()[idx]);
    assert(states[m].source().handed_out()[states[0].earlier().len() + idx]
        == states[m].cached()[idx]);
}

/// Once a lookup reports exhaustion, every later lookup of that index or beyond
/// reports exhaustion too, and the store no longer changes.
pub proof fn lemma_exhaustion_is_final<I: BasicInput>(
    states: Seq<InternalManager<I>>,
    calls: Seq<(int, Result<Option<Block>, I::Error>)>,
    j: int,
    k: int,
)
    requires
        is_run(states, calls),
        0 <= j < k < calls.len(),
        calls[j].1 matches Ok(None),
        calls[k].0 >= calls[j].0,
    ensures
        calls[k].1 matches Ok(None),
        states[k + 1] == states[j + 1],
{
    assert(InternalManager::lookup(states[j], calls[j].0, states[j + 1], calls[j].1));
    lemma_run_grows(states, calls, j + 1, k);
    assert(InternalManager::lookup(states[k], calls[k].0, states[k + 1], calls[k].1));
}

/// A lookup that fails leaves every block cached before the failure in place: any
/// later lookup of such an index, by any cursor, hands it back without pulling.
pub proof fn lemma_error_keeps_cached<I: BasicInput>(
    states: Seq<InternalManager<I>>,
    calls: Seq<(int, Result<Option<Block>, I::Error>)>,
    j: int,
    k: int,
)
    requires
        is_run(states, calls),
        0 <= j < k < calls.len(),
        calls[j].1 is Err,
        0 <= calls[k].0 < states[j + 1].cached().len(),
    ensures
        states[j + 1].cached().len() <= calls[j].0,
        block_read(calls[k].1) == Some(states[j + 1].cached()[calls[k].0]),
        states[k + 1] == states[k],
{
    assert(InternalManager::lookup(states[j], calls[j].0, states[j + 1], calls[j].1));
    lemma_run_grows(states, calls, j + 1, k);
    assert(InternalManager::lookup(states[k], calls[k].0, states[k + 1], calls[k].1));
}

} // verus!
