use block_cache::input::{BasicInput, Block, BytesInput, InputRecorder, NoInputError, NoRecorder};
use block_cache::input_management::{BlockManager, BlockManagerIterator, InternalManager};
use rsonpath_syntax::str::JsonString;
use std::cell::Cell;
use std::rc::Rc;

#[derive(Debug, Clone, PartialEq, Eq)]
struct StubError(usize);

/// A scripted input that counts how many blocks it hands out.
struct StubInput {
    blocks: Vec<Vec<u8>>,
    next: usize,
    fail_at: Option<usize>,
    pulls: Rc<Cell<usize>>,
}

impl StubInput {
    fn new(blocks: Vec<Vec<u8>>, fail_at: Option<usize>) -> (StubInput, Rc<Cell<usize>>) {
        let pulls = Rc::new(Cell::new(0));
        (StubInput { blocks, next: 0, fail_at, pulls: pulls.clone() }, pulls)
    }
}

impl BasicInput for StubInput {
    type Error = StubError;

    fn len_hint(&self) -> Option<usize> {
        Some(self.blocks.iter().map(|b| b.len()).sum())
    }

    fn leading_padding_len(&self) -> usize {
        3
    }

    fn trailing_padding_len(&self) -> usize {
        5
    }

    fn next_block<R: InputRecorder>(&mut self, recorder: &R) -> Result<Option<Block>, StubError> {
        if self.fail_at == Some(self.next) {
            return Err(StubError(self.next));
        }
        if self.next >= self.blocks.len() {
            return Ok(None);
        }
        let b = Rc::new(self.blocks[self.next].clone());
        self.next += 1;
        self.pulls.set(self.pulls.get() + 1);
        recorder.record_block_start(&b);
        Ok(Some(b))
    }

    fn is_member_match(&self, from: usize, to: usize, _member: &JsonString) -> Result<bool, StubError> {
        Ok(from == 7 && to == 9)
    }
}

fn three_blocks() -> Vec<Vec<u8>> {
    vec![b"b0".to_vec(), b"b1".to_vec(), b"b2".to_vec()]
}

fn read(r: Result<Option<Block>, StubError>) -> Result<Option<Vec<u8>>, StubError> {
    r.map(|o| o.map(|b| (*b).clone()))
}

fn drain(view: &mut BlockManagerIterator, manager: &mut BlockManager<StubInput>) -> Vec<Vec<u8>> {
    let mut out = Vec::new();
    while let Some(b) = view.next(manager, &NoRecorder).unwrap() {
        out.push((*b).clone());
    }
    out
}

#[test]
fn end_to_end_two_views_share_one_fetch() {
    let (input, pulls) = StubInput::new(three_blocks(), None);
    let mut manager = BlockManager::new(input);
    let mut a = manager.iter_blocks();
    assert_eq!(read(a.next(&mut manager, &NoRecorder)), Ok(Some(b"b0".to_vec())));
    assert_eq!(read(a.next(&mut manager, &NoRecorder)), Ok(Some(b"b1".to_vec())));
    let mut b = manager.iter_blocks();
    assert_eq!(read(a.next(&mut manager, &NoRecorder)), Ok(Some(b"b2".to_vec())));
    assert_eq!(read(a.next(&mut manager, &NoRecorder)), Ok(None));
    assert_eq!(read(b.next(&mut manager, &NoRecorder)), Ok(Some(b"b0".to_vec())));
    assert_eq!(pulls.get(), 3);
}

#[test]
fn interleaved_views_pull_each_block_once() {
    let (input, pulls) = StubInput::new(three_blocks(), None);
    let mut manager = BlockManager::new(input);
    let mut views: Vec<BlockManagerIterator> = (0..4).map(|_| manager.iter_blocks()).collect();
    for round in 0..5 {
        for (i, v) in views.iter_mut().enumerate() {
            if (round + i) % 2 == 0 {
                let _ = v.next(&mut manager, &NoRecorder).unwrap();
            }
        }
    }
    for v in views.iter_mut() {
        let _ = drain(v, &mut manager);
    }
    assert_eq!(pulls.get(), 3);
}

#[test]
fn views_reading_one_index_see_the_same_bytes() {
    let (input, _) = StubInput::new(three_blocks(), None);
    let mut manager = BlockManager::new(input);
    let mut a = manager.iter_blocks();
    let mut b = manager.iter_blocks();
    let _ = a.next(&mut manager, &NoRecorder);
    let a1 = a.next(&mut manager, &NoRecorder).unwrap().unwrap();
    let _ = b.next(&mut manager, &NoRecorder);
    let b1 = b.next(&mut manager, &NoRecorder).unwrap().unwrap();
    assert_eq!(*a1, *b1);
    assert!(Rc::ptr_eq(&a1, &b1));
}

#[test]
fn a_view_walks_indices_in_order_and_stays_exhausted() {
    let (input, pulls) = StubInput::new(three_blocks(), None);
    let mut manager = BlockManager::new(input);
    let mut a = manager.iter_blocks();
    assert_eq!(drain(&mut a, &mut manager), three_blocks());
    assert_eq!(read(a.next(&mut manager, &NoRecorder)), Ok(None));
    assert_eq!(read(a.next(&mut manager, &NoRecorder)), Ok(None));
    assert_eq!(pulls.get(), 3);
}

#[test]
fn pacing_does_not_change_what_views_read() {
    let (input, _) = StubInput::new(three_blocks(), None);
    let mut manager = BlockManager::new(input);
    let mut a = manager.iter_blocks();
    let mut b = manager.iter_blocks();
    let first = drain(&mut a, &mut manager);
    let second = drain(&mut b, &mut manager);

    let (input, _) = StubInput::new(three_blocks(), None);
    let mut lockstep = BlockManager::new(input);
    let mut c = lockstep.iter_blocks();
    let mut d = lockstep.iter_blocks();
    let mut third = Vec::new();
    let mut fourth = Vec::new();
    loop {
        let x = c.next(&mut lockstep, &NoRecorder).unwrap();
        let y = d.next(&mut lockstep, &NoRecorder).unwrap();
        match (x, y) {
            (Some(x), Some(y)) => {
                third.push((*x).clone());
                fourth.push((*y).clone());
            }
            (None, None) => break,
            _ => panic!("views disagree on the end of input"),
        }
    }
    assert_eq!(first, three_blocks());
    assert_eq!(second, first);
    assert_eq!(third, first);
    assert_eq!(fourth, first);
}

#[test]
fn an_error_keeps_earlier_blocks_for_every_view() {
    let (input, pulls) = StubInput::new(three_blocks(), Some(2));
    let mut manager = BlockManager::new(input);
    let mut a = manager.iter_blocks();
    assert_eq!(read(a.next(&mut manager, &NoRecorder)), Ok(Some(b"b0".to_vec())));
    assert_eq!(read(a.next(&mut manager, &NoRecorder)), Ok(Some(b"b1".to_vec())));
    assert_eq!(read(a.next(&mut manager, &NoRecorder)), Err(StubError(2)));
    let mut fresh = manager.iter_blocks();
    assert_eq!(read(fresh.next(&mut manager, &NoRecorder)), Ok(Some(b"b0".to_vec())));
    assert_eq!(read(fresh.next(&mut manager, &NoRecorder)), Ok(Some(b"b1".to_vec())));
    assert_eq!(pulls.get(), 2);
    assert_eq!(read(fresh.next(&mut manager, &NoRecorder)), Err(StubError(2)));
}

#[test]
fn store_fetches_forward_only_as_far_as_asked() {
    let (input, pulls) = StubInput::new(three_blocks(), None);
    let mut store = InternalManager::new(input);
    assert_eq!(read(store.get(1, &NoRecorder)), Ok(Some(b"b1".to_vec())));
    assert_eq!(pulls.get(), 2);
    assert_eq!(read(store.get(0, &NoRecorder)), Ok(Some(b"b0".to_vec())));
    assert_eq!(pulls.get(), 2);
    assert_eq!(read(store.get(5, &NoRecorder)), Ok(None));
    assert_eq!(pulls.get(), 3);
    assert_eq!(read(store.get(2, &NoRecorder)), Ok(Some(b"b2".to_vec())));
    assert_eq!(read(store.get(3, &NoRecorder)), Ok(None));
}

#[test]
fn facade_forwards_descriptions_to_the_input() {
    let (input, _) = StubInput::new(three_blocks(), None);
    let manager = BlockManager::new(input);
    assert_eq!(manager.len_hint(), Some(6));
    assert_eq!(manager.leading_padding_len(), 3);
    assert_eq!(manager.trailing_padding_len(), 5);
    let member = JsonString::new("x");
    assert_eq!(manager.is_member_match(7, 9, &member), Ok(true));
    assert_eq!(manager.is_member_match(0, 9, &member), Ok(false));
}

#[test]
fn bytes_input_cuts_blocks_of_the_given_size() {
    let mut input = BytesInput::new(b"abcdefg".to_vec(), 3);
    assert_eq!(input.len_hint(), Some(7));
    assert_eq!(input.leading_padding_len(), 0);
    assert_eq!(input.trailing_padding_len(), 0);
    assert_eq!(input.next_block(&NoRecorder).map(|o| o.map(|b| (*b).clone())), Ok(Some(b"abc".to_vec())));
    assert_eq!(input.next_block(&NoRecorder).map(|o| o.map(|b| (*b).clone())), Ok(Some(b"def".to_vec())));
    assert_eq!(input.next_block(&NoRecorder).map(|o| o.map(|b| (*b).clone())), Ok(Some(b"g".to_vec())));
    assert_eq!(input.next_block(&NoRecorder).map(|o| o.map(|b| (*b).clone())), Ok(None));
    assert_eq!(input.next_block(&NoRecorder).map(|o| o.map(|b| (*b).clone())), Ok(None));
}

#[test]
fn bytes_input_through_the_cache() {
    let input = BytesInput::new(b"{\"a\":1}".to_vec(), 4);
    let mut manager = BlockManager::new(input);
    let mut v = manager.iter_blocks();
    let mut w = manager.iter_blocks();
    let x: Result<Option<Block>, NoInputError> = v.next(&mut manager, &NoRecorder);
    assert_eq!(*x.unwrap().unwrap(), b"{\"a\"".to_vec());
    assert_eq!(*v.next(&mut manager, &NoRecorder).unwrap().unwrap(), b":1}".to_vec());
    assert!(v.next(&mut manager, &NoRecorder).unwrap().is_none());
    assert_eq!(*w.next(&mut manager, &NoRecorder).unwrap().unwrap(), b"{\"a\"".to_vec());
}

#[test]
fn bytes_input_matches_quoted_members() {
    let input = BytesInput::new(b"{\"ab\":1}".to_vec(), 4);
    let member = JsonString::new("ab");
    assert!(input.matches_member(1, 5, &member));
    assert!(!input.matches_member(0, 4, &member));
    assert!(!input.matches_member(2, 4, &member));
    assert!(!input.matches_member(5, 1, &member));
    assert!(!input.matches_member(6, 10, &member));
    assert_eq!(input.is_member_match(1, 5, &member), Ok(true));
    assert_eq!(input.is_member_match(1, 5, &JsonString::new("ac")), Ok(false));
}

struct CountingRecorder(Cell<usize>);

impl InputRecorder for CountingRecorder {
    fn record_block_start(&self, _block: &Block) {
        self.0.set(self.0.get() + 1);
    }
}

#[test]
fn recorder_is_passed_to_the_input_on_pulls_only() {
    let recorder = CountingRecorder(Cell::new(0));
    let mut manager = BlockManager::new(BytesInput::new(b"abcdef".to_vec(), 2));
    let mut a = manager.iter_blocks();
    let mut b = manager.iter_blocks();
    while a.next(&mut manager, &recorder).unwrap().is_some() {}
    while b.next(&mut manager, &recorder).unwrap().is_some() {}
    assert_eq!(recorder.0.get(), 3);
}

#[test]
fn absorb_takes_in_each_kind_of_pull() {
    let (input, pulls) = StubInput::new(three_blocks(), None);
    let mut store = InternalManager::new(input);
    assert!(store.absorb(Ok(Some(Rc::new(b"zz".to_vec())))).is_none());
    assert_eq!(read(store.get(0, &NoRecorder)), Ok(Some(b"zz".to_vec())));
    assert_eq!(pulls.get(), 0);
    assert_eq!(read(store.absorb(Err(StubError(9))).unwrap()), Err(StubError(9)));
    assert_eq!(read(store.absorb(Ok(None)).unwrap()), Ok(None));
    assert_eq!(read(store.get(1, &NoRecorder)), Ok(None));
    assert_eq!(pulls.get(), 0);
}
