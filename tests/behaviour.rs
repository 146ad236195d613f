use std::cell::RefCell;
use std::ops::{Deref, DerefMut};
use std::rc::Rc;

use smol_vec::{AllocError, Allocator, BlockLayout, Global, LayoutOverflow, SmolVec, SmolVecError};

#[derive(Debug, Clone, Copy, PartialEq, Eq)]
enum Event {
    Allocate(BlockLayout),
    Grow(BlockLayout, BlockLayout),
    Deallocate(BlockLayout),
}

/// Records every request; refuses the grow with the given number (1-based).
struct Recorder {
    events: Rc<RefCell<Vec<Event>>>,
    refuse_allocate: bool,
    refuse_grow: Option<usize>,
    grows: usize,
}

impl Recorder {
    fn new(events: &Rc<RefCell<Vec<Event>>>) -> Recorder {
        Recorder { events: events.clone(), refuse_allocate: false, refuse_grow: None, grows: 0 }
    }
}

impl Allocator for Recorder {
    fn allocate_zeroed(&mut self, layout: BlockLayout) -> Result<(), AllocError> {
        if self.refuse_allocate {
            return Err(AllocError);
        }
        self.events.borrow_mut().push(Event::Allocate(layout));
        Ok(())
    }

    fn grow(&mut self, old: BlockLayout, new: BlockLayout) -> Result<(), AllocError> {
        self.grows += 1;
        if self.refuse_grow == Some(self.grows) {
            return Err(AllocError);
        }
        self.events.borrow_mut().push(Event::Grow(old, new));
        Ok(())
    }

    fn deallocate(&mut self, layout: BlockLayout) {
        self.events.borrow_mut().push(Event::Deallocate(layout));
    }
}

fn word_layout(cap: usize) -> BlockLayout {
    BlockLayout::for_elements(std::mem::size_of::<usize>(), std::mem::align_of::<usize>(), cap)
        .unwrap()
}

fn grow_caps(events: &[Event]) -> Vec<(usize, usize)> {
    let word = std::mem::size_of::<usize>();
    events
        .iter()
        .filter_map(|e| match e {
            Event::Grow(old, new) => Some((
                (old.size - old.elem_offset) / word,
                (new.size - new.elem_offset) / word,
            )),
            _ => None,
        })
        .collect()
}

/// Records the id of each value as it is destroyed.
struct Sentinel {
    id: usize,
    log: Rc<RefCell<Vec<usize>>>,
}

impl Drop for Sentinel {
    fn drop(&mut self) {
        self.log.borrow_mut().push(self.id);
    }
}

#[test]
fn test() {
    let mut vec = SmolVec::<usize>::new().unwrap();
    println!("{:?}", vec.deref());
    for i in 0..32 {
        vec.push(i).unwrap();
        println!("{:?}", vec.deref());
    }
    assert_eq!(vec.len(), 32);
    assert_eq!(vec.cap(), 32);
    assert_eq!(vec.deref(), (0..32).collect::<Vec<usize>>().as_slice());
}

#[test]
fn new_vector_is_empty() {
    let v = SmolVec::<usize>::new().unwrap();
    assert_eq!(v.len(), 0);
    assert_eq!(v.cap(), 0);
    assert!(v.is_empty());
    assert_eq!(v.as_slice(), &[] as &[usize]);
}

#[test]
fn construct_then_release_allocates_once_and_frees_once() {
    let events = Rc::new(RefCell::new(Vec::new()));
    let v = SmolVec::<usize, Recorder>::new_in(Recorder::new(&events)).unwrap();
    assert_eq!(v.len(), 0);
    assert_eq!(v.cap(), 0);
    assert_eq!(v.as_slice(), &[] as &[usize]);
    v.release();
    let seen = events.borrow().clone();
    assert_eq!(seen, vec![Event::Allocate(word_layout(0)), Event::Deallocate(word_layout(0))]);
    if std::mem::size_of::<usize>() == 8 {
        assert_eq!(word_layout(0).size, 16);
    }
}

#[test]
fn first_push_grows_from_zero_to_one() {
    let events = Rc::new(RefCell::new(Vec::new()));
    let mut v = SmolVec::<usize, Recorder>::new_in(Recorder::new(&events)).unwrap();
    v.push(7).unwrap();
    assert_eq!(v.cap(), 1);
    assert_eq!(grow_caps(&events.borrow()), vec![(0, 1)]);
    assert_eq!(events.borrow()[1], Event::Grow(word_layout(0), word_layout(1)));
}

#[test]
fn three_pushes_give_capacity_four() {
    let events = Rc::new(RefCell::new(Vec::new()));
    let mut v = SmolVec::<usize, Recorder>::new_in(Recorder::new(&events)).unwrap();
    for i in 0..3 {
        v.push(i).unwrap();
    }
    assert_eq!(v.len(), 3);
    assert_eq!(v.cap(), 4);
    assert_eq!(v.as_slice(), &[0, 1, 2]);
    assert_eq!(grow_caps(&events.borrow()), vec![(0, 1), (1, 2), (2, 4)]);
}

#[test]
fn thirty_two_pushes_grow_six_times() {
    let events = Rc::new(RefCell::new(Vec::new()));
    let mut v = SmolVec::<usize, Recorder>::new_in(Recorder::new(&events)).unwrap();
    for i in 0..32 {
        v.push(i).unwrap();
    }
    assert_eq!(v.len(), 32);
    assert_eq!(v.cap(), 32);
    assert_eq!(
        grow_caps(&events.borrow()),
        vec![(0, 1), (1, 2), (2, 4), (4, 8), (8, 16), (16, 32)]
    );
    assert_eq!(v.as_slice(), (0..32).collect::<Vec<usize>>().as_slice());
    v.release();
    assert_eq!(events.borrow().last(), Some(&Event::Deallocate(word_layout(32))));
}

#[test]
fn growth_happens_only_past_powers_of_two() {
    let mut v = SmolVec::<u8>::new().unwrap();
    let mut caps = Vec::new();
    for i in 0..130usize {
        v.push(i as u8).unwrap();
        caps.push(v.cap());
    }
    for (i, cap) in caps.iter().enumerate() {
        let n = i + 1;
        assert_eq!(*cap, n.next_power_of_two());
    }
    assert_eq!(caps[63], 64);
    assert_eq!(caps[64], 128);
}

#[test]
fn push_appends_at_the_end() {
    let mut v = SmolVec::<u32>::new().unwrap();
    v.push(10).unwrap();
    v.push(20).unwrap();
    let before = v.len();
    v.push(30).unwrap();
    assert_eq!(v.len(), before + 1);
    assert_eq!(v.as_slice()[v.len() - 1], 30);
    assert_eq!(v.as_slice().len(), v.len());
    assert!(v.len() <= v.cap());
    assert!(v.cap().is_power_of_two());
}

#[test]
fn pushes_are_kept_in_order() {
    let mut v = SmolVec::<String>::new().unwrap();
    let words = ["a", "bb", "ccc", "dddd", "eeeee"];
    for w in words.iter() {
        v.push(w.to_string()).unwrap();
    }
    let got: Vec<&str> = v.as_slice().iter().map(|s| s.as_str()).collect();
    assert_eq!(got, words.to_vec());
}

#[test]
fn drop_destroys_elements_in_index_order() {
    for n in [0usize, 1, 2, 5, 17] {
        let log = Rc::new(RefCell::new(Vec::new()));
        let mut v = SmolVec::<Sentinel>::new().unwrap();
        for id in 0..n {
            v.push(Sentinel { id, log: log.clone() }).unwrap();
        }
        assert!(log.borrow().is_empty());
        drop(v);
        assert_eq!(*log.borrow(), (0..n).collect::<Vec<usize>>());
    }
}

#[test]
fn release_destroys_elements_before_freeing_block() {
    let log = Rc::new(RefCell::new(Vec::new()));
    let events = Rc::new(RefCell::new(Vec::new()));
    let mut v = SmolVec::<Sentinel, Recorder>::new_in(Recorder::new(&events)).unwrap();
    for id in 0..3 {
        v.push(Sentinel { id, log: log.clone() }).unwrap();
    }
    let alloc = v.release();
    assert_eq!(*log.borrow(), vec![0, 1, 2]);
    assert_eq!(alloc.grows, 3);
    let sentinel_layout = BlockLayout::for_elements(
        std::mem::size_of::<Sentinel>(),
        std::mem::align_of::<Sentinel>(),
        4,
    )
    .unwrap();
    assert_eq!(events.borrow().last(), Some(&Event::Deallocate(sentinel_layout)));
}

#[test]
fn reference_counted_element_destroyed_once() {
    let shared = Rc::new(5u32);
    let mut v = SmolVec::<Rc<u32>>::new().unwrap();
    v.push(shared.clone()).unwrap();
    assert_eq!(Rc::strong_count(&shared), 2);
    drop(v);
    assert_eq!(Rc::strong_count(&shared), 1);
}

#[test]
fn failed_grow_leaves_vector_intact() {
    let events = Rc::new(RefCell::new(Vec::new()));
    let mut rec = Recorder::new(&events);
    rec.refuse_grow = Some(2);
    let mut v = SmolVec::<usize, Recorder>::new_in(rec).unwrap();
    let mut pushed = 0usize;
    let err = loop {
        match v.push(100 + pushed) {
            Ok(()) => pushed += 1,
            Err(e) => break e,
        }
    };
    assert_eq!(err, SmolVecError::AllocationFailure);
    assert_eq!(pushed, 1);
    assert_eq!(v.len(), 1);
    assert_eq!(v.cap(), 1);
    assert_eq!(v.as_slice(), &[100]);
}

#[test]
fn refused_allocation_fails_construction() {
    let events = Rc::new(RefCell::new(Vec::new()));
    let mut rec = Recorder::new(&events);
    rec.refuse_allocate = true;
    let r = SmolVec::<usize, Recorder>::new_in(rec);
    assert!(matches!(r, Err(SmolVecError::AllocationFailure)));
    assert!(events.borrow().is_empty());
}

#[test]
fn over_aligned_elements_are_padded() {
    let word = std::mem::size_of::<usize>();
    let l = BlockLayout::for_elements(32, 32, 1).unwrap();
    assert_eq!(l.elem_offset, 32);
    assert_eq!(l.align, 32);
    assert_eq!(l.size, 64);
    assert!(l.elem_offset >= 2 * word);
    let small = BlockLayout::for_elements(4, 4, 3).unwrap();
    assert_eq!(small.elem_offset, 2 * word);
    assert_eq!(small.size % small.align, 0);
    assert!(small.size >= small.elem_offset + 12);
}

#[test]
fn zero_sized_elements_only_count() {
    let events = Rc::new(RefCell::new(Vec::new()));
    let mut v = SmolVec::<(), Recorder>::new_in(Recorder::new(&events)).unwrap();
    for _ in 0..10 {
        v.push(()).unwrap();
    }
    assert_eq!(v.len(), 10);
    assert_eq!(v.cap(), 16);
    let header = BlockLayout::for_elements(0, 1, 0).unwrap();
    for e in events.borrow().iter() {
        match e {
            Event::Grow(old, new) => {
                assert_eq!(*old, header);
                assert_eq!(*new, header);
            }
            Event::Allocate(l) => assert_eq!(*l, header),
            Event::Deallocate(_) => {}
        }
    }
    assert_eq!(BlockLayout::for_elements(0, 8, 1 << 40), BlockLayout::for_elements(0, 8, 0));
}

#[test]
fn oversized_layout_overflows() {
    assert_eq!(BlockLayout::for_elements(usize::MAX, 1, 2), Err(LayoutOverflow));
    assert_eq!(BlockLayout::for_elements(8, 8, usize::MAX / 8), Err(LayoutOverflow));
    assert!(BlockLayout::for_elements(8, 8, 1024).is_ok());
}

#[test]
fn layout_sizes_exact() {
    let word = std::mem::size_of::<usize>();
    let l = BlockLayout::for_elements(8, 8, 4).unwrap();
    assert_eq!(l.elem_offset, 2 * word);
    assert_eq!(l.size, 2 * word + 32);
    let odd = BlockLayout::for_elements(3, 1, 5).unwrap();
    assert_eq!(odd.elem_offset, 2 * word);
    assert_eq!(odd.size, (2 * word + 15 + word - 1) / word * word);
}

#[test]
fn header_offsets() {
    let v = SmolVec::<u64>::new().unwrap();
    assert_eq!(v.len_ptr_mut(), 0);
    assert_eq!(v.cap_ptr_mut(), std::mem::size_of::<usize>());
}

#[test]
fn handle_is_one_word() {
    assert_eq!(std::mem::size_of::<SmolVec<u64>>(), std::mem::size_of::<usize>());
    assert_eq!(std::mem::size_of::<SmolVec<u8, Global>>(), std::mem::size_of::<usize>());
}

#[test]
fn elements_change_in_place() {
    let mut v = SmolVec::<i32>::new().unwrap();
    v.push(1).unwrap();
    v.push(2).unwrap();
    v.as_slice_mut()[0] = 10;
    v.deref_mut()[1] = 20;
    v[1] += 1;
    assert_eq!(v.as_slice(), &[10, 21]);
    assert_eq!(v.len(), 2);
    assert_eq!(v.cap(), 2);
}

#[test]
fn global_allocator_grants_requests() {
    let mut v = SmolVec::<u16, Global>::new_in(Global::new()).unwrap();
    for i in 0..5u16 {
        v.push(i).unwrap();
    }
    assert_eq!(v.as_slice(), &[0, 1, 2, 3, 4]);
    assert_eq!(v.cap(), 8);
    let _alloc: Global = v.release();
}

#[test]
fn pushes_with_room_ask_nothing() {
    let events = Rc::new(RefCell::new(Vec::new()));
    let mut v = SmolVec::<usize, Recorder>::new_in(Recorder::new(&events)).unwrap();
    for i in 0..5 {
        v.push(i).unwrap();
    }
    let before = events.borrow().len();
    v.push(5).unwrap();
    v.push(6).unwrap();
    v.push(7).unwrap();
    assert_eq!(events.borrow().len(), before);
    v.push(8).unwrap();
    assert_eq!(events.borrow().len(), before + 1);
    assert_eq!(events.borrow()[before], Event::Grow(word_layout(8), word_layout(16)));
}

#[test]
fn grows_come_from_pushes_after_powers_of_two() {
    let events = Rc::new(RefCell::new(Vec::new()));
    let mut v = SmolVec::<usize, Recorder>::new_in(Recorder::new(&events)).unwrap();
    let mut growing_pushes = Vec::new();
    for i in 0..32 {
        let before = events.borrow().len();
        v.push(i).unwrap();
        if events.borrow().len() > before {
            growing_pushes.push(i + 1);
        }
    }
    assert_eq!(growing_pushes, vec![1, 2, 3, 5, 9, 17]);
}
