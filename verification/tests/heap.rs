use jlight::chunk::Chunk;
use jlight::heap::block::{LINES_PER_BLOCK, MAX_HOLES, OBJECTS_PER_BLOCK};
use jlight::heap::block_list::BlockList;
use jlight::heap::histograms::{Histogram, Histograms, MINIMUM_BIN};
use jlight::heap::map::{Bytemap, LineMap, ObjectMap};

#[test]
fn chunk_starts_and_resets_to_zero() {
    let mut c = Chunk::new(4);
    assert_eq!(c.len(), 4);
    assert_eq!(*c.get(3), 0);
    c.set(2, 9);
    assert_eq!(*c.get(2), 9);
    c.reset();
    assert_eq!(*c.get(2), 0);
    assert_eq!(Chunk::new(0).len(), 0);
}

#[test]
fn histogram_counts() {
    let mut h = Histogram::new(3);
    h.increment(1, 5);
    h.increment(1, 2);
    assert_eq!(h.get(1), 7);
    assert_eq!(h.get(0), 0);
    h.reset();
    assert_eq!(h.get(1), 0);
}

#[test]
fn histograms_have_one_bin_per_count() {
    let mut hs = Histograms::new();
    hs.available.increment(MAX_HOLES, 1);
    hs.marked.increment(LINES_PER_BLOCK, 2);
    assert_eq!(hs.available.get(MAX_HOLES), 1);
    assert_eq!(hs.marked.get(LINES_PER_BLOCK), 2);
    hs.reset();
    assert_eq!(hs.available.get(MAX_HOLES), 0);
    assert_eq!(hs.marked.get(LINES_PER_BLOCK), 0);
    assert_eq!(MINIMUM_BIN, 2);
}

#[test]
fn object_map_set_unset() {
    let mut m = ObjectMap::new();
    assert!(m.is_empty());
    m.set(OBJECTS_PER_BLOCK - 1);
    assert!(m.is_set(OBJECTS_PER_BLOCK - 1));
    assert!(!m.is_set(0));
    assert!(!m.is_empty());
    assert_eq!(m.len(), 1);
    m.unset(OBJECTS_PER_BLOCK - 1);
    assert!(m.is_empty());
    m.set(3);
    m.set(4);
    m.reset();
    assert!(m.is_empty());
    assert_eq!(m.mark_value(), 1);
}

#[test]
fn line_map_mark_values_alternate() {
    let mut m = LineMap::new();
    assert_eq!(m.mark_value(), 1);
    m.set(0);
    m.swap_mark_value();
    assert_eq!(m.mark_value(), 2);
    m.set(1);
    assert_eq!(m.values()[1], 2);
    assert_eq!(m.len(), 2);
    m.reset_previous_marks();
    assert!(!m.is_set(0));
    assert!(m.is_set(1));
    m.swap_mark_value();
    assert_eq!(m.mark_value(), 1);
    m.reset();
    assert!(m.is_empty());
}

#[test]
fn block_list_order() {
    let mut a: BlockList<u32> = BlockList::new();
    assert!(a.is_empty());
    assert!(a.head().is_none());
    a.push(1);
    a.push(2);
    assert_eq!(a.len(), 2);
    assert_eq!(a.head(), Some(&1));
    assert_eq!(*a.get(1), 2);
    let mut b = BlockList::new();
    b.push(3);
    a.append(&mut b);
    assert!(b.is_empty());
    assert_eq!(a.pop(), Some(3));
    assert_eq!(a.drain(), vec![1, 2]);
    assert!(a.is_empty());
    assert_eq!(a.pop(), None);
}
