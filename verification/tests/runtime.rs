use jlight::ieiunium::{IncrementalMarkAndSweep, IncrementalState, COLOR_BLACK, COLOR_GREY, COLOR_WHITE};
use jlight::runtime::context::Context;
use jlight::runtime::state::{worker_threads_for, nof_parallel_worker_threads, GCType};
use jlight::runtime::string_pool::{intern, str, Interner, Name};
use jlight::runtime::value::{VTag, Value};
use std::collections::VecDeque;

#[test]
fn int32_values_round_trip() {
    for x in [0, 1, -1, i32::MAX, i32::MIN, 12345] {
        let v = Value::new_int(x);
        assert!(v.is_int32());
        assert!(v.is_number());
        assert!(!v.is_double());
        assert_eq!(v.as_int32(), x);
    }
}

#[test]
fn tag_values() {
    assert!(Value::from_tag(VTag::Null).is_null());
    assert!(Value::from_tag(VTag::Null).is_empty());
    assert!(Value::empty().is_empty());
    assert!(Value::from_tag(VTag::Undefined).is_undefined());
    assert!(Value::from_tag(VTag::True).is_true());
    assert!(Value::from_tag(VTag::True).as_bool());
    assert!(Value::from_tag(VTag::False).is_false());
    assert!(!Value::from_tag(VTag::False).as_bool());
    assert!(!Value::from_tag(VTag::True).is_number());
    // The tags are small numbers, not the encoded booleans.
    assert!(!Value::from_tag(VTag::True).is_bool());
    assert!(Value::from_tag(VTag::Null).is_cell());
}

#[test]
fn fresh_context() {
    let mut c = Context::new();
    assert_eq!(c.ip, 0);
    assert!(c.get_register(47).is_null());
    assert!(c.this.is_undefined());
    assert!(c.parent.is_none() && c.code.is_none());
    c.set_register(3, Value::new_int(9));
    assert_eq!(c.get_register(3).as_int32(), 9);
    c.move_(4, 3);
    assert_eq!(c.get_register(4).as_int32(), 9);
    c.set_register(5, Value::new_int(1));
    c.swap_registers(4, 5);
    assert_eq!(c.get_register(4).as_int32(), 9);
    assert_eq!(c.get_register(5).as_int32(), 1);
}

#[test]
fn parallel_worker_threads() {
    assert_eq!(worker_threads_for(1, 5, 8, 8), Some(2));
    assert_eq!(worker_threads_for(0, 5, 8, 8), Some(2));
    assert_eq!(worker_threads_for(6, 5, 8, 8), Some(6));
    assert_eq!(worker_threads_for(16, 5, 8, 8), Some(13));
    assert_eq!(worker_threads_for(usize::MAX, 5, 8, 8), None);
    assert!(nof_parallel_worker_threads(5, 8, 8).unwrap() >= 2);
    assert!(GCType::Parallel != GCType::Serial);
}

#[test]
fn interning_gives_stable_names() {
    let mut i = Interner::new();
    let a = intern(&mut i, "alpha");
    let b = intern(&mut i, "beta");
    let a2 = intern(&mut i, "alpha");
    assert_eq!(a, Name(0));
    assert_eq!(b, Name(1));
    assert_eq!(a2, a);
    assert_eq!(str(&i, b).as_str(), "beta");
    assert_eq!(i.str(a).as_str(), "alpha");
    assert_eq!(i.intern("gamma"), Name(2));
}

fn heap(colors: Vec<u8>, children: Vec<Vec<usize>>, roots: Vec<usize>) -> IncrementalMarkAndSweep {
    let n = colors.len();
    IncrementalMarkAndSweep {
        rootset: roots,
        heap_start: 1000,
        heap_end: 1000 + 16 * (n + 2),
        object_size: 16,
        colors,
        children,
        freelist: Vec::new(),
        gray: VecDeque::new(),
        state: IncrementalState::Roots,
        bytes_allocated: 16 * n,
    }
}

#[test]
fn incremental_collection_frees_unreachable_runs() {
    // 0 -> 2, 2 -> 0; 1, 3 and 4 are unreachable; 5 is reachable from root 5.
    let children = vec![vec![2], vec![], vec![0], vec![], vec![], vec![]];
    let mut gc = heap(vec![COLOR_WHITE; 6], children, vec![0, 5]);
    assert_eq!(gc.step(100), 0);
    assert_eq!(gc.state, IncrementalState::Mark);
    assert_eq!(gc.colors[0], COLOR_GREY);
    assert_eq!(gc.colors[5], COLOR_GREY);
    gc.collect(3);
    // Marking stops after three objects; the fourth queued one is dropped.
    assert_eq!(gc.state, IncrementalState::Mark);
    gc.collect(100);
    assert_eq!(gc.state, IncrementalState::Done);
    assert!(gc.colors.iter().all(|c| *c == COLOR_WHITE));
    // Object 1 and the run 3..5 were freed; 16 bytes each.
    assert_eq!(gc.freelist, vec![(1016, 16), (1048, 32)]);
    assert_eq!(gc.bytes_allocated, 16 * 6 - 16 * 3);
}

#[test]
fn sweep_extends_a_trailing_run_to_the_heap_end() {
    let mut gc = heap(vec![COLOR_BLACK, COLOR_WHITE, COLOR_WHITE], vec![vec![], vec![], vec![]], vec![]);
    gc.state = IncrementalState::Sweep;
    assert_eq!(gc.step(10), 3);
    assert_eq!(gc.freelist, vec![(1016, 1000 + 16 * 5 - 1016)]);
    assert_eq!(gc.bytes_allocated, 16);
    assert_eq!(gc.state, IncrementalState::Done);
}

#[test]
fn sweep_allocator_starts_at_the_heap_start() {
    let a = jlight::ieiunium::SweepAllocator::new(4096, 8192);
    assert_eq!(a.top, 4096);
    assert_eq!(a.limit, 8192);
    assert!(a.free_list.is_empty());
}

#[test]
fn interner_counts_strings() {
    let mut i = Interner::new();
    assert_eq!(i.len(), 0);
    i.intern("x");
    i.intern("x");
    i.intern("y");
    assert_eq!(i.len(), 2);
}

#[test]
fn collector_is_chosen_once() {
    let mut gc = GCType::Uninit;
    assert!(jlight::runtime::state::init_gc(&mut gc, GCType::Parallel));
    assert!(gc == GCType::Parallel);
    assert!(!jlight::runtime::state::init_gc(&mut gc, GCType::Serial));
    assert!(gc == GCType::Parallel);
}
