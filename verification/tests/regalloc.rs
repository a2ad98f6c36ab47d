use jlight::frags::SortedRangeFragIxs;
use jlight::item_set::{ItemMap, ItemSet};
use jlight::ix::{BlockIx, InstIx, MyRange, RangeFragIx};
use jlight::points::{InstPoint, Point, RangeFrag, RangeFragKind};
use jlight::regs::{RealReg, Reg, RegClass, SpillSlot, VirtualReg, NUM_REG_CLASSES};
use jlight::typed_vec::TypedIxVec;
use jlight::universe::RealRegUniverse;

#[test]
fn ix_arithmetic_and_ranges() {
    let a = InstIx::new(5);
    assert_eq!(a.get(), 5);
    assert_eq!(a.plus(3).get(), 8);
    assert_eq!(a.minus(2).get(), 3);
    assert_eq!(InstIx::max_value().get(), u32::MAX);
    assert_eq!(InstIx::min_value().get(), 0);
    let r = a.dotdot(InstIx::new(9));
    assert_eq!(r.len(), 4);
    assert_eq!(r.first().get(), 5);
    assert_eq!(r.last().get(), 8);
    assert!(r.contains(InstIx::new(8)));
    assert!(!r.contains(InstIx::new(9)));
    let r2 = MyRange::new(BlockIx::new(2), 3);
    assert_eq!(r2.start().get(), 2);
    let mut it = r2.into_iter();
    assert_eq!(it.next().map(|b| b.get()), Some(2));
    assert_eq!(it.next().map(|b| b.get()), Some(3));
    assert_eq!(it.next().map(|b| b.get()), Some(4));
    assert!(it.next().is_none());
}

#[test]
fn typed_vec_push_get_resize() {
    let mut v: TypedIxVec<BlockIx, u32> = TypedIxVec::new();
    v.push(10);
    v.push(20);
    assert_eq!(v.len(), 2);
    assert_eq!(*v.get(BlockIx::new(1)), 20);
    v.set(BlockIx::new(0), 7);
    assert_eq!(v.elems(), &[7, 20]);
    v.resize(4, 9);
    assert_eq!(v.elems(), &[7, 20, 9, 9]);
    let mut w = TypedIxVec::from_vec(vec![1u32, 2]);
    v.append(&mut w);
    assert_eq!(v.len(), 6);
    assert_eq!(w.len(), 0);
    assert_eq!(v.range().len(), 6);
}

#[test]
fn reg_class_numbers_round_trip() {
    for n in 0..NUM_REG_CLASSES as u32 {
        assert_eq!(RegClass::rc_from_u32(n).rc_to_u32(), n);
    }
    assert_eq!(RegClass::I64.rc_to_usize(), 2);
    assert_eq!(RegClass::F64.short_name(), "D");
    assert_eq!(RegClass::I64.short_name(), "J");
}

#[test]
fn virtual_reg_packing() {
    let r = Reg::new_virtual(RegClass::F32, 0x0abc_def0);
    assert!(r.is_virtual());
    assert!(!r.is_real());
    assert_eq!(r.get_index(), 0x0abc_def0);
    assert_eq!(r.get_class(), RegClass::F32);
    let v = r.to_virtual_reg();
    assert_eq!(v.get_index(), 0x0abc_def0);
    assert!(v.to_reg() == r);
    assert!(r.as_virtual_reg().is_some());
}

#[test]
fn real_reg_packing() {
    let r = Reg::new_real(RegClass::V128, 0x12, 0x34);
    assert!(r.is_real());
    assert_eq!(r.get_index(), 0x34);
    assert_eq!(r.get_hw_encoding(), 0x12);
    assert_eq!(r.get_class(), RegClass::V128);
    let rr = r.to_real_reg();
    assert_eq!(rr.get_hw_encoding(), 0x12);
    assert_eq!(rr.get_class(), RegClass::V128);
    assert!(rr.to_reg() == r);
    assert!(r.as_virtual_reg().is_none());
}

#[test]
fn apply_defs_or_uses_maps_virtual_and_keeps_real() {
    let v = Reg::new_virtual(RegClass::I64, 7);
    let target = Reg::new_real(RegClass::I64, 3, 4).to_real_reg();
    let mut map: ItemMap<VirtualReg, RealReg> = ItemMap::new();
    map.insert(v.to_virtual_reg(), target);
    let mut r = v;
    r.apply_defs_or_uses(&map);
    assert!(r == target.to_reg());
    let real = Reg::new_real(RegClass::I32, 1, 1);
    let mut r2 = real;
    r2.apply_defs_or_uses(&map);
    assert!(r2 == real);
    let mut r3 = v;
    r3.apply_mods(&map, &map);
    assert!(r3 == target.to_reg());
}

#[test]
fn spill_slot_rounding() {
    assert_eq!(SpillSlot::new(5).round_up(4).get(), 8);
    assert_eq!(SpillSlot::new(8).round_up(4).get(), 8);
    assert_eq!(SpillSlot::new(0).round_up(3).get(), 0);
    assert_eq!(SpillSlot::new(5).inc(2).get_usize(), 7);
}

#[test]
fn item_set_operations() {
    let a = Reg::new_virtual(RegClass::I64, 1);
    let b = Reg::new_virtual(RegClass::I64, 2);
    let c = Reg::new_virtual(RegClass::I64, 3);
    let mut s = ItemSet::two(a, b);
    assert_eq!(s.card(), 2);
    s.insert(a);
    assert_eq!(s.card(), 2);
    assert!(s.contains(a) && !s.contains(c));
    let t = ItemSet::two(b, c);
    assert!(s.intersects(&t));
    let mut u = s.clone();
    u.union(&t);
    assert_eq!(u.card(), 3);
    let mut i = s.clone();
    i.intersect(&t);
    assert!(i.equals(&ItemSet::unit(b)));
    let mut d = u.clone();
    d.remove(&t);
    assert!(d.equals(&ItemSet::unit(a)));
    assert!(ItemSet::unit(a).is_subset_of(&s));
    assert!(!t.is_subset_of(&s));
    let v = u.to_vec();
    assert_eq!(v.len(), 3);
    assert!(v[0] == a && v[1] == b && v[2] == c);
    let back = ItemSet::from_vec(vec![c, a, c]);
    assert_eq!(back.card(), 2);
    assert!(ItemSet::<Reg>::empty().is_empty());
    let mut count = 0;
    let mut it = u.iter();
    while let Some(_) = it.next() {
        count += 1;
    }
    assert_eq!(count, 3);
}

#[test]
fn item_map_insert_and_get() {
    let mut m: ItemMap<VirtualReg, u32> = ItemMap::new();
    let k1 = Reg::new_virtual(RegClass::I32, 1).to_virtual_reg();
    let k2 = Reg::new_virtual(RegClass::I32, 2).to_virtual_reg();
    m.insert(k1, 10);
    m.insert(k2, 20);
    m.insert(k1, 11);
    assert_eq!(m.len(), 2);
    assert_eq!(m.get(&k1), Some(&11));
    assert!(m.contains_key(&k2));
    assert_eq!(m.get(&Reg::new_virtual(RegClass::I32, 3).to_virtual_reg()), None);
}

#[test]
fn points_order_and_predicates() {
    assert!(Point::Reload < Point::Use && Point::Use < Point::Def && Point::Def < Point::Spill);
    assert!(Point::min_value() == Point::Reload);
    assert!(Point::max_value() == Point::Spill);
    assert!(Point::Use.is_use_or_def() && Point::Def.is_use_or_def() && !Point::Spill.is_use_or_def());
    assert!(Point::Reload.is_reload() && Point::Spill.is_spill());
    let i3 = InstIx::new(3);
    assert!(InstPoint::new_def(i3) < InstPoint::new_spill(i3));
    assert!(InstPoint::new_spill(i3) < InstPoint::new_reload(InstIx::new(4)));
    assert!(InstPoint::new_use(i3) == InstPoint::new(i3, Point::Use));
    assert!(InstPoint::min_value() < InstPoint::max_value());
}

#[test]
fn range_frag_kinds_and_contains() {
    let block = InstIx::new(10).dotdot(InstIx::new(20));
    let local = RangeFrag::new(block, BlockIx::new(0), InstPoint::new_def(InstIx::new(12)), InstPoint::new_use(InstIx::new(15)), 2);
    assert!(local.kind == RangeFragKind::Local);
    let live_in = RangeFrag::new(block, BlockIx::new(0), InstPoint::new_use(InstIx::new(10)), InstPoint::new_use(InstIx::new(15)), 1);
    assert!(live_in.kind == RangeFragKind::LiveIn);
    let live_out = RangeFrag::new(block, BlockIx::new(0), InstPoint::new_def(InstIx::new(12)), InstPoint::new_def(InstIx::new(19)), 1);
    assert!(live_out.kind == RangeFragKind::LiveOut);
    let thru = RangeFrag::new(block, BlockIx::new(0), InstPoint::new_use(InstIx::new(10)), InstPoint::new_def(InstIx::new(19)), 0);
    assert!(thru.kind == RangeFragKind::Thru);
    assert!(local.contains(&InstPoint::new_use(InstIx::new(13))));
    assert!(!local.contains(&InstPoint::new_use(InstIx::new(12))));
}

fn universe(classes: &[(RegClass, u8)], allocable: usize, groups: [Option<(usize, usize)>; NUM_REG_CLASSES]) -> RealRegUniverse {
    let mut regs = Vec::new();
    for (i, (rc, enc)) in classes.iter().enumerate() {
        regs.push((Reg::new_real(*rc, *enc, i as u8).to_real_reg(), format!("r{}", i)));
    }
    RealRegUniverse { regs, allocable, allocable_by_class: groups }
}

#[test]
fn universe_sanity() {
    let classes = [(RegClass::I64, 0), (RegClass::I64, 1), (RegClass::F64, 2), (RegClass::I64, 3)];
    let good = universe(&classes, 3, [None, None, Some((0, 1)), Some((2, 2)), None]);
    assert!(good.is_sane());
    good.check_is_sane();
    // A class range that misses an allocable register of its class.
    let short = universe(&classes, 3, [None, None, Some((0, 0)), Some((2, 2)), None]);
    assert!(!short.is_sane());
    // A class with allocable registers but no range.
    let missing = universe(&classes, 3, [None, None, Some((0, 1)), None, None]);
    assert!(!missing.is_sane());
    // More allocable registers than registers.
    let too_many = universe(&classes, 5, [None, None, Some((0, 1)), Some((2, 2)), None]);
    assert!(!too_many.is_sane());
    // A range reaching past the registers.
    let past = universe(&classes, 3, [None, None, Some((0, 1)), Some((2, 7)), None]);
    assert!(!past.is_sane());
    // A register stored at the wrong position.
    let mut shuffled = universe(&classes, 3, [None, None, Some((0, 1)), Some((2, 2)), None]);
    shuffled.regs.swap(0, 1);
    assert!(!shuffled.is_sane());
}

#[test]
fn frag_ix_type() {
    let f = RangeFragIx::new(4);
    assert_eq!(f.plus(1).get(), 5);
}

fn push_frag(fenv: &mut TypedIxVec<RangeFragIx, RangeFrag>, first: u32, last: u32) -> RangeFragIx {
    let ix = RangeFragIx::new(fenv.len());
    fenv.push(RangeFrag {
        bix: BlockIx::new(0),
        kind: RangeFragKind::Local,
        first: InstPoint::new_use(InstIx::new(first)),
        last: InstPoint::new_def(InstIx::new(last)),
        count: 1,
    });
    ix
}

#[test]
fn del_after_add_restores_the_list() {
    let mut fenv = TypedIxVec::new();
    let f1 = push_frag(&mut fenv, 1, 2);
    let f2 = push_frag(&mut fenv, 3, 4);
    let f3 = push_frag(&mut fenv, 5, 6);
    let f4 = push_frag(&mut fenv, 7, 8);
    let a = SortedRangeFragIxs::new(&vec![f3, f1], &fenv);
    let b = SortedRangeFragIxs::new(&vec![f4, f2], &fenv);
    assert!(a.frag_ixs == vec![f1, f3]);
    let mut m = a.clone();
    assert!(m.can_add(&b, &fenv));
    m.add(&b, &fenv);
    assert!(m.frag_ixs == vec![f1, f2, f3, f4]);
    m.del(&b, &fenv);
    assert!(m.frag_ixs == a.frag_ixs);
    // Overlapping fragments cannot be added.
    let f5 = push_frag(&mut fenv, 2, 3);
    let c = SortedRangeFragIxs::unit(f5, &fenv);
    assert!(!a.can_add(&c, &fenv));
    assert!(a.can_add_if_we_first_del(&a, &c, &fenv));
}

#[test]
fn universe_ranges_stay_inside_the_allocable_prefix() {
    let classes = [(RegClass::I32, 0), (RegClass::I32, 0), (RegClass::I32, 0)];
    let past = universe(&classes, 2, [Some((1, 2)), None, None, None, None]);
    assert!(!past.is_sane());
    let exact = universe(&classes, 2, [Some((0, 1)), None, None, None, None]);
    assert!(exact.is_sane());
    let empty_range = universe(&classes, 0, [Some((1, 0)), None, None, None, None]);
    assert!(!empty_range.is_sane());
}
