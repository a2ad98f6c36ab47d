use jlight::frags::SortedRangeFragIxs;
use jlight::ix::{BlockIx, InstIx, RangeFragIx};
use jlight::points::{cmp_range_frags, InstPoint, RangeFrag, RangeFragKind};
use jlight::typed_vec::TypedIxVec;
use std::cmp::Ordering;

// Create a RangeFrag and RangeFragIx from two InstPoints.
fn gen_fix(fenv: &mut TypedIxVec<RangeFragIx, RangeFrag>, first: InstPoint, last: InstPoint) -> RangeFragIx {
    assert!(first <= last);
    let res = RangeFragIx::new(fenv.len() as u32);
    let frag = RangeFrag { bix: BlockIx::new(123), kind: RangeFragKind::Local, first, last, count: 0 };
    fenv.push(frag);
    res
}

fn get_range_frag(fenv: &TypedIxVec<RangeFragIx, RangeFrag>, fix: RangeFragIx) -> &RangeFrag {
    fenv.get(fix)
}

// Structural equality, at least.  Not equality in the sense of
// deferencing the contained RangeFragIxes.
fn sorted_range_eq(fixs1: &SortedRangeFragIxs, fixs2: &SortedRangeFragIxs) -> bool {
    if fixs1.frag_ixs.len() != fixs2.frag_ixs.len() {
        return false;
    }
    for (mf1, mf2) in fixs1.frag_ixs.iter().zip(&fixs2.frag_ixs) {
        if mf1 != mf2 {
            return false;
        }
    }
    true
}

// Create a SortedRangeFragIxs from a bunch of RangeFrag indices
fn new_sorted_frag_ranges(fenv: &TypedIxVec<RangeFragIx, RangeFrag>, frags: &Vec<RangeFragIx>) -> SortedRangeFragIxs {
    SortedRangeFragIxs::new(&frags, fenv)
}

#[test]
fn test_sorted_frag_ranges() {
    let iix3 = InstIx::new(3);
    let iix4 = InstIx::new(4);
    let iix5 = InstIx::new(5);
    let iix6 = InstIx::new(6);
    let iix7 = InstIx::new(7);
    let iix10 = InstIx::new(10);
    let iix12 = InstIx::new(12);

    let fp_3u = InstPoint::new_use(iix3);
    let fp_3d = InstPoint::new_def(iix3);

    let fp_4u = InstPoint::new_use(iix4);

    let fp_5u = InstPoint::new_use(iix5);
    let fp_5d = InstPoint::new_def(iix5);

    let fp_6u = InstPoint::new_use(iix6);
    let fp_6d = InstPoint::new_def(iix6);

    let fp_7u = InstPoint::new_use(iix7);
    let fp_7d = InstPoint::new_def(iix7);

    let fp_10u = InstPoint::new_use(iix10);
    let fp_12u = InstPoint::new_use(iix12);

    let mut fenv = TypedIxVec::<RangeFragIx, RangeFrag>::new();

    let fix_3u = gen_fix(&mut fenv, fp_3u, fp_3u);
    let fix_3d = gen_fix(&mut fenv, fp_3d, fp_3d);
    let fix_4u = gen_fix(&mut fenv, fp_4u, fp_4u);
    let fix_3u_5u = gen_fix(&mut fenv, fp_3u, fp_5u);
    let fix_3d_5d = gen_fix(&mut fenv, fp_3d, fp_5d);
    let fix_3d_5u = gen_fix(&mut fenv, fp_3d, fp_5u);
    let fix_3u_5d = gen_fix(&mut fenv, fp_3u, fp_5d);
    let fix_6u_6d = gen_fix(&mut fenv, fp_6u, fp_6d);
    let fix_7u_7d = gen_fix(&mut fenv, fp_7u, fp_7d);
    let fix_10u = gen_fix(&mut fenv, fp_10u, fp_10u);
    let fix_12u = gen_fix(&mut fenv, fp_12u, fp_12u);

    // Boundary checks for point ranges, 3u vs 3d
    assert!(cmp_range_frags(get_range_frag(&fenv, fix_3u), get_range_frag(&fenv, fix_3u)) == Some(Ordering::Equal));
    assert!(cmp_range_frags(get_range_frag(&fenv, fix_3u), get_range_frag(&fenv, fix_3d)) == Some(Ordering::Less));
    assert!(cmp_range_frags(get_range_frag(&fenv, fix_3d), get_range_frag(&fenv, fix_3u)) == Some(Ordering::Greater));

    // Boundary checks for point ranges, 3d vs 4u
    assert!(cmp_range_frags(get_range_frag(&fenv, fix_3d), get_range_frag(&fenv, fix_3d)) == Some(Ordering::Equal));
    assert!(cmp_range_frags(get_range_frag(&fenv, fix_3d), get_range_frag(&fenv, fix_4u)) == Some(Ordering::Less));
    assert!(cmp_range_frags(get_range_frag(&fenv, fix_4u), get_range_frag(&fenv, fix_3d)) == Some(Ordering::Greater));

    // Partially overlapping
    assert!(cmp_range_frags(get_range_frag(&fenv, fix_3d_5d), get_range_frag(&fenv, fix_3u_5u)) == None);
    assert!(cmp_range_frags(get_range_frag(&fenv, fix_3u_5u), get_range_frag(&fenv, fix_3d_5d)) == None);

    // Completely overlapping: one contained within the other
    assert!(cmp_range_frags(get_range_frag(&fenv, fix_3d_5u), get_range_frag(&fenv, fix_3u_5d)) == None);
    assert!(cmp_range_frags(get_range_frag(&fenv, fix_3u_5d), get_range_frag(&fenv, fix_3d_5u)) == None);

    // Simple non-overlap tests for add()

    let smf_empty = new_sorted_frag_ranges(&fenv, &vec![]);
    let smf_6_7_10 = new_sorted_frag_ranges(&fenv, &vec![fix_6u_6d, fix_7u_7d, fix_10u]);
    let smf_3_12 = new_sorted_frag_ranges(&fenv, &vec![fix_3u, fix_12u]);
    let smf_3_6_7_10_12 = new_sorted_frag_ranges(&fenv, &vec![fix_3u, fix_6u_6d, fix_7u_7d, fix_10u, fix_12u]);
    let mut tmp;

    tmp = smf_empty.clone();
    tmp.add(&smf_empty, &fenv);
    assert!(sorted_range_eq(&tmp, &smf_empty));

    tmp = smf_3_12.clone();
    tmp.add(&smf_empty, &fenv);
    assert!(sorted_range_eq(&tmp, &smf_3_12));

    tmp = smf_empty.clone();
    tmp.add(&smf_3_12, &fenv);
    assert!(sorted_range_eq(&tmp, &smf_3_12));

    tmp = smf_6_7_10.clone();
    tmp.add(&smf_3_12, &fenv);
    assert!(sorted_range_eq(&tmp, &smf_3_6_7_10_12));

    tmp = smf_3_12.clone();
    tmp.add(&smf_6_7_10, &fenv);
    assert!(sorted_range_eq(&tmp, &smf_3_6_7_10_12));

    // Tests for can_add()
    assert!(true == smf_empty.can_add(&smf_empty, &fenv));
    assert!(true == smf_empty.can_add(&smf_3_12, &fenv));
    assert!(true == smf_3_12.can_add(&smf_empty, &fenv));
    assert!(false == smf_3_12.can_add(&smf_3_12, &fenv));

    assert!(true == smf_6_7_10.can_add(&smf_3_12, &fenv));

    assert!(true == smf_3_12.can_add(&smf_6_7_10, &fenv));

    // Tests for del()
    let smf_6_7 = new_sorted_frag_ranges(&fenv, &vec![fix_6u_6d, fix_7u_7d]);
    let smf_6_10 = new_sorted_frag_ranges(&fenv, &vec![fix_6u_6d, fix_10u]);
    let smf_7 = new_sorted_frag_ranges(&fenv, &vec![fix_7u_7d]);
    let smf_10 = new_sorted_frag_ranges(&fenv, &vec![fix_10u]);

    tmp = smf_empty.clone();
    tmp.del(&smf_empty, &fenv);
    assert!(sorted_range_eq(&tmp, &smf_empty));

    tmp = smf_3_12.clone();
    tmp.del(&smf_empty, &fenv);
    assert!(sorted_range_eq(&tmp, &smf_3_12));

    tmp = smf_empty.clone();
    tmp.del(&smf_3_12, &fenv);
    assert!(sorted_range_eq(&tmp, &smf_empty));

    tmp = smf_6_7_10.clone();
    tmp.del(&smf_3_12, &fenv);
    assert!(sorted_range_eq(&tmp, &smf_6_7_10));

    tmp = smf_3_12.clone();
    tmp.del(&smf_6_7_10, &fenv);
    assert!(sorted_range_eq(&tmp, &smf_3_12));

    tmp = smf_6_7_10.clone();
    tmp.del(&smf_6_7, &fenv);
    assert!(sorted_range_eq(&tmp, &smf_10));

    tmp = smf_6_7_10.clone();
    tmp.del(&smf_10, &fenv);
    assert!(sorted_range_eq(&tmp, &smf_6_7));

    tmp = smf_6_7_10.clone();
    tmp.del(&smf_7, &fenv);
    assert!(sorted_range_eq(&tmp, &smf_6_10));

    // Tests for can_add_if_we_first_del()
    let smf_10_12 = new_sorted_frag_ranges(&fenv, &vec![fix_10u, fix_12u]);

    assert!(true == smf_6_7_10.can_add_if_we_first_del(/*d=*/ &smf_10_12, /*a=*/ &smf_3_12, &fenv));

    assert!(false == smf_6_7_10.can_add_if_we_first_del(/*d=*/ &smf_10_12, /*a=*/ &smf_7, &fenv));
}
