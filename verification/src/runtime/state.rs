use vstd::prelude::*;

verus! {

/// The garbage collectors the virtual machine can run.
#[derive(Clone, Copy, PartialEq, Eq, Structural, PartialOrd, Debug)]
pub enum GCType {
    Parallel,
    Serial,
    Concurrent,
    Ieinium,
    Uninit,
}

/// Chooses the collector `ty`, which can be done once: returns whether
/// `gc_type` was still unchosen, and only then sets it to `ty`.
pub fn init_gc(gc_type: &mut GCType, ty: GCType) -> (r: bool)
    ensures
        r == (*old(gc_type) == GCType::Uninit),
        r ==> *final(gc_type) == ty,
        !r ==> *final(gc_type) == *old(gc_type),
{
    if *gc_type == GCType::Uninit {
        *gc_type = ty;
        true
    } else {
        false
    }
}

/// The number of worker threads of the parallel collector on a machine
/// with `ncpus` physical cores: every core up to `switch_pt` (but at least
/// two), and `num / den` of each core above it.
pub open spec fn worker_threads_spec(ncpus: int, num: int, den: int, switch_pt: int) -> int {
    if ncpus <= switch_pt {
        if ncpus <= 1 {
            2
        } else {
            ncpus
        }
    } else {
        switch_pt + ((ncpus - switch_pt) * num) / den
    }
}

/// Wraps `num_cpus::get_physical`: the number of physical cores of this
/// machine, which its documentation promises is at least 1. The count
/// depends on the machine, so nothing else is stated of it.
#[verifier::external_body]
fn physical_cpus() -> (r: usize)
    ensures
        r >= 1,
{
    num_cpus::get_physical()
}

/// The number of worker threads for `ncpus` physical cores, or `None` where
/// the computation overflows.
pub fn worker_threads_for(ncpus: usize, num: usize, den: usize, switch_pt: usize) -> (r: Option<usize>)
    requires
        den > 0,
    ensures
        r matches Some(n) ==> n == worker_threads_spec(ncpus as int, num as int, den as int, switch_pt as int),
        r is None <==> (ncpus > switch_pt && ((ncpus - switch_pt) * num > usize::MAX
            || switch_pt + ((ncpus - switch_pt) * num) / (den as int) > usize::MAX)),
{
    if ncpus <= switch_pt {
        if ncpus <= 1 {
            return Some(2);
        }
        Some(ncpus)
    } else {
        let above = ncpus - switch_pt;
        match above.checked_mul(num) {
            Some(product) => switch_pt.checked_add(product / den),
            None => None,
        }
    }
}

/// The computation of the worker count for `ncpus` cores overflows.
pub open spec fn worker_threads_overflow(ncpus: int, num: int, den: int, switch_pt: int) -> bool {
    ncpus > switch_pt && ((ncpus - switch_pt) * num > usize::MAX || switch_pt + ((ncpus - switch_pt) * num) / den
        > usize::MAX)
}

/// The number of worker threads of the parallel collector on this machine,
/// or `None` where the computation overflows.
pub fn nof_parallel_worker_threads(num: usize, den: usize, switch_pt: usize) -> (r: Option<usize>)
    requires
        den > 0,
    ensures
        r matches Some(n) ==> exists|ncpus: int|
            1 <= ncpus <= usize::MAX && !worker_threads_overflow(ncpus, num as int, den as int, switch_pt as int)
                && n == #[trigger] worker_threads_spec(ncpus, num as int, den as int, switch_pt as int),
        r is None ==> exists|ncpus: int|
            1 <= ncpus <= usize::MAX && #[trigger] worker_threads_overflow(ncpus, num as int, den as int, switch_pt as int),
{
    let ncpus = physical_cpus();
    let r = worker_threads_for(ncpus, num, den, switch_pt);
    proof {
        let c = ncpus as int;
        if r is None {
            assert(worker_threads_overflow(c, num as int, den as int, switch_pt as int));
        } else {
            assert(!worker_threads_overflow(c, num as int, den as int, switch_pt as int));
            assert(r->0 == worker_threads_spec(c, num as int, den as int, switch_pt as int));
        }
    }
    r
}

} // verus!
