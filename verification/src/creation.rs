//! The checks a yard makes on its thread allocations before it starts any thread.
use vstd::prelude::*;
use crate::error::SwitchyardCreationError;
use crate::threads::{ThreadAllocationInput, ThreadAllocationOutput, is_allocation, logical_core_count};

verus! {

/// The allocation pins its thread to a core that exists among `total` cores,
/// or to none.
pub open spec fn affinity_ok(out: ThreadAllocationOutput, total: nat) -> bool {
    out.affinity matches Some(a) ==> a < total
}

/// Every allocation is valid on a machine of `total` cores.
pub open spec fn all_affinities_ok(allocs: Seq<ThreadAllocationOutput>, total: nat) -> bool {
    forall|i: int| 0 <= i < allocs.len() ==> #[trigger] affinity_ok(allocs[i], total)
}

/// Allocation `i` is the first one whose affinity is not a core among `total`.
pub open spec fn first_invalid(allocs: Seq<ThreadAllocationOutput>, total: nat, i: int) -> bool {
    &&& 0 <= i < allocs.len()
    &&& !affinity_ok(allocs[i], total)
    &&& forall|j: int| 0 <= j < i ==> #[trigger] affinity_ok(allocs[j], total)
}

/// The result of checking `allocs` against `total` cores.
pub open spec fn check_result(
    allocs: Seq<ThreadAllocationOutput>,
    total: nat,
    r: Result<(), SwitchyardCreationError>,
) -> bool {
    match r {
        Ok(()) => all_affinities_ok(allocs, total),
        Err(SwitchyardCreationError::InvalidAffinity { affinity, total_threads }) => {
            &&& total_threads == total
            &&& exists|i: int| #[trigger]
                first_invalid(allocs, total, i) && allocs[i].affinity == Some(affinity)
        },
    }
}

/// Checks that every thread allocation pins its thread to one of the
/// `total_threads` logical cores, or to none. The error names the affinity of
/// the first allocation that fails.
pub fn check_affinities(allocations: &[ThreadAllocationOutput], total_threads: usize) -> (r: Result<
    (),
    SwitchyardCreationError,
>)
    ensures
        check_result(allocations@, total_threads as nat, r),
{
    let mut i: usize = 0;
    while i < allocations.len()
        invariant
            i <= allocations@.len(),
            forall|j: int| 0 <= j < i ==> #[trigger] affinity_ok(allocations@[j], total_threads as nat),
        decreases allocations@.len() - i,
    {
        if let Some(affinity) = allocations[i].affinity {
            if affinity >= total_threads {
                assert(first_invalid(allocations@, total_threads as nat, i as int));
                return Err(SwitchyardCreationError::InvalidAffinity { affinity, total_threads });
            }
        }
        i = i + 1;
    }
    Ok(())
}

/// Checks the thread allocations against the logical core count of this
/// machine, which comes back with `Ok`. The core count depends on the machine;
/// whatever it is, the result is the one [`check_affinities`] gives for it.
pub fn validate_allocations(allocations: &[ThreadAllocationOutput]) -> (r: Result<
    usize,
    SwitchyardCreationError,
>)
    ensures
        r matches Ok(n) ==> n >= 1 && all_affinities_ok(allocations@, n as nat),
        r matches Err(e) ==> e->total_threads >= 1 && check_result(
            allocations@,
            e->total_threads as nat,
            Err(e),
        ),
{
    let total = logical_core_count();
    match check_affinities(allocations, total) {
        Ok(()) => Ok(total),
        Err(e) => Err(e),
    }
}

/// On `total` cores, `check_affinities` succeeds exactly when every allocation
/// is valid, and fails with the first invalid affinity otherwise.
pub proof fn law_check_decides(allocs: Seq<ThreadAllocationOutput>, total: nat)
    ensures
        all_affinities_ok(allocs, total) ==> check_result(allocs, total, Ok(())),
        !all_affinities_ok(allocs, total) ==> !check_result(allocs, total, Ok(())),
{
}

/// A one-to-one allocation made for at most `total` logical cores passes the check.
pub proof fn law_one_to_one_is_valid(
    input: ThreadAllocationInput,
    name: Option<Seq<char>>,
    out: Seq<ThreadAllocationOutput>,
    total: nat,
)
    requires
        out.len() == input.logical,
        forall|i: int| 0 <= i < out.len() ==> #[trigger] is_allocation(out[i], name, i, Some(i as usize)),
        input.logical <= total,
    ensures
        all_affinities_ok(out, total),
{
    assert forall|i: int| 0 <= i < out.len() implies #[trigger] affinity_ok(out[i], total) by {
        assert(is_allocation(out[i], name, i, Some(i as usize)));
    }
}

/// Threads `2c` and `2c + 1` are pinned to core `c`.
pub open spec fn pair_pinned(out: Seq<ThreadAllocationOutput>, c: int) -> bool {
    &&& out[2 * c].affinity == Some(c as usize)
    &&& out[2 * c + 1].affinity == Some(c as usize)
}

/// A two-to-one allocation made for at most `total` logical cores passes the
/// check, and each core `c` gets the two threads `2c` and `2c + 1` and no other.
pub proof fn law_two_to_one_is_valid(
    input: ThreadAllocationInput,
    name: Option<Seq<char>>,
    out: Seq<ThreadAllocationOutput>,
    total: nat,
)
    requires
        out.len() == input.logical * 2,
        forall|i: int|
            0 <= i < out.len() ==> #[trigger] is_allocation(out[i], name, i, Some((i / 2) as usize)),
        input.logical <= total,
        input.logical * 2 <= usize::MAX,
    ensures
        all_affinities_ok(out, total),
        forall|c: int| 0 <= c < input.logical ==> #[trigger] pair_pinned(out, c),
        forall|i: int, j: int|
            0 <= i < out.len() && 0 <= j < out.len() && #[trigger] out[i].affinity
                == #[trigger] out[j].affinity ==> i / 2 == j / 2,
{
    assert forall|i: int| 0 <= i < out.len() implies #[trigger] affinity_ok(out[i], total) by {
        assert(is_allocation(out[i], name, i, Some((i / 2) as usize)));
    }
    assert forall|c: int| 0 <= c < input.logical implies #[trigger] pair_pinned(out, c) by {
        assert(is_allocation(out[2 * c], name, 2 * c, Some(((2 * c) / 2) as usize)));
        assert(is_allocation(out[2 * c + 1], name, 2 * c + 1, Some(((2 * c + 1) / 2) as usize)));
    }
    assert forall|i: int, j: int|
        0 <= i < out.len() && 0 <= j < out.len() && #[trigger] out[i].affinity
            == #[trigger] out[j].affinity implies i / 2 == j / 2 by {
        assert(is_allocation(out[i], name, i, Some((i / 2) as usize)));
        assert(is_allocation(out[j], name, j, Some((j / 2) as usize)));
    }
}

/// A single thread passes the check exactly when it is not pinned, or pinned
/// to an existing core.
pub proof fn law_single_thread_validity(out: Seq<ThreadAllocationOutput>, name: Option<Seq<char>>, affinity: Option<usize>, total: nat)
    requires
        out.len() == 1,
        is_allocation(out[0], name, 0, affinity),
    ensures
        all_affinities_ok(out, total) <==> (affinity matches Some(a) ==> a < total),
{
    if all_affinities_ok(out, total) {
        assert(affinity_ok(out[0], total));
    }
}

} // verus!
