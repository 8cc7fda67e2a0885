//! Helper functions for creating lists of [`ThreadAllocationOutput`] for spawning workers.
//!
//! Each helper describes, one entry per worker thread, how the yard should start
//! that thread: its name, its index, its stack size and the core it is pinned to.
use vstd::prelude::*;

verus! {

/// Information about threads on the system.
#[derive(Debug, Clone, PartialEq)]
pub struct ThreadAllocationInput {
    /// Amount of physical cores in the system.
    pub physical: usize,
    /// Amount of logical cores in the system.
    pub logical: usize,
}

/// Spawn information for a worker thread.
#[derive(Debug, Clone, PartialEq)]
pub struct ThreadAllocationOutput {
    /// Name.
    pub name: Option<String>,
    /// Identifier.
    pub ident: usize,
    /// Size of spawned thread's stack. Will use system default if `None`.
    pub stack_size: Option<usize>,
    /// Core index to pin thread to. If a platform doesn't support affinity, will have
    /// no effect.
    pub affinity: Option<usize>,
}

/// The characters of an optional name.
pub open spec fn name_chars(name: Option<String>) -> Option<Seq<char>> {
    match name {
        Some(s) => Some(s@),
        None => None,
    }
}

/// The characters of an optional borrowed name.
pub open spec fn str_chars(name: Option<&str>) -> Option<Seq<char>> {
    match name {
        Some(s) => Some(s@),
        None => None,
    }
}

/// Entry `idx` of an allocation list: named `name`, identified by `idx`,
/// with the default stack size and pinned to `affinity`.
pub open spec fn is_allocation(
    out: ThreadAllocationOutput,
    name: Option<Seq<char>>,
    idx: int,
    affinity: Option<usize>,
) -> bool {
    &&& name_chars(out.name) == name
    &&& out.ident == idx
    &&& out.stack_size is None
    &&& out.affinity == affinity
}

/// The logical and physical core counts of the machine this runs on.
///
/// The result depends on the machine (and on the cgroups and scheduler
/// affinity of the calling process), so only what holds on every machine is
/// stated: both counts are at least one.
pub fn thread_info() -> (info: ThreadAllocationInput)
    ensures
        info.logical >= 1,
        info.physical >= 1,
{
    let logical = logical_core_count();
    let physical = physical_core_count();
    ThreadAllocationInput { logical, physical }
}

/// Calls `num_cpus::get`, whose documentation promises a result of at least `1`.
/// The count itself depends on the machine and is left unstated.
#[verifier::external_body]
pub(crate) fn logical_core_count() -> (n: usize)
    ensures
        n >= 1,
{
    num_cpus::get()
}

/// Calls `num_cpus::get_physical`, whose documentation promises a result of at
/// least `1`. The count itself depends on the machine and is left unstated.
#[verifier::external_body]
fn physical_core_count() -> (n: usize)
    ensures
        n >= 1,
{
    num_cpus::get_physical()
}

/// A single thread configuration.
///
/// - Creates a single thread.
pub fn single_thread(thread_name: Option<String>, affinity: Option<usize>) -> (out: Vec<
    ThreadAllocationOutput,
>)
    ensures
        out.len() == 1,
        is_allocation(out[0], name_chars(thread_name), 0, affinity),
        out[0].name == thread_name,
        out[0].ident == 0,
        out[0].stack_size is None,
        out[0].affinity == affinity,
{
    let mut out: Vec<ThreadAllocationOutput> = Vec::new();
    out.push(ThreadAllocationOutput { name: thread_name, ident: 0, stack_size: None, affinity });
    out
}

/// An owned copy of an optional name.
fn owned_name(thread_name: Option<&str>) -> (out: Option<String>)
    ensures
        name_chars(out) == str_chars(thread_name),
{
    match thread_name {
        Some(s) => Some(s.to_owned()),
        None => None,
    }
}

/// A single thread per core configuration.
///
/// - One thread per logical core.
/// - Each thread assigned to a different core.
///
/// `input` is the result of calling [`thread_info`].
pub fn one_to_one(input: ThreadAllocationInput, thread_name: Option<&str>) -> (out: Vec<
    ThreadAllocationOutput,
>)
    ensures
        out.len() == input.logical,
        forall|i: int|
            0 <= i < out.len() ==> #[trigger] is_allocation(
                out[i],
                str_chars(thread_name),
                i,
                Some(i as usize),
            ),
        forall|i: int|
            0 <= i < out.len() ==> name_chars(#[trigger] out[i].name) == str_chars(thread_name)
                && out[i].ident == i && out[i].stack_size is None && out[i].affinity == Some(
                i as usize,
            ),
{
    let mut out: Vec<ThreadAllocationOutput> = Vec::new();
    let mut idx: usize = 0;
    while idx < input.logical
        invariant
            idx <= input.logical,
            out.len() == idx,
            forall|i: int|
                0 <= i < out.len() ==> #[trigger] is_allocation(
                    out[i],
                    str_chars(thread_name),
                    i,
                    Some(i as usize),
                ),
        decreases input.logical - idx,
    {
        out.push(
            ThreadAllocationOutput {
                name: owned_name(thread_name),
                ident: idx,
                stack_size: None,
                affinity: Some(idx),
            },
        );
        idx = idx + 1;
    }
    assert forall|i: int| 0 <= i < out.len() implies name_chars(#[trigger] out[i].name) == str_chars(
        thread_name,
    ) && out[i].ident == i && out[i].stack_size is None && out[i].affinity == Some(i as usize) by {
        law_allocation_fields(out[i], str_chars(thread_name), i, Some(i as usize));
    }
    out
}

/// A two thread per core configuration.
///
/// - Two threads per logical core.
/// - Each set of two threads assigned to a different core.
///
/// `input` is the result of calling [`thread_info`].
pub fn two_to_one(input: ThreadAllocationInput, thread_name: Option<&str>) -> (out: Vec<
    ThreadAllocationOutput,
>)
    requires
        input.logical * 2 <= usize::MAX,
    ensures
        out.len() == input.logical * 2,
        forall|i: int|
            0 <= i < out.len() ==> #[trigger] is_allocation(
                out[i],
                str_chars(thread_name),
                i,
                Some((i / 2) as usize),
            ),
        forall|i: int|
            0 <= i < out.len() ==> name_chars(#[trigger] out[i].name) == str_chars(thread_name)
                && out[i].ident == i && out[i].stack_size is None && out[i].affinity == Some(
                (i / 2) as usize,
            ),
{
    let total: usize = input.logical * 2;
    let mut out: Vec<ThreadAllocationOutput> = Vec::new();
    let mut idx: usize = 0;
    while idx < total
        invariant
            total == input.logical * 2,
            idx <= total,
            out.len() == idx,
            forall|i: int|
                0 <= i < out.len() ==> #[trigger] is_allocation(
                    out[i],
                    str_chars(thread_name),
                    i,
                    Some((i / 2) as usize),
                ),
        decreases total - idx,
    {
        out.push(
            ThreadAllocationOutput {
                name: owned_name(thread_name),
                ident: idx,
                stack_size: None,
                affinity: Some(idx / 2),
            },
        );
        idx = idx + 1;
    }
    assert forall|i: int| 0 <= i < out.len() implies name_chars(#[trigger] out[i].name) == str_chars(
        thread_name,
    ) && out[i].ident == i && out[i].stack_size is None && out[i].affinity == Some((i / 2) as usize) by {
        law_allocation_fields(out[i], str_chars(thread_name), i, Some((i / 2) as usize));
    }
    out
}

/// An entry that [`is_allocation`] describes carries exactly the name, index,
/// stack size and core it was asked for.
pub proof fn law_allocation_fields(
    out: ThreadAllocationOutput,
    name: Option<Seq<char>>,
    idx: int,
    affinity: Option<usize>,
)
    requires
        is_allocation(out, name, idx, affinity),
    ensures
        name_chars(out.name) == name,
        out.ident == idx,
        out.stack_size is None,
        out.affinity == affinity,
{
}

} // verus!
