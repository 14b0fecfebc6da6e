use vstd::prelude::*;

verus! {

/// The time per task of a batch that took `elapsed_ns` nanoseconds for `tasks`
/// tasks, rounded down; none for an empty batch.
pub fn per_task_nanos(elapsed_ns: u64, tasks: u64) -> (r: Option<u64>)
    ensures
        tasks == 0 ==> r is None,
        tasks > 0 ==> r == Some(elapsed_ns / tasks),
{
    if tasks == 0 {
        None
    } else {
        Some(elapsed_ns / tasks)
    }
}

/// The number of bytes in a gibibyte.
pub const GIB: u64 = 1073741824;

/// A size in bytes as a whole number of gibibytes, rounded down.
pub fn whole_gib(bytes: u64) -> (r: u64)
    ensures
        r == bytes / GIB,
{
    bytes / GIB
}

} // verus!
