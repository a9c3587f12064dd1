//! The figures of the memory module: how much memory programs use, how much
//! the kernel holds as buffers and cache, and how loaded memory is.

use vstd::prelude::*;

verus! {

/// What the memory module shows, in bytes and in percent of the total.
#[derive(Clone, Copy, Debug, PartialEq, Eq, Structural)]
pub struct MemoryUsage {
    /// Memory in use, not counting buffers and cache.
    pub used: u64,
    /// Memory held as buffers and page cache.
    pub cached: u64,
    /// `used` in whole percent of the total, rounded down.
    pub percent: u64,
}

/// How loaded a resource is, which decides the style it is shown in.
#[derive(Clone, Copy, Debug, PartialEq, Eq, Structural)]
pub enum Load {
    Normal,
    /// Above 70 percent.
    Warning,
    /// Above 90 percent.
    Critical,
}

/// Whether the readings of the memory statistics can be summed up without
/// overflow: there is some memory, the free, buffered and cached memory fit
/// in it, and the used part times 100 fits in a `u64`.
pub open spec fn memory_readable(total: u64, free: u64, buffers: u64, cached: u64) -> bool {
    &&& total > 0
    &&& free + buffers + cached <= total
    &&& (total - free - buffers - cached) * 100 <= u64::MAX
}

/// The usage that the readings `total`, `free`, `buffers` and `cached`
/// give.
pub open spec fn spec_memory_usage(total: u64, free: u64, buffers: u64, cached: u64) -> MemoryUsage {
    let used = total - free - (buffers + cached);
    MemoryUsage {
        used: used as u64,
        cached: (buffers + cached) as u64,
        percent: (used * 100 / (total as int)) as u64,
    }
}

/// Sums up the memory statistics: the cache is the buffers and the page
/// cache, the used memory is what is not free nor cache.
pub fn memory_usage(total: u64, free: u64, buffers: u64, cached: u64) -> (r: MemoryUsage)
    requires
        memory_readable(total, free, buffers, cached),
    ensures
        r == spec_memory_usage(total, free, buffers, cached),
        r.percent <= 100,
{
    let in_cache = buffers + cached;
    let used = (total - free) - in_cache;
    assert(used * 100 / (total as int) <= 100) by (nonlinear_arith)
        requires
            used <= total,
            total > 0,
    ;
    MemoryUsage { used, cached: in_cache, percent: used * 100 / total }
}

/// The load of a resource used at `percent`.
pub open spec fn spec_load(percent: u64) -> Load {
    if percent > 90 {
        Load::Critical
    } else if percent > 70 {
        Load::Warning
    } else {
        Load::Normal
    }
}

/// The load of memory used at `percent`: critical above 90, a warning
/// above 70.
pub fn load(percent: u64) -> (r: Load)
    ensures
        r == spec_load(percent),
{
    if percent > 90 {
        Load::Critical
    } else if percent > 70 {
        Load::Warning
    } else {
        Load::Normal
    }
}

} // verus!
