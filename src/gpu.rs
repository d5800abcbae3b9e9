use vstd::prelude::*;
use crate::snapshot::{copy_opt_string, GpuInfo};
use crate::units::{bytes_to_mb, bytes_to_mb_spec, milli_pct_spec, percentage};

verus! {

/// Memory of one GPU device as read from the driver.
#[derive(Clone, Copy)]
pub struct GpuMemoryReading {
    pub used_bytes: u64,
    pub total_bytes: u64,
}

/// One GPU device as read from the driver; a figure that the driver could not
/// give is absent.
pub struct GpuReading {
    pub index: u32,
    pub name: String,
    pub uuid: Option<String>,
    pub utilization_pct: Option<u32>,
    pub memory: Option<GpuMemoryReading>,
    pub temperature_celsius: Option<u32>,
}

/// The per-device record of one reading.
pub open spec fn gpu_info_of(g: GpuReading) -> GpuInfo {
    GpuInfo {
        index: g.index,
        name: g.name,
        uuid: g.uuid,
        gpu_usage_pct: g.utilization_pct,
        memory_used_mb: match g.memory {
            Some(m) => Some(bytes_to_mb_spec(m.used_bytes as int) as u64),
            None => None,
        },
        memory_total_mb: match g.memory {
            Some(m) => Some(bytes_to_mb_spec(m.total_bytes as int) as u64),
            None => None,
        },
        memory_usage_milli_pct: match g.memory {
            Some(m) => Some(milli_pct_spec(m.used_bytes as int, m.total_bytes as int) as u128),
            None => None,
        },
        temperature_celsius: g.temperature_celsius,
    }
}

/// Sum, in thousandths of a percent, of the utilisation of the devices that
/// report one.
pub open spec fn usage_sum(s: Seq<GpuInfo>) -> int
    decreases s.len(),
{
    if s.len() == 0 {
        0
    } else {
        usage_sum(s.drop_last()) + match s.last().gpu_usage_pct {
            Some(u) => u as int * 1000,
            None => 0,
        }
    }
}

/// How many devices report a utilisation.
pub open spec fn usage_count(s: Seq<GpuInfo>) -> int
    decreases s.len(),
{
    if s.len() == 0 {
        0
    } else {
        usage_count(s.drop_last()) + if s.last().gpu_usage_pct is Some { 1int } else { 0int }
    }
}

/// Sum of the memory usage of the devices that report one.
pub open spec fn memory_usage_sum(s: Seq<GpuInfo>) -> int
    decreases s.len(),
{
    if s.len() == 0 {
        0
    } else {
        memory_usage_sum(s.drop_last()) + match s.last().memory_usage_milli_pct {
            Some(u) => u as int,
            None => 0,
        }
    }
}

/// How many devices report a memory usage.
pub open spec fn memory_usage_count(s: Seq<GpuInfo>) -> int
    decreases s.len(),
{
    if s.len() == 0 {
        0
    } else {
        memory_usage_count(s.drop_last()) + if s.last().memory_usage_milli_pct is Some { 1int } else { 0int }
    }
}

/// Mean utilisation over the devices that report one, in thousandths of a
/// percent (rounded down); absent when none does.
pub open spec fn average_usage(s: Seq<GpuInfo>) -> Option<u64> {
    if usage_count(s) == 0 {
        None
    } else {
        Some((usage_sum(s) / usage_count(s)) as u64)
    }
}

/// Mean memory usage over the devices that report one (rounded down); absent
/// when none does.
pub open spec fn average_memory_usage(s: Seq<GpuInfo>) -> Option<u128> {
    if memory_usage_count(s) == 0 {
        None
    } else {
        Some((memory_usage_sum(s) / memory_usage_count(s)) as u128)
    }
}

const MAX_USAGE: u128 = 4_294_967_295_000;

const MAX_MEMORY_USAGE: u128 = 1_844_674_407_370_955_161_500_000;

proof fn lemma_sums_bounded(s: Seq<GpuInfo>)
    requires
        forall|k: int|
            0 <= k < s.len() ==> match (#[trigger] s[k]).memory_usage_milli_pct {
                Some(u) => u <= MAX_MEMORY_USAGE,
                None => true,
            },
    ensures
        0 <= usage_count(s) <= s.len(),
        0 <= memory_usage_count(s) <= s.len(),
        0 <= usage_sum(s) <= usage_count(s) * MAX_USAGE,
        0 <= memory_usage_sum(s) <= memory_usage_count(s) * MAX_MEMORY_USAGE,
    decreases s.len(),
{
    if s.len() > 0 {
        assert(s.last() == s[s.len() - 1]);
        lemma_sums_bounded(s.drop_last());
    }
}

/// The record of each device read, in reading order, with the mean
/// utilisation and the mean memory usage over the devices that report them.
/// Device indices are `u32`, which bounds how many devices there can be.
pub fn summarize_gpus(readings: &Vec<GpuReading>) -> (r: (Vec<GpuInfo>, Option<u64>, Option<u128>))
    requires
        readings@.len() <= u32::MAX,
    ensures
        r.0@ == readings@.map_values(|g: GpuReading| gpu_info_of(g)),
        r.1 == average_usage(r.0@),
        r.2 == average_memory_usage(r.0@),
{
    let mut details: Vec<GpuInfo> = Vec::new();
    let mut usage_total: u128 = 0;
    let mut usage_n: u128 = 0;
    let mut mem_total: u128 = 0;
    let mut mem_n: u128 = 0;
    let mut i: usize = 0;
    while i < readings.len()
        invariant
            i <= readings@.len() <= u32::MAX,
            details@ == readings@.take(i as int).map_values(|g: GpuReading| gpu_info_of(g)),
            usage_total == usage_sum(details@),
            usage_n == usage_count(details@),
            mem_total == memory_usage_sum(details@),
            mem_n == memory_usage_count(details@),
            forall|k: int|
                0 <= k < details@.len() ==> match (#[trigger] details@[k]).memory_usage_milli_pct {
                    Some(u) => u <= MAX_MEMORY_USAGE,
                    None => true,
                },
        decreases readings@.len() - i,
    {
        let g = &readings[i];
        let (memory_used_mb, memory_total_mb, memory_usage_milli_pct) = match g.memory {
            Some(m) => {
                let pct = percentage(m.used_bytes, m.total_bytes);
                assert(pct <= MAX_MEMORY_USAGE) by {
                    if m.total_bytes > 0 {
                        assert(m.used_bytes as int * 100_000 / m.total_bytes as int <= m.used_bytes as int
                            * 100_000) by (nonlinear_arith)
                            requires m.total_bytes > 0, m.used_bytes >= 0;
                    }
                }
                (Some(bytes_to_mb(m.used_bytes)), Some(bytes_to_mb(m.total_bytes)), Some(pct))
            },
            None => (None, None, None),
        };
        let uuid = copy_opt_string(&g.uuid);
        let info = GpuInfo {
            index: g.index,
            name: g.name.clone(),
            uuid,
            gpu_usage_pct: g.utilization_pct,
            memory_used_mb,
            memory_total_mb,
            memory_usage_milli_pct,
            temperature_celsius: g.temperature_celsius,
        };
        proof {
            lemma_sums_bounded(details@);
        }
        assert(usage_total <= i * MAX_USAGE) by (nonlinear_arith)
            requires usage_total <= usage_n * MAX_USAGE, usage_n <= i;
        assert(mem_total <= i * MAX_MEMORY_USAGE) by (nonlinear_arith)
            requires mem_total <= mem_n * MAX_MEMORY_USAGE, mem_n <= i;
        if let Some(u) = info.gpu_usage_pct {
            usage_total = usage_total + u as u128 * 1000;
            usage_n = usage_n + 1;
        }
        if let Some(v) = info.memory_usage_milli_pct {
            mem_total = mem_total + v;
            mem_n = mem_n + 1;
        }
        let ghost before = details@;
        details.push(info);
        assert(details@.drop_last() =~= before);
        assert(readings@.take(i + 1).drop_last() =~= readings@.take(i as int));
        assert(details@ =~= readings@.take(i + 1).map_values(|g: GpuReading| gpu_info_of(g)));
        i = i + 1;
    }
    assert(readings@.take(readings@.len() as int) =~= readings@);
    proof {
        lemma_sums_bounded(details@);
    }
    let avg_usage = if usage_n == 0 {
        None
    } else {
        assert(usage_total / usage_n <= MAX_USAGE) by (nonlinear_arith)
            requires usage_total <= usage_n * MAX_USAGE, usage_n > 0;
        Some((usage_total / usage_n) as u64)
    };
    let avg_mem = if mem_n == 0 {
        None
    } else {
        Some(mem_total / mem_n)
    };
    (details, avg_usage, avg_mem)
}

} // verus!
