//! Live GPU counters cheap enough to poll at UI rates.
//!
//! Every backend is a syscall or a file read, never a process spawn; what it answers is put
//! together here. Absent counters are `None`, never zero: a wrong number is worse than an absent
//! one.
//!
//! `F` is the type of a utilisation reading in percent. Temperatures, powers and speeds are the
//! whole numbers that the vendor library reports.
use crate::stats::nvml::{
    has_answer, is_named, normalised, query, value_of, NvmlAnswers, NvmlFacts, NVIDIA_VENDOR,
};
use vstd::prelude::*;

pub mod apple;
pub mod drm;
pub mod nvml;
pub mod windows;

verus! {

/// One live GPU reading.
#[derive(Debug, Clone, PartialEq)]
pub struct GpuStats<F> {
    /// GPU or SoC name when the driver publishes one.
    pub name: Option<String>,
    /// Device utilisation in percent.
    pub util_pct: Option<F>,
    /// GPU-resident bytes. On unified-memory parts this is the GPU's slice of system RAM.
    pub mem_used_bytes: Option<u64>,
    /// Total memory the GPU can address. Of a `unified` GPU this is system RAM, or the part of it
    /// that the system lets the GPU address.
    pub mem_total_bytes: Option<u64>,
    /// GPU shares system RAM.
    pub unified: bool,
    /// Core temperature in degrees Celsius.
    pub temp_c: Option<u32>,
    /// Board power draw in milliwatts.
    pub power_mw: Option<u32>,
    /// The power limit currently enforced, in milliwatts.
    pub power_limit_mw: Option<u32>,
    /// Fan duty cycle as a percentage of maximum, not revolutions.
    pub fan_pct: Option<u32>,
    /// Graphics clock in MHz.
    pub clock_core_mhz: Option<u32>,
    /// Memory clock in MHz.
    pub clock_mem_mhz: Option<u32>,
    /// Memory-controller utilisation: how busy the bus was, not how full the memory is.
    pub mem_bus_pct: Option<u32>,
    /// Driver version, when the vendor library reports one.
    pub driver: Option<String>,
}

/// A fraction between zero and one.
#[derive(Debug, Clone, Copy, PartialEq, Eq, Structural)]
pub struct Ratio {
    /// The part, not more than the whole.
    pub part: u64,
    /// The whole, not zero.
    pub whole: u64,
}

/// The fraction that `part` is of `whole`, at most one; none where either is unknown or the whole
/// is nothing.
pub open spec fn fraction(part: Option<u64>, whole: Option<u64>) -> Option<Ratio> {
    match (part, whole) {
        (Some(p), Some(w)) => if w == 0 {
            None
        } else if p <= w {
            Some(Ratio { part: p, whole: w })
        } else {
            Some(Ratio { part: w, whole: w })
        },
        _ => None,
    }
}

fn fraction_of(part: Option<u64>, whole: Option<u64>) -> (r: Option<Ratio>)
    ensures
        r == fraction(part, whole),
{
    match (part, whole) {
        (Some(p), Some(w)) => if w == 0 {
            None
        } else if p <= w {
            Some(Ratio { part: p, whole: w })
        } else {
            Some(Ratio { part: w, whole: w })
        },
        _ => None,
    }
}

/// The memory in use, where it is credible: no more than there is. A wrong number is worse than an
/// absent one.
pub open spec fn credible(used: Option<u64>, total: Option<u64>) -> Option<u64> {
    match (used, total) {
        (Some(u), Some(t)) => if u <= t {
            Some(u)
        } else {
            None
        },
        _ => used,
    }
}

/// The memory in use, where it is credible.
pub fn credible_use(used: Option<u64>, total: Option<u64>) -> (r: Option<u64>)
    ensures
        r == credible(used, total),
{
    match (used, total) {
        (Some(u), Some(t)) => if u <= t {
            Some(u)
        } else {
            None
        },
        _ => used,
    }
}

/// A wider reading.
pub open spec fn widened(o: Option<u32>) -> Option<u64> {
    match o {
        Some(v) => Some(v as u64),
        None => None,
    }
}

fn widen(o: Option<u32>) -> (r: Option<u64>)
    ensures
        r == widened(o),
{
    match o {
        Some(v) => Some(v as u64),
        None => None,
    }
}

impl<F> Default for GpuStats<F> {
    /// A reading without any counter.
    fn default() -> (r: Self)
        ensures
            r == (GpuStats::<F> {
                name: None,
                util_pct: None,
                mem_used_bytes: None,
                mem_total_bytes: None,
                unified: false,
                temp_c: None,
                power_mw: None,
                power_limit_mw: None,
                fan_pct: None,
                clock_core_mhz: None,
                clock_mem_mhz: None,
                mem_bus_pct: None,
                driver: None,
            }),
    {
        GpuStats {
            name: None,
            util_pct: None,
            mem_used_bytes: None,
            mem_total_bytes: None,
            unified: false,
            temp_c: None,
            power_mw: None,
            power_limit_mw: None,
            fan_pct: None,
            clock_core_mhz: None,
            clock_mem_mhz: None,
            mem_bus_pct: None,
            driver: None,
        }
    }
}

impl<F> GpuStats<F> {
    /// Is no more memory used than there is?
    pub open spec fn memory_fits(self) -> bool {
        match (self.mem_used_bytes, self.mem_total_bytes) {
            (Some(u), Some(t)) => u <= t,
            _ => true,
        }
    }

    /// Used fraction of the memory, or `None` when either side of the ratio is unknown.
    pub fn mem_frac(&self) -> (r: Option<Ratio>)
        ensures
            r == fraction(self.mem_used_bytes, self.mem_total_bytes),
    {
        fraction_of(self.mem_used_bytes, self.mem_total_bytes)
    }

    /// Power draw as a fraction of the enforced limit, or `None` when either side is unknown.
    pub fn power_frac(&self) -> (r: Option<Ratio>)
        ensures
            r == fraction(widened(self.power_mw), widened(self.power_limit_mw)),
    {
        fraction_of(widen(self.power_mw), widen(self.power_limit_mw))
    }

    /// True when the reading carries no usable counter, so a caller can skip drawing a section.
    pub fn is_empty(&self) -> (r: bool)
        ensures
            r == (self.util_pct is None && self.mem_used_bytes is None),
    {
        self.util_pct.is_none() && self.mem_used_bytes.is_none()
    }
}

/// Is `after` the reading `before` with the vendor library's answers in it?
pub open spec fn is_enriched<F>(before: GpuStats<F>, a: NvmlAnswers, after: GpuStats<F>) -> bool {
    &&& after.name == before.name
    &&& after.util_pct == before.util_pct
    &&& after.mem_used_bytes == before.mem_used_bytes
    &&& after.mem_total_bytes == before.mem_total_bytes
    &&& after.unified == before.unified
    &&& after.temp_c == value_of(a.temperature)
    &&& after.power_mw == value_of(a.power_usage)
    &&& after.power_limit_mw == value_of(a.power_limit)
    &&& after.fan_pct == value_of(a.fan_speed)
    &&& after.clock_core_mhz == value_of(a.clock_graphics)
    &&& after.clock_mem_mhz == value_of(a.clock_mem)
    &&& after.mem_bus_pct == value_of(a.memory_rate)
    &&& after.driver is Some == a.driver is Some
    &&& a.driver is Some ==> after.driver->0@ == a.driver->0@
}

/// Fills in the fields the system itself does not publish, where a vendor library can.
///
/// Enrichment, not a fallback: the base reading stands on its own. It is left alone where it has no
/// name, where the library is absent or answers nothing, and where none of the library's devices
/// is the GPU that was read, or another one was asked: another vendor's GPU gets nothing.
///
/// `vendor` is the PCI vendor id of the GPU that was read.
pub fn enrich<F>(stats: &mut GpuStats<F>, vendor: u32, facts: &Option<NvmlFacts>)
    ensures
        match (old(stats).name, facts) {
            (Some(name), Some(f)) => if has_answer(name@, vendor, *f) {
                is_enriched(*old(stats), f.answers, *final(stats))
            } else {
                *final(stats) == *old(stats)
            },
            _ => *final(stats) == *old(stats),
        },
{
    let answer = match (&stats.name, facts) {
        (Some(name), Some(f)) => query(name.as_str(), vendor, f),
        _ => None,
    };
    if let Some(n) = answer {
        stats.temp_c = n.temp_c;
        stats.power_mw = n.power_mw;
        stats.power_limit_mw = n.power_limit_mw;
        stats.fan_pct = n.fan_pct;
        stats.clock_core_mhz = n.clock_core_mhz;
        stats.clock_mem_mhz = n.clock_mem_mhz;
        stats.mem_bus_pct = n.mem_bus_pct;
        stats.driver = n.driver;
    }
}

/// A GPU that is not one of NVIDIA's, and that none of the library's devices is named like, has no
/// counters of the library.
pub proof fn law_other_vendors_get_nothing(adapter: Seq<char>, vendor: u32, facts: NvmlFacts)
    requires
        vendor != NVIDIA_VENDOR,
        forall|i: int|
            0 <= i < facts.devices@.len() ==> !is_named(
                #[trigger] facts.devices@[i],
                normalised(adapter),
            ),
    ensures
        !has_answer(adapter, vendor, facts),
{
}

/// A fraction never leaves the range from zero to one.
pub proof fn law_fractions_are_clamped(part: Option<u64>, whole: Option<u64>)
    ensures
        fraction(part, whole) matches Some(r) ==> 0 < r.whole && r.part <= r.whole,
        fraction(part, whole) is None <==> part is None || whole is None || whole == Some(0u64),
{
}

/// The memory in use is the number that was told for it, and it is kept unless it exceeds a total
/// that is known.
pub proof fn law_memory_in_use_is_what_was_told(used: Option<u64>, total: Option<u64>)
    ensures
        credible(used, total) is Some ==> credible(used, total) == used,
        credible(used, total) is Some <==> used is Some && (total is None || used->0 <= total->0),
{
}

/// A fraction has the part and the whole that it was made of; where the part exceeds the whole, it
/// is one.
pub proof fn law_fractions_keep_part_and_whole(part: u64, whole: u64)
    requires
        whole > 0,
    ensures
        fraction(Some(part), Some(whole)) is Some,
        part <= whole ==> fraction(Some(part), Some(whole))->0.part == part && fraction(
            Some(part),
            Some(whole),
        )->0.whole == whole,
        part > whole ==> fraction(Some(part), Some(whole))->0.part == fraction(
            Some(part),
            Some(whole),
        )->0.whole,
{
}

/// An enriched reading keeps what the system told, and has of each vendor counter the value that
/// came with success, and nothing for one that did not.
pub proof fn law_enriched_readings<F>(
    before: GpuStats<F>,
    a: NvmlAnswers,
    after: GpuStats<F>,
)
    requires
        is_enriched(before, a, after),
    ensures
        after.name == before.name,
        after.util_pct == before.util_pct,
        after.mem_used_bytes == before.mem_used_bytes,
        after.mem_total_bytes == before.mem_total_bytes,
        after.unified == before.unified,
        a.temperature.status == 0 ==> after.temp_c == Some(a.temperature.value),
        a.temperature.status != 0 ==> after.temp_c is None,
        a.power_usage.status == 0 ==> after.power_mw == Some(a.power_usage.value),
        a.power_usage.status != 0 ==> after.power_mw is None,
        a.power_limit.status == 0 ==> after.power_limit_mw == Some(a.power_limit.value),
        a.power_limit.status != 0 ==> after.power_limit_mw is None,
        a.fan_speed.status == 0 ==> after.fan_pct == Some(a.fan_speed.value),
        a.fan_speed.status != 0 ==> after.fan_pct is None,
        a.clock_graphics.status == 0 ==> after.clock_core_mhz == Some(a.clock_graphics.value),
        a.clock_graphics.status != 0 ==> after.clock_core_mhz is None,
        a.clock_mem.status == 0 ==> after.clock_mem_mhz == Some(a.clock_mem.value),
        a.clock_mem.status != 0 ==> after.clock_mem_mhz is None,
        a.memory_rate.status == 0 ==> after.mem_bus_pct == Some(a.memory_rate.value),
        a.memory_rate.status != 0 ==> after.mem_bus_pct is None,
        a.driver is None ==> after.driver is None,
        a.driver is Some ==> after.driver is Some && after.driver->0@ == a.driver->0@,
{
}

/// The fraction of the power limit is made of the two readings themselves.
pub proof fn law_widened_readings(n: u32)
    ensures
        widened(Some(n)) == Some(n as u64),
        widened(None) is None,
{
}

} // verus!
