//! NVIDIA counters that the system does not publish: temperature, power, fans, clocks.
//!
//! The vendor library answers each question with a status and a value; a value counts only where
//! the status is success.
use crate::narrow::{c_str, lossy_text};
use crate::text::{
    before_first, chars_of, copy_option, is_white, law_stripping, law_terminator, law_trimming, lower,
    lowered, same_text, skip_leading, stands_at, strip_leading, trim_chars, trimmed,
};
use vstd::prelude::*;

verus! {

/// The status of an answer that counts.
pub const NVML_SUCCESS: u32 = 0;

/// One enrichment reading. Every field is optional because the library answers per capability.
#[derive(Debug, Clone, PartialEq)]
pub struct NvmlStats {
    /// Core temperature in degrees Celsius.
    pub temp_c: Option<u32>,
    /// Board power draw in milliwatts.
    pub power_mw: Option<u32>,
    /// The power limit currently enforced, in milliwatts.
    pub power_limit_mw: Option<u32>,
    /// Fan speed as a percentage of its maximum.
    pub fan_pct: Option<u32>,
    /// Graphics clock in MHz.
    pub clock_core_mhz: Option<u32>,
    /// Memory clock in MHz.
    pub clock_mem_mhz: Option<u32>,
    /// Memory-controller utilisation in percent.
    pub mem_bus_pct: Option<u32>,
    /// Driver version.
    pub driver: Option<String>,
}

impl NvmlStats {
    /// Is nothing answered?
    pub open spec fn empty(self) -> bool {
        &&& self.temp_c is None
        &&& self.power_mw is None
        &&& self.power_limit_mw is None
        &&& self.fan_pct is None
        &&& self.clock_core_mhz is None
        &&& self.clock_mem_mhz is None
        &&& self.mem_bus_pct is None
        &&& self.driver is None
    }

    /// True when nothing was answered at all, so a caller can leave the base reading alone.
    pub fn is_empty(&self) -> (r: bool)
        ensures
            r == self.empty(),
    {
        self.temp_c.is_none() && self.power_mw.is_none() && self.power_limit_mw.is_none()
            && self.fan_pct.is_none() && self.clock_core_mhz.is_none()
            && self.clock_mem_mhz.is_none() && self.mem_bus_pct.is_none() && self.driver.is_none()
    }
}

/// One answer of the vendor library.
#[derive(Debug, Clone, Copy, PartialEq, Eq, Structural)]
pub struct Answer {
    /// The status.
    pub status: u32,
    /// The value, which counts on success only.
    pub value: u32,
}

/// The value of an answer, where it counts.
pub open spec fn value_of(a: Answer) -> Option<u32> {
    if a.status == NVML_SUCCESS {
        Some(a.value)
    } else {
        None
    }
}

impl Answer {
    /// The value, where it counts.
    pub fn value(&self) -> (r: Option<u32>)
        ensures
            r == value_of(*self),
    {
        if self.status == NVML_SUCCESS {
            Some(self.value)
        } else {
            None
        }
    }
}

/// What the vendor library answered of one device.
#[derive(Debug, Clone, PartialEq)]
pub struct NvmlAnswers {
    /// Core temperature in degrees Celsius.
    pub temperature: Answer,
    /// Power draw in milliwatts.
    pub power_usage: Answer,
    /// Enforced power limit in milliwatts.
    pub power_limit: Answer,
    /// Fan speed in percent.
    pub fan_speed: Answer,
    /// Graphics clock in MHz.
    pub clock_graphics: Answer,
    /// Memory clock in MHz.
    pub clock_mem: Answer,
    /// Memory-controller utilisation in percent.
    pub memory_rate: Answer,
    /// Driver version, where the library told one.
    pub driver: Option<String>,
}

/// Does `s` hold exactly what was answered?
pub open spec fn holds_answers(a: NvmlAnswers, s: NvmlStats) -> bool {
    &&& s.temp_c == value_of(a.temperature)
    &&& s.power_mw == value_of(a.power_usage)
    &&& s.power_limit_mw == value_of(a.power_limit)
    &&& s.fan_pct == value_of(a.fan_speed)
    &&& s.clock_core_mhz == value_of(a.clock_graphics)
    &&& s.clock_mem_mhz == value_of(a.clock_mem)
    &&& s.mem_bus_pct == value_of(a.memory_rate)
    &&& s.driver is Some == a.driver is Some
    &&& a.driver is Some ==> s.driver->0@ == a.driver->0@
}

/// Is nothing answered?
pub open spec fn nothing_answered(a: NvmlAnswers) -> bool {
    &&& value_of(a.temperature) is None
    &&& value_of(a.power_usage) is None
    &&& value_of(a.power_limit) is None
    &&& value_of(a.fan_speed) is None
    &&& value_of(a.clock_graphics) is None
    &&& value_of(a.clock_mem) is None
    &&& value_of(a.memory_rate) is None
    &&& a.driver is None
}

/// What the vendor library says: its devices, and what one of them answered.
#[derive(Debug, Clone, PartialEq)]
pub struct NvmlFacts {
    /// The devices, in the library's order.
    pub devices: Vec<NvmlDevice>,
    /// The index of the device that was asked.
    pub asked: usize,
    /// What that device answered.
    pub answers: NvmlAnswers,
}

/// Is the device that was asked the one that the adapter is, and did it answer anything?
pub open spec fn has_answer(adapter: Seq<char>, vendor: u32, facts: NvmlFacts) -> bool {
    is_device_choice(facts.devices@, adapter, vendor, Some(facts.asked)) && !nothing_answered(
        facts.answers,
    )
}

/// The enrichment reading of the device that `adapter` of the vendor id `vendor` is, or none where
/// there is no such device, another one was asked, or it answered nothing.
pub fn query(adapter: &str, vendor: u32, facts: &NvmlFacts) -> (r: Option<NvmlStats>)
    ensures
        match r {
            Some(s) => has_answer(adapter@, vendor, *facts) && holds_answers(facts.answers, s),
            None => !has_answer(adapter@, vendor, *facts),
        },
{
    let found = device_matching(&facts.devices, adapter, vendor);
    proof {
        lemma_one_choice(facts.devices@, adapter@, vendor, found, Some(facts.asked));
    }
    match found {
        Some(index) => if index != facts.asked {
            return None;
        },
        None => return None,
    }
    let a = &facts.answers;
    let out = NvmlStats {
        temp_c: a.temperature.value(),
        power_mw: a.power_usage.value(),
        power_limit_mw: a.power_limit.value(),
        fan_pct: a.fan_speed.value(),
        clock_core_mhz: a.clock_graphics.value(),
        clock_mem_mhz: a.clock_mem.value(),
        mem_bus_pct: a.memory_rate.value(),
        driver: copy_option(&a.driver),
    };
    if out.is_empty() {
        None
    } else {
        Some(out)
    }
}

// ---------------------------------------------------------------------------
// Names
// ---------------------------------------------------------------------------

/// The text that the library wrote into a buffer.
pub open spec fn buffer_text(buf: Seq<u8>) -> Seq<char> {
    trimmed(lossy_text(before_first(buf, 0)))
}

/// The name that the library wrote into `buf`, where its status is success.
pub fn name_of(status: u32, buf: &[u8]) -> (r: Option<String>)
    ensures
        r is Some == (status == NVML_SUCCESS),
        r is Some ==> r->0@ == buffer_text(buf@),
{
    if status == NVML_SUCCESS {
        Some(c_str(buf))
    } else {
        None
    }
}

/// The driver version in a text, where it is not empty.
pub fn non_empty(text: Option<String>) -> (r: Option<String>)
    ensures
        r is Some == (text is Some && text->0@.len() > 0),
        r is Some ==> r->0@ == text->0@,
{
    match text {
        Some(s) => if s.as_str().is_empty() {
            None
        } else {
            Some(s)
        },
        None => None,
    }
}

/// The driver version that the library wrote into `buf`, where its status is success and it is
/// not empty.
pub fn driver_version(status: u32, buf: &[u8]) -> (r: Option<String>)
    ensures
        r is Some == (status == NVML_SUCCESS && buffer_text(buf@).len() > 0),
        r is Some ==> r->0@ == buffer_text(buf@),
{
    non_empty(name_of(status, buf))
}

/// A name in small letters, without vendor prefix and white space around it.
pub open spec fn normalised(name: Seq<char>) -> Seq<char> {
    trimmed(strip_leading(lowered(name), "nvidia"@))
}

/// Lowercased and stripped of the vendor prefix, so that two sources' spellings meet.
pub fn normalise(name: &str) -> (r: String)
    ensures
        r@ == normalised(name@),
{
    let small = chars_of(lower(name).as_str());
    let from = skip_leading(&small, &chars_of("nvidia"));
    trim_chars(&small, from)
}

/// The vendor prefix makes no difference, whatever its case.
pub proof fn law_vendor_prefix_is_ignored(prefix: Seq<char>, name: Seq<char>)
    requires
        lowered(prefix) == "nvidia"@,
    ensures
        normalised(prefix + name) == normalised(name),
{
    reveal_strlit("nvidia");
    let pat = "nvidia"@;
    let s = lowered(prefix + name);
    assert(s =~= pat + lowered(name));
    assert(s.subrange(0, pat.len() as int) =~= pat);
    assert(stands_at(s, pat, 0));
    assert(s.subrange(pat.len() as int, s.len() as int) =~= lowered(name));
}

/// Case makes no difference.
pub proof fn law_case_is_ignored(name: Seq<char>)
    ensures
        normalised(lowered(name)) == normalised(name),
{
    assert(lowered(lowered(name)) =~= lowered(name));
}

// ---------------------------------------------------------------------------
// Devices
// ---------------------------------------------------------------------------

/// What the vendor library says of one device index.
#[derive(Debug, Clone, PartialEq, Eq)]
pub struct NvmlDevice {
    /// Did it hand out the device?
    pub opened: bool,
    /// The device's name, where it told one.
    pub name: Option<String>,
}

/// Is this an opened device whose name is `wanted` after normalising?
pub open spec fn is_named(d: NvmlDevice, wanted: Seq<char>) -> bool {
    d.opened && d.name is Some && normalised(d.name->0@) == wanted
}

/// The PCI vendor id of NVIDIA's adapters.
pub const NVIDIA_VENDOR: u32 = 0x10de;

/// Is there just one device, and has it been opened?
pub open spec fn is_only_device(devices: Seq<NvmlDevice>) -> bool {
    devices.len() == 1 && devices[0].opened
}

/// Is there a device for the adapter: one of its name, or the only one where the adapter is one of
/// NVIDIA's?
pub open spec fn has_device(devices: Seq<NvmlDevice>, adapter: Seq<char>, vendor: u32) -> bool {
    ||| exists|i: int|
        0 <= i < devices.len() && is_named(#[trigger] devices[i], normalised(adapter))
    ||| vendor == NVIDIA_VENDOR && is_only_device(devices)
}

/// Is `found` the first device with the adapter's name, else the only device of an adapter of
/// NVIDIA's?
pub open spec fn is_device_choice(
    devices: Seq<NvmlDevice>,
    adapter: Seq<char>,
    vendor: u32,
    found: Option<usize>,
) -> bool {
    let wanted = normalised(adapter);
    match found {
        Some(f) => {
            &&& f < devices.len()
            &&& devices[f as int].opened
            &&& forall|i: int| 0 <= i < f ==> !is_named(#[trigger] devices[i], wanted)
            &&& is_named(devices[f as int], wanted) || (vendor == NVIDIA_VENDOR && is_only_device(
                devices,
            ))
        },
        None => !has_device(devices, adapter, vendor),
    }
}

/// The choice is one: no two answers are right.
proof fn lemma_one_choice(
    devices: Seq<NvmlDevice>,
    adapter: Seq<char>,
    vendor: u32,
    a: Option<usize>,
    b: Option<usize>,
)
    requires
        is_device_choice(devices, adapter, vendor, a),
    ensures
        is_device_choice(devices, adapter, vendor, b) ==> a == b,
{
    if is_device_choice(devices, adapter, vendor, b) {
        if let (Some(f), Some(g)) = (a, b) {
            if f < g {
                assert(!is_named(devices[f as int], normalised(adapter)));
            } else if g < f {
                assert(!is_named(devices[g as int], normalised(adapter)));
            }
        }
    }
}

/// The device that an adapter of the vendor id `vendor` is. Matching is by name: enumeration orders
/// differ, and one card's temperature next to another's memory would be worse than none. A single
/// device that reports a different name is still unambiguously the card of an NVIDIA adapter; it is
/// never another vendor's.
pub fn device_matching(devices: &Vec<NvmlDevice>, adapter: &str, vendor: u32) -> (r: Option<usize>)
    ensures
        is_device_choice(devices@, adapter@, vendor, r),
        r is Some == has_device(devices@, adapter@, vendor),
{
    let wanted = normalise(adapter);
    let mut index: usize = 0;
    while index < devices.len()
        invariant
            index <= devices@.len(),
            wanted@ == normalised(adapter@),
            forall|i: int| 0 <= i < index ==> !is_named(#[trigger] devices@[i], wanted@),
        decreases devices@.len() - index,
    {
        if devices[index].opened {
            if let Some(name) = &devices[index].name {
                if same_text(normalise(name.as_str()).as_str(), wanted.as_str()) {
                    return Some(index);
                }
            }
        }
        index = index + 1;
    }
    if devices.len() == 1 && devices[0].opened && vendor == NVIDIA_VENDOR {
        Some(0)
    } else {
        None
    }
}

/// A chosen device has the adapter's name, or it is the only one and the adapter is one of
/// NVIDIA's: another card's readings are never reported. A device of the adapter's name is found,
/// and so is the only one of an NVIDIA adapter, whatever it is called.
pub proof fn law_no_other_card_is_read(
    devices: Seq<NvmlDevice>,
    adapter: Seq<char>,
    vendor: u32,
    found: Option<usize>,
)
    requires
        is_device_choice(devices, adapter, vendor, found),
    ensures
        found matches Some(f) ==> is_named(devices[f as int], normalised(adapter)) || (vendor
            == NVIDIA_VENDOR && is_only_device(devices)),
        vendor != NVIDIA_VENDOR ==> (found matches Some(f) ==> is_named(
            devices[f as int],
            normalised(adapter),
        )),
        (exists|i: int|
            0 <= i < devices.len() && is_named(#[trigger] devices[i], normalised(adapter)))
            ==> found is Some,
        vendor == NVIDIA_VENDOR && is_only_device(devices) ==> found == Some(0usize),
{
}

/// Readings are shown only where the device that gave them is the one that is chosen for the
/// adapter.
pub proof fn law_readings_are_the_chosen_devices(
    adapter: Seq<char>,
    vendor: u32,
    facts: NvmlFacts,
    found: Option<usize>,
)
    requires
        is_device_choice(facts.devices@, adapter, vendor, found),
    ensures
        has_answer(adapter, vendor, facts) <==> found == Some(facts.asked) && !nothing_answered(
            facts.answers,
        ),
{
    lemma_one_choice(facts.devices@, adapter, vendor, found, Some(facts.asked));
}

/// Only an answer with the status of success counts, and it has the value that came with it.
pub proof fn law_only_success_counts(a: Answer)
    ensures
        a.status == 0 ==> value_of(a) == Some(a.value),
        a.status != 0 ==> value_of(a) is None,
{
}

/// A reading has of each counter the device's own answer, and there is one where anything was
/// answered.
pub proof fn law_readings_hold_the_answers(a: NvmlAnswers, s: NvmlStats)
    requires
        holds_answers(a, s),
    ensures
        s.temp_c == value_of(a.temperature),
        s.power_mw == value_of(a.power_usage),
        s.power_limit_mw == value_of(a.power_limit),
        s.fan_pct == value_of(a.fan_speed),
        s.clock_core_mhz == value_of(a.clock_graphics),
        s.clock_mem_mhz == value_of(a.clock_mem),
        s.mem_bus_pct == value_of(a.memory_rate),
        s.driver is Some <==> a.driver is Some,
        a.driver is Some ==> s.driver->0@ == a.driver->0@,
        nothing_answered(a) <==> a.temperature.status != 0 && a.power_usage.status != 0
            && a.power_limit.status != 0 && a.fan_speed.status != 0 && a.clock_graphics.status != 0
            && a.clock_mem.status != 0 && a.memory_rate.status != 0 && a.driver is None,
        s.empty() <==> nothing_answered(a),
{
}

/// A device has a name when it was opened, told one, and that reads alike after normalising.
pub proof fn law_names_of_devices(d: NvmlDevice, adapter: Seq<char>)
    ensures
        is_named(d, normalised(adapter)) <==> d.opened && d.name is Some && normalised(d.name->0@)
            == normalised(adapter),
{
}

/// A name reads as its letters, made small: neither the vendor in front of it nor white space
/// around it makes a difference.
pub proof fn law_names_are_read_by_their_letters(
    prefix: Seq<char>,
    before: Seq<char>,
    name: Seq<char>,
    after: Seq<char>,
)
    requires
        prefix.len() == 0 || lowered(prefix) == "nvidia"@,
        forall|i: int| 0 <= i < before.len() ==> is_white(#[trigger] before[i]),
        forall|i: int| 0 <= i < after.len() ==> is_white(#[trigger] after[i]),
        name.len() > 0,
        !is_white(name[0]) && !is_white(name[name.len() - 1]),
        !stands_at(lowered(name + after), "nvidia"@, 0),
    ensures
        normalised(prefix + (before + name + after)) == lowered(name),
{
    reveal_strlit("nvidia");
    let pat = "nvidia"@;
    let body = before + name + after;
    let low = lowered(body);
    if prefix.len() > 0 {
        law_vendor_prefix_is_ignored(prefix, body);
    } else {
        assert(prefix + body =~= body);
    }
    assert(!stands_at(low, pat, 0)) by {
        if before.len() > 0 {
            assert(is_white(before[0]));
            assert(low[0] == before[0]);
            if stands_at(low, pat, 0) {
                assert(low.subrange(0, 6)[0] == low[0]);
            }
        } else {
            assert(body =~= name + after);
        }
    }
    law_stripping(low, pat);
    assert forall|i: int| 0 <= i < lowered(before).len() implies is_white(
        #[trigger] lowered(before)[i],
    ) by {
        assert(is_white(before[i]));
    }
    assert forall|i: int| 0 <= i < lowered(after).len() implies is_white(
        #[trigger] lowered(after)[i],
    ) by {
        assert(is_white(after[i]));
    }
    law_trimming(lowered(before), lowered(name), lowered(after));
    assert(low =~= lowered(before) + lowered(name) + lowered(after));
}

/// The device that is read is the first opened one that has the adapter's name; without one, the
/// only device of an adapter of NVIDIA's.
pub proof fn law_which_device_is_read(
    devices: Seq<NvmlDevice>,
    adapter: Seq<char>,
    vendor: u32,
    found: Option<usize>,
    i: int,
)
    requires
        is_device_choice(devices, adapter, vendor, found),
        0 <= i < devices.len(),
    ensures
        devices[i].opened && devices[i].name is Some && normalised(devices[i].name->0@)
            == normalised(adapter) ==> (found matches Some(f) && f <= i),
        vendor == 0x10de && devices.len() == 1 && devices[0].opened ==> found == Some(0usize),
        found matches Some(f) ==> f < devices.len() && devices[f as int].opened && ((
        devices[f as int].name is Some && normalised(devices[f as int].name->0@) == normalised(
            adapter,
        )) || (vendor == 0x10de && devices.len() == 1)),
{
    if devices[i].opened && devices[i].name is Some && normalised(devices[i].name->0@)
        == normalised(adapter) {
        assert(is_named(devices[i], normalised(adapter)));
    }
}

/// What was written into a buffer is the text before its first NUL, without white space around it.
pub proof fn law_buffers(buf: Seq<u8>, text: Seq<u8>, rest: Seq<u8>)
    requires
        forall|i: int| 0 <= i < text.len() ==> text[i] != 0,
        buf == text + seq![0u8] + rest,
    ensures
        buffer_text(buf) == trimmed(lossy_text(text)),
{
    law_terminator(text, 0u8, rest);
}

} // verus!
