//! Apple GPU counters from the IORegistry: which accelerator answers and what it says.
use crate::narrow::strict_c_str;
use crate::stats::{credible, credible_use, GpuStats};
use crate::text::{before_first, chars_of, law_standing, law_terminator, matches_at, stands_at};
use vstd::prelude::*;
use vstd::utf8::{decode_utf8, valid_utf8};

verus! {

/// A registry property that may hold a text.
#[derive(Debug, Clone, PartialEq, Eq)]
pub enum Property {
    /// A string: its bytes as a C string, where they could be had.
    Text(Option<Vec<u8>>),
    /// Raw data: its bytes.
    Data(Vec<u8>),
    /// Something else.
    Other,
}

/// The bytes that a property keeps its text in.
pub open spec fn property_bytes(p: Property) -> Option<Seq<u8>> {
    match p {
        Property::Text(Some(bytes)) => Some(bytes@),
        Property::Text(None) => None,
        Property::Data(bytes) => if bytes@.len() > 0 {
            Some(bytes@)
        } else {
            None
        },
        Property::Other => None,
    }
}

/// The text of a property: what its bytes before the first NUL say, where that is UTF-8.
pub open spec fn property_text(p: Property) -> Option<Seq<char>> {
    match property_bytes(p) {
        Some(bytes) => if valid_utf8(before_first(bytes, 0)) {
            Some(decode_utf8(before_first(bytes, 0)))
        } else {
            None
        },
        None => None,
    }
}

/// Decodes a string or a C string inside raw data: names come as both.
pub fn decode_text(value: &Property) -> (r: Option<String>)
    ensures
        r is Some == property_text(*value) is Some,
        r is Some ==> Some(r->0@) == property_text(*value),
{
    match value {
        Property::Text(bytes) => match bytes {
            Some(bytes) => strict_c_str(bytes.as_slice()),
            None => None,
        },
        Property::Data(bytes) => if bytes.len() > 0 {
            strict_c_str(bytes.as_slice())
        } else {
            None
        },
        Property::Other => None,
    }
}

/// The text of an optional property.
pub open spec fn optional_text(p: Option<Property>) -> Option<Seq<char>> {
    match p {
        Some(p) => property_text(p),
        None => None,
    }
}

fn decode_optional(value: &Option<Property>) -> (r: Option<String>)
    ensures
        r is Some == optional_text(*value) is Some,
        r is Some ==> Some(r->0@) == optional_text(*value),
{
    match value {
        Some(p) => decode_text(p),
        None => None,
    }
}

/// The memory of the machine that `sysctl` told, where it succeeded and told any.
pub fn sys_memsize(rc: i32, value: u64) -> (r: Option<u64>)
    ensures
        r == if rc == 0 && value > 0 {
            Some(value)
        } else {
            None
        },
{
    if rc == 0 && value > 0 {
        Some(value)
    } else {
        None
    }
}

/// What one accelerator class answered.
#[derive(Debug, Clone, PartialEq)]
pub struct AcceleratorFacts<F> {
    /// Was a service of the class found, with performance statistics that are a dictionary?
    pub has_statistics: bool,
    /// Utilisation in percent, where it was told.
    pub util_pct: Option<F>,
    /// Bytes in use, where they were told.
    pub mem_used_bytes: Option<u64>,
    /// The `model` property.
    pub model: Option<Property>,
    /// The `IOClass` property.
    pub driver_class: Option<Property>,
}

/// Does the accelerator share the system's memory? Apple's own driver family always does; any
/// other does on Apple's own processors.
pub open spec fn is_unified<F>(c: AcceleratorFacts<F>, aarch64: bool) -> bool {
    aarch64 || (optional_text(c.driver_class) is Some && stands_at(
        optional_text(c.driver_class)->0,
        "AGX"@,
        0,
    ))
}

/// The memory that the accelerator can address: the machine's where it shares it.
pub open spec fn total_of<F>(c: AcceleratorFacts<F>, aarch64: bool, memsize: Option<u64>) -> Option<
    u64,
> {
    if is_unified(c, aarch64) {
        memsize
    } else {
        None
    }
}

/// Does a class tell any counter that is credible?
pub open spec fn answers<F>(c: AcceleratorFacts<F>, aarch64: bool, memsize: Option<u64>) -> bool {
    c.has_statistics && (c.util_pct is Some || credible(
        c.mem_used_bytes,
        total_of(c, aarch64, memsize),
    ) is Some)
}

/// Is this the reading of an accelerator?
pub open spec fn is_accelerator_reading<F>(
    c: AcceleratorFacts<F>,
    aarch64: bool,
    memsize: Option<u64>,
    s: GpuStats<F>,
) -> bool {
    &&& s.name is Some == optional_text(c.model) is Some
    &&& s.name is Some ==> Some(s.name->0@) == optional_text(c.model)
    &&& s.util_pct == c.util_pct
    &&& s.mem_used_bytes == credible(c.mem_used_bytes, total_of(c, aarch64, memsize))
    &&& s.mem_total_bytes == total_of(c, aarch64, memsize)
    &&& s.unified == is_unified(c, aarch64)
    &&& s.temp_c is None
    &&& s.power_mw is None
    &&& s.power_limit_mw is None
    &&& s.fan_pct is None
    &&& s.clock_core_mhz is None
    &&& s.clock_mem_mhz is None
    &&& s.mem_bus_pct is None
    &&& s.driver is None
}

/// The reading of one accelerator class.
fn reading<F: Copy>(c: &AcceleratorFacts<F>, aarch64: bool, memsize: Option<u64>) -> (s: GpuStats<F>)
    ensures
        is_accelerator_reading(*c, aarch64, memsize, s),
{
    let unified = aarch64 || match decode_optional(&c.driver_class) {
        Some(class) => matches_at(&chars_of(class.as_str()), &chars_of("AGX"), 0),
        None => false,
    };
    let mut s: GpuStats<F> = GpuStats::default();
    s.name = decode_optional(&c.model);
    s.util_pct = c.util_pct;
    s.mem_total_bytes = if unified {
        memsize
    } else {
        None
    };
    s.mem_used_bytes = credible_use(c.mem_used_bytes, s.mem_total_bytes);
    s.unified = unified;
    s
}

/// The reading of the first accelerator class that tells any counter.
///
/// `aarch64` tells whether the machine has one of Apple's own processors, `memsize` is the memory
/// of the machine.
pub fn query<F: Copy>(
    classes: &Vec<AcceleratorFacts<F>>,
    aarch64: bool,
    memsize: Option<u64>,
) -> (r: Option<GpuStats<F>>)
    ensures
        match r {
            Some(s) => exists|k: int|
                0 <= k < classes@.len() && answers(#[trigger] classes@[k], aarch64, memsize)
                    && is_accelerator_reading(classes@[k], aarch64, memsize, s) && forall|j: int|
                    0 <= j < k ==> !answers(#[trigger] classes@[j], aarch64, memsize),
            None => forall|j: int|
                0 <= j < classes@.len() ==> !answers(#[trigger] classes@[j], aarch64, memsize),
        },
        r matches Some(s) ==> s.memory_fits(),
{
    let mut i: usize = 0;
    while i < classes.len()
        invariant
            i <= classes@.len(),
            forall|j: int| 0 <= j < i ==> !answers(#[trigger] classes@[j], aarch64, memsize),
        decreases classes@.len() - i,
    {
        if classes[i].has_statistics {
            let s = reading(&classes[i], aarch64, memsize);
            if !s.is_empty() {
                assert(answers(classes@[i as int], aarch64, memsize));
                return Some(s);
            }
        }
        i = i + 1;
    }
    None
}

/// What an accelerator's reading says: its model's name, the utilisation and the used bytes that it
/// told, the latter unless they exceed the memory of the machine where it shares that. It shares
/// the memory on Apple's own processors, and wherever its driver's class begins with `AGX`.
pub proof fn law_accelerator_readings<F>(
    c: AcceleratorFacts<F>,
    aarch64: bool,
    memsize: Option<u64>,
    s: GpuStats<F>,
)
    requires
        is_accelerator_reading(c, aarch64, memsize, s),
    ensures
        s.name is Some <==> optional_text(c.model) is Some,
        s.name is Some ==> s.name->0@ == optional_text(c.model)->0,
        s.util_pct == c.util_pct,
        s.unified <==> aarch64 || (optional_text(c.driver_class) matches Some(t) && t.len() >= 3
            && t[0] == 'A' && t[1] == 'G' && t[2] == 'X'),
        s.unified ==> s.mem_total_bytes == memsize,
        !s.unified ==> s.mem_total_bytes is None,
        s.mem_used_bytes is Some ==> s.mem_used_bytes == c.mem_used_bytes,
        c.mem_used_bytes matches Some(u) ==> (s.mem_used_bytes is Some <==> (
        s.mem_total_bytes matches Some(t) ==> u <= t)),
        answers(c, aarch64, memsize) <==> c.has_statistics && (s.util_pct is Some
            || s.mem_used_bytes is Some),
        s.temp_c is None,
        s.power_mw is None,
        s.power_limit_mw is None,
        s.fan_pct is None,
        s.clock_core_mhz is None,
        s.clock_mem_mhz is None,
        s.mem_bus_pct is None,
        s.driver is None,
{
    reveal_strlit("AGX");
    if let Some(t) = optional_text(c.driver_class) {
        law_standing(t, "AGX"@, 0);
        if t.len() >= 3 && t[0] == 'A' && t[1] == 'G' && t[2] == 'X' {
            assert forall|k: int| 0 <= k < "AGX"@.len() implies t[0 + k] == #[trigger] "AGX"@[k] by {
            }
            assert(stands_at(t, "AGX"@, 0));
        }
        if stands_at(t, "AGX"@, 0) {
            assert(t[0int + 0] == "AGX"@[0]);
            assert(t[0int + 1] == "AGX"@[1]);
            assert(t[0int + 2] == "AGX"@[2]);
        }
    }
}

/// A property's text is what its bytes before the first NUL encode, both of a string and of raw
/// data; bytes that are no UTF-8, raw data without bytes, and other properties have none.
pub proof fn law_property_texts(bytes: Vec<u8>, text: Seq<u8>, rest: Seq<u8>)
    requires
        forall|i: int| 0 <= i < text.len() ==> text[i] != 0,
        bytes@ == text || bytes@ == text + seq![0u8] + rest,
    ensures
        valid_utf8(text) ==> property_text(Property::Text(Some(bytes))) == Some(decode_utf8(text)),
        valid_utf8(text) && bytes@.len() > 0 ==> property_text(Property::Data(bytes)) == Some(
            decode_utf8(text),
        ),
        !valid_utf8(text) ==> property_text(Property::Text(Some(bytes))) is None,
        !valid_utf8(text) ==> property_text(Property::Data(bytes)) is None,
        bytes@.len() == 0 ==> property_text(Property::Data(bytes)) is None,
        property_text(Property::Text(None)) is None,
        property_text(Property::Other) is None,
        optional_text(None) is None,
        optional_text(Some(Property::Data(bytes))) == property_text(Property::Data(bytes)),
{
    law_terminator(text, 0u8, rest);
}

} // verus!
