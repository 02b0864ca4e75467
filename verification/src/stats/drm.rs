//! Linux GPU counters from DRM sysfs: what the attribute files say.
use crate::number::{
    decimal, law_decimal_reads_back, law_numbers_are_read_as_written, parse_u64, parsed,
    push_decimal,
};
use crate::stats::{credible, credible_use, GpuStats};
use crate::text::{
    before_first, first_line, is_white, law_trimming, take_first_line, trim, trimmed,
};
use vstd::prelude::*;

verus! {

/// Card index range to probe. Eight covers every realistic multi-GPU desktop.
pub const MAX_CARDS: u32 = 8;

/// The directory of a card's attributes.
pub open spec fn card_dir_text(index: u32) -> Seq<char> {
    "/sys/class/drm/card"@ + decimal(index as nat) + "/device"@
}

/// The directory of a card's attributes.
pub fn card_dir(index: u32) -> (r: String)
    ensures
        r@ == card_dir_text(index),
{
    let mut s = "/sys/class/drm/card".to_owned();
    push_decimal(&mut s, index as u64);
    s.append("/device");
    s
}

/// The attribute files of one card: their texts, where they could be read.
#[derive(Debug, Clone, PartialEq, Eq)]
pub struct CardFiles {
    /// `gpu_busy_percent`.
    pub gpu_busy_percent: Option<String>,
    /// `mem_info_vram_total`.
    pub mem_info_vram_total: Option<String>,
    /// `mem_info_vram_used`.
    pub mem_info_vram_used: Option<String>,
    /// `label`.
    pub label: Option<String>,
    /// `product_name`.
    pub product_name: Option<String>,
}

/// The number in an attribute file.
pub open spec fn file_number(text: Option<String>) -> Option<u64> {
    match text {
        Some(t) => parsed(trimmed(t@)),
        None => None,
    }
}

/// The number in an attribute file, none where it could not be read or holds no number.
pub fn read_u64(text: &Option<String>) -> (r: Option<u64>)
    ensures
        r == file_number(*text),
{
    match text {
        Some(t) => parse_u64(trim(t.as_str()).as_str()),
        None => None,
    }
}

/// The first line of an attribute file, where it says anything.
pub open spec fn file_line(text: Option<String>) -> Option<Seq<char>> {
    match text {
        Some(t) => if first_line(t@).len() > 0 {
            Some(first_line(t@))
        } else {
            None
        },
        None => None,
    }
}

/// The first line of an attribute file, none where it could not be read or says nothing.
pub fn read_line(text: &Option<String>) -> (r: Option<String>)
    ensures
        r is Some == file_line(*text) is Some,
        r is Some ==> Some(r->0@) == file_line(*text),
{
    match text {
        Some(t) => {
            let line = take_first_line(t.as_str());
            if line.as_str().is_empty() {
                None
            } else {
                Some(line)
            }
        },
        None => None,
    }
}

/// A percentage, at most a hundred.
pub open spec fn percentage(busy: Option<u64>) -> Option<u64> {
    match busy {
        Some(b) => Some(
            if b <= 100 {
                b
            } else {
                100
            },
        ),
        None => None,
    }
}

/// Does a card answer none of the three counters?
pub open spec fn is_silent(files: CardFiles) -> bool {
    file_number(files.gpu_busy_percent) is None && file_number(files.mem_info_vram_total) is None
        && file_number(files.mem_info_vram_used) is None
}

/// The name of a card: its label, else its product name.
pub open spec fn card_name(files: CardFiles) -> Option<Seq<char>> {
    if file_line(files.label) is Some {
        file_line(files.label)
    } else {
        file_line(files.product_name)
    }
}

/// Is this the reading of a card?
pub open spec fn is_card_reading(files: CardFiles, s: GpuStats<u64>) -> bool {
    &&& s.name is Some == card_name(files) is Some
    &&& s.name is Some ==> Some(s.name->0@) == card_name(files)
    &&& s.util_pct == percentage(file_number(files.gpu_busy_percent))
    &&& s.mem_used_bytes == credible(
        file_number(files.mem_info_vram_used),
        file_number(files.mem_info_vram_total),
    )
    &&& s.mem_total_bytes == file_number(files.mem_info_vram_total)
    &&& !s.unified
    &&& s.temp_c is None
    &&& s.power_mw is None
    &&& s.power_limit_mw is None
    &&& s.fan_pct is None
    &&& s.clock_core_mhz is None
    &&& s.clock_mem_mhz is None
    &&& s.mem_bus_pct is None
    &&& s.driver is None
}

/// The reading of one card, or none where it answers no counter: it is then not a GPU, or one
/// whose driver publishes nothing here.
pub fn card(files: &CardFiles) -> (r: Option<GpuStats<u64>>)
    ensures
        match r {
            Some(s) => !is_silent(*files) && is_card_reading(*files, s),
            None => is_silent(*files),
        },
        r matches Some(s) ==> s.memory_fits(),
{
    let busy = read_u64(&files.gpu_busy_percent);
    let util_pct = match busy {
        Some(b) => Some(
            if b <= 100 {
                b
            } else {
                100
            },
        ),
        None => None,
    };
    let mem_total_bytes = read_u64(&files.mem_info_vram_total);
    let mem_used_bytes = read_u64(&files.mem_info_vram_used);
    if util_pct.is_none() && mem_total_bytes.is_none() && mem_used_bytes.is_none() {
        return None;
    }
    let label = read_line(&files.label);
    let name = if label.is_some() {
        label
    } else {
        read_line(&files.product_name)
    };
    let mut s: GpuStats<u64> = GpuStats::default();
    s.name = name;
    s.util_pct = util_pct;
    s.mem_used_bytes = credible_use(mem_used_bytes, mem_total_bytes);
    s.mem_total_bytes = mem_total_bytes;
    Some(s)
}

/// The reading of the first card that answers, in index order.
pub fn query(cards: &Vec<CardFiles>) -> (r: Option<GpuStats<u64>>)
    ensures
        match r {
            Some(s) => exists|k: int|
                0 <= k < cards@.len() && !is_silent(#[trigger] cards@[k]) && is_card_reading(
                    cards@[k],
                    s,
                ) && forall|j: int| 0 <= j < k ==> is_silent(#[trigger] cards@[j]),
            None => forall|j: int| 0 <= j < cards@.len() ==> is_silent(#[trigger] cards@[j]),
        },
        r matches Some(s) ==> s.memory_fits(),
{
    let mut index: usize = 0;
    while index < cards.len()
        invariant
            index <= cards@.len(),
            forall|j: int| 0 <= j < index ==> is_silent(#[trigger] cards@[j]),
        decreases cards@.len() - index,
    {
        if let Some(s) = card(&cards[index]) {
            assert(!is_silent(cards@[index as int]));
            return Some(s);
        }
        index = index + 1;
    }
    None
}

/// Utilisation stays within zero and a hundred percent, and no more memory is in use than there is.
pub proof fn law_readings_in_range(files: CardFiles, s: GpuStats<u64>)
    requires
        is_card_reading(files, s),
    ensures
        s.util_pct matches Some(u) ==> u <= 100,
        s.memory_fits(),
{
}

/// What a card's reading says: the label, or the product name where there is no label; the busy
/// percentage, at most a hundred; the total that its file tells; and the used bytes that their file
/// tells, unless they exceed a total that is told. A card is read when any of the three counters is
/// told.
pub proof fn law_card_readings(files: CardFiles, s: GpuStats<u64>)
    requires
        is_card_reading(files, s),
    ensures
        is_silent(files) <==> file_number(files.gpu_busy_percent) is None && file_number(
            files.mem_info_vram_total,
        ) is None && file_number(files.mem_info_vram_used) is None,
        file_line(files.label) is Some ==> s.name is Some && s.name->0@ == file_line(
            files.label,
        )->0,
        file_line(files.label) is None && file_line(files.product_name) is Some ==> s.name is Some
            && s.name->0@ == file_line(files.product_name)->0,
        file_line(files.label) is None && file_line(files.product_name) is None ==> s.name is None,
        file_number(files.gpu_busy_percent) is None ==> s.util_pct is None,
        file_number(files.gpu_busy_percent) matches Some(p) ==> s.util_pct == Some(
            if p < 100 {
                p
            } else {
                100
            },
        ),
        s.mem_total_bytes == file_number(files.mem_info_vram_total),
        s.mem_used_bytes is Some ==> s.mem_used_bytes == file_number(files.mem_info_vram_used),
        file_number(files.mem_info_vram_used) matches Some(u) ==> (s.mem_used_bytes is Some <==> (
        file_number(files.mem_info_vram_total) matches Some(t) ==> u <= t)),
        !s.unified,
        s.temp_c is None,
        s.power_mw is None,
        s.power_limit_mw is None,
        s.fan_pct is None,
        s.clock_core_mhz is None,
        s.clock_mem_mhz is None,
        s.mem_bus_pct is None,
        s.driver is None,
{
}

/// An attribute file tells the number that it holds, whatever white space stands around it, and
/// the first of its lines. A file that could not be read tells nothing.
pub proof fn law_attribute_files(text: String, before: Seq<char>, n: u64, after: Seq<char>)
    requires
        forall|i: int| 0 <= i < before.len() ==> is_white(#[trigger] before[i]),
        forall|i: int| 0 <= i < after.len() ==> is_white(#[trigger] after[i]),
        text@ == before + decimal(n as nat) + after,
    ensures
        file_number(Some(text)) == Some(n),
        file_number(None) is None,
        file_line(None) is None,
        file_line(Some(text)) is Some ==> file_line(Some(text)) == Some(
            trimmed(before_first(text@, '\n')),
        ),
        file_line(Some(text)) is None <==> trimmed(before_first(text@, '\n')).len() == 0,
{
    let d = decimal(n as nat);
    law_decimal_reads_back(n as nat);
    law_numbers_are_read_as_written(n as nat, d, 0);
    assert('0' <= d[0] <= '9' && '0' <= d[d.len() - 1] <= '9');
    law_trimming(before, d, after);
}

/// A card's attributes lie below its number.
pub proof fn law_card_paths(index: u32)
    ensures
        card_dir_text(index) == "/sys/class/drm/card"@ + decimal(index as nat) + "/device"@,
{
}

/// A file that holds anything but a number, apart from white space around it, tells none.
pub proof fn law_other_files_tell_no_number(text: String, i: int)
    requires
        0 <= i < trimmed(text@).len(),
        !('0' <= trimmed(text@)[i] <= '9'),
        !(i == 0 && trimmed(text@)[0] == '+'),
    ensures
        file_number(Some(text)) is None,
{
    law_numbers_are_read_as_written(0, trimmed(text@), i);
}

/// An attribute file tells its first line, without white space around it, unless that is empty.
pub proof fn law_attribute_lines(text: String)
    ensures
        file_line(Some(text)) is Some <==> trimmed(before_first(text@, '\n')).len() > 0,
        file_line(Some(text)) is Some ==> file_line(Some(text))->0 == trimmed(
            before_first(text@, '\n'),
        ),
{
}

} // verus!
