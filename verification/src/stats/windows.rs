//! Windows GPU counters: which adapter is reported, which counter instances belong to it, and
//! what the reading says.
//!
//! The adapter's identity and size come from DXGI, the live counters from PDH. One `GPU Engine`
//! instance exists per process per engine. Separate engines run concurrently, so instances are
//! summed within an engine type and the busiest type wins. Instances are filtered by adapter, or
//! a laptop's two GPUs would be averaged into one meaningless figure.
use crate::number::{hex, lemma_hex_injective, lemma_hex_len, push_hex};
use crate::stats::{credible, credible_use, GpuStats};
use crate::text::{
    before_first, contains, law_terminator, occurs_in, same_text, second_piece, stands_at,
    take_second_piece, trim, trimmed,
};
use crate::vram::ADAPTER_FLAG_SOFTWARE;
use crate::wide::{decode_wide, utf16_text, utf16_well_formed, wide_text};
use vstd::prelude::*;

verus! {

// ---------------------------------------------------------------------------
// DXGI: which GPU, and how big
// ---------------------------------------------------------------------------

/// The identity of an adapter for as long as the system runs.
#[derive(Debug, Clone, Copy, PartialEq, Eq, Structural)]
pub struct Luid {
    /// The low word.
    pub low: u32,
    /// The high word.
    pub high: i32,
}

/// What DXGI says of one adapter.
#[derive(Debug, Clone, PartialEq, Eq)]
pub struct AdapterDesc {
    /// Did the adapter describe itself?
    pub described: bool,
    /// The flags of the description.
    pub flags: u32,
    /// The PCI vendor id.
    pub vendor: u32,
    /// Bytes of its own video memory.
    pub dedicated: u64,
    /// Bytes of system memory that it may address.
    pub shared: u64,
    /// The name, padded with NULs.
    pub description: [u16; 128],
    /// Its identity.
    pub luid: Luid,
}

/// The adapter that is reported.
#[derive(Debug, Clone, PartialEq, Eq)]
pub struct Adapter {
    /// The name.
    pub name: String,
    /// The PCI vendor id.
    pub vendor: u32,
    /// The denominator for a memory bar: own video memory on a discrete card, the system memory
    /// the adapter may address on an integrated one.
    pub total_bytes: u64,
    /// System memory the adapter may address in addition to its own.
    pub shared_bytes: u64,
    /// No video memory of its own: an integrated part sharing system memory.
    pub unified: bool,
    /// The fragment that counter instance names of this adapter carry.
    pub luid_tag: String,
}

/// The text of a description.
pub open spec fn description_text(raw: Seq<u16>) -> Seq<char> {
    trimmed(utf16_text(before_first(raw, 0)))
}

/// A description is a fixed buffer padded with NULs.
pub fn describe(raw: &[u16; 128]) -> (r: String)
    ensures
        r@ == description_text(raw@),
{
    trim(wide_text(raw.as_slice()).as_str())
}

/// An identity as counter instance names spell it: high word first, both unsigned.
pub open spec fn luid_text(luid: Luid) -> Seq<char> {
    "luid_0x"@ + hex(luid.high as u32 as nat, 8, true) + "_0x"@ + hex(luid.low as nat, 8, true)
}

/// An identity as counter instance names spell it: high word first, both unsigned.
pub fn luid_tag(luid: Luid) -> (r: String)
    ensures
        r@ == luid_text(luid),
{
    let mut s = "luid_0x".to_owned();
    push_hex(
        &mut s,
        #[verifier::truncate]
        (luid.high as u32),
        8,
        true,
    );
    s.append("_0x");
    push_hex(&mut s, luid.low, 8, true);
    s
}

/// Two adapters never share a tag.
pub proof fn law_luid_tags_differ(a: Luid, b: Luid)
    ensures
        luid_text(a) == luid_text(b) ==> a == b,
{
    if luid_text(a) == luid_text(b) {
        let ah = a.high as u32;
        let bh = b.high as u32;
        let al = a.low;
        let bl = b.low;
        lemma_hex_len(ah as nat, 8, true);
        lemma_hex_len(bh as nat, 8, true);
        lemma_hex_len(al as nat, 8, true);
        lemma_hex_len(bl as nat, 8, true);
        reveal_strlit("luid_0x");
        reveal_strlit("_0x");
        let ta = luid_text(a);
        let tb = luid_text(b);
        assert(hex(ah as nat, 8, true) =~= ta.subrange(7, 15));
        assert(hex(bh as nat, 8, true) =~= tb.subrange(7, 15));
        assert(hex(al as nat, 8, true) =~= ta.subrange(18, 26));
        assert(hex(bl as nat, 8, true) =~= tb.subrange(18, 26));
        assert(vstd::arithmetic::power::pow(16, 8) == 0x1_0000_0000) by {
            reveal_with_fuel(vstd::arithmetic::power::pow, 9);
        }
        lemma_hex_injective(ah as nat, bh as nat, 8, true);
        lemma_hex_injective(al as nat, bl as nat, 8, true);
        let x = a.high;
        let y = b.high;
        assert(x as u32 == y as u32 ==> x == y) by (bit_vector);
    }
}

/// Is this a described adapter that is no software renderer?
pub open spec fn is_hardware(d: AdapterDesc) -> bool {
    d.described && d.flags & ADAPTER_FLAG_SOFTWARE == 0
}

/// Is `found` the hardware adapter with the most memory of its own among the first `n`, the first
/// of equals? Where none has any, it is the last hardware adapter.
pub open spec fn is_adapter_choice(descs: Seq<AdapterDesc>, n: int, found: Option<usize>) -> bool {
    match found {
        Some(b) => {
            &&& b < n
            &&& is_hardware(descs[b as int])
            &&& forall|i: int|
                0 <= i < n && is_hardware(#[trigger] descs[i]) ==> descs[i].dedicated
                    <= descs[b as int].dedicated
            &&& if descs[b as int].dedicated > 0 {
                forall|i: int|
                    0 <= i < b && is_hardware(#[trigger] descs[i]) ==> descs[i].dedicated
                        < descs[b as int].dedicated
            } else {
                forall|i: int| b < i < n ==> !is_hardware(#[trigger] descs[i])
            }
        },
        None => forall|i: int| 0 <= i < n ==> !is_hardware(#[trigger] descs[i]),
    }
}

/// The hardware adapter that is reported, if any.
fn choose_adapter(descs: &Vec<AdapterDesc>) -> (r: Option<usize>)
    ensures
        is_adapter_choice(descs@, descs@.len() as int, r),
{
    let mut best: Option<usize> = None;
    let mut index: usize = 0;
    while index < descs.len()
        invariant
            index <= descs@.len(),
            is_adapter_choice(descs@, index as int, best),
        decreases descs@.len() - index,
    {
        let d = &descs[index];
        if d.described && d.flags & ADAPTER_FLAG_SOFTWARE == 0 {
            let keep = match best {
                Some(b) => descs[b].dedicated > 0 && descs[b].dedicated >= d.dedicated,
                None => false,
            };
            if !keep {
                best = Some(index);
            }
        }
        index = index + 1;
    }
    best
}

/// Is `a` what is reported of an adapter?
pub open spec fn is_adapter_of(d: AdapterDesc, a: Adapter) -> bool {
    &&& a.name@ == description_text(d.description@)
    &&& a.vendor == d.vendor
    &&& a.unified == (d.dedicated == 0)
    &&& a.total_bytes == if d.dedicated == 0 {
        d.shared
    } else {
        d.dedicated
    }
    &&& a.shared_bytes == d.shared
    &&& a.luid_tag@ == luid_text(d.luid)
}

impl Adapter {
    /// Picks the hardware adapter with the most dedicated memory.
    ///
    /// Enumeration order is not preference order: the first is frequently the integrated GPU on a
    /// laptop that also has a discrete one. An integrated GPU has no memory of its own, so its
    /// honest denominator is the system memory it may address.
    pub fn open(descs: &Vec<AdapterDesc>) -> (r: Option<Self>)
        ensures
            match r {
                Some(a) => exists|b: usize| #[trigger]
                    is_adapter_choice(descs@, descs@.len() as int, Some(b)) && is_adapter_of(
                        descs@[b as int],
                        a,
                    ),
                None => is_adapter_choice(descs@, descs@.len() as int, None),
            },
    {
        match choose_adapter(descs) {
            Some(b) => {
                let d = &descs[b];
                let unified = d.dedicated == 0;
                let a = Adapter {
                    name: describe(&d.description),
                    vendor: d.vendor,
                    total_bytes: if unified {
                        d.shared
                    } else {
                        d.dedicated
                    },
                    shared_bytes: d.shared,
                    unified,
                    luid_tag: luid_tag(d.luid),
                };
                assert(is_adapter_choice(descs@, descs@.len() as int, Some(b)));
                Some(a)
            },
            None => None,
        }
    }
}

/// Only one adapter is the choice, so what is reported is determined; no software renderer is
/// reported, and no adapter with less memory of its own than another.
pub proof fn law_adapter_choice(descs: Seq<AdapterDesc>, a: Option<usize>, b: Option<usize>)
    requires
        is_adapter_choice(descs, descs.len() as int, a),
        is_adapter_choice(descs, descs.len() as int, b),
    ensures
        a == b,
        a matches Some(i) ==> descs[i as int].flags & ADAPTER_FLAG_SOFTWARE == 0,
        a matches Some(i) ==> forall|j: int|
            0 <= j < descs.len() && is_hardware(#[trigger] descs[j]) ==> descs[j].dedicated
                <= descs[i as int].dedicated,
{
    if let (Some(i), Some(j)) = (a, b) {
        assert(is_hardware(descs[i as int]) && is_hardware(descs[j as int]));
    } else if let Some(i) = a {
        assert(is_hardware(descs[i as int]));
    } else if let Some(j) = b {
        assert(is_hardware(descs[j as int]));
    }
}

// ---------------------------------------------------------------------------
// PDH: counter arrays
// ---------------------------------------------------------------------------

/// PDH success.
pub const PDH_OK: u32 = 0;

/// PDH wants a larger buffer.
pub const PDH_MORE_DATA: u32 = 0x800007d2;

/// What to do after PDH was asked to fill the buffer.
#[derive(Debug, Clone, Copy, PartialEq, Eq, Structural)]
pub enum FormatStep {
    /// That many items were written.
    Filled(u32),
    /// Grow the buffer to that many bytes and ask once more.
    Grow(u32),
    /// There is nothing to read.
    Nothing,
}

/// What to do after attempt number `attempt` ended with `status`, having written `count` items or
/// asked for `size` bytes.
///
/// Success without items means that nothing has run on any engine since the last poll: a real
/// zero, but there is nothing to sum, so the caller keeps its previous value.
pub fn format_step(attempt: u32, status: u32, count: u32, size: u32) -> (r: FormatStep)
    ensures
        r == if status == PDH_OK && count > 0 {
            FormatStep::Filled(count)
        } else if status == PDH_MORE_DATA && attempt == 0 {
            FormatStep::Grow(size)
        } else {
            FormatStep::Nothing
        },
{
    if status == PDH_OK {
        if count > 0 {
            FormatStep::Filled(count)
        } else {
            FormatStep::Nothing
        }
    } else if status == PDH_MORE_DATA && attempt == 0 {
        FormatStep::Grow(size)
    } else {
        FormatStep::Nothing
    }
}

/// The memory counters.
#[derive(Debug, Clone, Copy, PartialEq, Eq, Structural)]
pub enum MemoryCounter {
    /// On-card memory in use: flat zero on an integrated GPU.
    Dedicated,
    /// System memory in use: the only one an integrated GPU populates.
    Shared,
}

/// Which memory counter is the real one for an adapter.
pub fn memory_counter(unified: bool) -> (r: MemoryCounter)
    ensures
        r == if unified {
            MemoryCounter::Shared
        } else {
            MemoryCounter::Dedicated
        },
{
    if unified {
        MemoryCounter::Shared
    } else {
        MemoryCounter::Dedicated
    }
}

/// One instance of a counter.
#[derive(Debug, Clone, PartialEq, Eq)]
pub struct CounterItem {
    /// The instance name, up to its NUL.
    pub name: Vec<u16>,
    /// Is its value a number?
    pub finite: bool,
}

/// The name of an instance, where it can be decoded.
pub open spec fn item_name(item: CounterItem) -> Option<Seq<char>> {
    if utf16_well_formed(before_first(item.name@, 0)) {
        Some(utf16_text(before_first(item.name@, 0)))
    } else {
        None
    }
}

/// Does an instance count for the adapter tagged `luid`?
pub open spec fn is_counted(item: CounterItem, luid: Seq<char>) -> bool {
    item.finite && item_name(item) is Some && occurs_in(item_name(item)->0, luid)
}

/// The name of an instance, where it counts for the adapter tagged `luid`.
fn counted_name(item: &CounterItem, luid: &str) -> (r: Option<String>)
    ensures
        r is Some == is_counted(*item, luid@),
        r is Some ==> Some(r->0@) == item_name(*item),
{
    let decoded = decode_wide(item.name.as_slice());
    if decoded.well_formed && contains(decoded.text.as_str(), luid) && item.finite {
        Some(decoded.text)
    } else {
        None
    }
}

/// The positions among the first `n` items of those that count for the adapter tagged `luid`.
pub open spec fn counted_items(items: Seq<CounterItem>, luid: Seq<char>, n: nat) -> Seq<usize>
    decreases n,
{
    if n == 0 {
        seq![]
    } else if is_counted(items[n - 1], luid) {
        counted_items(items, luid, (n - 1) as nat).push((n - 1) as usize)
    } else {
        counted_items(items, luid, (n - 1) as nat)
    }
}

/// The positions of the instances whose values add up to the memory in use on the adapter tagged
/// `luid`, across every process.
pub fn memory_used(items: &Vec<CounterItem>, luid: &str) -> (r: Vec<usize>)
    ensures
        r@ == counted_items(items@, luid@, items@.len()),
{
    let mut r: Vec<usize> = Vec::new();
    let mut i: usize = 0;
    while i < items.len()
        invariant
            i <= items@.len(),
            r@ == counted_items(items@, luid@, i as nat),
        decreases items@.len() - i,
    {
        if counted_name(&items[i], luid).is_some() {
            r.push(i);
        }
        i = i + 1;
    }
    r
}

// ---------------------------------------------------------------------------
// Engine types
// ---------------------------------------------------------------------------

/// The known engine types.
pub open spec fn known_engines() -> Seq<Seq<char>> {
    seq![
        "3D"@,
        "Copy"@,
        "Compute"@,
        "VideoDecode"@,
        "VideoEncode"@,
        "VideoProcessing"@,
        "Security"@,
        "Graphics_1"@,
    ]
}

/// The bucket of an engine type: a known one has its own, all others share one.
pub open spec fn engine_label(name: Seq<char>) -> Seq<char> {
    if known_engines().contains(name) {
        name
    } else {
        "other"@
    }
}

/// The bucket of an engine type: a known one has its own, all others share one, so that a future
/// engine name does not vanish from the total.
pub fn engine_type(name: &str) -> (r: &'static str)
    ensures
        r@ == engine_label(name@),
{
    let known: [&'static str; 8] = [
        "3D",
        "Copy",
        "Compute",
        "VideoDecode",
        "VideoEncode",
        "VideoProcessing",
        "Security",
        "Graphics_1",
    ];
    let ghost all = known_engines();
    let mut i: usize = 0;
    while i < 8
        invariant
            i <= 8,
            all == known_engines(),
            known@.len() == 8,
            forall|k: int| 0 <= k < 8 ==> (#[trigger] known@[k])@ == all[k],
            forall|k: int| 0 <= k < i ==> all[k] != name@,
        decreases 8 - i,
    {
        if same_text(known[i], name) {
            assert(all[i as int] == name@);
            return known[i];
        }
        i = i + 1;
    }
    "other"
}

/// The instances of one engine type.
#[derive(Debug, Clone, PartialEq, Eq)]
pub struct EngineGroup {
    /// The engine type.
    pub engine: &'static str,
    /// The positions of its instances.
    pub items: Vec<usize>,
}

/// What an [`EngineGroup`] holds.
pub type GroupView = (Seq<char>, Seq<usize>);

/// What a list of groups holds.
pub open spec fn groups_view(groups: Seq<EngineGroup>) -> Seq<GroupView> {
    Seq::new(groups.len(), |i: int| (groups[i].engine@, groups[i].items@))
}

/// The engine type that an instance counts for on the adapter tagged `luid`, if any.
pub open spec fn item_engine(item: CounterItem, luid: Seq<char>) -> Option<Seq<char>> {
    if is_counted(item, luid) {
        match second_piece(item_name(item)->0, "engtype_"@) {
            Some(engine) => Some(engine_label(engine)),
            None => None,
        }
    } else {
        None
    }
}

/// The first group of an engine type, or the number of groups where there is none.
pub open spec fn group_index(groups: Seq<GroupView>, engine: Seq<char>) -> int
    decreases groups.len(),
{
    if groups.len() == 0 || groups[0].0 == engine {
        0
    } else {
        1 + group_index(groups.subrange(1, groups.len() as int), engine)
    }
}

proof fn lemma_group_index(groups: Seq<GroupView>, engine: Seq<char>)
    ensures
        0 <= group_index(groups, engine) <= groups.len(),
        group_index(groups, engine) < groups.len() ==> groups[group_index(groups, engine)].0
            == engine,
        forall|j: int| 0 <= j < group_index(groups, engine) ==> (#[trigger] groups[j]).0 != engine,
    decreases groups.len(),
{
    if groups.len() > 0 && groups[0].0 != engine {
        let rest = groups.subrange(1, groups.len() as int);
        lemma_group_index(rest, engine);
        assert forall|j: int| 0 <= j < group_index(groups, engine) implies (
        #[trigger] groups[j]).0 != engine by {
            if j > 0 {
                assert(rest[j - 1] == groups[j]);
            }
        }
    }
}

/// The groups with item `i` in that of its engine type.
pub open spec fn with_item(groups: Seq<GroupView>, engine: Seq<char>, i: usize) -> Seq<GroupView> {
    let g = group_index(groups, engine);
    if g == groups.len() {
        groups.push((engine, seq![i]))
    } else {
        groups.update(g, (groups[g].0, groups[g].1.push(i)))
    }
}

/// The first `n` items in groups by engine type, in order of first appearance.
pub open spec fn grouped(items: Seq<CounterItem>, luid: Seq<char>, n: nat) -> Seq<GroupView>
    decreases n,
{
    if n == 0 {
        seq![]
    } else {
        let groups = grouped(items, luid, (n - 1) as nat);
        match item_engine(items[n - 1], luid) {
            Some(engine) => with_item(groups, engine, (n - 1) as usize),
            None => groups,
        }
    }
}

/// Puts item `i` into the group of its engine type.
fn add_item(groups: &mut Vec<EngineGroup>, engine: &'static str, i: usize)
    ensures
        groups_view(final(groups)@) == with_item(groups_view(old(groups)@), engine@, i),
{
    let ghost before = groups_view(groups@);
    let ghost at = group_index(before, engine@);
    proof {
        lemma_group_index(before, engine@);
    }
    let mut g: usize = 0;
    while g < groups.len() && !same_text(groups[g].engine, engine)
        invariant
            g <= at <= groups@.len(),
            groups@ == old(groups)@,
            before == groups_view(groups@),
            at == group_index(before, engine@),
            at < before.len() ==> before[at].0 == engine@,
            forall|j: int| 0 <= j < at ==> (#[trigger] before[j]).0 != engine@,
        decreases groups@.len() - g,
    {
        assert(before[g as int].0 == groups@[g as int].engine@);
        g = g + 1;
    }
    if g < groups.len() {
        assert(before[g as int].0 == groups@[g as int].engine@);
        let mut group = groups.remove(g);
        group.items.push(i);
        groups.insert(g, group);
        assert(groups_view(groups@) =~= with_item(before, engine@, i));
    } else {
        let items: Vec<usize> = vec![i];
        assert(items@ =~= seq![i]);
        groups.push(EngineGroup { engine, items });
        assert(groups_view(groups@) =~= with_item(before, engine@, i));
    }
}

/// The instances that count for the adapter tagged `luid`, in groups by engine type. Utilisation
/// is the largest of the groups' sums.
pub fn engine_groups(items: &Vec<CounterItem>, luid: &str) -> (r: Vec<EngineGroup>)
    ensures
        groups_view(r@) == grouped(items@, luid@, items@.len()),
{
    let mut r: Vec<EngineGroup> = Vec::new();
    assert(groups_view(r@) =~= seq![]);
    proof {
        reveal_strlit("engtype_");
    }
    let mut i: usize = 0;
    while i < items.len()
        invariant
            i <= items@.len(),
            "engtype_"@.len() > 0,
            groups_view(r@) == grouped(items@, luid@, i as nat),
        decreases items@.len() - i,
    {
        if let Some(name) = counted_name(&items[i], luid) {
            if let Some(engine) = take_second_piece(name.as_str(), "engtype_") {
                add_item(&mut r, engine_type(engine.as_str()), i);
            }
        }
        i = i + 1;
    }
    r
}

/// Does the group hold item `i`?
pub open spec fn holds_item(group: GroupView, i: int) -> bool {
    exists|k: int| 0 <= k < group.1.len() && #[trigger] group.1[k] == i
}

/// Every instance that counts is in exactly one group, that of its engine type; nothing else is
/// in any group; and no engine type has two groups.
pub proof fn law_groups_partition_the_instances(
    items: Seq<CounterItem>,
    luid: Seq<char>,
    n: nat,
)
    requires
        n <= items.len() <= usize::MAX,
    ensures
        forall|a: int, b: int|
            0 <= a < b < grouped(items, luid, n).len() ==> (#[trigger] grouped(items, luid, n)[a]).0
                != (#[trigger] grouped(items, luid, n)[b]).0,
        forall|g: int, i: int|
            0 <= g < grouped(items, luid, n).len() ==> (#[trigger] holds_item(
                grouped(items, luid, n)[g],
                i,
            ) <==> 0 <= i < n && item_engine(items[i], luid) == Some(
                grouped(items, luid, n)[g].0,
            )),
        forall|i: int|
            0 <= i < n && #[trigger] item_engine(items[i], luid) is Some ==> group_index(
                grouped(items, luid, n),
                item_engine(items[i], luid)->0,
            ) < grouped(items, luid, n).len(),
    decreases n,
{
    if n > 0 {
        let m = (n - 1) as nat;
        law_groups_partition_the_instances(items, luid, m);
        let before = grouped(items, luid, m);
        let after = grouped(items, luid, n);
        match item_engine(items[m as int], luid) {
            None => {},
            Some(engine) => {
                lemma_group_index(before, engine);
                let at = group_index(before, engine);
                assert forall|g: int, i: int| 0 <= g < after.len() implies (#[trigger] holds_item(
                    after[g],
                    i,
                ) <==> 0 <= i < n && item_engine(items[i], luid) == Some(after[g].0)) by {
                    if g == at {
                        if g < before.len() {
                            let old_items = before[g].1;
                            assert(after[g].1 == old_items.push(m as usize));
                            assert(after[g].1[old_items.len() as int] == m);
                            if holds_item(before[g], i) {
                                let k = choose|k: int|
                                    0 <= k < old_items.len() && #[trigger] old_items[k] == i;
                                assert(after[g].1[k] == i);
                            }
                            if holds_item(after[g], i) && i != m {
                                let k = choose|k: int|
                                    0 <= k < after[g].1.len() && #[trigger] after[g].1[k] == i;
                                assert(old_items[k] == i);
                            }
                        } else {
                            assert(after[g].1[0] == m);
                            if 0 <= i < m && item_engine(items[i], luid) == Some(engine) {
                                assert(group_index(before, engine) < before.len());
                            }
                        }
                    } else {
                        assert(after[g] == before[g]);
                        assert(holds_item(before[g], i) <==> 0 <= i < m && item_engine(
                            items[i],
                            luid,
                        ) == Some(before[g].0));
                        if i == m {
                            lemma_group_index(before, engine);
                            if before[g].0 == engine {
                                assert(at < before.len());
                                if at < g {
                                    assert(before[at].0 != before[g].0);
                                } else {
                                    assert(before[g].0 != engine);
                                }
                            }
                        }
                    }
                }
                assert forall|a: int, b: int| 0 <= a < b < after.len() implies (
                #[trigger] after[a]).0 != (#[trigger] after[b]).0 by {
                    if b < before.len() {
                        assert(before[a].0 != before[b].0);
                    }
                }
                assert forall|i: int|
                    0 <= i < n && #[trigger] item_engine(items[i], luid) is Some implies group_index(
                    after,
                    item_engine(items[i], luid)->0,
                ) < after.len() by {
                    let e = item_engine(items[i], luid)->0;
                    lemma_group_index(after, e);
                    if i == m {
                        assert(after[at].0 == e);
                    } else {
                        lemma_group_index(before, e);
                        let k = group_index(before, e);
                        assert(after[k].0 == e);
                    }
                }
            },
        }
    }
}

// ---------------------------------------------------------------------------
// Readings
// ---------------------------------------------------------------------------

/// The memory of an adapter, where it is known.
pub open spec fn total_of(adapter: Adapter) -> Option<u64> {
    if adapter.total_bytes > 0 {
        Some(adapter.total_bytes)
    } else {
        None
    }
}

/// The primary GPU's live counters, or none where no credible counter answered.
pub fn query<F: Copy>(adapter: &Adapter, util_pct: Option<F>, mem_used_bytes: Option<u64>) -> (r:
    Option<GpuStats<F>>)
    ensures
        match r {
            Some(s) => {
                &&& util_pct is Some || credible(mem_used_bytes, total_of(*adapter)) is Some
                &&& s.name is Some
                &&& s.name->0@ == adapter.name@
                &&& s.util_pct == util_pct
                &&& s.mem_used_bytes == credible(mem_used_bytes, total_of(*adapter))
                &&& s.mem_total_bytes == total_of(*adapter)
                &&& s.unified == adapter.unified
                &&& s.temp_c is None
                &&& s.power_mw is None
                &&& s.power_limit_mw is None
                &&& s.fan_pct is None
                &&& s.clock_core_mhz is None
                &&& s.clock_mem_mhz is None
                &&& s.mem_bus_pct is None
                &&& s.driver is None
            },
            None => util_pct is None && credible(mem_used_bytes, total_of(*adapter)) is None,
        },
        r matches Some(s) ==> s.memory_fits(),
{
    let mut s: GpuStats<F> = GpuStats::default();
    s.name = Some(adapter.name.clone());
    s.util_pct = util_pct;
    s.mem_total_bytes = if adapter.total_bytes > 0 {
        Some(adapter.total_bytes)
    } else {
        None
    };
    s.mem_used_bytes = credible_use(mem_used_bytes, s.mem_total_bytes);
    s.unified = adapter.unified;
    if s.is_empty() {
        None
    } else {
        Some(s)
    }
}

/// Adapter facts for a one-shot probe, in bytes.
#[derive(Debug, Clone, PartialEq, Eq)]
pub struct AdapterMemory {
    /// The name.
    pub name: String,
    /// Total memory.
    pub total: u64,
    /// System memory that the adapter may address.
    pub shared: u64,
    /// Memory in use, zero where it is unknown.
    pub used: u64,
    /// Does the adapter share system memory?
    pub unified: bool,
}

/// Adapter name and memory with no process spawn.
pub fn adapter_memory(adapter: &Adapter, used: Option<u64>) -> (r: AdapterMemory)
    ensures
        r.name@ == adapter.name@,
        r.total == adapter.total_bytes,
        r.shared == adapter.shared_bytes,
        r.used == if used is Some {
            used->0
        } else {
            0
        },
        r.unified == adapter.unified,
{
    AdapterMemory {
        name: adapter.name.clone(),
        total: adapter.total_bytes,
        shared: adapter.shared_bytes,
        used: match used {
            Some(u) => u,
            None => 0,
        },
        unified: adapter.unified,
    }
}

// ---------------------------------------------------------------------------
// Laws
// ---------------------------------------------------------------------------

/// What is reported of an adapter is what it says of itself; the memory of one that has none of its
/// own is the system memory it may address.
pub proof fn law_adapters_say_what_they_are(d: AdapterDesc, a: Adapter)
    requires
        is_adapter_of(d, a),
    ensures
        a.name@ == description_text(d.description@),
        a.vendor == d.vendor,
        a.shared_bytes == d.shared,
        d.dedicated > 0 ==> !a.unified && a.total_bytes == d.dedicated,
        d.dedicated == 0 ==> a.unified && a.total_bytes == d.shared,
        a.luid_tag@ == luid_text(d.luid),
        a.total_bytes > 0 ==> total_of(a) == Some(a.total_bytes),
        a.total_bytes == 0 ==> total_of(a) is None,
{
}

/// The adapter that is reported is a described one without the software flag, none such has more
/// memory of its own, and of those with as much it is the first; where none has any, it is the
/// last. There is none only where there is no such adapter.
pub proof fn law_the_adapter_with_most_memory(
    descs: Seq<AdapterDesc>,
    found: Option<usize>,
    j: int,
)
    requires
        is_adapter_choice(descs, descs.len() as int, found),
        0 <= j < descs.len(),
        descs[j].described,
        descs[j].flags & 2 == 0,
    ensures
        found matches Some(b) && b < descs.len() && descs[b as int].described && descs[b as int].flags
            & 2 == 0 && descs[j].dedicated <= descs[b as int].dedicated && (descs[j].dedicated
            == descs[b as int].dedicated && descs[j].dedicated > 0 ==> b <= j) && (
        descs[b as int].dedicated == 0 ==> j <= b),
{
    assert(is_hardware(descs[j]));
}

/// A description is the text before its first NUL, without white space around it.
pub proof fn law_descriptions(raw: Seq<u16>, text: Seq<u16>, rest: Seq<u16>)
    requires
        forall|i: int| 0 <= i < text.len() ==> text[i] != 0,
        raw == text + seq![0u16] + rest,
    ensures
        description_text(raw) == trimmed(utf16_text(text)),
{
    law_terminator(text, 0u16, rest);
}

/// A tag is the word `luid`, the eight hexadecimal digits of the high word, and those of the low
/// word.
pub proof fn law_luid_tags(luid: Luid)
    ensures
        luid_text(luid) == "luid_0x"@ + hex(luid.high as u32 as nat, 8, true) + "_0x"@ + hex(
            luid.low as nat,
            8,
            true,
        ),
        luid_text(luid).len() == 26,
{
    lemma_hex_len(luid.high as u32 as nat, 8, true);
    lemma_hex_len(luid.low as nat, 8, true);
    reveal_strlit("luid_0x");
    reveal_strlit("_0x");
}

/// An instance counts for an adapter when its value is a number, its name can be decoded, and the
/// name holds the adapter's tag.
pub proof fn law_counted_instances(item: CounterItem, luid: Seq<char>)
    ensures
        is_counted(item, luid) <==> item.finite && utf16_well_formed(before_first(item.name@, 0))
            && exists|i: int| stands_at(utf16_text(before_first(item.name@, 0)), luid, i),
{
}

/// The positions that are summed are those of the instances that count: all of them, each once, in
/// order, and no others.
pub proof fn law_summed_instances(items: Seq<CounterItem>, luid: Seq<char>, n: nat)
    requires
        n <= items.len() <= usize::MAX,
    ensures
        forall|i: int|
            0 <= i < n && is_counted(#[trigger] items[i], luid) ==> counted_items(
                items,
                luid,
                n,
            ).contains(i as usize),
        forall|k: int|
            0 <= k < counted_items(items, luid, n).len() ==> (#[trigger] counted_items(
                items,
                luid,
                n,
            )[k]) < n && is_counted(items[counted_items(items, luid, n)[k] as int], luid),
        forall|k: int, m: int|
            0 <= k < m < counted_items(items, luid, n).len() ==> (#[trigger] counted_items(
                items,
                luid,
                n,
            )[k]) < (#[trigger] counted_items(items, luid, n)[m]),
    decreases n,
{
    if n > 0 {
        let m = (n - 1) as nat;
        law_summed_instances(items, luid, m);
        let before = counted_items(items, luid, m);
        let after = counted_items(items, luid, n);
        assert forall|i: int| 0 <= i < n && is_counted(#[trigger] items[i], luid) implies
            after.contains(i as usize) by {
            if i < m {
                assert(before.contains(i as usize));
                let k = choose|k: int| 0 <= k < before.len() && before[k] == i as usize;
                assert(after[k] == i as usize);
            } else {
                assert(after[before.len() as int] == i as usize);
            }
        }
        assert forall|k: int| 0 <= k < after.len() implies (#[trigger] after[k]) < n && is_counted(
            items[after[k] as int],
            luid,
        ) by {
            if k < before.len() {
                assert(after[k] == before[k]);
            }
        }
        assert forall|k: int, l: int| 0 <= k < l < after.len() implies (#[trigger] after[k]) < (
        #[trigger] after[l]) by {
            assert(after[k] == before[k]);
            if l < before.len() {
                assert(after[l] == before[l]);
            }
        }
    }
}

/// The eight known engine types keep their names, and every other goes by one common name.
pub proof fn law_engine_types(name: Seq<char>)
    ensures
        name == "3D"@ || name == "Copy"@ || name == "Compute"@ || name == "VideoDecode"@ || name
            == "VideoEncode"@ || name == "VideoProcessing"@ || name == "Security"@ || name
            == "Graphics_1"@ ==> engine_label(name) == name,
        !(name == "3D"@ || name == "Copy"@ || name == "Compute"@ || name == "VideoDecode"@ || name
            == "VideoEncode"@ || name == "VideoProcessing"@ || name == "Security"@ || name
            == "Graphics_1"@) ==> engine_label(name) == "other"@,
{
    let all = known_engines();
    assert(all[0] == "3D"@ && all[1] == "Copy"@ && all[2] == "Compute"@ && all[3] == "VideoDecode"@);
    assert(all[4] == "VideoEncode"@ && all[5] == "VideoProcessing"@ && all[6] == "Security"@
        && all[7] == "Graphics_1"@);
}

/// The engine of an instance that counts is the piece of its name behind `engtype_`; without that
/// word in its name, and where it does not count, it has none.
pub proof fn law_engines_of_instances(item: CounterItem, luid: Seq<char>)
    ensures
        !is_counted(item, luid) ==> item_engine(item, luid) is None,
        is_counted(item, luid) ==> item_engine(item, luid) == match second_piece(
            utf16_text(before_first(item.name@, 0)),
            "engtype_"@,
        ) {
            Some(engine) => Some(engine_label(engine)),
            None => None,
        },
{
}

/// A group has its instances in order, each once, and the groups stand in the order in which their
/// engine types first appear.
pub proof fn law_groups_are_in_order(items: Seq<CounterItem>, luid: Seq<char>, n: nat)
    requires
        n <= items.len() <= usize::MAX,
    ensures
        forall|g: int| 0 <= g < grouped(items, luid, n).len() ==> (#[trigger] grouped(
            items,
            luid,
            n,
        )[g]).1.len() > 0,
        forall|g: int, k: int|
            0 <= g < grouped(items, luid, n).len() && 0 <= k < grouped(items, luid, n)[g].1.len()
                ==> (#[trigger] grouped(items, luid, n)[g].1[k]) < n,
        forall|g: int, k: int, m: int|
            0 <= g < grouped(items, luid, n).len() && 0 <= k < m < grouped(items, luid, n)[g].1.len()
                ==> (#[trigger] grouped(items, luid, n)[g].1[k]) < (#[trigger] grouped(
                items,
                luid,
                n,
            )[g].1[m]),
        forall|g: int, h: int|
            0 <= g < h < grouped(items, luid, n).len() ==> (#[trigger] grouped(
                items,
                luid,
                n,
            )[g]).1[0] < (#[trigger] grouped(items, luid, n)[h]).1[0],
    decreases n,
{
    if n > 0 {
        let m = (n - 1) as nat;
        law_groups_are_in_order(items, luid, m);
        let before = grouped(items, luid, m);
        let after = grouped(items, luid, n);
        if let Some(engine) = item_engine(items[m as int], luid) {
            lemma_group_index(before, engine);
            let at = group_index(before, engine);
            assert forall|g: int| 0 <= g < after.len() implies (#[trigger] after[g]).1.len() > 0
                && (g < before.len() ==> after[g].1[0] == before[g].1[0] && before[g].1.len() > 0)
                && (g == before.len() ==> after[g].1[0] == m) by {
                if g < before.len() {
                    assert(before[g].1.len() > 0);
                }
            }
            assert forall|g: int, k: int| 0 <= g < after.len() && 0 <= k < after[g].1.len() implies (
            #[trigger] after[g].1[k]) < n by {
                if g < before.len() && k < before[g].1.len() {
                    assert(after[g].1[k] == before[g].1[k]);
                }
            }
            assert forall|g: int, k: int, l: int|
                0 <= g < after.len() && 0 <= k < l < after[g].1.len() implies (
            #[trigger] after[g].1[k]) < (#[trigger] after[g].1[l]) by {
                if g < before.len() {
                    assert(after[g].1[k] == before[g].1[k]);
                    assert(before[g].1[k] < m);
                    if l < before[g].1.len() {
                        assert(after[g].1[l] == before[g].1[l]);
                    }
                }
            }
            assert forall|g: int, h: int| 0 <= g < h < after.len() implies (
            #[trigger] after[g]).1[0] < (#[trigger] after[h]).1[0] by {
                assert(before[g].1.len() > 0);
                assert(before[g].1[0] < m);
                if h < before.len() {
                    assert(before[g].1[0] < before[h].1[0]);
                }
            }
        }
    }
}

/// The view of groups tells all that they hold.
pub proof fn law_group_views(groups: Seq<EngineGroup>, i: int)
    requires
        0 <= i < groups.len(),
    ensures
        groups_view(groups).len() == groups.len(),
        groups_view(groups)[i] == (groups[i].engine@, groups[i].items@),
{
}

} // verus!
