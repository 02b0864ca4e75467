//! Live and static video memory: which heap or adapter the numbers come from, and what they say.
use crate::model::Backend;
use crate::text::{before_first, contains, occurs_in, stands_at};
use crate::wide::{utf16_text, wide_text};
use vstd::prelude::*;

verus! {

/// A live GPU memory snapshot from the driver, in bytes.
#[derive(Debug, Clone, Copy, PartialEq, Eq, Structural)]
pub struct VramInfo {
    /// Currently committed local video memory, bytes.
    pub used: u64,
    /// Current local video-memory budget for this process, bytes.
    pub budget: u64,
}

// ---------------------------------------------------------------------------
// Vulkan: memory heaps
// ---------------------------------------------------------------------------

/// The heap flag of memory that is local to the device.
pub const DEVICE_LOCAL: u32 = 0x1;

/// One memory heap of a physical device.
#[derive(Debug, Clone, Copy, PartialEq, Eq, Structural)]
pub struct MemoryHeap {
    /// The bits of its flags.
    pub flags: u32,
    /// Its size in bytes.
    pub size: u64,
}

/// `ash::vk::MemoryHeapFlags::contains`: all bits of `wanted` are set in `flags`.
#[verifier::external_body]
fn heap_flags_contain(flags: u32, wanted: u32) -> (r: bool)
    ensures
        r == (flags & wanted == wanted),
{
    ash::vk::MemoryHeapFlags::from_raw(flags).contains(ash::vk::MemoryHeapFlags::from_raw(wanted))
}

/// Is a heap local to the device?
pub open spec fn is_local(h: MemoryHeap) -> bool {
    h.flags & DEVICE_LOCAL == DEVICE_LOCAL
}

/// Is `best` the largest of the first `n` heaps that are local and not empty, the first of equals?
pub open spec fn is_largest_local(heaps: Seq<MemoryHeap>, n: int, best: Option<usize>) -> bool {
    match best {
        Some(b) => {
            &&& b < n
            &&& is_local(heaps[b as int])
            &&& heaps[b as int].size > 0
            &&& forall|i: int|
                0 <= i < n && is_local(#[trigger] heaps[i]) ==> heaps[i].size
                    <= heaps[b as int].size
            &&& forall|i: int|
                0 <= i < b && is_local(#[trigger] heaps[i]) ==> heaps[i].size < heaps[b as int].size
        },
        None => forall|i: int| 0 <= i < n && is_local(#[trigger] heaps[i]) ==> heaps[i].size == 0,
    }
}

/// The largest heap that is local to the device, if any.
pub fn largest_local_heap(heaps: &Vec<MemoryHeap>) -> (r: Option<usize>)
    ensures
        is_largest_local(heaps@, heaps@.len() as int, r),
{
    let mut best: Option<usize> = None;
    let mut best_size: u64 = 0;
    let mut h: usize = 0;
    while h < heaps.len()
        invariant
            h <= heaps@.len(),
            is_largest_local(heaps@, h as int, best),
            best matches Some(b) ==> best_size == heaps@[b as int].size,
            best is None ==> best_size == 0,
        decreases heaps@.len() - h,
    {
        if heap_flags_contain(heaps[h].flags, DEVICE_LOCAL) && heaps[h].size > best_size {
            best_size = heaps[h].size;
            best = Some(h);
        }
        h = h + 1;
    }
    best
}

/// The live memory of a device with these heaps, of which `usage` and `budget` bytes are used and
/// allowed: that of its largest local heap. None where there is no such heap or the driver
/// reports nothing.
pub fn query_heaps(heaps: &Vec<MemoryHeap>, usage: &Vec<u64>, budget: &Vec<u64>) -> (r: Option<
    VramInfo,
>)
    requires
        usage@.len() >= heaps@.len(),
        budget@.len() >= heaps@.len(),
    ensures
        exists|best: Option<usize>| #[trigger]
            is_largest_local(heaps@, heaps@.len() as int, best) && r == match best {
                Some(b) => if usage@[b as int] == 0 && budget@[b as int] == 0 {
                    None
                } else {
                    Some(VramInfo { used: usage@[b as int], budget: budget@[b as int] })
                },
                None => None,
            },
{
    let best = largest_local_heap(heaps);
    match best {
        Some(b) => {
            let used = usage[b];
            let allowed = budget[b];
            if used == 0 && allowed == 0 {
                None
            } else {
                Some(VramInfo { used, budget: allowed })
            }
        },
        None => None,
    }
}

/// Only one heap is the largest in the sense above, so the live memory is determined.
pub proof fn law_largest_heap_is_unique(heaps: Seq<MemoryHeap>, a: Option<usize>, b: Option<usize>)
    requires
        is_largest_local(heaps, heaps.len() as int, a),
        is_largest_local(heaps, heaps.len() as int, b),
    ensures
        a == b,
{
    if let (Some(i), Some(j)) = (a, b) {
        assert(is_local(heaps[i as int]) && is_local(heaps[j as int]));
    } else if let Some(i) = a {
        assert(is_local(heaps[i as int]));
    } else if let Some(j) = b {
        assert(is_local(heaps[j as int]));
    }
}

/// The bytes of the local ones among the first `n` heaps.
pub open spec fn local_total(heaps: Seq<MemoryHeap>, n: nat) -> nat
    decreases n,
{
    if n == 0 {
        0
    } else {
        local_total(heaps, (n - 1) as nat) + if is_local(heaps[n - 1]) {
            heaps[n - 1].size as nat
        } else {
            0
        }
    }
}

proof fn lemma_local_total_grows(heaps: Seq<MemoryHeap>, n: nat, m: nat)
    requires
        n <= m,
    ensures
        local_total(heaps, n) <= local_total(heaps, m),
    decreases m - n,
{
    if n < m {
        lemma_local_total_grows(heaps, n, (m - 1) as nat);
    }
}

/// The bytes of all heaps that are local to the device, none where that is nothing.
pub fn heap_budget(heaps: &Vec<MemoryHeap>) -> (r: Option<u64>)
    requires
        local_total(heaps@, heaps@.len()) <= u64::MAX,
    ensures
        match r {
            Some(total) => total > 0 && total == local_total(heaps@, heaps@.len()),
            None => local_total(heaps@, heaps@.len()) == 0,
        },
{
    let mut total: u64 = 0;
    let mut h: usize = 0;
    while h < heaps.len()
        invariant
            h <= heaps@.len(),
            total == local_total(heaps@, h as nat),
            local_total(heaps@, heaps@.len()) <= u64::MAX,
        decreases heaps@.len() - h,
    {
        proof {
            lemma_local_total_grows(heaps@, (h + 1) as nat, heaps@.len());
        }
        if heap_flags_contain(heaps[h].flags, DEVICE_LOCAL) {
            total = total + heaps[h].size;
        }
        h = h + 1;
    }
    if total == 0 {
        None
    } else {
        Some(total)
    }
}

// ---------------------------------------------------------------------------
// Windows: DXGI adapters
// ---------------------------------------------------------------------------

/// The adapter flag of software renderers.
pub const ADAPTER_FLAG_SOFTWARE: u32 = 0x2;

/// What DXGI says of one adapter.
#[derive(Debug, Clone, PartialEq, Eq)]
pub struct DxgiAdapter {
    /// Did the adapter describe itself?
    pub described: bool,
    /// The flags of the description.
    pub flags: u32,
    /// The name, padded with NULs.
    pub description: Vec<u16>,
    /// Has it the interface that reports memory?
    pub reports_memory: bool,
}

/// Is this a hardware adapter that reports its memory?
pub open spec fn is_usable(a: DxgiAdapter) -> bool {
    a.described && a.flags & ADAPTER_FLAG_SOFTWARE == 0 && a.reports_memory
}

/// Is this a usable adapter whose name contains `want`, which is not empty?
pub open spec fn is_wanted(a: DxgiAdapter, want: Seq<char>) -> bool {
    is_usable(a) && want.len() > 0 && occurs_in(
        utf16_text(before_first(a.description@, 0)),
        want,
    )
}

/// Is `found` the first wanted adapter, else the first usable one?
pub open spec fn is_dxgi_choice(
    adapters: Seq<DxgiAdapter>,
    want: Seq<char>,
    found: Option<usize>,
) -> bool {
    match found {
        Some(f) => {
            &&& f < adapters.len()
            &&& is_usable(adapters[f as int])
            &&& forall|i: int| 0 <= i < f ==> !is_wanted(#[trigger] adapters[i], want)
            &&& is_wanted(adapters[f as int], want) || {
                &&& forall|i: int| 0 <= i < adapters.len() ==> !is_wanted(#[trigger] adapters[i], want)
                &&& forall|i: int| 0 <= i < f ==> !is_usable(#[trigger] adapters[i])
            }
        },
        None => forall|i: int| 0 <= i < adapters.len() ==> !is_usable(#[trigger] adapters[i]),
    }
}

/// The DXGI adapter that a wgpu adapter named `want` is: the first whose name contains `want`,
/// else the first hardware adapter.
pub fn match_dxgi_adapter(adapters: &Vec<DxgiAdapter>, want: &str) -> (r: Option<usize>)
    ensures
        is_dxgi_choice(adapters@, want@, r),
{
    let mut first_hw: Option<usize> = None;
    let mut i: usize = 0;
    while i < adapters.len()
        invariant
            i <= adapters@.len(),
            forall|j: int| 0 <= j < i ==> !is_wanted(#[trigger] adapters@[j], want@),
            match first_hw {
                Some(f) => f < i && is_usable(adapters@[f as int]) && forall|j: int|
                    0 <= j < f ==> !is_usable(#[trigger] adapters@[j]),
                None => forall|j: int| 0 <= j < i ==> !is_usable(#[trigger] adapters@[j]),
            },
        decreases adapters@.len() - i,
    {
        let a = &adapters[i];
        if a.described && a.flags & ADAPTER_FLAG_SOFTWARE == 0 && a.reports_memory {
            if first_hw.is_none() {
                first_hw = Some(i);
            }
            let name = wide_text(a.description.as_slice());
            if !want.is_empty() && contains(name.as_str(), want) {
                return Some(i);
            }
        }
        i = i + 1;
    }
    first_hw
}

/// A software renderer is never chosen, and an adapter with the wanted name is chosen where there
/// is one.
pub proof fn law_named_hardware_adapter_is_found(
    adapters: Seq<DxgiAdapter>,
    want: Seq<char>,
    found: Option<usize>,
)
    requires
        is_dxgi_choice(adapters, want, found),
    ensures
        found matches Some(f) ==> adapters[f as int].flags & ADAPTER_FLAG_SOFTWARE == 0,
        (exists|i: int| 0 <= i < adapters.len() && is_wanted(#[trigger] adapters[i], want)) ==> (
        found matches Some(f) && is_wanted(adapters[f as int], want)),
{
}

// ---------------------------------------------------------------------------
// Static budget
// ---------------------------------------------------------------------------

/// The operating systems that report video memory in different ways.
#[derive(Debug, Clone, Copy, PartialEq, Eq, Structural)]
pub enum Platform {
    /// Windows.
    Windows,
    /// Linux and other Unix systems, macOS not among them.
    Unix,
    /// macOS.
    Mac,
    /// Any other.
    Other,
}

/// Where a static budget comes from.
#[derive(Debug, Clone, Copy, PartialEq, Eq, Structural)]
pub enum BudgetSource {
    /// The budget of the matching DXGI adapter.
    DxgiAdapter,
    /// The sum of the local Vulkan heaps.
    VulkanHeaps,
    /// The working set that the Metal device recommends.
    MetalDevice,
    /// Nowhere.
    Unavailable,
}

/// Where a static budget comes from on a platform.
pub open spec fn source_on(platform: Platform, backend: Backend, device: bool) -> BudgetSource {
    match platform {
        Platform::Windows => BudgetSource::DxgiAdapter,
        Platform::Unix => if backend == Backend::Vulkan {
            BudgetSource::VulkanHeaps
        } else {
            BudgetSource::Unavailable
        },
        Platform::Mac => if device {
            BudgetSource::MetalDevice
        } else {
            BudgetSource::Unavailable
        },
        Platform::Other => BudgetSource::Unavailable,
    }
}

/// Where the static budget of an adapter comes from. On macOS it takes a device too: `device`
/// tells whether there is one.
#[must_use]
pub fn budget_source(platform: Platform, backend: Backend, device: bool) -> (r: BudgetSource)
    ensures
        r == source_on(platform, backend, device),
{
    match platform {
        Platform::Windows => BudgetSource::DxgiAdapter,
        Platform::Unix => match backend {
            Backend::Vulkan => BudgetSource::VulkanHeaps,
            _ => BudgetSource::Unavailable,
        },
        Platform::Mac => if device {
            BudgetSource::MetalDevice
        } else {
            BudgetSource::Unavailable
        },
        Platform::Other => BudgetSource::Unavailable,
    }
}

/// What a source of budgets said.
#[derive(Debug, Clone, PartialEq, Eq)]
pub enum BudgetFacts {
    /// The live memory of the matching DXGI adapter, where there is one.
    Dxgi(Option<VramInfo>),
    /// The heaps of the Vulkan device.
    Heaps(Vec<MemoryHeap>),
    /// The working set that the Metal device recommends.
    WorkingSet(u64),
    /// Nothing.
    Nothing,
}

/// The static budget that facts stand for.
pub open spec fn budget_of(facts: BudgetFacts) -> Option<nat> {
    match facts {
        BudgetFacts::Dxgi(Some(info)) => Some(info.budget as nat),
        BudgetFacts::Dxgi(None) => None,
        BudgetFacts::Heaps(heaps) => if local_total(heaps@, heaps@.len()) == 0 {
            None
        } else {
            Some(local_total(heaps@, heaps@.len()))
        },
        BudgetFacts::WorkingSet(bytes) => Some(bytes as nat),
        BudgetFacts::Nothing => None,
    }
}

/// Static budget (hardware total or the system's cap on the working set) in bytes.
#[must_use]
pub fn vram_budget_bytes(facts: &BudgetFacts) -> (r: Option<u64>)
    requires
        facts matches BudgetFacts::Heaps(heaps) ==> local_total(heaps@, heaps@.len()) <= u64::MAX,
    ensures
        match r {
            Some(bytes) => budget_of(*facts) == Some(bytes as nat),
            None => budget_of(*facts) is None,
        },
{
    match facts {
        BudgetFacts::Dxgi(info) => match info {
            Some(info) => Some(info.budget),
            None => None,
        },
        BudgetFacts::Heaps(heaps) => heap_budget(heaps),
        BudgetFacts::WorkingSet(bytes) => Some(*bytes),
        BudgetFacts::Nothing => None,
    }
}

// ---------------------------------------------------------------------------
// Laws
// ---------------------------------------------------------------------------

/// The heap that live memory is read from is local to the device, none that is local is larger, and
/// of those as large it is the first. There is none only where no local heap has any bytes.
pub proof fn law_which_heap_is_read(heaps: Seq<MemoryHeap>, best: Option<usize>, i: int)
    requires
        is_largest_local(heaps, heaps.len() as int, best),
        0 <= i < heaps.len(),
        heaps[i].flags & 1 == 1,
    ensures
        match best {
            Some(b) => {
                &&& b < heaps.len()
                &&& heaps[b as int].flags & 1 == 1
                &&& heaps[i].size <= heaps[b as int].size
                &&& heaps[i].size == heaps[b as int].size ==> b <= i
            },
            None => heaps[i].size == 0,
        },
{
    assert(is_local(heaps[i]));
}

proof fn lemma_local_total_before(heaps: Seq<MemoryHeap>, more: MemoryHeap, n: nat)
    requires
        n <= heaps.len(),
    ensures
        local_total(heaps.push(more), n) == local_total(heaps, n),
    decreases n,
{
    if n > 0 {
        lemma_local_total_before(heaps, more, (n - 1) as nat);
    }
}

/// The budget is the sum over the local heaps: a heap more adds its bytes where it is local, and
/// nothing where it is not.
pub proof fn law_local_heaps_are_summed(heaps: Seq<MemoryHeap>, more: MemoryHeap)
    ensures
        local_total(seq![], 0) == 0,
        more.flags & 1 == 1 ==> local_total(heaps.push(more), heaps.len() + 1) == local_total(
            heaps,
            heaps.len(),
        ) + more.size,
        more.flags & 1 != 1 ==> local_total(heaps.push(more), heaps.len() + 1) == local_total(
            heaps,
            heaps.len(),
        ),
{
    lemma_local_total_before(heaps, more, heaps.len());
}

/// The adapter that is read is one that described itself, is no software renderer and reports its
/// memory. Where the name of such a one contains the wanted name it is the first of these, else the
/// first of all such adapters; there is none only where there is no such adapter.
pub proof fn law_which_dxgi_adapter_is_read(
    adapters: Seq<DxgiAdapter>,
    want: Seq<char>,
    found: Option<usize>,
    i: int,
)
    requires
        is_dxgi_choice(adapters, want, found),
        0 <= i < adapters.len(),
        adapters[i].described && adapters[i].flags & 2 == 0 && adapters[i].reports_memory,
    ensures
        found is Some,
        found->0 < adapters.len(),
        ({
            let f = adapters[found->0 as int];
            let named = |a: DxgiAdapter|
                want.len() > 0 && exists|k: int|
                    #[trigger] stands_at(utf16_text(before_first(a.description@, 0)), want, k);
            &&& f.described && f.flags & 2 == 0 && f.reports_memory
            &&& named(adapters[i]) ==> named(f) && found->0 <= i
            &&& !named(f) ==> found->0 <= i
        }),
{
    assert(is_usable(adapters[i]));
    let f = adapters[found->0 as int];
    assert(is_wanted(adapters[i], want) == (want.len() > 0 && occurs_in(
        utf16_text(before_first(adapters[i].description@, 0)),
        want,
    )));
    assert(is_wanted(f, want) == (want.len() > 0 && occurs_in(
        utf16_text(before_first(f.description@, 0)),
        want,
    )));
}

/// Where a budget comes from: the DXGI adapter on Windows, the heaps of a Vulkan adapter on Unix,
/// the device on macOS where there is one, and nowhere else.
pub proof fn law_sources(platform: Platform, backend: Backend, device: bool)
    ensures
        source_on(platform, backend, device) == BudgetSource::DxgiAdapter <==> platform
            == Platform::Windows,
        source_on(platform, backend, device) == BudgetSource::VulkanHeaps <==> platform
            == Platform::Unix && backend == Backend::Vulkan,
        source_on(platform, backend, device) == BudgetSource::MetalDevice <==> platform
            == Platform::Mac && device,
{
}

/// What a budget is: that of the matching adapter, the sum of the local heaps unless it is nothing,
/// or the recommended working set.
pub proof fn law_budgets(info: Option<VramInfo>, heaps: Vec<MemoryHeap>, bytes: u64)
    ensures
        budget_of(BudgetFacts::Dxgi(info)) is Some <==> info is Some,
        info is Some ==> budget_of(BudgetFacts::Dxgi(info)) == Some(info->0.budget as nat),
        budget_of(BudgetFacts::Heaps(heaps)) is Some <==> local_total(heaps@, heaps@.len()) > 0,
        local_total(heaps@, heaps@.len()) > 0 ==> budget_of(BudgetFacts::Heaps(heaps)) == Some(
            local_total(heaps@, heaps@.len()),
        ),
        budget_of(BudgetFacts::WorkingSet(bytes)) == Some(bytes as nat),
        budget_of(BudgetFacts::Nothing) is None,
{
}

} // verus!
