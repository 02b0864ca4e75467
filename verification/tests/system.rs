//! Displays, video memory and live counters.
use gpu_info::displays::{
    icc_profiles, is_shown, DisplayFacts, DisplayProfile, MacDisplays, WindowsDisplay,
};
use gpu_info::model::Backend;
use gpu_info::stats::apple::{decode_text, sys_memsize, AcceleratorFacts, Property};
use gpu_info::stats::drm::{card, card_dir, read_line, read_u64, CardFiles, MAX_CARDS};
use gpu_info::stats::nvml::{
    device_matching, driver_version, name_of, normalise, Answer, NvmlAnswers, NvmlDevice, NvmlFacts,
    NVIDIA_VENDOR,
};
use gpu_info::stats::windows::{
    adapter_memory, describe, engine_groups, engine_type, format_step, luid_tag, memory_counter,
    memory_used, Adapter, AdapterDesc, CounterItem, FormatStep, Luid, MemoryCounter, PDH_MORE_DATA,
    PDH_OK,
};
use gpu_info::stats::{apple, drm, enrich, nvml, windows, GpuStats, Ratio};
use gpu_info::vram::{
    budget_source, heap_budget, largest_local_heap, match_dxgi_adapter, query_heaps,
    vram_budget_bytes, BudgetFacts, BudgetSource, DxgiAdapter, MemoryHeap, Platform, VramInfo,
    DEVICE_LOCAL,
};

fn wide(s: &str) -> Vec<u16> {
    let mut v: Vec<u16> = s.encode_utf16().collect();
    v.push(0);
    v.push(0x58);
    v
}

// Displays

fn windows_display(flags: u32, profile: Option<&str>) -> WindowsDisplay {
    WindowsDisplay {
        flags,
        device_name: wide("\\\\.\\DISPLAY1"),
        profile: profile.map(wide),
        monitor: wide("Generic Monitor"),
    }
}

#[test]
fn listed_displays_have_names_and_profiles() {
    let all = [
        DisplayFacts::Windows(vec![
            windows_display(1, Some("C:\\a.icc")),
            windows_display(0, Some("C:\\b.icc")),
            windows_display(1, None),
            windows_display(1, Some("")),
        ]),
        DisplayFacts::Mac(MacDisplays {
            status: 0,
            profiles: vec![
                None,
                Some(b"/a.icc\0x".to_vec()),
                Some(b"\xff\0".to_vec()),
                Some(b"\0x".to_vec()),
                Some(vec![]),
            ],
        }),
        DisplayFacts::Unavailable,
    ];
    for facts in all {
        for d in icc_profiles(&facts) {
            assert!(!d.name.is_empty() && !d.icc_path.is_empty(), "{d:?}");
        }
    }
}

#[test]
fn windows_displays_are_named_by_adapter_and_monitor() {
    let facts = DisplayFacts::Windows(vec![
        windows_display(0, Some("C:\\b.icc")),
        windows_display(3, Some("C:\\a.icc")),
        windows_display(1, None),
        windows_display(1, Some("")),
    ]);
    assert_eq!(
        icc_profiles(&facts),
        vec![DisplayProfile {
            name: "DISPLAY1, Generic Monitor".into(),
            icc_path: "C:\\a.icc".into(),
        }]
    );
    assert!(is_shown(1) && is_shown(5) && !is_shown(0) && !is_shown(4));
}

#[test]
fn mac_displays_are_numbered_from_one() {
    let profiles = vec![
        None,
        Some(b"/a.icc\0x".to_vec()),
        Some(b"\xff\0".to_vec()),
        Some(b"\0x".to_vec()),
    ];
    let good = DisplayFacts::Mac(MacDisplays { status: 0, profiles: profiles.clone() });
    assert_eq!(
        icc_profiles(&good),
        vec![DisplayProfile { name: "Display 2".into(), icc_path: "/a.icc".into() }]
    );
    let bad = DisplayFacts::Mac(MacDisplays { status: -1, profiles });
    assert!(icc_profiles(&bad).is_empty());
    assert!(icc_profiles(&DisplayFacts::Unavailable).is_empty());
}

// Video memory

fn heap(flags: u32, size: u64) -> MemoryHeap {
    MemoryHeap { flags, size }
}

#[test]
fn the_largest_local_heap_is_queried() {
    assert_eq!(DEVICE_LOCAL, ash::vk::MemoryHeapFlags::DEVICE_LOCAL.as_raw());
    let heaps = vec![heap(0, 900), heap(1, 100), heap(3, 500), heap(1, 500)];
    assert_eq!(largest_local_heap(&heaps), Some(2));
    assert_eq!(
        query_heaps(&heaps, &vec![1, 2, 3, 4], &vec![5, 6, 7, 8]),
        Some(VramInfo { used: 3, budget: 7 })
    );
    assert_eq!(query_heaps(&heaps, &vec![1, 2, 0, 4], &vec![5, 6, 0, 8]), None);
    assert_eq!(
        query_heaps(&heaps, &vec![0; 16], &vec![9; 16]),
        Some(VramInfo { used: 0, budget: 9 })
    );
    assert_eq!(query_heaps(&vec![heap(0, 9)], &vec![1], &vec![1]), None);
    assert_eq!(largest_local_heap(&vec![heap(1, 0)]), None);
}

#[test]
fn the_static_budget_is_the_sum_of_local_heaps() {
    assert_eq!(heap_budget(&vec![heap(0, 900), heap(1, 100), heap(1, 500)]), Some(600));
    assert_eq!(heap_budget(&vec![heap(0, 900)]), None);
    assert_eq!(heap_budget(&vec![]), None);
}

#[test]
fn budgets_come_from_where_the_platform_has_them() {
    assert_eq!(
        budget_source(Platform::Windows, Backend::Vulkan, false),
        BudgetSource::DxgiAdapter
    );
    assert_eq!(budget_source(Platform::Unix, Backend::Vulkan, false), BudgetSource::VulkanHeaps);
    assert_eq!(budget_source(Platform::Unix, Backend::Gl, true), BudgetSource::Unavailable);
    assert_eq!(budget_source(Platform::Mac, Backend::Metal, false), BudgetSource::Unavailable);
    assert_eq!(budget_source(Platform::Mac, Backend::Metal, true), BudgetSource::MetalDevice);
    assert_eq!(budget_source(Platform::Other, Backend::Vulkan, true), BudgetSource::Unavailable);
    let info = VramInfo { used: 1, budget: 2 };
    assert_eq!(vram_budget_bytes(&BudgetFacts::Dxgi(Some(info))), Some(2));
    assert_eq!(vram_budget_bytes(&BudgetFacts::Dxgi(None)), None);
    assert_eq!(vram_budget_bytes(&BudgetFacts::Heaps(vec![heap(1, 3)])), Some(3));
    assert_eq!(vram_budget_bytes(&BudgetFacts::WorkingSet(0)), Some(0));
    assert_eq!(vram_budget_bytes(&BudgetFacts::Nothing), None);
}

fn dxgi(name: &str, flags: u32, usable: bool) -> DxgiAdapter {
    DxgiAdapter { described: true, flags, description: wide(name), reports_memory: usable }
}

#[test]
fn a_dxgi_adapter_is_found_by_name() {
    let all = vec![
        dxgi("Software RTX", 2, true),
        dxgi("Intel UHD", 0, true),
        dxgi("NVIDIA RTX", 0, false),
        dxgi("NVIDIA RTX 3080", 0, true),
    ];
    assert_eq!(match_dxgi_adapter(&all, "RTX"), Some(3));
    assert_eq!(match_dxgi_adapter(&all, "Radeon"), Some(1));
    assert_eq!(match_dxgi_adapter(&all, ""), Some(1));
    assert_eq!(match_dxgi_adapter(&all[..1].to_vec(), "RTX"), None);
    let mut silent = dxgi("RTX", 0, true);
    silent.described = false;
    assert_eq!(match_dxgi_adapter(&vec![silent], "RTX"), None);
}

// Readings

fn part_of(r: Option<Ratio>) -> Option<f32> {
    r.map(|r| r.part as f32 / r.whole as f32)
}

#[test]
fn mem_frac_needs_both_sides() {
    let mut s: GpuStats<f32> = GpuStats { mem_used_bytes: Some(2 << 30), ..Default::default() };
    assert_eq!(part_of(s.mem_frac()), None, "no total => no fraction");
    s.mem_total_bytes = Some(8 << 30);
    assert_eq!(part_of(s.mem_frac()), Some(0.25));
}

#[test]
fn mem_frac_is_clamped_and_zero_safe() {
    let over: GpuStats<f32> =
        GpuStats { mem_used_bytes: Some(16), mem_total_bytes: Some(8), ..Default::default() };
    assert_eq!(part_of(over.mem_frac()), Some(1.0));

    let zero: GpuStats<f32> =
        GpuStats { mem_used_bytes: Some(1), mem_total_bytes: Some(0), ..Default::default() };
    assert_eq!(part_of(zero.mem_frac()), None);
}

#[test]
fn power_frac_needs_a_limit() {
    let mut s: GpuStats<f32> = GpuStats { power_mw: Some(75_000), ..Default::default() };
    assert_eq!(s.power_frac(), None);
    s.power_limit_mw = Some(0);
    assert_eq!(s.power_frac(), None);
    s.power_limit_mw = Some(300_000);
    assert_eq!(part_of(s.power_frac()), Some(0.25));
    s.power_mw = Some(400_000);
    assert_eq!(part_of(s.power_frac()), Some(1.0));
}

#[test]
fn empty_means_no_counters() {
    assert!(GpuStats::<f32>::default().is_empty());
    assert!(
        !GpuStats::<f32> { util_pct: Some(0.0), ..Default::default() }.is_empty(),
        "0% utilisation is a real reading, not an absent one"
    );
}

fn vendor(devices: Vec<NvmlDevice>, status: u32) -> Option<NvmlFacts> {
    let mut answers = answers(status);
    answers.driver = if status == 0 { Some("581.15".into()) } else { None };
    Some(NvmlFacts { devices, asked: 0, answers })
}

fn named(name: &str) -> GpuStats<f32> {
    GpuStats { name: Some(name.into()), util_pct: Some(1.5), ..Default::default() }
}

#[test]
fn enrichment_fills_only_what_the_vendor_knows() {
    let card = || vec![device(true, Some("NVIDIA GPU"))];
    let base = named("GPU");
    let mut s = base.clone();
    enrich(&mut s, NVIDIA_VENDOR, &vendor(card(), 0));
    assert_eq!((s.temp_c, s.power_mw, s.power_limit_mw), (Some(61), Some(62), Some(63)));
    assert_eq!((s.fan_pct, s.clock_core_mhz, s.clock_mem_mhz), (Some(64), Some(65), Some(66)));
    assert_eq!((s.mem_bus_pct, s.driver), (Some(67), Some("581.15".to_owned())));
    assert_eq!((s.name, s.util_pct), (Some("GPU".to_owned()), Some(1.5)));
    for facts in [None, vendor(card(), 3), vendor(vec![], 0)] {
        let mut s = base.clone();
        enrich(&mut s, NVIDIA_VENDOR, &facts);
        assert_eq!(s, base);
    }
    let mut nameless: GpuStats<f32> = GpuStats::default();
    enrich(&mut nameless, NVIDIA_VENDOR, &vendor(card(), 0));
    assert_eq!(nameless, GpuStats::default());
}

#[test]
fn another_vendors_gpu_gets_no_counters() {
    let card = || vec![device(true, Some("NVIDIA GeForce GTX 1050"))];
    for (name, id) in [
        ("AMD Radeon RX 7900 XTX", 0x1002),
        ("Intel(R) Arc(TM) A770 Graphics", 0x8086),
        ("", 0),
    ] {
        let base = named(name);
        let mut s = base.clone();
        enrich(&mut s, id, &vendor(card(), 0));
        assert_eq!(s, base);
    }
    for name in ["NVIDIA GeForce GTX 1050 (rev 2)", "GeForce GTX 1050 A1", "Quadro", ""] {
        let mut s = named(name);
        enrich(&mut s, NVIDIA_VENDOR, &vendor(card(), 0));
        assert_eq!(s.temp_c, Some(61));
    }
}

#[test]
fn another_cards_answers_are_not_shown() {
    let cards = || vec![device(true, Some("NVIDIA A")), device(true, Some("NVIDIA B"))];
    for (name, asked, shown) in [("A", 0, true), ("A", 1, false), ("b", 1, true), ("B", 0, false)] {
        let mut facts = vendor(cards(), 0).unwrap();
        facts.asked = asked;
        let base = named(name);
        let mut s = base.clone();
        enrich(&mut s, NVIDIA_VENDOR, &Some(facts));
        assert_eq!(s != base, shown, "{name} {asked}");
    }
    let mut facts = vendor(cards(), 0).unwrap();
    facts.asked = 9;
    assert_eq!(nvml::query("A", NVIDIA_VENDOR, &facts), None);
}

// The vendor library

#[test]
fn names_meet_after_normalising() {
    assert_eq!(normalise("NVIDIA GeForce RTX 3080 Ti"), normalise("GeForce RTX 3080 Ti"));
}

#[test]
fn normalising_strips_case_prefix_and_blanks() {
    assert_eq!(normalise(" NVIDIA X "), "nvidia x");
    assert_eq!(normalise("nVidiaNVIDIA  X "), "x");
    assert_eq!(normalise(""), "");
}

fn device(opened: bool, name: Option<&str>) -> NvmlDevice {
    NvmlDevice { opened, name: name.map(str::to_owned) }
}

#[test]
fn a_device_is_matched_by_name() {
    let two = vec![device(true, Some("NVIDIA A")), device(true, Some("NVIDIA B"))];
    for id in [NVIDIA_VENDOR, 0x1002] {
        assert_eq!(device_matching(&two, "b", id), Some(1));
        assert_eq!(device_matching(&two, "C", id), None);
        let silent = vec![device(false, Some("B")), device(true, None)];
        assert_eq!(device_matching(&silent, "B", id), None);
        assert_eq!(device_matching(&vec![device(false, Some("B"))], "B", id), None);
        assert_eq!(device_matching(&vec![device(true, Some("B"))], "nvidia B", id), Some(0));
        assert_eq!(device_matching(&vec![], "B", id), None);
    }
}

#[test]
fn the_only_device_is_an_nvidia_adapters_whatever_its_name() {
    let only = vec![device(true, Some("NVIDIA GeForce RTX 3080 Ti"))];
    for name in ["GeForce RTX 3080 Ti A1", "NVIDIA Quadro", "B", ""] {
        assert_eq!(device_matching(&only, name, NVIDIA_VENDOR), Some(0));
        assert_eq!(device_matching(&vec![device(true, None)], name, NVIDIA_VENDOR), Some(0));
        assert_eq!(device_matching(&only, name, 0x1002), None);
        assert_eq!(device_matching(&only, name, 0x8086), None);
    }
}

fn answers(status: u32) -> NvmlAnswers {
    let a = |value: u32| Answer { status, value };
    NvmlAnswers {
        temperature: a(61),
        power_usage: a(62),
        power_limit: a(63),
        fan_speed: a(64),
        clock_graphics: a(65),
        clock_mem: a(66),
        memory_rate: a(67),
        driver: None,
    }
}

#[test]
fn only_answers_with_success_count() {
    let devices = || vec![device(true, Some("NVIDIA A"))];
    let ask = |answers: NvmlAnswers| {
        nvml::query("A", NVIDIA_VENDOR, &NvmlFacts { devices: devices(), asked: 0, answers })
    };
    let s = ask(answers(0)).unwrap();
    assert_eq!((s.temp_c, s.power_mw, s.power_limit_mw), (Some(61), Some(62), Some(63)));
    assert_eq!((s.fan_pct, s.clock_core_mhz), (Some(64), Some(65)));
    assert_eq!((s.clock_mem_mhz, s.mem_bus_pct, s.driver), (Some(66), Some(67), None));
    assert_eq!(ask(answers(3)), None);
    let mut some = answers(3);
    some.fan_speed.status = 0;
    some.driver = Some("1".into());
    let s = ask(some).unwrap();
    assert_eq!((s.temp_c, s.fan_pct, s.driver), (None, Some(64), Some("1".to_owned())));
    let facts = NvmlFacts { devices: devices(), asked: 0, answers: answers(0) };
    assert_eq!(nvml::query("B", 0x1002, &facts), None);
}

#[test]
fn nvml_smoke_query() {
    let devices = vec![device(true, Some("NVIDIA GeForce RTX 3080 Ti"))];
    for status in [0, 3] {
        let facts = NvmlFacts { devices: devices.clone(), asked: 0, answers: answers(status) };
        let stats = nvml::query("NVIDIA GeForce RTX 3080 Ti", NVIDIA_VENDOR, &facts);
        assert_eq!(stats.is_some(), status == 0);
        if let Some(s) = stats {
            if let Some(t) = s.temp_c {
                assert!((0.0..=125.0).contains(&(t as f32)), "temperature out of range: {t}");
            }
            if let Some(f) = s.fan_pct {
                assert!((0.0..=100.0).contains(&(f as f32)), "fan out of range: {f}");
            }
        }
    }
}

#[test]
fn vendor_texts_end_at_the_nul() {
    assert_eq!(name_of(0, b"NVIDIA A\0junk"), Some("NVIDIA A".to_owned()));
    assert_eq!(name_of(1, b"NVIDIA A\0"), None);
    assert_eq!(driver_version(0, b" 581.15 \0"), Some("581.15".to_owned()));
    assert_eq!(driver_version(0, b"\0"), None);
    assert_eq!(driver_version(2, b"581.15\0"), None);
}

// Linux

fn files(busy: Option<&str>, total: Option<&str>, used: Option<&str>) -> CardFiles {
    let own = |s: Option<&str>| s.map(str::to_owned);
    CardFiles {
        gpu_busy_percent: own(busy),
        mem_info_vram_total: own(total),
        mem_info_vram_used: own(used),
        label: None,
        product_name: None,
    }
}

#[test]
fn absent_paths_are_none() {
    // What reading `/sys/class/drm/card999/device/gpu_busy_percent` and `.../label` gives.
    let absent: Option<String> = None;
    assert_eq!(read_u64(&absent), None);
    assert_eq!(read_line(&absent), None);
}

#[test]
fn attribute_files_hold_numbers_and_lines() {
    assert_eq!(read_u64(&Some(" 42\n".into())), Some(42));
    assert_eq!(read_u64(&Some("4 2".into())), None);
    assert_eq!(read_line(&Some(" RX \nmore".into())), Some("RX".to_owned()));
    assert_eq!(read_line(&Some("\nmore".into())), None);
    assert_eq!(read_line(&Some("".into())), None);
    assert_eq!(card_dir(3), "/sys/class/drm/card3/device");
    assert_eq!(MAX_CARDS, 8);
}

#[test]
fn a_silent_card_is_no_gpu() {
    assert_eq!(card(&files(None, None, None)), None);
    assert_eq!(card(&files(Some("x"), None, None)), None);
    let s = card(&files(Some("250\n"), None, Some("7"))).unwrap();
    assert_eq!((s.util_pct, s.mem_used_bytes, s.mem_total_bytes), (Some(100), Some(7), None));
    assert!(!s.unified);
    let mut named = files(Some("5"), None, None);
    named.product_name = Some("Product\n".into());
    assert_eq!(card(&named).unwrap().name, Some("Product".to_owned()));
    named.label = Some("Label\n".into());
    assert_eq!(card(&named).unwrap().name, Some("Label".to_owned()));
}

#[test]
fn the_first_card_that_answers_is_read() {
    let cards = vec![
        files(None, None, None),
        files(Some("5"), None, None),
        files(Some("6"), None, None),
    ];
    assert_eq!(drm::query(&cards).unwrap().util_pct, Some(5));
    assert_eq!(drm::query(&cards[..1].to_vec()), None);
}

#[test]
fn drm_smoke_query() {
    let none: Vec<CardFiles> = (0..MAX_CARDS).map(|_| files(None, None, None)).collect();
    assert_eq!(drm::query(&none), None);
    assert_eq!(drm::query(&vec![]), None);
}

/// The bounds that every reading keeps.
fn assert_in_range(util_pct: Option<f32>, used: Option<u64>, total: Option<u64>) {
    if let Some(u) = util_pct {
        assert!((0.0..=100.0).contains(&u), "utilisation out of range: {u}");
    }
    if let (Some(used), Some(total)) = (used, total) {
        assert!(used <= total, "used {used} > total {total}");
    }
}

#[test]
fn stats_smoke_query() {
    for (busy, total, used) in [("7", "8", "9"), ("250", "9", "9"), ("0", "0", "0"), ("1", "x", "9")] {
        let s = drm::query(&vec![files(Some(busy), Some(total), Some(used))]).unwrap();
        assert_in_range(s.util_pct.map(|u| u as f32), s.mem_used_bytes, s.mem_total_bytes);
    }
    let adapter = Adapter::open(&vec![desc("Big", 0, 8, 70)]).unwrap();
    let mut mac = accelerator(b"AGX");
    for used in [None, Some(0), Some(8), Some(9), Some(u64::MAX)] {
        let s = windows::query(&adapter, Some(12.5f32), used).unwrap();
        assert_in_range(s.util_pct, s.mem_used_bytes, s.mem_total_bytes);
        mac.mem_used_bytes = used;
        let s = apple::query(&vec![mac.clone()], true, Some(8)).unwrap();
        assert_in_range(s.util_pct, s.mem_used_bytes, s.mem_total_bytes);
    }
}

#[test]
fn more_memory_used_than_there_is_is_no_reading() {
    let s = drm::query(&vec![files(None, Some("8"), Some("9"))]).unwrap();
    assert_eq!((s.mem_used_bytes, s.mem_total_bytes), (None, Some(8)));
    let s = drm::query(&vec![files(None, Some("8"), Some("8"))]).unwrap();
    assert_eq!(s.mem_used_bytes, Some(8));
    let adapter = Adapter::open(&vec![desc("Big", 0, 8, 70)]).unwrap();
    let s = windows::query(&adapter, Some(1.0f32), Some(9)).unwrap();
    assert_eq!((s.mem_used_bytes, s.mem_total_bytes), (None, Some(8)));
    assert_eq!(windows::query::<f32>(&adapter, None, Some(9)), None);
    let mut mac = accelerator(b"AGX");
    mac.mem_used_bytes = Some(9);
    let s = apple::query(&vec![mac.clone()], false, Some(8)).unwrap();
    assert_eq!((s.mem_used_bytes, s.mem_total_bytes), (None, Some(8)));
    mac.util_pct = None;
    assert_eq!(apple::query(&vec![mac.clone()], false, Some(8)), None);
    let s = apple::query(&vec![mac], false, None).unwrap();
    assert_eq!((s.mem_used_bytes, s.mem_total_bytes), (Some(9), None));
}

// Windows

#[test]
fn a_luid_is_spelled_the_way_pdh_spells_it() {
    let luid = Luid { low: 0x0000_A5B7, high: 0 };
    assert_eq!(luid_tag(luid), "luid_0x00000000_0x0000A5B7");
}

#[test]
fn a_negative_luid_high_word_is_printed_unsigned() {
    let luid = Luid { low: 1, high: -1 };
    assert_eq!(luid_tag(luid), "luid_0xFFFFFFFF_0x00000001");
}

#[test]
fn a_description_stops_at_the_first_nul() {
    let mut raw = [0_u16; 128];
    for (slot, ch) in raw.iter_mut().zip("NVIDIA".encode_utf16()) {
        *slot = ch;
    }
    assert_eq!(describe(&raw), "NVIDIA");
}

#[test]
fn unknown_engine_types_share_one_bucket() {
    assert_eq!(engine_type("3D"), "3D");
    assert_eq!(engine_type("SomethingNew"), "other");
}

#[test]
fn known_engine_types_have_their_own_bucket() {
    for name in [
        "3D",
        "Copy",
        "Compute",
        "VideoDecode",
        "VideoEncode",
        "VideoProcessing",
        "Security",
        "Graphics_1",
    ] {
        assert_eq!(engine_type(name), name);
    }
    assert_eq!(engine_type("3d"), "other");
    assert_eq!(engine_type(""), "other");
}

fn desc(name: &str, flags: u32, dedicated: u64, shared: u64) -> AdapterDesc {
    let mut description = [0_u16; 128];
    for (slot, ch) in description.iter_mut().zip(name.encode_utf16()) {
        *slot = ch;
    }
    let luid = Luid { low: dedicated as u32, high: 0 };
    AdapterDesc { described: true, flags, vendor: NVIDIA_VENDOR, dedicated, shared, description, luid }
}

#[test]
fn the_adapter_with_the_most_memory_is_reported() {
    let all = vec![
        desc("Integrated", 0, 0, 50),
        desc(" Small ", 0, 4, 60),
        desc("Big", 0, 9, 70),
        desc("Twin", 0, 9, 80),
        desc("Warp", 2, 99, 90),
    ];
    let a = Adapter::open(&all).unwrap();
    assert_eq!((a.name.as_str(), a.total_bytes, a.shared_bytes), ("Big", 9, 70));
    assert_eq!(a.vendor, NVIDIA_VENDOR);
    assert!(!a.unified);
    assert_eq!(a.luid_tag, "luid_0x00000000_0x00000009");
    let a = Adapter::open(&all[..2].to_vec()).unwrap();
    assert_eq!(a.name, "Small");
    let a = Adapter::open(&all[..1].to_vec()).unwrap();
    assert_eq!((a.total_bytes, a.unified), (50, true));
    let integrated = vec![desc("First", 0, 0, 1), desc("Last", 0, 0, 2)];
    assert_eq!(Adapter::open(&integrated).unwrap().name, "Last");
    assert!(Adapter::open(&all[4..].to_vec()).is_none());
    assert!(Adapter::open(&vec![]).is_none());
}

#[test]
fn a_counter_array_is_retried_once() {
    assert_eq!(format_step(0, PDH_OK, 5, 0), FormatStep::Filled(5));
    assert_eq!(format_step(1, PDH_OK, 5, 0), FormatStep::Filled(5));
    assert_eq!(format_step(0, PDH_OK, 0, 0), FormatStep::Nothing);
    assert_eq!(format_step(0, PDH_MORE_DATA, 0, 640), FormatStep::Grow(640));
    assert_eq!(format_step(1, PDH_MORE_DATA, 0, 640), FormatStep::Nothing);
    assert_eq!(format_step(0, 1, 5, 640), FormatStep::Nothing);
    assert_eq!(memory_counter(true), MemoryCounter::Shared);
    assert_eq!(memory_counter(false), MemoryCounter::Dedicated);
}

fn item(name: &str, finite: bool) -> CounterItem {
    CounterItem { name: wide(name), finite }
}

#[test]
fn instances_are_grouped_by_engine_within_an_adapter() {
    let tag = "luid_0x00000000_0x0000A5B7";
    let other = "luid_0x00000000_0x0000A5B8";
    let name = |pid: u32, luid: &str, engine: &str| {
        format!("pid_{pid}_{luid}_phys_0_eng_0_engtype_{engine}")
    };
    let mut broken = item(&name(7, tag, "3D"), true);
    broken.name[0] = 0xd800;
    let items = vec![
        item(&name(1, tag, "3D"), true),
        item(&name(2, other, "3D"), true),
        item(&name(3, tag, "Copy"), true),
        item(&name(4, tag, "3D"), false),
        item(&name(5, tag, "3D"), true),
        item(&format!("pid_6_{tag}"), true),
        broken,
        item(&name(8, tag, "Brand New"), true),
        item(&name(9, tag, "Newer"), true),
    ];
    let groups = engine_groups(&items, tag);
    let got: Vec<(&str, Vec<usize>)> =
        groups.iter().map(|g| (g.engine, g.items.clone())).collect();
    assert_eq!(got, vec![("3D", vec![0, 4]), ("Copy", vec![2]), ("other", vec![7, 8])]);
    assert_eq!(memory_used(&items, tag), vec![0, 2, 4, 5, 7, 8]);
    assert!(engine_groups(&vec![], tag).is_empty());
}

#[test]
fn a_windows_reading_needs_a_counter() {
    let adapter = Adapter::open(&vec![desc("Big", 0, 9, 70)]).unwrap();
    assert_eq!(windows::query::<f32>(&adapter, None, None), None);
    let s = windows::query(&adapter, Some(12.5f32), None).unwrap();
    assert_eq!((s.name.as_deref(), s.util_pct), (Some("Big"), Some(12.5)));
    assert_eq!((s.mem_used_bytes, s.mem_total_bytes, s.unified), (None, Some(9), false));
    let nothing = Adapter::open(&vec![desc("None", 0, 0, 0)]).unwrap();
    let s = windows::query::<f32>(&nothing, None, Some(0)).unwrap();
    assert_eq!((s.mem_used_bytes, s.mem_total_bytes, s.unified), (Some(0), None, true));
    let m = adapter_memory(&adapter, None);
    assert_eq!((m.name.as_str(), m.total, m.shared, m.used, m.unified), ("Big", 9, 70, 0, false));
    assert_eq!(adapter_memory(&adapter, Some(4)).used, 4);
}

// macOS

fn accelerator(class: &[u8]) -> AcceleratorFacts<f32> {
    AcceleratorFacts {
        has_statistics: true,
        util_pct: Some(3.5),
        mem_used_bytes: None,
        model: Some(Property::Text(Some(b"Apple M4 Pro\0".to_vec()))),
        driver_class: Some(Property::Data(class.to_vec())),
    }
}

#[test]
fn property_texts_are_decoded() {
    assert_eq!(decode_text(&Property::Text(Some(b"a\0b".to_vec()))), Some("a".to_owned()));
    assert_eq!(decode_text(&Property::Text(Some(vec![]))), Some(String::new()));
    assert_eq!(decode_text(&Property::Text(None)), None);
    assert_eq!(decode_text(&Property::Data(b"a b".to_vec())), Some("a b".to_owned()));
    assert_eq!(decode_text(&Property::Data(vec![])), None);
    assert_eq!(decode_text(&Property::Data(b"\xff".to_vec())), None);
    assert_eq!(decode_text(&Property::Other), None);
}

#[test]
fn apples_own_driver_is_unified() {
    let s = apple::query(&vec![accelerator(b"AGXAcceleratorG16X")], false, Some(9)).unwrap();
    assert_eq!((s.unified, s.mem_total_bytes), (true, Some(9)));
    assert_eq!((s.name.as_deref(), s.util_pct), (Some("Apple M4 Pro"), Some(3.5)));
    let s = apple::query(&vec![accelerator(b"AMDRadeon")], false, Some(9)).unwrap();
    assert_eq!((s.unified, s.mem_total_bytes), (false, None));
    let s = apple::query(&vec![accelerator(b"AMDRadeon")], true, Some(9)).unwrap();
    assert_eq!((s.unified, s.mem_total_bytes), (true, Some(9)));
}

#[test]
fn the_first_class_that_tells_a_counter_is_read() {
    let mut silent = accelerator(b"AGX");
    silent.util_pct = None;
    let mut absent = accelerator(b"AGX");
    absent.has_statistics = false;
    let mut memory = accelerator(b"x");
    memory.util_pct = None;
    memory.mem_used_bytes = Some(5);
    let s = apple::query(&vec![silent.clone(), absent.clone(), memory], false, None).unwrap();
    assert_eq!((s.util_pct, s.mem_used_bytes), (None, Some(5)));
    assert_eq!(apple::query(&vec![silent, absent], false, None), None);
    assert_eq!(sys_memsize(0, 8), Some(8));
    assert_eq!(sys_memsize(0, 0), None);
    assert_eq!(sys_memsize(-1, 8), None);
}
