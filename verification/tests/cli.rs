//! What the command line tool decides.
use gpu_info::cli::{comparison, output, parse_backends, select_adapter, Output};
use gpu_info::model::{query_backends, GpuReport};

fn report(backends: u32) -> GpuReport {
    query_backends("0.1.0", backends, &vec![])
}

#[test]
fn backend_names_are_parsed_whatever_their_case() {
    let names = [
        ("all", wgpu::Backends::all()),
        ("primary", wgpu::Backends::PRIMARY),
        ("vulkan", wgpu::Backends::VULKAN),
        ("vk", wgpu::Backends::VULKAN),
        ("dx12", wgpu::Backends::DX12),
        ("d3d12", wgpu::Backends::DX12),
        ("metal", wgpu::Backends::METAL),
        ("mtl", wgpu::Backends::METAL),
        ("gl", wgpu::Backends::GL),
        ("opengl", wgpu::Backends::GL),
        ("gles", wgpu::Backends::GL),
    ];
    for (name, backends) in names {
        assert_eq!(parse_backends(name), Ok(backends.bits()));
        assert_eq!(parse_backends(&name.to_ascii_uppercase()), Ok(backends.bits()));
    }
}

#[test]
fn an_unknown_backend_is_named_in_small_letters() {
    assert_eq!(
        parse_backends("DirectX"),
        Err("unknown backend 'directx' (use vulkan|dx12|metal|gl|primary|all)".to_owned())
    );
    assert_eq!(
        parse_backends(""),
        Err("unknown backend '' (use vulkan|dx12|metal|gl|primary|all)".to_owned())
    );
}

#[test]
fn an_adapter_index_out_of_range_is_an_error() {
    assert_eq!(
        select_adapter(report(0x2), 3).err(),
        Some("adapter index 3 out of range (0 adapters found)".to_owned())
    );
}

#[test]
fn differences_are_counted_and_listed() {
    let c = comparison(&vec![], "base.json");
    assert_eq!((c.text.as_str(), c.same), ("no differences\n", true));
    let c = comparison(&vec!["a: 1 -> 2".to_owned(), "b: 3 -> 4".to_owned()], "base.json");
    assert_eq!(c.text, "2 difference(s) vs base.json:\n  a: 1 -> 2\n  b: 3 -> 4\n");
    assert!(!c.same);
}

#[test]
fn a_comparison_comes_before_any_other_output() {
    let (a, b) = (report(0x2), report(0x10));
    match output(&a, Some((&b, "saved.json")), true) {
        Output::Compared(c) => {
            assert!(!c.same);
            assert_eq!(
                c.text,
                "1 difference(s) vs saved.json:\n  backends_requested[0]: \"gl\" -> \"vulkan\"\n"
            );
        }
        _ => panic!("no comparison"),
    }
    assert!(matches!(output(&a, Some((&a, "x")), false), Output::Compared(c) if c.same));
    assert!(matches!(output(&a, None, true), Output::Json));
    assert!(matches!(output(&a, None, false), Output::Text(t) if t == a.to_pretty()));
}
