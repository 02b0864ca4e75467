//! Capability reports: building, comparing and printing them, and the tables behind them against
//! wgpu's own.
use gpu_info::cli::select_adapter;
use gpu_info::caps::{limits_kv, Limits};
use gpu_info::flags::{
    backends_requested, sample_counts_from_flags, stable_features, FeatureBits, ShaderModel,
    ALL_BACKENDS, COMPLIANT_FLAGS, DX12, EXPERIMENTAL_FEATURES, GL, METAL, PRIMARY, VULKAN,
    WEBGPU_FEATURES, WGPU_FEATURES,
};
use gpu_info::diff::diff_value;
use gpu_info::json::{object_of, push_json, Value};
use gpu_info::limits::GpuLimits;
use gpu_info::model::{
    common_formats, format_str, query_backends, vendor_name, AdapterFacts, AdapterReport, Backend,
    DeviceType, DownlevelReport, FormatFacts, GpuReport, TextureFormat, TextureFormatReport,
};
use gpu_info::pretty::{adapter_summary, report_summary};
use gpu_info::shared::{recommended_limits, request_max_device, supported_sample_counts, AdapterOffer};

/// wgpu's limits as plain numbers.
fn plain(l: &wgpu::Limits) -> Limits {
    Limits {
        max_texture_dimension_1d: l.max_texture_dimension_1d,
        max_texture_dimension_2d: l.max_texture_dimension_2d,
        max_texture_dimension_3d: l.max_texture_dimension_3d,
        max_texture_array_layers: l.max_texture_array_layers,
        max_bind_groups: l.max_bind_groups,
        max_bind_groups_plus_vertex_buffers: l.max_bind_groups_plus_vertex_buffers,
        max_bindings_per_bind_group: l.max_bindings_per_bind_group,
        max_dynamic_uniform_buffers_per_pipeline_layout: l.max_dynamic_uniform_buffers_per_pipeline_layout,
        max_dynamic_storage_buffers_per_pipeline_layout: l.max_dynamic_storage_buffers_per_pipeline_layout,
        max_sampled_textures_per_shader_stage: l.max_sampled_textures_per_shader_stage,
        max_samplers_per_shader_stage: l.max_samplers_per_shader_stage,
        max_storage_buffers_per_shader_stage: l.max_storage_buffers_per_shader_stage,
        max_storage_textures_per_shader_stage: l.max_storage_textures_per_shader_stage,
        max_uniform_buffers_per_shader_stage: l.max_uniform_buffers_per_shader_stage,
        max_binding_array_elements_per_shader_stage: l.max_binding_array_elements_per_shader_stage,
        max_binding_array_acceleration_structure_elements_per_shader_stage: l.max_binding_array_acceleration_structure_elements_per_shader_stage,
        max_binding_array_sampler_elements_per_shader_stage: l.max_binding_array_sampler_elements_per_shader_stage,
        max_uniform_buffer_binding_size: l.max_uniform_buffer_binding_size,
        max_storage_buffer_binding_size: l.max_storage_buffer_binding_size,
        max_vertex_buffers: l.max_vertex_buffers,
        max_buffer_size: l.max_buffer_size,
        max_vertex_attributes: l.max_vertex_attributes,
        max_vertex_buffer_array_stride: l.max_vertex_buffer_array_stride,
        max_inter_stage_shader_variables: l.max_inter_stage_shader_variables,
        min_uniform_buffer_offset_alignment: l.min_uniform_buffer_offset_alignment,
        min_storage_buffer_offset_alignment: l.min_storage_buffer_offset_alignment,
        max_color_attachments: l.max_color_attachments,
        max_color_attachment_bytes_per_sample: l.max_color_attachment_bytes_per_sample,
        max_compute_workgroup_storage_size: l.max_compute_workgroup_storage_size,
        max_compute_invocations_per_workgroup: l.max_compute_invocations_per_workgroup,
        max_compute_workgroup_size_x: l.max_compute_workgroup_size_x,
        max_compute_workgroup_size_y: l.max_compute_workgroup_size_y,
        max_compute_workgroup_size_z: l.max_compute_workgroup_size_z,
        max_compute_workgroups_per_dimension: l.max_compute_workgroups_per_dimension,
        max_immediate_size: l.max_immediate_size,
        max_non_sampler_bindings: l.max_non_sampler_bindings,
        max_task_workgroup_total_count: l.max_task_workgroup_total_count,
        max_task_workgroups_per_dimension: l.max_task_workgroups_per_dimension,
        max_mesh_workgroup_total_count: l.max_mesh_workgroup_total_count,
        max_mesh_workgroups_per_dimension: l.max_mesh_workgroups_per_dimension,
        max_task_invocations_per_workgroup: l.max_task_invocations_per_workgroup,
        max_task_invocations_per_dimension: l.max_task_invocations_per_dimension,
        max_mesh_invocations_per_workgroup: l.max_mesh_invocations_per_workgroup,
        max_mesh_invocations_per_dimension: l.max_mesh_invocations_per_dimension,
        max_task_payload_size: l.max_task_payload_size,
        max_mesh_output_vertices: l.max_mesh_output_vertices,
        max_mesh_output_primitives: l.max_mesh_output_primitives,
        max_mesh_output_layers: l.max_mesh_output_layers,
        max_mesh_multiview_view_count: l.max_mesh_multiview_view_count,
        max_blas_primitive_count: l.max_blas_primitive_count,
        max_blas_geometry_count: l.max_blas_geometry_count,
        max_tlas_instance_count: l.max_tlas_instance_count,
        max_acceleration_structures_per_shader_stage: l.max_acceleration_structures_per_shader_stage,
        max_buffers_and_acceleration_structures_per_shader_stage: l.max_buffers_and_acceleration_structures_per_shader_stage,
        max_multiview_view_count: l.max_multiview_view_count,
        max_ray_dispatch_count: l.max_ray_dispatch_count,
        max_ray_recursion_depth: l.max_ray_recursion_depth,
    }
}

/// Limits of which no two are alike.
fn distinct() -> wgpu::Limits {
    wgpu::Limits {
        max_texture_dimension_1d: 1000,
        max_texture_dimension_2d: 1001,
        max_texture_dimension_3d: 1002,
        max_texture_array_layers: 1003,
        max_bind_groups: 1004,
        max_bind_groups_plus_vertex_buffers: 1005,
        max_bindings_per_bind_group: 1006,
        max_dynamic_uniform_buffers_per_pipeline_layout: 1007,
        max_dynamic_storage_buffers_per_pipeline_layout: 1008,
        max_sampled_textures_per_shader_stage: 1009,
        max_samplers_per_shader_stage: 1010,
        max_storage_buffers_per_shader_stage: 1011,
        max_storage_textures_per_shader_stage: 1012,
        max_uniform_buffers_per_shader_stage: 1013,
        max_binding_array_elements_per_shader_stage: 1014,
        max_binding_array_acceleration_structure_elements_per_shader_stage: 1015,
        max_binding_array_sampler_elements_per_shader_stage: 1016,
        max_uniform_buffer_binding_size: 1017,
        max_storage_buffer_binding_size: 1018,
        max_vertex_buffers: 1019,
        max_buffer_size: 1020,
        max_vertex_attributes: 1021,
        max_vertex_buffer_array_stride: 1022,
        max_inter_stage_shader_variables: 1023,
        min_uniform_buffer_offset_alignment: 1024,
        min_storage_buffer_offset_alignment: 1025,
        max_color_attachments: 1026,
        max_color_attachment_bytes_per_sample: 1027,
        max_compute_workgroup_storage_size: 1028,
        max_compute_invocations_per_workgroup: 1029,
        max_compute_workgroup_size_x: 1030,
        max_compute_workgroup_size_y: 1031,
        max_compute_workgroup_size_z: 1032,
        max_compute_workgroups_per_dimension: 1033,
        max_immediate_size: 1034,
        max_non_sampler_bindings: 1035,
        max_task_workgroup_total_count: 1036,
        max_task_workgroups_per_dimension: 1037,
        max_mesh_workgroup_total_count: 1038,
        max_mesh_workgroups_per_dimension: 1039,
        max_task_invocations_per_workgroup: 1040,
        max_task_invocations_per_dimension: 1041,
        max_mesh_invocations_per_workgroup: 1042,
        max_mesh_invocations_per_dimension: 1043,
        max_task_payload_size: 1044,
        max_mesh_output_vertices: 1045,
        max_mesh_output_primitives: 1046,
        max_mesh_output_layers: 1047,
        max_mesh_multiview_view_count: 1048,
        max_blas_primitive_count: 1049,
        max_blas_geometry_count: 1050,
        max_tlas_instance_count: 1051,
        max_acceleration_structures_per_shader_stage: 1052,
        max_buffers_and_acceleration_structures_per_shader_stage: 1053,
        max_multiview_view_count: 1054,
        max_ray_dispatch_count: 1055,
        max_ray_recursion_depth: 1056,
    }
}

/// A GPU-free synthetic report for testing serialization and diffing.
fn sample() -> GpuReport {
    GpuReport {
        wgpu_info_version: "0.1.0".into(),
        wgpu_version: "29".into(),
        backends_requested: vec!["vulkan".into()],
        adapters: vec![AdapterReport {
            name: "Test GPU".into(),
            backend: "vulkan".into(),
            device_type: "DiscreteGpu".into(),
            vendor: 0x10de,
            vendor_name: Some("NVIDIA".into()),
            device: 0x1234,
            pci_bus_id: "0000:01:00.0".into(),
            driver: "test".into(),
            driver_info: "1.0".into(),
            subgroup_min_size: 32,
            subgroup_max_size: 32,
            features: vec!["TEXTURE_BINDING_ARRAY".into()],
            limits: plain(&wgpu::Limits::default()),
            downlevel: DownlevelReport {
                is_webgpu_compliant: true,
                shader_model: "Sm5".into(),
                flags: vec!["COMPUTE_SHADERS".into()],
            },
            texture_formats: vec![],
        }],
    }
}

/// What an adapter could say of itself.
fn facts() -> AdapterFacts {
    let features = (wgpu::Features::TIMESTAMP_QUERY | wgpu::Features::MAPPABLE_PRIMARY_BUFFERS)
        .bits()
        .0;
    AdapterFacts {
        name: "Some GPU".into(),
        backend: Backend::Vulkan,
        device_type: DeviceType::IntegratedGpu,
        vendor: 0x8086,
        device: 0x1_46a6,
        device_pci_bus_id: String::new(),
        driver: "drv".into(),
        driver_info: String::new(),
        subgroup_min_size: 8,
        subgroup_max_size: 32,
        features: FeatureBits { wgpu: features[0], webgpu: features[1] },
        limits: plain(&wgpu::Limits::default()),
        downlevel_flags: wgpu::DownlevelFlags::all().bits(),
        shader_model: ShaderModel::Sm5,
        formats: vec![FormatFacts {
            format: TextureFormat::Rgba16Float,
            allowed_usages: (wgpu::TextureUsages::COPY_SRC | wgpu::TextureUsages::STORAGE_BINDING)
                .bits(),
            flags: wgpu::TextureFormatFeatureFlags::FILTERABLE.bits(),
        }],
    }
}

#[test]
fn sample_counts_from_flags_maps_msaa() {
    let empty = wgpu::TextureFormatFeatureFlags::empty();
    // No MSAA flags -> only single-sampled.
    assert_eq!(sample_counts_from_flags(empty.bits()), vec![1]);
    // 2x + 4x present, 8x/16x absent.
    let flags = wgpu::TextureFormatFeatureFlags::MULTISAMPLE_X2
        | wgpu::TextureFormatFeatureFlags::MULTISAMPLE_X4;
    assert_eq!(sample_counts_from_flags(flags.bits()), vec![1, 2, 4]);
}

#[test]
fn sample_counts_agree_with_wgpu() {
    for bits in 0..0x800u32 {
        let flags = wgpu::TextureFormatFeatureFlags::from_bits_retain(bits);
        let mut want = flags.supported_sample_counts();
        want.sort();
        assert_eq!(supported_sample_counts(bits), want, "{bits:x}");
    }
}

#[test]
fn diff_identical_is_empty() {
    assert!(sample().diff(&sample()).is_empty());
}

#[test]
fn diff_detects_limit_change() {
    let a = sample();
    let mut b = sample();
    b.adapters[0].limits.max_storage_buffers_per_shader_stage = 64;
    let diff = a.diff(&b);
    assert_eq!(diff.len(), 1);
    assert!(diff[0].contains("maxStorageBuffersPerShaderStage"));
    assert!(diff[0].contains("8 -> 64"));
}

#[test]
fn diff_names_every_kind_of_change() {
    let a = sample();
    let mut b = sample();
    b.wgpu_version = "30".into();
    b.backends_requested.push("gl".into());
    b.adapters[0].vendor_name = None;
    b.adapters[0].features.clear();
    b.adapters[0].downlevel.is_webgpu_compliant = false;
    b.adapters[0].texture_formats.push(TextureFormatReport {
        format: "R8\"".into(),
        allowed_usages: vec![],
        flags: vec!["X".into()],
    });
    assert_eq!(
        a.diff(&b),
        vec![
            "adapters[0].downlevel.is_webgpu_compliant: true -> false".to_owned(),
            "adapters[0].features[0]: \"TEXTURE_BINDING_ARRAY\" -> (removed)".to_owned(),
            "adapters[0].texture_formats[0]: (added) -> {\"allowed_usages\":[],\"flags\":[\"X\"],\"format\":\"R8\\\"\"}".to_owned(),
            "adapters[0].vendor_name: \"NVIDIA\" -> null".to_owned(),
            "backends_requested[1]: (added) -> \"gl\"".to_owned(),
            "wgpu_version: \"29\" -> \"30\"".to_owned(),
        ]
    );
    assert_eq!(a.diff(&b).len(), b.diff(&a).len());
    let none = GpuReport { adapters: vec![], ..sample() };
    let lines = a.diff(&none);
    assert_eq!(lines.len(), 1);
    assert!(lines[0].starts_with("adapters[0]: {\"backend\":\"vulkan\","));
    assert!(lines[0].ends_with(" -> (removed)"));
}

#[test]
fn json_is_what_serde_json_writes() {
    let mut text = String::new();
    push_json(&mut text, &sample().to_value());
    let parsed: serde_json::Value = serde_json::from_str(&text).unwrap();
    assert_eq!(parsed.to_string(), text);
    assert_eq!(parsed["adapters"][0]["vendor"], 0x10de);
    assert_eq!(parsed["adapters"][0]["vendor_name"], "NVIDIA");
    let limits = serde_json::to_value(wgpu::Limits::default()).unwrap();
    assert_eq!(parsed["adapters"][0]["limits"], limits);
}

#[test]
fn json_texts_are_escaped_as_serde_json_escapes_them() {
    for n in 0..0x300u32 {
        if let Some(c) = char::from_u32(n) {
            let s: String = ['a', c, 'b'].iter().collect();
            let mut text = String::new();
            push_json(&mut text, &Value::Text(s.clone()));
            assert_eq!(text, serde_json::Value::String(s).to_string());
        }
    }
}

#[test]
fn json_objects_are_in_key_order() {
    let v = object_of(vec![
        ("b".into(), Value::Number(1)),
        ("a".into(), Value::Null),
        ("c".into(), Value::Array(vec![Value::Bool(true), Value::Bool(false)])),
        ("B".into(), object_of(vec![])),
    ]);
    let mut text = String::new();
    push_json(&mut text, &v);
    assert_eq!(text, "{\"B\":{},\"a\":null,\"b\":1,\"c\":[true,false]}");
    let v = object_of(vec![
        ("k".into(), Value::Number(1)),
        ("a".into(), Value::Null),
        ("k".into(), Value::Number(2)),
    ]);
    let mut text = String::new();
    push_json(&mut text, &v);
    assert_eq!(text, serde_json::from_str::<serde_json::Value>("{\"k\":1,\"a\":null,\"k\":2}").unwrap().to_string());
}

fn differences(a: &Value, b: &Value) -> Vec<String> {
    let mut out = vec!["before".to_owned()];
    diff_value("p", a, b, &mut out);
    assert_eq!(out.remove(0), "before");
    out
}

#[test]
fn differences_come_in_key_order_whatever_the_order_of_the_fields() {
    let number = |k: &str, n: u64| (k.to_owned(), Value::Number(n));
    let ba = object_of(vec![number("b", 1), number("a", 2)]);
    let ab = object_of(vec![number("a", 2), number("b", 1)]);
    let none = object_of(vec![]);
    assert_eq!(differences(&ba, &none), ["p.a: 2 -> (removed)", "p.b: 1 -> (removed)"]);
    assert!(differences(&ba, &ab).is_empty());
    let c = object_of(vec![number("c", 3), number("b", 4)]);
    assert_eq!(
        differences(&ba, &c),
        ["p.a: 2 -> (removed)", "p.b: 1 -> 4", "p.c: (added) -> 3"]
    );
}

#[test]
fn no_two_lines_of_a_report_comparison_have_one_path() {
    let full = query_backends("1", 0xff, &vec![facts(), facts()]);
    let mut other = facts();
    other.name = "Other GPU".into();
    other.limits = plain(&distinct());
    other.formats.clear();
    other.downlevel_flags = 0;
    let lines = full.diff(&query_backends("2", 0, &vec![other]));
    let paths: std::collections::BTreeSet<&str> =
        lines.iter().filter_map(|l| l.split(": ").next()).collect();
    assert!(lines.len() > 60);
    assert_eq!(paths.len(), lines.len());
}

#[test]
fn the_other_way_round_every_line_is_mirrored() {
    let number = |k: &str, n: u64| (k.to_owned(), Value::Number(n));
    let list = |n: u64| Value::Array((0..n).map(Value::Number).collect());
    let a = object_of(vec![number("b", 1), number("a", 2), ("l".into(), list(2))]);
    let b = object_of(vec![number("b", 3), number("d", 4), ("l".into(), list(1))]);
    assert_eq!(
        differences(&a, &b),
        [
            "p.a: 2 -> (removed)",
            "p.b: 1 -> 3",
            "p.d: (added) -> 4",
            "p.l[1]: 1 -> (removed)",
        ]
    );
    assert_eq!(
        differences(&b, &a),
        [
            "p.a: (added) -> 2",
            "p.b: 3 -> 1",
            "p.d: 4 -> (removed)",
            "p.l[1]: (added) -> 1",
        ]
    );
}

#[test]
fn from_wgpu_limits_takes_the_storage_binding_not_max_buffer_size() {
    let limits = wgpu::Limits {
        max_buffer_size: 512 << 20,
        max_storage_buffer_binding_size: 128 << 20,
        ..wgpu::Limits::default()
    };
    let g = GpuLimits::from_wgpu_limits(&plain(&limits), 8 << 30, 6 << 30);
    assert_eq!(g.max_buffer_bytes, 128 << 20);
    assert!(g.detected);
}

#[test]
fn every_limit_is_listed_under_its_name() {
    let limits = distinct();
    let value = serde_json::to_value(&limits).unwrap();
    let mut want: Vec<(String, String)> =
        value.as_object().unwrap().iter().map(|(k, v)| (k.clone(), v.to_string())).collect();
    want.sort();
    assert_eq!(limits_kv(&plain(&limits)), want);
    assert_eq!(recommended_limits(&plain(&limits)), plain(&limits));
}

#[test]
fn backend_bits_are_wgpus() {
    assert_eq!(VULKAN, wgpu::Backends::VULKAN.bits());
    assert_eq!(METAL, wgpu::Backends::METAL.bits());
    assert_eq!(DX12, wgpu::Backends::DX12.bits());
    assert_eq!(GL, wgpu::Backends::GL.bits());
    assert_eq!(PRIMARY, wgpu::Backends::PRIMARY.bits());
    assert_eq!(ALL_BACKENDS, wgpu::Backends::all().bits());
    for bits in 0..0x40u32 {
        let want: Vec<String> = wgpu::Backends::from_bits_retain(bits)
            .iter_names()
            .map(|(name, _)| name.to_ascii_lowercase())
            .collect();
        assert_eq!(backends_requested(bits), want);
    }
    assert_eq!(backends_requested(VULKAN | DX12), vec!["vulkan".to_owned(), "dx12".to_owned()]);
}

#[test]
fn feature_bits_are_wgpus() {
    let all = wgpu::Features::all().bits().0;
    assert_eq!([WGPU_FEATURES, WEBGPU_FEATURES], all);
    assert_eq!([EXPERIMENTAL_FEATURES, 0], wgpu::Features::all_experimental_mask().bits().0);
    let stable = (wgpu::Features::all() & !wgpu::Features::all_experimental_mask()).bits().0;
    let got = stable_features();
    assert_eq!([got.wgpu, got.webgpu], stable);
}

#[test]
fn a_request_asks_only_for_supported_features() {
    let offer = AdapterOffer {
        features: FeatureBits { wgpu: 0b1100, webgpu: 0b11 },
        limits: plain(&distinct()),
    };
    let r = request_max_device(&offer, FeatureBits { wgpu: 0b1010, webgpu: 0b110 });
    assert_eq!(r.features, FeatureBits { wgpu: 0b1000, webgpu: 0b10 });
    assert_eq!(r.limits, plain(&distinct()));
}

#[test]
fn an_adapter_report_says_what_the_adapter_says() {
    let r = AdapterReport::from_adapter(&facts());
    assert_eq!(r.name, "Some GPU");
    assert_eq!(r.backend, "vulkan");
    assert_eq!(r.device_type, "IntegratedGpu");
    assert_eq!(r.vendor_name, Some("Intel".to_owned()));
    assert_eq!((r.vendor, r.device), (0x8086, 0x1_46a6));
    assert_eq!((r.subgroup_min_size, r.subgroup_max_size), (8, 32));
    let names: Vec<String> = (wgpu::Features::TIMESTAMP_QUERY
        | wgpu::Features::MAPPABLE_PRIMARY_BUFFERS)
        .iter_names()
        .map(|(n, _)| n.to_string())
        .collect();
    assert_eq!(names.len(), 2);
    assert!(names.contains(&"TIMESTAMP_QUERY".to_owned()));
    assert!(names.contains(&"MAPPABLE_PRIMARY_BUFFERS".to_owned()));
    assert_eq!(r.features, names);
    assert!(r.downlevel.is_webgpu_compliant);
    assert_eq!(r.downlevel.shader_model, "Sm5");
    let flags: Vec<String> =
        wgpu::DownlevelFlags::all().iter_names().map(|(n, _)| n.to_string()).collect();
    assert_eq!(r.downlevel.flags, flags);
    assert_eq!(r.texture_formats.len(), 1);
    assert_eq!(r.texture_formats[0].format, "Rgba16Float");
    assert_eq!(r.texture_formats[0].allowed_usages, vec!["COPY_SRC", "STORAGE_BINDING"]);
    assert_eq!(r.texture_formats[0].flags, vec!["FILTERABLE"]);
}

#[test]
fn flag_names_are_wgpus_bit_by_bit() {
    for bit in 0..32u32 {
        let bits = 1u32 << bit;
        let mut f = facts();
        f.downlevel_flags = bits;
        f.formats = vec![FormatFacts {
            format: TextureFormat::R8Unorm,
            allowed_usages: bits,
            flags: bits,
        }];
        let r = AdapterReport::from_adapter(&f);
        let downlevel: Vec<String> = wgpu::DownlevelFlags::from_bits_retain(bits)
            .iter_names()
            .map(|(n, _)| n.to_string())
            .collect();
        let usages: Vec<String> = wgpu::TextureUsages::from_bits_retain(bits)
            .iter_names()
            .map(|(n, _)| n.to_string())
            .collect();
        let flags: Vec<String> = wgpu::TextureFormatFeatureFlags::from_bits_retain(bits)
            .iter_names()
            .map(|(n, _)| n.to_string())
            .collect();
        assert_eq!(r.downlevel.flags, downlevel);
        assert_eq!(r.texture_formats[0].allowed_usages, usages);
        assert_eq!(r.texture_formats[0].flags, flags);
        assert!(!r.downlevel.is_webgpu_compliant);
    }
}

#[test]
fn compliance_needs_every_required_flag_and_the_highest_model() {
    assert_eq!(COMPLIANT_FLAGS, wgpu::DownlevelFlags::compliant().bits());
    let mut f = facts();
    f.downlevel_flags = COMPLIANT_FLAGS;
    assert!(AdapterReport::from_adapter(&f).downlevel.is_webgpu_compliant);
    for model in [ShaderModel::Sm2, ShaderModel::Sm4] {
        f.shader_model = model;
        assert!(!AdapterReport::from_adapter(&f).downlevel.is_webgpu_compliant);
    }
    assert_eq!(AdapterReport::from_adapter(&f).downlevel.shader_model, "Sm4");
}

#[test]
fn device_types_and_backends_have_their_names() {
    let types = [
        (DeviceType::Other, "Other"),
        (DeviceType::IntegratedGpu, "IntegratedGpu"),
        (DeviceType::DiscreteGpu, "DiscreteGpu"),
        (DeviceType::VirtualGpu, "VirtualGpu"),
        (DeviceType::Cpu, "Cpu"),
    ];
    let backends = [
        (Backend::Noop, wgpu::Backend::Noop),
        (Backend::Vulkan, wgpu::Backend::Vulkan),
        (Backend::Metal, wgpu::Backend::Metal),
        (Backend::Dx12, wgpu::Backend::Dx12),
        (Backend::Gl, wgpu::Backend::Gl),
        (Backend::BrowserWebGpu, wgpu::Backend::BrowserWebGpu),
    ];
    for (t, name) in types {
        for (b, theirs) in backends {
            let mut f = facts();
            f.device_type = t;
            f.backend = b;
            let r = AdapterReport::from_adapter(&f);
            assert_eq!((r.device_type.as_str(), r.backend.as_str()), (name, theirs.to_str()));
        }
    }
}

#[test]
fn covered_formats_have_wgpus_names() {
    let theirs = [
        wgpu::TextureFormat::R8Unorm,
        wgpu::TextureFormat::Rg8Unorm,
        wgpu::TextureFormat::Rgba8Unorm,
        wgpu::TextureFormat::Rgba8UnormSrgb,
        wgpu::TextureFormat::Bgra8Unorm,
        wgpu::TextureFormat::Bgra8UnormSrgb,
        wgpu::TextureFormat::Rgb10a2Unorm,
        wgpu::TextureFormat::Rg11b10Ufloat,
        wgpu::TextureFormat::R16Float,
        wgpu::TextureFormat::Rg16Float,
        wgpu::TextureFormat::Rgba16Float,
        wgpu::TextureFormat::R32Float,
        wgpu::TextureFormat::Rg32Float,
        wgpu::TextureFormat::Rgba32Float,
        wgpu::TextureFormat::R32Uint,
        wgpu::TextureFormat::Rgba32Uint,
        wgpu::TextureFormat::Depth16Unorm,
        wgpu::TextureFormat::Depth24Plus,
        wgpu::TextureFormat::Depth24PlusStencil8,
        wgpu::TextureFormat::Depth32Float,
        wgpu::TextureFormat::Bc1RgbaUnorm,
        wgpu::TextureFormat::Bc7RgbaUnorm,
    ];
    let ours: Vec<&str> = common_formats().into_iter().map(format_str).collect();
    let want: Vec<String> = theirs.iter().map(|f| format!("{f:?}")).collect();
    assert_eq!(ours, want);
    let mut f = facts();
    f.formats = common_formats()
        .into_iter()
        .map(|format| FormatFacts { format, allowed_usages: 1, flags: 0 })
        .collect();
    let r = AdapterReport::from_adapter(&f);
    let reported: Vec<String> = r.texture_formats.into_iter().map(|t| t.format).collect();
    assert_eq!(reported, want);
    assert_eq!(reported.len(), 22);
}

#[test]
fn vendors_are_recognized() {
    let known = [
        (0x10005, "Mesa"),
        (0x10de, "NVIDIA"),
        (0x1002, "AMD"),
        (0x1022, "AMD"),
        (0x8086, "Intel"),
        (0x13b5, "ARM"),
        (0x5143, "Qualcomm"),
        (0x1010, "ImgTec"),
        (0x106b, "Apple"),
        (0x1414, "Microsoft"),
        (0xdead_10de, "NVIDIA"),
    ];
    for (id, name) in known {
        assert_eq!(vendor_name(id), Some(name));
    }
    assert_eq!(vendor_name(0), None);
    assert_eq!(vendor_name(0x0005), None);
    assert_eq!(vendor_name(0x20005), None);
}

#[test]
fn the_primary_adapter_is_the_first_discrete_one() {
    let adapter = |name: &str, kind: &str| AdapterReport {
        name: name.into(),
        device_type: kind.into(),
        ..sample().adapters.remove(0)
    };
    let mut r = sample();
    r.adapters = vec![
        adapter("a", "IntegratedGpu"),
        adapter("b", "DiscreteGpu"),
        adapter("c", "DiscreteGpu"),
    ];
    assert_eq!(r.primary_summary(), ("b".to_owned(), "vulkan".to_owned()));
    r.adapters = vec![adapter("a", "Cpu"), adapter("b", "IntegratedGpu")];
    assert_eq!(r.primary_summary(), ("a".to_owned(), "vulkan".to_owned()));
    r.adapters.clear();
    assert_eq!(r.primary_summary(), ("unknown".to_owned(), "none".to_owned()));
}

#[test]
fn a_query_reports_every_adapter_in_order() {
    let mut second = facts();
    second.name = "Other GPU".into();
    let r = query_backends("1.2.3", VULKAN | GL, &vec![facts(), second]);
    assert_eq!(r.wgpu_info_version, "1.2.3");
    assert_eq!(r.wgpu_version, "30");
    assert_eq!(r.backends_requested, vec!["vulkan", "gl"]);
    assert_eq!(r.adapters.len(), 2);
    assert_eq!(r.adapters[0].name, "Some GPU");
    assert_eq!(r.adapters[1].name, "Other GPU");
}

#[test]
fn a_pretty_report_of_nothing() {
    let r = GpuReport {
        backends_requested: vec!["vulkan".into(), "gl".into()],
        adapters: vec![],
        ..sample()
    };
    assert_eq!(
        r.to_pretty(),
        "wgpu-info 0.1.0 (wgpu 29) — backends: vulkan, gl\n\nNo adapters found.\n"
    );
}

#[test]
fn a_pretty_report_of_an_adapter() {
    let r = sample();
    let text = r.to_pretty();
    let mut want = String::from(
        "wgpu-info 0.1.0 (wgpu 29) — backends: vulkan\n\n[0] Test GPU (vulkan)\n    type        : DiscreteGpu\n    vendor      : NVIDIA (0x10de)\n    device      : 0x1234\n    driver      : test 1.0\n    pci bus id  : 0000:01:00.0\n    subgroup    : 32..32\n    downlevel   : shader_model=Sm5, webgpu_compliant=true\n    limits:\n",
    );
    for (k, v) in limits_kv(&r.adapters[0].limits) {
        want.push_str(&format!("        {k:<55} {v}\n"));
    }
    want.push_str("    features (1):\n        TEXTURE_BINDING_ARRAY\n");
    assert_eq!(text, want);
}

#[test]
fn a_pretty_report_leaves_out_what_is_unknown() {
    let mut r = sample();
    r.adapters[0].vendor_name = None;
    r.adapters[0].vendor = 0x1_0abc;
    r.adapters[0].driver = String::new();
    r.adapters[0].driver_info = String::new();
    r.adapters[0].pci_bus_id = String::new();
    r.adapters[0].features.clear();
    let text = r.to_pretty();
    assert!(text.contains("    vendor      : 0x0abc\n    device      : 0x1234\n    subgroup    : "));
    assert!(text.ends_with("    features (0):\n        (none)\n"));
}

#[test]
fn a_summary_is_seven_lines() {
    let want = "GPU: Test GPU  [vulkan, DiscreteGpu]\n  vendor   : NVIDIA (0x10de)   device 0x1234\n  driver   : test 1.0\n  shader   : model=Sm5  webgpu_compliant=true  subgroup=32..32\n  buffers  : storage/stage=8  uniform/stage=12  max_storage_binding=134217728  max_buffer=268435456\n  compute  : invocations/wg=256  wg_size=[256, 256, 64]  wg/dim=65535\n  binding  : bind_groups=4  sampled_textures/stage=16  samplers/stage=16";
    assert_eq!(report_summary(&sample().adapters[0]), want);
    let text = adapter_summary(&facts());
    assert!(text.starts_with("GPU: Some GPU  [vulkan, IntegratedGpu]\n  vendor   : Intel (0x8086)   device 0x46a6\n  driver   : drv \n"));
}

#[test]
fn selecting_an_adapter_keeps_only_that_one() {
    let mut r = sample();
    let mut second = r.adapters[0].clone();
    second.name = "Second".into();
    let mut third = r.adapters[0].clone();
    third.name = "Third".into();
    r.adapters.push(second);
    r.adapters.push(third);
    let kept = select_adapter(r.clone(), 1).unwrap();
    assert_eq!(kept.adapters.len(), 1);
    assert_eq!(kept.adapters[0].name, "Second");
    assert_eq!(kept.backends_requested, r.backends_requested);
    assert_eq!(
        select_adapter(r, 3),
        Err("adapter index 3 out of range (3 adapters found)".to_owned())
    );
}

const BACKENDS: [(u32, &str); 6] = [
    (0x1, "noop"),
    (0x2, "vulkan"),
    (0x10, "gl"),
    (0x4, "metal"),
    (0x8, "dx12"),
    (0x20, "browser_webgpu"),
];

const USAGES: [(u32, &str); 7] = [
    (0x1, "COPY_SRC"),
    (0x2, "COPY_DST"),
    (0x4, "TEXTURE_BINDING"),
    (0x8, "STORAGE_BINDING"),
    (0x10, "RENDER_ATTACHMENT"),
    (0x20, "TRANSIENT_ATTACHMENT"),
    (0x10000, "STORAGE_ATOMIC"),
];

const FORMAT_FLAGS: [(u32, &str); 11] = [
    (0x1, "FILTERABLE"),
    (0x2, "MULTISAMPLE_X2"),
    (0x4, "MULTISAMPLE_X4"),
    (0x8, "MULTISAMPLE_X8"),
    (0x10, "MULTISAMPLE_X16"),
    (0x20, "MULTISAMPLE_RESOLVE"),
    (0x40, "STORAGE_READ_ONLY"),
    (0x80, "STORAGE_WRITE_ONLY"),
    (0x100, "STORAGE_READ_WRITE"),
    (0x200, "STORAGE_ATOMIC"),
    (0x400, "BLENDABLE"),
];

const DOWNLEVEL: [(u32, &str); 26] = [
    (0x1, "COMPUTE_SHADERS"),
    (0x2, "FRAGMENT_WRITABLE_STORAGE"),
    (0x4, "INDIRECT_EXECUTION"),
    (0x8, "BASE_VERTEX"),
    (0x10, "READ_ONLY_DEPTH_STENCIL"),
    (0x20, "NON_POWER_OF_TWO_MIPMAPPED_TEXTURES"),
    (0x40, "CUBE_ARRAY_TEXTURES"),
    (0x80, "COMPARISON_SAMPLERS"),
    (0x100, "INDEPENDENT_BLEND"),
    (0x200, "VERTEX_STORAGE"),
    (0x400, "ANISOTROPIC_FILTERING"),
    (0x800, "FRAGMENT_STORAGE"),
    (0x1000, "MULTISAMPLED_SHADING"),
    (0x2000, "DEPTH_TEXTURE_AND_BUFFER_COPIES"),
    (0x4000, "WEBGPU_TEXTURE_FORMAT_SUPPORT"),
    (0x8000, "BUFFER_BINDINGS_NOT_16_BYTE_ALIGNED"),
    (0x10000, "UNRESTRICTED_INDEX_BUFFER"),
    (0x20000, "FULL_DRAW_INDEX_UINT32"),
    (0x40000, "DEPTH_BIAS_CLAMP"),
    (0x80000, "VIEW_FORMATS"),
    (0x100000, "UNRESTRICTED_EXTERNAL_TEXTURE_COPIES"),
    (0x200000, "SURFACE_VIEW_FORMATS"),
    (0x400000, "NONBLOCKING_QUERY_RESOLVE"),
    (0x800000, "SHADER_F16_IN_F32"),
    (0x1000000, "MSL2_1"),
    (0x2000000, "TEXTURE_COMPRESSION"),
];

/// The names of the flags of a table that are set, in table order.
fn set_in(table: &[(u32, &str)], bits: u32) -> Vec<String> {
    table.iter().filter(|(bit, _)| bits & bit != 0).map(|(_, name)| name.to_string()).collect()
}

#[test]
fn flags_have_their_names_in_order() {
    let mut samples: Vec<u32> = (0..32).map(|bit| 1u32 << bit).collect();
    samples.push(0);
    samples.push(u32::MAX);
    samples.push(0x5555_5555);
    samples.push(0xaaaa_aaaa);
    for bits in samples {
        assert_eq!(backends_requested(bits), set_in(&BACKENDS, bits), "{bits:x}");
        let mut f = facts();
        f.downlevel_flags = bits;
        f.formats = vec![FormatFacts {
            format: TextureFormat::R8Unorm,
            allowed_usages: bits,
            flags: bits,
        }];
        let r = AdapterReport::from_adapter(&f);
        assert_eq!(r.downlevel.flags, set_in(&DOWNLEVEL, bits), "{bits:x}");
        assert_eq!(r.texture_formats[0].allowed_usages, set_in(&USAGES, bits), "{bits:x}");
        assert_eq!(r.texture_formats[0].flags, set_in(&FORMAT_FLAGS, bits), "{bits:x}");
    }
}

#[test]
fn every_sample_count_has_its_flag() {
    for bits in 0..0x800u32 {
        let mut want = vec![1];
        for (flag, count) in [(0x2, 2), (0x4, 4), (0x8, 8), (0x10, 16)] {
            if bits & flag != 0 {
                want.push(count);
            }
        }
        assert_eq!(sample_counts_from_flags(bits), want, "{bits:x}");
    }
}

#[test]
fn one_missing_flag_is_not_compliant() {
    for bit in 0..32u32 {
        let mut f = facts();
        f.downlevel_flags = u32::MAX & !(1 << bit);
        let required = COMPLIANT_FLAGS & (1 << bit) != 0;
        let r = AdapterReport::from_adapter(&f);
        assert_eq!(r.downlevel.is_webgpu_compliant, !required, "{bit}");
    }
}

#[test]
fn json_texts_escape_quotes_backslashes_and_controls() {
    for n in 0..0x11_0000u32 {
        if n > 0x400 && n % 997 != 0 {
            continue;
        }
        if let Some(c) = char::from_u32(n) {
            let inner = match c {
                '"' => "\\\"".to_owned(),
                '\\' => "\\\\".to_owned(),
                '\u{8}' => "\\b".to_owned(),
                '\u{9}' => "\\t".to_owned(),
                '\u{a}' => "\\n".to_owned(),
                '\u{c}' => "\\f".to_owned(),
                '\u{d}' => "\\r".to_owned(),
                c if n < 0x20 => format!("\\u00{:02x}", c as u32),
                c => c.to_string(),
            };
            let mut text = String::new();
            push_json(&mut text, &Value::Text(format!("a{c}b")));
            assert_eq!(text, format!("\"a{inner}b\""), "{n:x}");
        }
    }
}
