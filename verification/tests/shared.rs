//! The shared device: its negotiation, the module pin, and its Vulkan half.
use gpu_info::caps::Limits;
use gpu_info::flags::{stable_features, FeatureBits, EXPERIMENTAL_FEATURES};
use gpu_info::pin::{pin_containing_module, LoaderAnswer, PinError, UnixAnswer};
use gpu_info::shared::{Action, AdapterOffer, AdapterWish, Event, Negotiation};
use gpu_info::shared_vk::{
    add_extensions, add_queues, compute_choice, decode_family, describe_shared, open_shared,
    plan_shared, present_video_ext, DevicePlan, Queue, QueueFamily, QueueRequest, Refusal,
    SharedOutcome, VulkanFacts, API_VERSION_1_2, API_VERSION_1_3, COMPUTE, VIDEO_DECODE,
};

fn texts(list: &[&str]) -> Vec<String> {
    list.iter().map(|s| s.to_string()).collect()
}

/// The queue families of a card with a family for each kind of work.
fn families() -> Vec<QueueFamily> {
    vec![
        QueueFamily { flags: 0xf, count: 16 },
        QueueFamily { flags: 0xc, count: 2 },
        QueueFamily { flags: 0xe, count: 8 },
        QueueFamily { flags: 0x20, count: 1 },
    ]
}

fn facts() -> VulkanFacts {
    VulkanFacts {
        extensions: texts(&[
            "VK_KHR_video_decode_h264",
            "VK_KHR_swapchain",
            "VK_KHR_video_decode_queue",
            "VK_KHR_video_queue",
        ]),
        families: families(),
        instance_api_version: API_VERSION_1_3,
        device_api_version: API_VERSION_1_3,
        reports_synchronization2: true,
    }
}

fn offer() -> AdapterOffer {
    AdapterOffer {
        features: FeatureBits { wgpu: u64::MAX, webgpu: 0b101 },
        limits: limits(),
    }
}

/// Limits with a recognisable number in one place.
fn limits() -> Limits {
    Limits {
        max_texture_dimension_1d: 0,
        max_texture_dimension_2d: 0,
        max_texture_dimension_3d: 0,
        max_texture_array_layers: 0,
        max_bind_groups: 7,
        max_bind_groups_plus_vertex_buffers: 0,
        max_bindings_per_bind_group: 0,
        max_dynamic_uniform_buffers_per_pipeline_layout: 0,
        max_dynamic_storage_buffers_per_pipeline_layout: 0,
        max_sampled_textures_per_shader_stage: 0,
        max_samplers_per_shader_stage: 0,
        max_storage_buffers_per_shader_stage: 0,
        max_storage_textures_per_shader_stage: 0,
        max_uniform_buffers_per_shader_stage: 0,
        max_binding_array_elements_per_shader_stage: 0,
        max_binding_array_acceleration_structure_elements_per_shader_stage: 0,
        max_binding_array_sampler_elements_per_shader_stage: 0,
        max_uniform_buffer_binding_size: 0,
        max_storage_buffer_binding_size: 0,
        max_vertex_buffers: 0,
        max_buffer_size: 0,
        max_vertex_attributes: 0,
        max_vertex_buffer_array_stride: 0,
        max_inter_stage_shader_variables: 0,
        min_uniform_buffer_offset_alignment: 0,
        min_storage_buffer_offset_alignment: 0,
        max_color_attachments: 0,
        max_color_attachment_bytes_per_sample: 0,
        max_compute_workgroup_storage_size: 0,
        max_compute_invocations_per_workgroup: 0,
        max_compute_workgroup_size_x: 0,
        max_compute_workgroup_size_y: 0,
        max_compute_workgroup_size_z: 0,
        max_compute_workgroups_per_dimension: 0,
        max_immediate_size: 0,
        max_non_sampler_bindings: 0,
        max_task_workgroup_total_count: 0,
        max_task_workgroups_per_dimension: 0,
        max_mesh_workgroup_total_count: 0,
        max_mesh_workgroups_per_dimension: 0,
        max_task_invocations_per_workgroup: 0,
        max_task_invocations_per_dimension: 0,
        max_mesh_invocations_per_workgroup: 0,
        max_mesh_invocations_per_dimension: 0,
        max_task_payload_size: 0,
        max_mesh_output_vertices: 0,
        max_mesh_output_primitives: 0,
        max_mesh_output_layers: 0,
        max_mesh_multiview_view_count: 0,
        max_blas_primitive_count: 0,
        max_blas_geometry_count: 0,
        max_tlas_instance_count: 0,
        max_acceleration_structures_per_shader_stage: 0,
        max_buffers_and_acceleration_structures_per_shader_stage: 0,
        max_multiview_view_count: 0,
        max_ray_dispatch_count: 0,
        max_ray_recursion_depth: 0,
    }
}

#[test]
fn vulkan_constants_are_ashs() {
    assert_eq!(COMPUTE, ash::vk::QueueFlags::COMPUTE.as_raw());
    assert_eq!(VIDEO_DECODE, ash::vk::QueueFlags::VIDEO_DECODE_KHR.as_raw());
    assert_eq!(API_VERSION_1_2, ash::vk::API_VERSION_1_2);
    assert_eq!(API_VERSION_1_3, ash::vk::API_VERSION_1_3);
}

/// What a loader answers that did all it was asked.
fn pinned() -> UnixAnswer {
    UnixAnswer { found: 1, has_file_name: true, opened: true, reason: None }
}

#[test]
fn pinning_the_containing_module_succeeds_repeatedly() {
    assert_eq!(pin_containing_module(&LoaderAnswer::Unix(pinned())), Ok(()));
    assert_eq!(pin_containing_module(&LoaderAnswer::Unix(pinned())), Ok(()));
}

#[test]
fn a_failed_pin_says_why() {
    let cases = [
        (
            LoaderAnswer::Unix(UnixAnswer { found: 0, ..pinned() }),
            "dladdr found no object containing gpu-info-rs",
        ),
        (
            LoaderAnswer::Unix(UnixAnswer { has_file_name: false, opened: false, ..pinned() }),
            "dladdr returned no file name for gpu-info-rs",
        ),
        (
            LoaderAnswer::Unix(UnixAnswer {
                opened: false,
                reason: Some("gone".into()),
                ..pinned()
            }),
            "dlopen(RTLD_NOLOAD | RTLD_NODELETE) failed: gone",
        ),
        (
            LoaderAnswer::Unix(UnixAnswer { opened: false, ..pinned() }),
            "dlopen(RTLD_NOLOAD | RTLD_NODELETE) failed: no dlerror message",
        ),
        (
            LoaderAnswer::Windows(Some("denied".into())),
            "GetModuleHandleExW(FROM_ADDRESS | PIN) failed: denied",
        ),
    ];
    for (answer, message) in cases {
        let e = pin_containing_module(&answer).unwrap_err();
        assert_eq!(e, PinError(message.to_owned()));
        assert_eq!(e.message(), message);
    }
    assert_eq!(pin_containing_module(&LoaderAnswer::Windows(None)), Ok(()));
    assert_eq!(pin_containing_module(&LoaderAnswer::NoModules), Ok(()));
}

#[test]
fn a_negotiation_pins_asks_and_opens() {
    let n = Negotiation::start();
    assert_eq!(n.action(), Action::Pin);
    let n = n.step(&Event::Loader(LoaderAnswer::Unix(pinned())));
    let wish = AdapterWish { high_performance: true, software: false };
    assert_eq!(n.action(), Action::AskAdapter(wish));
    let n = n.step(&Event::Adapter(Some(offer())));
    match n.action() {
        Action::OpenShared(request) => {
            let stable = stable_features();
            assert_eq!(request.features.wgpu, stable.wgpu);
            assert_eq!(request.features.wgpu & EXPERIMENTAL_FEATURES, 0);
            assert_eq!(request.features.webgpu, 0b101);
            assert_eq!(request.limits, offer().limits);
        }
        _ => panic!("no device to open"),
    }
    assert_eq!(n.step(&Event::SharedOpened(SharedOutcome::Opened)), Negotiation::DoneShared);
    assert_eq!(n.step(&Event::SharedOpened(SharedOutcome::Failed)), Negotiation::DoneNone);
    let n = n.step(&Event::SharedOpened(SharedOutcome::NotCapable));
    assert!(matches!(n.action(), Action::RequestDevice(_)));
    assert_eq!(n.step(&Event::DeviceMade(true)), Negotiation::DonePlain);
    assert_eq!(n.step(&Event::DeviceMade(false)), Negotiation::DoneNone);
}

#[test]
fn a_failed_creation_is_not_a_missing_capability() {
    let capable = Some(facts());
    let plan = plan_shared(&facts()).unwrap();
    let info = describe_shared(&facts(), &plan, Queue { family: 0, index: 0 }, &vec![]);
    assert!(info.is_ok());
    assert_eq!(open_shared(&capable, &Some(info.clone())), SharedOutcome::Opened);
    assert_eq!(open_shared(&capable, &None), SharedOutcome::Failed);
    let moved = Some(Err(Refusal::QueueMoved));
    assert_eq!(open_shared(&capable, &moved), SharedOutcome::NotCapable);
    assert_eq!(open_shared(&None, &None), SharedOutcome::NotCapable);
    let mut silent = facts();
    silent.extensions.clear();
    assert_eq!(open_shared(&Some(silent.clone()), &None), SharedOutcome::NotCapable);
    assert_eq!(open_shared(&Some(silent), &Some(info)), SharedOutcome::NotCapable);
}

#[test]
fn a_module_that_cannot_be_pinned_gets_no_device() {
    let n = Negotiation::start().step(&Event::Loader(LoaderAnswer::Windows(Some("denied".into()))));
    assert_eq!(n, Negotiation::DoneNone);
    assert_eq!(n.action(), Action::Stop);
    assert_eq!(n.step(&Event::Adapter(Some(offer()))), Negotiation::DoneNone);
}

#[test]
fn a_machine_without_an_adapter_gets_no_device() {
    let n = Negotiation::start()
        .step(&Event::Loader(LoaderAnswer::NoModules))
        .step(&Event::Adapter(None));
    assert_eq!(n, Negotiation::DoneNone);
}

#[test]
fn an_answer_that_was_not_asked_for_changes_nothing() {
    let n = Negotiation::start();
    assert_eq!(n.step(&Event::DeviceMade(true)), n);
    assert_eq!(n.step(&Event::Adapter(None)), n);
}

#[test]
fn only_present_video_extensions_are_requested_in_order() {
    assert_eq!(
        present_video_ext(&facts().extensions),
        texts(&[
            "VK_KHR_video_queue",
            "VK_KHR_video_decode_queue",
            "VK_KHR_video_decode_h264",
        ])
    );
    assert!(present_video_ext(&vec![]).is_empty());
}

#[test]
fn every_kind_of_work_gets_its_own_family_where_possible() {
    let plan = plan_shared(&facts()).unwrap();
    assert_eq!(plan.decode_queue, Queue { family: 3, index: 0 });
    assert_eq!(plan.compute_queue, Some(Queue { family: 2, index: 0 }));
    assert_eq!(decode_family(&families()), Some(3));
    assert_eq!(decode_family(&vec![]), None);
}

#[test]
fn a_second_queue_of_the_renderers_family_is_the_fallback() {
    let mut f = families();
    f[2].flags = 0xc;
    assert_eq!(compute_choice(&f, 3), Some(Queue { family: 0, index: 1 }));
    f[0].count = 1;
    assert_eq!(compute_choice(&f, 3), None);
    f[0].count = 2;
    f[0].flags = 0xd;
    assert_eq!(compute_choice(&f, 3), None);
}

#[test]
fn an_adapter_that_cannot_decode_is_refused() {
    let mut f = facts();
    f.extensions = texts(&["VK_KHR_video_queue"]);
    assert_eq!(plan_shared(&f), Err(Refusal::NoVideoExtensions));
    let mut f = facts();
    f.families[3].flags = 0x4;
    assert_eq!(plan_shared(&f), Err(Refusal::NoDecodeFamily));
    let mut f = facts();
    f.families[0].flags |= 0x20;
    assert_eq!(plan_shared(&f), Err(Refusal::DecodeFamilyIsOurs));
}

#[test]
fn synchronization2_is_chained_only_where_it_can_exist() {
    assert!(plan_shared(&facts()).unwrap().chain_synchronization2);
    let mut f = facts();
    f.device_api_version = API_VERSION_1_2;
    let plan = plan_shared(&f).unwrap();
    assert!(!plan.chain_synchronization2);
    assert_eq!(plan.extra_extensions, plan.video_extensions);
    f.extensions.push("VK_KHR_synchronization2".into());
    let plan = plan_shared(&f).unwrap();
    assert!(plan.chain_synchronization2);
    assert_eq!(plan.extra_extensions.last().unwrap(), "VK_KHR_synchronization2");
    assert_eq!(plan.extra_extensions.len(), plan.video_extensions.len() + 1);
}

#[test]
fn each_family_is_asked_for_once() {
    let mut requests = vec![QueueRequest { family: 0, count: 1 }];
    add_queues(&mut requests, &plan_shared(&facts()).unwrap());
    assert_eq!(
        requests,
        vec![
            QueueRequest { family: 0, count: 1 },
            QueueRequest { family: 3, count: 1 },
            QueueRequest { family: 2, count: 1 },
        ]
    );
    let mut f = facts();
    f.families[2].flags = 0xc;
    let mut requests = vec![QueueRequest { family: 0, count: 1 }];
    add_queues(&mut requests, &plan_shared(&f).unwrap());
    assert_eq!(
        requests,
        vec![QueueRequest { family: 0, count: 2 }, QueueRequest { family: 3, count: 1 }]
    );
}

#[test]
fn extensions_are_only_added() {
    let plan: DevicePlan = plan_shared(&facts()).unwrap();
    let mut all = texts(&["VK_KHR_swapchain"]);
    add_extensions(&mut all, &plan);
    assert_eq!(all[0], "VK_KHR_swapchain");
    assert_eq!(all[1..], plan.extra_extensions[..]);
}

#[test]
fn a_consumer_is_told_what_was_enabled() {
    let f = facts();
    let plan = plan_shared(&f).unwrap();
    let all = texts(&["VK_KHR_swapchain", "VK_KHR_video_queue"]);
    let shared = describe_shared(&f, &plan, Queue { family: 0, index: 0 }, &all).unwrap();
    assert_eq!(shared.main_queue, Queue { family: 0, index: 0 });
    assert_eq!(shared.decode_queue(), Some(plan.decode_queue));
    assert_eq!(shared.compute_queue(), plan.compute_queue);
    assert_eq!(shared.video_extensions, plan.video_extensions);
    assert_eq!(shared.device_extensions, all);
    assert!(shared.timeline_semaphore && shared.synchronization2);
    assert!(!shared.sampler_ycbcr_conversion);
}

#[test]
fn a_feature_the_device_does_not_report_is_not_claimed() {
    let mut f = facts();
    f.reports_synchronization2 = false;
    f.device_api_version = API_VERSION_1_2 - 1;
    let plan = plan_shared(&f).unwrap();
    let shared = describe_shared(&f, &plan, Queue { family: 0, index: 0 }, &vec![]).unwrap();
    assert!(!shared.synchronization2 && !shared.timeline_semaphore);
    assert_eq!(shared.usable_api_version(), API_VERSION_1_2 - 1);
    f.extensions.push("VK_KHR_timeline_semaphore".into());
    let shared = describe_shared(&f, &plan, Queue { family: 0, index: 0 }, &vec![]).unwrap();
    assert!(shared.timeline_semaphore);
    f.device_api_version = API_VERSION_1_3;
    f.instance_api_version = API_VERSION_1_2;
    let shared = describe_shared(&f, &plan, Queue { family: 0, index: 0 }, &vec![]).unwrap();
    assert_eq!(shared.usable_api_version(), API_VERSION_1_2);
}

#[test]
fn a_moved_renderer_queue_stops_the_sharing() {
    let f = facts();
    let plan = plan_shared(&f).unwrap();
    for opened in [Queue { family: 1, index: 0 }, Queue { family: 0, index: 1 }] {
        assert_eq!(describe_shared(&f, &plan, opened, &vec![]), Err(Refusal::QueueMoved));
    }
}

#[test]
fn a_capable_vulkan_adapter_yields_a_decode_capable_shared_device() {
    let f = facts();
    let plan = plan_shared(&f).expect("adapter can decode video");
    let mut all = texts(&["VK_KHR_swapchain"]);
    add_extensions(&mut all, &plan);
    let vk = describe_shared(&f, &plan, Queue { family: 0, index: 0 }, &all).expect("shared");
    assert!(vk.decode_queue.is_some(), "a shared Vulkan half without a decode family is useless");
    assert!(vk.decode_queue().is_some(), "decode queue must be fetchable");
    assert_ne!(vk.main_queue.family, u32::MAX, "wgpu's queue family was not recorded");
    assert_ne!(
        Some(vk.main_queue.family),
        vk.decode_queue.map(|q| q.family),
        "the decode queue must be its own family, or the decoder blocks wgpu's queue"
    );
    for core in ["VK_KHR_video_queue", "VK_KHR_video_decode_queue"] {
        assert!(
            vk.video_extensions.iter().any(|e| e == core),
            "the core video extensions must be enabled, got {:?}",
            vk.video_extensions
        );
        assert!(vk.device_extensions.iter().any(|e| e == core));
    }
    assert!(
        vk.instance_api_version >= API_VERSION_1_3,
        "a decode consumer needs a 1.3 instance, got {:#x}",
        vk.instance_api_version
    );
    assert!(vk.synchronization2);
    assert!(vk.timeline_semaphore, "a 1.2+ device has timeline semaphores, and wgpu enables them");
    assert!(
        !vk.device_extensions.is_empty(),
        "the enabled extension list is what a consumer must be told; it cannot be empty"
    );

    let mut incapable = facts();
    incapable.extensions.clear();
    assert!(
        plan_shared(&incapable).is_err(),
        "this adapter cannot decode video, so no Vulkan half may be claimed"
    );
}
