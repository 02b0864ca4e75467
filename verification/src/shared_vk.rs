//! The Vulkan half of the one shared device: which extensions and queues a device needs that
//! serves both wgpu and a hardware video decoder, and what a consumer is told of it.
//!
//! wgpu never asks for the video extensions or for a decode queue. The device-create info passes
//! through this module before the device is made, so that what the decoder needs is added to what
//! wgpu requires, the device is created once, and wgpu adopts it.
use crate::text::{copy_texts, has_text, lemma_take_next, push_text, texts};
use vstd::prelude::*;

verus! {

// ---------------------------------------------------------------------------
// What the adapter says
// ---------------------------------------------------------------------------

/// The queue flag of families that can dispatch compute work.
pub const COMPUTE: u32 = 0x2;

/// The queue flag of families that can decode video.
pub const VIDEO_DECODE: u32 = 0x20;

/// Version 1.2 of the Vulkan interface.
pub const API_VERSION_1_2: u32 = 0x402000;

/// Version 1.3 of the Vulkan interface.
pub const API_VERSION_1_3: u32 = 0x403000;

/// The queue family that wgpu opens its own queue in.
pub const WGPU_FAMILY: u32 = 0;

/// A queue: its family and its index in it. The index is what decides whose queue a handle is.
#[derive(Debug, Clone, Copy, PartialEq, Eq, Structural)]
pub struct Queue {
    /// The family.
    pub family: u32,
    /// The index in the family.
    pub index: u32,
}

/// One queue family of a physical device.
#[derive(Debug, Clone, Copy, PartialEq, Eq, Structural)]
pub struct QueueFamily {
    /// The bits of what its queues can do.
    pub flags: u32,
    /// How many queues it has.
    pub count: u32,
}

/// What a Vulkan adapter says of itself.
#[derive(Debug, Clone, PartialEq)]
pub struct VulkanFacts {
    /// The device extensions it has.
    pub extensions: Vec<String>,
    /// Its queue families, in order.
    pub families: Vec<QueueFamily>,
    /// The API version the instance was created with.
    pub instance_api_version: u32,
    /// The API version of the physical device.
    pub device_api_version: u32,
    /// Does the physical device report the `synchronization2` feature?
    pub reports_synchronization2: bool,
}

/// `ash::vk::QueueFlags::contains`: all bits of `wanted` are set in `flags`.
#[verifier::external_body]
fn flags_contain(flags: u32, wanted: u32) -> (r: bool)
    ensures
        r == (flags & wanted == wanted),
{
    ash::vk::QueueFlags::from_raw(flags).contains(ash::vk::QueueFlags::from_raw(wanted))
}

/// Can a family decode video?
pub open spec fn can_decode(f: QueueFamily) -> bool {
    f.flags & VIDEO_DECODE == VIDEO_DECODE
}

/// Can a family dispatch compute work?
pub open spec fn can_compute(f: QueueFamily) -> bool {
    f.flags & COMPUTE == COMPUTE
}

/// The extensions that a video decoder needs on top of whatever wgpu requires, in request order.
///
/// Both codec extensions are listed because the device is created once, before anyone knows
/// which clip will be opened.
pub open spec fn video_ext() -> Seq<Seq<char>> {
    seq![
        "VK_KHR_video_queue"@,
        "VK_KHR_video_decode_queue"@,
        "VK_KHR_video_decode_h265"@,
        "VK_KHR_video_decode_h264"@,
    ]
}

/// The video extensions among `supported`, in request order.
pub open spec fn present(supported: Seq<Seq<char>>) -> Seq<Seq<char>> {
    video_ext().filter(|e: Seq<char>| supported.contains(e))
}

/// Are the two extensions there without which nothing is decoded at all?
pub open spec fn has_core(supported: Seq<Seq<char>>) -> bool {
    supported.contains("VK_KHR_video_queue"@) && supported.contains("VK_KHR_video_decode_queue"@)
}

/// The video extensions this adapter really has, in request order.
///
/// Asking for an extension that the device does not expose makes its creation fail outright, so
/// the list is filtered before it is requested.
pub fn present_video_ext(supported: &Vec<String>) -> (r: Vec<String>)
    ensures
        texts(r@) == present(texts(supported@)),
        texts(r@).contains("VK_KHR_video_queue"@) <==> texts(supported@).contains(
            "VK_KHR_video_queue"@,
        ),
        texts(r@).contains("VK_KHR_video_decode_queue"@) <==> texts(supported@).contains(
            "VK_KHR_video_decode_queue"@,
        ),
        texts(r@).contains("VK_KHR_video_decode_h265"@) <==> texts(supported@).contains(
            "VK_KHR_video_decode_h265"@,
        ),
        texts(r@).contains("VK_KHR_video_decode_h264"@) <==> texts(supported@).contains(
            "VK_KHR_video_decode_h264"@,
        ),
{
    let names: [&str; 4] = [
        "VK_KHR_video_queue",
        "VK_KHR_video_decode_queue",
        "VK_KHR_video_decode_h265",
        "VK_KHR_video_decode_h264",
    ];
    let ghost all = video_ext();
    let ghost wanted = |e: Seq<char>| texts(supported@).contains(e);
    let mut r: Vec<String> = Vec::new();
    let mut i: usize = 0;
    assert(all.take(0).filter(wanted) =~= seq![]) by {
        reveal(Seq::filter);
    }
    assert(texts(r@) =~= all.take(0).filter(wanted));
    while i < 4
        invariant
            i <= 4,
            all == video_ext(),
            wanted == (|e: Seq<char>| texts(supported@).contains(e)),
            names@.len() == 4,
            forall|k: int| 0 <= k < 4 ==> (#[trigger] names@[k])@ == all[k],
            texts(r@) == all.take(i as int).filter(wanted),
        decreases 4 - i,
    {
        if has_text(supported, names[i]) {
            push_text(&mut r, names[i].to_owned());
        }
        proof {
            reveal(Seq::filter);
            assert(all.take(i + 1).drop_last() =~= all.take(i as int));
        }
        i = i + 1;
    }
    assert(all.take(4) =~= all);
    proof {
        law_video_extensions(texts(supported@));
    }
    r
}

/// Is `i` the first of `families` that `wanted` holds of?
pub open spec fn is_first(
    families: Seq<QueueFamily>,
    wanted: spec_fn(int) -> bool,
    found: Option<u32>,
) -> bool {
    match found {
        Some(i) => i < families.len() && wanted(i as int) && forall|j: int|
            0 <= j < i ==> !#[trigger] wanted(j),
        None => forall|j: int| 0 <= j < families.len() ==> !#[trigger] wanted(j),
    }
}

/// The first queue family that can decode video, if any.
pub fn decode_family(families: &Vec<QueueFamily>) -> (r: Option<u32>)
    requires
        families@.len() <= u32::MAX,
    ensures
        is_first(families@, |j: int| can_decode(families@[j]), r),
{
    let mut i: usize = 0;
    while i < families.len()
        invariant
            i <= families@.len() <= u32::MAX,
            forall|j: int| 0 <= j < i ==> !can_decode(#[trigger] families@[j]),
        decreases families@.len() - i,
    {
        if flags_contain(families[i].flags, VIDEO_DECODE) {
            return Some(i as u32);
        }
        i = i + 1;
    }
    None
}

/// Is family `j` a compute family that neither wgpu nor the decoder uses?
pub open spec fn is_spare_compute(families: Seq<QueueFamily>, decode: u32, j: int) -> bool {
    j != WGPU_FAMILY && j != decode && can_compute(families[j])
}

/// The first compute family that neither wgpu nor the decoder uses, if any.
fn spare_compute_family(families: &Vec<QueueFamily>, decode: u32) -> (r: Option<u32>)
    requires
        families@.len() <= u32::MAX,
    ensures
        is_first(families@, |j: int| is_spare_compute(families@, decode, j), r),
{
    let mut i: usize = 0;
    while i < families.len()
        invariant
            i <= families@.len() <= u32::MAX,
            forall|j: int| 0 <= j < i ==> !#[trigger] is_spare_compute(families@, decode, j),
        decreases families@.len() - i,
    {
        let f = i as u32;
        if f != WGPU_FAMILY && f != decode && flags_contain(families[i].flags, COMPUTE) {
            return Some(f);
        }
        assert(!is_spare_compute(families@, decode, i as int));
        i = i + 1;
    }
    None
}

/// Has wgpu's family a second queue that can dispatch compute work?
pub open spec fn has_second_queue(families: Seq<QueueFamily>) -> bool {
    families.len() > WGPU_FAMILY && can_compute(families[WGPU_FAMILY as int])
        && families[WGPU_FAMILY as int].count >= 2
}

/// Is `queue` what a decoder gets to read its pictures with: a queue of a compute family of its
/// own, else the second queue of wgpu's family, else none?
pub open spec fn is_compute_choice(
    families: Seq<QueueFamily>,
    decode: u32,
    queue: Option<Queue>,
) -> bool {
    match queue {
        Some(q) => if q.family == WGPU_FAMILY {
            q.index == 1 && has_second_queue(families) && is_first(
                families,
                |j: int| is_spare_compute(families, decode, j),
                None,
            )
        } else {
            q.index == 0 && is_first(
                families,
                |j: int| is_spare_compute(families, decode, j),
                Some(q.family),
            )
        },
        None => !has_second_queue(families) && is_first(
            families,
            |j: int| is_spare_compute(families, decode, j),
            None,
        ),
    }
}

/// The queue that a decoder gets to read its pictures with, if there is one.
///
/// The video-decode family cannot dispatch compute work and the renderer's queue is taken, so a
/// third queue is needed. wgpu keeps index 0 of its family, so index 1 is free.
pub fn compute_choice(families: &Vec<QueueFamily>, decode: u32) -> (r: Option<Queue>)
    requires
        families@.len() <= u32::MAX,
    ensures
        is_compute_choice(families@, decode, r),
{
    match spare_compute_family(families, decode) {
        Some(f) => {
            assert(is_spare_compute(families@, decode, f as int));
            Some(Queue { family: f, index: 0 })
        },
        None => {
            if families.len() > 0 && flags_contain(families[0].flags, COMPUTE)
                && families[0].count >= 2 {
                Some(Queue { family: WGPU_FAMILY, index: 1 })
            } else {
                None
            }
        },
    }
}

// ---------------------------------------------------------------------------
// The plan
// ---------------------------------------------------------------------------

/// Why no device is shared with a decoder.
#[derive(Debug, Clone, Copy, PartialEq, Eq, Structural)]
pub enum Refusal {
    /// The adapter lacks a core video extension.
    NoVideoExtensions,
    /// No queue family can decode video.
    NoDecodeFamily,
    /// The family that decodes video is wgpu's own: that would be two unsynchronised submitters
    /// wearing one handle.
    DecodeFamilyIsOurs,
    /// wgpu opened its queue somewhere else than expected.
    QueueMoved,
}

/// What is added to what wgpu requires of the device.
#[derive(Debug, Clone, PartialEq)]
pub struct DevicePlan {
    /// The video extensions, in request order.
    pub video_extensions: Vec<String>,
    /// Every extension that is added.
    pub extra_extensions: Vec<String>,
    /// The decoder's queue.
    pub decode_queue: Queue,
    /// The queue that a decoder reads its pictures with.
    pub compute_queue: Option<Queue>,
    /// Chain the `synchronization2` feature on.
    pub chain_synchronization2: bool,
}

/// The lower of the two API versions: the one that a consumer must gate on.
pub open spec fn usable_version(instance: u32, device: u32) -> u32 {
    if instance <= device {
        instance
    } else {
        device
    }
}

/// Is `synchronization2` part of the API version in use?
pub open spec fn synchronization2_is_core(instance: u32, device: u32) -> bool {
    usable_version(instance, device) >= API_VERSION_1_3
}

/// Can the `synchronization2` feature exist on a device: in its API version, or by extension?
pub open spec fn synchronization2_can_exist(
    extensions: Seq<Seq<char>>,
    instance: u32,
    device: u32,
) -> bool {
    synchronization2_is_core(instance, device) || extensions.contains("VK_KHR_synchronization2"@)
}

/// Can the `synchronization2` feature exist on a device? Only then may the device be asked about
/// it.
pub fn may_have_synchronization2(extensions: &Vec<String>, instance: u32, device: u32) -> (r: bool)
    ensures
        r == synchronization2_can_exist(texts(extensions@), instance, device),
{
    (instance >= API_VERSION_1_3 && device >= API_VERSION_1_3) || has_text(
        extensions,
        "VK_KHR_synchronization2",
    )
}

impl VulkanFacts {
    /// Is `synchronization2` part of the API version in use?
    pub open spec fn has_core_synchronization2(self) -> bool {
        synchronization2_is_core(self.instance_api_version, self.device_api_version)
    }

    /// Can the `synchronization2` feature exist on the device?
    pub open spec fn can_have_synchronization2(self) -> bool {
        synchronization2_can_exist(
            texts(self.extensions@),
            self.instance_api_version,
            self.device_api_version,
        )
    }
}

/// The extensions that are added: those for video, and `VK_KHR_synchronization2` where it is the
/// extension that provides the feature.
pub open spec fn added_extensions(facts: VulkanFacts) -> Seq<Seq<char>> {
    let video = present(texts(facts.extensions@));
    if !facts.has_core_synchronization2() && facts.can_have_synchronization2() {
        video.push("VK_KHR_synchronization2"@)
    } else {
        video
    }
}

/// Why the adapter cannot share its device with a decoder, if it cannot.
pub open spec fn plan_refusal(facts: VulkanFacts) -> Option<Refusal> {
    let families = facts.families@;
    if !has_core(texts(facts.extensions@)) {
        Some(Refusal::NoVideoExtensions)
    } else if forall|j: int| 0 <= j < families.len() ==> !can_decode(#[trigger] families[j]) {
        Some(Refusal::NoDecodeFamily)
    } else if can_decode(families[WGPU_FAMILY as int]) {
        Some(Refusal::DecodeFamilyIsOurs)
    } else {
        None
    }
}

/// Plans the one logical device that serves wgpu and a video decoder.
pub fn plan_shared(facts: &VulkanFacts) -> (r: Result<DevicePlan, Refusal>)
    requires
        facts.families@.len() <= u32::MAX,
    ensures
        match r {
            Ok(plan) => {
                &&& plan_refusal(*facts) is None
                &&& texts(plan.video_extensions@) == present(texts(facts.extensions@))
                &&& texts(plan.video_extensions@).contains("VK_KHR_video_decode_h265"@) <==> texts(
                    facts.extensions@,
                ).contains("VK_KHR_video_decode_h265"@)
                &&& texts(plan.video_extensions@).contains("VK_KHR_video_decode_h264"@) <==> texts(
                    facts.extensions@,
                ).contains("VK_KHR_video_decode_h264"@)
                &&& texts(plan.extra_extensions@) == added_extensions(*facts)
                &&& is_planned(*facts, plan.decode_queue, plan.compute_queue)
                &&& plan.chain_synchronization2 == facts.can_have_synchronization2()
            },
            Err(refusal) => plan_refusal(*facts) == Some(refusal),
        },
{
    if !has_text(&facts.extensions, "VK_KHR_video_queue") || !has_text(
        &facts.extensions,
        "VK_KHR_video_decode_queue",
    ) {
        return Err(Refusal::NoVideoExtensions);
    }
    let decode = match decode_family(&facts.families) {
        Some(f) => f,
        None => {
            assert forall|j: int| 0 <= j < facts.families@.len() implies !can_decode(
                #[trigger] facts.families@[j],
            ) by {
                let wanted = |j: int| can_decode(facts.families@[j]);
                assert(!wanted(j));
            }
            return Err(Refusal::NoDecodeFamily);
        },
    };
    proof {
        let wanted = |j: int| can_decode(facts.families@[j]);
        assert(wanted(decode as int));
        assert(can_decode(facts.families@[decode as int]));
        if decode > 0 {
            assert(!wanted(0));
        }
    }
    if decode == WGPU_FAMILY {
        return Err(Refusal::DecodeFamilyIsOurs);
    }
    let core = facts.instance_api_version >= API_VERSION_1_3 && facts.device_api_version
        >= API_VERSION_1_3;
    let chain = may_have_synchronization2(
        &facts.extensions,
        facts.instance_api_version,
        facts.device_api_version,
    );
    let video_extensions = present_video_ext(&facts.extensions);
    let mut extra_extensions = copy_texts(&video_extensions);
    if !core && chain {
        push_text(&mut extra_extensions, "VK_KHR_synchronization2".to_owned());
    }
    Ok(
        DevicePlan {
            video_extensions,
            extra_extensions,
            decode_queue: Queue { family: decode, index: 0 },
            compute_queue: compute_choice(&facts.families, decode),
            chain_synchronization2: chain,
        },
    )
}

/// Is `decode` with `compute` what is planned for an adapter?
pub open spec fn is_planned(facts: VulkanFacts, decode: Queue, compute: Option<Queue>) -> bool {
    &&& plan_refusal(facts) is None
    &&& is_first(
        facts.families@,
        |j: int| can_decode(facts.families@[j]),
        Some(decode.family),
    )
    &&& decode.index == 0
    &&& is_compute_choice(facts.families@, decode.family, compute)
}

// ---------------------------------------------------------------------------
// The device-create info
// ---------------------------------------------------------------------------

/// A number of queues of one family in a device-create info.
#[derive(Debug, Clone, Copy, PartialEq, Eq, Structural)]
pub struct QueueRequest {
    /// The family.
    pub family: u32,
    /// How many of its queues.
    pub count: u32,
}

/// The first request for `family`, or the number of requests where there is none.
pub open spec fn request_index(requests: Seq<QueueRequest>, family: u32) -> int
    decreases requests.len(),
{
    if requests.len() == 0 || requests[0].family == family {
        0
    } else {
        1 + request_index(requests.subrange(1, requests.len() as int), family)
    }
}

proof fn lemma_request_index(requests: Seq<QueueRequest>, family: u32)
    ensures
        0 <= request_index(requests, family) <= requests.len(),
        request_index(requests, family) < requests.len() ==> requests[request_index(
            requests,
            family,
        )].family == family,
        forall|j: int|
            0 <= j < request_index(requests, family) ==> (#[trigger] requests[j]).family != family,
    decreases requests.len(),
{
    if requests.len() > 0 && requests[0].family != family {
        let rest = requests.subrange(1, requests.len() as int);
        lemma_request_index(rest, family);
        assert forall|j: int| 0 <= j < request_index(requests, family) implies (
        #[trigger] requests[j]).family != family by {
            if j > 0 {
                assert(rest[j - 1] == requests[j]);
            }
        }
    }
}

/// `requests` with the queue in it: one request per family, raised where the
/// family is already there, since two of one family are not allowed.
pub open spec fn with_queue(requests: Seq<QueueRequest>, queue: Queue) -> Seq<QueueRequest> {
    let i = request_index(requests, queue.family);
    let count = (queue.index + 1) as u32;
    if i == requests.len() {
        requests.push(QueueRequest { family: queue.family, count })
    } else if requests[i].count < count {
        requests.update(i, QueueRequest { family: queue.family, count })
    } else {
        requests
    }
}

/// `requests` with the queues of the plan in it.
pub open spec fn with_planned(
    requests: Seq<QueueRequest>,
    decode: Queue,
    compute: Option<Queue>,
) -> Seq<QueueRequest> {
    let requests = with_queue(requests, decode);
    match compute {
        Some(queue) => with_queue(requests, queue),
        None => requests,
    }
}

/// Puts a queue into the requests.
fn request_queue(requests: &mut Vec<QueueRequest>, queue: Queue)
    requires
        queue.index < u32::MAX,
    ensures
        final(requests)@ == with_queue(old(requests)@, queue),
{
    let count: u32 = queue.index + 1;
    let mut i: usize = 0;
    proof {
        lemma_request_index(requests@, queue.family);
    }
    let ghost at = request_index(requests@, queue.family);
    while i < requests.len() && requests[i].family != queue.family
        invariant
            i <= at <= requests@.len(),
            requests@ == old(requests)@,
            at == request_index(requests@, queue.family),
            at < requests@.len() ==> requests@[at].family == queue.family,
            forall|j: int| 0 <= j < at ==> (#[trigger] requests@[j]).family != queue.family,
        decreases requests@.len() - i,
    {
        i = i + 1;
    }
    if i < requests.len() {
        if requests[i].count < count {
            requests.set(i, QueueRequest { family: queue.family, count });
        }
    } else {
        requests.push(QueueRequest { family: queue.family, count });
    }
}

/// Adds the queues of the plan to those that wgpu asks for.
pub fn add_queues(requests: &mut Vec<QueueRequest>, plan: &DevicePlan)
    requires
        plan.decode_queue.index < u32::MAX,
        plan.compute_queue matches Some(q) ==> q.index < u32::MAX,
    ensures
        final(requests)@ == with_planned(old(requests)@, plan.decode_queue, plan.compute_queue),
{
    request_queue(requests, plan.decode_queue);
    if let Some(queue) = plan.compute_queue {
        request_queue(requests, queue);
    }
}

/// Adds the extensions of the plan to those that wgpu asks for.
pub fn add_extensions(extensions: &mut Vec<String>, plan: &DevicePlan)
    ensures
        texts(final(extensions)@) == texts(old(extensions)@) + texts(plan.extra_extensions@),
{
    let ghost extra = texts(plan.extra_extensions@);
    let mut i: usize = 0;
    assert(texts(extensions@) =~= texts(old(extensions)@) + extra.take(0));
    while i < plan.extra_extensions.len()
        invariant
            i <= plan.extra_extensions@.len(),
            extra == texts(plan.extra_extensions@),
            texts(extensions@) == texts(old(extensions)@) + extra.take(i as int),
        decreases plan.extra_extensions@.len() - i,
    {
        push_text(extensions, plan.extra_extensions[i].clone());
        proof {
            lemma_take_next(extra, i as int);
            assert(texts(old(extensions)@) + extra.take(i + 1) =~= (texts(old(extensions)@)
                + extra.take(i as int)).push(extra[i as int]));
        }
        i = i + 1;
    }
    assert(extra.take(i as int) =~= extra);
}

// ---------------------------------------------------------------------------
// What a consumer is told
// ---------------------------------------------------------------------------

/// What a consumer that speaks Vulkan has to know of the shared device.
#[derive(Debug, Clone, PartialEq)]
pub struct VulkanShared {
    /// wgpu's own queue.
    pub main_queue: Queue,
    /// The queue that decodes video.
    pub decode_queue: Option<Queue>,
    /// A queue that the decoder's pictures can be read with.
    pub compute_queue: Option<Queue>,
    /// The video extensions enabled on the device, in request order.
    pub video_extensions: Vec<String>,
    /// Every device extension that was enabled, not only the video ones: the device cannot be
    /// asked afterwards.
    pub device_extensions: Vec<String>,
    /// The API version the instance was created with.
    pub instance_api_version: u32,
    /// The API version of the physical device.
    pub device_api_version: u32,
    /// Were timeline semaphores enabled?
    pub timeline_semaphore: bool,
    /// Was `synchronization2` enabled?
    pub synchronization2: bool,
    /// Was sampling of YCbCr images enabled? wgpu leaves it off.
    pub sampler_ycbcr_conversion: bool,
}

impl VulkanShared {
    /// Do no two submitters share a queue? The decoder's queue is in another family than wgpu's,
    /// and the queue for reading pictures is neither of the two.
    pub open spec fn queues_are_apart(self) -> bool {
        &&& self.decode_queue matches Some(d) ==> d.family != self.main_queue.family
        &&& self.compute_queue matches Some(c) ==> c != self.main_queue
        &&& self.compute_queue matches Some(c) ==> self.decode_queue matches Some(d) ==> c.family
            != d.family
    }
}

/// Are timeline semaphores enabled? wgpu does so exactly when the adapter supports them.
pub open spec fn has_timeline_semaphore(facts: VulkanFacts) -> bool {
    texts(facts.extensions@).contains("VK_KHR_timeline_semaphore"@) || facts.device_api_version
        >= API_VERSION_1_2
}

/// Describes the device that was opened by `plan`.
///
/// `opened` is where wgpu says that its queue is, `extensions` is every extension the device was
/// created with. Where wgpu's queue is not the one that the plan left to it, nothing is shared: a
/// wrong family would be a silently mis-shared image.
pub fn describe_shared(
    facts: &VulkanFacts,
    plan: &DevicePlan,
    opened: Queue,
    extensions: &Vec<String>,
) -> (r: Result<VulkanShared, Refusal>)
    ensures
        match r {
            Ok(shared) => {
                &&& opened == (Queue { family: WGPU_FAMILY, index: 0 })
                &&& shared.main_queue == opened
                &&& shared.decode_queue == Some(plan.decode_queue)
                &&& shared.compute_queue == plan.compute_queue
                &&& texts(shared.video_extensions@) == texts(plan.video_extensions@)
                &&& texts(shared.device_extensions@) == texts(extensions@)
                &&& shared.instance_api_version == facts.instance_api_version
                &&& shared.device_api_version == facts.device_api_version
                &&& shared.timeline_semaphore == has_timeline_semaphore(*facts)
                &&& shared.synchronization2 == (plan.chain_synchronization2
                    && facts.reports_synchronization2)
                &&& !shared.sampler_ycbcr_conversion
                &&& is_planned(*facts, plan.decode_queue, plan.compute_queue)
                    ==> shared.queues_are_apart()
            },
            Err(refusal) => opened != (Queue { family: WGPU_FAMILY, index: 0 }) && refusal == Refusal::QueueMoved,
        },
{
    if opened.family != WGPU_FAMILY || opened.index != 0 {
        return Err(Refusal::QueueMoved);
    }
    proof {
        if is_planned(*facts, plan.decode_queue, plan.compute_queue) {
            law_no_queue_is_shared(*facts, plan.decode_queue, plan.compute_queue);
        }
    }
    Ok(
        VulkanShared {
            main_queue: opened,
            decode_queue: Some(plan.decode_queue),
            compute_queue: plan.compute_queue,
            video_extensions: copy_texts(&plan.video_extensions),
            device_extensions: copy_texts(extensions),
            instance_api_version: facts.instance_api_version,
            device_api_version: facts.device_api_version,
            timeline_semaphore: has_text(&facts.extensions, "VK_KHR_timeline_semaphore")
                || facts.device_api_version >= API_VERSION_1_2,
            synchronization2: plan.chain_synchronization2 && facts.reports_synchronization2,
            sampler_ycbcr_conversion: false,
        },
    )
}

/// What opening a device with room for a decoder came to.
#[derive(Debug, Clone, Copy, PartialEq, Eq, Structural)]
pub enum SharedOutcome {
    /// There is a device, and a decoder can share it.
    Opened,
    /// Nothing can be shared on this adapter; an ordinary device may still be had.
    NotCapable,
    /// The device could not be created at all, which is fatal either way.
    Failed,
}

/// Can the adapter have a device that a decoder shares? `facts` is none where it is no Vulkan
/// adapter.
pub open spec fn is_capable(facts: Option<VulkanFacts>) -> bool {
    facts matches Some(f) && plan_refusal(f) is None
}

/// What opening comes to. `made` is none where the device could not be created, else how it
/// describes itself.
pub open spec fn outcome_of(
    facts: Option<VulkanFacts>,
    made: Option<Result<VulkanShared, Refusal>>,
) -> SharedOutcome {
    if !is_capable(facts) {
        SharedOutcome::NotCapable
    } else {
        match made {
            None => SharedOutcome::Failed,
            Some(Err(_)) => SharedOutcome::NotCapable,
            Some(Ok(_)) => SharedOutcome::Opened,
        }
    }
}

/// What opening comes to: not capable where this is no Vulkan adapter, where the core video
/// extensions or a decode queue family of their own are missing, or where wgpu's queue is not
/// where it was expected; failed where the device could not be created.
pub fn open_shared(
    facts: &Option<VulkanFacts>,
    made: &Option<Result<VulkanShared, Refusal>>,
) -> (r: SharedOutcome)
    requires
        facts matches Some(f) ==> f.families@.len() <= u32::MAX,
    ensures
        r == outcome_of(*facts, *made),
        !is_capable(*facts) ==> r == SharedOutcome::NotCapable,
        is_capable(*facts) ==> (r == SharedOutcome::Failed <==> *made is None),
{
    let capable = match facts {
        Some(f) => plan_shared(f).is_ok(),
        None => false,
    };
    if !capable {
        return SharedOutcome::NotCapable;
    }
    match made {
        None => SharedOutcome::Failed,
        Some(Err(_)) => SharedOutcome::NotCapable,
        Some(Ok(_)) => SharedOutcome::Opened,
    }
}

impl VulkanShared {
    /// The lower of the two API versions: the one that a consumer must gate on.
    #[must_use]
    pub fn usable_api_version(&self) -> (r: u32)
        ensures
            r == usable_version(self.instance_api_version, self.device_api_version),
    {
        if self.instance_api_version <= self.device_api_version {
            self.instance_api_version
        } else {
            self.device_api_version
        }
    }

    /// The queue to fetch for decoding, or `None` when this adapter has no decode family.
    #[must_use]
    pub fn decode_queue(&self) -> (r: Option<Queue>)
        ensures
            r == self.decode_queue,
    {
        self.decode_queue
    }

    /// The queue to fetch for reading decoded pictures, or `None` when there is none to spare.
    #[must_use]
    pub fn compute_queue(&self) -> (r: Option<Queue>)
        ensures
            r == self.compute_queue,
    {
        self.compute_queue
    }
}

// ---------------------------------------------------------------------------
// Laws
// ---------------------------------------------------------------------------

/// No two submitters share a queue: the decoder's queue is in another family than wgpu's, and the
/// queue for reading pictures is neither of the two.
pub proof fn law_no_queue_is_shared(facts: VulkanFacts, decode: Queue, compute: Option<Queue>)
    requires
        is_planned(facts, decode, compute),
    ensures
        decode.family != WGPU_FAMILY,
        compute matches Some(q) ==> q != (Queue { family: WGPU_FAMILY, index: 0 }),
        compute matches Some(q) ==> q.family != decode.family,
{
    let wanted = |j: int| can_decode(facts.families@[j]);
    assert(wanted(decode.family as int));
    if let Some(q) = compute {
        let spare = |j: int| is_spare_compute(facts.families@, decode.family, j);
        if q.family != WGPU_FAMILY {
            assert(spare(q.family as int));
        }
    }
}

/// The queues that are handed over can do what they are for.
pub proof fn law_queues_are_capable(facts: VulkanFacts, decode: Queue, compute: Option<Queue>)
    requires
        is_planned(facts, decode, compute),
    ensures
        decode.family < facts.families@.len(),
        can_decode(facts.families@[decode.family as int]),
        compute matches Some(q) ==> q.family < facts.families@.len() && can_compute(
            facts.families@[q.family as int],
        ),
{
    let wanted = |j: int| can_decode(facts.families@[j]);
    assert(wanted(decode.family as int));
    if let Some(q) = compute {
        let spare = |j: int| is_spare_compute(facts.families@, decode.family, j);
        if q.family != WGPU_FAMILY {
            assert(spare(q.family as int));
        }
    }
}

/// Does every family occur once at most?
pub open spec fn one_per_family(requests: Seq<QueueRequest>) -> bool {
    forall|i: int, j: int|
        0 <= i < j < requests.len() ==> (#[trigger] requests[i]).family != (
        #[trigger] requests[j]).family
}

/// Does `requests` ask for the queue?
pub open spec fn is_requested(requests: Seq<QueueRequest>, queue: Queue) -> bool {
    exists|i: int|
        0 <= i < requests.len() && (#[trigger] requests[i]).family == queue.family && queue.index
            < requests[i].count
}

/// Does every family have the queues that are asked of it?
pub open spec fn requests_fit(requests: Seq<QueueRequest>, families: Seq<QueueFamily>) -> bool {
    forall|i: int|
        0 <= i < requests.len() ==> (#[trigger] requests[i]).family < families.len()
            && requests[i].count <= families[requests[i].family as int].count
}

proof fn lemma_with_queue(requests: Seq<QueueRequest>, queue: Queue)
    requires
        queue.index < u32::MAX,
    ensures
        one_per_family(requests) ==> one_per_family(with_queue(requests, queue)),
        is_requested(with_queue(requests, queue), queue),
        forall|q: Queue|
            is_requested(requests, q) ==> #[trigger] is_requested(with_queue(requests, queue), q),
{
    let i = request_index(requests, queue.family);
    lemma_request_index(requests, queue.family);
    let after = with_queue(requests, queue);
    assert(after[i].family == queue.family && queue.index < after[i].count);
    assert forall|q: Queue| is_requested(requests, q) implies #[trigger] is_requested(after, q) by {
        let k = choose|k: int|
            0 <= k < requests.len() && (#[trigger] requests[k]).family == q.family && q.index
                < requests[k].count;
        assert(after[k].family == q.family && q.index < after[k].count);
    }
    if one_per_family(requests) {
        assert forall|a: int, b: int| 0 <= a < b < after.len() implies (#[trigger] after[a]).family
            != (#[trigger] after[b]).family by {
            if b < requests.len() {
                assert(requests[a].family != requests[b].family);
            }
        }
    }
}

proof fn lemma_with_queue_fits(
    requests: Seq<QueueRequest>,
    queue: Queue,
    families: Seq<QueueFamily>,
)
    requires
        requests_fit(requests, families),
        queue.family < families.len(),
        queue.index < families[queue.family as int].count,
    ensures
        requests_fit(with_queue(requests, queue), families),
{
    let i = request_index(requests, queue.family);
    lemma_request_index(requests, queue.family);
    let after = with_queue(requests, queue);
    assert forall|k: int| 0 <= k < after.len() implies (#[trigger] after[k]).family
        < families.len() && after[k].count <= families[after[k].family as int].count by {
        if k < requests.len() {
            assert(requests[k].family < families.len());
        }
    }
}

/// What is asked of the device is allowed and complete: wgpu keeps every queue that it asked for,
/// each family is asked for once, the handed-over queues are among those asked for, and no
/// family is asked for more queues than it has.
pub proof fn law_queue_requests(
    facts: VulkanFacts,
    decode: Queue,
    compute: Option<Queue>,
    requests: Seq<QueueRequest>,
)
    requires
        is_planned(facts, decode, compute),
        forall|j: int|
            0 <= j < facts.families@.len() ==> (#[trigger] facts.families@[j]).count >= 1,
        one_per_family(requests),
        requests_fit(requests, facts.families@),
    ensures
        one_per_family(with_planned(requests, decode, compute)),
        requests_fit(with_planned(requests, decode, compute), facts.families@),
        forall|q: Queue|
            is_requested(requests, q) ==> #[trigger] is_requested(
                with_planned(requests, decode, compute),
                q,
            ),
        is_requested(with_planned(requests, decode, compute), decode),
        compute matches Some(q) ==> is_requested(with_planned(requests, decode, compute), q),
{
    law_queues_are_capable(facts, decode, compute);
    let first = with_queue(requests, decode);
    lemma_with_queue(requests, decode);
    lemma_with_queue_fits(requests, decode, facts.families@);
    if let Some(q) = compute {
        lemma_with_queue(first, q);
        lemma_with_queue_fits(first, q, facts.families@);
    }
    assert forall|q: Queue| is_requested(requests, q) implies #[trigger] is_requested(
        with_planned(requests, decode, compute),
        q,
    ) by {
        assert(is_requested(first, q));
    }
}

/// Only extensions that the adapter has are asked for, and where a device is shared both core
/// video extensions are among them.
pub proof fn law_extensions_exist(facts: VulkanFacts)
    ensures
        forall|e: Seq<char>| #[trigger]
            added_extensions(facts).contains(e) ==> texts(facts.extensions@).contains(e),
        plan_refusal(facts) is None ==> added_extensions(facts).contains("VK_KHR_video_queue"@)
            && added_extensions(facts).contains("VK_KHR_video_decode_queue"@),
{
    let supported = texts(facts.extensions@);
    let wanted = |e: Seq<char>| supported.contains(e);
    let all = video_ext();
    let video = present(supported);
    let added = added_extensions(facts);
    assert forall|e: Seq<char>| #[trigger] added.contains(e) implies supported.contains(e) by {
        let k = choose|k: int| 0 <= k < added.len() && added[k] == e;
        if k < video.len() {
            all.lemma_filter_pred(wanted, k);
            assert(video[k] == e);
        }
    }
    if plan_refusal(facts) is None {
        assert(wanted(all[0]) && wanted(all[1]));
        all.lemma_filter_contains(wanted, 0);
        all.lemma_filter_contains(wanted, 1);
        let a = choose|k: int| 0 <= k < video.len() && video[k] == all[0];
        let b = choose|k: int| 0 <= k < video.len() && video[k] == all[1];
        assert(added[a] == all[0] && added[b] == all[1]);
    }
}

/// The `synchronization2` feature is claimed only where it can exist: in the API version, or by
/// an extension that was asked for.
pub proof fn law_synchronization2_is_backed(facts: VulkanFacts)
    requires
        facts.can_have_synchronization2(),
    ensures
        facts.has_core_synchronization2() || added_extensions(facts).contains(
            "VK_KHR_synchronization2"@,
        ),
{
    if !facts.has_core_synchronization2() {
        let video = present(texts(facts.extensions@));
        let added = added_extensions(facts);
        assert(added[video.len() as int] == "VK_KHR_synchronization2"@);
    }
}

/// Of the four extensions that a decoder needs, exactly those that the adapter has are there, in
/// request order and each once; nothing else is.
pub proof fn law_video_extensions(supported: Seq<Seq<char>>)
    ensures
        present(supported).contains("VK_KHR_video_queue"@) <==> supported.contains(
            "VK_KHR_video_queue"@,
        ),
        present(supported).contains("VK_KHR_video_decode_queue"@) <==> supported.contains(
            "VK_KHR_video_decode_queue"@,
        ),
        present(supported).contains("VK_KHR_video_decode_h265"@) <==> supported.contains(
            "VK_KHR_video_decode_h265"@,
        ),
        present(supported).contains("VK_KHR_video_decode_h264"@) <==> supported.contains(
            "VK_KHR_video_decode_h264"@,
        ),
        present(supported) == (if supported.contains("VK_KHR_video_queue"@) {
            seq!["VK_KHR_video_queue"@]
        } else {
            seq![]
        }) + (if supported.contains("VK_KHR_video_decode_queue"@) {
            seq!["VK_KHR_video_decode_queue"@]
        } else {
            seq![]
        }) + (if supported.contains("VK_KHR_video_decode_h265"@) {
            seq!["VK_KHR_video_decode_h265"@]
        } else {
            seq![]
        }) + (if supported.contains("VK_KHR_video_decode_h264"@) {
            seq!["VK_KHR_video_decode_h264"@]
        } else {
            seq![]
        }),
{
    let wanted = |e: Seq<char>| supported.contains(e);
    let all = video_ext();
    let video = present(supported);
    assert forall|k: int| 0 <= k < 4 implies (video.contains(#[trigger] all[k])
        <==> supported.contains(all[k])) by {
        if supported.contains(all[k]) {
            assert(wanted(all[k]));
            all.lemma_filter_contains(wanted, k);
        }
        if video.contains(all[k]) {
            let m = choose|m: int| 0 <= m < video.len() && video[m] == all[k];
            all.lemma_filter_pred(wanted, m);
        }
    }
    assert(all[0] == "VK_KHR_video_queue"@ && all[1] == "VK_KHR_video_decode_queue"@);
    assert(all[2] == "VK_KHR_video_decode_h265"@ && all[3] == "VK_KHR_video_decode_h264"@);
    reveal(Seq::filter);
    assert(all.take(4) =~= all);
    assert(all.take(4).drop_last() =~= all.take(3));
    assert(all.take(3).drop_last() =~= all.take(2));
    assert(all.take(2).drop_last() =~= all.take(1));
    assert(all.take(1).drop_last() =~= all.take(0));
    let none = Seq::<Seq<char>>::empty();
    let a = all.take(0).filter(wanted);
    assert(a =~= none);
    let b = all.take(1).filter(wanted);
    assert(b =~= if wanted(all[0]) { seq![all[0]] } else { none });
    let c = all.take(2).filter(wanted);
    assert(c =~= b + if wanted(all[1]) { seq![all[1]] } else { none });
    let d = all.take(3).filter(wanted);
    assert(d =~= c + if wanted(all[2]) { seq![all[2]] } else { none });
    assert(video =~= d + if wanted(all[3]) { seq![all[3]] } else { none });
}

/// What is added to wgpu's own extensions is the video extensions, and behind them the one for
/// `synchronization2` exactly where the adapter has it and one of the two API versions is below
/// 1.3. The feature is chained on where that extension is there or both versions reach 1.3.
pub proof fn law_added_extensions(facts: VulkanFacts)
    ensures
        added_extensions(facts) == present(texts(facts.extensions@)) + (if texts(
            facts.extensions@,
        ).contains("VK_KHR_synchronization2"@) && (facts.instance_api_version < 0x403000
            || facts.device_api_version < 0x403000) {
            seq!["VK_KHR_synchronization2"@]
        } else {
            seq![]
        }),
        facts.can_have_synchronization2() <==> texts(facts.extensions@).contains(
            "VK_KHR_synchronization2"@,
        ) || (facts.instance_api_version >= 0x403000 && facts.device_api_version >= 0x403000),
{
    assert(present(texts(facts.extensions@)) + Seq::empty() =~= present(texts(facts.extensions@)));
    assert(present(texts(facts.extensions@)) + seq!["VK_KHR_synchronization2"@] =~= present(
        texts(facts.extensions@),
    ).push("VK_KHR_synchronization2"@));
}

/// The decoder gets the first queue of the first family that can decode video. Its pictures are
/// read with the first queue of the first compute family that is neither wgpu's nor the decoder's;
/// where there is no such family, with the second queue of wgpu's, if that computes and has two.
pub proof fn law_which_queues_are_planned(
    facts: VulkanFacts,
    decode: Queue,
    compute: Option<Queue>,
    j: int,
)
    requires
        is_planned(facts, decode, compute),
        0 <= j < facts.families@.len(),
    ensures
        decode.index == 0,
        0 < decode.family < facts.families@.len(),
        facts.families@[decode.family as int].flags & 0x20 == 0x20,
        facts.families@[j].flags & 0x20 == 0x20 ==> decode.family <= j,
        match compute {
            Some(q) => if q.family != 0 {
                &&& q.index == 0
                &&& q.family < facts.families@.len()
                &&& q.family != decode.family
                &&& facts.families@[q.family as int].flags & 2 == 2
                &&& facts.families@[j].flags & 2 == 2 && j != 0 && j != decode.family ==> q.family
                    <= j
            } else {
                &&& q.index == 1
                &&& facts.families@[0].flags & 2 == 2
                &&& facts.families@[0].count >= 2
                &&& facts.families@[j].flags & 2 == 2 ==> j == 0 || j == decode.family
            },
            None => {
                &&& facts.families@[j].flags & 2 == 2 ==> j == 0 || j == decode.family
                &&& facts.families@[0].flags & 2 == 2 ==> facts.families@[0].count < 2
            },
        },
{
    let wanted = |j: int| can_decode(facts.families@[j]);
    let spare = |j: int| is_spare_compute(facts.families@, decode.family, j);
    assert(wanted(decode.family as int));
    assert(wanted(j) == can_decode(facts.families@[j]));
    assert(spare(j) == is_spare_compute(facts.families@, decode.family, j));
    assert(!can_decode(facts.families@[0]));
    if let Some(q) = compute {
        if q.family != 0 {
            assert(spare(q.family as int));
        }
    }
}

/// An adapter is refused for want of either core video extension; else for want of a family that
/// decodes video; else where family 0, which is wgpu's, is one; and for no other reason.
pub proof fn law_refusals(facts: VulkanFacts)
    ensures
        plan_refusal(facts) == Some(Refusal::NoVideoExtensions) <==> !(texts(
            facts.extensions@,
        ).contains("VK_KHR_video_queue"@) && texts(facts.extensions@).contains(
            "VK_KHR_video_decode_queue"@,
        )),
        plan_refusal(facts) == Some(Refusal::NoDecodeFamily) <==> texts(
            facts.extensions@,
        ).contains("VK_KHR_video_queue"@) && texts(facts.extensions@).contains(
            "VK_KHR_video_decode_queue"@,
        ) && forall|j: int|
            0 <= j < facts.families@.len() ==> (#[trigger] facts.families@[j]).flags & 0x20 != 0x20,
        plan_refusal(facts) == Some(Refusal::DecodeFamilyIsOurs) <==> texts(
            facts.extensions@,
        ).contains("VK_KHR_video_queue"@) && texts(facts.extensions@).contains(
            "VK_KHR_video_decode_queue"@,
        ) && facts.families@.len() > 0 && facts.families@[0].flags & 0x20 == 0x20,
        plan_refusal(facts) is None <==> texts(facts.extensions@).contains(
            "VK_KHR_video_queue"@,
        ) && texts(facts.extensions@).contains("VK_KHR_video_decode_queue"@)
            && facts.families@[0].flags & 0x20 != 0x20 && exists|j: int|
            0 < j < facts.families@.len() && (#[trigger] facts.families@[j]).flags & 0x20 == 0x20,
        plan_refusal(facts) != Some(Refusal::QueueMoved),
{
    let families = facts.families@;
    if exists|j: int| 0 <= j < families.len() && can_decode(#[trigger] families[j]) {
        let j = choose|j: int| 0 <= j < families.len() && can_decode(#[trigger] families[j]);
        assert(families[j].flags & 0x20 == 0x20);
        if families[0].flags & 0x20 != 0x20 {
            assert(0 < j);
        }
    }
    if exists|j: int| 0 < j < families.len() && (#[trigger] families[j]).flags & 0x20 == 0x20 {
        let j = choose|j: int|
            0 < j < families.len() && (#[trigger] families[j]).flags & 0x20 == 0x20;
        assert(can_decode(families[j]));
    }
    if families.len() > 0 {
        assert(can_decode(families[0]) == (families[0].flags & 0x20 == 0x20));
    }
}

/// Timeline semaphores are there by the extension or from version 1.2 of the device on, and the
/// version to gate on is one of the two, above neither.
pub proof fn law_versions(facts: VulkanFacts)
    ensures
        has_timeline_semaphore(facts) <==> texts(facts.extensions@).contains(
            "VK_KHR_timeline_semaphore"@,
        ) || facts.device_api_version >= 0x402000,
        usable_version(facts.instance_api_version, facts.device_api_version)
            <= facts.instance_api_version,
        usable_version(facts.instance_api_version, facts.device_api_version)
            <= facts.device_api_version,
        usable_version(facts.instance_api_version, facts.device_api_version)
            == facts.instance_api_version || usable_version(
            facts.instance_api_version,
            facts.device_api_version,
        ) == facts.device_api_version,
{
}

/// Opening fails only where a device could have been shared and could not be created; it succeeds
/// only where one was created and describes itself; else the adapter is not capable.
pub proof fn law_outcomes(
    facts: Option<VulkanFacts>,
    made: Option<Result<VulkanShared, Refusal>>,
)
    ensures
        is_capable(facts) <==> facts is Some && plan_refusal(facts->0) is None,
        outcome_of(facts, made) == SharedOutcome::Failed <==> is_capable(facts) && made is None,
        outcome_of(facts, made) == SharedOutcome::Opened <==> is_capable(facts) && made is Some
            && made->0 is Ok,
        outcome_of(facts, made) == SharedOutcome::NotCapable <==> !is_capable(facts) || (made is Some
            && made->0 is Err),
{
}

proof fn lemma_only_this_queue(requests: Seq<QueueRequest>, queue: Queue)
    requires
        queue.index < u32::MAX,
    ensures
        requests.len() <= with_queue(requests, queue).len() <= requests.len() + 1,
        forall|i: int|
            0 <= i < requests.len() ==> (#[trigger] with_queue(requests, queue)[i]) == requests[i]
                || (requests[i].family == queue.family && requests[i].count <= queue.index
                && with_queue(requests, queue)[i] == (QueueRequest {
                family: queue.family,
                count: (queue.index + 1) as u32,
            })),
        with_queue(requests, queue).len() > requests.len() ==> with_queue(requests, queue).last()
            == (QueueRequest { family: queue.family, count: (queue.index + 1) as u32 }),
        with_queue(requests, queue).len() > requests.len() <==> forall|i: int|
            0 <= i < requests.len() ==> (#[trigger] requests[i]).family != queue.family,
{
    lemma_request_index(requests, queue.family);
    let at = request_index(requests, queue.family);
    if at < requests.len() {
        assert(requests[at].family == queue.family);
    }
}

/// Nothing is asked of the device beyond what wgpu asked for and the planned queues: wgpu's own
/// requests keep their places and families, and one differs only where its family is a planned
/// queue's and its count had to be raised to reach that queue.
pub proof fn law_nothing_else_is_requested(
    requests: Seq<QueueRequest>,
    decode: Queue,
    compute: Option<Queue>,
    i: int,
)
    requires
        decode.index < u32::MAX,
        compute matches Some(q) ==> q.index < u32::MAX,
        0 <= i < with_planned(requests, decode, compute).len(),
    ensures
        with_planned(requests, decode, compute).len() >= requests.len(),
        ({
            let r = with_planned(requests, decode, compute)[i];
            ||| i < requests.len() && r == requests[i]
            ||| r.family == decode.family && r.count == decode.index + 1
            ||| compute matches Some(q) && r.family == q.family && r.count == q.index + 1
        }),
        i < requests.len() ==> with_planned(requests, decode, compute)[i].family
            == requests[i].family && with_planned(requests, decode, compute)[i].count
            >= requests[i].count,
{
    let first = with_queue(requests, decode);
    lemma_only_this_queue(requests, decode);
    if i < requests.len() {
        assert(first[i] == first[i]);
    }
    if let Some(q) = compute {
        lemma_only_this_queue(first, q);
        if i < first.len() {
            assert(with_queue(first, q)[i] == with_queue(first, q)[i]);
        }
    }
}

/// Which queue is chosen for reading pictures, whatever family decodes: the first queue of the first
/// compute family other than 0 and that one; else the second queue of family 0, where that computes
/// and has two; else none.
pub proof fn law_compute_choice(
    families: Seq<QueueFamily>,
    decode: u32,
    queue: Option<Queue>,
    j: int,
)
    requires
        is_compute_choice(families, decode, queue),
        0 <= j < families.len(),
    ensures
        j != 0 && j != decode && families[j].flags & 2 == 2 ==> (queue matches Some(q) && 0
            < q.family <= j && q.index == 0),
        j == 0 && families[0].flags & 2 == 2 && families[0].count >= 2 ==> queue is Some,
        queue matches Some(q) ==> q.family < families.len() && families[q.family as int].flags & 2
            == 2 && (q.family == decode ==> q.family == 0) && (q.family == 0 ==> families[0].count
            >= 2),
        queue matches Some(q) ==> (q.index == 1 <==> q.family == 0) && q.index <= 1,
{
    let spare = |j: int| is_spare_compute(families, decode, j);
    assert(spare(j) == is_spare_compute(families, decode, j));
    if let Some(q) = queue {
        if q.family != 0 {
            assert(spare(q.family as int));
        }
    }
}

/// The family that decodes is the first that can.
pub proof fn law_decode_choice(families: Seq<QueueFamily>, found: Option<u32>, j: int)
    requires
        is_first(families, |j: int| can_decode(families[j]), found),
        0 <= j < families.len(),
    ensures
        families[j].flags & 0x20 == 0x20 ==> (found matches Some(f) && f <= j),
        found matches Some(f) ==> f < families.len() && families[f as int].flags & 0x20 == 0x20,
{
    let wanted = |j: int| can_decode(families[j]);
    assert(wanted(j) == can_decode(families[j]));
    if let Some(f) = found {
        assert(wanted(f as int));
    }
}

} // verus!
