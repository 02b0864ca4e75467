//! The one negotiation of the process-wide device, and what a device is asked for.
//!
//! The negotiation is a state machine: its state says what to do next, and the answer moves it on.
//! The module is pinned first; then an adapter is asked for; then the device that a video decoder
//! can share is tried, and an ordinary device where the adapter can have no such one. A device that
//! could not be created ends the negotiation.
use crate::caps::Limits;
use crate::flags::{
    allowed_sample_counts, sample_counts_from_flags, stable_features, FeatureBits,
    EXPERIMENTAL_FEATURES, WEBGPU_FEATURES, WGPU_FEATURES,
};
use crate::pin::{pin_complaint, pin_containing_module, LoaderAnswer};
use crate::shared_vk::{
    is_capable, outcome_of, Refusal, SharedOutcome, VulkanFacts, VulkanShared,
};
use vstd::prelude::*;

verus! {

/// The limits an application should request to use the adapter to its fullest: the adapter's own.
#[must_use]
pub fn recommended_limits(adapter: &Limits) -> (r: Limits)
    ensures
        r == *adapter,
{
    *adapter
}

/// Supported sample counts of a format whose feature flags on this adapter are `flags` (always
/// includes 1).
#[must_use]
pub fn supported_sample_counts(flags: u32) -> (r: Vec<u32>)
    ensures
        r@ == allowed_sample_counts(flags),
        r@.contains(1),
{
    sample_counts_from_flags(flags)
}

/// What an adapter offers.
#[derive(Debug, Clone, Copy, PartialEq, Eq)]
pub struct AdapterOffer {
    /// The features it supports.
    pub features: FeatureBits,
    /// The best limits it can grant.
    pub limits: Limits,
}

/// What a device is asked for.
#[derive(Debug, Clone, Copy, PartialEq, Eq)]
pub struct DeviceRequest {
    /// The features that the device must have.
    pub features: FeatureBits,
    /// The limits that the device must grant.
    pub limits: Limits,
}

/// The features that are in both sets.
pub open spec fn common_features(a: FeatureBits, b: FeatureBits) -> FeatureBits {
    FeatureBits { wgpu: a.wgpu & b.wgpu, webgpu: a.webgpu & b.webgpu }
}

/// A request for the adapter's maximum limits, plus those of `extra_features` that it supports.
pub fn request_max_device(adapter: &AdapterOffer, extra_features: FeatureBits) -> (r: DeviceRequest)
    ensures
        r == (DeviceRequest {
            features: common_features(extra_features, adapter.features),
            limits: adapter.limits,
        }),
{
    DeviceRequest {
        features: FeatureBits {
            wgpu: extra_features.wgpu & adapter.features.wgpu,
            webgpu: extra_features.webgpu & adapter.features.webgpu,
        },
        limits: adapter.limits,
    }
}

/// Every feature that is declared and not experimental.
pub open spec fn stable() -> FeatureBits {
    FeatureBits { wgpu: WGPU_FEATURES & !EXPERIMENTAL_FEATURES, webgpu: WEBGPU_FEATURES }
}

/// What the shared device is asked for: maximum limits and every supported stable feature.
pub open spec fn shared_request(offer: AdapterOffer) -> DeviceRequest {
    DeviceRequest {
        features: common_features(stable(), offer.features),
        limits: offer.limits,
    }
}

/// The request for the shared device.
fn request_shared(offer: &AdapterOffer) -> (r: DeviceRequest)
    ensures
        r == shared_request(*offer),
{
    request_max_device(offer, stable_features())
}

/// How far the negotiation has come.
#[derive(Debug, Clone, Copy, PartialEq, Eq)]
pub enum Negotiation {
    /// The module is to be pinned.
    Pinning,
    /// An adapter is to be asked for: the real discrete GPU, not a software renderer.
    AskingAdapter,
    /// A device with room for a video decoder is to be opened.
    OpeningShared(AdapterOffer),
    /// An ordinary device is to be requested.
    Requesting(AdapterOffer),
    /// There is a device, and a decoder can share it.
    DoneShared,
    /// There is an ordinary device.
    DonePlain,
    /// There is no device. This answer is kept too, so that a machine without a GPU is not
    /// probed again.
    DoneNone,
}

/// What kind of adapter is asked for.
#[derive(Debug, Clone, Copy, PartialEq, Eq, Structural)]
pub struct AdapterWish {
    /// Prefer performance over battery life.
    pub high_performance: bool,
    /// Take a software renderer.
    pub software: bool,
}

/// What to do next.
#[derive(Debug, Clone, Copy, PartialEq, Eq)]
pub enum Action {
    /// Pin the module that contains the library.
    Pin,
    /// Make an instance and ask it for an adapter.
    AskAdapter(AdapterWish),
    /// Open a device with room for a video decoder.
    OpenShared(DeviceRequest),
    /// Request an ordinary device.
    RequestDevice(DeviceRequest),
    /// Keep the outcome.
    Stop,
}

/// What came back.
#[derive(Debug, Clone, PartialEq)]
pub enum Event {
    /// The loader answered.
    Loader(LoaderAnswer),
    /// An adapter was found, or none.
    Adapter(Option<AdapterOffer>),
    /// What came of opening a device with room for a decoder.
    SharedOpened(SharedOutcome),
    /// The ordinary device was made, or not.
    DeviceMade(bool),
}

/// What to do in a state.
pub open spec fn action_of(state: Negotiation) -> Action {
    match state {
        Negotiation::Pinning => Action::Pin,
        Negotiation::AskingAdapter => Action::AskAdapter(
            AdapterWish { high_performance: true, software: false },
        ),
        Negotiation::OpeningShared(offer) => Action::OpenShared(shared_request(offer)),
        Negotiation::Requesting(offer) => Action::RequestDevice(shared_request(offer)),
        _ => Action::Stop,
    }
}

/// The state after an event. An event that answers nothing that was asked changes nothing.
pub open spec fn next(state: Negotiation, event: Event) -> Negotiation {
    match (state, event) {
        (Negotiation::Pinning, Event::Loader(answer)) => if pin_complaint(answer) is None {
            Negotiation::AskingAdapter
        } else {
            Negotiation::DoneNone
        },
        (Negotiation::AskingAdapter, Event::Adapter(found)) => match found {
            Some(offer) => Negotiation::OpeningShared(offer),
            None => Negotiation::DoneNone,
        },
        (Negotiation::OpeningShared(offer), Event::SharedOpened(outcome)) => match outcome {
            SharedOutcome::Opened => Negotiation::DoneShared,
            SharedOutcome::NotCapable => Negotiation::Requesting(offer),
            SharedOutcome::Failed => Negotiation::DoneNone,
        },
        (Negotiation::Requesting(_), Event::DeviceMade(ok)) => if ok {
            Negotiation::DonePlain
        } else {
            Negotiation::DoneNone
        },
        _ => state,
    }
}

impl Negotiation {
    /// The negotiation before anything was asked.
    pub fn start() -> (r: Self)
        ensures
            r == Negotiation::Pinning,
    {
        Negotiation::Pinning
    }

    /// What to do next.
    pub fn action(&self) -> (r: Action)
        ensures
            r == action_of(*self),
    {
        match self {
            Negotiation::Pinning => Action::Pin,
            Negotiation::AskingAdapter => Action::AskAdapter(
                AdapterWish { high_performance: true, software: false },
            ),
            Negotiation::OpeningShared(offer) => Action::OpenShared(request_shared(offer)),
            Negotiation::Requesting(offer) => Action::RequestDevice(request_shared(offer)),
            Negotiation::DoneShared => Action::Stop,
            Negotiation::DonePlain => Action::Stop,
            Negotiation::DoneNone => Action::Stop,
        }
    }

    /// The state after an event.
    pub fn step(self, event: &Event) -> (r: Self)
        ensures
            r == next(self, *event),
    {
        match (self, event) {
            (Negotiation::Pinning, Event::Loader(answer)) => match pin_containing_module(answer) {
                Ok(_) => Negotiation::AskingAdapter,
                Err(_) => Negotiation::DoneNone,
            },
            (Negotiation::AskingAdapter, Event::Adapter(found)) => match found {
                Some(offer) => Negotiation::OpeningShared(*offer),
                None => Negotiation::DoneNone,
            },
            (Negotiation::OpeningShared(offer), Event::SharedOpened(outcome)) => match outcome {
                SharedOutcome::Opened => Negotiation::DoneShared,
                SharedOutcome::NotCapable => Negotiation::Requesting(offer),
                SharedOutcome::Failed => Negotiation::DoneNone,
            },
            (Negotiation::Requesting(_), Event::DeviceMade(ok)) => if *ok {
                Negotiation::DonePlain
            } else {
                Negotiation::DoneNone
            },
            _ => self,
        }
    }
}

// ---------------------------------------------------------------------------
// Laws
// ---------------------------------------------------------------------------

/// The state after a run of events.
pub open spec fn after(events: Seq<Event>) -> Negotiation
    decreases events.len(),
{
    if events.len() == 0 {
        Negotiation::Pinning
    } else {
        next(after(events.drop_last()), events.last())
    }
}

/// Is the event the news that the module is pinned?
pub open spec fn is_pinned(event: Event) -> bool {
    event matches Event::Loader(answer) && pin_complaint(answer) is None
}

/// No adapter is asked for and no device is made unless the module was pinned.
pub proof fn law_pinned_before_any_device(events: Seq<Event>)
    ensures
        after(events) == Negotiation::Pinning || after(events) == Negotiation::DoneNone || exists|
            i: int,
        | 0 <= i < events.len() && is_pinned(#[trigger] events[i]),
    decreases events.len(),
{
    if events.len() > 0 {
        let before = events.drop_last();
        law_pinned_before_any_device(before);
        if exists|i: int| 0 <= i < before.len() && is_pinned(#[trigger] before[i]) {
            let i = choose|i: int| 0 <= i < before.len() && is_pinned(#[trigger] before[i]);
            assert(is_pinned(events[i]));
        } else if is_pinned(events.last()) {
            assert(is_pinned(events[events.len() - 1]));
        }
    }
}

/// How far along a state is.
pub open spec fn progress(state: Negotiation) -> nat {
    match state {
        Negotiation::Pinning => 0,
        Negotiation::AskingAdapter => 1,
        Negotiation::OpeningShared(_) => 2,
        Negotiation::Requesting(_) => 3,
        _ => 4,
    }
}

/// The negotiation never goes back and never repeats a question: an event either leaves the state
/// as it is or moves it on, and a finished negotiation keeps its outcome for good.
pub proof fn law_negotiated_once(state: Negotiation, event: Event)
    ensures
        next(state, event) == state || progress(next(state, event)) > progress(state),
        action_of(state) == Action::Stop ==> next(state, event) == state,
{
}

/// An ordinary device is asked for only where nothing can be shared. A device that could not be
/// created is no reason: there is then no device at all, and that is kept.
pub proof fn law_failed_creation_is_final(
    offer: AdapterOffer,
    facts: Option<VulkanFacts>,
    made: Option<Result<VulkanShared, Refusal>>,
)
    ensures
        is_capable(facts) && made is None ==> next(
            Negotiation::OpeningShared(offer),
            Event::SharedOpened(outcome_of(facts, made)),
        ) == Negotiation::DoneNone,
        !is_capable(facts) ==> next(
            Negotiation::OpeningShared(offer),
            Event::SharedOpened(outcome_of(facts, made)),
        ) == Negotiation::Requesting(offer),
        is_capable(facts) && (made matches Some(m) && m is Ok) ==> next(
            Negotiation::OpeningShared(offer),
            Event::SharedOpened(outcome_of(facts, made)),
        ) == Negotiation::DoneShared,
{
}

/// No experimental feature is ever asked for: a device that is asked for one without an opt-in
/// refuses the whole request. And no feature is asked for that the adapter lacks.
pub proof fn law_only_stable_supported_features(offer: AdapterOffer)
    ensures
        shared_request(offer).features.wgpu & EXPERIMENTAL_FEATURES == 0,
        shared_request(offer).features.wgpu & offer.features.wgpu
            == shared_request(offer).features.wgpu,
        shared_request(offer).features.webgpu & offer.features.webgpu
            == shared_request(offer).features.webgpu,
        shared_request(offer).limits == offer.limits,
{
    let w = offer.features.wgpu;
    let g = offer.features.webgpu;
    assert((0xffff_ffff_fdfe_bfffu64 & !0x0287_0001_0100_0000u64 & w) & 0x0287_0001_0100_0000u64
        == 0) by (bit_vector);
    assert((0xffff_ffff_fdfe_bfffu64 & !0x0287_0001_0100_0000u64 & w) & w == (
    0xffff_ffff_fdfe_bfffu64 & !0x0287_0001_0100_0000u64 & w)) by (bit_vector);
    assert((0x3ffffu64 & g) & g == 0x3ffffu64 & g) by (bit_vector);
}

/// Whichever device is asked for, with room for a decoder or without: each feature that is
/// declared, not experimental and supported by the adapter is asked for, no other is, and the
/// limits are the adapter's own.
pub proof fn law_what_every_device_is_asked_for(state: Negotiation, offer: AdapterOffer, k: u64)
    requires
        state == Negotiation::OpeningShared(offer) || state == Negotiation::Requesting(offer),
        k < 64,
    ensures
        match action_of(state) {
            Action::OpenShared(r) => {
                &&& state == Negotiation::OpeningShared(offer)
                &&& r.limits == offer.limits
                &&& r.features.wgpu & (1u64 << k) != 0 <==> WGPU_FEATURES & (1u64 << k) != 0
                    && EXPERIMENTAL_FEATURES & (1u64 << k) == 0 && offer.features.wgpu & (1u64 << k)
                    != 0
                &&& r.features.webgpu & (1u64 << k) != 0 <==> WEBGPU_FEATURES & (1u64 << k) != 0
                    && offer.features.webgpu & (1u64 << k) != 0
            },
            Action::RequestDevice(r) => {
                &&& state == Negotiation::Requesting(offer)
                &&& r.limits == offer.limits
                &&& r.features.wgpu & (1u64 << k) != 0 <==> WGPU_FEATURES & (1u64 << k) != 0
                    && EXPERIMENTAL_FEATURES & (1u64 << k) == 0 && offer.features.wgpu & (1u64 << k)
                    != 0
                &&& r.features.webgpu & (1u64 << k) != 0 <==> WEBGPU_FEATURES & (1u64 << k) != 0
                    && offer.features.webgpu & (1u64 << k) != 0
            },
            _ => false,
        },
{
    let w = offer.features.wgpu;
    let g = offer.features.webgpu;
    let all = WGPU_FEATURES;
    let web = WEBGPU_FEATURES;
    let experimental = EXPERIMENTAL_FEATURES;
    assert(((all & !experimental) & w) & (1u64 << k) != 0 <==> all & (1u64 << k) != 0
        && experimental & (1u64 << k) == 0 && w & (1u64 << k) != 0) by (bit_vector)
        requires
            k < 64,
    ;
    assert((web & g) & (1u64 << k) != 0 <==> web & (1u64 << k) != 0 && g & (1u64 << k) != 0)
        by (bit_vector);
}

/// Of the features that a caller wants, a request has exactly those that the adapter supports.
pub proof fn law_extra_features(wanted: FeatureBits, offered: FeatureBits, k: u64)
    requires
        k < 64,
    ensures
        common_features(wanted, offered).wgpu & (1u64 << k) != 0 <==> wanted.wgpu & (1u64 << k) != 0
            && offered.wgpu & (1u64 << k) != 0,
        common_features(wanted, offered).webgpu & (1u64 << k) != 0 <==> wanted.webgpu & (1u64 << k)
            != 0 && offered.webgpu & (1u64 << k) != 0,
{
    let a = wanted.wgpu;
    let b = offered.wgpu;
    let c = wanted.webgpu;
    let d = offered.webgpu;
    assert((a & b) & (1u64 << k) != 0 <==> a & (1u64 << k) != 0 && b & (1u64 << k) != 0)
        by (bit_vector);
    assert((c & d) & (1u64 << k) != 0 <==> c & (1u64 << k) != 0 && d & (1u64 << k) != 0)
        by (bit_vector);
}

/// A device is asked for in the two states that hold an adapter's offer and in no other. Before
/// that, the module is to be pinned, and then a fast adapter that is no software renderer is asked
/// for.
pub proof fn law_when_what_is_asked_for(state: Negotiation)
    ensures
        action_of(state) is OpenShared <==> state is OpeningShared,
        action_of(state) is RequestDevice <==> state is Requesting,
        action_of(state) is Pin <==> state is Pinning,
        action_of(state) is AskAdapter <==> state is AskingAdapter,
        action_of(state) matches Action::AskAdapter(w) ==> w.high_performance && !w.software,
        action_of(state) is Stop <==> state is DoneShared || state is DonePlain || state is DoneNone,
{
}

/// How a negotiation runs: without a pinned module there is no device; without an adapter there is
/// none; a device that was opened with room for a decoder is the outcome; one that could not be
/// created leaves none; and where nothing can be shared, the ordinary device decides. The two
/// devices are asked of the one adapter that was found.
pub proof fn law_runs(answer: LoaderAnswer, offer: AdapterOffer, made: bool)
    ensures
        ({
            let loader = Event::Loader(answer);
            let found = Event::Adapter(Some(offer));
            let not_capable = Event::SharedOpened(SharedOutcome::NotCapable);
            if pin_complaint(answer) is Some {
                after(seq![loader]) == Negotiation::DoneNone
            } else {
                &&& after(seq![loader]) == Negotiation::AskingAdapter
                &&& after(seq![loader, Event::Adapter(None)]) == Negotiation::DoneNone
                &&& after(seq![loader, found]) == Negotiation::OpeningShared(offer)
                &&& after(seq![loader, found, Event::SharedOpened(SharedOutcome::Opened)])
                    == Negotiation::DoneShared
                &&& after(seq![loader, found, Event::SharedOpened(SharedOutcome::Failed)])
                    == Negotiation::DoneNone
                &&& after(seq![loader, found, not_capable]) == Negotiation::Requesting(offer)
                &&& made ==> after(seq![loader, found, not_capable, Event::DeviceMade(made)])
                    == Negotiation::DonePlain
                &&& !made ==> after(seq![loader, found, not_capable, Event::DeviceMade(made)])
                    == Negotiation::DoneNone
            }
        }),
        after(seq![]) == Negotiation::Pinning,
{
    let loader = Event::Loader(answer);
    let found = Event::Adapter(Some(offer));
    let not_capable = Event::SharedOpened(SharedOutcome::NotCapable);
    assert(after(seq![]) == Negotiation::Pinning);
    lemma_after(seq![], loader);
    let one = seq![loader];
    assert(Seq::<Event>::empty().push(loader) =~= one);
    lemma_after(one, Event::Adapter(None));
    assert(one.push(Event::Adapter(None)) =~= seq![loader, Event::Adapter(None)]);
    lemma_after(one, found);
    let two = seq![loader, found];
    assert(one.push(found) =~= two);
    lemma_after(two, Event::SharedOpened(SharedOutcome::Opened));
    assert(two.push(Event::SharedOpened(SharedOutcome::Opened)) =~= seq![
        loader,
        found,
        Event::SharedOpened(SharedOutcome::Opened),
    ]);
    lemma_after(two, Event::SharedOpened(SharedOutcome::Failed));
    assert(two.push(Event::SharedOpened(SharedOutcome::Failed)) =~= seq![
        loader,
        found,
        Event::SharedOpened(SharedOutcome::Failed),
    ]);
    lemma_after(two, not_capable);
    let three = seq![loader, found, not_capable];
    assert(two.push(not_capable) =~= three);
    lemma_after(three, Event::DeviceMade(made));
    assert(three.push(Event::DeviceMade(made)) =~= seq![
        loader,
        found,
        not_capable,
        Event::DeviceMade(made),
    ]);
}

proof fn lemma_after(events: Seq<Event>, event: Event)
    ensures
        after(events.push(event)) == next(after(events), event),
{
    assert(events.push(event).drop_last() =~= events);
}

/// An event that answers nothing that was asked leaves everything as it is.
pub proof fn law_unasked_events(state: Negotiation, event: Event)
    requires
        !(action_of(state) is Pin && event is Loader),
        !(action_of(state) is AskAdapter && event is Adapter),
        !(action_of(state) is OpenShared && event is SharedOpened),
        !(action_of(state) is RequestDevice && event is DeviceMade),
    ensures
        next(state, event) == state,
{
}

} // verus!
