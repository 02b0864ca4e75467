//! The displays' ICC profiles, from what the OS says of its displays.
use crate::narrow::strict_c_str;
use crate::number::{decimal, push_decimal};
use crate::text::{before_first, chars_of, skip_leading, strip_leading, text_of};
use crate::wide::{utf16_text, wide_text};
use vstd::prelude::*;
use vstd::utf8::{decode_utf8, valid_utf8};

verus! {

/// One display and its ICC profile.
#[derive(Debug, Clone, PartialEq, Eq)]
pub struct DisplayProfile {
    /// Windows: `"DISPLAY1, <monitor name>"`; macOS: `"Display <n>"`.
    pub name: String,
    /// The path of the profile file.
    pub icc_path: String,
}

/// What a [`DisplayProfile`] holds.
#[verifier::ext_equal]
pub struct ProfileView {
    /// The display's name.
    pub name: Seq<char>,
    /// The path of the profile file.
    pub icc_path: Seq<char>,
}

impl View for DisplayProfile {
    type V = ProfileView;

    open spec fn view(&self) -> ProfileView {
        ProfileView { name: self.name@, icc_path: self.icc_path@ }
    }
}

/// What a list of profiles holds.
pub open spec fn profiles_view(v: Seq<DisplayProfile>) -> Seq<ProfileView> {
    Seq::new(v.len(), |i: int| v[i]@)
}

/// Windows: the display is in use.
pub const DISPLAY_DEVICE_ACTIVE: u32 = 0x1;

/// Windows: the display is part of the desktop.
pub const DISPLAY_DEVICE_ATTACHED_TO_DESKTOP: u32 = 0x1;

/// What Windows says of one display adapter.
#[derive(Debug, Clone, PartialEq, Eq)]
pub struct WindowsDisplay {
    /// The state flags.
    pub flags: u32,
    /// The adapter's device name, padded with NULs.
    pub device_name: Vec<u16>,
    /// The profile path, padded with NULs, where a device context could be made and has a
    /// profile.
    pub profile: Option<Vec<u16>>,
    /// The monitor's description, padded with NULs.
    pub monitor: Vec<u16>,
}

/// What macOS says of its displays.
#[derive(Debug, Clone, PartialEq, Eq)]
pub struct MacDisplays {
    /// The status of the display list: zero is success.
    pub status: i32,
    /// For each active display the profile path as a C string, where it has one.
    pub profiles: Vec<Option<Vec<u8>>>,
}

/// What the OS says of its displays.
#[derive(Debug, Clone, PartialEq, Eq)]
pub enum DisplayFacts {
    /// Windows: its display adapters in enumeration order.
    Windows(Vec<WindowsDisplay>),
    /// macOS.
    Mac(MacDisplays),
    /// The OS has no such interface (Linux).
    Unavailable,
}

/// Is a display in use and part of the desktop?
pub open spec fn shown(flags: u32) -> bool {
    flags & DISPLAY_DEVICE_ACTIVE == DISPLAY_DEVICE_ACTIVE && flags
        & DISPLAY_DEVICE_ATTACHED_TO_DESKTOP == DISPLAY_DEVICE_ATTACHED_TO_DESKTOP
}

/// Is a display in use and part of the desktop? Others are not asked for a profile.
pub fn is_shown(flags: u32) -> (r: bool)
    ensures
        r == shown(flags),
{
    flags & DISPLAY_DEVICE_ACTIVE == DISPLAY_DEVICE_ACTIVE && flags
        & DISPLAY_DEVICE_ATTACHED_TO_DESKTOP == DISPLAY_DEVICE_ATTACHED_TO_DESKTOP
}

/// The text in a buffer padded with NULs.
pub open spec fn padded_text(units: Seq<u16>) -> Seq<char> {
    utf16_text(before_first(units, 0))
}

/// The profile that a Windows display is listed with, if it is.
pub open spec fn windows_profile(d: WindowsDisplay) -> Option<ProfileView> {
    match d.profile {
        Some(path) => if shown(d.flags) && padded_text(path@).len() > 0 {
            Some(
                ProfileView {
                    name: strip_leading(padded_text(d.device_name@), "\\\\.\\"@) + ", "@
                        + padded_text(d.monitor@),
                    icc_path: padded_text(path@),
                },
            )
        } else {
            None
        },
        None => None,
    }
}

/// The profiles of the first `n` Windows displays, in enumeration order.
pub open spec fn windows_profiles(displays: Seq<WindowsDisplay>, n: nat) -> Seq<ProfileView>
    decreases n,
{
    if n == 0 {
        seq![]
    } else {
        let before = windows_profiles(displays, (n - 1) as nat);
        match windows_profile(displays[n - 1]) {
            Some(p) => before.push(p),
            None => before,
        }
    }
}

/// The profile that the macOS display at index `i` is listed with, if it is.
pub open spec fn mac_profile(profile: Option<Vec<u8>>, i: int) -> Option<ProfileView> {
    match profile {
        Some(path) => if valid_utf8(before_first(path@, 0)) && decode_utf8(
            before_first(path@, 0),
        ).len() > 0 {
            Some(
                ProfileView {
                    name: "Display "@ + decimal((i + 1) as nat),
                    icc_path: decode_utf8(before_first(path@, 0)),
                },
            )
        } else {
            None
        },
        None => None,
    }
}

/// The profiles of the first `n` macOS displays, in list order.
pub open spec fn mac_profiles(profiles: Seq<Option<Vec<u8>>>, n: nat) -> Seq<ProfileView>
    decreases n,
{
    if n == 0 {
        seq![]
    } else {
        let before = mac_profiles(profiles, (n - 1) as nat);
        match mac_profile(profiles[n - 1], n - 1) {
            Some(p) => before.push(p),
            None => before,
        }
    }
}

/// Every active display that has a profile, in order. A profile without a path is none.
pub open spec fn listed(facts: DisplayFacts) -> Seq<ProfileView> {
    match facts {
        DisplayFacts::Windows(displays) => windows_profiles(displays@, displays@.len()),
        DisplayFacts::Mac(mac) => if mac.status == 0 {
            mac_profiles(mac.profiles@, mac.profiles@.len())
        } else {
            seq![]
        },
        DisplayFacts::Unavailable => seq![],
    }
}

/// Appends a profile to a list.
fn push_profile(out: &mut Vec<DisplayProfile>, p: DisplayProfile)
    ensures
        profiles_view(final(out)@) == profiles_view(old(out)@).push(p@),
{
    out.push(p);
    assert(profiles_view(out@) =~= profiles_view(old(out)@).push(p@));
}

/// `\\.\DISPLAY1` and a monitor's name as `DISPLAY1, <monitor>`.
fn windows_name(device_name: &Vec<u16>, monitor: &Vec<u16>) -> (r: String)
    ensures
        r@ == strip_leading(padded_text(device_name@), "\\\\.\\"@) + ", "@ + padded_text(monitor@),
{
    let adapter = wide_text(device_name.as_slice());
    let chars = chars_of(adapter.as_str());
    let from = skip_leading(&chars, &chars_of("\\\\.\\"));
    let mut name = text_of(&chars, from, chars.len());
    name.append(", ");
    name.append(wide_text(monitor.as_slice()).as_str());
    name
}

/// The Windows displays that are listed.
fn list_windows(displays: &Vec<WindowsDisplay>) -> (out: Vec<DisplayProfile>)
    ensures
        profiles_view(out@) == windows_profiles(displays@, displays@.len()),
{
    let mut out: Vec<DisplayProfile> = Vec::new();
    assert(profiles_view(out@) =~= seq![]);
    let mut n: usize = 0;
    while n < displays.len()
        invariant
            n <= displays@.len(),
            profiles_view(out@) == windows_profiles(displays@, n as nat),
        decreases displays@.len() - n,
    {
        let d = &displays[n];
        if is_shown(d.flags) {
            if let Some(path) = &d.profile {
                let name = windows_name(&d.device_name, &d.monitor);
                let icc_path = wide_text(path.as_slice());
                if !icc_path.as_str().is_empty() {
                    push_profile(&mut out, DisplayProfile { name, icc_path });
                }
            }
        }
        n = n + 1;
    }
    out
}

/// The macOS displays that are listed.
fn list_mac(profiles: &Vec<Option<Vec<u8>>>) -> (out: Vec<DisplayProfile>)
    ensures
        profiles_view(out@) == mac_profiles(profiles@, profiles@.len()),
{
    let mut out: Vec<DisplayProfile> = Vec::new();
    assert(profiles_view(out@) =~= seq![]);
    let mut i: usize = 0;
    while i < profiles.len()
        invariant
            i <= profiles@.len(),
            profiles_view(out@) == mac_profiles(profiles@, i as nat),
        decreases profiles@.len() - i,
    {
        if let Some(path) = &profiles[i] {
            if let Some(icc_path) = strict_c_str(path.as_slice()) {
                if !icc_path.as_str().is_empty() {
                    let mut name = "Display ".to_owned();
                    push_decimal(&mut name, i as u64 + 1);
                    push_profile(&mut out, DisplayProfile { name, icc_path });
                }
            }
        }
        i = i + 1;
    }
    out
}

/// The listing of the platform that the facts are from.
fn platform(facts: &DisplayFacts) -> (r: Vec<DisplayProfile>)
    ensures
        profiles_view(r@) == listed(*facts),
{
    match facts {
        DisplayFacts::Windows(displays) => list_windows(displays),
        DisplayFacts::Mac(mac) => if mac.status == 0 {
            list_mac(&mac.profiles)
        } else {
            let r: Vec<DisplayProfile> = Vec::new();
            assert(profiles_view(r@) =~= seq![]);
            r
        },
        DisplayFacts::Unavailable => {
            let r: Vec<DisplayProfile> = Vec::new();
            assert(profiles_view(r@) =~= seq![]);
            r
        },
    }
}

/// Every active display that has an ICC profile. Empty where the OS has no such interface.
pub fn icc_profiles(facts: &DisplayFacts) -> (r: Vec<DisplayProfile>)
    ensures
        profiles_view(r@) == listed(*facts),
        forall|i: int|
            0 <= i < r@.len() ==> (#[trigger] r@[i]).name@.len() > 0 && r@[i].icc_path@.len() > 0,
{
    let r = platform(facts);
    proof {
        law_listed_displays_have_names_and_profiles(*facts);
        assert forall|i: int| 0 <= i < r@.len() implies (#[trigger] r@[i]).name@.len() > 0
            && r@[i].icc_path@.len() > 0 by {
            assert(profiles_view(r@)[i] == r@[i]@);
        }
    }
    r
}

/// Have all of `list` a name and a path?
pub open spec fn all_named(list: Seq<ProfileView>) -> bool {
    forall|i: int|
        0 <= i < list.len() ==> (#[trigger] list[i]).name.len() > 0 && list[i].icc_path.len() > 0
}

proof fn lemma_windows_named(displays: Seq<WindowsDisplay>, n: nat)
    requires
        n <= displays.len(),
    ensures
        all_named(windows_profiles(displays, n)),
    decreases n,
{
    if n > 0 {
        lemma_windows_named(displays, (n - 1) as nat);
        reveal_strlit(", ");
    }
}

proof fn lemma_mac_named(profiles: Seq<Option<Vec<u8>>>, n: nat)
    requires
        n <= profiles.len(),
    ensures
        all_named(mac_profiles(profiles, n)),
    decreases n,
{
    if n > 0 {
        lemma_mac_named(profiles, (n - 1) as nat);
        reveal_strlit("Display ");
    }
}

/// Every listed display has a name and a profile path.
pub proof fn law_listed_displays_have_names_and_profiles(facts: DisplayFacts)
    ensures
        forall|i: int|
            0 <= i < listed(facts).len() ==> (#[trigger] listed(facts)[i]).name.len() > 0 && listed(
                facts,
            )[i].icc_path.len() > 0,
{
    match facts {
        DisplayFacts::Windows(displays) => {
            lemma_windows_named(displays@, displays@.len());
        },
        DisplayFacts::Mac(mac) => {
            lemma_mac_named(mac.profiles@, mac.profiles@.len());
        },
        DisplayFacts::Unavailable => {},
    }
}

proof fn lemma_windows_before(displays: Seq<WindowsDisplay>, more: WindowsDisplay, n: nat)
    requires
        n <= displays.len(),
    ensures
        windows_profiles(displays.push(more), n) == windows_profiles(displays, n),
    decreases n,
{
    if n > 0 {
        lemma_windows_before(displays, more, (n - 1) as nat);
    }
}

/// A Windows display more is listed at the end exactly where its flag says that it is shown and its
/// profile has a path. It is listed by its device name without the prefix, its monitor's name and
/// that path.
pub proof fn law_one_more_windows_display(displays: Seq<WindowsDisplay>, d: WindowsDisplay)
    ensures
        ({
            let before = windows_profiles(displays, displays.len());
            let more = windows_profiles(displays.push(d), displays.len() + 1);
            if d.flags & 1 == 1 && d.profile is Some && utf16_text(
                before_first(d.profile->0@, 0),
            ).len() > 0 {
                more == before.push(
                    ProfileView {
                        name: strip_leading(
                            utf16_text(before_first(d.device_name@, 0)),
                            "\\\\.\\"@,
                        ) + ", "@ + utf16_text(before_first(d.monitor@, 0)),
                        icc_path: utf16_text(before_first(d.profile->0@, 0)),
                    },
                )
            } else {
                more == before
            }
        }),
        windows_profiles(seq![], 0) == Seq::<ProfileView>::empty(),
{
    lemma_windows_before(displays, d, displays.len());
}

proof fn lemma_mac_before(profiles: Seq<Option<Vec<u8>>>, more: Option<Vec<u8>>, n: nat)
    requires
        n <= profiles.len(),
    ensures
        mac_profiles(profiles.push(more), n) == mac_profiles(profiles, n),
    decreases n,
{
    if n > 0 {
        lemma_mac_before(profiles, more, (n - 1) as nat);
    }
}

/// A macOS display more is listed at the end exactly where its profile has a path that is text. It
/// is listed by its place among all displays, counted from one, and that path.
pub proof fn law_one_more_mac_display(profiles: Seq<Option<Vec<u8>>>, profile: Option<Vec<u8>>)
    ensures
        ({
            let before = mac_profiles(profiles, profiles.len());
            let more = mac_profiles(profiles.push(profile), profiles.len() + 1);
            if profile is Some && valid_utf8(before_first(profile->0@, 0)) && decode_utf8(
                before_first(profile->0@, 0),
            ).len() > 0 {
                more == before.push(
                    ProfileView {
                        name: "Display "@ + decimal(profiles.len() + 1),
                        icc_path: decode_utf8(before_first(profile->0@, 0)),
                    },
                )
            } else {
                more == before
            }
        }),
        mac_profiles(seq![], 0) == Seq::<ProfileView>::empty(),
{
    lemma_mac_before(profiles, profile, profiles.len());
}

/// All displays of the platform are gone through; none are listed where macOS gave no list, or
/// where the platform has none to give.
pub proof fn law_which_displays_are_listed(displays: Vec<WindowsDisplay>, mac: MacDisplays)
    ensures
        listed(DisplayFacts::Windows(displays)) == windows_profiles(
            displays@,
            displays@.len(),
        ),
        mac.status == 0 ==> listed(DisplayFacts::Mac(mac)) == mac_profiles(
            mac.profiles@,
            mac.profiles@.len(),
        ),
        mac.status != 0 ==> listed(DisplayFacts::Mac(mac)).len() == 0,
        listed(DisplayFacts::Unavailable).len() == 0,
{
}

/// The view of profiles tells all that they hold.
pub proof fn law_profile_views(v: Seq<DisplayProfile>, i: int)
    requires
        0 <= i < v.len(),
    ensures
        profiles_view(v).len() == v.len(),
        profiles_view(v)[i].name == v[i].name@,
        profiles_view(v)[i].icc_path == v[i].icc_path@,
{
}

} // verus!
