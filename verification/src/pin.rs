//! Keeping the module that owns the shared device mapped for the life of the process.
//!
//! The shared device is process-lifetime state. In a dynamically loaded module that the host may
//! unload, that state would outlive its code, so the module is pinned before the device is made.
//! A module that cannot be pinned gets no device.
use vstd::prelude::*;

verus! {

/// Why the module could not be pinned.
#[derive(Debug, Clone, PartialEq, Eq)]
pub struct PinError(pub String);

impl PinError {
    /// How the error reads.
    pub fn message(&self) -> (r: &str)
        ensures
            r@ == self.0@,
    {
        self.0.as_str()
    }
}

/// What the loader of a Unix system answered.
#[derive(Debug, Clone, PartialEq, Eq)]
pub struct UnixAnswer {
    /// What `dladdr` returned for an address inside this library: zero where no object contains
    /// it.
    pub found: i32,
    /// Did `dladdr` give the object's file name?
    pub has_file_name: bool,
    /// Did `dlopen` reopen the object so that it is never unmapped?
    pub opened: bool,
    /// The loader's message, where it left one.
    pub reason: Option<String>,
}

/// What the system's loader answered when it was asked to keep the module that contains this
/// library's code.
#[derive(Debug, Clone, PartialEq, Eq)]
pub enum LoaderAnswer {
    /// Linux, macOS and other Unix systems.
    Unix(UnixAnswer),
    /// Windows: the message of a failed `GetModuleHandleExW`, none where it succeeded.
    Windows(Option<String>),
    /// This platform has no modules to unload.
    NoModules,
}

/// The complaint that a Unix loader's answer gives rise to, if any.
pub open spec fn unix_complaint(a: UnixAnswer) -> Option<Seq<char>> {
    if a.found == 0 {
        Some("dladdr found no object containing gpu-info-rs"@)
    } else if !a.has_file_name {
        Some("dladdr returned no file name for gpu-info-rs"@)
    } else if !a.opened {
        Some(
            "dlopen(RTLD_NOLOAD | RTLD_NODELETE) failed: "@ + match a.reason {
                Some(r) => r@,
                None => "no dlerror message"@,
            },
        )
    } else {
        None
    }
}

/// The complaint that an answer gives rise to, if any.
pub open spec fn pin_complaint(answer: LoaderAnswer) -> Option<Seq<char>> {
    match answer {
        LoaderAnswer::Unix(a) => unix_complaint(a),
        LoaderAnswer::Windows(Some(reason)) => Some(
            "GetModuleHandleExW(FROM_ADDRESS | PIN) failed: "@ + reason@,
        ),
        LoaderAnswer::Windows(None) => None,
        LoaderAnswer::NoModules => None,
    }
}

fn pin_unix(a: &UnixAnswer) -> (r: Result<(), PinError>)
    ensures
        match r {
            Ok(_) => unix_complaint(*a) is None,
            Err(e) => unix_complaint(*a) == Some(e.0@),
        },
{
    if a.found == 0 {
        return Err(PinError("dladdr found no object containing gpu-info-rs".to_owned()));
    }
    if !a.has_file_name {
        return Err(PinError("dladdr returned no file name for gpu-info-rs".to_owned()));
    }
    if !a.opened {
        let mut s = "dlopen(RTLD_NOLOAD | RTLD_NODELETE) failed: ".to_owned();
        match &a.reason {
            Some(r) => s.append(r.as_str()),
            None => s.append("no dlerror message"),
        }
        return Err(PinError(s));
    }
    Ok(())
}

/// Whether the module that contains this library stays mapped, as the loader answered.
pub fn pin_containing_module(answer: &LoaderAnswer) -> (r: Result<(), PinError>)
    ensures
        match r {
            Ok(_) => pin_complaint(*answer) is None,
            Err(e) => pin_complaint(*answer) == Some(e.0@),
        },
{
    match answer {
        LoaderAnswer::Unix(a) => pin_unix(a),
        LoaderAnswer::Windows(failure) => match failure {
            Some(reason) => {
                let mut s = "GetModuleHandleExW(FROM_ADDRESS | PIN) failed: ".to_owned();
                s.append(reason.as_str());
                Err(PinError(s))
            },
            None => Ok(()),
        },
        LoaderAnswer::NoModules => Ok(()),
    }
}

/// The module is pinned exactly where the Unix loader found the object and its file name and
/// reopened it, where the call on Windows succeeded, and where there are no modules. A failure
/// ends with the loader's own reason where it gave one.
pub proof fn law_when_the_module_is_pinned(answer: LoaderAnswer)
    ensures
        pin_complaint(answer) is None <==> match answer {
            LoaderAnswer::Unix(a) => a.found != 0 && a.has_file_name && a.opened,
            LoaderAnswer::Windows(failure) => failure is None,
            LoaderAnswer::NoModules => true,
        },
        match answer {
            LoaderAnswer::Unix(a) => {
                &&& a.found == 0 ==> pin_complaint(answer) == Some(
                    "dladdr found no object containing gpu-info-rs"@,
                )
                &&& a.found != 0 && !a.has_file_name ==> pin_complaint(answer) == Some(
                    "dladdr returned no file name for gpu-info-rs"@,
                )
                &&& a.found != 0 && a.has_file_name && !a.opened ==> pin_complaint(answer) == Some(
                    "dlopen(RTLD_NOLOAD | RTLD_NODELETE) failed: "@ + (if a.reason is Some {
                        a.reason->0@
                    } else {
                        "no dlerror message"@
                    }),
                )
            },
            LoaderAnswer::Windows(failure) => failure is Some ==> pin_complaint(answer) == Some(
                "GetModuleHandleExW(FROM_ADDRESS | PIN) failed: "@ + failure->0@,
            ),
            LoaderAnswer::NoModules => true,
        },
{
}

} // verus!
