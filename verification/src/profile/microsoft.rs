//! Microsoft / Outlook profile bundle (`X-MICROSOFT-CDO-*`, `X-MICROSOFT-*`).
//!
//! Houses the typed `MsBusyStatus`: RFC `TRANSP` has two values while
//! Microsoft's busy state has five, so it lives in a vendor bundle.

use vstd::prelude::*;
use crate::raw::{copy_props, props_view, RawProperty, RawPropertyView};
use crate::text::{chars_of, has_prefix, starts_with, str_eq};

verus! {

/// True if `name` starts with `X-MICROSOFT-CDO-` or `X-MICROSOFT-`.
pub open spec fn owns_property_spec(name: Seq<char>) -> bool {
    starts_with(name, "X-MICROSOFT-CDO-"@) || starts_with(name, "X-MICROSOFT-"@)
}

/// True if `name` starts with one of this profile's prefixes.
pub fn owns_property(name: &str) -> (r: bool)
    ensures
        r == owns_property_spec(name@),
{
    let n = chars_of(name);
    has_prefix(&n, &chars_of("X-MICROSOFT-CDO-")) || has_prefix(&n, &chars_of("X-MICROSOFT-"))
}

/// Microsoft's `X-MICROSOFT-CDO-BUSYSTATUS` value space.
#[derive(Debug, Clone, Copy, PartialEq, Eq, Structural)]
pub enum MsBusyStatus {
    Free,
    Tentative,
    Busy,
    Oof,
    WorkingElsewhere,
}

/// RFC 5545 `TRANSP` value a busy status implies.
pub open spec fn transp_spec(b: MsBusyStatus) -> Seq<char> {
    match b {
        MsBusyStatus::Free => "TRANSPARENT"@,
        _ => "OPAQUE"@,
    }
}

/// A busy status leaves the time free (`TRANSPARENT`) only when it is
/// `FREE`; every other status blocks it (`OPAQUE`).
pub proof fn lemma_transp_blocks_unless_free(b: MsBusyStatus)
    ensures
        (transp_spec(b) == "TRANSPARENT"@) <==> (b == MsBusyStatus::Free),
        b != MsBusyStatus::Free ==> transp_spec(b) == "OPAQUE"@,
{
    reveal_strlit("TRANSPARENT");
    reveal_strlit("OPAQUE");
    assert("TRANSPARENT"@.len() != "OPAQUE"@.len());
}

/// Wire value of a busy status.
pub open spec fn cdo_value_spec(b: MsBusyStatus) -> Seq<char> {
    match b {
        MsBusyStatus::Free => "FREE"@,
        MsBusyStatus::Tentative => "TENTATIVE"@,
        MsBusyStatus::Busy => "BUSY"@,
        MsBusyStatus::Oof => "OOF"@,
        MsBusyStatus::WorkingElsewhere => "WORKINGELSEWHERE"@,
    }
}

/// Busy status a wire value denotes.
pub open spec fn from_cdo_spec(s: Seq<char>) -> Option<MsBusyStatus> {
    if s == "FREE"@ {
        Some(MsBusyStatus::Free)
    } else if s == "TENTATIVE"@ {
        Some(MsBusyStatus::Tentative)
    } else if s == "BUSY"@ {
        Some(MsBusyStatus::Busy)
    } else if s == "OOF"@ {
        Some(MsBusyStatus::Oof)
    } else if s == "WORKINGELSEWHERE"@ {
        Some(MsBusyStatus::WorkingElsewhere)
    } else {
        None
    }
}

impl MsBusyStatus {
    /// The RFC 5545 `TRANSP` value this status implies: `TRANSPARENT` for
    /// `Free`, `OPAQUE` otherwise.
    pub fn transp(self) -> (r: &'static str)
        ensures
            r@ == transp_spec(self),
    {
        match self {
            MsBusyStatus::Free => "TRANSPARENT",
            _ => "OPAQUE",
        }
    }

    /// The wire value of this status.
    pub fn cdo_value(self) -> (r: &'static str)
        ensures
            r@ == cdo_value_spec(self),
    {
        match self {
            MsBusyStatus::Free => "FREE",
            MsBusyStatus::Tentative => "TENTATIVE",
            MsBusyStatus::Busy => "BUSY",
            MsBusyStatus::Oof => "OOF",
            MsBusyStatus::WorkingElsewhere => "WORKINGELSEWHERE",
        }
    }

    /// The status a wire value denotes; `None` for any other text.
    pub fn from_cdo(s: &str) -> (r: Option<MsBusyStatus>)
        ensures
            r == from_cdo_spec(s@),
    {
        if str_eq(s, "FREE") {
            Some(MsBusyStatus::Free)
        } else if str_eq(s, "TENTATIVE") {
            Some(MsBusyStatus::Tentative)
        } else if str_eq(s, "BUSY") {
            Some(MsBusyStatus::Busy)
        } else if str_eq(s, "OOF") {
            Some(MsBusyStatus::Oof)
        } else if str_eq(s, "WORKINGELSEWHERE") {
            Some(MsBusyStatus::WorkingElsewhere)
        } else {
            None
        }
    }
}

/// Reading back the wire value of a busy status gives the status:
/// `from_cdo(b.cdo_value()) == Some(b)` for every status `b`.
pub proof fn lemma_from_cdo_value(b: MsBusyStatus)
    ensures
        from_cdo_spec(cdo_value_spec(b)) == Some(b),
{
    reveal_strlit("FREE");
    reveal_strlit("TENTATIVE");
    reveal_strlit("BUSY");
    reveal_strlit("OOF");
    reveal_strlit("WORKINGELSEWHERE");
    assert("FREE"@.len() == 4 && "TENTATIVE"@.len() == 9 && "BUSY"@.len() == 4);
    assert("OOF"@.len() == 3 && "WORKINGELSEWHERE"@.len() == 16);
    assert("BUSY"@[0] != "FREE"@[0]);
}

/// Microsoft event-level extension bundle.
#[derive(Debug, Clone, PartialEq, Eq, Default)]
pub struct EventExtensions {
    pub busystatus: Option<MsBusyStatus>,
    pub unrecognized: Vec<RawProperty>,
}

/// Model of the bundle.
pub struct EventExtensionsView {
    pub busystatus: Option<MsBusyStatus>,
    pub unrecognized: Seq<RawPropertyView>,
}

impl View for EventExtensions {
    type V = EventExtensionsView;

    open spec fn view(&self) -> EventExtensionsView {
        EventExtensionsView {
            busystatus: self.busystatus,
            unrecognized: props_view(self.unrecognized@),
        }
    }
}

impl EventExtensions {
    /// A copy of the bundle.
    pub fn copy(&self) -> (r: EventExtensions)
        ensures
            r@ == self@,
    {
        EventExtensions {
            busystatus: self.busystatus,
            unrecognized: copy_props(&self.unrecognized),
        }
    }
}

} // verus!
