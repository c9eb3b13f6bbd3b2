//! Google / Calendar profile bundle (`X-GOOGLE-*`).

use vstd::prelude::*;
use crate::raw::{copy_props, props_view, RawProperty, RawPropertyView};
use crate::text::{chars_of, has_prefix, starts_with};

verus! {

/// True if `name` starts with `X-GOOGLE-`.
pub open spec fn owns_property_spec(name: Seq<char>) -> bool {
    starts_with(name, "X-GOOGLE-"@)
}

/// True if `name` starts with one of this profile's prefixes.
pub fn owns_property(name: &str) -> (r: bool)
    ensures
        r == owns_property_spec(name@),
{
    let n = chars_of(name);
    has_prefix(&n, &chars_of("X-GOOGLE-"))
}

/// Google event-level extension bundle; every prefix-matched property
/// lands in `unrecognized`.
#[derive(Debug, Clone, PartialEq, Eq, Default)]
pub struct EventExtensions {
    pub unrecognized: Vec<RawProperty>,
}

/// Model of the bundle.
pub struct EventExtensionsView {
    pub unrecognized: Seq<RawPropertyView>,
}

impl View for EventExtensions {
    type V = EventExtensionsView;

    open spec fn view(&self) -> EventExtensionsView {
        EventExtensionsView { unrecognized: props_view(self.unrecognized@) }
    }
}

impl EventExtensions {
    /// A copy of the bundle.
    pub fn copy(&self) -> (r: EventExtensions)
        ensures
            r@ == self@,
    {
        EventExtensions { unrecognized: copy_props(&self.unrecognized) }
    }
}

} // verus!
