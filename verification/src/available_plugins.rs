//! The closed set of plugin identities, fixed at build time: one constant per
//! registered event source plus the reserved `error` pseudo-plugin that tags
//! self-reported failures. It is the sole key type for every plugin-indexed
//! collection.

use vstd::prelude::*;

verus! {

#[allow(non_camel_case_types)]
#[derive(Debug, Clone, Copy, PartialEq, Eq, Hash, Structural)]
pub enum AvailablePlugins {
    media_scan,
    location,
    error,
}

impl AvailablePlugins {
    /// The identity's name, as used in store filters and report messages.
    pub open spec fn spec_name(self) -> Seq<char> {
        match self {
            AvailablePlugins::media_scan => "media_scan"@,
            AvailablePlugins::location => "location"@,
            AvailablePlugins::error => "error"@,
        }
    }

    pub fn name(&self) -> (r: &'static str)
        ensures
            r@ == self.spec_name(),
    {
        match self {
            AvailablePlugins::media_scan => "media_scan",
            AvailablePlugins::location => "location",
            AvailablePlugins::error => "error",
        }
    }
}

} // verus!
