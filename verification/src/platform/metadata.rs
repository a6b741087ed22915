//! Platform metadata.
use vstd::prelude::*;

use crate::text::string_from;

verus! {

/// What identifies a platform instance and how it presents itself.
#[derive(Debug, Clone)]
pub struct PlatformMetadata {
    pub id: String,
    pub name: String,
    pub display_name: String,
    pub support_streaming: bool,
}

impl PlatformMetadata {
    pub fn new(id: &str, name: &str, display_name: &str) -> (r: PlatformMetadata)
        ensures
            r.id@ == id@,
            r.name@ == name@,
            r.display_name@ == display_name@,
            !r.support_streaming,
    {
        PlatformMetadata {
            id: string_from(id),
            name: string_from(name),
            display_name: string_from(display_name),
            support_streaming: false,
        }
    }

    /// A copy of this metadata.
    pub fn duplicate(&self) -> (r: PlatformMetadata)
        ensures
            r.id@ == self.id@,
            r.name@ == self.name@,
            r.display_name@ == self.display_name@,
            r.support_streaming == self.support_streaming,
    {
        PlatformMetadata {
            id: self.id.clone(),
            name: self.name.clone(),
            display_name: self.display_name.clone(),
            support_streaming: self.support_streaming,
        }
    }
}

} // verus!
