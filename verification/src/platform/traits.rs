//! The trait a platform adapter implements.
use vstd::prelude::*;

use crate::platform::event::AstrMessageEvent;
use crate::platform::metadata::PlatformMetadata;

verus! {

/// A chat platform as the core sees it: what it is, and where it hands the
/// events it receives. Running the adapter and sending replies are asynchronous
/// and belong to the host that drives it.
pub trait Platform {
    fn meta(&self) -> PlatformMetadata;

    fn commit_event(&self, event: AstrMessageEvent);
}

} // verus!
