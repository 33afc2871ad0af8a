//! Resource events related structures and enumerations.

use vstd::prelude::*;
use crate::common::resources::SwapchainId;

verus! {

/// Resource event shared among tasks.
#[derive(Debug, Clone, Copy, PartialEq, Eq, Structural)]
pub enum ResourceEvent {
    SwapchainCreated { external_id: usize, swapchain: SwapchainId },
    SwapchainDestroyed(SwapchainId),
    SwapchainUpdated(SwapchainId),
}

} // verus!
