//! What to do when the player thread asks for real-time scheduling.

use vstd::prelude::*;
use crate::error::SequencerError;

verus! {

/// Frames per buffer handed to the operating system as a scheduling hint.
pub const BUFFER_FRAMES: u32 = 512;

/// Sample rate handed to the operating system as a scheduling hint.
pub const SAMPLE_RATE: u32 = 44100;

/// How to react when real-time scheduling is refused.
#[derive(Debug, Clone, Copy, PartialEq, Eq, Structural)]
pub enum PriorityPolicy {
    /// Stop: timing cannot be guaranteed without it.
    FailFast,
    /// Play on with ordinary scheduling.
    Degrade,
}

/// How the player thread goes on after its request.
#[derive(Debug, Clone, Copy, PartialEq, Eq, Structural)]
pub enum PromotionDecision {
    /// Real-time scheduling was granted.
    RealTime,
    /// It was refused, and the policy allows playing without it.
    BestEffort,
    /// It was refused, and the policy stops the player.
    Abort(SequencerError),
}

/// The decision once the request for real-time scheduling has been answered.
pub fn after_promotion(policy: PriorityPolicy, promoted: bool) -> (r: PromotionDecision)
    ensures
        promoted ==> r == PromotionDecision::RealTime,
        !promoted && policy == PriorityPolicy::Degrade ==> r == PromotionDecision::BestEffort,
        !promoted && policy == PriorityPolicy::FailFast ==> r == PromotionDecision::Abort(
            SequencerError::RealTimePromotionFailed,
        ),
{
    if promoted {
        PromotionDecision::RealTime
    } else {
        match policy {
            PriorityPolicy::FailFast => PromotionDecision::Abort(SequencerError::RealTimePromotionFailed),
            PriorityPolicy::Degrade => PromotionDecision::BestEffort,
        }
    }
}

} // verus!
