//! Errors of the sequencer.

use vstd::prelude::*;

verus! {

/// What can go wrong, at startup or while playing.
#[derive(Debug, Clone, Copy, PartialEq, Eq, Structural)]
pub enum SequencerError {
    /// No local port from the base port up to 65535 could be bound.
    BindExhausted,
    /// The operating system refused real-time scheduling for the player thread.
    RealTimePromotionFailed,
    /// The rhythm parameters were refused: no pulses, or more pulses than steps.
    PatternGenerationError,
    /// A trigger message could not be encoded.
    EncodingFailure,
    /// A trigger datagram could not be sent.
    SendFailure,
}

impl SequencerError {
    /// Startup errors stop the program; errors while playing skip one event.
    pub fn is_fatal(&self) -> (r: bool)
        ensures
            r == (*self == SequencerError::BindExhausted
                || *self == SequencerError::RealTimePromotionFailed
                || *self == SequencerError::PatternGenerationError),
    {
        match self {
            SequencerError::BindExhausted => true,
            SequencerError::RealTimePromotionFailed => true,
            SequencerError::PatternGenerationError => true,
            SequencerError::EncodingFailure => false,
            SequencerError::SendFailure => false,
        }
    }
}

} // verus!
