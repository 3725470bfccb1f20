//! The audio passthrough pipeline: shared state and buffering, the
//! device-selection rules, and the status reported when the pipeline cannot
//! start or a stream fails.
pub mod common;
pub mod linux;

use vstd::prelude::*;
use crate::text::{owned, push_str};
use common::AudioStatus;
use linux::Direction;

verus! {

/// Room for about two seconds of 48 kHz stereo audio.
pub const RING_BUFFER_CAPACITY: usize = 48_000 * 2 * 2;

/// The step at which starting the pipeline failed, with the error it gave.
#[derive(Debug)]
pub enum StartFailure {
    /// No input device could be opened.
    InputUnavailable(String),
    /// No output device could be opened.
    OutputUnavailable(String),
    /// The devices' stream configurations could not be read.
    ConfigNegotiation(String),
    /// The input stream could not be built.
    BuildInput(String),
    /// The output stream could not be built.
    BuildOutput(String),
    /// The input stream could not be started.
    PlayInput(String),
    /// The output stream could not be started.
    PlayOutput(String),
}

/// `prefix` followed by `error`.
fn error_with(prefix: &str, error: &str) -> (s: AudioStatus)
    ensures
        s is Error && s->Error_0@ == prefix@ + error@,
{
    let mut msg = owned(prefix);
    push_str(&mut msg, error);
    AudioStatus::Error(msg)
}

/// The status reported for a failed start: a missing device is reported as
/// such; any other failure as an error naming the step and the cause.
pub open spec fn start_failure_text(f: StartFailure) -> Option<Seq<char>> {
    match f {
        StartFailure::InputUnavailable(_) => None,
        StartFailure::OutputUnavailable(_) => None,
        StartFailure::ConfigNegotiation(e) => Some("audio stream config negotiation failed: "@ + e@),
        StartFailure::BuildInput(e) => Some("failed to build input audio stream: "@ + e@),
        StartFailure::BuildOutput(e) => Some("failed to build output audio stream: "@ + e@),
        StartFailure::PlayInput(e) => Some("failed to start input audio stream: "@ + e@),
        StartFailure::PlayOutput(e) => Some("failed to start output audio stream: "@ + e@),
    }
}

/// The status to report when starting the pipeline failed.
pub fn start_failure_status(failure: &StartFailure) -> (status: AudioStatus)
    ensures
        failure is InputUnavailable ==> status is NoInput,
        failure is OutputUnavailable ==> status is NoOutput,
        start_failure_text(*failure) matches Some(t) ==> status is Error && status->Error_0@ == t,
{
    match failure {
        StartFailure::InputUnavailable(_) => AudioStatus::NoInput,
        StartFailure::OutputUnavailable(_) => AudioStatus::NoOutput,
        StartFailure::ConfigNegotiation(e) => error_with(
            "audio stream config negotiation failed: ",
            e.as_str(),
        ),
        StartFailure::BuildInput(e) => error_with("failed to build input audio stream: ", e.as_str()),
        StartFailure::BuildOutput(e) => error_with("failed to build output audio stream: ", e.as_str()),
        StartFailure::PlayInput(e) => error_with("failed to start input audio stream: ", e.as_str()),
        StartFailure::PlayOutput(e) => error_with("failed to start output audio stream: ", e.as_str()),
    }
}

/// The status to report when a running stream fails.
pub fn stream_error_status(direction: Direction, error: &str) -> (status: AudioStatus)
    ensures
        status is Error,
        status->Error_0@ == match direction {
            Direction::Input => "Input error: "@,
            Direction::Output => "Output error: "@,
        } + error@,
{
    match direction {
        Direction::Input => error_with("Input error: ", error),
        Direction::Output => error_with("Output error: ", error),
    }
}

} // verus!
