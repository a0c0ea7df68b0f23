//! What the service reports to its log.

use vstd::prelude::*;
use vstd::string::*;
use crate::command::DecodeError;
use crate::text::{digits, push_digits};
use crate::timing::BATCH_SIZE;

verus! {

/// Severity of a log entry.
#[derive(Clone, Copy, Debug, PartialEq, Eq, Structural)]
pub enum Level {
    Info,
    Debug,
    Error,
}

/// One entry for the log. Durations are in whole microseconds.
#[derive(Clone, Copy, Debug, PartialEq, Eq, Structural)]
pub enum Diagnostic {
    /// Receiving a datagram failed.
    ReceiveFailed,
    /// The dispatcher reported a failure for the command it was given.
    DispatchFailed,
    /// A datagram was dropped because it is no command.
    Discarded(DecodeError),
    /// Decoding and dispatching one command took longer than the threshold.
    SlowCommand { decode_micros: u64, dispatch_micros: u64, total_micros: u64 },
    /// One whole iteration of the loop took longer than the threshold.
    SlowIteration { micros: u64 },
    /// A batch of commands is complete; `micros` is the mean time per command.
    BatchMean { micros: u64 },
}

impl Diagnostic {
    /// The level at which the entry is logged.
    pub open spec fn spec_level(self) -> Level {
        match self {
            Diagnostic::ReceiveFailed | Diagnostic::DispatchFailed => Level::Error,
            Diagnostic::Discarded(_) | Diagnostic::SlowCommand { .. } | Diagnostic::SlowIteration {
                ..
            } => Level::Debug,
            Diagnostic::BatchMean { .. } => Level::Info,
        }
    }

    /// The level at which the entry is logged: failures as errors, slow paths
    /// and dropped datagrams for debugging, batch means as information.
    #[verifier::when_used_as_spec(spec_level)]
    pub fn level(self) -> (r: Level)
        ensures
            r == self.spec_level(),
    {
        match self {
            Diagnostic::ReceiveFailed | Diagnostic::DispatchFailed => Level::Error,
            Diagnostic::Discarded(_) | Diagnostic::SlowCommand { .. } | Diagnostic::SlowIteration {
                ..
            } => Level::Debug,
            Diagnostic::BatchMean { .. } => Level::Info,
        }
    }

    /// The text of the entry. The two failures name no cause: whoever saw it
    /// adds it.
    pub open spec fn spec_message(self) -> Seq<char> {
        match self {
            Diagnostic::ReceiveFailed => "Command receive error"@,
            Diagnostic::DispatchFailed => "Command error"@,
            Diagnostic::Discarded(error) => "Dropped a datagram: "@ + error.spec_reason(),
            Diagnostic::SlowCommand { decode_micros, dispatch_micros, total_micros } =>
                "Slow command processing: parse="@ + digits(decode_micros as nat) + "µs handle="@
                    + digits(dispatch_micros as nat) + "µs total="@ + digits(total_micros as nat)
                    + "µs"@,
            Diagnostic::SlowIteration { micros } => "Slow loop iteration: "@ + digits(
                micros as nat,
            ) + "µs"@,
            Diagnostic::BatchMean { micros } => "Avg processing time over "@ + digits(
                BATCH_SIZE as nat,
            ) + " commands: "@ + digits(micros as nat) + "µs"@,
        }
    }

    /// The text of the entry, as it is written to the log.
    pub fn message(self) -> (text: String)
        ensures
            text@ == self.spec_message(),
    {
        let mut text = String::new();
        match self {
            Diagnostic::ReceiveFailed => {
                text.append("Command receive error");
            },
            Diagnostic::DispatchFailed => {
                text.append("Command error");
            },
            Diagnostic::Discarded(error) => {
                text.append("Dropped a datagram: ");
                text.append(error.reason());
            },
            Diagnostic::SlowCommand { decode_micros, dispatch_micros, total_micros } => {
                text.append("Slow command processing: parse=");
                push_digits(&mut text, decode_micros);
                text.append("µs handle=");
                push_digits(&mut text, dispatch_micros);
                text.append("µs total=");
                push_digits(&mut text, total_micros);
                text.append("µs");
            },
            Diagnostic::SlowIteration { micros } => {
                text.append("Slow loop iteration: ");
                push_digits(&mut text, micros);
                text.append("µs");
            },
            Diagnostic::BatchMean { micros } => {
                text.append("Avg processing time over ");
                push_digits(&mut text, BATCH_SIZE as u64);
                text.append(" commands: ");
                push_digits(&mut text, micros);
                text.append("µs");
            },
        }
        text
    }
}

} // verus!
