//! Where events go, as far as it is decided here.

use vstd::prelude::*;
use vstd::string::StringExecFns;

use crate::evidence::error::EvidenceError;
use crate::evidence::event::FalseEvent;
use crate::evidence::render;

verus! {

/// Why a sink did not take an event.
#[derive(Clone, Debug, PartialEq, Eq)]
pub enum SinkError {
    /// Writing failed, for the reason given.
    Io(String),
    /// The event cannot be written as JSON, for the reason given.
    Serialize(String),
    Evidence(EvidenceError),
    Unsupported(&'static str),
    Poisoned,
}

impl SinkError {
    /// What `message` says.
    pub open spec fn text(self) -> Seq<char> {
        match self {
            SinkError::Io(reason) => "I/O error: "@ + reason@,
            SinkError::Serialize(reason) => "serialization error: "@ + reason@,
            SinkError::Evidence(error) => "evidence error: "@ + error.text(),
            SinkError::Unsupported(what) => "sink unsupported: "@ + what@,
            SinkError::Poisoned => "sink lock poisoned"@,
        }
    }

    /// The error in words.
    pub fn message(&self) -> (res: String)
        ensures
            res@ == self.text(),
    {
        match self {
            SinkError::Io(reason) => {
                let mut out = "I/O error: ".to_owned();
                out.append(reason.as_str());
                out
            },
            SinkError::Serialize(reason) => {
                let mut out = "serialization error: ".to_owned();
                out.append(reason.as_str());
                out
            },
            SinkError::Evidence(error) => {
                let mut out = "evidence error: ".to_owned();
                out.append(error.message().as_str());
                out
            },
            SinkError::Unsupported(what) => {
                let mut out = "sink unsupported: ".to_owned();
                out.append(what);
                out
            },
            SinkError::Poisoned => "sink lock poisoned".to_owned(),
        }
    }
}

/// Writes each event on a line of its own, as JSON.
#[derive(Clone, Copy, Debug)]
pub struct StdoutSink;

impl StdoutSink {
    /// The line to write for an event, line feed included.
    pub fn emit(&self, event: &FalseEvent) -> (res: Result<String, SinkError>)
        ensures
            res matches Ok(line) && line@ == render::event_json(event@).push('\n'),
    {
        match event.machine_json() {
            Ok(json) => {
                let mut line = json;
                line.push('\n');
                Ok(line)
            },
            Err(e) => Err(SinkError::Evidence(e)),
        }
    }
}

/// Would export events over OTLP, for which there is no transport yet.
#[derive(Clone, Copy, Debug)]
pub struct OtlpSink;

impl OtlpSink {
    /// Refuses every event: none is lost silently.
    pub fn emit(&self, event: &FalseEvent) -> (res: Result<(), SinkError>)
        ensures
            res matches Err(SinkError::Unsupported(why)) && why@
                == "OTLP transport is declared but not wired in this observe-only pass"@,
    {
        Err(
            SinkError::Unsupported(
                "OTLP transport is declared but not wired in this observe-only pass",
            ),
        )
    }

    /// Has nothing to flush.
    pub fn flush(&self) -> (res: Result<(), SinkError>)
        ensures
            res is Ok,
    {
        Ok(())
    }
}

/// An error of a sink says what went wrong, each kind in words of its own.
pub proof fn law_sink_errors_say_what_went_wrong(error: SinkError)
    ensures
        error matches SinkError::Io(reason) ==> error.text() == "I/O error: "@ + reason@,
        error matches SinkError::Serialize(reason) ==> error.text() == "serialization error: "@
            + reason@,
        error matches SinkError::Evidence(e) ==> error.text() == "evidence error: "@ + e.text(),
        error matches SinkError::Unsupported(what) ==> error.text() == "sink unsupported: "@
            + what@,
        error is Poisoned ==> error.text() == "sink lock poisoned"@,
{
}

} // verus!
