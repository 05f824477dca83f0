//! Engine events and VM lifecycle states.
use vstd::prelude::*;

verus! {

/// Lifecycle state of the VM.
#[derive(Clone, Debug, PartialEq, Eq)]
pub enum VmState {
    Stopped,
    Starting,
    Running,
    Stopping,
    /// A restart was announced; the Docker API answers 503 until it ends.
    Restarting,
    Error(String),
}

/// Severity of a log event.
#[derive(Clone, Copy, Debug, PartialEq, Eq, Structural)]
pub enum LogLevel {
    Error,
    Warn,
    Info,
    Debug,
    Trace,
}

/// Something the engine reports to its observers.
#[derive(Clone, Debug)]
pub enum EngineEvent {
    VmStateChanged { state: VmState },
    Log { level: LogLevel, message: String },
}

/// Receiver of engine events.
pub trait EventSink {
    fn emit(&self, event: EngineEvent);
}

/// An event sink that discards every event.
pub struct NoopSink;

impl EventSink for NoopSink {
    fn emit(&self, event: EngineEvent) {
    }
}

/// The query of `GET /events`; filters are accepted and not applied.
#[derive(Clone, Debug)]
pub struct EventsQuery {
    pub filters: Option<String>,
}

} // verus!
