//! The lifecycle of a network tracking receiver: `Created`, then `Running`
//! after a successful start, then `Stopped`.
//!
//! The host owns the socket, the worker thread and the channels; this module
//! decides what each lifecycle call does, and the host carries it out.
use vstd::prelude::*;

verus! {

/// The local UDP port that the tracking app sends to; the app requires it.
pub const LOCAL_PORT: u16 = 21412;

/// How long one receive waits before the worker checks for cancellation.
pub const READ_TIMEOUT_MS: u64 = 100;

/// What the worker sends before each read to ask the tracking app for data.
pub const KEEP_ALIVE_REQUEST: &'static str = "{\n    \"messageType\": \"iOSTrackingDataRequest\",\n    \"time\": 1.0,\n    \"sentBy\": \"vpuppr\",\n    \"ports\": [21412]\n}";

/// A remote IPv4 endpoint.
#[derive(Debug, Clone, Copy, PartialEq, Eq, Structural)]
pub struct Endpoint {
    /// The address, most significant octet first.
    pub address: u32,
    pub port: u16,
}

/// The outcome of a lifecycle call.
#[derive(Debug, Clone, Copy, PartialEq, Eq, Structural)]
pub enum Status {
    Success,
    /// No remote endpoint was configured.
    Unconfigured,
    /// The socket could not be bound or connected.
    CantConnect,
    /// The socket could not be set up.
    CantCreate,
    /// The receiver is not running.
    Unavailable,
    /// The receiver is already running; a second worker is not started.
    AlreadyRunning,
}

/// Where a receiver is in its lifecycle.
#[derive(Debug, Clone, Copy, PartialEq, Eq, Structural)]
pub enum Phase {
    Created,
    Running,
    Stopped,
}

/// What the host sets up to start a receiver.
#[derive(Debug, Clone, Copy, PartialEq, Eq, Structural)]
pub struct StartPlan {
    /// The local port to bind.
    pub local_port: u16,
    /// The endpoint to connect to.
    pub remote: Endpoint,
    /// The read timeout of the socket, in milliseconds.
    pub read_timeout_ms: u64,
}

/// How the host's socket setup went.
#[derive(Debug, Clone, Copy, PartialEq, Eq, Structural)]
pub enum StartOutcome {
    /// Bound, connected, and the worker is running.
    Ready,
    BindFailed,
    SetBlockingFailed,
    ConnectFailed,
}

/// What stopping asks of the host.
#[derive(Debug, Clone, Copy, PartialEq, Eq, Structural)]
pub struct StopAction {
    pub status: Status,
    /// Signal the worker to cancel, then join it.
    pub join_worker: bool,
}

/// What the host saw on the data channel when polling.
#[derive(Debug, Clone, Copy, PartialEq, Eq, Structural)]
pub enum ChannelEvent {
    Empty,
    Frame,
    Disconnected,
}

/// What polling asks of the host.
#[derive(Debug, Clone, Copy, PartialEq, Eq, Structural)]
pub enum PollAction {
    Nothing,
    /// Apply the frame that was received.
    Apply,
    /// The worker is gone: stop, as [`Receiver::stop`] says.
    Stop(StopAction),
}

/// A receiver's lifecycle state.
#[derive(Debug, Clone, Copy, PartialEq, Eq, Structural)]
pub struct Receiver {
    pub endpoint: Option<Endpoint>,
    pub phase: Phase,
}

/// What starting `r` is: a plan for the host, or the status that refuses it.
pub open spec fn start_spec(r: Receiver) -> Result<StartPlan, Status> {
    match r.endpoint {
        None => Err(Status::Unconfigured),
        Some(e) => if r.phase == Phase::Running {
            Err(Status::AlreadyRunning)
        } else {
            Ok(StartPlan { local_port: LOCAL_PORT, remote: e, read_timeout_ms: READ_TIMEOUT_MS })
        },
    }
}

/// The status that a start outcome gives.
pub open spec fn outcome_status(o: StartOutcome) -> Status {
    match o {
        StartOutcome::Ready => Status::Success,
        StartOutcome::BindFailed => Status::CantConnect,
        StartOutcome::SetBlockingFailed => Status::CantCreate,
        StartOutcome::ConnectFailed => Status::CantConnect,
    }
}

/// `r` after a start whose socket setup ended in `o`.
pub open spec fn started_spec(r: Receiver, o: StartOutcome) -> Receiver {
    if o == StartOutcome::Ready {
        Receiver { phase: Phase::Running, ..r }
    } else {
        r
    }
}

/// What stopping `r` asks of the host.
pub open spec fn stop_spec(r: Receiver) -> StopAction {
    if r.phase == Phase::Running {
        StopAction { status: Status::Success, join_worker: true }
    } else {
        StopAction { status: Status::Unavailable, join_worker: false }
    }
}

/// `r` after stopping.
pub open spec fn stopped_spec(r: Receiver) -> Receiver {
    if r.phase == Phase::Running {
        Receiver { phase: Phase::Stopped, ..r }
    } else {
        r
    }
}

impl Receiver {
    /// A receiver for `endpoint`, not started.
    pub fn new(endpoint: Option<Endpoint>) -> (r: Receiver)
        ensures
            r == (Receiver { endpoint, phase: Phase::Created }),
    {
        Receiver { endpoint, phase: Phase::Created }
    }

    /// What starting asks of the host, or why it is refused.
    pub fn start(&self) -> (r: Result<StartPlan, Status>)
        ensures
            r == start_spec(*self),
    {
        match self.endpoint {
            None => Err(Status::Unconfigured),
            Some(e) => if self.phase == Phase::Running {
                Err(Status::AlreadyRunning)
            } else {
                Ok(StartPlan { local_port: LOCAL_PORT, remote: e, read_timeout_ms: READ_TIMEOUT_MS })
            },
        }
    }

    /// Records how the host's setup for a start went.
    pub fn start_finished(&mut self, outcome: StartOutcome) -> (r: Status)
        requires
            start_spec(*old(self)) is Ok,
        ensures
            r == outcome_status(outcome),
            *final(self) == started_spec(*old(self), outcome),
    {
        match outcome {
            StartOutcome::Ready => {
                self.phase = Phase::Running;
                Status::Success
            },
            StartOutcome::BindFailed => Status::CantConnect,
            StartOutcome::SetBlockingFailed => Status::CantCreate,
            StartOutcome::ConnectFailed => Status::CantConnect,
        }
    }

    /// Stops the receiver: asks the host to cancel and join the worker when it
    /// runs, and answers `Unavailable` at once when it does not.
    pub fn stop(&mut self) -> (r: StopAction)
        ensures
            r == stop_spec(*old(self)),
            *final(self) == stopped_spec(*old(self)),
    {
        if self.phase == Phase::Running {
            self.phase = Phase::Stopped;
            StopAction { status: Status::Success, join_worker: true }
        } else {
            StopAction { status: Status::Unavailable, join_worker: false }
        }
    }

    /// What a poll that saw `event` asks of the host; a disconnected channel
    /// stops the receiver.
    pub fn poll(&mut self, event: ChannelEvent) -> (r: PollAction)
        ensures
            event == ChannelEvent::Empty ==> r == PollAction::Nothing && *final(self) == *old(self),
            event == ChannelEvent::Frame ==> r == PollAction::Apply && *final(self) == *old(self),
            event == ChannelEvent::Disconnected ==> r == PollAction::Stop(stop_spec(*old(self)))
                && *final(self) == stopped_spec(*old(self)),
    {
        match event {
            ChannelEvent::Empty => PollAction::Nothing,
            ChannelEvent::Frame => PollAction::Apply,
            ChannelEvent::Disconnected => PollAction::Stop(self.stop()),
        }
    }
}

/// Stopping a receiver that was never started answers `Unavailable` and asks
/// for no join, so it cannot block; starting a receiver that runs is refused,
/// so no second socket or worker is made.
pub proof fn lemma_lifecycle(endpoint: Endpoint)
    ensures
        stop_spec(Receiver { endpoint: Some(endpoint), phase: Phase::Created }) == (StopAction {
            status: Status::Unavailable,
            join_worker: false,
        }),
        start_spec(
            started_spec(
                Receiver { endpoint: Some(endpoint), phase: Phase::Created },
                StartOutcome::Ready,
            ),
        ) == Err::<StartPlan, Status>(Status::AlreadyRunning),
{
}

} // verus!
