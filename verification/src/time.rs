//! A periodic timer: the caller's handle, the ticker that the background
//! context drives, and the decisions both take.

use std::sync::mpsc::{Receiver, Sender, TryRecvError};
use vstd::prelude::*;

verus! {

/// The sending half of `std::sync::mpsc`'s channel, carried as an opaque
/// value.
#[verifier::external_type_specification]
#[verifier::external_body]
#[verifier::reject_recursive_types(T)]
pub struct ExSender<T>(Sender<T>);

/// The receiving half of `std::sync::mpsc`'s channel, carried as an opaque
/// value.
#[verifier::external_type_specification]
#[verifier::external_body]
#[verifier::reject_recursive_types(T)]
pub struct ExReceiver<T>(Receiver<T>);

/// What a timer operation reports.
#[derive(Clone, Copy, Debug, PartialEq, Eq, Structural)]
pub enum PtError {
    /// The operation succeeded.
    PtNoError,
    /// The system underneath failed.
    PtHostError,
    /// The timer cannot be started because it is running.
    PtAlreadyStarted,
    /// The timer cannot be stopped because it is not running.
    PtAlreadyStopped,
    /// Memory could not be allocated.
    PtInsufficientMemory,
}

/// What one look at the stop channel found.
#[derive(Debug)]
pub enum PtSignal {
    /// A message was waiting.
    Message(String),
    /// Nothing was waiting.
    Empty,
    /// The handle is gone: nobody can send any more.
    Disconnected,
}

/// What the background context does once a tick's callback has returned.
#[derive(Clone, Copy, Debug, PartialEq, Eq, Structural)]
pub enum PtAction {
    /// Wait for the next tick.
    Continue,
    /// Leave the loop and drop the context and the callback.
    Stop,
    /// The channel broke, which no run of the timer allows: fail loudly.
    Abort,
}

/// The message that asks the background context to stop.
pub open spec fn stop_message() -> Seq<char> {
    "stop"@
}

/// Milliseconds from `start_ns` to `now_ns`, both in nanoseconds. A
/// reading before the start counts as no time at all.
pub open spec fn spec_elapsed_ms(start_ns: u64, now_ns: u64) -> nat {
    if now_ns >= start_ns {
        ((now_ns - start_ns) / 1_000_000) as nat
    } else {
        0
    }
}

/// Computes `spec_elapsed_ms` from two readings of the clock.
pub fn elapsed_ms(start_ns: u64, now_ns: u64) -> (ms: u64)
    ensures
        ms == spec_elapsed_ms(start_ns, now_ns),
{
    if now_ns >= start_ns {
        (now_ns - start_ns) / 1_000_000
    } else {
        0
    }
}

/// The action that follows a look at the stop channel: the stop message
/// ends the loop, any other message and an empty channel let it go on, a
/// broken channel aborts it.
pub open spec fn spec_after_tick(signal: PtSignal) -> PtAction {
    match signal {
        PtSignal::Message(message) => if message@ == stop_message() {
            PtAction::Stop
        } else {
            PtAction::Continue
        },
        PtSignal::Empty => PtAction::Continue,
        PtSignal::Disconnected => PtAction::Abort,
    }
}

/// Makes the message that a stop sends: the one that the background
/// context takes as its order to leave the loop.
pub fn stop_request() -> (message: String)
    ensures
        message@ == stop_message(),
        spec_after_tick(PtSignal::Message(message)) == PtAction::Stop,
{
    "stop".to_string()
}

/// Decides how the background context goes on after a tick, from what its
/// look at the stop channel found.
pub fn after_tick(signal: &PtSignal) -> (action: PtAction)
    ensures
        action == spec_after_tick(*signal),
{
    match signal {
        PtSignal::Message(message) => {
            let stop = stop_request();
            if *message == stop {
                PtAction::Stop
            } else {
                PtAction::Continue
            }
        },
        PtSignal::Empty => PtAction::Continue,
        PtSignal::Disconnected => PtAction::Abort,
    }
}

/// What a stop reports once it is known whether the message went out: a
/// message that could not be handed over is a failure of the host.
pub open spec fn spec_stop_status(delivered: bool) -> PtError {
    if delivered {
        PtError::PtNoError
    } else {
        PtError::PtHostError
    }
}

/// Decides what a stop reports, from whether its message went out.
pub fn stop_status(delivered: bool) -> (status: PtError)
    ensures
        status == spec_stop_status(delivered),
{
    if delivered {
        PtError::PtNoError
    } else {
        PtError::PtHostError
    }
}

/// How long a pause of `duration` milliseconds lasts: a negative duration
/// is no pause at all.
pub open spec fn spec_pause_ms(duration: i64) -> nat {
    if duration > 0 {
        duration as nat
    } else {
        0
    }
}

/// Computes `spec_pause_ms`, for whoever puts the calling thread to sleep.
pub fn pause_ms(duration: i64) -> (ms: u64)
    ensures
        ms == spec_pause_ms(duration),
{
    if duration > 0 {
        duration as u64
    } else {
        0
    }
}

/// Reads the clock through `time::precise_time_ns`: nanoseconds since an
/// epoch that the crate leaves open. On Unix it is the reading of the
/// monotonic clock and the call cannot fail. Nothing is claimed of the
/// value, not even that it grows from one call to the next.
#[verifier::external_body]
fn clock_ns() -> u64 {
    ::time::precise_time_ns()
}

/// Makes a channel of strings with `std::sync::mpsc::channel`. Nothing is
/// claimed of the two halves.
#[verifier::external_body]
fn open_channel() -> (Sender<String>, Receiver<String>) {
    std::sync::mpsc::channel()
}

/// Hands `message` to `Sender::send`, which never blocks, and says whether
/// the channel took it. Nothing is claimed of the answer: the send fails
/// once the receiving half is gone.
#[verifier::external_body]
fn send_message(channel: &Sender<String>, message: String) -> (delivered: bool) {
    channel.send(message).is_ok()
}

/// Looks at the channel with `Receiver::try_recv`, which never blocks, and
/// gives its three outcomes as a `PtSignal`. Nothing is claimed of which
/// one comes back.
#[verifier::external_body]
fn try_receive(requests: &Receiver<String>) -> (signal: PtSignal) {
    match requests.try_recv() {
        Ok(message) => PtSignal::Message(message),
        Err(TryRecvError::Empty) => PtSignal::Empty,
        Err(TryRecvError::Disconnected) => PtSignal::Disconnected,
    }
}

/// The caller's handle to a running timer.
pub struct PtTimer {
    channel: Sender<String>,
    resolution: i64,
    started: bool,
    start_time: u64,
}

/// The background context's half of a timer: it tells the time of each
/// tick and learns when to stop.
pub struct PtTicker {
    requests: Receiver<String>,
    resolution: i64,
    start_time: u64,
}

impl PtTimer {
    #[verifier::type_invariant]
    spec fn positive_resolution(self) -> bool {
        self.resolution > 0
    }

    /// Whether the handle counts the timer as running.
    pub closed spec fn is_started(&self) -> bool {
        self.started
    }

    /// The clock reading, in nanoseconds, taken when the timer started.
    pub closed spec fn start_ns(&self) -> u64 {
        self.start_time
    }

    /// The period between two ticks, in milliseconds.
    pub closed spec fn resolution_ms(&self) -> i64 {
        self.resolution
    }

    /// Starts a timer that ticks every `resolution` milliseconds, counting
    /// from the clock's reading at the call. The handle is for the caller;
    /// the ticker goes to the background context, which waits, tells the
    /// tick's time, runs the callback and polls, in that order, until the
    /// poll says otherwise.
    pub fn pt_start(resolution: i64) -> (halves: (PtTimer, PtTicker))
        requires
            resolution > 0,
        ensures
            halves.0.is_started(),
            halves.0.resolution_ms() == resolution,
            halves.1.resolution_ms() == resolution,
            halves.1.start_ns() == halves.0.start_ns(),
    {
        let (channel, requests) = open_channel();
        let now = clock_ns();
        PtTimer::started_at(channel, requests, resolution, now)
    }

    /// What `pt_start` makes of a channel and a reading of the clock: a
    /// started handle and its ticker, both counting from `now_ns`.
    fn started_at(
        channel: Sender<String>,
        requests: Receiver<String>,
        resolution: i64,
        now_ns: u64,
    ) -> (halves: (PtTimer, PtTicker))
        requires
            resolution > 0,
        ensures
            halves.0.is_started(),
            halves.0.resolution_ms() == resolution,
            halves.1.resolution_ms() == resolution,
            halves.0.start_ns() == now_ns,
            halves.1.start_ns() == now_ns,
    {
        (
            PtTimer { channel, resolution, started: true, start_time: now_ns },
            PtTicker { requests, resolution, start_time: now_ns },
        )
    }

    /// Asks the background context to stop and marks the handle stopped at
    /// once, without waiting for the context to leave its loop. What goes
    /// to the channel is the message of `stop_request`, once. A handle that
    /// is stopped already sends nothing and says so.
    pub fn pt_stop(&mut self) -> (status: PtError)
        ensures
            !final(self).is_started(),
            final(self).start_ns() == old(self).start_ns(),
            final(self).resolution_ms() == old(self).resolution_ms(),
            !old(self).is_started() ==> status == PtError::PtAlreadyStopped,
            old(self).is_started() ==> status == PtError::PtNoError || status
                == PtError::PtHostError,
    {
        proof {
            use_type_invariant(&*self);
        }
        if !self.started {
            return PtError::PtAlreadyStopped;
        }
        let delivered = send_message(&self.channel, stop_request());
        self.started = false;
        stop_status(delivered)
    }

    /// Whether the timer is running, as far as the handle knows: true from
    /// the start until `pt_stop` returns.
    pub fn pt_started(&self) -> (started: bool)
        ensures
            started == self.is_started(),
    {
        self.started
    }

    /// Milliseconds since the timer started, before and after a stop.
    pub fn pt_time(&self) -> (ms: u64)
        ensures
            exists|now_ns: u64| ms == #[trigger] spec_elapsed_ms(self.start_ns(), now_ns),
    {
        let now = clock_ns();
        let ms = elapsed_ms(self.start_time, now);
        assert(ms == spec_elapsed_ms(self.start_ns(), now));
        ms
    }

    /// The period between two ticks, in milliseconds.
    pub fn pt_resolution(&self) -> (resolution: i64)
        ensures
            resolution == self.resolution_ms(),
            resolution > 0,
    {
        proof {
            use_type_invariant(self);
        }
        self.resolution
    }
}

impl PtTicker {
    #[verifier::type_invariant]
    spec fn positive_resolution(self) -> bool {
        self.resolution > 0
    }

    /// The clock reading, in nanoseconds, taken when the timer started.
    pub closed spec fn start_ns(&self) -> u64 {
        self.start_time
    }

    /// The period between two ticks, in milliseconds.
    pub closed spec fn resolution_ms(&self) -> i64 {
        self.resolution
    }

    /// How long to wait before each tick, in milliseconds.
    pub fn period(&self) -> (resolution: i64)
        ensures
            resolution == self.resolution_ms(),
            resolution > 0,
    {
        proof {
            use_type_invariant(self);
        }
        self.resolution
    }

    /// The time to hand to the callback of the tick that is due now:
    /// milliseconds since the timer started.
    pub fn tick_time(&self) -> (ms: u64)
        ensures
            exists|now_ns: u64| ms == #[trigger] spec_elapsed_ms(self.start_ns(), now_ns),
    {
        let now = clock_ns();
        let ms = elapsed_ms(self.start_time, now);
        assert(ms == spec_elapsed_ms(self.start_ns(), now));
        ms
    }

    /// Looks for a stop request without blocking and says how the loop
    /// goes on. To be called once the tick's callback has returned.
    pub fn poll(&self) -> (action: PtAction)
        ensures
            exists|signal: PtSignal| action == #[trigger] spec_after_tick(signal),
    {
        let signal = try_receive(&self.requests);
        after_tick(&signal)
    }
}

} // verus!
