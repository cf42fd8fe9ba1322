//! The tailer and scheduler state machines.  The surrounding binary performs
//! the file reads, channel sends and sleeps; every decision — where to start,
//! how the tracked offset advances, when to stop — is made here.

use vstd::prelude::*;

verus! {

/// The observable state of the tailer task: the byte offset it has consumed
/// up to, and whether it has observed the stop signal.
#[derive(Clone, Copy, Debug, PartialEq, Eq, Structural)]
pub struct TailState {
    /// The byte offset into the followed file up to which everything has
    /// been consumed.
    pub offset: u64,
    /// Set once the stop rendezvous has been observed.
    pub stopped: bool,
}

/// What one poll of the followed file observed.
#[derive(Clone, Copy, Debug, PartialEq, Eq, Structural)]
pub enum TailEvent {
    /// The stop rendezvous has been signalled.
    Stop,
    /// A complete line of this many bytes (terminator included) was read.
    Line(u64),
    /// No complete line is available yet.
    Empty,
}

/// What the tailer does next.
#[derive(Clone, Copy, Debug, PartialEq, Eq, Structural)]
pub enum TailAction {
    /// Leave the polling loop at once.
    Exit,
    /// Strip the line's terminator and forward it on the line channel.
    Forward,
    /// Sleep one polling interval, then poll again.
    Sleep,
}

/// The state right after attaching: positioned at the current end of file,
/// not stopped — content already in the file is never replayed.
pub open spec fn attach_spec(file_len: u64) -> TailState {
    TailState { offset: file_len, stopped: false }
}

/// Attaches to a file of the given current length.
pub fn attach(file_len: u64) -> (r: TailState)
    ensures
        r == attach_spec(file_len),
{
    TailState { offset: file_len, stopped: false }
}

/// One step of the tailer loop: the stop signal exits at once; a line
/// advances the offset by the bytes consumed and is forwarded; an empty poll
/// sleeps.  The offset saturates at the type bound, which a real file never
/// reaches.
pub open spec fn step_spec(s: TailState, e: TailEvent) -> (TailState, TailAction) {
    match e {
        TailEvent::Stop => (TailState { offset: s.offset, stopped: true }, TailAction::Exit),
        TailEvent::Line(n) => (
            TailState {
                offset: if s.offset + n <= u64::MAX {
                    (s.offset + n) as u64
                } else {
                    u64::MAX
                },
                stopped: s.stopped,
            },
            TailAction::Forward,
        ),
        TailEvent::Empty => (s, TailAction::Sleep),
    }
}

/// Performs one step of the tailer loop.
pub fn step(s: TailState, e: &TailEvent) -> (r: (TailState, TailAction))
    requires
        e matches TailEvent::Line(n) ==> s.offset + *n <= u64::MAX,
    ensures
        r == step_spec(s, *e),
{
    match e {
        TailEvent::Stop => (TailState { offset: s.offset, stopped: true }, TailAction::Exit),
        TailEvent::Line(n) => (
            TailState { offset: s.offset + *n, stopped: s.stopped },
            TailAction::Forward,
        ),
        TailEvent::Empty => (s, TailAction::Sleep),
    }
}

/// The state after the tailer has observed a whole sequence of events.
pub open spec fn run_tail(s: TailState, events: Seq<TailEvent>) -> TailState
    decreases events.len(),
{
    if events.len() == 0 {
        s
    } else {
        run_tail(step_spec(s, events[0]).0, events.drop_first())
    }
}

/// No step moves the tracked offset backwards.
pub proof fn lemma_step_monotone(s: TailState, e: TailEvent)
    ensures
        step_spec(s, e).0.offset >= s.offset,
{
}

pub proof fn lemma_run_monotone(s: TailState, events: Seq<TailEvent>)
    ensures
        run_tail(s, events).offset >= s.offset,
    decreases events.len(),
{
    if events.len() > 0 {
        lemma_step_monotone(s, events[0]);
        lemma_run_monotone(step_spec(s, events[0]).0, events.drop_first());
    }
}

/// Law: content written to the file before the tailer attaches is never
/// ingested.  The tailer attaches at the file's current end, and however the
/// polling loop runs from there, its consumed-up-to offset never lies below
/// that attach point — so every byte it consumes was appended after attach.
pub proof fn lemma_no_replay_before_attach(file_len: u64, events: Seq<TailEvent>)
    ensures
        run_tail(attach_spec(file_len), events).offset >= file_len,
{
    lemma_run_monotone(attach_spec(file_len), events);
}

/// Law: signalling cancellation stops the tailer within one step: the very
/// next poll that observes the stop signal exits the loop at once, without
/// reading further, and the state it leaves behind is marked stopped with
/// the offset unchanged.
pub proof fn lemma_cancellation_stops(s: TailState)
    ensures
        step_spec(s, TailEvent::Stop).1 == TailAction::Exit,
        step_spec(s, TailEvent::Stop).0.stopped,
        step_spec(s, TailEvent::Stop).0.offset == s.offset,
{
}

/// What the main loop of continuous mode observed in one iteration.
#[derive(Clone, Copy, Debug, PartialEq, Eq, Structural)]
pub enum LoopEvent {
    /// A line arrived from the tailer.
    LineReceived,
    /// The refresh timer fired.
    Tick,
}

/// What the main loop does in response.
#[derive(Clone, Copy, Debug, PartialEq, Eq, Structural)]
pub enum LoopAction {
    /// Extract and insert the received line.
    Ingest,
    /// Clear the display and re-render the report.
    Refresh,
    /// Signal the tailer to stop, wait for it, and leave the loop.
    Shutdown,
}

/// One decision of the continuous-mode main loop: cancellation, observed at
/// the iteration boundary, wins over any pending event; otherwise a line is
/// ingested and a timer tick refreshes the report.
pub fn loop_step(cancelled: bool, e: &LoopEvent) -> (r: LoopAction)
    ensures
        cancelled ==> r is Shutdown,
        !cancelled ==> match e {
            LoopEvent::LineReceived => r is Ingest,
            LoopEvent::Tick => r is Refresh,
        },
{
    if cancelled {
        LoopAction::Shutdown
    } else {
        match e {
            LoopEvent::LineReceived => LoopAction::Ingest,
            LoopEvent::Tick => LoopAction::Refresh,
        }
    }
}

} // verus!
