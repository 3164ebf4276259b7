//! The session state machine: what the worker does next, given where it
//! stands and what just happened.
//!
//! The machine performs nothing itself. Whoever drives it carries out each
//! action, and hands back the event that the action ended in together with
//! the cancellation flag as it then reads.

use crate::codec::ServerMessage;
use crate::search::{effective_cutoff, BestRecord};
use std::ops::Range;
use vstd::prelude::*;

verus! {

/// Seconds to wait before the server is asked again after a failure.
pub const RETRY_DELAY: u64 = 3;

/// Seconds to wait after a solution went out, before the buffer is added.
pub const COOLDOWN: u64 = 5;

/// The worker's settings.
#[derive(Clone, Copy, Debug, PartialEq, Eq)]
pub struct MineArgs {
    /// How many core-pinned search threads take part at most.
    pub threads: u32,
    /// Seconds taken off the coordinator's cutoff and added to the cooldown.
    pub buffer: u32,
}

impl Default for MineArgs {
    /// Four threads and no buffer.
    fn default() -> (args: MineArgs)
        ensures
            args == (MineArgs { threads: 4, buffer: 0 }),
    {
        MineArgs { threads: 4, buffer: 0 }
    }
}

/// Where the worker stands.
#[derive(Clone, Copy, Debug, PartialEq, Eq)]
pub enum Phase {
    /// No connection; the server's clock is being asked.
    Disconnected,
    /// An attempt failed; the worker waits before the next.
    Backoff,
    /// The server's time is known; the channel is being opened.
    Authenticating,
    /// Connected and announced; the worker waits for a job.
    Running,
    /// A job is being searched.
    Mining,
    /// A solution went out; the worker waits before it announces itself
    /// again.
    Cooldown,
    /// The worker was told to stop and has stopped.
    Terminated,
}

/// What an action ended in.
#[derive(Debug)]
pub enum Event {
    /// The clock answered with a timestamp, or gave none that could be read.
    Timestamp(Option<u64>),
    /// The channel was opened, or could not be.
    Connected(bool),
    /// The next job came off the inbound queue, or the queue has closed.
    Received(Option<ServerMessage>),
    /// The search engine returned.
    Searched(BestRecord),
    /// A wait is over.
    Slept,
}

/// What the worker does next.
#[derive(Debug, PartialEq, Eq)]
pub enum Action {
    /// Ask the server's clock for its time.
    FetchTimestamp,
    /// Wait for so many seconds.
    Wait { seconds: u64 },
    /// Open the channel, tagged and authenticated with the server's time.
    Connect { server_timestamp: u64 },
    /// Send a `Ready` frame with the current time, then take the next job
    /// off the inbound queue.
    Ready,
    /// Search the range for the challenge, with this cutoff in seconds.
    Mine { challenge: [u8; 32], nonce_range: Range<u64>, cutoff: u64 },
    /// Send a `BestSolution` frame for this record, then wait for so many
    /// seconds.
    Submit { best: BestRecord, cooldown: u64 },
    /// Leave.
    Exit,
    /// Nothing: the event answers no action that is under way.
    Ignore,
}

/// The seconds between a solution and the next `Ready`.
pub open spec fn cooldown_spec(buffer: u32) -> u64 {
    (COOLDOWN + buffer) as u64
}

/// Works out the seconds between a solution and the next `Ready`.
#[verifier::when_used_as_spec(cooldown_spec)]
pub fn cooldown(buffer: u32) -> (seconds: u64)
    ensures
        seconds == cooldown_spec(buffer),
{
    COOLDOWN + buffer as u64
}

/// What is done at the top of the supervisor's loop: leave if the flag is
/// set, else ask the clock.
pub open spec fn restart(cancelled: bool) -> (Phase, Action) {
    if cancelled {
        (Phase::Terminated, Action::Exit)
    } else {
        (Phase::Disconnected, Action::FetchTimestamp)
    }
}

/// The transition function.
///
/// The flag is looked at where the supervisor's loop and the inbound loop
/// look at it: before the clock is asked again, on everything that comes off
/// the inbound queue, and when a search returns. A search that returns under
/// a set flag is thrown away: nothing is submitted.
pub open spec fn step_spec(phase: Phase, event: Event, cancelled: bool, buffer: u32) -> (
    Phase,
    Action,
) {
    match (phase, event) {
        (Phase::Disconnected, Event::Timestamp(Some(server_timestamp))) => (
            Phase::Authenticating,
            Action::Connect { server_timestamp },
        ),
        (Phase::Disconnected, Event::Timestamp(None)) => (
            Phase::Backoff,
            Action::Wait { seconds: RETRY_DELAY },
        ),
        (Phase::Backoff, Event::Slept) => restart(cancelled),
        (Phase::Authenticating, Event::Connected(true)) => (Phase::Running, Action::Ready),
        (Phase::Authenticating, Event::Connected(false)) => (
            Phase::Backoff,
            Action::Wait { seconds: RETRY_DELAY },
        ),
        (
            Phase::Running,
            Event::Received(Some(ServerMessage::StartMining(challenge, nonce_range, cutoff))),
        ) => if cancelled {
            (Phase::Terminated, Action::Exit)
        } else {
            (
                Phase::Mining,
                Action::Mine { challenge, nonce_range, cutoff: effective_cutoff(cutoff, buffer) },
            )
        },
        (Phase::Running, Event::Received(None)) => restart(cancelled),
        (Phase::Mining, Event::Searched(best)) => if cancelled {
            (Phase::Terminated, Action::Exit)
        } else {
            (Phase::Cooldown, Action::Submit { best, cooldown: cooldown(buffer) })
        },
        (Phase::Cooldown, Event::Slept) => (Phase::Running, Action::Ready),
        _ => (phase, Action::Ignore),
    }
}

/// Where the worker starts: it leaves at once under a set flag, and asks the
/// clock otherwise.
pub fn start(cancelled: bool) -> (next: (Phase, Action))
    ensures
        next == restart(cancelled),
{
    if cancelled {
        (Phase::Terminated, Action::Exit)
    } else {
        (Phase::Disconnected, Action::FetchTimestamp)
    }
}

/// Takes one step: from the phase and the event that ended the last action,
/// with the flag as it reads now, to the next phase and action.
pub fn step(phase: Phase, event: Event, cancelled: bool, buffer: u32) -> (next: (Phase, Action))
    ensures
        next == step_spec(phase, event, cancelled, buffer),
{
    match (phase, event) {
        (Phase::Disconnected, Event::Timestamp(Some(server_timestamp))) => (
            Phase::Authenticating,
            Action::Connect { server_timestamp },
        ),
        (Phase::Disconnected, Event::Timestamp(None)) => (
            Phase::Backoff,
            Action::Wait { seconds: RETRY_DELAY },
        ),
        (Phase::Backoff, Event::Slept) => start(cancelled),
        (Phase::Authenticating, Event::Connected(true)) => (Phase::Running, Action::Ready),
        (Phase::Authenticating, Event::Connected(false)) => (
            Phase::Backoff,
            Action::Wait { seconds: RETRY_DELAY },
        ),
        (
            Phase::Running,
            Event::Received(Some(ServerMessage::StartMining(challenge, nonce_range, cutoff))),
        ) => if cancelled {
            (Phase::Terminated, Action::Exit)
        } else {
            (
                Phase::Mining,
                Action::Mine { challenge, nonce_range, cutoff: effective_cutoff(cutoff, buffer) },
            )
        },
        (Phase::Running, Event::Received(None)) => start(cancelled),
        (Phase::Mining, Event::Searched(best)) => if cancelled {
            (Phase::Terminated, Action::Exit)
        } else {
            (Phase::Cooldown, Action::Submit { best, cooldown: cooldown(buffer) })
        },
        (Phase::Cooldown, Event::Slept) => (Phase::Running, Action::Ready),
        (phase, _) => (phase, Action::Ignore),
    }
}

/// The kinds of frame that the worker sends.
#[derive(Clone, Copy, Debug, PartialEq, Eq)]
pub enum FrameKind {
    Ready,
    BestSolution,
}

/// The frame that an action sends, if it sends one.
pub open spec fn emitted(action: Action) -> Option<FrameKind> {
    match action {
        Action::Ready => Some(FrameKind::Ready),
        Action::Submit { .. } => Some(FrameKind::BestSolution),
        _ => None,
    }
}

/// One event with the cancellation flag as it read when the event came.
pub struct Input {
    pub event: Event,
    pub cancelled: bool,
}

/// The actions that the machine takes from `phase` on the inputs, one for
/// each.
pub open spec fn run(phase: Phase, inputs: Seq<Input>, buffer: u32) -> Seq<Action>
    decreases inputs.len(),
{
    if inputs.len() == 0 {
        Seq::empty()
    } else {
        let (next, action) = step_spec(phase, inputs[0].event, inputs[0].cancelled, buffer);
        seq![action] + run(next, inputs.drop_first(), buffer)
    }
}

/// The frames that a run of actions sends, in their order.
pub open spec fn frames(actions: Seq<Action>) -> Seq<FrameKind>
    decreases actions.len(),
{
    if actions.len() == 0 {
        Seq::empty()
    } else {
        match emitted(actions[0]) {
            Some(kind) => seq![kind] + frames(actions.drop_first()),
            None => frames(actions.drop_first()),
        }
    }
}

/// Whether a connection stands in this phase.
pub open spec fn connected(phase: Phase) -> bool {
    phase == Phase::Running || phase == Phase::Mining || phase == Phase::Cooldown
}

/// The frames that are still to go out before the next job is taken in.
pub open spec fn owed(phase: Phase) -> Seq<FrameKind> {
    match phase {
        Phase::Mining => seq![FrameKind::BestSolution, FrameKind::Ready],
        Phase::Cooldown => seq![FrameKind::Ready],
        _ => Seq::empty(),
    }
}

/// Once terminated the worker only leaves: it sends nothing and takes no job.
pub proof fn lemma_terminated_is_final(inputs: Seq<Input>, buffer: u32)
    ensures
        frames(run(Phase::Terminated, inputs, buffer)) == Seq::<FrameKind>::empty(),
        forall|k: int|
            0 <= k < inputs.len() ==> (#[trigger] run(Phase::Terminated, inputs, buffer)[k])
                == Action::Ignore,
        run(Phase::Terminated, inputs, buffer).len() == inputs.len(),
    decreases inputs.len(),
{
    if inputs.len() > 0 {
        let rest = run(Phase::Terminated, inputs.drop_first(), buffer);
        lemma_terminated_is_final(inputs.drop_first(), buffer);
        let actions = run(Phase::Terminated, inputs, buffer);
        assert(actions.drop_first() =~= rest);
    }
}

/// The machine takes one action for each input.
pub proof fn lemma_run_len(phase: Phase, inputs: Seq<Input>, buffer: u32)
    ensures
        run(phase, inputs, buffer).len() == inputs.len(),
    decreases inputs.len(),
{
    if inputs.len() > 0 {
        let (next, _) = step_spec(phase, inputs[0].event, inputs[0].cancelled, buffer);
        lemma_run_len(next, inputs.drop_first(), buffer);
    }
}

/// The first frame of every session is a `Ready`: whatever happens to a
/// worker that has no connection, if it ever sends a frame again, that frame
/// is a `Ready`.
pub proof fn lemma_first_frame_is_ready(phase: Phase, inputs: Seq<Input>, buffer: u32)
    requires
        !connected(phase),
    ensures
        frames(run(phase, inputs, buffer)).len() > 0 ==> frames(run(phase, inputs, buffer))[0]
            == FrameKind::Ready,
    decreases inputs.len(),
{
    if inputs.len() > 0 {
        let (next, action) = step_spec(phase, inputs[0].event, inputs[0].cancelled, buffer);
        let rest = run(next, inputs.drop_first(), buffer);
        let actions = run(phase, inputs, buffer);
        assert(actions.drop_first() =~= rest);
        if action != Action::Ready {
            lemma_first_frame_is_ready(next, inputs.drop_first(), buffer);
        }
    }
}

/// From the start on, the first frame that the worker sends is a `Ready`.
pub proof fn lemma_first_frame_from_start(cancelled: bool, inputs: Seq<Input>, buffer: u32)
    ensures
        emitted(restart(cancelled).1) is None,
        frames(run(restart(cancelled).0, inputs, buffer)).len() > 0 ==> frames(
            run(restart(cancelled).0, inputs, buffer),
        )[0] == FrameKind::Ready,
{
    lemma_first_frame_is_ready(restart(cancelled).0, inputs, buffer);
}

/// Whether an action takes a job in.
pub open spec fn is_intake(action: Action) -> bool {
    action is Mine
}

/// Whether the inputs lead a connected worker to its next intake without the
/// session ending before: the last action takes a job in, and none before it
/// does so or asks the clock anew.
pub open spec fn leads_to_intake(phase: Phase, inputs: Seq<Input>, buffer: u32) -> bool {
    &&& inputs.len() > 0
    &&& is_intake(run(phase, inputs, buffer).last())
    &&& forall|k: int|
        0 <= k < inputs.len() - 1 ==> !is_intake(#[trigger] run(phase, inputs, buffer)[k]) && run(
            phase,
            inputs,
            buffer,
        )[k] != Action::FetchTimestamp
}

/// Before a connected worker takes its next job in, it sends what it owes and
/// nothing else.
pub proof fn lemma_owed_before_intake(phase: Phase, inputs: Seq<Input>, buffer: u32)
    requires
        connected(phase),
        leads_to_intake(phase, inputs, buffer),
    ensures
        frames(run(phase, inputs, buffer).drop_last()) == owed(phase),
    decreases inputs.len(),
{
    let (next, action) = step_spec(phase, inputs[0].event, inputs[0].cancelled, buffer);
    let tail = inputs.drop_first();
    let rest = run(next, tail, buffer);
    let actions = run(phase, inputs, buffer);
    lemma_run_len(next, tail, buffer);
    lemma_run_len(phase, inputs, buffer);
    if inputs.len() > 1 {
        assert forall|k: int| 0 <= k < tail.len() - 1 implies !is_intake(#[trigger] rest[k])
            && rest[k] != Action::FetchTimestamp by {
            assert(rest[k] == actions[k + 1]);
        }
        if next == Phase::Terminated {
            lemma_terminated_is_final(tail, buffer);
        }
        lemma_owed_before_intake(next, tail, buffer);
        assert(actions.drop_last().drop_first() =~= rest.drop_last());
        assert(actions.drop_last()[0] == action);
    }
}

/// Between two intakes of one session the worker sends exactly one
/// `BestSolution` and then one `Ready`.
///
/// The inputs start with the job that a running worker takes in and end with
/// the next one that it takes in, with no intake and no new connection in
/// between.
pub proof fn lemma_frames_between_intakes(inputs: Seq<Input>, buffer: u32)
    requires
        inputs.len() >= 2,
        is_intake(run(Phase::Running, inputs, buffer)[0]),
        leads_to_intake(
            step_spec(Phase::Running, inputs[0].event, inputs[0].cancelled, buffer).0,
            inputs.drop_first(),
            buffer,
        ),
    ensures
        frames(run(Phase::Running, inputs, buffer).subrange(1, inputs.len() - 1)) == seq![
            FrameKind::BestSolution,
            FrameKind::Ready,
        ],
{
    let next = step_spec(Phase::Running, inputs[0].event, inputs[0].cancelled, buffer).0;
    let tail = inputs.drop_first();
    let rest = run(next, tail, buffer);
    let actions = run(Phase::Running, inputs, buffer);
    lemma_run_len(next, tail, buffer);
    lemma_owed_before_intake(next, tail, buffer);
    assert(actions.subrange(1, inputs.len() - 1) =~= rest.drop_last());
}

/// A set flag ends the session on the next thing that comes off the inbound
/// queue, and a search that returns under a set flag is not submitted.
pub proof fn lemma_cancellation_ends_session(phase: Phase, event: Event, buffer: u32)
    requires
        (phase == Phase::Running && event is Received) || (phase == Phase::Mining
            && event is Searched),
    ensures
        step_spec(phase, event, true, buffer) == (Phase::Terminated, Action::Exit),
{
}

} // verus!
