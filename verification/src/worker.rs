//! The decisions of a thread that validates the blocks of a queue.

use crate::error::ValidationError;
use crate::result::{
    invalid_result, law_what_an_invalid_conclusion_holds, BlockStatus, BlockValidationResult,
};
use vstd::prelude::*;

verus! {

/// What a worker is doing.
#[derive(Debug)]
pub enum WorkerState {
    /// It waits for a block, for a limited time.
    Receiving,
    /// It validates the block of this identifier.
    Validating(String),
    /// It sends off what came of a block.
    Replying,
    /// It is done.
    Stopped,
}

/// What happens to a worker.
#[derive(Debug)]
pub enum WorkerEvent {
    /// No block came in time.
    TimedOut,
    /// No block can come any more.
    Disconnected,
    /// The block of this identifier came.
    Received(String),
    /// The validation ended.
    Validated(Result<BlockValidationResult, ValidationError>),
    /// What was sent off was taken.
    Delivered,
    /// Nobody takes what was sent off.
    Undeliverable,
}

/// What a worker does next.
#[derive(Debug)]
pub enum WorkerAction {
    /// Wait for a block, for a limited time.
    Receive,
    /// Validate the block that came.
    Validate,
    /// Send the result to whoever asked for the validation.
    Report(BlockValidationResult),
    /// Put the block back into the queue.
    Retry,
    /// End.
    Stop,
}

/// A step of a worker.
#[derive(Debug)]
pub struct WorkerStep {
    /// What the worker is doing now.
    pub state: WorkerState,
    /// What it does next.
    pub action: WorkerAction,
    /// Whether all workers are to stop.
    pub raise_exit: bool,
}

/// The events that can happen in a state.
pub open spec fn expected(state: WorkerState, event: WorkerEvent) -> bool {
    match state {
        WorkerState::Receiving => event is TimedOut || event is Disconnected || event is Received,
        WorkerState::Validating(_) => event is Validated,
        WorkerState::Replying => event is Delivered || event is Undeliverable,
        WorkerState::Stopped => false,
    }
}

/// The worker goes on waiting.
pub open spec fn goes_on(step: WorkerStep) -> bool {
    step.state is Receiving && step.action is Receive
}

/// The worker ends.
pub open spec fn stops(step: WorkerStep) -> bool {
    step.state is Stopped && step.action is Stop
}

/// The step that a worker takes on an event. `exit` tells whether all workers are to stop.
///
/// A worker stops when it is told to or when its queue is gone; it looks whether it is told to
/// when it has waited and when a block came. What came of a validation is reported, and so is
/// that a block failed it; on any other error the block goes back into the queue. Where nobody
/// takes what is sent off, all workers are to stop.
pub open spec fn takes_step(
    state: WorkerState,
    event: WorkerEvent,
    exit: bool,
    step: WorkerStep,
) -> bool {
    match event {
        WorkerEvent::TimedOut => !step.raise_exit && if exit {
            stops(step)
        } else {
            goes_on(step)
        },
        WorkerEvent::Disconnected => !step.raise_exit && stops(step),
        WorkerEvent::Received(block_id) => !step.raise_exit && if exit {
            stops(step)
        } else {
            step.state == WorkerState::Validating(block_id) && step.action is Validate
        },
        WorkerEvent::Validated(verdict) => {
            &&& !step.raise_exit
            &&& step.state is Replying
            &&& match verdict {
                Ok(result) => step.action == WorkerAction::Report(result),
                Err(ValidationError::BlockValidationFailure(_)) => {
                    &&& step.action matches WorkerAction::Report(result)
                    &&& result@ == invalid_result(state->Validating_0@)
                },
                Err(_) => step.action is Retry,
            }
        },
        WorkerEvent::Delivered => !step.raise_exit && goes_on(step),
        WorkerEvent::Undeliverable => step.raise_exit && goes_on(step),
    }
}

/// Decides what a worker does on an event.
pub fn worker_step(state: WorkerState, event: WorkerEvent, exit: bool) -> (step: WorkerStep)
    requires
        expected(state, event),
    ensures
        takes_step(state, event, exit, step),
{
    match event {
        WorkerEvent::TimedOut => if exit {
            WorkerStep { state: WorkerState::Stopped, action: WorkerAction::Stop, raise_exit: false }
        } else {
            WorkerStep {
                state: WorkerState::Receiving,
                action: WorkerAction::Receive,
                raise_exit: false,
            }
        },
        WorkerEvent::Disconnected => WorkerStep {
            state: WorkerState::Stopped,
            action: WorkerAction::Stop,
            raise_exit: false,
        },
        WorkerEvent::Received(block_id) => if exit {
            WorkerStep { state: WorkerState::Stopped, action: WorkerAction::Stop, raise_exit: false }
        } else {
            WorkerStep {
                state: WorkerState::Validating(block_id),
                action: WorkerAction::Validate,
                raise_exit: false,
            }
        },
        WorkerEvent::Validated(verdict) => {
            let action: WorkerAction = match verdict {
                Ok(result) => WorkerAction::Report(result),
                Err(ValidationError::BlockValidationFailure(_)) => match state {
                    WorkerState::Validating(block_id) => WorkerAction::Report(
                        BlockValidationResult::invalid(block_id),
                    ),
                    _ => vstd::pervasive::unreached(),
                },
                Err(_) => WorkerAction::Retry,
            };
            WorkerStep { state: WorkerState::Replying, action, raise_exit: false }
        },
        WorkerEvent::Delivered => WorkerStep {
            state: WorkerState::Receiving,
            action: WorkerAction::Receive,
            raise_exit: false,
        },
        WorkerEvent::Undeliverable => WorkerStep {
            state: WorkerState::Receiving,
            action: WorkerAction::Receive,
            raise_exit: true,
        },
    }
}

/// No block that was validated is dropped: its result is reported, or it goes back into the
/// queue.
pub proof fn law_no_block_is_dropped(
    state: WorkerState,
    verdict: Result<BlockValidationResult, ValidationError>,
    exit: bool,
    step: WorkerStep,
)
    requires
        expected(state, WorkerEvent::Validated(verdict)),
        takes_step(state, WorkerEvent::Validated(verdict), exit, step),
    ensures
        step.action is Report || step.action is Retry,
        step.action is Retry <==> {
            ||| verdict matches Err(ValidationError::BlockValidationError(_))
            ||| verdict matches Err(ValidationError::BlockStoreUpdated)
        },
{
}

/// A block is reported invalid if, and only if, it failed its validation, provided that
/// validations conclude on validity alone.
pub proof fn law_invalid_means_failed(
    state: WorkerState,
    verdict: Result<BlockValidationResult, ValidationError>,
    exit: bool,
    step: WorkerStep,
)
    requires
        expected(state, WorkerEvent::Validated(verdict)),
        takes_step(state, WorkerEvent::Validated(verdict), exit, step),
        verdict matches Ok(result) ==> result.status == BlockStatus::Valid,
    ensures
        (step.action matches WorkerAction::Report(result) && result.status == BlockStatus::Invalid)
            <==> (verdict matches Err(ValidationError::BlockValidationFailure(_))),
{
    if let Err(ValidationError::BlockValidationFailure(_)) = verdict {
        assert(step.action->Report_0@.status == BlockStatus::Invalid);
    }
}

/// A worker stops if, and only if, its queue is gone, or it is told to stop while it waits for a
/// block or when one comes.
pub proof fn law_when_a_worker_stops(
    state: WorkerState,
    event: WorkerEvent,
    exit: bool,
    step: WorkerStep,
)
    requires
        expected(state, event),
        takes_step(state, event, exit, step),
    ensures
        step.state is Stopped <==> event is Disconnected || exit && state is Receiving,
        step.state is Stopped <==> step.action is Stop,
{
}

/// A worker that could not send something off starts no other validation: it waits, and stops
/// with what happens next.
pub proof fn law_undeliverable_stops_the_worker(
    exit: bool,
    step: WorkerStep,
    event: WorkerEvent,
    next: WorkerStep,
)
    requires
        takes_step(WorkerState::Replying, WorkerEvent::Undeliverable, exit, step),
        expected(step.state, event),
        takes_step(step.state, event, exit || step.raise_exit, next),
    ensures
        next.state is Stopped,
{
}

/// A step of a worker, with the event that it was taken on and whether all workers were to stop
/// then.
pub struct WorkerMove {
    /// What happened.
    pub event: WorkerEvent,
    /// Whether all workers were to stop.
    pub exit: bool,
    /// The step.
    pub step: WorkerStep,
}

/// What a worker is doing after some moves, from its start on.
pub open spec fn state_after(moves: Seq<WorkerMove>) -> WorkerState {
    if moves.len() == 0 {
        WorkerState::Receiving
    } else {
        moves.last().step.state
    }
}

/// A worker can make these moves one after the other, from its start on.
pub open spec fn is_run(moves: Seq<WorkerMove>) -> bool
    decreases moves.len(),
{
    moves.len() > 0 ==> {
        let state = state_after(moves.drop_last());
        let last = moves.last();
        &&& is_run(moves.drop_last())
        &&& expected(state, last.event)
        &&& takes_step(state, last.event, last.exit, last.step)
    }
}

/// What a validation concludes is about the block that was validated.
pub open spec fn conclusions_match(moves: Seq<WorkerMove>) -> bool
    decreases moves.len(),
{
    moves.len() > 0 ==> {
        &&& conclusions_match(moves.drop_last())
        &&& moves.last().event matches WorkerEvent::Validated(Ok(result)) ==> result@.block_id
            == state_after(moves.drop_last())->Validating_0@
    }
}

/// The blocks that a worker began to validate, in order.
pub open spec fn taken(moves: Seq<WorkerMove>) -> Seq<Seq<char>>
    decreases moves.len(),
{
    if moves.len() == 0 {
        Seq::empty()
    } else {
        match moves.last().step.state {
            WorkerState::Validating(block_id) => taken(moves.drop_last()).push(block_id@),
            _ => taken(moves.drop_last()),
        }
    }
}

/// The blocks that something was sent off about, in order: the block of a result that was
/// reported, and the block at hand where it was put back.
pub open spec fn replied(moves: Seq<WorkerMove>) -> Seq<Seq<char>>
    decreases moves.len(),
{
    if moves.len() == 0 {
        Seq::empty()
    } else {
        match moves.last().step.action {
            WorkerAction::Report(result) => replied(moves.drop_last()).push(result@.block_id),
            WorkerAction::Retry => replied(moves.drop_last()).push(
                state_after(moves.drop_last())->Validating_0@,
            ),
            _ => replied(moves.drop_last()),
        }
    }
}

/// A worker replies to the block that it took before it takes the next: at every point of a run
/// as many things have been sent off as blocks were taken, but for the block that is being
/// validated.
pub proof fn law_a_reply_comes_before_the_next_block(moves: Seq<WorkerMove>)
    requires
        is_run(moves),
    ensures
        forall|n: int|
            0 <= n <= moves.len() ==> taken(#[trigger] moves.take(n)).len() == replied(
                moves.take(n),
            ).len() + if state_after(moves.take(n)) is Validating {
                1int
            } else {
                0
            },
    decreases moves.len(),
{
    assert(moves.take(moves.len() as int) =~= moves);
    if moves.len() > 0 {
        let shorter = moves.drop_last();
        law_a_reply_comes_before_the_next_block(shorter);
        assert(shorter.take(shorter.len() as int) =~= shorter);
        assert forall|n: int| 0 <= n < moves.len() implies moves.take(n) == #[trigger] shorter.take(
            n,
        ) by {
            assert(moves.take(n) =~= shorter.take(n));
        }
        assert forall|n: int| 0 <= n <= moves.len() implies taken(#[trigger] moves.take(n)).len()
            == replied(moves.take(n)).len() + if state_after(moves.take(n)) is Validating {
            1int
        } else {
            0
        } by {
            if n < moves.len() {
                assert(moves.take(n) == shorter.take(n));
            }
        }
    }
}

/// Where what a validation concludes is about the block that was validated, the blocks that
/// something was sent off about over a run of a worker are those that it began to validate, each
/// once and in the order in which it took them: only the block that is being validated is still
/// without a reply.
pub proof fn law_one_reply_for_each_block(moves: Seq<WorkerMove>)
    requires
        is_run(moves),
        conclusions_match(moves),
    ensures
        taken(moves) == match state_after(moves) {
            WorkerState::Validating(block_id) => replied(moves).push(block_id@),
            _ => replied(moves),
        },
    decreases moves.len(),
{
    if moves.len() > 0 {
        law_one_reply_for_each_block(moves.drop_last());
    }
}

/// What can happen to a worker: a waiting one gets a block, waits in vain or loses its queue; one
/// that validates comes to an end with that; one that sends something off learns whether it was
/// taken; and nothing happens to one that has stopped.
pub proof fn law_what_can_happen_to_a_worker(state: WorkerState, event: WorkerEvent)
    ensures
        expected(state, event) <==> {
            ||| state is Receiving && event is TimedOut
            ||| state is Receiving && event is Disconnected
            ||| state is Receiving && event is Received
            ||| state is Validating && event is Validated
            ||| state is Replying && event is Delivered
            ||| state is Replying && event is Undeliverable
        },
{
}

/// What a worker reports of a block that was validated: a result is reported with all its parts,
/// as it is; of a block that failed, that it is invalid, with nothing of its execution; and on any
/// other error the block is put back.
pub proof fn law_what_a_worker_reports(
    state: WorkerState,
    verdict: Result<BlockValidationResult, ValidationError>,
    exit: bool,
    step: WorkerStep,
)
    requires
        state is Validating,
        call_ensures(worker_step, (state, WorkerEvent::Validated(verdict), exit), step),
    ensures
        step.state is Replying,
        !step.raise_exit,
        match verdict {
            Ok(result) => {
                &&& step.action matches WorkerAction::Report(reported)
                &&& reported.block_id@ == result.block_id@
                &&& reported.execution_results@ == result.execution_results@
                &&& reported.num_transactions == result.num_transactions
                &&& reported.status == result.status
            },
            Err(ValidationError::BlockValidationFailure(_)) => {
                &&& step.action matches WorkerAction::Report(reported)
                &&& reported.block_id@ == state->Validating_0@
                &&& reported.execution_results@.len() == 0
                &&& reported.num_transactions == 0
                &&& reported.status == BlockStatus::Invalid
            },
            Err(ValidationError::BlockValidationError(_)) => step.action is Retry,
            Err(ValidationError::BlockStoreUpdated) => step.action is Retry,
        },
{
    if let Err(ValidationError::BlockValidationFailure(_)) = verdict {
        law_what_an_invalid_conclusion_holds(step.action->Report_0, state->Validating_0@);
    }
}

/// What a worker does while it waits for a block: told to stop it stops, whatever happens, and so
/// it does without a queue; otherwise it validates the block that came, or goes on waiting.
pub proof fn law_what_a_waiting_worker_does(event: WorkerEvent, exit: bool, step: WorkerStep)
    requires
        event is TimedOut || event is Disconnected || event is Received,
        call_ensures(worker_step, (WorkerState::Receiving, event, exit), step),
    ensures
        !step.raise_exit,
        exit || event is Disconnected ==> step.state is Stopped && step.action is Stop,
        !exit && event is TimedOut ==> step.state is Receiving && step.action is Receive,
        !exit && event is Received ==> {
            &&& step.action is Validate
            &&& step.state matches WorkerState::Validating(block_id)
            &&& block_id@ == event->Received_0@
        },
{
}

/// What a worker does once it has sent something off: it waits for the next block, and where
/// nobody took what was sent, all workers are to stop.
pub proof fn law_what_a_worker_does_after_a_reply(event: WorkerEvent, exit: bool, step: WorkerStep)
    requires
        event is Delivered || event is Undeliverable,
        call_ensures(worker_step, (WorkerState::Replying, event, exit), step),
    ensures
        step.state is Receiving,
        step.action is Receive,
        step.raise_exit <==> event is Undeliverable,
{
}

} // verus!
