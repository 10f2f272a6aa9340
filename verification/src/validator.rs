//! The validator: it hands blocks to its workers and validates blocks itself.

use crate::block::{block_views, Block};
use crate::error::ValidationError;
use crate::result::{
    invalid_result, law_what_an_invalid_conclusion_holds, BlockStatus, BlockValidationResult,
};
use crate::service::{
    BlockManager, BlockScheduler, ExecutionPlatform, PermissionVerifier, ResultKeeper,
    ResultSender, StateViewFactory, WorkerQueues,
};
use crate::standard::{StandardProcessor, ValidationServices};
use std::sync::Arc;
use vstd::prelude::*;

verus! {

/// How long a worker waits for a block, in milliseconds.
pub const BLOCKVALIDATION_QUEUE_RECV_TIMEOUT: u64 = 100;

/// One more than the number of workers.
pub const BLOCK_VALIDATOR_THREAD_NUM: usize = 2;

/// Hands blocks to workers in turn, and validates blocks.
///
/// What sends something off or changes the order of the blocks takes the validator and hands it
/// back: the queues and the order that it holds then are those that its own calls led to, one
/// after the other, and nothing else was done to them.
pub struct BlockValidator<M, P, F, V, B, Q> {
    /// The queues of the workers.
    pub channels: Q,
    /// The worker that is handed the next block.
    pub index: usize,
    /// The number of workers.
    pub workers: usize,
    /// Whether the workers are to stop.
    pub validation_thread_exit: bool,
    /// The order in which blocks are validated.
    pub block_scheduler: B,
    /// What the validation of a block needs.
    pub services: ValidationServices<M, P, F, V>,
}

/// Some of these deliveries failed.
pub open spec fn some_failed(deliveries: Seq<bool>) -> bool {
    exists|i: int| 0 <= i < deliveries.len() && !#[trigger] deliveries[i]
}

/// The worker that is `i` turns after the worker `first`.
pub open spec fn in_turn(first: int, workers: int, i: int) -> usize {
    ((first + i) % workers) as usize
}

/// Putting the `i`-th block into the queue of a worker took the queues from the `i`-th of these
/// states to the next, with this outcome.
pub open spec fn queued_at<Q: WorkerQueues>(
    queues: Seq<Q>,
    worker: usize,
    blocks: Seq<Block>,
    sender: &Q::ResponseSender,
    deliveries: Seq<bool>,
    i: int,
) -> bool {
    call_ensures(
        Q::send,
        (queues[i], worker, blocks[i], sender),
        (queues[i + 1], deliveries[i]),
    )
}

/// Putting the blocks into the queues of the workers in turn, from the worker `first` on, each
/// once and in their order, took the queues through these states, with these outcomes.
pub open spec fn queued_in_turn<Q: WorkerQueues>(
    queues: Seq<Q>,
    first: int,
    workers: int,
    blocks: Seq<Block>,
    sender: &Q::ResponseSender,
    deliveries: Seq<bool>,
) -> bool {
    &&& deliveries.len() == blocks.len()
    &&& queues.len() == blocks.len() + 1
    &&& forall|i: int|
        0 <= i < blocks.len() ==> #[trigger] queued_at(
            queues,
            in_turn(first, workers, i),
            blocks,
            sender,
            deliveries,
            i,
        )
}

/// Putting the blocks into the queue of one worker, each once and in their order, took the
/// queues through these states, with these outcomes.
pub open spec fn queued_at_one<Q: WorkerQueues>(
    queues: Seq<Q>,
    worker: usize,
    blocks: Seq<Block>,
    sender: &Q::ResponseSender,
    deliveries: Seq<bool>,
) -> bool {
    &&& deliveries.len() == blocks.len()
    &&& queues.len() == blocks.len() + 1
    &&& forall|i: int|
        0 <= i < blocks.len() ==> #[trigger] queued_at(
            queues,
            worker,
            blocks,
            sender,
            deliveries,
            i,
        )
}

/// Reporting the `i`-th block invalid took the sender from the `i`-th of these states to the
/// next, with this outcome.
pub open spec fn reported_at<R: ResultSender>(
    senders: Seq<R>,
    blocks: Seq<Block>,
    deliveries: Seq<bool>,
    i: int,
) -> bool {
    exists|result: BlockValidationResult|
        {
            &&& result@ == invalid_result(blocks[i]@.header_signature)
            &&& #[trigger] call_ensures(
                R::send,
                (senders[i], result),
                (senders[i + 1], deliveries[i]),
            )
        }
}

/// Reporting the blocks invalid, each once and in their order, up to the first report that
/// nobody takes, took the sender through these states, with these outcomes.
pub open spec fn reported_invalid<R: ResultSender>(
    senders: Seq<R>,
    blocks: Seq<Block>,
    deliveries: Seq<bool>,
) -> bool {
    &&& deliveries.len() <= blocks.len()
    &&& senders.len() == deliveries.len() + 1
    &&& forall|i: int|
        0 <= i < deliveries.len() ==> #[trigger] reported_at(senders, blocks, deliveries, i)
    &&& forall|i: int| 0 <= i < deliveries.len() - 1 ==> #[trigger] deliveries[i]
    &&& deliveries.len() == blocks.len() || deliveries.len() > 0 && !deliveries.last()
}

/// The worker after another.
fn next_in_turn(index: usize, workers: usize) -> (next: usize)
    requires
        index < workers,
    ensures
        next == in_turn(index as int, workers as int, 1),
        next < workers,
{
    proof {
        lemma_next_in_turn(index as int, workers as int);
    }
    if index >= workers - 1 {
        0
    } else {
        index + 1
    }
}

impl<M, P, F, V, B, Q> BlockValidator<M, P, F, V, B, Q> {
    /// The next worker is one of the workers.
    pub open spec fn well_formed(&self) -> bool {
        self.index < self.workers
    }

    /// A validator whose workers take blocks from the given queues.
    pub fn new(
        block_manager: M,
        transaction_executor: P,
        permission_verifier: V,
        view_factory: F,
        injector_payload: Arc<cpython::PyBytes>,
        block_scheduler: B,
        channels: Q,
    ) -> (validator: Self)
        ensures
            validator.well_formed(),
            validator == (BlockValidator {
                channels,
                index: 0,
                workers: (BLOCK_VALIDATOR_THREAD_NUM - 1) as usize,
                validation_thread_exit: false,
                block_scheduler,
                services: ValidationServices {
                    block_manager,
                    transaction_executor,
                    view_factory,
                    permission_verifier,
                    injector_payload,
                },
            }),
    {
        BlockValidator {
            channels,
            index: 0,
            workers: BLOCK_VALIDATOR_THREAD_NUM - 1,
            validation_thread_exit: false,
            block_scheduler,
            services: ValidationServices {
                block_manager,
                transaction_executor,
                view_factory,
                permission_verifier,
                injector_payload,
            },
        }
    }

    /// Tells the workers to stop.
    pub fn stop(&mut self)
        ensures
            *final(self) == (BlockValidator { validation_thread_exit: true, ..*old(self) }),
    {
        self.validation_thread_exit = true;
    }

    /// The worker whose turn it is; the next time it is the turn of the one after it.
    pub fn return_sender(&mut self) -> (worker: usize)
        requires
            old(self).well_formed(),
        ensures
            worker == old(self).index,
            *final(self) == (BlockValidator {
                index: in_turn(old(self).index as int, old(self).workers as int, 1),
                ..*old(self)
            }),
            final(self).well_formed(),
    {
        let index: usize = self.index;
        self.index = next_in_turn(index, self.workers);
        index
    }
}

impl<M, P, F, V, B: BlockScheduler, Q> BlockValidator<M, P, F, V, B, Q> {
    /// Notes that a block is being processed. Only for what marks blocks invalid by itself.
    pub fn processing_insert(self, block_id: String) -> (after: Self)
        ensures
            call_ensures(
                B::insert_into_processing,
                (self.block_scheduler, block_id),
                after.block_scheduler,
            ),
            after == (BlockValidator { block_scheduler: after.block_scheduler, ..self }),
    {
        let block_scheduler: B = self.block_scheduler.insert_into_processing(block_id);
        BlockValidator { block_scheduler, ..self }
    }

    /// Sets where the results are sent to that come up in scheduling.
    pub fn set_scheduler_results_sender(self, sender: B::ResultsSender) -> (after: Self)
        ensures
            call_ensures(
                B::set_results_sender,
                (self.block_scheduler, sender),
                after.block_scheduler,
            ),
            after == (BlockValidator { block_scheduler: after.block_scheduler, ..self }),
    {
        let block_scheduler: B = self.block_scheduler.set_results_sender(sender);
        BlockValidator { block_scheduler, ..self }
    }

    /// Whether the block is being processed or waits.
    pub fn has_block(&self, block_id: &str) -> (known: bool)
        ensures
            call_ensures(B::contains, (&self.block_scheduler, block_id), known),
    {
        self.block_scheduler.contains(block_id)
    }
}

impl<M, P, F, V, B: BlockScheduler, Q: WorkerQueues> BlockValidator<M, P, F, V, B, Q> {
    /// Taking these blocks in ended in the state `after`: the scheduler was asked once, the
    /// blocks that it gave back were handed to the workers in turn, and if one could not be, the
    /// workers are to stop.
    pub open spec fn submitted(
        &self,
        blocks: Seq<Block>,
        response_sender: &Q::ResponseSender,
        after: &Self,
    ) -> bool {
        exists|copies: Vec<Block>, scheduled: Vec<Block>|
            {
                &&& block_views(copies@) == block_views(blocks)
                &&& #[trigger] call_ensures(
                    B::schedule,
                    (self.block_scheduler, copies),
                    (after.block_scheduler, scheduled),
                )
                &&& self.handed_out(scheduled@, response_sender, after)
            }
    }

    /// Handing these blocks to the workers in turn, and nothing else, took everything but the
    /// order of the blocks to the state `after`: if one could not be handed over, the workers
    /// are to stop.
    pub open spec fn handed_out(
        &self,
        blocks: Seq<Block>,
        response_sender: &Q::ResponseSender,
        after: &Self,
    ) -> bool {
        exists|queues: Seq<Q>, deliveries: Seq<bool>|
            {
                &&& #[trigger] queued_in_turn(
                    queues,
                    self.index as int,
                    self.workers as int,
                    blocks,
                    response_sender,
                    deliveries,
                )
                &&& queues[0] == self.channels
                &&& *after == (BlockValidator {
                    channels: queues.last(),
                    index: in_turn(self.index as int, self.workers as int, blocks.len() as int),
                    validation_thread_exit: self.validation_thread_exit || some_failed(deliveries),
                    block_scheduler: after.block_scheduler,
                    ..*self
                })
            }
    }

    /// Takes blocks in and hands those that can be validated now to the workers.
    pub fn submit_blocks_for_verification(
        self,
        blocks: &[Block],
        response_sender: &Q::ResponseSender,
    ) -> (after: Self)
        requires
            self.well_formed(),
        ensures
            self.submitted(blocks@, response_sender, &after),
            after.well_formed(),
    {
        let mut copies: Vec<Block> = Vec::new();
        let mut i: usize = 0;
        while i < blocks.len()
            invariant
                i <= blocks.len(),
                copies.len() == i,
                forall|j: int| 0 <= j < i ==> (#[trigger] copies@[j])@ == blocks@[j]@,
            decreases blocks.len() - i,
        {
            copies.push(blocks[i].clone());
            i += 1;
        }
        let ghost taken_in = copies;
        assert(block_views(taken_in@) =~= block_views(blocks@));
        let (block_scheduler, scheduled) = self.block_scheduler.schedule(copies);
        assert(call_ensures(
            B::schedule,
            (self.block_scheduler, taken_in),
            (block_scheduler, scheduled),
        ));
        let workers: usize = self.workers;
        let mut index: usize = self.index;
        let mut exit: bool = self.validation_thread_exit;
        let mut channels: Q = self.channels;
        let ghost mut queues: Seq<Q> = seq![channels];
        let ghost mut deliveries: Seq<bool> = seq![];
        proof {
            vstd::arithmetic::div_mod::lemma_small_mod(index as nat, workers as nat);
        }
        for block in it: scheduled
            invariant
                it.seq() == scheduled@,
                self.index < workers == self.workers,
                index < workers,
                index == in_turn(self.index as int, workers as int, it.index() as int),
                exit == (self.validation_thread_exit || some_failed(deliveries)),
                deliveries.len() == it.index(),
                queues.len() == it.index() + 1,
                queues[0] == self.channels,
                channels == queues.last(),
                forall|j: int|
                    0 <= j < it.index() ==> #[trigger] queued_at(
                        queues,
                        in_turn(self.index as int, workers as int, j),
                        scheduled@,
                        response_sender,
                        deliveries,
                        j,
                    ),
        {
            let ghost n = it.index() as int;
            let ghost queues_then = queues;
            let ghost deliveries_then = deliveries;
            let worker: usize = index;
            proof {
                vstd::arithmetic::div_mod::lemma_mod_bound(self.index + n, workers as int);
                law_turns_continue(self.index as int, workers as int, n, 1);
                vstd::arithmetic::div_mod::lemma_mod_bound(self.index + n + 1, workers as int);
            }
            index = next_in_turn(index, workers);
            let (queued, delivered) = channels.send(worker, block, response_sender);
            channels = queued;
            if !delivered {
                exit = true;
            }
            proof {
                queues = queues_then.push(queued);
                deliveries = deliveries_then.push(delivered);
                lemma_failures_push(deliveries_then, delivered);
                assert forall|j: int| 0 <= j < n + 1 implies #[trigger] queued_at(
                    queues,
                    in_turn(self.index as int, workers as int, j),
                    scheduled@,
                    response_sender,
                    deliveries,
                    j,
                ) by {
                    if j < n {
                        assert(queued_at(
                            queues_then,
                            in_turn(self.index as int, workers as int, j),
                            scheduled@,
                            response_sender,
                            deliveries_then,
                            j,
                        ));
                    }
                }
            }
        }
        assert(queued_in_turn(
            queues,
            self.index as int,
            self.workers as int,
            scheduled@,
            response_sender,
            deliveries,
        ));
        let after: Self = BlockValidator {
            channels,
            index,
            workers,
            validation_thread_exit: exit,
            block_scheduler,
            services: self.services,
        };
        assert(self.handed_out(scheduled@, response_sender, &after));
        after
    }

    /// Handing these blocks to the worker whose turn it is, all to the same one, and nothing
    /// else, took everything but the order of the blocks to the state `after`: if one could not
    /// be handed over, the workers are to stop.
    pub open spec fn handed_over(
        &self,
        blocks: Seq<Block>,
        response_sender: &Q::ResponseSender,
        after: &Self,
    ) -> bool {
        exists|queues: Seq<Q>, deliveries: Seq<bool>|
            {
                &&& #[trigger] queued_at_one(
                    queues,
                    self.index,
                    blocks,
                    response_sender,
                    deliveries,
                )
                &&& queues[0] == self.channels
                &&& *after == (BlockValidator {
                    channels: queues.last(),
                    index: in_turn(self.index as int, self.workers as int, 1),
                    validation_thread_exit: self.validation_thread_exit || some_failed(deliveries),
                    block_scheduler: after.block_scheduler,
                    ..*self
                })
            }
    }

    /// Reporting these blocks invalid, and nothing else, took the sender to `sender_after` and
    /// everything but the order of the blocks to the state `after`: if nobody took a report, the
    /// workers are to stop.
    pub open spec fn marked_invalid(
        &self,
        blocks: Seq<Block>,
        response_sender: Q::ResponseSender,
        after: &Self,
        sender_after: Q::ResponseSender,
    ) -> bool {
        exists|senders: Seq<Q::ResponseSender>, deliveries: Seq<bool>|
            {
                &&& #[trigger] reported_invalid(senders, blocks, deliveries)
                &&& senders[0] == response_sender
                &&& senders.last() == sender_after
                &&& *after == (BlockValidator {
                    validation_thread_exit: self.validation_thread_exit || some_failed(deliveries),
                    block_scheduler: after.block_scheduler,
                    ..*self
                })
            }
    }

    /// Finishing a block ended in the state `after`, with the sender `sender_after`: the
    /// scheduler was told once, and what waited for the block was handed over, with nothing sent
    /// on the sender itself, or reported invalid, with nothing put into a queue.
    pub open spec fn pending_processed(
        &self,
        block: &Block,
        response_sender: Q::ResponseSender,
        mark_descendants_invalid: bool,
        after: &Self,
        sender_after: Q::ResponseSender,
    ) -> bool {
        exists|pending: Vec<Block>|
            {
                &&& #[trigger] call_ensures(
                    B::done,
                    (self.block_scheduler, &block.header_signature, mark_descendants_invalid),
                    (after.block_scheduler, pending),
                )
                &&& if mark_descendants_invalid {
                    self.marked_invalid(pending@, response_sender, after, sender_after)
                } else {
                    &&& self.handed_over(pending@, &response_sender, after)
                    &&& sender_after == response_sender
                }
            }
    }

    /// Finishes a block: what waited for it is validated, or marked invalid.
    pub fn process_pending(
        self,
        block: &Block,
        response_sender: Q::ResponseSender,
        mark_descendants_invalid: bool,
    ) -> (ended: (Self, Q::ResponseSender))
        requires
            self.well_formed(),
        ensures
            self.pending_processed(
                block,
                response_sender,
                mark_descendants_invalid,
                &ended.0,
                ended.1,
            ),
            ended.0.well_formed(),
    {
        let (block_scheduler, pending) = self.block_scheduler.done(
            &block.header_signature,
            mark_descendants_invalid,
        );
        assert(call_ensures(
            B::done,
            (self.block_scheduler, &block.header_signature, mark_descendants_invalid),
            (block_scheduler, pending),
        ));
        if !mark_descendants_invalid {
            let worker: usize = self.index;
            let index: usize = next_in_turn(worker, self.workers);
            let (channels, all_delivered) = queue_at_one(
                self.channels,
                worker,
                pending,
                &response_sender,
            );
            let after: Self = BlockValidator {
                channels,
                index,
                workers: self.workers,
                validation_thread_exit: self.validation_thread_exit || !all_delivered,
                block_scheduler,
                services: self.services,
            };
            assert(self.handed_over(pending@, &response_sender, &after));
            (after, response_sender)
        } else {
            let (sender, all_delivered) = report_invalid(response_sender, pending);
            let after: Self = BlockValidator {
                validation_thread_exit: self.validation_thread_exit || !all_delivered,
                block_scheduler,
                ..self
            };
            assert(self.marked_invalid(pending@, response_sender, &after, sender));
            (after, sender)
        }
    }
}

/// Puts blocks into the queue of one worker; returns whether all were taken.
fn queue_at_one<Q: WorkerQueues>(
    start: Q,
    worker: usize,
    blocks: Vec<Block>,
    response_sender: &Q::ResponseSender,
) -> (ended: (Q, bool))
    ensures
        exists|queues: Seq<Q>, deliveries: Seq<bool>|
            #[trigger] queued_at_one(queues, worker, blocks@, response_sender, deliveries)
                && queues[0] == start && queues.last() == ended.0 && ended.1 == !some_failed(
                deliveries,
            ),
{
    let mut all_delivered: bool = true;
    let mut channels: Q = start;
    let ghost mut queues: Seq<Q> = seq![start];
    let ghost mut deliveries: Seq<bool> = seq![];
    for block in it: blocks
        invariant
            it.seq() == blocks@,
            all_delivered == !some_failed(deliveries),
            deliveries.len() == it.index(),
            queues.len() == it.index() + 1,
            queues[0] == start,
            channels == queues.last(),
            forall|j: int|
                0 <= j < it.index() ==> #[trigger] queued_at(
                    queues,
                    worker,
                    blocks@,
                    response_sender,
                    deliveries,
                    j,
                ),
    {
        let ghost n = it.index() as int;
        let ghost queues_then = queues;
        let ghost deliveries_then = deliveries;
        let (queued, delivered) = channels.send(worker, block, response_sender);
        channels = queued;
        if !delivered {
            all_delivered = false;
        }
        proof {
            queues = queues_then.push(queued);
            deliveries = deliveries_then.push(delivered);
            lemma_failures_push(deliveries_then, delivered);
            assert forall|j: int| 0 <= j < n + 1 implies #[trigger] queued_at(
                queues,
                worker,
                blocks@,
                response_sender,
                deliveries,
                j,
            ) by {
                if j < n {
                    assert(queued_at(
                        queues_then,
                        worker,
                        blocks@,
                        response_sender,
                        deliveries_then,
                        j,
                    ));
                }
            }
        }
    }
    assert(queued_at_one(queues, worker, blocks@, response_sender, deliveries));
    (channels, all_delivered)
}

/// Reports blocks invalid, up to the first report that nobody takes; returns whether all were
/// taken.
fn report_invalid<R: ResultSender>(start: R, blocks: Vec<Block>) -> (ended: (R, bool))
    ensures
        exists|senders: Seq<R>, deliveries: Seq<bool>|
            #[trigger] reported_invalid(senders, blocks@, deliveries) && senders[0] == start
                && senders.last() == ended.0 && ended.1 == !some_failed(deliveries),
{
    let mut sender: R = start;
    let ghost mut senders: Seq<R> = seq![start];
    let ghost mut deliveries: Seq<bool> = seq![];
    for block in it: blocks
        invariant
            it.seq() == blocks@,
            deliveries.len() == it.index(),
            senders.len() == it.index() + 1,
            senders[0] == start,
            sender == senders.last(),
            forall|j: int|
                0 <= j < it.index() ==> #[trigger] reported_at(senders, blocks@, deliveries, j),
            forall|j: int| 0 <= j < deliveries.len() ==> #[trigger] deliveries[j],
    {
        let ghost n = it.index() as int;
        let ghost senders_then = senders;
        let ghost deliveries_then = deliveries;
        let result: BlockValidationResult = BlockValidationResult::invalid(block.header_signature);
        let (sent, delivered) = sender.send(result);
        sender = sent;
        proof {
            senders = senders_then.push(sent);
            deliveries = deliveries_then.push(delivered);
            lemma_failures_push(deliveries_then, delivered);
            assert(call_ensures(
                R::send,
                (senders[n], result),
                (senders[n + 1], deliveries[n]),
            ));
            assert forall|j: int| 0 <= j < n + 1 implies #[trigger] reported_at(
                senders,
                blocks@,
                deliveries,
                j,
            ) by {
                if j < n {
                    assert(reported_at(senders_then, blocks@, deliveries_then, j));
                    let told = choose|told: BlockValidationResult|
                        {
                            &&& told@ == invalid_result(blocks@[j]@.header_signature)
                            &&& #[trigger] call_ensures(
                                R::send,
                                (senders_then[j], told),
                                (senders_then[j + 1], deliveries_then[j]),
                            )
                        };
                    assert(call_ensures(
                        R::send,
                        (senders[j], told),
                        (senders[j + 1], deliveries[j]),
                    ));
                }
            }
        }
        if !delivered {
            assert(reported_invalid(senders, blocks@, deliveries));
            return (sender, false);
        }
    }
    assert(reported_invalid(senders, blocks@, deliveries));
    assert(!some_failed(deliveries));
    (sender, true)
}

impl<
    M: BlockManager + Clone + Send,
    P: ExecutionPlatform + Clone + Send,
    F: StateViewFactory + Clone + Send,
    V: PermissionVerifier + Clone + Send,
    B,
    Q,
> BlockValidator<M, P, F, V, B, Q> {
    /// Validates a block and keeps the conclusion, if it is valid.
    pub fn validate_block<K: ResultKeeper>(&self, block: &Block, block_status_store: K) -> (ended:
        (K, Result<(), ValidationError>))
        ensures
            self.services.validated(block, block_status_store, ended.1, ended.0),
    {
        self.services.validate_block(block, block_status_store)
    }
}

/// As many blocks in a row as there are workers go to different workers.
pub proof fn law_workers_take_turns(first: int, workers: int, i: int, j: int)
    requires
        0 <= i < j < i + workers,
        workers <= usize::MAX,
    ensures
        in_turn(first, workers, i) != in_turn(first, workers, j),
{
    vstd::arithmetic::div_mod::lemma_mod_bound(first + i, workers);
    vstd::arithmetic::div_mod::lemma_mod_bound(first + j, workers);
    if (first + i) % workers == (first + j) % workers {
        vstd::arithmetic::div_mod::lemma_fundamental_div_mod(first + i, workers);
        vstd::arithmetic::div_mod::lemma_fundamental_div_mod(first + j, workers);
        let p = (first + i) / workers;
        let q = (first + j) / workers;
        assert(j - i == workers * (q - p)) by (nonlinear_arith)
            requires
                first + i == workers * p + (first + i) % workers,
                first + j == workers * q + (first + j) % workers,
                (first + i) % workers == (first + j) % workers,
        ;
        assert(false) by (nonlinear_arith)
            requires
                j - i == workers * (q - p),
                0 < j - i < workers,
        ;
    }
}

/// Handing out more blocks goes on where the last time ended: the turns are as if all had been
/// handed out at once.
pub proof fn law_turns_continue(first: int, workers: int, n: int, i: int)
    requires
        0 < workers <= usize::MAX,
    ensures
        in_turn(in_turn(first, workers, n) as int, workers, i) == in_turn(first, workers, n + i),
{
    vstd::arithmetic::div_mod::lemma_mod_bound(first + n, workers);
    vstd::arithmetic::div_mod::lemma_add_mod_noop_right(i, first + n, workers);
}

/// An order to stop stands: neither taking blocks in nor finishing one takes it back.
pub proof fn law_order_to_stop_stands<M, P, F, V, B: BlockScheduler, Q: WorkerQueues>(
    before: &BlockValidator<M, P, F, V, B, Q>,
    blocks: Seq<Block>,
    block: &Block,
    response_sender: Q::ResponseSender,
    mark_descendants_invalid: bool,
    after: &BlockValidator<M, P, F, V, B, Q>,
    sender_after: Q::ResponseSender,
)
    requires
        before.validation_thread_exit,
        before.submitted(blocks, &response_sender, after) || before.pending_processed(
            block,
            response_sender,
            mark_descendants_invalid,
            after,
            sender_after,
        ),
    ensures
        after.validation_thread_exit,
{
}

/// Whether some delivery failed, after one more.
proof fn lemma_failures_push(deliveries: Seq<bool>, delivered: bool)
    ensures
        some_failed(deliveries.push(delivered)) == (some_failed(deliveries) || !delivered),
{
    let longer = deliveries.push(delivered);
    if some_failed(deliveries) {
        let i = choose|i: int| 0 <= i < deliveries.len() && !#[trigger] deliveries[i];
        assert(!longer[i]);
    }
    if !delivered {
        assert(!longer[deliveries.len() as int]);
    }
    if some_failed(longer) {
        let i = choose|i: int| 0 <= i < longer.len() && !#[trigger] longer[i];
        if i < deliveries.len() {
            assert(!deliveries[i]);
        }
    }
}

/// The one after the last is the first.
proof fn lemma_next_in_turn(index: int, workers: int)
    requires
        0 <= index < workers,
    ensures
        (index + 1) % workers == if index + 1 == workers {
            0
        } else {
            index + 1
        },
{
    if index + 1 == workers {
        vstd::arithmetic::div_mod::lemma_mod_self_0(workers);
    } else {
        vstd::arithmetic::div_mod::lemma_small_mod((index + 1) as nat, workers as nat);
    }
}

/// The worker that comes some turns after another: the turns go round.
pub proof fn law_whose_turn_it_is(first: int, workers: int, i: int)
    requires
        0 < workers <= usize::MAX,
    ensures
        in_turn(first, workers, i) == (first + i) % workers,
        0 <= first < workers ==> in_turn(first, workers, 0) == first,
        in_turn(first, workers, i) + 1 < workers ==> in_turn(first, workers, i + 1) == in_turn(
            first,
            workers,
            i,
        ) + 1,
        in_turn(first, workers, i) + 1 == workers ==> in_turn(first, workers, i + 1) == 0,
{
    vstd::arithmetic::div_mod::lemma_mod_bound(first + i, workers);
    law_turns_continue(first, workers, i, 1);
    lemma_next_in_turn((first + i) % workers, workers);
    if 0 <= first < workers {
        vstd::arithmetic::div_mod::lemma_small_mod(first as nat, workers as nat);
    }
}

/// Some delivery failed if, and only if, what was delivered was not taken somewhere.
pub proof fn law_what_a_failed_delivery_is(deliveries: Seq<bool>)
    ensures
        some_failed(deliveries) <==> deliveries.contains(false),
{
    if some_failed(deliveries) {
        let i = choose|i: int| 0 <= i < deliveries.len() && !#[trigger] deliveries[i];
        assert(deliveries[i] == false);
    }
    if deliveries.contains(false) {
        let i = choose|i: int| 0 <= i < deliveries.len() && deliveries[i] == false;
        assert(!deliveries[i]);
    }
}

/// What taking blocks in does: the scheduler is asked once, about all the blocks in their order.
/// Each block that it gave back is put once, in order, into the queue of the worker whose turn it
/// is, with the sender that was given, and nothing else is done to the queues. The turn goes on
/// by as many workers. All workers are to stop if they were, or if a block was not taken; and
/// nothing else changes. Returns the copies that the scheduler was asked about, what it gave back,
/// the queues in between and whether each block was taken.
pub proof fn law_what_submitting_does<M, P, F, V, B: BlockScheduler, Q: WorkerQueues>(
    before: BlockValidator<M, P, F, V, B, Q>,
    blocks: &[Block],
    response_sender: &Q::ResponseSender,
    after: BlockValidator<M, P, F, V, B, Q>,
) -> (seen: (Vec<Block>, Vec<Block>, Seq<Q>, Seq<bool>))
    requires
        before.index < before.workers,
        call_ensures(
            BlockValidator::<M, P, F, V, B, Q>::submit_blocks_for_verification,
            (before, blocks, response_sender),
            after,
        ),
    ensures
        seen.0@.len() == blocks@.len(),
        forall|i: int| 0 <= i < blocks@.len() ==> (#[trigger] seen.0@[i])@ == blocks@[i]@,
        call_ensures(
            B::schedule,
            (before.block_scheduler, seen.0),
            (after.block_scheduler, seen.1),
        ),
        seen.2.len() == seen.1@.len() + 1,
        seen.3.len() == seen.1@.len(),
        seen.2[0] == before.channels,
        seen.2[seen.1@.len() as int] == after.channels,
        forall|i: int|
            0 <= i < seen.1@.len() ==> call_ensures(
                Q::send,
                (
                    seen.2[i],
                    ((before.index + i) % before.workers as int) as usize,
                    #[trigger] seen.1@[i],
                    response_sender,
                ),
                (seen.2[i + 1], seen.3[i]),
            ),
        after.index == (before.index + seen.1@.len()) % before.workers as int,
        after.workers == before.workers,
        after.index < after.workers,
        after.validation_thread_exit <==> before.validation_thread_exit
            || seen.3.contains(false),
        after.services == before.services,
{
    let (copies, scheduled) = choose|copies: Vec<Block>, scheduled: Vec<Block>|
        {
            &&& block_views(copies@) == block_views(blocks@)
            &&& #[trigger] call_ensures(
                B::schedule,
                (before.block_scheduler, copies),
                (after.block_scheduler, scheduled),
            )
            &&& before.handed_out(scheduled@, response_sender, &after)
        };
    assert(before.submitted(blocks@, response_sender, &after));
    let first = before.index as int;
    let workers = before.workers as int;
    let (queues, deliveries) = choose|queues: Seq<Q>, deliveries: Seq<bool>|
        {
            &&& #[trigger] queued_in_turn(
                queues,
                first,
                workers,
                scheduled@,
                response_sender,
                deliveries,
            )
            &&& queues[0] == before.channels
            &&& after == (BlockValidator {
                channels: queues.last(),
                index: in_turn(first, workers, scheduled@.len() as int),
                validation_thread_exit: before.validation_thread_exit || some_failed(deliveries),
                block_scheduler: after.block_scheduler,
                ..before
            })
        };
    law_whose_turn_it_is(first, workers, scheduled@.len() as int);
    assert(block_views(copies@).len() == block_views(blocks@).len());
    assert forall|i: int| 0 <= i < blocks@.len() implies (#[trigger] copies@[i])@
        == blocks@[i]@ by {
        assert(block_views(copies@)[i] == block_views(blocks@)[i]);
    }
    law_what_a_failed_delivery_is(deliveries);
    assert forall|i: int| 0 <= i < scheduled@.len() implies call_ensures(
        Q::send,
        (
            queues[i],
            ((before.index + i) % before.workers as int) as usize,
            #[trigger] scheduled@[i],
            response_sender,
        ),
        (queues[i + 1], deliveries[i]),
    ) by {
        law_whose_turn_it_is(first, workers, i);
        assert(queued_at(
            queues,
            in_turn(first, workers, i),
            scheduled@,
            response_sender,
            deliveries,
            i,
        ));
    }
    (copies, scheduled, queues, deliveries)
}

/// What finishing a block does whose descendants are to be validated: the scheduler is told once,
/// with the block's identifier. Each block that it gave back is put once, in order, into the queue
/// of the one worker whose turn it is, with the sender that was given; the turn goes on by one
/// worker however many blocks there are. Nothing is sent on the sender itself. All workers are to
/// stop if they were, or if a block was not taken; and nothing else changes. Returns what the
/// scheduler gave back, the queues in between and whether each block was taken.
pub proof fn law_what_finishing_a_valid_block_does<M, P, F, V, B: BlockScheduler, Q: WorkerQueues>(
    before: BlockValidator<M, P, F, V, B, Q>,
    block: &Block,
    response_sender: Q::ResponseSender,
    ended: (BlockValidator<M, P, F, V, B, Q>, Q::ResponseSender),
) -> (seen: (Vec<Block>, Seq<Q>, Seq<bool>))
    requires
        before.index < before.workers,
        call_ensures(
            BlockValidator::<M, P, F, V, B, Q>::process_pending,
            (before, block, response_sender, false),
            ended,
        ),
    ensures
        call_ensures(
            B::done,
            (before.block_scheduler, &block.header_signature, false),
            (ended.0.block_scheduler, seen.0),
        ),
        ended.1 == response_sender,
        seen.1.len() == seen.0@.len() + 1,
        seen.2.len() == seen.0@.len(),
        seen.1[0] == before.channels,
        seen.1[seen.0@.len() as int] == ended.0.channels,
        forall|i: int|
            0 <= i < seen.0@.len() ==> call_ensures(
                Q::send,
                (seen.1[i], before.index, #[trigger] seen.0@[i], &response_sender),
                (seen.1[i + 1], seen.2[i]),
            ),
        ended.0.index == if before.index + 1 == before.workers {
            0
        } else {
            before.index + 1
        },
        ended.0.workers == before.workers,
        ended.0.validation_thread_exit <==> before.validation_thread_exit
            || seen.2.contains(false),
        ended.0.services == before.services,
{
    let after = ended.0;
    let pending = choose|pending: Vec<Block>|
        {
            &&& #[trigger] call_ensures(
                B::done,
                (before.block_scheduler, &block.header_signature, false),
                (after.block_scheduler, pending),
            )
            &&& before.handed_over(pending@, &response_sender, &after)
            &&& ended.1 == response_sender
        };
    assert(before.pending_processed(block, response_sender, false, &after, ended.1));
    let (queues, deliveries) = choose|queues: Seq<Q>, deliveries: Seq<bool>|
        {
            &&& #[trigger] queued_at_one(
                queues,
                before.index,
                pending@,
                &response_sender,
                deliveries,
            )
            &&& queues[0] == before.channels
            &&& after == (BlockValidator {
                channels: queues.last(),
                index: in_turn(before.index as int, before.workers as int, 1),
                validation_thread_exit: before.validation_thread_exit || some_failed(deliveries),
                block_scheduler: after.block_scheduler,
                ..before
            })
        };
    lemma_next_in_turn(before.index as int, before.workers as int);
    law_what_a_failed_delivery_is(deliveries);
    assert forall|i: int| 0 <= i < pending@.len() implies call_ensures(
        Q::send,
        (queues[i], before.index, #[trigger] pending@[i], &response_sender),
        (queues[i + 1], deliveries[i]),
    ) by {
        assert(queued_at(queues, before.index, pending@, &response_sender, deliveries, i));
    }
    (pending, queues, deliveries)
}

/// What finishing a block does whose descendants are to be marked invalid: the scheduler is told
/// once, with the block's identifier. Each block that it gave back is reported invalid once, in
/// order, with nothing of an execution, up to the first report that nobody takes; after that one
/// nothing is sent. The queues and the turn stay as they were. All workers are to stop if they
/// were, or if a report was not taken; and nothing else changes. Returns what the scheduler gave
/// back, the senders in between, the reports and whether each was taken.
pub proof fn law_what_finishing_an_invalid_block_does<
    M,
    P,
    F,
    V,
    B: BlockScheduler,
    Q: WorkerQueues,
>(
    before: BlockValidator<M, P, F, V, B, Q>,
    block: &Block,
    response_sender: Q::ResponseSender,
    ended: (BlockValidator<M, P, F, V, B, Q>, Q::ResponseSender),
) -> (seen: (Vec<Block>, Seq<Q::ResponseSender>, Seq<BlockValidationResult>, Seq<bool>))
    requires
        before.index < before.workers,
        call_ensures(
            BlockValidator::<M, P, F, V, B, Q>::process_pending,
            (before, block, response_sender, true),
            ended,
        ),
    ensures
        call_ensures(
            B::done,
            (before.block_scheduler, &block.header_signature, true),
            (ended.0.block_scheduler, seen.0),
        ),
        seen.1.len() == seen.2.len() + 1,
        seen.3.len() == seen.2.len(),
        seen.2.len() <= seen.0@.len(),
        seen.1[0] == response_sender,
        seen.1[seen.2.len() as int] == ended.1,
        forall|i: int|
            0 <= i < seen.2.len() ==> {
                &&& (#[trigger] seen.2[i]).block_id@ == seen.0@[i].header_signature@
                &&& seen.2[i].execution_results@.len() == 0
                &&& seen.2[i].num_transactions == 0
                &&& seen.2[i].status == BlockStatus::Invalid
                &&& call_ensures(
                    <Q::ResponseSender as ResultSender>::send,
                    (seen.1[i], seen.2[i]),
                    (seen.1[i + 1], seen.3[i]),
                )
            },
        forall|i: int| 0 <= i < seen.3.len() - 1 ==> #[trigger] seen.3[i],
        seen.2.len() < seen.0@.len() ==> seen.3.len() > 0 && !seen.3[seen.3.len() - 1],
        ended.0.channels == before.channels,
        ended.0.index == before.index,
        ended.0.workers == before.workers,
        ended.0.validation_thread_exit <==> before.validation_thread_exit
            || seen.3.contains(false),
        ended.0.services == before.services,
{
    let after = ended.0;
    let pending = choose|pending: Vec<Block>|
        {
            &&& #[trigger] call_ensures(
                B::done,
                (before.block_scheduler, &block.header_signature, true),
                (after.block_scheduler, pending),
            )
            &&& before.marked_invalid(pending@, response_sender, &after, ended.1)
        };
    assert(before.pending_processed(block, response_sender, true, &after, ended.1));
    let (senders, deliveries) = choose|senders: Seq<Q::ResponseSender>, deliveries: Seq<bool>|
        {
            &&& #[trigger] reported_invalid(senders, pending@, deliveries)
            &&& senders[0] == response_sender
            &&& senders.last() == ended.1
            &&& after == (BlockValidator {
                validation_thread_exit: before.validation_thread_exit || some_failed(deliveries),
                block_scheduler: after.block_scheduler,
                ..before
            })
        };
    law_what_a_failed_delivery_is(deliveries);
    let n = deliveries.len();
    let reports = lemma_what_was_reported(senders, pending@, deliveries, n as int);
    (pending, senders, reports, deliveries)
}

/// The reports that were sent, up to one of them.
proof fn lemma_what_was_reported<R: ResultSender>(
    senders: Seq<R>,
    blocks: Seq<Block>,
    deliveries: Seq<bool>,
    n: int,
) -> (reports: Seq<BlockValidationResult>)
    requires
        reported_invalid(senders, blocks, deliveries),
        0 <= n <= deliveries.len(),
    ensures
        reports.len() == n,
        forall|i: int|
            0 <= i < n ==> {
                &&& (#[trigger] reports[i]).block_id@ == blocks[i].header_signature@
                &&& reports[i].execution_results@.len() == 0
                &&& reports[i].num_transactions == 0
                &&& reports[i].status == BlockStatus::Invalid
                &&& call_ensures(
                    R::send,
                    (senders[i], reports[i]),
                    (senders[i + 1], deliveries[i]),
                )
            },
    decreases n,
{
    if n == 0 {
        Seq::empty()
    } else {
        let i = n - 1;
        let reports = lemma_what_was_reported(senders, blocks, deliveries, i);
        assert(reported_at(senders, blocks, deliveries, i));
        let report = choose|result: BlockValidationResult|
            {
                &&& result@ == invalid_result(blocks[i]@.header_signature)
                &&& #[trigger] call_ensures(
                    R::send,
                    (senders[i], result),
                    (senders[i + 1], deliveries[i]),
                )
            };
        law_what_an_invalid_conclusion_holds(report, blocks[i]@.header_signature);
        reports.push(report)
    }
}

/// What telling the scheduler does: it is told once, as it was said, and nothing else changes; and
/// it is the scheduler that knows whether a block is being processed.
pub proof fn law_the_scheduler_is_told_once<M, P, F, V, B: BlockScheduler, Q>(
    before: BlockValidator<M, P, F, V, B, Q>,
    block_id: String,
    noted: BlockValidator<M, P, F, V, B, Q>,
    sender: B::ResultsSender,
    set: BlockValidator<M, P, F, V, B, Q>,
    asked: &str,
    known: bool,
)
    requires
        call_ensures(
            BlockValidator::<M, P, F, V, B, Q>::processing_insert,
            (before, block_id),
            noted,
        ),
        call_ensures(
            BlockValidator::<M, P, F, V, B, Q>::set_scheduler_results_sender,
            (before, sender),
            set,
        ),
        call_ensures(BlockValidator::<M, P, F, V, B, Q>::has_block, (&before, asked), known),
    ensures
        call_ensures(
            B::insert_into_processing,
            (before.block_scheduler, block_id),
            noted.block_scheduler,
        ),
        noted.channels == before.channels,
        noted.index == before.index,
        noted.workers == before.workers,
        noted.validation_thread_exit == before.validation_thread_exit,
        noted.services == before.services,
        call_ensures(B::set_results_sender, (before.block_scheduler, sender), set.block_scheduler),
        set.channels == before.channels,
        set.index == before.index,
        set.workers == before.workers,
        set.validation_thread_exit == before.validation_thread_exit,
        set.services == before.services,
        call_ensures(B::contains, (&before.block_scheduler, asked), known),
{
}

/// A new validator has one worker, which is handed the first block and is not to stop; and it is
/// made of what it is given.
pub proof fn law_what_a_new_validator_is<M, P, F, V, B, Q>(
    block_manager: M,
    transaction_executor: P,
    permission_verifier: V,
    view_factory: F,
    injector_payload: Arc<cpython::PyBytes>,
    block_scheduler: B,
    channels: Q,
    validator: BlockValidator<M, P, F, V, B, Q>,
)
    requires
        call_ensures(
            BlockValidator::<M, P, F, V, B, Q>::new,
            (
                block_manager,
                transaction_executor,
                permission_verifier,
                view_factory,
                injector_payload,
                block_scheduler,
                channels,
            ),
            validator,
        ),
    ensures
        validator.workers == 1,
        validator.index == 0,
        !validator.validation_thread_exit,
        validator.channels == channels,
        validator.block_scheduler == block_scheduler,
        validator.services.block_manager == block_manager,
        validator.services.transaction_executor == transaction_executor,
        validator.services.permission_verifier == permission_verifier,
        validator.services.view_factory == view_factory,
        validator.services.injector_payload == injector_payload,
{
}

/// Telling the workers to stop changes nothing else.
pub proof fn law_what_stopping_does<M, P, F, V, B, Q>(
    validator: &mut BlockValidator<M, P, F, V, B, Q>,
)
    requires
        call_ensures(BlockValidator::<M, P, F, V, B, Q>::stop, (validator,), ()),
    ensures
        final(validator).validation_thread_exit,
        final(validator).channels == old(validator).channels,
        final(validator).index == old(validator).index,
        final(validator).workers == old(validator).workers,
        final(validator).block_scheduler == old(validator).block_scheduler,
        final(validator).services == old(validator).services,
{
}

/// Taking a turn gives the worker whose turn it is and passes the turn on to the one after it, the
/// first after the last; nothing else changes.
pub proof fn law_what_taking_a_turn_does<M, P, F, V, B, Q>(
    validator: &mut BlockValidator<M, P, F, V, B, Q>,
    worker: usize,
)
    requires
        old(validator).index < old(validator).workers,
        call_ensures(BlockValidator::<M, P, F, V, B, Q>::return_sender, (validator,), worker),
    ensures
        worker == old(validator).index,
        final(validator).index == if worker + 1 == old(validator).workers {
            0
        } else {
            worker + 1
        },
        final(validator).validation_thread_exit == old(validator).validation_thread_exit,
        final(validator).channels == old(validator).channels,
        final(validator).workers == old(validator).workers,
        final(validator).block_scheduler == old(validator).block_scheduler,
        final(validator).services == old(validator).services,
{
    lemma_next_in_turn(old(validator).index as int, old(validator).workers as int);
}

/// A validator is well formed where the next worker is one of its workers.
pub proof fn law_when_a_validator_is_well_formed<M, P, F, V, B, Q>(
    validator: &BlockValidator<M, P, F, V, B, Q>,
)
    ensures
        validator.well_formed() <==> validator.index < validator.workers,
{
}

/// A validator validates a block with its own services: the keeper of results goes from what it
/// was to what it is by that alone.
pub proof fn law_a_validator_validates_with_its_services<
    M: BlockManager + Clone + Send,
    P: ExecutionPlatform + Clone + Send,
    F: StateViewFactory + Clone + Send,
    V: PermissionVerifier + Clone + Send,
    B,
    Q,
    K: ResultKeeper,
>(
    validator: &BlockValidator<M, P, F, V, B, Q>,
    block: &Block,
    keeper: K,
    ended: (K, Result<(), ValidationError>),
)
    requires
        call_ensures(
            BlockValidator::<M, P, F, V, B, Q>::validate_block::<K>,
            (validator, block, keeper),
            ended,
        ),
    ensures
        exists|
            processor: StandardProcessor<M, P, F, V>,
            conclusion: Result<BlockValidationResult, ValidationError>,
        |
            {
                &&& validator.services.assembled(&processor)
                &&& #[trigger] processor.processed(block, conclusion)
                &&& match conclusion {
                    Ok(valid) => ended.1 is Ok && call_ensures(K::keep, (keeper, valid), ended.0),
                    Err(error) => ended.1 == Err::<(), ValidationError>(error) && ended.0 == keeper,
                }
            },
{
}

/// A worker waits for a tenth of a second before it looks whether it is to stop.
pub proof fn law_how_long_a_worker_waits()
    ensures
        BLOCKVALIDATION_QUEUE_RECV_TIMEOUT == 100,
{
}

} // verus!
