//! The state that backends and the worker share: the validation slots, the work queue and the
//! statistics, with the steps that either side takes on them.
//!
//! Each step is atomic: who shares the state holds a lock around it. Waiting, waking and the
//! validation itself happen between the steps, without the lock.
use crate::error::{error_text, ValidationError};
use crate::queue::{
    enqueued, law_no_slot_is_dropped, queue_capacity, WorkQueue, MAX_VALIDATION_SLOTS,
};
use crate::slot::{request_error, request_fits, response_error, response_fits, SlotView,
    ValidationSlot};
use crate::text::{append_decimal, decimal};
use crate::validator::{outcome_view, Identity, ValidationResult};
use vstd::prelude::*;
use vstd::string::*;

verus! {

/// How long a backend waits for its response, in milliseconds.
pub const VALIDATION_TIMEOUT_MS: usize = 5000;

/// How long the worker sleeps before it looks for work again, in milliseconds.
pub const WORKER_SLEEP_MS: usize = 1000;

/// How many validations there have been. The counts start over when they no longer fit.
#[derive(Clone, Copy, Debug, PartialEq, Eq, Structural)]
pub struct Statistics {
    pub total_validations: u64,
    pub successful_validations: u64,
    pub failed_validations: u64,
}

/// The count after `count`.
pub open spec fn next_count(count: u64) -> u64 {
    if count == u64::MAX {
        0
    } else {
        (count + 1) as u64
    }
}

/// The index of the first slot from `i` on that is not in use; the number of slots if there is
/// none.
pub open spec fn first_free_from(slots: Seq<SlotView>, i: nat) -> nat
    decreases slots.len() - i,
{
    if i >= slots.len() {
        slots.len()
    } else if !slots[i as int].in_use {
        i
    } else {
        first_free_from(slots, i + 1)
    }
}

/// The index of the first slot that is not in use; the number of slots if there is none.
pub open spec fn first_free(slots: Seq<SlotView>) -> nat {
    first_free_from(slots, 0)
}

/// What the shared state stands for.
#[verifier::ext_equal]
pub struct SharedView {
    pub slots: Seq<SlotView>,
    pub queue: Seq<usize>,
    pub statistics: Statistics,
}

/// What a backend hands over with its request, besides the request: its process, the time in
/// milliseconds, and the latch to wake it through.
#[derive(Clone, Copy, Debug, PartialEq, Eq, Structural)]
pub struct Requester {
    pub backend_pid: i32,
    pub now: i64,
    pub latch: usize,
}

/// The response to an outcome: whether it is a success, whether it authorizes, the identity and
/// the error message.
pub open spec fn response_of(outcome: Result<Identity, ValidationError<Seq<char>>>) -> (
    bool,
    bool,
    Seq<char>,
    Seq<char>,
) {
    match outcome {
        Ok(identity) => (
            true,
            identity.authorized,
            identity.authenticated_id,
            Seq::empty(),
        ),
        Err(error) => (false, false, Seq::empty(), error_text(error)),
    }
}

/// Whether a slot has room for the response to an outcome.
pub open spec fn outcome_fits(outcome: Result<Identity, ValidationError<Seq<char>>>) -> bool {
    response_fits(response_of(outcome).2, response_of(outcome).3)
}

/// What a backend makes of its slot once it has stopped waiting, because the time was up or for
/// another reason.
pub open spec fn collected(slot: SlotView, timed_out: bool) -> Result<Identity, Seq<char>> {
    if slot.response_ready {
        if slot.success {
            Ok(Identity { authenticated_id: slot.authn_id, authorized: slot.authorized })
        } else {
            Err(slot.error_msg)
        }
    } else if timed_out {
        Err("Validation timeout after "@ + decimal(VALIDATION_TIMEOUT_MS as nat) + " ms"@)
    } else {
        Err("Validation interrupted (postmaster died?)"@)
    }
}

/// The queue after a request has been written into the slot at `slot_idx`. The slot joins the end,
/// unless it is still queued from an earlier use, whose backend stopped waiting; the worker then
/// comes to the new request at that place.
pub open spec fn with_work(queue: Seq<usize>, slot_idx: usize) -> Seq<usize> {
    if queue.contains(slot_idx) {
        queue
    } else {
        enqueued(queue, slot_idx)
    }
}

impl SharedView {
    /// No slot in use, nothing queued, nothing counted.
    pub open spec fn initial() -> SharedView {
        SharedView {
            slots: Seq::new(MAX_VALIDATION_SLOTS as nat, |i: int| SlotView::initial()),
            queue: Seq::empty(),
            statistics: Statistics {
                total_validations: 0,
                successful_validations: 0,
                failed_validations: 0,
            },
        }
    }

    /// Whether the parts fit together: there are as many slots as there should be, the queue is
    /// within its capacity, and what is queued are slots, none of them twice.
    pub open spec fn valid(self) -> bool {
        &&& self.slots.len() == MAX_VALIDATION_SLOTS
        &&& self.queue.len() <= queue_capacity()
        &&& forall|k: int| 0 <= k < self.queue.len() ==> self.queue[k] < MAX_VALIDATION_SLOTS
        &&& self.queue.no_duplicates()
    }

    /// The state with another slot at `i`.
    pub open spec fn with_slot(self, i: int, slot: SlotView) -> SharedView {
        SharedView { slots: self.slots.update(i, slot), ..self }
    }

    /// The state after the slot at `i` has been taken.
    pub open spec fn allocated(self, i: int, backend_pid: i32, now: i64) -> SharedView {
        self.with_slot(i, self.slots[i].acquired(backend_pid, now))
    }

    /// The state after the slot at `i` has been taken and knows whom to wake.
    pub open spec fn occupied(self, i: int, requester: Requester) -> SharedView {
        self.with_slot(
            i,
            SlotView {
                backend_latch: requester.latch,
                ..self.slots[i].acquired(requester.backend_pid, requester.now)
            },
        )
    }

    /// The state after a request has been submitted through the slot at `i`.
    pub open spec fn submitted(
        self,
        i: int,
        requester: Requester,
        token: Seq<char>,
        role: Seq<char>,
    ) -> SharedView {
        let state = self.occupied(i, requester);
        SharedView {
            queue: with_work(state.queue, i as usize),
            ..state.with_slot(i, state.slots[i].with_request(token, role))
        }
    }

    /// The state after the worker has started on the request in the slot at `i`; it does so only
    /// while the request is pending.
    pub open spec fn begun(self, i: int) -> SharedView {
        if self.slots[i].request_pending() {
            SharedView {
                statistics: Statistics {
                    total_validations: next_count(self.statistics.total_validations),
                    ..self.statistics
                },
                ..self
            }
        } else {
            self
        }
    }

    /// The state after the worker has answered the request in the slot at `i`. A response that has
    /// no room is neither written nor counted.
    pub open spec fn finished(
        self,
        i: int,
        outcome: Result<Identity, ValidationError<Seq<char>>>,
    ) -> SharedView {
        if outcome_fits(outcome) {
            let response = response_of(outcome);
            SharedView {
                statistics: if response.0 {
                    Statistics {
                        successful_validations: next_count(self.statistics.successful_validations),
                        ..self.statistics
                    }
                } else {
                    Statistics {
                        failed_validations: next_count(self.statistics.failed_validations),
                        ..self.statistics
                    }
                },
                ..self.with_slot(
                    i,
                    self.slots[i].with_response(response.0, response.1, response.2, response.3),
                )
            }
        } else {
            self
        }
    }

    /// The state after the slot at `i` has been given back.
    pub open spec fn given_back(self, i: int) -> SharedView {
        self.with_slot(i, self.slots[i].released())
    }
}

/// What wakes the worker.
#[derive(Clone, Copy, Debug, PartialEq, Eq, Structural)]
pub enum WorkerEvent {
    /// The worker has started.
    Started,
    /// A request has been dealt with.
    Processed,
    /// The sleep is over, because of new work, the time or the postmaster's death.
    Woken { postmaster_died: bool },
}

/// What the worker does next.
#[derive(Clone, Copy, Debug, PartialEq, Eq, Structural)]
pub enum WorkerAction {
    /// Deal with the request in this slot.
    Process(usize),
    /// Sleep until there is work, at most for this many milliseconds.
    Sleep(usize),
    /// Stop.
    Exit,
}

/// Whether the worker stops at an event.
pub open spec fn worker_stops(event: WorkerEvent) -> bool {
    match event {
        WorkerEvent::Started | WorkerEvent::Processed => false,
        WorkerEvent::Woken { postmaster_died } => postmaster_died,
    }
}

/// What the worker does at an event: it stops, or deals with the first queued slot, or sleeps.
pub open spec fn worker_action(queue: Seq<usize>, event: WorkerEvent) -> WorkerAction {
    if worker_stops(event) {
        WorkerAction::Exit
    } else if queue.len() > 0 {
        WorkerAction::Process(queue.first())
    } else {
        WorkerAction::Sleep(WORKER_SLEEP_MS)
    }
}

/// The queue after the worker has taken what it deals with at an event.
pub open spec fn worker_queue(queue: Seq<usize>, event: WorkerEvent) -> Seq<usize> {
    if !worker_stops(event) && queue.len() > 0 {
        queue.drop_first()
    } else {
        queue
    }
}

/// What is left to do once a request has been answered: the backend to wake, and what was too
/// large about a response that could not be written.
pub struct Completion {
    pub wake: Option<usize>,
    pub stored: Result<(), String>,
}

/// The shared state. It consists of plain values only, so that it can lie in shared memory.
pub struct SharedValidatorState {
    slots: [ValidationSlot; MAX_VALIDATION_SLOTS],
    queue: WorkQueue,
    statistics: Statistics,
}

impl View for SharedValidatorState {
    type V = SharedView;

    closed spec fn view(&self) -> SharedView {
        SharedView {
            slots: self.slots@.map_values(|slot: ValidationSlot| slot@),
            queue: self.queue@,
            statistics: self.statistics,
        }
    }
}

impl SharedValidatorState {
    /// Every part is well-formed, and only slots are queued, none of them twice.
    pub closed spec fn wf(&self) -> bool {
        &&& forall|i: int| 0 <= i < MAX_VALIDATION_SLOTS ==> (#[trigger] self.slots@[i]).wf()
        &&& self.queue.wf()
        &&& forall|k: int| 0 <= k < self.queue@.len() ==> self.queue@[k] < MAX_VALIDATION_SLOTS
        &&& self.queue@.no_duplicates()
    }

    /// A well-formed state is valid.
    pub proof fn lemma_valid(&self)
        requires
            self.wf(),
        ensures
            self@.valid(),
    {
        self.queue.lemma_within_capacity();
    }

    /// A state that differs from another in one slot only.
    proof fn lemma_one_slot(before: SharedValidatorState, after: SharedValidatorState, i: int)
        requires
            0 <= i < MAX_VALIDATION_SLOTS,
            forall|j: int|
                0 <= j < MAX_VALIDATION_SLOTS && j != i ==> after.slots@[j] == before.slots@[j],
            after.queue == before.queue,
            after.statistics == before.statistics,
        ensures
            before@.slots[i] == before.slots@[i]@,
            after@ == before@.with_slot(i, after.slots@[i]@),
    {
        assert(after@.slots == before@.slots.update(i, after.slots@[i]@));
    }

    /// A state in which nothing has happened yet.
    pub fn new() -> (state: SharedValidatorState)
        ensures
            state.wf(),
            state@ == SharedView::initial(),
    {
        let state = SharedValidatorState {
            slots: [ValidationSlot::new(); MAX_VALIDATION_SLOTS],
            queue: WorkQueue::new(),
            statistics: Statistics {
                total_validations: 0,
                successful_validations: 0,
                failed_validations: 0,
            },
        };
        assert(state@.slots == SharedView::initial().slots);
        state
    }

    /// Puts the state into its initial condition, whatever the memory held before.
    pub fn init(&mut self)
        ensures
            final(self).wf(),
            final(self)@ == SharedView::initial(),
    {
        let mut i: usize = 0;
        while i < MAX_VALIDATION_SLOTS
            invariant
                i <= MAX_VALIDATION_SLOTS,
                forall|j: int|
                    0 <= j < i ==> (#[trigger] self.slots@[j]).wf() && self.slots@[j]@
                        == SlotView::initial(),
            decreases MAX_VALIDATION_SLOTS - i,
        {
            self.slots[i].init();
            i = i + 1;
        }
        self.queue.init();
        self.statistics = Statistics {
            total_validations: 0,
            successful_validations: 0,
            failed_validations: 0,
        };
        assert(self@.slots == SharedView::initial().slots);
    }

    /// The statistics.
    pub fn statistics(&self) -> (statistics: Statistics)
        ensures
            statistics == self@.statistics,
    {
        self.statistics
    }

    /// Takes the first slot that is not in use for a backend.
    pub fn allocate_slot(&mut self, backend_pid: i32, now: i64) -> (slot_idx: Result<usize, String>)
        requires
            old(self).wf(),
        ensures
            final(self).wf(),
            match slot_idx {
                Ok(i) => {
                    &&& i == first_free(old(self)@.slots)
                    &&& i < MAX_VALIDATION_SLOTS
                    &&& final(self)@ == old(self)@.allocated(i as int, backend_pid, now)
                },
                Err(message) => {
                    &&& first_free(old(self)@.slots) == MAX_VALIDATION_SLOTS
                    &&& final(self)@ == old(self)@
                    &&& message@ == "No available validation slots (all busy)"@
                },
            },
    {
        let mut i: usize = 0;
        while i < MAX_VALIDATION_SLOTS
            invariant
                i <= MAX_VALIDATION_SLOTS,
                self.wf(),
                self@ == old(self)@,
                first_free(old(self)@.slots) == first_free_from(old(self)@.slots, i as nat),
            decreases MAX_VALIDATION_SLOTS - i,
        {
            let ghost before = *self;
            assert(before@.slots[i as int] == before.slots@[i as int]@);
            if self.slots[i].try_acquire(backend_pid, now) {
                assert(self@ == old(self)@.allocated(i as int, backend_pid, now));
                return Ok(i);
            }
            assert(self@.slots == before@.slots);
            i = i + 1;
        }
        Err("No available validation slots (all busy)".to_owned())
    }

    /// Submits a request: takes a slot, writes the request into it and has the slot queued for the
    /// worker, which there is always room for. A request that is too large still leaves the slot taken.
    pub fn submit(&mut self, requester: Requester, token: &str, role: &str) -> (slot_idx: Result<
        usize,
        String,
    >)
        requires
            old(self).wf(),
        ensures
            final(self).wf(),
            slot_idx is Ok <==> first_free(old(self)@.slots) < MAX_VALIDATION_SLOTS && request_fits(
                token@,
                role@,
            ),
            match slot_idx {
                Ok(i) => {
                    &&& i == first_free(old(self)@.slots)
                    &&& final(self)@ == old(self)@.submitted(i as int, requester, token@, role@)
                },
                Err(message) => if first_free(old(self)@.slots) < MAX_VALIDATION_SLOTS {
                    &&& message@ == request_error(token@, role@)
                    &&& final(self)@ == old(self)@.occupied(
                        first_free(old(self)@.slots) as int,
                        requester,
                    )
                } else {
                    &&& message@ == "No available validation slots (all busy)"@
                    &&& final(self)@ == old(self)@
                },
            },
    {
        let i: usize = match self.allocate_slot(requester.backend_pid, requester.now) {
            Ok(i) => i,
            Err(message) => {
                return Err(message);
            },
        };
        let ghost allocated = *self;
        self.slots[i].set_backend_latch(requester.latch);
        let ghost occupied = *self;
        proof {
            Self::lemma_one_slot(allocated, occupied, i as int);
            assert(occupied@ == old(self)@.occupied(i as int, requester));
        }
        match self.slots[i].set_request(token, role) {
            Ok(_) => {
                proof {
                    Self::lemma_one_slot(occupied, *self, i as int);
                }
                if !self.queue.contains(i) {
                    proof {
                        law_no_slot_is_dropped(self.queue@, i);
                    }
                    self.queue.enqueue(i);
                }
                assert(self@ == old(self)@.submitted(i as int, requester, token@, role@));
                Ok(i)
            },
            Err(message) => {
                proof {
                    Self::lemma_one_slot(occupied, *self, i as int);
                }
                Err(message)
            },
        }
    }

    /// Takes the response out of a slot once its backend has stopped waiting, and gives the slot
    /// back.
    pub fn collect(&mut self, slot_idx: usize, timed_out: bool) -> (outcome: Result<
        ValidationResult,
        String,
    >)
        requires
            old(self).wf(),
            slot_idx < MAX_VALIDATION_SLOTS,
        ensures
            final(self).wf(),
            final(self)@ == old(self)@.given_back(slot_idx as int),
            match outcome {
                Ok(result) => collected(old(self)@.slots[slot_idx as int], timed_out) == Ok::<
                    _,
                    Seq<char>,
                >(result@),
                Err(message) => collected(old(self)@.slots[slot_idx as int], timed_out) == Err::<
                    Identity,
                    _,
                >(message@),
            },
    {
        let outcome = if self.slots[slot_idx].is_response_ready() {
            let (success, authorized, authn_id, error_msg) = self.slots[slot_idx].get_response();
            if success {
                Ok(ValidationResult { authenticated_id: authn_id, authorized })
            } else {
                Err(error_msg)
            }
        } else if timed_out {
            let mut message = "Validation timeout after ".to_owned();
            append_decimal(&mut message, VALIDATION_TIMEOUT_MS);
            message.append(" ms");
            Err(message)
        } else {
            Err("Validation interrupted (postmaster died?)".to_owned())
        };
        self.slots[slot_idx].release();
        assert(self@ == old(self)@.given_back(slot_idx as int));
        outcome
    }

    /// Decides what the worker does at an event, and takes the slot that it deals with out of the
    /// queue.
    pub fn worker_step(&mut self, event: WorkerEvent) -> (action: WorkerAction)
        requires
            old(self).wf(),
        ensures
            final(self).wf(),
            action == worker_action(old(self)@.queue, event),
            action matches WorkerAction::Process(slot_idx) ==> slot_idx < MAX_VALIDATION_SLOTS,
            final(self)@ == (SharedView {
                queue: worker_queue(old(self)@.queue, event),
                ..old(self)@
            }),
    {
        let stops = match event {
            WorkerEvent::Started | WorkerEvent::Processed => false,
            WorkerEvent::Woken { postmaster_died } => postmaster_died,
        };
        if stops {
            return WorkerAction::Exit;
        }
        match self.queue.dequeue() {
            Some(slot_idx) => WorkerAction::Process(slot_idx),
            None => WorkerAction::Sleep(WORKER_SLEEP_MS),
        }
    }

    /// Starts on the request in a slot: reads it and counts it, if it is pending.
    pub fn begin_processing(&mut self, slot_idx: usize) -> (request: Option<(String, String)>)
        requires
            old(self).wf(),
            slot_idx < MAX_VALIDATION_SLOTS,
        ensures
            final(self).wf(),
            final(self)@ == old(self)@.begun(slot_idx as int),
            request is Some <==> old(self)@.slots[slot_idx as int].request_pending(),
            request matches Some((token, role)) ==> {
                &&& token@ == old(self)@.slots[slot_idx as int].token
                &&& role@ == old(self)@.slots[slot_idx as int].role
            },
    {
        let request = self.slots[slot_idx].get_request();
        if request.is_some() {
            self.statistics.total_validations = self.statistics.total_validations.wrapping_add(1);
        }
        assert(self@ == old(self)@.begun(slot_idx as int));
        request
    }

    /// Answers the request in a slot with the outcome of its validation, and counts the outcome.
    ///
    /// The answer goes to whatever request the slot holds by now. Where the backend stopped waiting
    /// meanwhile and the slot was taken again, that is not the request that was validated.
    pub fn finish_processing(
        &mut self,
        slot_idx: usize,
        outcome: Result<ValidationResult, ValidationError<String>>,
    ) -> (completion: Completion)
        requires
            old(self).wf(),
            slot_idx < MAX_VALIDATION_SLOTS,
        ensures
            final(self).wf(),
            final(self)@ == old(self)@.finished(slot_idx as int, outcome_view(outcome)),
            completion.wake == (if old(self)@.slots[slot_idx as int].backend_latch == 0 {
                None
            } else {
                Some(old(self)@.slots[slot_idx as int].backend_latch)
            }),
            completion.stored is Ok <==> outcome_fits(outcome_view(outcome)),
            completion.stored matches Err(message) ==> message@ == response_error(
                response_of(outcome_view(outcome)).2,
                response_of(outcome_view(outcome)).3,
            ),
    {
        proof {
            reveal_strlit("");
            assert(""@ == Seq::<char>::empty());
        }
        let stored = match outcome {
            Ok(result) => {
                let stored = self.slots[slot_idx].set_response(
                    true,
                    result.authorized,
                    result.authenticated_id.as_str(),
                    "",
                );
                proof {
                    Self::lemma_one_slot(*old(self), *self, slot_idx as int);
                }
                if stored.is_ok() {
                    self.statistics.successful_validations =
                        self.statistics.successful_validations.wrapping_add(1);
                }
                stored
            },
            Err(error) => {
                let stored = self.slots[slot_idx].set_response(
                    false,
                    false,
                    "",
                    error.message().as_str(),
                );
                proof {
                    Self::lemma_one_slot(*old(self), *self, slot_idx as int);
                }
                if stored.is_ok() {
                    self.statistics.failed_validations =
                        self.statistics.failed_validations.wrapping_add(1);
                }
                stored
            },
        };
        assert(self@ == old(self)@.finished(slot_idx as int, outcome_view(outcome)));
        Completion { wake: self.slots[slot_idx].backend_latch(), stored }
    }
}

} // verus!
