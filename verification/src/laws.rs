//! What holds of the steps taken together.
use crate::callback::{reply_to, ReplyView};
use crate::error::{error_text, ValidationError};
use crate::jwks::{discovery_url_text, usable_keys, CacheView, JwkView};
use crate::jwt::{header_kid, Refusal, RsaComponents};
use crate::queue::{law_no_slot_is_dropped, MAX_VALIDATION_SLOTS};
use crate::shared::{
    collected, first_free, first_free_from, outcome_fits, worker_action, worker_queue, worker_stops,
    Requester, SharedView, WorkerAction, WorkerEvent,
};
use crate::slot::{request_fits, SlotView};
use crate::validator::{
    after_fetch, claims_outcome, default_cooldown, issuer_of, kid_of, lemma_may_step, may_conclude, may_resume,
    may_step, next_step, resumption, subject_verdict, ClaimsView, Identity, StepView,
};
use vstd::prelude::*;

verus! {

/// The slot that is handed out is free, and every slot before it is in use; none is handed out
/// exactly if all are in use.
pub proof fn law_first_free_slot(slots: Seq<SlotView>)
    ensures
        first_free(slots) <= slots.len(),
        first_free(slots) < slots.len() ==> !slots[first_free(slots) as int].in_use,
        forall|j: int| 0 <= j < first_free(slots) ==> (#[trigger] slots[j]).in_use,
        first_free(slots) == slots.len() <==> forall|j: int|
            0 <= j < slots.len() ==> (#[trigger] slots[j]).in_use,
{
    lemma_first_free_from(slots, 0);
}

/// The same of the slots from `i` on.
proof fn lemma_first_free_from(slots: Seq<SlotView>, i: nat)
    requires
        i <= slots.len(),
    ensures
        i <= first_free_from(slots, i) <= slots.len(),
        first_free_from(slots, i) < slots.len() ==> !slots[first_free_from(
            slots,
            i,
        ) as int].in_use,
        forall|j: int| i <= j < first_free_from(slots, i) ==> (#[trigger] slots[j]).in_use,
    decreases slots.len() - i,
{
    if i < slots.len() && slots[i as int].in_use {
        lemma_first_free_from(slots, i + 1);
    }
}

/// A slot belongs to one backend at a time: while it is in use, it is not handed out again.
pub proof fn law_slot_in_use_is_not_handed_out(state: SharedView, i: int)
    requires
        state.valid(),
        0 <= i < MAX_VALIDATION_SLOTS,
        state.slots[i].in_use,
    ensures
        first_free(state.slots) != i,
{
    law_first_free_slot(state.slots);
}

/// The initial state is valid, and every step leads from a valid state to a valid state.
pub proof fn law_steps_keep_the_state_valid(
    state: SharedView,
    i: int,
    requester: Requester,
    token: Seq<char>,
    role: Seq<char>,
    outcome: Result<Identity, ValidationError<Seq<char>>>,
    event: WorkerEvent,
)
    requires
        state.valid(),
        0 <= i < MAX_VALIDATION_SLOTS,
    ensures
        SharedView::initial().valid(),
        state.allocated(i, requester.backend_pid, requester.now).valid(),
        state.occupied(i, requester).valid(),
        state.submitted(i, requester, token, role).valid(),
        state.begun(i).valid(),
        state.finished(i, outcome).valid(),
        state.given_back(i).valid(),
        (SharedView { queue: worker_queue(state.queue, event), ..state }).valid(),
{
}

/// A step on one slot leaves every other slot as it is.
pub proof fn law_steps_leave_other_slots_alone(
    state: SharedView,
    i: int,
    j: int,
    requester: Requester,
    token: Seq<char>,
    role: Seq<char>,
    outcome: Result<Identity, ValidationError<Seq<char>>>,
)
    requires
        state.valid(),
        0 <= i < MAX_VALIDATION_SLOTS,
        0 <= j < MAX_VALIDATION_SLOTS,
        i != j,
    ensures
        state.allocated(i, requester.backend_pid, requester.now).slots[j] == state.slots[j],
        state.occupied(i, requester).slots[j] == state.slots[j],
        state.submitted(i, requester, token, role).slots[j] == state.slots[j],
        state.begun(i).slots[j] == state.slots[j],
        state.finished(i, outcome).slots[j] == state.slots[j],
        state.given_back(i).slots[j] == state.slots[j],
{
}

/// A submitted request waits in its slot, as it was handed over, and the slot is queued, however
/// many others are: behind those that were queued before, or at the place that it still has from an
/// earlier use.
pub proof fn law_request_reaches_the_worker(
    state: SharedView,
    requester: Requester,
    token: Seq<char>,
    role: Seq<char>,
)
    requires
        state.valid(),
        first_free(state.slots) < MAX_VALIDATION_SLOTS,
        request_fits(token, role),
    ensures
        ({
            let i = first_free(state.slots) as int;
            let after = state.submitted(i, requester, token, role);
            &&& after.queue == if state.queue.contains(i as usize) {
                state.queue
            } else {
                state.queue.push(i as usize)
            }
            &&& after.queue.contains(i as usize)
            &&& after.slots[i].request_pending()
            &&& after.slots[i].token == token
            &&& after.slots[i].role == role
            &&& after.slots[i].backend_latch == requester.latch
        }),
{
    let slot_idx = first_free(state.slots) as usize;
    if !state.queue.contains(slot_idx) {
        law_no_slot_is_dropped(state.queue, slot_idx);
        assert(state.queue.push(slot_idx).last() == slot_idx);
    }
}

/// What a backend is told about an outcome.
pub open spec fn reported(outcome: Result<Identity, ValidationError<Seq<char>>>) -> Result<
    Identity,
    Seq<char>,
> {
    match outcome {
        Ok(identity) => Ok(identity),
        Err(error) => Err(error_text(error)),
    }
}

/// An answer that has room reaches the backend as it was given, a refusal with its message,
/// whether or not the backend's time was up by then.
pub proof fn law_answer_reaches_the_backend(
    state: SharedView,
    i: int,
    outcome: Result<Identity, ValidationError<Seq<char>>>,
    timed_out: bool,
)
    requires
        state.valid(),
        0 <= i < MAX_VALIDATION_SLOTS,
        outcome_fits(outcome),
    ensures
        collected(state.finished(i, outcome).slots[i], timed_out) == reported(outcome),
{
}

/// A request that has not been answered authenticates nobody.
pub proof fn law_unanswered_request_fails(slot: SlotView, timed_out: bool)
    requires
        !slot.response_ready,
    ensures
        collected(slot, timed_out) is Err,
{
}

/// A slot that has just been taken has no answer, whatever its last use left in it.
pub proof fn law_old_answers_are_not_seen(
    state: SharedView,
    i: int,
    requester: Requester,
    token: Seq<char>,
    role: Seq<char>,
    timed_out: bool,
)
    requires
        state.valid(),
        0 <= i < MAX_VALIDATION_SLOTS,
    ensures
        collected(state.submitted(i, requester, token, role).slots[i], timed_out) is Err,
{
}

/// A request is answered once: with its answer in the slot, or the slot given back, the worker
/// finds nothing to do there and counts nothing.
pub proof fn law_request_is_answered_once(
    state: SharedView,
    i: int,
    outcome: Result<Identity, ValidationError<Seq<char>>>,
)
    requires
        state.valid(),
        0 <= i < MAX_VALIDATION_SLOTS,
        outcome_fits(outcome),
    ensures
        !state.finished(i, outcome).slots[i].request_pending(),
        state.finished(i, outcome).begun(i) == state.finished(i, outcome),
        !state.given_back(i).slots[i].request_pending(),
        state.given_back(i).begun(i) == state.given_back(i),
{
}

/// A slot that has been given back is free, and can be handed out again.
pub proof fn law_slot_given_back_is_free(state: SharedView, i: int)
    requires
        state.valid(),
        0 <= i < MAX_VALIDATION_SLOTS,
    ensures
        !state.given_back(i).slots[i].in_use,
        first_free(state.given_back(i).slots) <= i,
{
    let slots = state.given_back(i).slots;
    law_first_free_slot(slots);
    assert(!slots[i].in_use);
}

/// One whole exchange: a backend submits a request while nothing is queued, the worker takes it,
/// finds the request as it was submitted, answers it, and the backend collects the answer. The
/// backend gets the worker's outcome, its slot is free again, the queue is empty, and no other slot
/// has changed.
pub proof fn law_exchange(
    state: SharedView,
    requester: Requester,
    token: Seq<char>,
    role: Seq<char>,
    event: WorkerEvent,
    outcome: Result<Identity, ValidationError<Seq<char>>>,
    timed_out: bool,
)
    requires
        state.valid(),
        state.queue.len() == 0,
        first_free(state.slots) < MAX_VALIDATION_SLOTS,
        request_fits(token, role),
        !worker_stops(event),
        outcome_fits(outcome),
    ensures
        ({
            let i = first_free(state.slots) as int;
            let submitted = state.submitted(i, requester, token, role);
            let taken = SharedView { queue: worker_queue(submitted.queue, event), ..submitted };
            let answered = taken.begun(i).finished(i, outcome);
            let end = answered.given_back(i);
            &&& worker_action(submitted.queue, event) == WorkerAction::Process(i as usize)
            &&& taken.slots[i].request_pending()
            &&& taken.slots[i].token == token
            &&& taken.slots[i].role == role
            &&& collected(answered.slots[i], timed_out) == reported(outcome)
            &&& !end.slots[i].in_use
            &&& end.queue == state.queue
            &&& forall|j: int|
                0 <= j < MAX_VALIDATION_SLOTS && j != i ==> end.slots[j] == state.slots[j]
        }),
{
}

/// One step of a backend or of the worker.
pub enum Step {
    /// A backend submits a request.
    Submit { requester: Requester, token: Seq<char>, role: Seq<char> },
    /// The worker decides what to do at an event.
    Work { event: WorkerEvent },
    /// The worker starts on the request in a slot.
    Begin { slot_idx: int },
    /// The worker answers the request in a slot.
    Finish { slot_idx: int, outcome: Result<Identity, ValidationError<Seq<char>>> },
    /// A backend collects its answer.
    Collect { slot_idx: int },
}

impl Step {
    /// Whether the step is on a slot that exists.
    pub open spec fn possible(self) -> bool {
        match self {
            Step::Submit { .. } | Step::Work { .. } => true,
            Step::Begin { slot_idx } => 0 <= slot_idx < MAX_VALIDATION_SLOTS,
            Step::Finish { slot_idx, .. } => 0 <= slot_idx < MAX_VALIDATION_SLOTS,
            Step::Collect { slot_idx } => 0 <= slot_idx < MAX_VALIDATION_SLOTS,
        }
    }

    /// Whether the step answers the request in this slot, or gives the slot back.
    pub open spec fn ends(self, i: int) -> bool {
        match self {
            Step::Finish { slot_idx, .. } => slot_idx == i,
            Step::Collect { slot_idx } => slot_idx == i,
            _ => false,
        }
    }

    /// Whether the worker takes the front of the queue with this step, if there is anything queued.
    pub open spec fn takes(self) -> bool {
        match self {
            Step::Work { event } => !worker_stops(event),
            _ => false,
        }
    }
}

/// The state after a step.
pub open spec fn after_step(state: SharedView, step: Step) -> SharedView {
    match step {
        Step::Submit { requester, token, role } => {
            let i = first_free(state.slots) as int;
            if i >= MAX_VALIDATION_SLOTS {
                state
            } else if request_fits(token, role) {
                state.submitted(i, requester, token, role)
            } else {
                state.occupied(i, requester)
            }
        },
        Step::Work { event } => SharedView { queue: worker_queue(state.queue, event), ..state },
        Step::Begin { slot_idx } => state.begun(slot_idx),
        Step::Finish { slot_idx, outcome } => state.finished(slot_idx, outcome),
        Step::Collect { slot_idx } => state.given_back(slot_idx),
    }
}

/// The state after a sequence of steps, in whatever order backends and worker take them.
pub open spec fn after_steps(state: SharedView, steps: Seq<Step>) -> SharedView
    decreases steps.len(),
{
    if steps.len() == 0 {
        state
    } else {
        after_step(after_steps(state, steps.drop_last()), steps.last())
    }
}

/// How many of the steps take the front of the queue.
pub open spec fn takes_in(steps: Seq<Step>) -> nat
    decreases steps.len(),
{
    if steps.len() == 0 {
        0
    } else {
        takes_in(steps.drop_last()) + if steps.last().takes() {
            1nat
        } else {
            0nat
        }
    }
}

/// Whatever happens, the state stays valid; in particular no slot is ever queued twice.
pub proof fn law_every_reachable_state_is_valid(state: SharedView, steps: Seq<Step>)
    requires
        state.valid(),
        forall|k: int| 0 <= k < steps.len() ==> (#[trigger] steps[k]).possible(),
    ensures
        after_steps(state, steps).valid(),
        after_steps(state, steps).queue.no_duplicates(),
    decreases steps.len(),
{
    if steps.len() > 0 {
        law_every_reachable_state_is_valid(state, steps.drop_last());
        let before = after_steps(state, steps.drop_last());
        law_first_free_slot(before.slots);
        assert(steps[steps.len() - 1].possible());
        assert(after_step(before, steps.last()).valid());
    }
}

/// No request is dropped: whatever has happened since the start, a request that gets a slot, and has
/// room in it, is queued for the worker.
pub proof fn law_no_request_is_dropped(
    steps: Seq<Step>,
    requester: Requester,
    token: Seq<char>,
    role: Seq<char>,
)
    requires
        forall|k: int| 0 <= k < steps.len() ==> (#[trigger] steps[k]).possible(),
        first_free(after_steps(SharedView::initial(), steps).slots) < MAX_VALIDATION_SLOTS,
        request_fits(token, role),
    ensures
        ({
            let before = after_steps(SharedView::initial(), steps);
            let i = first_free(before.slots) as int;
            let after = after_step(before, Step::Submit { requester, token, role });
            &&& after == before.submitted(i, requester, token, role)
            &&& after.queue.contains(i as usize)
            &&& after.slots[i].request_pending()
        }),
{
    law_every_reachable_state_is_valid(SharedView::initial(), steps);
    law_request_reaches_the_worker(
        after_steps(SharedView::initial(), steps),
        requester,
        token,
        role,
    );
}

/// A slot in use is private to its exchange: whatever else happens, it stays as it is until its
/// request is answered or the slot is given back.
pub proof fn law_slot_in_use_is_private(state: SharedView, steps: Seq<Step>, i: int)
    requires
        state.valid(),
        0 <= i < MAX_VALIDATION_SLOTS,
        state.slots[i].in_use,
        forall|k: int|
            0 <= k < steps.len() ==> (#[trigger] steps[k]).possible() && !steps[k].ends(i),
    ensures
        after_steps(state, steps).slots[i] == state.slots[i],
    decreases steps.len(),
{
    if steps.len() > 0 {
        let rest = steps.drop_last();
        law_slot_in_use_is_private(state, rest, i);
        law_every_reachable_state_is_valid(state, rest);
        law_slot_in_use_is_not_handed_out(after_steps(state, rest), i);
        assert(steps[steps.len() - 1].possible() && !steps[steps.len() - 1].ends(i));
    }
}

/// An exchange among others: whatever other backends and the worker do in between, the worker
/// finds the request as it was submitted, and the backend gets the worker's outcome, provided only
/// that nobody else answers the request or gives the slot back.
pub proof fn law_exchange_among_others(
    state: SharedView,
    requester: Requester,
    token: Seq<char>,
    role: Seq<char>,
    until_answered: Seq<Step>,
    outcome: Result<Identity, ValidationError<Seq<char>>>,
    until_collected: Seq<Step>,
    timed_out: bool,
)
    requires
        state.valid(),
        first_free(state.slots) < MAX_VALIDATION_SLOTS,
        request_fits(token, role),
        outcome_fits(outcome),
        forall|k: int|
            0 <= k < until_answered.len() ==> (#[trigger] until_answered[k]).possible()
                && !until_answered[k].ends(first_free(state.slots) as int),
        forall|k: int|
            0 <= k < until_collected.len() ==> (#[trigger] until_collected[k]).possible()
                && !until_collected[k].ends(first_free(state.slots) as int),
    ensures
        ({
            let i = first_free(state.slots) as int;
            let waiting = after_steps(
                state.submitted(i, requester, token, role),
                until_answered,
            );
            let answered = after_steps(waiting.finished(i, outcome), until_collected);
            &&& waiting.slots[i].request_pending()
            &&& waiting.slots[i].token == token
            &&& waiting.slots[i].role == role
            &&& collected(answered.slots[i], timed_out) == reported(outcome)
        }),
{
    let i = first_free(state.slots) as int;
    let submitted = state.submitted(i, requester, token, role);
    assert(submitted.valid());
    law_slot_in_use_is_private(submitted, until_answered, i);
    law_every_reachable_state_is_valid(submitted, until_answered);
    let finished = after_steps(submitted, until_answered).finished(i, outcome);
    assert(finished.valid());
    law_slot_in_use_is_private(finished, until_collected, i);
}

/// Queued slots keep their order, whatever arrives behind them: what is queued at place `p` is at
/// the front once the worker has taken `p` others.
pub proof fn law_queued_slot_comes_to_the_front(state: SharedView, steps: Seq<Step>, p: int)
    requires
        state.valid(),
        0 <= p < state.queue.len(),
        forall|k: int| 0 <= k < steps.len() ==> (#[trigger] steps[k]).possible(),
        takes_in(steps) <= p,
    ensures
        p - takes_in(steps) < after_steps(state, steps).queue.len(),
        after_steps(state, steps).queue[p - takes_in(steps)] == state.queue[p],
    decreases steps.len(),
{
    if steps.len() > 0 {
        law_queued_slot_comes_to_the_front(state, steps.drop_last(), p);
    }
}

/// Nobody is authenticated without a token that checks out: where a validation succeeds at once,
/// the issuer is configured, the token names a key that the validator has, the token checks out
/// with that key, its claims have the right form, the identity is the token's subject, and it is
/// authorized.
pub proof fn law_accepted_token_is_authentic(
    cache: CacheView,
    setting: Option<Seq<u8>>,
    token: Seq<char>,
    role: Seq<char>,
    claims: Result<ClaimsView, Seq<char>>,
    now: u128,
    identity: Identity,
)
    requires
        may_step(cache, setting, token, role, claims, now, StepView::Finished(Ok(identity))),
    ensures
        issuer_of(setting) is Ok,
        header_kid(token) is Ok,
        header_kid(token)->Ok_0 is Some,
        ({
            let kid = header_kid(token)->Ok_0->0;
            &&& cache.keys.contains_key(kid)
            &&& subject_verdict(token, cache.keys[kid]) == Ok::<_, Refusal<Seq<char>>>(
                Some(identity.authenticated_id),
            )
        }),
        claims is Ok && claims->Ok_0.sub == identity.authenticated_id,
        identity.authorized,
{
}

/// The same where the keys had to be fetched: the key is then among those that were fetched.
pub proof fn law_accepted_token_is_authentic_after_fetch(
    cache: CacheView,
    fetched: Result<Seq<JwkView>, Seq<char>>,
    now: u128,
    token: Seq<char>,
    claims: Result<ClaimsView, Seq<char>>,
    kid: Seq<char>,
    identity: Identity,
)
    requires
        may_resume(fetched, token, claims, kid, Ok(identity)),
    ensures
        fetched is Ok,
        ({
            let keys = after_fetch(cache, fetched, now).keys;
            &&& keys.contains_key(kid)
            &&& subject_verdict(token, keys[kid]) == Ok::<_, Refusal<Seq<char>>>(
                Some(identity.authenticated_id),
            )
        }),
        claims is Ok && claims->Ok_0.sub == identity.authenticated_id,
        identity.authorized,
{
}

/// Where a validation asked for the keys and was then resumed with them: it asked because the issuer
/// is configured and the token names a key that the validator did not have, it asked by way of that
/// issuer's discovery document, and the key that the token was accepted with is the one it names.
pub proof fn law_fetched_key_is_the_named_one(
    before: CacheView,
    setting: Option<Seq<u8>>,
    token: Seq<char>,
    role: Seq<char>,
    claims: Result<ClaimsView, Seq<char>>,
    asked_at: u128,
    kid: Seq<char>,
    discovery_url: Seq<char>,
    fetched: Result<Seq<JwkView>, Seq<char>>,
    fetched_at: u128,
    identity: Identity,
)
    requires
        may_step(
            before,
            setting,
            token,
            role,
            claims,
            asked_at,
            StepView::FetchKeys { kid, discovery_url },
        ),
        may_resume(fetched, token, claims, kid, Ok(identity)),
    ensures
        issuer_of(setting) is Ok,
        discovery_url == discovery_url_text(issuer_of(setting)->Ok_0),
        header_kid(token) == Ok::<_, Seq<char>>(Some(kid)),
        !before.keys.contains_key(kid),
        ({
            let keys = after_fetch(before, fetched, fetched_at).keys;
            &&& keys.contains_key(kid)
            &&& subject_verdict(token, keys[kid]) == Ok::<_, Refusal<Seq<char>>>(
                Some(identity.authenticated_id),
            )
        }),
        claims is Ok && claims->Ok_0.sub == identity.authenticated_id,
        identity.authorized,
{
    law_accepted_token_is_authentic_after_fetch(
        before,
        fetched,
        fetched_at,
        token,
        claims,
        kid,
        identity,
    );
}

/// A whole validation, with the keys fetched where that is asked for: its outcome, and the cache
/// afterwards, when the system's clock reads `clock`.
pub open spec fn validated(
    cache: CacheView,
    setting: Option<Seq<u8>>,
    token: Seq<char>,
    role: Seq<char>,
    claims: Result<ClaimsView, Seq<char>>,
    asked_at: u128,
    fetched: Result<Seq<JwkView>, Seq<char>>,
    fetched_at: u128,
    clock: u64,
) -> (Result<Identity, ValidationError<Seq<char>>>, CacheView) {
    match next_step(cache, setting, token, role, claims, asked_at, clock) {
        StepView::Finished(outcome) => (outcome, cache),
        StepView::FetchKeys { kid, .. } => (
            resumption(fetched, token, claims, kid, clock),
            after_fetch(cache, fetched, fetched_at),
        ),
    }
}

/// The role plays no part: for any two roles, with all else the same, the clock included, a
/// validation comes to the same step, ends in the same outcome and leaves the same cache. And
/// whatever the clock says, what may come of it for one role may for the other.
pub proof fn law_role_plays_no_part(
    cache: CacheView,
    setting: Option<Seq<u8>>,
    token: Seq<char>,
    role: Seq<char>,
    other_role: Seq<char>,
    claims: Result<ClaimsView, Seq<char>>,
    asked_at: u128,
    fetched: Result<Seq<JwkView>, Seq<char>>,
    fetched_at: u128,
    clock: u64,
)
    ensures
        next_step(cache, setting, token, role, claims, asked_at, clock) == next_step(
            cache,
            setting,
            token,
            other_role,
            claims,
            asked_at,
            clock,
        ),
        validated(
            cache,
            setting,
            token,
            role,
            claims,
            asked_at,
            fetched,
            fetched_at,
            clock,
        ) == validated(
            cache,
            setting,
            token,
            other_role,
            claims,
            asked_at,
            fetched,
            fetched_at,
            clock,
        ),
        forall|step: StepView|
            may_step(cache, setting, token, role, claims, asked_at, step) <==> may_step(
                cache,
                setting,
                token,
                other_role,
                claims,
                asked_at,
                step,
            ),
{
    assert forall|step: StepView|
        may_step(cache, setting, token, role, claims, asked_at, step) <==> may_step(
            cache,
            setting,
            token,
            other_role,
            claims,
            asked_at,
            step,
        ) by {
        lemma_may_step(cache, setting, token, role, claims, asked_at, step);
        lemma_may_step(cache, setting, token, other_role, claims, asked_at, step);
    }
}

/// The clock matters only to a token that the library finds in order: of any other, a validation that
/// finishes at once has one outcome.
pub proof fn law_clock_matters_to_sound_tokens_only(
    cache: CacheView,
    setting: Option<Seq<u8>>,
    token: Seq<char>,
    role: Seq<char>,
    claims: Result<ClaimsView, Seq<char>>,
    now: u128,
    step: StepView,
    other_step: StepView,
)
    requires
        may_step(cache, setting, token, role, claims, now, step),
        may_step(cache, setting, token, role, claims, now, other_step),
        ({
            let kid = kid_of(header_kid(token))->Ok_0;
            kid_of(header_kid(token)) is Ok && cache.keys.contains_key(kid) ==> subject_verdict(
                token,
                cache.keys[kid],
            ) is Err
        }),
    ensures
        step == other_step,
{
}

/// A token that checks out, and whose claims have the right form, is accepted for its subject,
/// unless it has expired.
pub proof fn law_sound_token_fails_only_as_expired(
    token: Seq<char>,
    key: RsaComponents,
    claims: ClaimsView,
    outcome: Result<Identity, ValidationError<Seq<char>>>,
)
    requires
        may_conclude(token, key, Ok(claims), outcome),
        subject_verdict(token, key) == Ok::<_, Refusal<Seq<char>>>(Some(claims.sub)),
    ensures
        outcome == Ok::<_, ValidationError<Seq<char>>>(
            Identity { authenticated_id: claims.sub, authorized: true },
        ) || outcome == Err::<Identity, _>(ValidationError::InvalidToken("ExpiredSignature"@)),
{
}

/// A token that the library rejects with a key is refused, whatever the clock says, and with the
/// library's own reason, unless it was rejected for claims that do not even have the right form.
/// In particular a forged token is not called expired.
pub proof fn law_rejected_token_is_refused(
    token: Seq<char>,
    key: RsaComponents,
    claims: Result<ClaimsView, Seq<char>>,
    outcome: Result<Identity, ValidationError<Seq<char>>>,
)
    requires
        may_conclude(token, key, claims, outcome),
        subject_verdict(token, key) is Err,
    ensures
        outcome is Err,
        outcome == claims_outcome(subject_verdict(token, key), claims),
        subject_verdict(token, key)->Err_0 matches Refusal::Token(message) ==> outcome == Err::<
            Identity,
            _,
        >(ValidationError::InvalidToken(message)),
{
}

/// A token whose claims do not have the right form is refused for that, expired or not, unless it is
/// rejected whatever its claims are.
pub proof fn law_malformed_claims_are_refused(
    token: Seq<char>,
    key: RsaComponents,
    message: Seq<char>,
    outcome: Result<Identity, ValidationError<Seq<char>>>,
)
    requires
        may_conclude(token, key, Err(message), outcome),
    ensures
        outcome == Err::<Identity, _>(ValidationError::InvalidClaims(message)) || (subject_verdict(
            token,
            key,
        ) is Err && subject_verdict(token, key)->Err_0 is Token),
        outcome is Err,
{
}

/// A key that the validator has is never fetched again.
pub proof fn law_known_key_is_not_fetched(
    cache: CacheView,
    setting: Option<Seq<u8>>,
    token: Seq<char>,
    role: Seq<char>,
    claims: Result<ClaimsView, Seq<char>>,
    now: u128,
    step: StepView,
)
    requires
        may_step(cache, setting, token, role, claims, now, step),
        kid_of(header_kid(token)) is Ok,
        cache.keys.contains_key(kid_of(header_kid(token))->Ok_0),
    ensures
        step is Finished,
{
}

/// Unknown keys do not make the validator fetch more often than the cooldown allows: within the
/// cooldown after a fetch, no token leads to another.
pub proof fn law_no_fetch_within_the_cooldown(
    cache: CacheView,
    jwks: Seq<JwkView>,
    fetched_at: u128,
    setting: Option<Seq<u8>>,
    token: Seq<char>,
    role: Seq<char>,
    claims: Result<ClaimsView, Seq<char>>,
    now: u128,
    step: StepView,
)
    requires
        fetched_at <= now,
        now - fetched_at < cache.refresh_cooldown,
        may_step(after_fetch(cache, Ok(jwks), fetched_at), setting, token, role, claims, now, step),
    ensures
        step is Finished,
{
}

/// With the default cooldown the keys are fetched at most once a minute: a token that names a key
/// which is not among those that were fetched, under a configured issuer, leads to another fetch
/// exactly when a minute has passed since.
pub proof fn law_unknown_key_is_fetched_after_a_minute(
    cache: CacheView,
    jwks: Seq<JwkView>,
    fetched_at: u128,
    setting: Option<Seq<u8>>,
    token: Seq<char>,
    role: Seq<char>,
    claims: Result<ClaimsView, Seq<char>>,
    now: u128,
    step: StepView,
)
    requires
        cache.refresh_cooldown == default_cooldown(),
        fetched_at <= now,
        issuer_of(setting) is Ok,
        kid_of(header_kid(token)) is Ok,
        !usable_keys(jwks).contains_key(kid_of(header_kid(token))->Ok_0),
        may_step(after_fetch(cache, Ok(jwks), fetched_at), setting, token, role, claims, now, step),
    ensures
        after_fetch(cache, Ok(jwks), fetched_at).refresh_cooldown == default_cooldown(),
        step is FetchKeys <==> now - fetched_at >= 60 * 1_000_000_000,
        step is Finished ==> step == StepView::Finished(
            Err(ValidationError::RefreshOnCooldown(kid_of(header_kid(token))->Ok_0)),
        ),
{
}

/// A failed attempt to fetch the keys changes nothing: the keys are as they were, and so is the
/// time from which the next attempt is allowed.
pub proof fn law_failed_fetch_changes_nothing(
    cache: CacheView,
    message: Seq<char>,
    fetched_at: u128,
    now: u128,
)
    ensures
        after_fetch(cache, Err(message), fetched_at) == cache,
        after_fetch(cache, Err(message), fetched_at).can_refresh(now) == cache.can_refresh(now),
{
}

/// The server is told that a client is authorized exactly if the worker said so of an identity that
/// can be handed over, and is then given that identity.
pub proof fn law_authorization_comes_from_the_worker(outcome: Result<Identity, Seq<char>>)
    ensures
        reply_to(outcome).authorized <==> outcome is Ok && outcome->Ok_0.authorized
            && !outcome->Ok_0.authenticated_id.contains('\0'),
        reply_to(outcome).authorized ==> reply_to(outcome) == (ReplyView {
            completed: true,
            authorized: true,
            authn_id: Some(outcome->Ok_0.authenticated_id),
        }),
{
}

/// From the token to the reply: where the server is told that a client is authorized,
/// the token checks out with the key that it names, and the identity is its subject.
pub proof fn law_authorized_client_is_the_subject(
    cache: CacheView,
    setting: Option<Seq<u8>>,
    token: Seq<char>,
    role: Seq<char>,
    claims: Result<ClaimsView, Seq<char>>,
    now: u128,
    outcome: Result<Identity, ValidationError<Seq<char>>>,
)
    requires
        may_step(cache, setting, token, role, claims, now, StepView::Finished(outcome)),
        reply_to(reported(outcome)).authorized,
    ensures
        ({
            let kid = header_kid(token)->Ok_0->0;
            let subject = reply_to(reported(outcome)).authn_id->0;
            &&& header_kid(token) == Ok::<_, Seq<char>>(Some(kid))
            &&& cache.keys.contains_key(kid)
            &&& reply_to(reported(outcome)).authn_id == Some(subject)
            &&& subject_verdict(token, cache.keys[kid]) == Ok::<_, Refusal<Seq<char>>>(Some(subject))
        }),
{
    law_accepted_token_is_authentic(cache, setting, token, role, claims, now, outcome->Ok_0);
}

/// The same where the keys had to be fetched: the key is then among those that were fetched.
pub proof fn law_authorized_client_is_the_subject_after_fetch(
    before: CacheView,
    setting: Option<Seq<u8>>,
    token: Seq<char>,
    role: Seq<char>,
    claims: Result<ClaimsView, Seq<char>>,
    asked_at: u128,
    kid: Seq<char>,
    discovery_url: Seq<char>,
    fetched: Result<Seq<JwkView>, Seq<char>>,
    fetched_at: u128,
    outcome: Result<Identity, ValidationError<Seq<char>>>,
)
    requires
        may_step(
            before,
            setting,
            token,
            role,
            claims,
            asked_at,
            StepView::FetchKeys { kid, discovery_url },
        ),
        may_resume(fetched, token, claims, kid, outcome),
        reply_to(reported(outcome)).authorized,
    ensures
        ({
            let keys = after_fetch(before, fetched, fetched_at).keys;
            let subject = reply_to(reported(outcome)).authn_id->0;
            &&& header_kid(token) == Ok::<_, Seq<char>>(Some(kid))
            &&& keys.contains_key(kid)
            &&& reply_to(reported(outcome)).authn_id == Some(subject)
            &&& subject_verdict(token, keys[kid]) == Ok::<_, Refusal<Seq<char>>>(Some(subject))
        }),
{
    law_fetched_key_is_the_named_one(
        before,
        setting,
        token,
        role,
        claims,
        asked_at,
        kid,
        discovery_url,
        fetched,
        fetched_at,
        outcome->Ok_0,
    );
}

} // verus!
