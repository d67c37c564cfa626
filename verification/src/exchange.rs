//! What an exchange between a backend and the worker does, said of its inputs and results alone:
//! the fields of the slots, the queue, the counts and the reply.
use crate::callback::{answer_view, denial, reply_to, role_text, CallbackReply, PG_OAUTH_VALIDATOR_MAGIC};
use crate::error::{error_text, ValidationError};
use crate::queue::{enqueued, law_no_slot_is_dropped};
use crate::shared::{
    collected, first_free, outcome_fits, response_of, worker_action, worker_queue, Requester,
    SharedView, WorkerAction, WorkerEvent,
};
use crate::slot::{request_error, request_fits, response_error, response_fits, SlotView};
use crate::text::decimal;
use crate::validator::{Identity, ValidationResult};
use vstd::prelude::*;
use vstd::string::*;
use vstd::utf8::*;

verus! {

/// The worker stops exactly if the postmaster died. Otherwise it sleeps exactly if nothing is queued,
/// and else deals with the slot at the front, whatever woke it and however many are queued.
pub proof fn law_worker_deals_with_the_front(queue: Seq<usize>, event: WorkerEvent)
    ensures
        worker_action(queue, event) is Exit <==> event == (WorkerEvent::Woken {
            postmaster_died: true,
        }),
        worker_action(queue, event) is Sleep <==> queue.len() == 0 && event != (
        WorkerEvent::Woken { postmaster_died: true }),
        worker_action(queue, event) matches WorkerAction::Sleep(timeout_ms) ==> timeout_ms == 1000,
        worker_action(queue, event) matches WorkerAction::Process(slot_idx) ==> slot_idx
            == queue[0],
{
}

/// Nothing leaves the queue but the slot that the worker deals with: what was queued is that slot, if
/// there is one, and what stays queued.
pub proof fn law_nothing_leaves_the_queue_unprocessed(queue: Seq<usize>, event: WorkerEvent)
    ensures
        queue == (match worker_action(queue, event) {
            WorkerAction::Process(slot_idx) => seq![slot_idx] + worker_queue(queue, event),
            _ => worker_queue(queue, event),
        }),
{
}

/// The queue after the worker has come by at each of the events.
pub open spec fn queue_after(queue: Seq<usize>, events: Seq<WorkerEvent>) -> Seq<usize>
    decreases events.len(),
{
    if events.len() == 0 {
        queue
    } else {
        worker_queue(queue_after(queue, events.drop_last()), events.last())
    }
}

/// The worker deals with every queued slot, in order of arrival: while the postmaster lives, it comes
/// to what was queued at place `k` after `k` others, and sleeps only once it has come to all.
pub proof fn law_worker_deals_with_all_in_order(
    queue: Seq<usize>,
    events: Seq<WorkerEvent>,
    next: WorkerEvent,
)
    requires
        forall|k: int|
            0 <= k < events.len() ==> #[trigger] events[k] != (WorkerEvent::Woken {
                postmaster_died: true,
            }),
        next != (WorkerEvent::Woken { postmaster_died: true }),
    ensures
        queue_after(queue, events) == (if events.len() <= queue.len() {
            queue.skip(events.len() as int)
        } else {
            Seq::empty()
        }),
        worker_action(queue_after(queue, events), next) == (if events.len() < queue.len() {
            WorkerAction::Process(queue[events.len() as int])
        } else {
            WorkerAction::Sleep(1000)
        }),
    decreases events.len(),
{
    if events.len() > 0 {
        let before = events.drop_last();
        assert forall|k: int| 0 <= k < before.len() implies #[trigger] before[k] != (
        WorkerEvent::Woken { postmaster_died: true }) by {
            assert(before[k] == events[k]);
        }
        law_worker_deals_with_all_in_order(queue, before, next);
        law_worker_deals_with_the_front(queue_after(queue, before), events.last());
        law_nothing_leaves_the_queue_unprocessed(queue_after(queue, before), events.last());
        assert(events[events.len() - 1] == events.last());
        assert(queue_after(queue, events) == (if events.len() <= queue.len() {
            queue.skip(events.len() as int)
        } else {
            Seq::empty()
        }));
    }
    law_worker_deals_with_the_front(queue_after(queue, events), next);
}

/// An arrival goes to the end of the queue, behind all others, as long as fewer than a hundred are
/// queued, and changes nothing after that.
pub proof fn law_arrival_goes_to_the_end(queue: Seq<usize>, slot_idx: usize)
    ensures
        queue.len() < 100 ==> enqueued(queue, slot_idx) == queue + seq![slot_idx],
        queue.len() >= 100 ==> enqueued(queue, slot_idx) == queue,
{
}

/// At the start all hundred slots are free and without a response, nothing is queued and nothing has
/// been counted.
pub proof fn law_start(i: int)
    requires
        0 <= i < 100,
    ensures
        SharedView::initial().slots.len() == 100,
        !SharedView::initial().slots[i].in_use,
        !SharedView::initial().slots[i].response_ready,
        SharedView::initial().slots[i].backend_pid == 0,
        SharedView::initial().slots[i].backend_latch == 0,
        SharedView::initial().slots[i].request_time == 0,
        SharedView::initial().slots[i].token.len() == 0,
        SharedView::initial().slots[i].role.len() == 0,
        !SharedView::initial().slots[i].success,
        !SharedView::initial().slots[i].authorized,
        SharedView::initial().slots[i].authn_id.len() == 0,
        SharedView::initial().slots[i].error_msg.len() == 0,
        SharedView::initial().queue.len() == 0,
        SharedView::initial().statistics.total_validations == 0,
        SharedView::initial().statistics.successful_validations == 0,
        SharedView::initial().statistics.failed_validations == 0,
        first_free(SharedView::initial().slots) == 0,
{
}

/// Whether two states agree in all slots but the one at `i`.
pub open spec fn agree_elsewhere(state: SharedView, other: SharedView, i: int) -> bool {
    &&& state.slots.len() == other.slots.len()
    &&& forall|j: int|
        0 <= j < state.slots.len() && j != i ==> #[trigger] state.slots[j] == other.slots[j]
}

/// Writing a request into a slot changes its token and its role, and writing a response what belongs
/// to the response, whatever they are; a response is ready from then on.
pub proof fn law_writing_into_a_slot(
    slot: SlotView,
    token: Seq<char>,
    role: Seq<char>,
    success: bool,
    authorized: bool,
    authn_id: Seq<char>,
    error_msg: Seq<char>,
)
    ensures
        ({
            let after = slot.with_request(token, role);
            &&& after.token == token
            &&& after.role == role
            &&& after.in_use == slot.in_use
            &&& after.backend_pid == slot.backend_pid
            &&& after.request_time == slot.request_time
            &&& after.backend_latch == slot.backend_latch
            &&& after.response_ready == slot.response_ready
            &&& after.success == slot.success
            &&& after.authorized == slot.authorized
            &&& after.authn_id == slot.authn_id
            &&& after.error_msg == slot.error_msg
        }),
        ({
            let after = slot.with_response(success, authorized, authn_id, error_msg);
            &&& after.response_ready
            &&& after.success == success
            &&& after.authorized == authorized
            &&& after.authn_id == authn_id
            &&& after.error_msg == error_msg
            &&& after.in_use == slot.in_use
            &&& after.backend_pid == slot.backend_pid
            &&& after.request_time == slot.request_time
            &&& after.backend_latch == slot.backend_latch
            &&& after.token == slot.token
            &&& after.role == slot.role
        }),
{
}

/// Taking a slot and giving it back change what is said of its use, and leave its texts alone; with
/// the taking, the last response is withdrawn.
pub proof fn law_using_a_slot(slot: SlotView, backend_pid: i32, now: i64)
    ensures
        ({
            let after = slot.acquired(backend_pid, now);
            &&& after.in_use
            &&& after.backend_pid == backend_pid
            &&& after.request_time == now
            &&& !after.response_ready
            &&& after.backend_latch == slot.backend_latch
            &&& after.token == slot.token
            &&& after.role == slot.role
            &&& after.success == slot.success
            &&& after.authorized == slot.authorized
            &&& after.authn_id == slot.authn_id
            &&& after.error_msg == slot.error_msg
        }),
        ({
            let after = slot.released();
            &&& !after.in_use
            &&& after.backend_pid == 0
            &&& after.request_time == slot.request_time
            &&& after.response_ready == slot.response_ready
            &&& after.backend_latch == slot.backend_latch
            &&& after.token == slot.token
            &&& after.role == slot.role
            &&& after.success == slot.success
            &&& after.authorized == slot.authorized
            &&& after.authn_id == slot.authn_id
            &&& after.error_msg == slot.error_msg
        }),
        slot.request_pending() <==> (slot.in_use && !slot.response_ready),
{
}

/// Taking a slot marks it as in use, with the backend's process and the time, and withdraws the
/// response of its last use. Nothing else changes.
pub proof fn law_taking_a_slot(state: SharedView, i: int, backend_pid: i32, now: i64)
    requires
        0 <= i < state.slots.len(),
    ensures
        ({
            let after = state.allocated(i, backend_pid, now);
            let slot = after.slots[i];
            &&& agree_elsewhere(state, after, i)
            &&& after.queue == state.queue
            &&& after.statistics == state.statistics
            &&& slot.in_use
            &&& slot.backend_pid == backend_pid
            &&& slot.request_time == now
            &&& !slot.response_ready
            &&& slot.backend_latch == state.slots[i].backend_latch
            &&& slot.token == state.slots[i].token
            &&& slot.role == state.slots[i].role
            &&& slot.success == state.slots[i].success
            &&& slot.authorized == state.slots[i].authorized
            &&& slot.authn_id == state.slots[i].authn_id
            &&& slot.error_msg == state.slots[i].error_msg
        }),
{
}

/// A request that has no room leaves the slot taken, with the backend's latch, and nothing queued.
pub proof fn law_request_without_room(state: SharedView, i: int, requester: Requester)
    requires
        0 <= i < state.slots.len(),
    ensures
        ({
            let after = state.occupied(i, requester);
            let slot = after.slots[i];
            &&& agree_elsewhere(state, after, i)
            &&& after.queue == state.queue
            &&& after.statistics == state.statistics
            &&& slot.in_use
            &&& slot.backend_pid == requester.backend_pid
            &&& slot.request_time == requester.now
            &&& slot.backend_latch == requester.latch
            &&& !slot.response_ready
            &&& slot.token == state.slots[i].token
            &&& slot.role == state.slots[i].role
            &&& slot.success == state.slots[i].success
            &&& slot.authorized == state.slots[i].authorized
            &&& slot.authn_id == state.slots[i].authn_id
            &&& slot.error_msg == state.slots[i].error_msg
        }),
{
}

/// A submitted request is in its slot as it was handed over, with whom to wake and without a
/// response, and the slot is queued once: at the end, or where it is still queued. Nothing else
/// changes.
pub proof fn law_submitting(
    state: SharedView,
    i: int,
    requester: Requester,
    token: Seq<char>,
    role: Seq<char>,
)
    requires
        state.valid(),
        0 <= i < 100,
    ensures
        ({
            let after = state.submitted(i, requester, token, role);
            let slot = after.slots[i];
            &&& agree_elsewhere(state, after, i)
            &&& after.statistics == state.statistics
            &&& state.queue.contains(i as usize) ==> after.queue == state.queue
            &&& !state.queue.contains(i as usize) ==> after.queue == state.queue + seq![i as usize]
            &&& slot.in_use
            &&& slot.backend_pid == requester.backend_pid
            &&& slot.request_time == requester.now
            &&& slot.backend_latch == requester.latch
            &&& slot.token == token
            &&& slot.role == role
            &&& !slot.response_ready
            &&& slot.success == state.slots[i].success
            &&& slot.authorized == state.slots[i].authorized
            &&& slot.authn_id == state.slots[i].authn_id
            &&& slot.error_msg == state.slots[i].error_msg
        }),
{
    if !state.queue.contains(i as usize) {
        law_no_slot_is_dropped(state.queue, i as usize);
    }
}

/// The number after `count`, of those that a count can have.
pub open spec fn one_more(count: u64) -> int {
    (count + 1) % 0x1_0000_0000_0000_0000
}

/// Starting on a slot counts one validation if it is in use and without a response, and changes
/// nothing else.
pub proof fn law_starting_on_a_slot(state: SharedView, i: int)
    ensures
        ({
            let after = state.begun(i);
            let waiting = state.slots[i].in_use && !state.slots[i].response_ready;
            &&& after.slots == state.slots
            &&& after.queue == state.queue
            &&& after.statistics.successful_validations == state.statistics.successful_validations
            &&& after.statistics.failed_validations == state.statistics.failed_validations
            &&& after.statistics.total_validations == if waiting {
                one_more(state.statistics.total_validations)
            } else {
                state.statistics.total_validations as int
            }
        }),
        state.slots[i].request_pending() <==> (state.slots[i].in_use
            && !state.slots[i].response_ready),
{
}

/// An identity of up to 256 bytes is put into the slot as the response, and counted as a success;
/// nothing else of the slot or the state changes. A larger one changes nothing.
pub proof fn law_answering_with_an_identity(state: SharedView, i: int, identity: Identity)
    requires
        0 <= i < state.slots.len(),
    ensures
        ({
            let after = state.finished(i, Ok(identity));
            let before = state.slots[i];
            let slot = after.slots[i];
            if encode_utf8(identity.authenticated_id).len() <= 256 {
                &&& agree_elsewhere(state, after, i)
                &&& after.queue == state.queue
                &&& after.statistics.total_validations == state.statistics.total_validations
                &&& after.statistics.successful_validations == one_more(
                    state.statistics.successful_validations,
                )
                &&& after.statistics.failed_validations == state.statistics.failed_validations
                &&& slot.response_ready
                &&& slot.success
                &&& slot.authorized == identity.authorized
                &&& slot.authn_id == identity.authenticated_id
                &&& slot.error_msg.len() == 0
                &&& slot.in_use == before.in_use
                &&& slot.backend_pid == before.backend_pid
                &&& slot.request_time == before.request_time
                &&& slot.backend_latch == before.backend_latch
                &&& slot.token == before.token
                &&& slot.role == before.role
            } else {
                after == state
            }
        }),
{
    lemma_empty_text_has_no_bytes();
}

/// A refusal whose message has up to 512 bytes is put into the slot as the response, with the
/// message, and counted as a failure; nothing else of the slot or the state changes. One with a
/// longer message changes nothing.
pub proof fn law_answering_with_a_refusal(
    state: SharedView,
    i: int,
    error: ValidationError<Seq<char>>,
)
    requires
        0 <= i < state.slots.len(),
    ensures
        ({
            let after = state.finished(i, Err(error));
            let before = state.slots[i];
            let slot = after.slots[i];
            if encode_utf8(error_text(error)).len() <= 512 {
                &&& agree_elsewhere(state, after, i)
                &&& after.queue == state.queue
                &&& after.statistics.total_validations == state.statistics.total_validations
                &&& after.statistics.successful_validations
                    == state.statistics.successful_validations
                &&& after.statistics.failed_validations == one_more(
                    state.statistics.failed_validations,
                )
                &&& slot.response_ready
                &&& !slot.success
                &&& !slot.authorized
                &&& slot.authn_id.len() == 0
                &&& slot.error_msg == error_text(error)
                &&& slot.in_use == before.in_use
                &&& slot.backend_pid == before.backend_pid
                &&& slot.request_time == before.request_time
                &&& slot.backend_latch == before.backend_latch
                &&& slot.token == before.token
                &&& slot.role == before.role
            } else {
                after == state
            }
        }),
{
    lemma_empty_text_has_no_bytes();
}

/// There is room for an identity of up to 256 bytes, and for a refusal whose message has up to 512;
/// the one goes with an empty message, the other with an empty identity and without authorization.
pub proof fn law_response_to_an_outcome(identity: Identity, error: ValidationError<Seq<char>>)
    ensures
        outcome_fits(Ok(identity)) <==> encode_utf8(identity.authenticated_id).len() <= 256,
        outcome_fits(Err(error)) <==> encode_utf8(error_text(error)).len() <= 512,
        response_of(Ok(identity)) == (
            true,
            identity.authorized,
            identity.authenticated_id,
            Seq::<char>::empty(),
        ),
        response_of(Err(error)) == (false, false, Seq::<char>::empty(), error_text(error)),
{
    lemma_empty_text_has_no_bytes();
}

/// The empty text has no bytes.
proof fn lemma_empty_text_has_no_bytes()
    ensures
        encode_utf8(Seq::<char>::empty()).len() == 0,
{
    reveal_with_fuel(encode_utf8, 1);
}

/// Giving a slot back frees it and forgets the process. Nothing else changes.
pub proof fn law_giving_back(state: SharedView, i: int)
    requires
        0 <= i < state.slots.len(),
    ensures
        ({
            let after = state.given_back(i);
            let before = state.slots[i];
            let slot = after.slots[i];
            &&& agree_elsewhere(state, after, i)
            &&& after.queue == state.queue
            &&& after.statistics == state.statistics
            &&& !slot.in_use
            &&& slot.backend_pid == 0
            &&& slot.request_time == before.request_time
            &&& slot.backend_latch == before.backend_latch
            &&& slot.token == before.token
            &&& slot.role == before.role
            &&& slot.response_ready == before.response_ready
            &&& slot.success == before.success
            &&& slot.authorized == before.authorized
            &&& slot.authn_id == before.authn_id
            &&& slot.error_msg == before.error_msg
        }),
{
}

/// A response that is ready is what the backend gets, whether or not its time is up: the identity, or
/// the message. Without one it is told that the time was up, or that it was interrupted.
pub proof fn law_backend_gets_the_response(slot: SlotView, timed_out: bool)
    ensures
        slot.response_ready && slot.success ==> collected(slot, timed_out) == Ok::<_, Seq<char>>(
            Identity { authenticated_id: slot.authn_id, authorized: slot.authorized },
        ),
        slot.response_ready && !slot.success ==> collected(slot, timed_out) == Err::<Identity, _>(
            slot.error_msg,
        ),
        !slot.response_ready && timed_out ==> collected(slot, timed_out) == Err::<Identity, _>(
            "Validation timeout after 5000 ms"@,
        ),
        !slot.response_ready && !timed_out ==> collected(slot, timed_out) == Err::<Identity, _>(
            "Validation interrupted (postmaster died?)"@,
        ),
{
    reveal_strlit("Validation timeout after ");
    reveal_strlit(" ms");
    reveal_strlit("Validation timeout after 5000 ms");
    reveal_with_fuel(decimal, 5);
    assert("Validation timeout after "@ + decimal(5000) + " ms"@
        == "Validation timeout after 5000 ms"@);
}

/// A request has room exactly if the token has up to 8192 bytes and the role up to 256. Of one that
/// has none, the token is complained about if it is too large, and else the role, with its size.
pub proof fn law_room_for_a_request(token: Seq<char>, role: Seq<char>)
    ensures
        request_fits(token, role) <==> (encode_utf8(token).len() <= 8192 && encode_utf8(role).len()
            <= 256),
        encode_utf8(token).len() > 8192 ==> request_error(token, role) == "Token too large: "@
            + decimal(encode_utf8(token).len()) + " bytes"@,
        encode_utf8(token).len() <= 8192 && encode_utf8(role).len() > 256 ==> request_error(
            token,
            role,
        ) == "Role too large: "@ + decimal(encode_utf8(role).len()) + " bytes"@,
{
    reveal_strlit("Token too large: ");
    reveal_strlit("Role too large: ");
    reveal_strlit("Token");
    reveal_strlit("Role");
    reveal_strlit(" too large: ");
    assert("Token"@ + " too large: "@ == "Token too large: "@);
    assert("Role"@ + " too large: "@ == "Role too large: "@);
}

/// A response has room exactly if the identity has up to 256 bytes and the message up to 512. Of one
/// that has none, the identity is complained about if it is too large, and else the message, with
/// its size.
pub proof fn law_room_for_a_response(authn_id: Seq<char>, error_msg: Seq<char>)
    ensures
        response_fits(authn_id, error_msg) <==> (encode_utf8(authn_id).len() <= 256 && encode_utf8(
            error_msg,
        ).len() <= 512),
        encode_utf8(authn_id).len() > 256 ==> response_error(authn_id, error_msg)
            == "Authn ID too large: "@ + decimal(encode_utf8(authn_id).len()) + " bytes"@,
        encode_utf8(authn_id).len() <= 256 && encode_utf8(error_msg).len() > 512 ==> response_error(
            authn_id,
            error_msg,
        ) == "Error message too large: "@ + decimal(encode_utf8(error_msg).len()) + " bytes"@,
{
    reveal_strlit("Authn ID too large: ");
    reveal_strlit("Error message too large: ");
    reveal_strlit("Authn ID");
    reveal_strlit("Error message");
    reveal_strlit(" too large: ");
    assert("Authn ID"@ + " too large: "@ == "Authn ID too large: "@);
    assert("Error message"@ + " too large: "@ == "Error message too large: "@);
}

/// The server gets the identity with what the worker said of its authorization, unless there is a NUL
/// in it; it is then told that the validator could not do its work. After a refusal it is told that
/// nobody is authorized.
pub proof fn law_server_gets_the_identity(identity: Identity, message: Seq<char>)
    ensures
        (forall|i: int|
            0 <= i < identity.authenticated_id.len() ==> identity.authenticated_id[i] != '\0')
            ==> {
            &&& reply_to(Ok(identity)).completed
            &&& reply_to(Ok(identity)).authorized == identity.authorized
            &&& reply_to(Ok(identity)).authn_id == Some(identity.authenticated_id)
        },
        (exists|i: int|
            0 <= i < identity.authenticated_id.len() && identity.authenticated_id[i] == '\0')
            ==> {
            &&& !reply_to(Ok(identity)).completed
            &&& !reply_to(Ok(identity)).authorized
            &&& reply_to(Ok(identity)).authn_id is None
        },
        reply_to(Err(message)).completed,
        !reply_to(Err(message)).authorized,
        reply_to(Err(message)).authn_id is None,
{
}

/// The callback table starts with the number that the server expects.
pub proof fn law_magic_number()
    ensures
        PG_OAUTH_VALIDATOR_MAGIC == 0x20250220,
{
}

/// A denial grants nothing, and the role that is submitted is the one given, if it can be read.
pub proof fn law_callback_arguments(completed: bool, role: Seq<u8>)
    ensures
        denial(completed).completed == completed,
        !denial(completed).authorized,
        denial(completed).authn_id is None,
        valid_utf8(role) ==> role_text(role) == decode_utf8(role),
        !valid_utf8(role) ==> role_text(role) == "unknown"@,
{
}

/// Answers and replies stand for their own texts.
pub proof fn law_replies_stand_for_themselves(
    outcome: Result<ValidationResult, String>,
    reply: CallbackReply,
)
    ensures
        match outcome {
            Ok(result) => answer_view(outcome) == Ok::<_, Seq<char>>(
                Identity {
                    authenticated_id: result.authenticated_id@,
                    authorized: result.authorized,
                },
            ),
            Err(message) => answer_view(outcome) == Err::<Identity, _>(message@),
        },
        reply@.completed == reply.completed,
        reply@.authorized == reply.result.authorized,
        match reply.result.authn_id {
            Some(id) => reply@.authn_id == Some(id@),
            None => reply@.authn_id is None,
        },
{
}

} // verus!
