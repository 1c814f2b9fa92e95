//! Which answer belongs to which request, over standard streams.

use std::collections::HashMap;
use vstd::prelude::*;

use crate::protocol::JsonRpcResponse;

verus! {

/// The requests over standard streams whose answers are still to come, each
/// with the slot that waits for the answer.
pub struct PendingRequests<T> {
    slots: HashMap<u64, T>,
}

impl<T> View for PendingRequests<T> {
    type V = Map<u64, T>;

    closed spec fn view(&self) -> Map<u64, T> {
        self.slots@
    }
}

impl<T> PendingRequests<T> {
    /// No request is pending.
    pub fn new() -> (pending: Self)
        ensures
            pending@ == Map::<u64, T>::empty(),
    {
        PendingRequests { slots: HashMap::new() }
    }

    /// Registers the slot that waits for the answer to the request `id`.
    pub fn register(&mut self, id: u64, slot: T)
        ensures
            final(self)@ == old(self)@.insert(id, slot),
    {
        self.slots.insert(id, slot);
    }

    /// Takes the slot that waits for `message`, if one does.
    pub fn take_slot(&mut self, message: &JsonRpcResponse) -> (slot: Option<T>)
        ensures
            match message.id {
                Some(id) => {
                    &&& final(self)@ == old(self)@.remove(id)
                    &&& match slot {
                        Some(s) => old(self)@.contains_key(id) && s == old(self)@[id],
                        None => !old(self)@.contains_key(id),
                    }
                },
                None => final(self)@ == old(self)@ && slot is None,
            },
    {
        match message.id {
            Some(id) => {
                let slot = self.slots.remove(&id);
                assert(self@ =~= old(self)@.remove(id));
                slot
            },
            None => None,
        }
    }

    /// Reads a line of the server's output and returns the message in it with
    /// the slot that waits for it, if one does. `parse` makes a message of a
    /// line; other output is passed over.
    pub fn read_line<F: Fn(&str) -> Option<JsonRpcResponse>>(
        &mut self,
        line: &str,
        parse: F,
    ) -> (delivery: Option<(T, JsonRpcResponse)>)
        requires
            forall|text: &str| #[trigger] parse.requires((text,)),
        ensures
            exists|message: Option<JsonRpcResponse>| #[trigger]
                crate::protocol::parse_gives(parse, line@, message) && delivered(
                    old(self)@,
                    message,
                    final(self)@,
                    delivery,
                ),
    {
        let message = parse(line);
        assert(crate::protocol::parse_gives(parse, line@, message));
        let ghost parsed = message;
        let delivery = match message {
            Some(m) => match self.take_slot(&m) {
                Some(slot) => Some((slot, m)),
                None => {
                    assert(m.id is Some ==> self@ =~= old(self)@);
                    None
                },
            },
            None => None,
        };
        assert(delivered(old(self)@, parsed, self@, delivery));
        delivery
    }
}

/// Whether the message `message` leads from the pending requests `before` to
/// `after` and to the delivery `delivery`: a message that carries the id of a
/// pending request goes to its slot, and any other goes nowhere.
pub open spec fn delivered<T>(
    before: Map<u64, T>,
    message: Option<JsonRpcResponse>,
    after: Map<u64, T>,
    delivery: Option<(T, JsonRpcResponse)>,
) -> bool {
    if message is Some && message->0.id is Some && before.contains_key(message->0.id->0) {
        let id = message->0.id->0;
        after == before.remove(id) && delivery == Some((before[id], message->0))
    } else {
        after == before && delivery is None
    }
}

/// Concurrent requests do not interfere: an answer goes to the slot of its own
/// request, and every other slot goes on waiting.
pub proof fn law_answers_do_not_interfere<T>(
    before: Map<u64, T>,
    message: JsonRpcResponse,
    after: Map<u64, T>,
    delivery: Option<(T, JsonRpcResponse)>,
    other: u64,
)
    requires
        delivered(before, Some(message), after, delivery),
        message.id != Some(other),
    ensures
        after.contains_key(other) == before.contains_key(other),
        before.contains_key(other) ==> after[other] == before[other],
{
}

/// The answers to two requests reach their slots in whatever order they come.
pub proof fn law_answers_may_come_in_any_order<T>(
    pending: Map<u64, T>,
    first: u64,
    first_slot: T,
    second: u64,
    second_slot: T,
    to_first: JsonRpcResponse,
    to_second: JsonRpcResponse,
    between: Map<u64, T>,
    after: Map<u64, T>,
    early: Option<(T, JsonRpcResponse)>,
    late: Option<(T, JsonRpcResponse)>,
)
    requires
        first != second,
        to_first.id == Some(first),
        to_second.id == Some(second),
        delivered(
            pending.insert(first, first_slot).insert(second, second_slot),
            Some(to_second),
            between,
            early,
        ),
        delivered(between, Some(to_first), after, late),
    ensures
        early == Some((second_slot, to_second)),
        late == Some((first_slot, to_first)),
        after == pending.remove(first).remove(second),
{
    assert(after =~= pending.remove(first).remove(second));
}

/// One step of the pending requests: one is registered, or a message comes in.
pub enum PendingStep<T> {
    Register(u64, T),
    Message(JsonRpcResponse),
}

impl<T> PendingStep<T> {
    /// Whether this step is about the request `id`.
    pub open spec fn concerns(self, id: u64) -> bool {
        match self {
            PendingStep::Register(own, _) => own == id,
            PendingStep::Message(message) => message.id == Some(id),
        }
    }
}

/// The requests that are pending after `step`.
pub open spec fn after_step<T>(pending: Map<u64, T>, step: PendingStep<T>) -> Map<u64, T> {
    match step {
        PendingStep::Register(id, slot) => pending.insert(id, slot),
        PendingStep::Message(message) => match message.id {
            Some(id) => pending.remove(id),
            None => pending,
        },
    }
}

/// The requests that are pending after `steps`.
pub open spec fn after_steps<T>(pending: Map<u64, T>, steps: Seq<PendingStep<T>>) -> Map<u64, T>
    decreases steps.len(),
{
    if steps.len() == 0 {
        pending
    } else {
        after_step(after_steps(pending, steps.drop_last()), steps.last())
    }
}

/// A message leaves every request pending but the one that it answers.
pub proof fn law_message_ends_only_its_request<T>(
    before: Map<u64, T>,
    message: JsonRpcResponse,
    after: Map<u64, T>,
    delivery: Option<(T, JsonRpcResponse)>,
)
    requires
        delivered(before, Some(message), after, delivery),
    ensures
        after == after_step(before, PendingStep::Message(message)),
{
    assert(after =~= after_step(before, PendingStep::Message(message)));
}

/// A slot waits for its own answer: whatever is asked and answered in between,
/// the slot is still there when the answer comes, and the answer goes to it.
pub proof fn law_answer_reaches_its_request<T>(
    pending: Map<u64, T>,
    id: u64,
    slot: T,
    steps: Seq<PendingStep<T>>,
    answer: JsonRpcResponse,
    after: Map<u64, T>,
    delivery: Option<(T, JsonRpcResponse)>,
)
    requires
        forall|i: int| 0 <= i < steps.len() ==> !(#[trigger] steps[i]).concerns(id),
        answer.id == Some(id),
        delivered(
            after_steps(pending.insert(id, slot), steps),
            Some(answer),
            after,
            delivery,
        ),
    ensures
        delivery == Some((slot, answer)),
        !after.contains_key(id),
{
    lemma_slot_waits(pending.insert(id, slot), id, steps);
}

proof fn lemma_slot_waits<T>(pending: Map<u64, T>, id: u64, steps: Seq<PendingStep<T>>)
    requires
        pending.contains_key(id),
        forall|i: int| 0 <= i < steps.len() ==> !(#[trigger] steps[i]).concerns(id),
    ensures
        after_steps(pending, steps).contains_key(id),
        after_steps(pending, steps)[id] == pending[id],
    decreases steps.len(),
{
    if steps.len() > 0 {
        assert(!steps[steps.len() - 1].concerns(id));
        assert forall|i: int| 0 <= i < steps.drop_last().len() implies !(
        #[trigger] steps.drop_last()[i]).concerns(id) by {
            assert(!steps[i].concerns(id));
        }
        lemma_slot_waits(pending, id, steps.drop_last());
    }
}

/// A request is answered once: a second answer goes nowhere.
pub proof fn law_second_answer_goes_nowhere<T>(
    before: Map<u64, T>,
    message: JsonRpcResponse,
    again: JsonRpcResponse,
    between: Map<u64, T>,
    after: Map<u64, T>,
    early: Option<(T, JsonRpcResponse)>,
    late: Option<(T, JsonRpcResponse)>,
)
    requires
        message.id == again.id,
        delivered(before, Some(message), between, early),
        delivered(between, Some(again), after, late),
    ensures
        late is None,
        after == between,
{
}

/// A line that is no message changes nothing: every request that was pending
/// still is, and nothing is delivered. The same holds of a message without an
/// id, and of one whose id no pending request has.
pub proof fn law_other_output_leaves_requests_pending<T>(
    before: Map<u64, T>,
    message: Option<JsonRpcResponse>,
    after: Map<u64, T>,
    delivery: Option<(T, JsonRpcResponse)>,
)
    requires
        delivered(before, message, after, delivery),
        message is Some && message->0.id is Some ==> !before.contains_key(message->0.id->0),
    ensures
        after == before,
        delivery is None,
{
}

/// A message with the id of a pending request is delivered to the slot of that
/// request, as it came; that request is pending no longer, and every other is.
pub proof fn law_answer_is_delivered_as_it_came<T>(
    before: Map<u64, T>,
    message: JsonRpcResponse,
    id: u64,
    after: Map<u64, T>,
    delivery: Option<(T, JsonRpcResponse)>,
)
    requires
        delivered(before, Some(message), after, delivery),
        message.id == Some(id),
        before.contains_key(id),
    ensures
        delivery == Some((before[id], message)),
        forall|other: u64|
            after.contains_key(other) <==> #[trigger] before.contains_key(other) && other != id,
        forall|other: u64| #[trigger]
            after.contains_key(other) ==> after[other] == before[other],
{
}

} // verus!
