use vstd::prelude::*;

use std::collections::VecDeque;

use crate::classify::{blocking_messages, condition_of, field_text, text_field};
use crate::errors::{Condition, Error};
use crate::json::{same_json, Json};
use crate::text::str_eq;

verus! {

/// Whether event `e` is the one waited for: its kind is `msg`, and, when `key`
/// is given, it has that member, which, when `value` is given, is that integer.
pub open spec fn event_matches(
    e: Json,
    msg: Seq<char>,
    key: Option<Seq<char>>,
    value: Option<u64>,
) -> bool {
    &&& text_field(e, "msg"@) == Some(msg)
    &&& match key {
        None => true,
        Some(k) => {
            &&& e.has_field(k)
            &&& match value {
                None => true,
                Some(v) => e.field(k)->0.u64_value() == Some(v),
            }
        },
    }
}

/// Whether event `e` reports the character's death.
pub open spec fn is_death(e: Json) -> bool {
    condition_of(e) == Some(Condition::Died)
}

/// The position of the first death event in `batch` from position `i` on, or
/// the length of `batch` when there is none.
pub open spec fn death_from(batch: Seq<Json>, i: int) -> int
    decreases batch.len() - i,
{
    if i < 0 || i >= batch.len() {
        batch.len() as int
    } else if is_death(batch[i]) {
        i
    } else {
        death_from(batch, i + 1)
    }
}

/// The position of the first death event in `batch`, or its length when there is none.
pub open spec fn first_death(batch: Seq<Json>) -> int {
    death_from(batch, 0)
}

/// How many events of `batch` a read takes in: all of them, or those up to
/// and including the first death.
pub open spec fn taken_len(batch: Seq<Json>) -> int {
    if first_death(batch) < batch.len() {
        first_death(batch) + 1
    } else {
        batch.len() as int
    }
}

/// The condition raised by the last of the first `n` events that raises one.
pub open spec fn last_condition(batch: Seq<Json>, n: int) -> Option<Condition>
    decreases n,
{
    if n <= 0 {
        None
    } else if condition_of(batch[n - 1]) is Some {
        condition_of(batch[n - 1])
    } else {
        last_condition(batch, n - 1)
    }
}

/// Whether one of the first `n` events is the one waited for.
pub open spec fn found_within(
    batch: Seq<Json>,
    n: int,
    msg: Seq<char>,
    key: Option<Seq<char>>,
    value: Option<u64>,
) -> bool {
    exists|i: int| 0 <= i < n && event_matches(batch[i], msg, key, value)
}

/// The view of an optional string.
pub open spec fn key_view(key: Option<&str>) -> Option<Seq<char>> {
    match key {
        Some(k) => Some(k@),
        None => None,
    }
}

/// The synchronous reader's state: every event received, in order of arrival,
/// and whether the event last waited for has already been seen.
pub struct ReadEngine {
    pub received_messages: VecDeque<Json>,
    pub message_found: bool,
}

/// Whether event `e` is the one waited for.
pub fn matches_wait(e: &Json, msg: &str, key: Option<&str>, value: Option<u64>) -> (r: bool)
    ensures
        r == event_matches(*e, msg@, key_view(key), value),
{
    let kind = match field_text(e, "msg") {
        Some(k) => k,
        None => {
            return false;
        },
    };
    if !str_eq(kind, msg) {
        return false;
    }
    match key {
        None => true,
        Some(k) => match e.get(k) {
            None => false,
            Some(v) => match value {
                None => true,
                Some(want) => v.as_u64() == Some(want),
            },
        },
    }
}

/// The events of a frame: the elements of its `msgs` array, or none when it has no such array.
pub open spec fn frame_events(payload: Json) -> Seq<Json> {
    match payload.field("msgs"@) {
        Some(Json::Array(items)) => items@,
        _ => Seq::empty(),
    }
}

/// Copies of the events of a frame: the elements of its `msgs` array, or none
/// when it has no such array.
pub fn batch_of(payload: &Json) -> (r: Vec<Json>)
    ensures
        r@.len() == frame_events(*payload).len(),
        forall|i: int| 0 <= i < r@.len() ==> same_json(#[trigger] r@[i], frame_events(*payload)[i]),
{
    let items = match payload.get("msgs") {
        Some(v) => match v.as_array() {
            Some(items) => items,
            None => {
                return Vec::new();
            },
        },
        None => {
            return Vec::new();
        },
    };
    let mut r: Vec<Json> = Vec::new();
    let mut i: usize = 0;
    while i < items.len()
        invariant
            items@ == frame_events(*payload),
            i <= items.len(),
            r.len() == i,
            forall|j: int| 0 <= j < i ==> same_json(#[trigger] r@[j], items@[j]),
        decreases items.len() - i,
    {
        r.push(items[i].duplicate());
        i += 1;
    }
    r
}

/// The queue after frames `frames` are taken in, in order, starting from `q`.
pub open spec fn fed(q: Seq<Json>, frames: Seq<Seq<Json>>) -> Seq<Json>
    decreases frames.len(),
{
    if frames.len() == 0 {
        q
    } else {
        fed(q + frames[0].take(taken_len(frames[0])), frames.drop_first())
    }
}

proof fn lemma_no_death_from(batch: Seq<Json>, i: int)
    requires
        0 <= i <= batch.len(),
        forall|j: int| 0 <= j < batch.len() ==> !is_death(#[trigger] batch[j]),
    ensures
        death_from(batch, i) == batch.len(),
    decreases batch.len() - i,
{
    if i < batch.len() {
        lemma_no_death_from(batch, i + 1);
    }
}

/// Every event of every frame ends up in the queue exactly once, in the order
/// of arrival, whether or not it was the one waited for or raised a blocking
/// state, as long as no frame reports a death (a death ends its frame).
pub proof fn lemma_every_event_queued(q: Seq<Json>, frames: Seq<Seq<Json>>)
    requires
        forall|f: int, j: int|
            0 <= f < frames.len() && 0 <= j < frames[f].len() ==> !is_death(#[trigger] frames[f][j]),
    ensures
        fed(q, frames) == q + frames.flatten(),
    decreases frames.len(),
{
    if frames.len() > 0 {
        let f0 = frames[0];
        assert forall|j: int| 0 <= j < f0.len() implies !is_death(#[trigger] f0[j]) by {
            assert(!is_death(frames[0][j]));
        }
        lemma_no_death_from(f0, 0);
        assert(f0.take(taken_len(f0)) =~= f0);
        let rest = frames.drop_first();
        assert forall|f: int, j: int| 0 <= f < rest.len() && 0 <= j < rest[f].len() implies !is_death(
            #[trigger] rest[f][j],
        ) by {
            assert(rest[f] == frames[f + 1]);
        }
        lemma_every_event_queued(q + f0, rest);
        assert(frames.flatten() == f0 + rest.flatten());
        assert(q + f0 + rest.flatten() =~= q + (f0 + rest.flatten()));
    }
}

proof fn lemma_last_condition_some(batch: Seq<Json>, n: int, b: int)
    requires
        0 <= b < n <= batch.len(),
        condition_of(batch[b]) is Some,
    ensures
        last_condition(batch, n) is Some,
    decreases n,
{
    if condition_of(batch[n - 1]) is None {
        lemma_last_condition_some(batch, n - 1, b);
    }
}

/// When one frame holds both an event that raises a blocking state and the
/// event waited for, and no death, the read reports the blocking state, and
/// the awaited event is marked as found, so that the next wait for it is over
/// without reading another frame (see `ReadEngine::take_found`).
pub proof fn lemma_blocking_before_success(
    batch: Seq<Json>,
    b: int,
    t: int,
    msg: Seq<char>,
    key: Option<Seq<char>>,
    value: Option<u64>,
)
    requires
        0 <= b < batch.len(),
        0 <= t < batch.len(),
        condition_of(batch[b]) is Some,
        event_matches(batch[t], msg, key, value),
        forall|j: int| 0 <= j < batch.len() ==> !is_death(#[trigger] batch[j]),
    ensures
        first_death(batch) == batch.len(),
        last_condition(batch, batch.len() as int) is Some,
        found_within(batch, first_death(batch), msg, key, value),
{
    lemma_no_death_from(batch, 0);
    lemma_last_condition_some(batch, batch.len() as int, b);
}

impl ReadEngine {
    /// An engine with nothing received.
    pub fn new() -> (r: ReadEngine)
        ensures
            r.received_messages@.len() == 0,
            !r.message_found,
    {
        ReadEngine { received_messages: VecDeque::new(), message_found: false }
    }

    /// Takes in one frame's events while waiting for an event. Each event is
    /// queued, checked for a blocking state, then compared with the wait. A
    /// death ends the batch at once. Otherwise the whole batch is taken in,
    /// and the last blocking state seen is returned, even when the awaited
    /// event came too: that event stays marked as found for the next wait.
    pub fn process_batch(
        &mut self,
        batch: Vec<Json>,
        msg: &str,
        key: Option<&str>,
        value: Option<u64>,
    ) -> (r: Result<(), Error>)
        ensures
            final(self).received_messages@ == old(self).received_messages@ + batch@.take(
                taken_len(batch@),
            ),
            final(self).message_found == (old(self).message_found || found_within(
                batch@,
                first_death(batch@),
                msg@,
                key_view(key),
                value,
            )),
            first_death(batch@) < batch@.len() ==> (r matches Err(e) && e.condition() == Some(
                Condition::Died,
            )),
            first_death(batch@) == batch@.len() ==> match r {
                Ok(()) => last_condition(batch@, batch@.len() as int) is None,
                Err(e) => e.condition() == last_condition(batch@, batch@.len() as int)
                    && e.condition() is Some,
            },
    {
        let ghost events = batch@;
        let ghost start_queue = self.received_messages@;
        let ghost start_found = self.message_found;
        let mut blocking: Result<(), Error> = Ok(());
        let total = batch.len();
        assert(events.len() == total);
        let mut rest = batch;
        let mut i: usize = 0;
        while rest.len() > 0
            invariant
                events == batch@,
                start_queue == old(self).received_messages@,
                start_found == old(self).message_found,
                i + rest.len() == events.len(),
                events.len() <= usize::MAX,
                rest@ == events.subrange(i as int, events.len() as int),
                self.received_messages@ == start_queue + events.take(i as int),
                self.message_found == (start_found || found_within(
                    events,
                    i as int,
                    msg@,
                    key_view(key),
                    value,
                )),
                forall|j: int| 0 <= j < i ==> !is_death(#[trigger] events[j]),
                death_from(events, 0) == death_from(events, i as int),
                match blocking {
                    Ok(()) => last_condition(events, i as int) is None,
                    Err(e) => e.condition() == last_condition(events, i as int) && e.condition() is Some,
                },
            decreases rest.len(),
        {
            let message = rest.remove(0);
            assert(message == events[i as int]);
            let check = blocking_messages(&message);
            let matched = matches_wait(&message, msg, key, value);
            self.received_messages.push_back(message);
            assert(self.received_messages@ == start_queue + events.take(i + 1)) by {
                assert(events.take(i + 1) == events.take(i as int).push(events[i as int]));
            }
            match check {
                Err(e) => {
                    if e.is_death() {
                        assert(is_death(events[i as int]));
                        assert(death_from(events, i as int) == i);
                        assert(first_death(events) == i);
                        assert(taken_len(events) == i + 1);
                        assert(events.take(taken_len(events)) == events.take(i + 1));
                        assert(self.received_messages@ == start_queue + events.take(i + 1));
                        assert(start_queue == old(self).received_messages@);
                        assert(self.message_found == (start_found || found_within(events, i as int, msg@, key_view(key), value)));
                        return Err(e);
                    }
                    blocking = Err(e);
                },
                Ok(()) => {},
            }
            if matched {
                self.message_found = true;
            }
            proof {
                assert(found_within(events, i + 1, msg@, key_view(key), value) == (found_within(
                    events,
                    i as int,
                    msg@,
                    key_view(key),
                    value,
                ) || event_matches(events[i as int], msg@, key_view(key), value)));
            }
            i += 1;
        }
        assert(events.take(taken_len(events)) == events.take(i as int));
        blocking
    }

    /// Whether the event last waited for has already been seen; clears the mark.
    /// A wait that finds the mark set is over without reading another frame.
    pub fn take_found(&mut self) -> (r: bool)
        ensures
            r == old(self).message_found,
            !final(self).message_found,
            final(self).received_messages@ == old(self).received_messages@,
    {
        let r = self.message_found;
        self.message_found = false;
        r
    }

    /// Takes the oldest received event off the queue.
    pub fn get_message(&mut self) -> (r: Option<Json>)
        ensures
            old(self).received_messages@.len() == 0 ==> r is None && final(self).received_messages@
                == old(self).received_messages@,
            old(self).received_messages@.len() > 0 ==> r == Some(
                old(self).received_messages@[0],
            ) && final(self).received_messages@ == old(self).received_messages@.drop_first(),
            final(self).message_found == old(self).message_found,
    {
        self.received_messages.pop_front()
    }
}

}
