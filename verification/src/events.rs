//! When an event starts, when it has triggered, and which conditions and injects belong to it.

use crate::ids::{parse_uuid, parsed_uuid};
use crate::model::{ElementStatus, EventOutcome, Uuid};
use vstd::prelude::*;

verus! {

/// A point in time: whole seconds since the epoch and the nanoseconds past them.
#[derive(PartialEq, Eq, Structural, Clone, Copy, Debug)]
pub struct Timestamp {
    pub seconds: i64,
    pub nanoseconds: u32,
}

pub const NANOS_PER_SECOND: u32 = 1_000_000_000;

/// Seconds of the timestamps handled here stay far from the ends of `i64`.
pub const MAX_TIMESTAMP_SECONDS: i64 = 1_000_000_000_000_000;

impl Timestamp {
    pub open spec fn wf(&self) -> bool {
        &&& self.nanoseconds < NANOS_PER_SECOND
        &&& -MAX_TIMESTAMP_SECONDS <= self.seconds <= MAX_TIMESTAMP_SECONDS
    }

    /// Nanoseconds since the epoch.
    pub open spec fn total_nanos(&self) -> int {
        self.seconds * 1_000_000_000 + self.nanoseconds
    }
}

/// Whether `a` lies before `b`.
pub fn is_before(a: Timestamp, b: Timestamp) -> (r: bool)
    requires
        a.wf(),
        b.wf(),
    ensures
        r == (a.total_nanos() < b.total_nanos()),
{
    a.seconds < b.seconds || (a.seconds == b.seconds && a.nanoseconds < b.nanoseconds)
}

/// How many whole seconds to wait from `current_time` until `start`: the span
/// between them in whole seconds, truncated, and none when `start` has passed.
pub fn get_event_start_timedelta(start: Timestamp, current_time: Timestamp) -> (wait: u64)
    requires
        start.wf(),
        current_time.wf(),
    ensures
        wait == (if start.total_nanos() - current_time.total_nanos() >= 1_000_000_000 {
            (start.total_nanos() - current_time.total_nanos()) / 1_000_000_000
        } else {
            0
        }),
{
    let mut seconds: i64 = start.seconds - current_time.seconds;
    let mut nanos: i64 = start.nanoseconds as i64 - current_time.nanoseconds as i64;
    if nanos < 0 {
        seconds = seconds - 1;
        nanos = nanos + 1_000_000_000;
    }
    proof {
        assert(start.total_nanos() - current_time.total_nanos() == seconds * 1_000_000_000 + nanos);
        assert(0 <= nanos < 1_000_000_000);
    }
    // whole seconds of the span, truncated toward zero
    let whole: i64 = if seconds < 0 && nanos > 0 {
        seconds + 1
    } else {
        seconds
    };
    if whole <= 0 {
        proof {
            assert(start.total_nanos() - current_time.total_nanos() < 1_000_000_000) by (nonlinear_arith)
                requires
                    start.total_nanos() - current_time.total_nanos() == seconds * 1_000_000_000 + nanos,
                    0 <= nanos < 1_000_000_000,
                    seconds <= 0,
            ;
        }
        0
    } else {
        proof {
            let d = start.total_nanos() - current_time.total_nanos();
            assert(d / 1_000_000_000 == seconds && d >= 1_000_000_000) by (nonlinear_arith)
                requires
                    d == seconds * 1_000_000_000 + nanos,
                    0 <= nanos < 1_000_000_000,
                    seconds >= 1,
            ;
        }
        whole as u64
    }
}

/// What one round of polling an event decides.
#[derive(PartialEq, Eq, Structural, Clone, Copy, Debug)]
pub enum EventPoll {
    /// Every condition of the event on the node has succeeded.
    Triggered,
    /// The event's window closed before that.
    WindowEnded,
    /// Poll again later.
    Pending,
}

/// The number of conditions that report success.
pub open spec fn successes(statuses: Seq<ElementStatus>) -> nat
    decreases statuses.len(),
{
    if statuses.len() == 0 {
        0
    } else {
        successes(statuses.drop_last()) + if statuses.last() == ElementStatus::ConditionSuccess {
            1nat
        } else {
            0nat
        }
    }
}

pub proof fn lemma_successes_bound(statuses: Seq<ElementStatus>)
    ensures
        successes(statuses) <= statuses.len(),
        successes(statuses) == statuses.len() <==> forall|i: int|
            0 <= i < statuses.len() ==> statuses[i] == ElementStatus::ConditionSuccess,
    decreases statuses.len(),
{
    if statuses.len() > 0 {
        lemma_successes_bound(statuses.drop_last());
        if successes(statuses) == statuses.len() {
            assert forall|i: int| 0 <= i < statuses.len() implies statuses[i] == ElementStatus::ConditionSuccess by {
                if i < statuses.len() - 1 {
                    assert(statuses.drop_last()[i] == statuses[i]);
                }
            }
        }
        if forall|i: int| 0 <= i < statuses.len() ==> statuses[i] == ElementStatus::ConditionSuccess {
            assert forall|i: int| 0 <= i < statuses.drop_last().len() implies statuses.drop_last()[i]
                == ElementStatus::ConditionSuccess by {
                assert(statuses.drop_last()[i] == statuses[i]);
            }
        }
    }
}

/// One round of polling: the event has triggered when all of the node's
/// conditions of the event succeed (at once when there are none); else it has
/// ended when its window is over; else it is still pending.
pub fn poll_event(statuses: &Vec<ElementStatus>, current_time: Timestamp, end: Timestamp) -> (r: EventPoll)
    requires
        current_time.wf(),
        end.wf(),
    ensures
        (forall|i: int| 0 <= i < statuses@.len() ==> statuses@[i] == ElementStatus::ConditionSuccess) ==> r
            == EventPoll::Triggered,
        !(forall|i: int| 0 <= i < statuses@.len() ==> statuses@[i] == ElementStatus::ConditionSuccess) ==> r
            == (if end.total_nanos() < current_time.total_nanos() {
            EventPoll::WindowEnded
        } else {
            EventPoll::Pending
        }),
{
    let mut successful: usize = 0;
    let mut i: usize = 0;
    while i < statuses.len()
        invariant
            i <= statuses@.len(),
            successful == successes(statuses@.take(i as int)),
            successful <= i,
        decreases statuses@.len() - i,
    {
        proof {
            assert(statuses@.take(i + 1).drop_last() =~= statuses@.take(i as int));
            lemma_successes_bound(statuses@.take(i as int));
        }
        if statuses[i] == ElementStatus::ConditionSuccess {
            successful = successful + 1;
        }
        i = i + 1;
    }
    proof {
        assert(statuses@.take(i as int) =~= statuses@);
        lemma_successes_bound(statuses@);
    }
    if statuses.len() == successful {
        EventPoll::Triggered
    } else if is_before(end, current_time) {
        EventPoll::WindowEnded
    } else {
        EventPoll::Pending
    }
}

/// What waiting for the conditions of an event decides after a look at the database.
#[derive(PartialEq, Eq, Structural, Clone, Copy, Debug)]
pub enum ConditionWait {
    /// As many condition elements are deployed as the event has conditions.
    Deployed,
    /// Look again.
    Retry,
    /// Looked too often.
    TimedOut,
}

/// Whether the conditions of an event are deployed, judged from the number of
/// condition elements a look at the database found. `attempts` counts the looks
/// after the first one, this one included: the waiting gives up on the look that
/// brings it to `timeout`, without judging that look.
pub fn await_conditions_step(deployed: usize, expected: usize, attempts: u64, timeout: u64) -> (r: ConditionWait)
    ensures
        attempts > 0 && attempts >= timeout ==> r == ConditionWait::TimedOut,
        !(attempts > 0 && attempts >= timeout) && deployed == expected ==> r == ConditionWait::Deployed,
        !(attempts > 0 && attempts >= timeout) && deployed != expected ==> r == ConditionWait::Retry,
{
    if attempts > 0 && attempts >= timeout {
        ConditionWait::TimedOut
    } else if deployed == expected {
        ConditionWait::Deployed
    } else {
        ConditionWait::Retry
    }
}

/// The status a condition element takes after a reading of its condition, if it
/// changes: a condition of an event succeeds when its reading is one and falls
/// back to ongoing when a reading is not one; other conditions keep their status.
pub fn next_condition_status(is_event_condition: bool, value_is_one: bool, status: ElementStatus) -> (r: Option<
    ElementStatus,
>)
    ensures
        r == (if status_after(is_event_condition, value_is_one, status) == status {
            None
        } else {
            Some(status_after(is_event_condition, value_is_one, status))
        }),
{
    if is_event_condition {
        if value_is_one && status == ElementStatus::Ongoing {
            return Some(ElementStatus::Success);
        } else if !value_is_one && status == ElementStatus::Success {
            return Some(ElementStatus::Ongoing);
        }
    }
    None
}

/// Polls the conditions of events and reports whether each event triggered.
pub struct EventPoller;

impl EventPoller {
    pub fn new() -> Self {
        EventPoller
    }
}

/// The time recorded for an event that has not triggered.
pub open spec fn untriggered_time() -> Timestamp {
    Timestamp { seconds: 0, nanoseconds: 0 }
}

/// What is stored once polling ends, and whether the event succeeded: a
/// triggered event is stored as triggered at `now`; an event whose window ended
/// as not triggered. Polling goes on while the event is pending.
pub fn polling_outcome(poll: EventPoll, now: Timestamp) -> (r: Option<(EventOutcome, bool)>)
    ensures
        match poll {
            EventPoll::Triggered => r == Some((EventOutcome { has_triggered: true, triggered_at: now }, true)),
            EventPoll::WindowEnded => r == Some(
                (EventOutcome { has_triggered: false, triggered_at: untriggered_time() }, false),
            ),
            EventPoll::Pending => r is None,
        },
{
    match poll {
        EventPoll::Triggered => Some((EventOutcome { has_triggered: true, triggered_at: now }, true)),
        EventPoll::WindowEnded => Some(
            (EventOutcome { has_triggered: false, triggered_at: Timestamp { seconds: 0, nanoseconds: 0 } }, false),
        ),
        EventPoll::Pending => None,
    }
}

/// Why an event could not be polled.
#[derive(PartialEq, Eq, Structural, Clone, Copy, Debug)]
pub enum PollError {
    /// The virtual machine's element carries no handler reference.
    HandlerReferenceNotFound,
    /// The handler reference is not the text of an identifier.
    ParentNodeIdUnreadable,
    /// The event's conditions were not all deployed in time.
    ConditionsNotDeployed,
}

/// The machine whose conditions an event poller watches: its element's handler
/// reference, and the identifier that reference is the text of.
pub fn polled_machine(handler_reference: &Option<String>) -> (r: Result<(String, Uuid), PollError>)
    ensures
        match *handler_reference {
            None => r == Err::<(String, Uuid), PollError>(PollError::HandlerReferenceNotFound),
            Some(h) => match parsed_uuid(h@) {
                Some(id) => r == Ok::<(String, Uuid), PollError>((h, id)),
                None => r == Err::<(String, Uuid), PollError>(PollError::ParentNodeIdUnreadable),
            },
        },
{
    match handler_reference {
        None => Err(PollError::HandlerReferenceNotFound),
        Some(h) => match parse_uuid(h.as_str()) {
            Some(id) => Ok((h.clone(), id)),
            None => Err(PollError::ParentNodeIdUnreadable),
        },
    }
}

/// The status of a condition element after a reading.
pub open spec fn status_after(is_event_condition: bool, value_is_one: bool, status: ElementStatus) -> ElementStatus {
    if is_event_condition && value_is_one && status == ElementStatus::Ongoing {
        ElementStatus::Success
    } else if is_event_condition && !value_is_one && status == ElementStatus::Success {
        ElementStatus::Ongoing
    } else {
        status
    }
}

/// A condition of an event holds exactly while its last reading is one: after a
/// reading of one an ongoing condition has succeeded, after another reading it is
/// ongoing again, and repeating a reading changes nothing.
pub proof fn lemma_condition_follows_last_reading(value_is_one: bool, status: ElementStatus, next: bool)
    requires
        status == ElementStatus::Ongoing || status == ElementStatus::Success,
    ensures
        status_after(true, value_is_one, status) == (if value_is_one {
            ElementStatus::Success
        } else {
            ElementStatus::Ongoing
        }),
        status_after(true, value_is_one, status_after(true, value_is_one, status)) == status_after(
            true,
            value_is_one,
            status,
        ),
        status_after(true, next, status_after(true, value_is_one, status)) == status_after(true, next, status),
        status_after(false, value_is_one, status) == status,
{
}

} // verus!
