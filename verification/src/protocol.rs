//! Event-triggered protocol runs: which protocols an event starts, with the
//! debounce that keeps a protocol from being started again within five
//! minutes.
//!
//! Listing the protocols, starting the runs and storing the new trigger
//! time are left to the caller, which starts a run for each protocol
//! selected here and then records it with [`mark_triggered`].

use vstd::prelude::*;
use crate::ids::{elapsed_secs, seconds_between, Timestamp};
use crate::text::{eq_str, extend_str, string_of};

verus! {

/// The least number of seconds between two automatic runs of a protocol.
pub const MIN_TRIGGER_INTERVAL_SECS: i64 = 300;

/// How a protocol is started.
#[derive(Debug, Clone, Copy, PartialEq, Eq, Structural)]
pub enum TriggerMode {
    /// Only by hand.
    Manual,
    /// On system events.
    Event,
    /// On a schedule.
    Scheduled,
    /// On events and on a schedule.
    Auto,
}

impl TriggerMode {
    /// Whether the mode starts runs on events (`Event` and `Auto`).
    pub fn listens_to_events(&self) -> (b: bool)
        ensures
            b == (*self is Event || *self is Auto),
    {
        match self {
            TriggerMode::Event | TriggerMode::Auto => true,
            _ => false,
        }
    }
}

/// What the trigger decision reads of a protocol.
#[derive(Debug, Clone)]
pub struct ProtocolTrigger {
    /// How the protocol is started.
    pub trigger_mode: TriggerMode,
    /// The events of its trigger configuration, where it has one.
    pub events: Option<Vec<String>>,
    /// When an event last started it, if ever.
    pub last_triggered_at: Option<Timestamp>,
}

/// The protocol lists `event` among its trigger events.
pub open spec fn has_event(p: ProtocolTrigger, event: Seq<char>) -> bool {
    match p.events {
        Some(es) => exists|i: int| 0 <= i < es@.len() && #[trigger] es@[i]@ == event,
        None => false,
    }
}

/// An event starts the protocol at `now`: its mode listens to events, it
/// lists the event, and it was not started by an event in the last five
/// minutes.
pub open spec fn should_trigger(p: ProtocolTrigger, event: Seq<char>, now: Timestamp) -> bool {
    &&& (p.trigger_mode is Event || p.trigger_mode is Auto)
    &&& has_event(p, event)
    &&& match p.last_triggered_at {
        Some(last) => elapsed_secs(now, last) >= MIN_TRIGGER_INTERVAL_SECS,
        None => true,
    }
}

/// Whether `event` starts the protocol at `now`.
pub fn should_trigger_protocol(p: &ProtocolTrigger, event: &str, now: Timestamp) -> (b: bool)
    ensures
        b == should_trigger(*p, event@, now),
{
    if !p.trigger_mode.listens_to_events() {
        return false;
    }
    let listed = match &p.events {
        Some(es) => {
            let mut found = false;
            let mut i: usize = 0;
            while i < es.len()
                invariant
                    0 <= i <= es@.len(),
                    found <==> exists|j: int| 0 <= j < i && #[trigger] es@[j]@ == event@,
                decreases es@.len() - i,
            {
                if eq_str(es[i].as_str(), event) {
                    found = true;
                }
                i = i + 1;
            }
            found
        },
        None => false,
    };
    if !listed {
        return false;
    }
    match p.last_triggered_at {
        Some(last) => seconds_between(now, last) >= MIN_TRIGGER_INTERVAL_SECS as i128,
        None => true,
    }
}

/// The positions of the protocols that `event` starts at `now`, in order.
pub fn protocols_to_trigger(protocols: &[ProtocolTrigger], event: &str, now: Timestamp) -> (r: Vec<
    usize,
>)
    ensures
        forall|i: int, j: int| 0 <= i < j < r@.len() ==> #[trigger] r@[i] < #[trigger] r@[j],
        forall|i: int| 0 <= i < r@.len() ==> #[trigger] r@[i] < protocols@.len(),
        forall|k: int|
            0 <= k < protocols@.len() ==> (should_trigger(#[trigger] protocols@[k], event@, now)
                <==> r@.contains(k as usize)),
{
    let mut r: Vec<usize> = Vec::new();
    let mut k: usize = 0;
    while k < protocols.len()
        invariant
            0 <= k <= protocols@.len(),
            forall|i: int, j: int| 0 <= i < j < r@.len() ==> #[trigger] r@[i] < #[trigger] r@[j],
            forall|i: int| 0 <= i < r@.len() ==> #[trigger] r@[i] < k,
            forall|m: int|
                0 <= m < k ==> (should_trigger(#[trigger] protocols@[m], event@, now) <==> r@.contains(
                    m as usize,
                )),
        decreases protocols@.len() - k,
    {
        let ghost old_r = r@;
        if should_trigger_protocol(&protocols[k], event, now) {
            r.push(k);
        }
        proof {
            assert forall|m: int|
                0 <= m < k + 1 implies (should_trigger(#[trigger] protocols@[m], event@, now)
                <==> r@.contains(m as usize)) by {
                if r@.contains(m as usize) && m < k {
                    let w = choose|w: int| 0 <= w < r@.len() && r@[w] == m as usize;
                    if w == old_r.len() {
                        assert(r@[w] == k);
                    } else {
                        assert(old_r[w] == m as usize);
                    }
                }
                if old_r.contains(m as usize) {
                    let w = choose|w: int| 0 <= w < old_r.len() && old_r[w] == m as usize;
                    assert(r@[w] == m as usize);
                }
                if m == k && should_trigger(protocols@[m], event@, now) {
                    assert(r@[r@.len() - 1] == k);
                }
                if m == k && r@.contains(m as usize) {
                    let w = choose|w: int| 0 <= w < r@.len() && r@[w] == m as usize;
                    if w < old_r.len() {
                        assert(old_r[w] < k);
                    }
                }
            }
        }
        k = k + 1;
    }
    r
}

/// Who started a run: `event:` and the event's name.
pub fn triggered_by(event: &str) -> (r: String)
    ensures
        r@ == "event:"@ + event@,
{
    let mut v: Vec<char> = Vec::new();
    extend_str(&mut v, "event:");
    extend_str(&mut v, event);
    string_of(v.as_slice())
}

/// The protocol after an event started it at `now`.
pub fn mark_triggered(p: &mut ProtocolTrigger, now: Timestamp)
    ensures
        final(p).last_triggered_at == Some(now),
        final(p).trigger_mode == old(p).trigger_mode,
        final(p).events == old(p).events,
{
    p.last_triggered_at = Some(now);
}

/// An event does not start a protocol again at the time it started it, nor
/// within five minutes after.
pub proof fn lemma_debounce(p: ProtocolTrigger, event: Seq<char>, then: Timestamp, now: Timestamp)
    requires
        p.last_triggered_at == Some(then),
        elapsed_secs(now, then) < MIN_TRIGGER_INTERVAL_SECS,
    ensures
        !should_trigger(p, event, now),
{
}

/// Right after a protocol is marked as started, the same event at the same
/// time does not start it again.
pub proof fn lemma_marked_not_retriggered(p: ProtocolTrigger, event: Seq<char>, now: Timestamp)
    ensures
        !should_trigger(ProtocolTrigger { last_triggered_at: Some(now), ..p }, event, now),
{
    assert(elapsed_secs(now, now) == 0);
}

/// Five minutes or more after its last start, a protocol whose mode listens
/// to events starts again on an event it lists.
pub proof fn lemma_retriggered_after_window(
    p: ProtocolTrigger,
    event: Seq<char>,
    then: Timestamp,
    now: Timestamp,
)
    requires
        p.trigger_mode is Event || p.trigger_mode is Auto,
        has_event(p, event),
        p.last_triggered_at == Some(then),
        elapsed_secs(now, then) >= MIN_TRIGGER_INTERVAL_SECS,
    ensures
        should_trigger(p, event, now),
{
}

} // verus!
