//! Edge detection: edge selection, the decisions taken on each read from an
//! event line, debouncing, and the channel bookkeeping of edge detection.
use crate::error::Error;
use crate::gpio::{GpioState, GPIO};
use crate::gpio_cdev::{
    GPIOEVENT_REQUEST_BOTH_EDGES, GPIOEVENT_REQUEST_FALLING_EDGE, GPIOEVENT_REQUEST_RISING_EDGE,
};
use crate::gpio_pin_data::{ChannelInfo, Mode};
use std::convert::TryFrom;
use vstd::prelude::*;
use vstd::std_specs::convert::{FromSpecImpl, TryFromSpecImpl};

verus! {

broadcast use vstd::std_specs::hash::group_hash_axioms;

/// Edge detection types.
#[derive(Debug, Clone, Copy, PartialEq, Eq, Structural)]
pub enum Edge {
    /// No edge detection.
    NoEdge,
    /// Rising edges (0 to 1).
    Rising,
    /// Falling edges (1 to 0).
    Falling,
    /// Both edges.
    Both,
}

/// A number that names no edge selection.
#[derive(Debug, Clone, Copy, PartialEq, Eq, Structural)]
pub struct InvalidEventFlagError(pub u32);

/// The event flag of an edge selection.
pub open spec fn edge_flag(edge: Edge) -> u32 {
    match edge {
        Edge::NoEdge => 0,
        Edge::Rising => GPIOEVENT_REQUEST_RISING_EDGE,
        Edge::Falling => GPIOEVENT_REQUEST_FALLING_EDGE,
        Edge::Both => GPIOEVENT_REQUEST_BOTH_EDGES,
    }
}

/// The edge selection named by an event flag.
pub open spec fn edge_of_flag(flag: u32) -> Result<Edge, InvalidEventFlagError> {
    if flag == GPIOEVENT_REQUEST_RISING_EDGE {
        Ok(Edge::Rising)
    } else if flag == GPIOEVENT_REQUEST_FALLING_EDGE {
        Ok(Edge::Falling)
    } else if flag == GPIOEVENT_REQUEST_BOTH_EDGES {
        Ok(Edge::Both)
    } else if flag == 0 {
        Ok(Edge::NoEdge)
    } else {
        Err(InvalidEventFlagError(flag))
    }
}

impl From<Edge> for u32 {
    fn from(edge: Edge) -> (r: u32) {
        match edge {
            Edge::NoEdge => 0,
            Edge::Rising => GPIOEVENT_REQUEST_RISING_EDGE,
            Edge::Falling => GPIOEVENT_REQUEST_FALLING_EDGE,
            Edge::Both => GPIOEVENT_REQUEST_BOTH_EDGES,
        }
    }
}

impl FromSpecImpl<Edge> for u32 {
    open spec fn obeys_from_spec() -> bool {
        true
    }

    open spec fn from_spec(edge: Edge) -> u32 {
        edge_flag(edge)
    }
}

impl TryFrom<u32> for Edge {
    type Error = InvalidEventFlagError;

    fn try_from(flag: u32) -> (r: Result<Edge, InvalidEventFlagError>) {
        if flag == GPIOEVENT_REQUEST_RISING_EDGE {
            Ok(Edge::Rising)
        } else if flag == GPIOEVENT_REQUEST_FALLING_EDGE {
            Ok(Edge::Falling)
        } else if flag == GPIOEVENT_REQUEST_BOTH_EDGES {
            Ok(Edge::Both)
        } else if flag == 0 {
            Ok(Edge::NoEdge)
        } else {
            Err(InvalidEventFlagError(flag))
        }
    }
}

impl TryFromSpecImpl<u32> for Edge {
    open spec fn obeys_try_from_spec() -> bool {
        true
    }

    open spec fn try_from_spec(flag: u32) -> Result<Edge, InvalidEventFlagError> {
        edge_of_flag(flag)
    }
}

/// Converting an edge selection to its flag and back gives the same selection.
pub proof fn law_edge_flag_roundtrip(edge: Edge)
    ensures
        edge_of_flag(edge_flag(edge)) == Ok::<Edge, InvalidEventFlagError>(edge),
{
}

/// A flag that names an edge selection is the flag of that selection.
pub proof fn law_flag_edge_roundtrip(flag: u32)
    requires
        edge_of_flag(flag) is Ok,
    ensures
        edge_flag(edge_of_flag(flag).unwrap()) == flag,
{
}

/// Whether an event callback fires now, and the time of the last call after
/// this one, for a debounce interval `bouncetime` (none: no debouncing) and the
/// time `last_call` of the last call (none: never called). Times are in
/// nanoseconds; an instant earlier than the last call counts as no time passed.
pub open spec fn spec_debounce(bouncetime: Option<u128>, last_call: Option<u128>, now: u128) -> (bool, Option<u128>) {
    match bouncetime {
        Some(b) => {
            let fire = match last_call {
                Some(last) => (if now >= last { now - last } else { 0 }) >= b,
                None => true,
            };
            if fire {
                (true, Some(now))
            } else {
                (false, last_call)
            }
        },
        None => (true, Some(now)),
    }
}

/// Decides whether an event callback fires now.
pub fn should_trigger(bouncetime: Option<u128>, last_call: Option<u128>, now: u128) -> (r: (bool, Option<u128>))
    ensures
        r == spec_debounce(bouncetime, last_call, now),
{
    match bouncetime {
        Some(b) => {
            let fire = match last_call {
                Some(last) => {
                    let elapsed: u128 = if now >= last { now - last } else { 0 };
                    elapsed >= b
                },
                None => true,
            };
            if fire {
                (true, Some(now))
            } else {
                (false, last_call)
            }
        },
        None => (true, Some(now)),
    }
}

/// A callback never fires twice within the debounce interval.
pub proof fn law_debounce_spacing(b: u128, last_call: Option<u128>, t1: u128, t2: u128)
    requires
        t1 <= t2,
        t2 - t1 < b,
        spec_debounce(Some(b), last_call, t1).0,
    ensures
        !spec_debounce(Some(b), spec_debounce(Some(b), last_call, t1).1, t2).0,
{
}

/// What to do with the result of one read from an event line.
#[derive(Debug, Clone, Copy, PartialEq, Eq, Structural)]
pub enum ReadOutcome {
    /// The read would block: try again.
    Retry,
    /// The read failed with this error number.
    Failed(i32),
    /// Nothing was read.
    Empty,
    /// An event that is neither a rising nor a falling edge was read.
    UnknownEvent,
    /// An edge was read.
    EdgeSeen,
}

/// The outcome of a read that returned `result`; `would_block` tells whether
/// the error was that the read would block, `event_id` is the id of the event read.
pub open spec fn spec_read_outcome(result: isize, errno: i32, would_block: bool, event_id: u32) -> ReadOutcome {
    if result < 0 {
        if would_block {
            ReadOutcome::Retry
        } else {
            ReadOutcome::Failed(errno)
        }
    } else if result > 0 {
        if event_id != GPIOEVENT_REQUEST_RISING_EDGE && event_id != GPIOEVENT_REQUEST_FALLING_EDGE {
            ReadOutcome::UnknownEvent
        } else {
            ReadOutcome::EdgeSeen
        }
    } else {
        ReadOutcome::Empty
    }
}

/// Classifies the result of a read from an event line.
pub fn read_outcome(result: isize, errno: i32, would_block: bool, event_id: u32) -> (r: ReadOutcome)
    ensures
        r == spec_read_outcome(result, errno, would_block, event_id),
{
    if result < 0 {
        if would_block {
            ReadOutcome::Retry
        } else {
            ReadOutcome::Failed(errno)
        }
    } else if result > 0 {
        if event_id != GPIOEVENT_REQUEST_RISING_EDGE && event_id != GPIOEVENT_REQUEST_FALLING_EDGE {
            ReadOutcome::UnknownEvent
        } else {
            ReadOutcome::EdgeSeen
        }
    } else {
        ReadOutcome::Empty
    }
}

/// What a blocking wait does after one read from its event line.
#[derive(Debug, Clone, Copy, PartialEq, Eq, Structural)]
pub enum WaitAction {
    /// Go on with the next ready event, or poll again.
    NextEvent,
    /// Close the line and fail with this error number.
    ReadFailed(i32),
    /// Close the line and fail: the event is of an unknown type.
    UnknownEvent,
    /// Close the line and report the edge at once; no debouncing applies.
    EdgeDetected,
}

/// The action of a blocking wait on a read outcome.
pub open spec fn spec_wait_action(outcome: ReadOutcome) -> WaitAction {
    match outcome {
        ReadOutcome::Retry | ReadOutcome::Empty => WaitAction::NextEvent,
        ReadOutcome::Failed(e) => WaitAction::ReadFailed(e),
        ReadOutcome::UnknownEvent => WaitAction::UnknownEvent,
        ReadOutcome::EdgeSeen => WaitAction::EdgeDetected,
    }
}

/// Decides what a blocking wait does after a read.
pub fn wait_action(outcome: ReadOutcome) -> (r: WaitAction)
    ensures
        r == spec_wait_action(outcome),
{
    match outcome {
        ReadOutcome::Retry | ReadOutcome::Empty => WaitAction::NextEvent,
        ReadOutcome::Failed(e) => WaitAction::ReadFailed(e),
        ReadOutcome::UnknownEvent => WaitAction::UnknownEvent,
        ReadOutcome::EdgeSeen => WaitAction::EdgeDetected,
    }
}

/// The first action of a blocking wait over a run of reads that ends it;
/// none when every read lets it go on.
pub open spec fn wait_run(outcomes: Seq<ReadOutcome>) -> Option<WaitAction>
    decreases outcomes.len(),
{
    if outcomes.len() == 0 {
        None
    } else if spec_wait_action(outcomes[0]) != WaitAction::NextEvent {
        Some(spec_wait_action(outcomes[0]))
    } else {
        wait_run(outcomes.drop_first())
    }
}

/// What the handler thread of a channel with edge detection does after one
/// read from its event line.
#[derive(Debug, Clone, Copy, PartialEq, Eq, Structural)]
pub enum HandlerAction {
    /// Go on with the next ready event, or poll again.
    NextEvent,
    /// Stop reading the events of this poll.
    StopReading,
    /// Record the edge, which may fire the callbacks.
    RecordEdge,
}

/// The action of a handler thread on a read outcome: a failed read ends the
/// events of this poll, an edge is recorded, anything else is passed over.
pub open spec fn spec_handler_action(outcome: ReadOutcome) -> HandlerAction {
    match outcome {
        ReadOutcome::Failed(_) => HandlerAction::StopReading,
        ReadOutcome::EdgeSeen => HandlerAction::RecordEdge,
        _ => HandlerAction::NextEvent,
    }
}

/// Decides what a handler thread does after a read.
pub fn handler_action(outcome: ReadOutcome) -> (r: HandlerAction)
    ensures
        r == spec_handler_action(outcome),
{
    match outcome {
        ReadOutcome::Failed(_) => HandlerAction::StopReading,
        ReadOutcome::EdgeSeen => HandlerAction::RecordEdge,
        ReadOutcome::Retry | ReadOutcome::Empty | ReadOutcome::UnknownEvent => HandlerAction::NextEvent,
    }
}

/// How long a blocking wait may still poll.
#[derive(Debug, Clone, Copy, PartialEq, Eq, Structural)]
pub enum WaitBudget {
    /// No timeout: poll without limit.
    Forever,
    /// Poll for at most this many nanoseconds.
    Remaining(u128),
    /// The timeout has passed.
    Expired,
}

/// Computes what is left of a timeout after `elapsed` nanoseconds.
pub fn wait_budget(timeout: Option<u128>, elapsed: u128) -> (r: WaitBudget)
    ensures
        r == match timeout {
            None => WaitBudget::Forever,
            Some(t) => if elapsed >= t {
                WaitBudget::Expired
            } else {
                WaitBudget::Remaining((t - elapsed) as u128)
            },
        },
{
    match timeout {
        None => WaitBudget::Forever,
        Some(t) => {
            if elapsed >= t {
                WaitBudget::Expired
            } else {
                WaitBudget::Remaining(t - elapsed)
            }
        },
    }
}

/// What the registry keeps about one channel with edge detection.
#[derive(Debug, Clone, Copy, PartialEq, Eq, Structural)]
pub struct EventRecord {
    /// The debounce interval in nanoseconds; none: no debouncing.
    pub bouncetime: Option<u128>,
    /// When the callbacks last fired, in nanoseconds.
    pub last_call: Option<u128>,
    /// An edge fired since the flag was last read.
    pub event_occurred: bool,
}

/// One channel with edge detection, under the name of its chip.
#[derive(Debug)]
pub struct EventEntry {
    pub chip_name: String,
    pub channel: u32,
    pub record: EventRecord,
}

/// The key of an entry: its chip name and its channel.
pub open spec fn key_of(e: EventEntry) -> (Seq<char>, u32) {
    (e.chip_name@, e.channel)
}

/// No two entries have the same key.
pub open spec fn keys_unique(s: Seq<EventEntry>) -> bool {
    forall|i: int, j: int| 0 <= i < j < s.len() ==> key_of(#[trigger] s[i]) != key_of(#[trigger] s[j])
}

/// Some entry has key `k`.
pub open spec fn has_key(s: Seq<EventEntry>, k: (Seq<char>, u32)) -> bool {
    exists|i: int| 0 <= i < s.len() && key_of(#[trigger] s[i]) == k
}

/// The entries as a map from key to record.
pub open spec fn entries_view(s: Seq<EventEntry>) -> Map<(Seq<char>, u32), EventRecord> {
    Map::new(
        |k: (Seq<char>, u32)| has_key(s, k),
        |k: (Seq<char>, u32)| s[choose|i: int| 0 <= i < s.len() && key_of(#[trigger] s[i]) == k].record,
    )
}

/// With unique keys, the map holds each entry's record under its key.
pub proof fn lemma_entries_view_at(s: Seq<EventEntry>, i: int)
    requires
        keys_unique(s),
        0 <= i < s.len(),
    ensures
        entries_view(s).contains_key(key_of(s[i])),
        entries_view(s)[key_of(s[i])] == s[i].record,
{
    let k = key_of(s[i]);
    assert(has_key(s, k));
    let j = choose|j: int| 0 <= j < s.len() && key_of(#[trigger] s[j]) == k;
    if j < i {
        assert(key_of(s[j]) != key_of(s[i]));
    } else if i < j {
        assert(key_of(s[i]) != key_of(s[j]));
    }
}

/// Appending an entry with a new key adds its record.
pub proof fn lemma_entries_view_push(s: Seq<EventEntry>, e: EventEntry)
    requires
        keys_unique(s),
        !has_key(s, key_of(e)),
    ensures
        keys_unique(s.push(e)),
        entries_view(s.push(e)) == entries_view(s).insert(key_of(e), e.record),
{
    let t = s.push(e);
    assert forall|i: int, j: int| 0 <= i < j < t.len() implies key_of(#[trigger] t[i]) != key_of(#[trigger] t[j]) by {
        if j == s.len() {
            assert(t[i] == s[i]);
        } else {
            assert(t[i] == s[i] && t[j] == s[j]);
        }
    }
    let m = entries_view(s).insert(key_of(e), e.record);
    assert forall|k: (Seq<char>, u32)| #[trigger] entries_view(t).contains_key(k) <==> m.contains_key(k) by {
        if has_key(t, k) {
            let i = choose|i: int| 0 <= i < t.len() && key_of(#[trigger] t[i]) == k;
            if i < s.len() {
                assert(t[i] == s[i]);
                assert(has_key(s, k));
            }
        }
        if has_key(s, k) {
            let i = choose|i: int| 0 <= i < s.len() && key_of(#[trigger] s[i]) == k;
            assert(t[i] == s[i]);
            assert(has_key(t, k));
        }
        if k == key_of(e) {
            assert(t[s.len() as int] == e);
            assert(has_key(t, k));
        }
    }
    assert forall|k: (Seq<char>, u32)| #[trigger] entries_view(t).contains_key(k) implies entries_view(t)[k] == m[k] by {
        let i = choose|i: int| 0 <= i < t.len() && key_of(#[trigger] t[i]) == k;
        lemma_entries_view_at(t, i);
        if i < s.len() {
            assert(t[i] == s[i]);
            lemma_entries_view_at(s, i);
        } else {
            assert(t[i] == e);
        }
    }
    assert(entries_view(t) =~= m);
}

/// Replacing the record of an entry replaces it in the map.
pub proof fn lemma_entries_view_update(s: Seq<EventEntry>, i: int, e: EventEntry)
    requires
        keys_unique(s),
        0 <= i < s.len(),
        key_of(e) == key_of(s[i]),
    ensures
        keys_unique(s.update(i, e)),
        entries_view(s.update(i, e)) == entries_view(s).insert(key_of(e), e.record),
{
    let t = s.update(i, e);
    assert forall|a: int, b: int| 0 <= a < b < t.len() implies key_of(#[trigger] t[a]) != key_of(#[trigger] t[b]) by {
        assert(key_of(t[a]) == key_of(s[a]));
        assert(key_of(t[b]) == key_of(s[b]));
    }
    let m = entries_view(s).insert(key_of(e), e.record);
    assert forall|k: (Seq<char>, u32)| #[trigger] entries_view(t).contains_key(k) <==> m.contains_key(k) by {
        lemma_entries_view_at(s, i);
        if has_key(t, k) {
            let j = choose|j: int| 0 <= j < t.len() && key_of(#[trigger] t[j]) == k;
            assert(key_of(s[j]) == key_of(t[j]));
            assert(has_key(s, k));
        }
        if has_key(s, k) {
            let j = choose|j: int| 0 <= j < s.len() && key_of(#[trigger] s[j]) == k;
            assert(key_of(t[j]) == key_of(s[j]));
            assert(has_key(t, k));
        }
    }
    assert forall|k: (Seq<char>, u32)| #[trigger] entries_view(t).contains_key(k) implies entries_view(t)[k] == m[k] by {
        let j = choose|j: int| 0 <= j < t.len() && key_of(#[trigger] t[j]) == k;
        lemma_entries_view_at(t, j);
        if j != i {
            assert(t[j] == s[j]);
            lemma_entries_view_at(s, j);
            assert(key_of(s[j]) != key_of(s[i])) by {
                if j < i {
                    assert(key_of(s[j]) != key_of(s[i]));
                } else {
                    assert(key_of(s[i]) != key_of(s[j]));
                }
            }
        }
    }
    assert(entries_view(t) =~= m);
}

/// Removing an entry removes its key from the map.
pub proof fn lemma_entries_view_remove(s: Seq<EventEntry>, i: int)
    requires
        keys_unique(s),
        0 <= i < s.len(),
    ensures
        keys_unique(s.remove(i)),
        entries_view(s.remove(i)) == entries_view(s).remove(key_of(s[i])),
{
    let t = s.remove(i);
    assert forall|a: int, b: int| 0 <= a < b < t.len() implies key_of(#[trigger] t[a]) != key_of(#[trigger] t[b]) by {
        let a2 = if a < i { a } else { a + 1 };
        let b2 = if b < i { b } else { b + 1 };
        assert(t[a] == s[a2] && t[b] == s[b2]);
        assert(key_of(s[a2]) != key_of(s[b2]));
    }
    let m = entries_view(s).remove(key_of(s[i]));
    assert forall|k: (Seq<char>, u32)| #[trigger] entries_view(t).contains_key(k) <==> m.contains_key(k) by {
        if has_key(t, k) {
            let j = choose|j: int| 0 <= j < t.len() && key_of(#[trigger] t[j]) == k;
            let j2 = if j < i { j } else { j + 1 };
            assert(t[j] == s[j2]);
            assert(has_key(s, k));
            if j2 < i {
                assert(key_of(s[j2]) != key_of(s[i]));
            } else {
                assert(key_of(s[i]) != key_of(s[j2]));
            }
        }
        if has_key(s, k) && k != key_of(s[i]) {
            let j = choose|j: int| 0 <= j < s.len() && key_of(#[trigger] s[j]) == k;
            assert(j != i);
            let j2 = if j < i { j } else { j - 1 };
            assert(t[j2] == s[j]);
            assert(has_key(t, k));
        }
    }
    assert forall|k: (Seq<char>, u32)| #[trigger] entries_view(t).contains_key(k) implies entries_view(t)[k] == m[k] by {
        let j = choose|j: int| 0 <= j < t.len() && key_of(#[trigger] t[j]) == k;
        lemma_entries_view_at(t, j);
        let j2 = if j < i { j } else { j + 1 };
        assert(t[j] == s[j2]);
        lemma_entries_view_at(s, j2);
    }
    assert(entries_view(t) =~= m);
}

/// The keys named by a list of chip names and channels.
pub open spec fn key_pairs_view(v: Seq<(String, u32)>) -> Seq<(Seq<char>, u32)> {
    v.map_values(|p: (String, u32)| (p.0@, p.1))
}

/// The channels with edge detection, by chip name and channel, with the
/// debounce state and the event flag of each.
pub struct EventManager {
    entries: Vec<EventEntry>,
}

impl View for EventManager {
    type V = Map<(Seq<char>, u32), EventRecord>;

    closed spec fn view(&self) -> Map<(Seq<char>, u32), EventRecord> {
        entries_view(self.entries@)
    }
}

/// The record of a channel after an edge was read at time `now`, and whether
/// the callbacks fire.
pub open spec fn edge_next(r: EventRecord, now: u128) -> (EventRecord, bool) {
    let (fire, last) = spec_debounce(r.bouncetime, r.last_call, now);
    if fire {
        (EventRecord { last_call: last, event_occurred: true, ..r }, true)
    } else {
        (r, false)
    }
}

/// The registry after an edge was read at time `now` on channel `k`, and
/// whether the callbacks fire; a channel without edge detection fires nothing.
pub open spec fn record_next(m: Map<(Seq<char>, u32), EventRecord>, k: (Seq<char>, u32), now: u128) -> (
    Map<(Seq<char>, u32), EventRecord>,
    bool,
) {
    if m.contains_key(k) {
        let (rec, fire) = edge_next(m[k], now);
        (m.insert(k, rec), fire)
    } else {
        (m, false)
    }
}

/// The registry after the event flag of channel `k` was read and cleared,
/// and the flag read.
pub open spec fn detect_next(m: Map<(Seq<char>, u32), EventRecord>, k: (Seq<char>, u32)) -> (
    Map<(Seq<char>, u32), EventRecord>,
    bool,
) {
    if m.contains_key(k) {
        (m.insert(k, EventRecord { event_occurred: false, ..m[k] }), m[k].event_occurred)
    } else {
        (m, false)
    }
}

/// The registry after edges were read on channel `k` at each of the `times`
/// in turn, and whether the callbacks fired for each.
pub open spec fn record_all(m: Map<(Seq<char>, u32), EventRecord>, k: (Seq<char>, u32), times: Seq<u128>) -> (
    Map<(Seq<char>, u32), EventRecord>,
    Seq<bool>,
)
    decreases times.len(),
{
    if times.len() == 0 {
        (m, Seq::empty())
    } else {
        let (m1, fired) = record_all(m, k, times.drop_last());
        let (m2, fire) = record_next(m1, k, times.last());
        (m2, fired.push(fire))
    }
}

/// Over a run of edges, the channel stays registered, one firing is reported
/// per edge, and the event flag ends up set exactly when it was set before or
/// some edge fired.
pub proof fn lemma_record_all(m: Map<(Seq<char>, u32), EventRecord>, k: (Seq<char>, u32), times: Seq<u128>)
    requires
        m.contains_key(k),
    ensures
        record_all(m, k, times).0.contains_key(k),
        record_all(m, k, times).1.len() == times.len(),
        record_all(m, k, times).0[k].event_occurred == (m[k].event_occurred || exists|i: int|
            0 <= i < times.len() && #[trigger] record_all(m, k, times).1[i]),
    decreases times.len(),
{
    if times.len() > 0 {
        let prev = times.drop_last();
        lemma_record_all(m, k, prev);
        let (m1, fired) = record_all(m, k, prev);
        let (m2, fire) = record_next(m1, k, times.last());
        let all = fired.push(fire);
        assert(record_all(m, k, times).1 == all);
        if m2[k].event_occurred {
            if !m1[k].event_occurred {
                assert(fire);
                assert(all[prev.len() as int]);
            } else if !m[k].event_occurred {
                let i = choose|i: int| 0 <= i < prev.len() && #[trigger] fired[i];
                assert(all[i]);
            }
        } else {
            assert forall|i: int| 0 <= i < times.len() implies !#[trigger] all[i] by {
                if i < prev.len() {
                    assert(all[i] == fired[i]);
                }
            }
        }
    }
}

/// The registry after edge detection was added for channel `k`, and the result.
pub open spec fn add_next(m: Map<(Seq<char>, u32), EventRecord>, k: (Seq<char>, u32), bouncetime: Option<u128>) -> (
    Map<(Seq<char>, u32), EventRecord>,
    Result<(), Error>,
) {
    if m.contains_key(k) {
        (m, Err(Error::EventAlreadyAdded(k.1)))
    } else {
        (m.insert(k, EventRecord { bouncetime, last_call: None, event_occurred: false }), Ok(()))
    }
}

impl EventManager {
    #[verifier::type_invariant]
    spec fn inv(self) -> bool {
        keys_unique(self.entries@)
    }

    /// Creates a registry with no channel.
    pub fn new() -> (r: Self)
        ensures
            r@ == Map::<(Seq<char>, u32), EventRecord>::empty(),
    {
        let r = EventManager { entries: Vec::new() };
        proof {
            assert(r@ =~= Map::<(Seq<char>, u32), EventRecord>::empty());
        }
        r
    }

    /// Finds the entry of a chip name and channel.
    fn find(&self, name: &String, channel: u32) -> (r: Option<usize>)
        ensures
            r matches Some(i) ==> i < self.entries@.len() && key_of(self.entries@[i as int]) == (name@, channel),
            r is None ==> !has_key(self.entries@, (name@, channel)),
    {
        let n = self.entries.len();
        let mut i: usize = 0;
        while i < n
            invariant
                n == self.entries@.len(),
                i <= n,
                forall|j: int| 0 <= j < i ==> key_of(#[trigger] self.entries@[j]) != (name@, channel),
            decreases n - i,
        {
            if self.entries[i].channel == channel && self.entries[i].chip_name == *name {
                return Some(i);
            }
            i = i + 1;
        }
        None
    }

    /// Tells whether edge detection is added for a channel of a chip.
    pub fn event_added(&self, chip_name: &str, channel: u32) -> (r: bool)
        ensures
            r == self@.contains_key((chip_name@, channel)),
    {
        let name = chip_name.to_string();
        self.find(&name, channel).is_some()
    }

    /// Tells whether edge detection is added for a channel of a chip.
    pub fn is_event_added(&self, chip_name: &str, channel: u32) -> (r: bool)
        ensures
            r == self@.contains_key((chip_name@, channel)),
    {
        self.event_added(chip_name, channel)
    }

    /// Adds edge detection for a channel, with an optional debounce interval in
    /// nanoseconds; refused when it is already added.
    pub fn add_edge_detect(&mut self, chip_name: &str, channel: u32, bouncetime: Option<u128>) -> (r: Result<(), Error>)
        ensures
            (final(self)@, r) == add_next(old(self)@, (chip_name@, channel), bouncetime),
    {
        proof {
            use_type_invariant(&*self);
        }
        let name = chip_name.to_string();
        if self.find(&name, channel).is_some() {
            return Err(Error::EventAlreadyAdded(channel));
        }
        let e = EventEntry {
            chip_name: name,
            channel,
            record: EventRecord { bouncetime, last_call: None, event_occurred: false },
        };
        proof {
            lemma_entries_view_push(self.entries@, e);
        }
        let mut entries: Vec<EventEntry> = Vec::new();
        std::mem::swap(&mut entries, &mut self.entries);
        entries.push(e);
        self.entries = entries;
        Ok(())
    }

    /// Removes edge detection from every channel and returns the chip names
    /// and channels that had it, each once.
    pub fn clear(&mut self) -> (r: Vec<(String, u32)>)
        ensures
            final(self)@ == Map::<(Seq<char>, u32), EventRecord>::empty(),
            key_pairs_view(r@).no_duplicates(),
            key_pairs_view(r@).to_set() == old(self)@.dom(),
    {
        proof {
            use_type_invariant(&*self);
        }
        let ghost s = self.entries@;
        let mut keys: Vec<(String, u32)> = Vec::new();
        let n = self.entries.len();
        let mut i: usize = 0;
        while i < n
            invariant
                n == s.len(),
                s == self.entries@,
                i <= n,
                keys@.len() == i,
                forall|j: int| 0 <= j < i ==> #[trigger] key_pairs_view(keys@)[j] == key_of(s[j]),
            decreases n - i,
        {
            let name = self.entries[i].chip_name.clone();
            let ghost old_keys = keys@;
            keys.push((name, self.entries[i].channel));
            proof {
                assert forall|j: int| 0 <= j < i + 1 implies #[trigger] key_pairs_view(keys@)[j] == key_of(s[j]) by {
                    if j < i {
                        assert(keys@[j] == old_keys[j]);
                        assert(key_pairs_view(old_keys)[j] == key_of(s[j]));
                    }
                }
            }
            i = i + 1;
        }
        let ghost ks = key_pairs_view(keys@);
        proof {
            assert forall|a: int, b: int| 0 <= a < ks.len() && 0 <= b < ks.len() && a != b implies ks[a] != ks[b] by {
                if a < b {
                    assert(key_of(s[a]) != key_of(s[b]));
                } else {
                    assert(key_of(s[b]) != key_of(s[a]));
                }
            }
            assert forall|k: (Seq<char>, u32)| #[trigger] ks.to_set().contains(k) <==> old(self)@.dom().contains(k) by {
                if ks.to_set().contains(k) {
                    let a = choose|a: int| 0 <= a < ks.len() && ks[a] == k;
                    assert(key_of(s[a]) == k);
                    assert(has_key(s, k));
                }
                if has_key(s, k) {
                    let a = choose|a: int| 0 <= a < s.len() && key_of(#[trigger] s[a]) == k;
                    assert(ks[a] == k);
                    assert(ks.contains(k));
                }
            }
            assert(ks.to_set() =~= old(self)@.dom());
        }
        self.entries = Vec::new();
        proof {
            assert(self@ =~= Map::<(Seq<char>, u32), EventRecord>::empty());
        }
        keys
    }

    /// Removes edge detection from a channel; tells whether it was added.
    pub fn remove_edge_detect(&mut self, chip_name: &str, channel: u32) -> (r: bool)
        ensures
            r == old(self)@.contains_key((chip_name@, channel)),
            final(self)@ == old(self)@.remove((chip_name@, channel)),
    {
        proof {
            use_type_invariant(&*self);
        }
        let name = chip_name.to_string();
        match self.find(&name, channel) {
            None => {
                proof {
                    assert(self@ =~= old(self)@.remove((chip_name@, channel)));
                }
                false
            },
            Some(i) => {
                proof {
                    lemma_entries_view_at(self.entries@, i as int);
                    lemma_entries_view_remove(self.entries@, i as int);
                }
                let mut entries: Vec<EventEntry> = Vec::new();
                std::mem::swap(&mut entries, &mut self.entries);
                entries.remove(i);
                self.entries = entries;
                true
            },
        }
    }

    /// Reads and clears the event flag of a channel; false when the channel
    /// has no edge detection.
    pub fn edge_event_detected(&mut self, chip_name: &str, channel: u32) -> (r: bool)
        ensures
            (final(self)@, r) == detect_next(old(self)@, (chip_name@, channel)),
    {
        proof {
            use_type_invariant(&*self);
        }
        let name = chip_name.to_string();
        match self.find(&name, channel) {
            None => false,
            Some(i) => {
                let occurred = self.entries[i].record.event_occurred;
                let record = EventRecord { event_occurred: false, ..self.entries[i].record };
                let e = EventEntry { chip_name: name, channel, record };
                proof {
                    lemma_entries_view_at(self.entries@, i as int);
                    lemma_entries_view_update(self.entries@, i as int, e);
                }
                let mut entries: Vec<EventEntry> = Vec::new();
                std::mem::swap(&mut entries, &mut self.entries);
                entries.set(i, e);
                self.entries = entries;
                occurred
            },
        }
    }

    /// Records an edge read at time `now` (in nanoseconds) on a channel:
    /// tells whether its callbacks fire, which also sets its event flag.
    /// Nothing fires for a channel without edge detection.
    pub fn record_edge(&mut self, chip_name: &str, channel: u32, now: u128) -> (r: bool)
        ensures
            (final(self)@, r) == record_next(old(self)@, (chip_name@, channel), now),
    {
        proof {
            use_type_invariant(&*self);
        }
        let name = chip_name.to_string();
        match self.find(&name, channel) {
            None => false,
            Some(i) => {
                let old_record = self.entries[i].record;
                let (fire, last) = should_trigger(old_record.bouncetime, old_record.last_call, now);
                proof {
                    lemma_entries_view_at(self.entries@, i as int);
                }
                if !fire {
                    proof {
                        assert(self@.insert((chip_name@, channel), old_record) =~= self@);
                    }
                    return false;
                }
                let record = EventRecord { last_call: last, event_occurred: true, ..old_record };
                let e = EventEntry { chip_name: name, channel, record };
                proof {
                    lemma_entries_view_update(self.entries@, i as int, e);
                }
                let mut entries: Vec<EventEntry> = Vec::new();
                std::mem::swap(&mut entries, &mut self.entries);
                entries.set(i, e);
                self.entries = entries;
                true
            },
        }
    }
}

impl GpioState {
    /// Looks a channel up for edge detection: in the table of the current
    /// mode, optionally checking that it is a GPIO.
    pub open spec fn event_lookup(self, channel: u32, need_gpio: bool) -> Result<ChannelInfo, Error> {
        match self.mode {
            None => Err(Error::EventModeNotSet),
            Some(m) => if !self.tables[m].contains_key(channel) {
                Err(Error::EventInvalidChannel(channel))
            } else if need_gpio && self.tables[m][channel].gpio_chip@.len() == 0 {
                Err(Error::EventNotAGpio(channel))
            } else {
                Ok(self.tables[m][channel])
            },
        }
    }
}

impl GPIO {
    /// Looks a channel up for edge detection.
    pub fn event_channel(&self, channel: u32, need_gpio: bool) -> (r: Result<ChannelInfo, Error>)
        ensures
            r == self@.event_lookup(channel, need_gpio),
    {
        let mode: Mode = match self.gpio_mode {
            Some(m) => m,
            None => {
                return Err(Error::EventModeNotSet);
            },
        };
        let channel_data = self.channel_data_by_mode.table(mode);
        match channel_data.get(&channel) {
            None => Err(Error::EventInvalidChannel(channel)),
            Some(ch_info) => {
                if need_gpio && ch_info.gpio_chip.as_str().is_empty() {
                    Err(Error::EventNotAGpio(channel))
                } else {
                    Ok(ch_info.duplicate())
                }
            },
        }
    }

    /// Takes the line handle of a set-up channel, so that the line can be
    /// closed and requested again as an event line.
    pub fn take_line_handle(&mut self, channel: u32) -> (r: Option<i32>)
        requires
            old(self)@.wf(),
        ensures
            final(self)@.wf(),
            final(self).model == old(self).model,
            final(self).jetson_info == old(self).jetson_info,
            !old(self)@.channel_data.contains_key(channel) ==> r is None && final(self)@ == old(self)@,
            old(self)@.channel_data.contains_key(channel) ==> {
                &&& r == old(self)@.channel_data[channel].line_handle
                &&& final(self)@ == (GpioState {
                    channel_data: old(self)@.channel_data.insert(
                        channel,
                        ChannelInfo { line_handle: None, ..old(self)@.channel_data[channel] },
                    ),
                    ..old(self)@
                })
            },
    {
        match self.channel_data.get(&channel) {
            None => None,
            Some(ch) => {
                let mut ch = ch.duplicate();
                let handle = ch.line_handle;
                ch.line_handle = None;
                self.channel_data.insert(channel, ch);
                proof {
                    assert(self@.tables =~= old(self)@.tables);
                    assert(self@.channel_data.dom() =~= old(self)@.channel_data.dom());
                }
                handle
            },
        }
    }
}

} // verus!
