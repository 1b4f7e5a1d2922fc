//! Raw input events and their split, once per poll tick, into the events a
//! firing shortcut swallows and the events that are passed on.

use crate::binding::BindingTable;
use crate::keys::{key_event_kind, spec_key_event_kind, KeySet};
use vstd::prelude::*;

verus! {

/// One event as read from an input device: a timestamp, the event type, and
/// the code and value whose meaning depends on the type. For a key event the
/// code is the key and the value the transition.
#[derive(Clone, Copy, Debug, PartialEq, Eq, Structural)]
pub struct RawEvent {
    pub time_sec: i64,
    pub time_usec: i64,
    pub kind: u16,
    pub code: u16,
    pub value: i32,
}

impl RawEvent {
    /// Whether this is a key transition rather than a synchronization marker
    /// or another non-key event.
    pub open spec fn is_key(self) -> bool {
        self.kind == spec_key_event_kind()
    }
}

/// An event is consumed when it is a key event, its key belongs to some
/// binding's combination, and some binding is active under the snapshot
/// taken after the batch was read.
pub open spec fn consumed(table: BindingTable, pressed: Set<u16>, e: RawEvent) -> bool {
    e.is_key() && table.is_shortcut_key(e.code) && table.any_active(pressed)
}

/// The predicate that selects the events that are passed on.
pub open spec fn passes(table: BindingTable, pressed: Set<u16>) -> spec_fn(RawEvent) -> bool {
    |e: RawEvent| !consumed(table, pressed, e)
}

/// The predicate that selects the key events whose key is in no binding.
pub open spec fn plain_key(table: BindingTable) -> spec_fn(RawEvent) -> bool {
    |e: RawEvent| e.is_key() && !table.is_shortcut_key(e.code)
}

/// The predicate that selects the events that are not key events.
pub open spec fn non_key() -> spec_fn(RawEvent) -> bool {
    |e: RawEvent| !e.is_key()
}

/// Splits off the consumed events of one batch: the result holds the
/// pass-through events, each unchanged and in the order in which they came.
pub fn forward_events(table: &BindingTable, pressed: &KeySet, events: &Vec<RawEvent>) -> (out:
    Vec<RawEvent>)
    ensures
        out@ == events@.filter(passes(*table, pressed@)),
{
    let key_kind = key_event_kind();
    let shortcut_active = table.has_active(pressed);
    let mut out: Vec<RawEvent> = Vec::new();
    let mut i: usize = 0;
    proof {
        reveal(Seq::filter);
        assert(events@.take(0) =~= Seq::<RawEvent>::empty());
    }
    while i < events.len()
        invariant
            0 <= i <= events@.len(),
            key_kind == spec_key_event_kind(),
            shortcut_active == table.any_active(pressed@),
            out@ == events@.take(i as int).filter(passes(*table, pressed@)),
        decreases events@.len() - i,
    {
        let e = events[i];
        proof {
            reveal(Seq::filter);
            assert(events@.take(i as int + 1).drop_last() =~= events@.take(i as int));
            assert(events@.take(i as int + 1).last() == e);
        }
        if e.kind == key_kind && shortcut_active && table.uses_key(e.code) {
            assert(consumed(*table, pressed@, e));
        } else {
            assert(!consumed(*table, pressed@, e));
            out.push(e);
        }
        i += 1;
    }
    proof {
        assert(events@.take(i as int) =~= events@);
    }
    out
}

/// Filtering twice: when everything the second predicate selects is also
/// selected by the first, the first filter makes no difference.
pub proof fn filter_absorbs<T>(s: Seq<T>, p: spec_fn(T) -> bool, q: spec_fn(T) -> bool)
    requires
        forall|x: T| #[trigger] q(x) ==> p(x),
    ensures
        s.filter(p).filter(q) == s.filter(q),
    decreases s.len(),
{
    reveal(Seq::filter);
    if s.len() > 0 {
        let rest = s.drop_last();
        filter_absorbs(rest, p, q);
        if p(s.last()) {
            let fp = rest.filter(p);
            assert(fp.push(s.last()).drop_last() =~= fp);
        }
    }
}

/// No keystroke outside the shortcuts is lost, duplicated or reordered: the
/// forwarded events for keys that are in no binding are exactly the received
/// events for those keys, in the same order, and so also as multisets.
pub proof fn plain_keys_are_preserved(
    table: BindingTable,
    pressed: Set<u16>,
    events: Seq<RawEvent>,
)
    ensures
        events.filter(passes(table, pressed)).filter(plain_key(table)) == events.filter(
            plain_key(table),
        ),
        events.filter(passes(table, pressed)).filter(plain_key(table)).to_multiset()
            == events.filter(plain_key(table)).to_multiset(),
{
    filter_absorbs(events, passes(table, pressed), plain_key(table));
}

/// Events that are not key events are always passed on, in the order in
/// which they came.
pub proof fn non_key_events_are_preserved(
    table: BindingTable,
    pressed: Set<u16>,
    events: Seq<RawEvent>,
)
    ensures
        events.filter(passes(table, pressed)).filter(non_key()) == events.filter(non_key()),
{
    filter_absorbs(events, passes(table, pressed), non_key());
}

/// While no binding is active the whole batch is passed on unchanged, keys
/// of shortcuts included.
pub proof fn all_pass_when_nothing_active(
    table: BindingTable,
    pressed: Set<u16>,
    events: Seq<RawEvent>,
)
    requires
        !table.any_active(pressed),
    ensures
        events.filter(passes(table, pressed)) == events,
    decreases events.len(),
{
    reveal(Seq::filter);
    if events.len() > 0 {
        all_pass_when_nothing_active(table, pressed, events.drop_last());
        assert(events.drop_last().push(events.last()) =~= events);
    }
}

} // verus!
