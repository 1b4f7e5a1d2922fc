//! The per-device session: its tick counter, one hold machine per binding,
//! and the work of one poll tick.

use crate::binding::BindingTable;
use crate::forward::{forward_events, passes, RawEvent};
use crate::hold::{hold_threshold, spec_hold_threshold, BindingRuntimeState};
use crate::keys::KeySet;
use crate::seq_facts::push_contains;
use vstd::prelude::*;

verus! {

/// What one poll tick asks of the caller: the events to emit on the
/// synthetic device, in order, and the indices of the bindings whose
/// commands are to be launched, in table order.
pub struct TickOutcome {
    pub forward: Vec<RawEvent>,
    pub fired: Vec<usize>,
}

/// The mutable state of one device session. It is owned by the session and
/// never shared between devices.
pub struct Session<'a> {
    table: &'a BindingTable,
    tick: u64,
    threshold: u64,
    states: Vec<BindingRuntimeState>,
}

impl<'a> Session<'a> {
    #[verifier::type_invariant]
    spec fn one_state_per_binding(self) -> bool {
        self.states@.len() == self.table@.len()
    }

    /// The binding table that the session reads.
    pub closed spec fn table(&self) -> BindingTable {
        *self.table
    }

    /// The number of the tick that is processed next. Ticks count from 1.
    pub closed spec fn tick(&self) -> u64 {
        self.tick
    }

    /// The hold threshold in ticks.
    pub closed spec fn threshold(&self) -> u64 {
        self.threshold
    }

    /// The hold machines, one per binding, in table order.
    pub closed spec fn states(&self) -> Seq<BindingRuntimeState> {
        self.states@
    }

    /// Whether the binding at index `i` launches its command on the tick that
    /// is processed next, given the snapshot `pressed`.
    pub open spec fn fires_at(&self, pressed: Set<u16>, i: int) -> bool {
        &&& 0 <= i < self.states().len()
        &&& self.states()[i].step(
            self.tick(),
            self.threshold(),
            self.table().active_at(i, pressed),
        ).1
    }

    /// A session for the bindings of `table`, polled every `delay_ms`
    /// milliseconds: every binding idle, the first tick ahead.
    pub fn new(table: &'a BindingTable, delay_ms: u64) -> (s: Session<'a>)
        requires
            delay_ms > 0,
        ensures
            s.table() == *table,
            s.tick() == 1,
            s.threshold() == spec_hold_threshold(delay_ms),
            s.threshold() >= 1,
            s.states().len() == table@.len(),
            forall|i: int|
                0 <= i < s.states().len() ==> s.states()[i] == (BindingRuntimeState {
                    activation_tick: 0,
                    last_fire_tick: 0,
                }),
    {
        let n = table.len();
        let mut states: Vec<BindingRuntimeState> = Vec::new();
        let mut i: usize = 0;
        while i < n
            invariant
                0 <= i <= n,
                states@.len() == i,
                forall|j: int|
                    0 <= j < i ==> states@[j] == (BindingRuntimeState {
                        activation_tick: 0,
                        last_fire_tick: 0,
                    }),
            decreases n - i,
        {
            states.push(BindingRuntimeState::idle());
            i += 1;
        }
        Session { table, tick: 1, threshold: hold_threshold(delay_ms), states }
    }

    /// The number of the tick that is processed next.
    pub fn current_tick(&self) -> (t: u64)
        ensures
            t == self.tick(),
    {
        self.tick
    }

    /// The hold threshold in ticks.
    pub fn hold_ticks(&self) -> (t: u64)
        ensures
            t == self.threshold(),
    {
        self.threshold
    }

    /// The hold machine of the binding at index `i`, if there is one.
    pub fn state_of(&self, i: usize) -> (r: Option<BindingRuntimeState>)
        ensures
            r.is_some() == (i < self.states().len()),
            r matches Some(s) ==> s == self.states()[i as int],
    {
        if i < self.states.len() {
            Some(self.states[i])
        } else {
            None
        }
    }

    /// The work of one poll tick, given the batch of events that was read
    /// and the pressed-key snapshot taken after it.
    ///
    /// The batch is split into consumed and pass-through events. Every
    /// binding's hold machine takes one step on the snapshot, independently
    /// of all others; the bindings that launch on this tick are reported in
    /// table order. The tick counter moves on by one.
    pub fn process_tick(&mut self, pressed: &KeySet, events: &Vec<RawEvent>) -> (out: TickOutcome)
        ensures
            out.forward@ == events@.filter(passes(old(self).table(), pressed@)),
            forall|i: int, j: int| 0 <= i < j < out.fired@.len() ==> out.fired@[i] < out.fired@[j],
            forall|k: usize| out.fired@.contains(k) <==> old(self).fires_at(pressed@, k as int),
            final(self).states().len() == old(self).states().len(),
            final(self).states().len() == old(self).table()@.len(),
            forall|i: int|
                0 <= i < old(self).states().len() ==> final(self).states()[i] == old(
                    self,
                ).states()[i].step(
                    old(self).tick(),
                    old(self).threshold(),
                    old(self).table().active_at(i, pressed@),
                ).0,
            final(self).tick() == old(self).tick().wrapping_add(1),
            final(self).threshold() == old(self).threshold(),
            final(self).table() == old(self).table(),
    {
        proof {
            use_type_invariant(&*self);
        }
        let table = self.table;
        let forward = forward_events(table, pressed, events);
        let mut fired: Vec<usize> = Vec::new();
        let n = self.states.len();
        let mut i: usize = 0;
        while i < n
            invariant
                0 <= i <= n,
                n == table@.len(),
                self.states@.len() == n,
                old(self).states@.len() == n,
                self.tick == old(self).tick,
                self.threshold == old(self).threshold,
                self.table == old(self).table,
                table == self.table,
                forall|j: int|
                    0 <= j < i ==> self.states@[j] == old(self).states@[j].step(
                        self.tick,
                        self.threshold,
                        table.active_at(j, pressed@),
                    ).0,
                forall|j: int| i <= j < n ==> self.states@[j] == old(self).states@[j],
                forall|a: int, b: int| 0 <= a < b < fired@.len() ==> fired@[a] < fired@[b],
                forall|a: int| 0 <= a < fired@.len() ==> fired@[a] < i,
                forall|k: usize|
                    fired@.contains(k) <==> (k < i && old(self).fires_at(pressed@, k as int)),
            decreases n - i,
        {
            let is_active = match table.get(i) {
                Some(b) => b.is_active(pressed),
                None => false,
            };
            let mut st = self.states[i];
            let launch = st.advance(self.tick, self.threshold, is_active);
            self.states[i] = st;
            let ghost prev = fired@;
            if launch {
                fired.push(i);
            }
            proof {
                assert(is_active == table.active_at(i as int, pressed@));
                assert(launch == old(self).fires_at(pressed@, i as int));
                assert forall|k: usize|
                    fired@.contains(k) <==> (k < i + 1 && old(self).fires_at(
                        pressed@,
                        k as int,
                    )) by {
                    if launch {
                        push_contains(prev, i, k);
                    }
                }
            }
            i += 1;
        }
        self.tick = self.tick.wrapping_add(1);
        TickOutcome { forward, fired }
    }
}

/// Only a binding whose combination is fully pressed launches its
/// command: a binding that fires on a tick is active under that tick's
/// snapshot.
pub proof fn only_active_bindings_fire(s: Session, pressed: Set<u16>, i: int)
    requires
        s.fires_at(pressed, i),
    ensures
        s.table().active_at(i, pressed),
{
}

/// Every binding that becomes active while idle launches its command on
/// that very tick, whatever other bindings are active at the same time.
pub proof fn every_fresh_activation_fires(s: Session, pressed: Set<u16>, i: int)
    requires
        0 <= i < s.states().len(),
        s.states()[i].is_idle(),
        s.table().active_at(i, pressed),
    ensures
        s.fires_at(pressed, i),
{
}

} // verus!
