use vstd::prelude::*;

verus! {

/// The kind of a keyboard event as the interceptor reports it.
#[derive(Debug, Clone, Copy, PartialEq, Eq, Structural)]
pub enum KeyEventKind {
    KeyDown,
    KeyUp,
    /// Any other notification; it passes through untouched.
    Other,
}

/// One keyboard event: its kind, the key code, and when it came, in
/// milliseconds of a clock that does not run backwards.
#[derive(Debug, Clone, Copy, PartialEq, Eq, Structural)]
pub struct KeyEvent {
    pub kind: KeyEventKind,
    pub key: i32,
    pub time_ms: u64,
}

/// The pressed flags after `key` went down (`pressed`) or up: every position
/// of the chord that holds `key` takes the new flag, the others keep theirs.
pub open spec fn after_states(chord: Seq<i32>, states: Seq<bool>, key: i32, pressed: bool) -> Seq<bool> {
    Seq::new(states.len(), |j: int| if chord[j] == key { pressed } else { states[j] })
}

/// Every key of the chord is held.
pub open spec fn all_pressed(states: Seq<bool>) -> bool {
    forall|j: int| 0 <= j < states.len() ==> states[j]
}

/// At least `interval` milliseconds have passed since the last trigger, or
/// there has been none.
pub open spec fn debounce_elapsed(last: Option<u64>, interval: u64, now: u64) -> bool {
    match last {
        None => true,
        Some(t) => now >= t + interval,
    }
}

/// The event is a key going down or up, and the key is one of the chord's.
pub open spec fn event_touches(chord: Seq<i32>, ev: KeyEvent) -> bool {
    ev.kind != KeyEventKind::Other && chord.contains(ev.key)
}

/// The match state of one chord: the pressed flag of each of its keys, and
/// the time of its last trigger.
pub type ChordState = (Seq<bool>, Option<u64>);

/// What one event does to a chord's match state, and whether it fires the
/// chord. It fires on a key going down that leaves every key of the chord
/// held, once the debounce interval has passed since the last trigger.
pub open spec fn step(chord: Seq<i32>, interval: u64, st: ChordState, ev: KeyEvent) -> (ChordState, bool) {
    if !event_touches(chord, ev) {
        (st, false)
    } else {
        let pressed = ev.kind == KeyEventKind::KeyDown;
        let states = after_states(chord, st.0, ev.key, pressed);
        let fired = pressed && all_pressed(states) && debounce_elapsed(st.1, interval, ev.time_ms);
        ((states, if fired { Some(ev.time_ms) } else { st.1 }), fired)
    }
}

/// The match state after a run of events, and how many times the chord fired.
pub open spec fn replay(chord: Seq<i32>, interval: u64, st: ChordState, events: Seq<KeyEvent>) -> (ChordState, nat)
    decreases events.len(),
{
    if events.len() == 0 {
        (st, 0)
    } else {
        let (mid, n) = replay(chord, interval, st, events.drop_last());
        let (last, fired) = step(chord, interval, mid, events.last());
        (last, if fired { n + 1 } else { n })
    }
}

/// One registered chord: its keys, its match state, and how it reacts.
pub struct ListenerRecord {
    /// The chord's key codes, in the order written.
    pub chord: Vec<i32>,
    /// Whether each key of `chord` is held, position by position.
    pub key_states: Vec<bool>,
    /// The least time between two triggers, in milliseconds.
    pub interval_ms: u64,
    /// Whether the chord's key events are kept from other applications.
    pub should_block: bool,
    /// When the chord last fired, if ever.
    pub last_trigger: Option<u64>,
    /// The interceptor handle while it is installed.
    pub hook_handle: Option<isize>,
}

impl ListenerRecord {
    /// One pressed flag for each key of the chord.
    pub open spec fn wf(&self) -> bool {
        self.key_states@.len() == self.chord@.len()
    }

    pub open spec fn state(&self) -> ChordState {
        (self.key_states@, self.last_trigger)
    }

    /// The record reacts to `ev`.
    pub open spec fn touched_by(&self, ev: KeyEvent) -> bool {
        event_touches(self.chord@, ev)
    }

    /// `ev` fires the record.
    pub open spec fn fired_by(&self, ev: KeyEvent) -> bool {
        step(self.chord@, self.interval_ms, self.state(), ev).1
    }

    /// `after` is `self` after `ev`: only the match state changed, as `step` says.
    pub open spec fn stepped_to(&self, after: &ListenerRecord, ev: KeyEvent) -> bool {
        &&& after.chord@ == self.chord@
        &&& after.interval_ms == self.interval_ms
        &&& after.should_block == self.should_block
        &&& after.hook_handle == self.hook_handle
        &&& after.state() == step(self.chord@, self.interval_ms, self.state(), ev).0
    }

    /// A record for a chord whose interceptor `hook_handle` was just
    /// installed: no key held, never fired.
    pub fn new(chord: Vec<i32>, should_block: bool, interval_ms: u64, hook_handle: isize) -> (r: ListenerRecord)
        ensures
            r.wf(),
            r.chord@ == chord@,
            r.key_states@ == Seq::new(chord@.len(), |j: int| false),
            r.interval_ms == interval_ms,
            r.should_block == should_block,
            r.last_trigger is None,
            r.hook_handle == Some(hook_handle),
    {
        let mut key_states: Vec<bool> = Vec::new();
        let mut i: usize = 0;
        while i < chord.len()
            invariant
                i <= chord@.len(),
                key_states@ == Seq::new(i as nat, |j: int| false),
            decreases chord@.len() - i,
        {
            key_states.push(false);
            i = i + 1;
            proof {
                assert(key_states@ =~= Seq::new(i as nat, |j: int| false));
            }
        }
        ListenerRecord { chord, key_states, interval_ms, should_block, last_trigger: None, hook_handle: Some(hook_handle) }
    }

    /// Whether the chord holds `key`.
    pub fn contains_key(&self, key: i32) -> (r: bool)
        ensures
            r == self.chord@.contains(key),
    {
        let mut i: usize = 0;
        while i < self.chord.len()
            invariant
                i <= self.chord@.len(),
                forall|j: int| 0 <= j < i ==> self.chord@[j] != key,
            decreases self.chord@.len() - i,
        {
            if self.chord[i] == key {
                return true;
            }
            i = i + 1;
        }
        false
    }

    /// Applies one key event to the match state. Returns whether the chord
    /// fired, in which case the event's time becomes the last trigger.
    pub fn on_key_event(&mut self, ev: KeyEvent) -> (fired: bool)
        requires
            old(self).wf(),
        ensures
            final(self).wf(),
            old(self).stepped_to(final(self), ev),
            fired == old(self).fired_by(ev),
    {
        if ev.kind == KeyEventKind::Other || !self.contains_key(ev.key) {
            return false;
        }
        let pressed = ev.kind == KeyEventKind::KeyDown;
        let ghost chord = self.chord@;
        let ghost before = self.key_states@;
        let mut all = true;
        let mut i: usize = 0;
        while i < self.key_states.len()
            invariant
                self.wf(),
                self.chord@ == chord,
                before.len() == chord.len(),
                i <= chord.len(),
                forall|j: int| 0 <= j < i ==> self.key_states@[j] == after_states(chord, before, ev.key, pressed)[j],
                forall|j: int| i <= j < chord.len() ==> self.key_states@[j] == before[j],
                all == (forall|j: int| 0 <= j < i ==> after_states(chord, before, ev.key, pressed)[j]),
                self.interval_ms == old(self).interval_ms,
                self.should_block == old(self).should_block,
                self.last_trigger == old(self).last_trigger,
                self.hook_handle == old(self).hook_handle,
            decreases chord.len() - i,
        {
            if self.chord[i] == ev.key {
                self.key_states.set(i, pressed);
            }
            let held = self.key_states[i];
            proof {
                let target = after_states(chord, before, ev.key, pressed);
                assert(held == target[i as int]);
                if all && held {
                    assert forall|j: int| 0 <= j < i + 1 implies target[j] by {
                        if j < i {
                        }
                    }
                } else if !held {
                    assert(!target[i as int]);
                }
            }
            all = all && held;
            i = i + 1;
        }
        proof {
            assert(self.key_states@ =~= after_states(chord, before, ev.key, pressed));
        }
        let elapsed = match self.last_trigger {
            None => true,
            Some(t) => ev.time_ms >= t && ev.time_ms - t >= self.interval_ms,
        };
        if pressed && all && elapsed {
            self.last_trigger = Some(ev.time_ms);
            true
        } else {
            false
        }
    }
}

/// The positions, below `n`, of the records that `ev` fires, in order.
pub open spec fn fired_indices(recs: Seq<ListenerRecord>, ev: KeyEvent, n: int) -> Seq<usize>
    decreases n,
{
    if n <= 0 {
        Seq::<usize>::empty()
    } else if recs[n - 1].fired_by(ev) {
        fired_indices(recs, ev, n - 1).push((n - 1) as usize)
    } else {
        fired_indices(recs, ev, n - 1)
    }
}

/// Some record that reacts to `ev` asks for its events to be suppressed.
pub open spec fn any_blocks(recs: Seq<ListenerRecord>, ev: KeyEvent) -> bool {
    exists|j: int| 0 <= j < recs.len() && #[trigger] recs[j].touched_by(ev) && recs[j].should_block
}

/// The interceptor handles still installed among the first `n` records, in order.
pub open spec fn installed_handles(recs: Seq<ListenerRecord>, n: int) -> Seq<isize>
    decreases n,
{
    if n <= 0 {
        Seq::<isize>::empty()
    } else {
        match recs[n - 1].hook_handle {
            Some(h) => installed_handles(recs, n - 1).push(h),
            None => installed_handles(recs, n - 1),
        }
    }
}

/// What the engine decided about one key event.
pub struct EventOutcome {
    /// The positions of the records whose chord fired, in registration order;
    /// their callbacks are due.
    pub fired: Vec<usize>,
    /// Whether the event is kept from other applications.
    pub suppress: bool,
}

/// The registered chords, in registration order.
pub struct ListenerRegistry {
    pub records: Vec<ListenerRecord>,
}

impl ListenerRegistry {
    pub open spec fn wf(&self) -> bool {
        forall|j: int| 0 <= j < self.records@.len() ==> (#[trigger] self.records@[j]).wf()
    }

    pub fn new() -> (r: ListenerRegistry)
        ensures
            r.wf(),
            r.records@.len() == 0,
    {
        ListenerRegistry { records: Vec::new() }
    }

    /// The number of registered chords.
    pub fn len(&self) -> (r: usize)
        ensures
            r == self.records@.len(),
    {
        self.records.len()
    }

    /// Registers a chord after the others.
    pub fn add(&mut self, record: ListenerRecord)
        requires
            old(self).wf(),
            record.wf(),
        ensures
            final(self).wf(),
            final(self).records@ == old(self).records@.push(record),
    {
        self.records.push(record);
    }

    /// Hands one key event to every registered chord. Each record's match
    /// state moves as `step` says; the outcome lists the records that fired
    /// and suppresses the event if any record that the event concerns asks
    /// for it.
    pub fn handle_key_event(&mut self, ev: KeyEvent) -> (r: EventOutcome)
        requires
            old(self).wf(),
        ensures
            final(self).wf(),
            final(self).records@.len() == old(self).records@.len(),
            forall|j: int| 0 <= j < old(self).records@.len() ==>
                (#[trigger] old(self).records@[j]).stepped_to(&final(self).records@[j], ev),
            r.fired@ == fired_indices(old(self).records@, ev, old(self).records@.len() as int),
            r.suppress == any_blocks(old(self).records@, ev),
    {
        let ghost before = self.records@;
        let mut fired: Vec<usize> = Vec::new();
        let mut suppress = false;
        if ev.kind == KeyEventKind::Other {
            proof {
                assert forall|j: int| 0 <= j < before.len() implies !(#[trigger] before[j]).touched_by(ev) by {}
                assert forall|j: int| 0 <= j < before.len() implies !(#[trigger] before[j]).fired_by(ev) by {}
                lemma_none_fired(before, ev, before.len() as int);
            }
            return EventOutcome { fired, suppress };
        }
        let mut i: usize = 0;
        while i < self.records.len()
            invariant
                ev.kind != KeyEventKind::Other,
                self.wf(),
                self.records@.len() == before.len(),
                i <= before.len(),
                forall|j: int| 0 <= j < i ==> (#[trigger] before[j]).stepped_to(&self.records@[j], ev),
                forall|j: int| i <= j < before.len() ==> #[trigger] self.records@[j] == before[j],
                fired@ == fired_indices(before, ev, i as int),
                suppress == (exists|j: int| 0 <= j < i && #[trigger] before[j].touched_by(ev) && before[j].should_block),
            decreases before.len() - i,
        {
            let touched = self.records[i].contains_key(ev.key);
            let fires = self.records[i].on_key_event(ev);
            if fires {
                fired.push(i);
            }
            if touched && self.records[i].should_block {
                suppress = true;
            }
            proof {
                assert(before[i as int].touched_by(ev) == touched);
                assert(self.records@[i as int].wf());
            }
            i = i + 1;
        }
        EventOutcome { fired, suppress }
    }

    /// Marks the interceptor `handle` as removed in every record that holds
    /// it. Returns whether any did, that is whether it was still installed.
    pub fn release_handle(&mut self, handle: isize) -> (held: bool)
        requires
            old(self).wf(),
        ensures
            final(self).wf(),
            final(self).records@.len() == old(self).records@.len(),
            held == exists|j: int| 0 <= j < old(self).records@.len() && (#[trigger] old(self).records@[j]).hook_handle == Some(handle),
            forall|j: int| 0 <= j < old(self).records@.len() ==> {
                let (a, b) = (#[trigger] old(self).records@[j], final(self).records@[j]);
                &&& b.chord@ == a.chord@
                &&& b.state() == a.state()
                &&& b.interval_ms == a.interval_ms
                &&& b.should_block == a.should_block
                &&& b.hook_handle == if a.hook_handle == Some(handle) { None } else { a.hook_handle }
            },
    {
        let ghost before = self.records@;
        let mut held = false;
        let mut i: usize = 0;
        while i < self.records.len()
            invariant
                self.wf(),
                self.records@.len() == before.len(),
                i <= before.len(),
                forall|j: int| 0 <= j < before.len() ==> {
                    let (a, b) = (#[trigger] before[j], self.records@[j]);
                    &&& b.chord@ == a.chord@
                    &&& b.state() == a.state()
                    &&& b.interval_ms == a.interval_ms
                    &&& b.should_block == a.should_block
                    &&& b.hook_handle == if j < i && a.hook_handle == Some(handle) { None } else { a.hook_handle }
                },
                held == exists|j: int| 0 <= j < i && (#[trigger] before[j]).hook_handle == Some(handle),
            decreases before.len() - i,
        {
            let matches_handle = self.records[i].hook_handle == Some(handle);
            proof {
                assert(matches_handle == (before[i as int].hook_handle == Some(handle)));
            }
            if matches_handle {
                self.records[i].hook_handle = None;
                held = true;
            }
            proof {
                assert(self.records@[i as int].wf());
                if !matches_handle {
                    assert(!(before[i as int].hook_handle == Some(handle)));
                }
            }
            i = i + 1;
        }
        held
    }

    /// Empties the registry. Returns the interceptor handles that were still
    /// installed, in registration order, for the caller to remove.
    pub fn unlisten(&mut self) -> (handles: Vec<isize>)
        ensures
            final(self).wf(),
            final(self).records@.len() == 0,
            handles@ == installed_handles(old(self).records@, old(self).records@.len() as int),
    {
        let mut handles: Vec<isize> = Vec::new();
        let mut i: usize = 0;
        while i < self.records.len()
            invariant
                self.records@ == old(self).records@,
                i <= self.records@.len(),
                handles@ == installed_handles(self.records@, i as int),
            decreases self.records@.len() - i,
        {
            match self.records[i].hook_handle {
                Some(h) => handles.push(h),
                None => {},
            }
            i = i + 1;
        }
        self.records = Vec::new();
        handles
    }
}

/// A run of records of which none fires has no fired positions.
proof fn lemma_none_fired(recs: Seq<ListenerRecord>, ev: KeyEvent, n: int)
    requires
        n <= recs.len(),
        forall|j: int| 0 <= j < recs.len() ==> !(#[trigger] recs[j]).fired_by(ev),
    ensures
        fired_indices(recs, ev, n) == Seq::<usize>::empty(),
    decreases n,
{
    if n > 0 {
        lemma_none_fired(recs, ev, n - 1);
    }
}

/// Replaying events keeps one pressed flag per key of the chord.
proof fn lemma_replay_len(chord: Seq<i32>, interval: u64, st: ChordState, events: Seq<KeyEvent>)
    requires
        st.0.len() == chord.len(),
    ensures
        replay(chord, interval, st, events).0.0.len() == chord.len(),
    decreases events.len(),
{
    if events.len() > 0 {
        lemma_replay_len(chord, interval, st, events.drop_last());
    }
}

/// Debounce: once a chord has fired at `t0`, no run of events that all come
/// before `t0 + interval` fires it again, and its last trigger stays `t0`.
pub proof fn lemma_debounce_quiet(chord: Seq<i32>, interval: u64, st: ChordState, t0: u64, events: Seq<KeyEvent>)
    requires
        st.1 == Some(t0),
        forall|i: int| 0 <= i < events.len() ==> (#[trigger] events[i]).time_ms < t0 + interval,
    ensures
        replay(chord, interval, st, events).1 == 0,
        replay(chord, interval, st, events).0.1 == Some(t0),
    decreases events.len(),
{
    if events.len() > 0 {
        lemma_debounce_quiet(chord, interval, st, t0, events.drop_last());
        assert(events.last() == events[events.len() - 1]);
    }
}

/// Debounce: a key going down at or after `t0 + interval` that leaves every
/// key of the chord held fires the chord, when it last fired at `t0`.
pub proof fn lemma_debounce_rearms(chord: Seq<i32>, interval: u64, st: ChordState, t0: u64, ev: KeyEvent)
    requires
        st.1 == Some(t0),
        ev.kind == KeyEventKind::KeyDown,
        chord.contains(ev.key),
        all_pressed(after_states(chord, st.0, ev.key, true)),
        ev.time_ms >= t0 + interval,
    ensures
        step(chord, interval, st, ev).1,
        step(chord, interval, st, ev).0.1 == Some(ev.time_ms),
{
}

/// A chord one of whose keys is up never fires while that key does not go
/// down, whatever the other keys do and whenever they do it.
pub proof fn lemma_partial_press_never_fires(chord: Seq<i32>, interval: u64, st: ChordState, k: int, events: Seq<KeyEvent>)
    requires
        0 <= k < chord.len(),
        st.0.len() == chord.len(),
        !st.0[k],
        forall|i: int| 0 <= i < events.len() ==>
            !((#[trigger] events[i]).kind == KeyEventKind::KeyDown && events[i].key == chord[k]),
    ensures
        replay(chord, interval, st, events).1 == 0,
        !replay(chord, interval, st, events).0.0[k],
    decreases events.len(),
{
    if events.len() > 0 {
        let prefix = events.drop_last();
        assert forall|i: int| 0 <= i < prefix.len() implies
            !((#[trigger] prefix[i]).kind == KeyEventKind::KeyDown && prefix[i].key == chord[k]) by {
            assert(prefix[i] == events[i]);
        }
        lemma_partial_press_never_fires(chord, interval, st, k, prefix);
        lemma_replay_len(chord, interval, st, prefix);
        let ev = events.last();
        assert(ev == events[events.len() - 1]);
        let mid = replay(chord, interval, st, prefix).0;
        if event_touches(chord, ev) {
            let states = after_states(chord, mid.0, ev.key, ev.kind == KeyEventKind::KeyDown);
            assert(!states[k]);
        }
    }
}

/// Releasing one key of a chord that last fired at `t0` while the others stay
/// held, then pressing it again at `t_down`, fires the chord exactly once if
/// `t_down` is at or after `t0 + interval`, and not at all before.
pub proof fn lemma_release_then_repress(chord: Seq<i32>, interval: u64, st: ChordState, t0: u64, k: int, t_up: u64, t_down: u64)
    requires
        0 <= k < chord.len(),
        st.0.len() == chord.len(),
        st.1 == Some(t0),
        forall|j: int| 0 <= j < chord.len() && chord[j] != chord[k] ==> st.0[j],
    ensures
        replay(chord, interval, st, seq![
            KeyEvent { kind: KeyEventKind::KeyUp, key: chord[k], time_ms: t_up },
            KeyEvent { kind: KeyEventKind::KeyDown, key: chord[k], time_ms: t_down },
        ]).1 == if t_down >= t0 + interval { 1nat } else { 0nat },
{
    let up = KeyEvent { kind: KeyEventKind::KeyUp, key: chord[k], time_ms: t_up };
    let down = KeyEvent { kind: KeyEventKind::KeyDown, key: chord[k], time_ms: t_down };
    let events = seq![up, down];
    assert(events.drop_last() =~= seq![up]);
    assert(seq![up].drop_last() =~= Seq::<KeyEvent>::empty());
    assert(chord.contains(chord[k]));
    let (mid, f1) = step(chord, interval, st, up);
    assert(!f1);
    assert(replay(chord, interval, st, Seq::<KeyEvent>::empty()) == (st, 0nat));
    assert(replay(chord, interval, st, seq![up]) == (mid, 0nat));
    assert(events.last() == down);
    let states = after_states(chord, mid.0, chord[k], true);
    assert forall|j: int| 0 <= j < states.len() implies states[j] by {
        if chord[j] != chord[k] {
            assert(st.0[j]);
        }
    }
    assert(all_pressed(states));
}

/// Tearing down twice: once the registry is empty, tearing it down again finds
/// no interceptor to remove.
pub proof fn lemma_unlisten_idempotent(recs: Seq<ListenerRecord>)
    requires
        recs.len() == 0,
    ensures
        installed_handles(recs, recs.len() as int) == Seq::<isize>::empty(),
{
}

} // verus!
