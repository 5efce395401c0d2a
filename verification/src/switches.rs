//! The eight key switches and their debouncing.

use vstd::prelude::*;

verus! {

/// How long (ms) a switch reading has to stay the same before it is trusted.
pub const DEBOUNCE_MS: u64 = 10;

/// One of the eight key switches of the panel.
#[derive(Clone, Copy, PartialEq, Eq, Structural, Debug)]
pub enum SwitchId {
    Sw1,
    Sw2,
    Sw3,
    Sw4,
    Sw5,
    Sw6,
    Sw7,
    Sw8,
}

impl SwitchId {
    /// Every switch, in panel order.
    pub const ALL: [SwitchId; 8] = [
        SwitchId::Sw1,
        SwitchId::Sw2,
        SwitchId::Sw3,
        SwitchId::Sw4,
        SwitchId::Sw5,
        SwitchId::Sw6,
        SwitchId::Sw7,
        SwitchId::Sw8,
    ];

    /// Position of the switch in panel order (`Sw1` is 0).
    pub open spec fn spec_index(self) -> int {
        match self {
            SwitchId::Sw1 => 0,
            SwitchId::Sw2 => 1,
            SwitchId::Sw3 => 2,
            SwitchId::Sw4 => 3,
            SwitchId::Sw5 => 4,
            SwitchId::Sw6 => 5,
            SwitchId::Sw7 => 6,
            SwitchId::Sw8 => 7,
        }
    }

    /// Position of the switch in panel order (`Sw1` is 0).
    pub fn index(self) -> (i: usize)
        ensures
            i == self.spec_index(),
            i < 8,
    {
        match self {
            SwitchId::Sw1 => 0,
            SwitchId::Sw2 => 1,
            SwitchId::Sw3 => 2,
            SwitchId::Sw4 => 3,
            SwitchId::Sw5 => 4,
            SwitchId::Sw6 => 5,
            SwitchId::Sw7 => 6,
            SwitchId::Sw8 => 7,
        }
    }
}

/// One switch with its debounce state.
///
/// `pending` is the most recent raw reading, `changed_at` the time (ms) at
/// which the raw reading last flipped, and `on` the debounced state.
#[derive(Clone, Copy, PartialEq, Eq, Structural, Debug)]
pub struct DebouncedSwitch {
    pub on: bool,
    pub pending: bool,
    pub changed_at: u64,
}

/// The debounce state after one raw reading `raw` taken at time `now` (ms).
///
/// A reading that differs from the last one restarts the timer; a reading that
/// agrees with it and has been steady for at least `DEBOUNCE_MS` is trusted.
pub open spec fn debounce_step(s: DebouncedSwitch, raw: bool, now: u64) -> DebouncedSwitch {
    if raw != s.pending {
        DebouncedSwitch { on: s.on, pending: raw, changed_at: now }
    } else if now >= s.changed_at + DEBOUNCE_MS {
        DebouncedSwitch { on: s.pending, pending: s.pending, changed_at: s.changed_at }
    } else {
        s
    }
}

impl DebouncedSwitch {
    /// A released switch whose timer starts at time 0.
    pub open spec fn new_spec() -> DebouncedSwitch {
        DebouncedSwitch { on: false, pending: false, changed_at: 0 }
    }

    /// A released switch whose timer starts at time 0.
    pub fn new() -> (s: DebouncedSwitch)
        ensures
            s == DebouncedSwitch::new_spec(),
    {
        DebouncedSwitch { on: false, pending: false, changed_at: 0 }
    }

    /// Feeds one raw reading (`true` = contact closed) taken at time `now` (ms).
    pub fn update(&mut self, raw: bool, now: u64)
        ensures
            *final(self) == debounce_step(*old(self), raw, now),
    {
        if raw != self.pending {
            // reading flipped, restart the debounce timer
            self.pending = raw;
            self.changed_at = now;
        } else if now.saturating_sub(self.changed_at) >= DEBOUNCE_MS {
            // been steady long enough, go ahead and trust it
            self.on = self.pending;
        }
    }

    /// The debounced state.
    pub fn on(&self) -> (b: bool)
        ensures
            b == self.on,
    {
        self.on
    }
}

/// The debounce state after feeding `samples` (raw reading, time in ms) in
/// order, starting from `s`.
pub open spec fn debounce_run(s: DebouncedSwitch, samples: Seq<(bool, u64)>) -> DebouncedSwitch
    decreases samples.len(),
{
    if samples.len() == 0 {
        s
    } else {
        let last = samples.last();
        debounce_step(debounce_run(s, samples.drop_last()), last.0, last.1)
    }
}

/// Sample times that never go backwards, none of them before the last flip
/// recorded in `s`.
pub open spec fn times_ordered(s: DebouncedSwitch, samples: Seq<(bool, u64)>) -> bool {
    &&& samples.len() > 0 ==> s.changed_at <= samples[0].1
    &&& forall|a: int, b: int| 0 <= a <= b < samples.len() ==> samples[a].1 <= samples[b].1
}

/// A reading that differs from the previous one never changes the debounced
/// state in the same update: it only restarts the timer.
pub proof fn lemma_flip_restarts_timer(s: DebouncedSwitch, raw: bool, now: u64)
    requires
        raw != s.pending,
    ensures
        debounce_step(s, raw, now).on == s.on,
        debounce_step(s, raw, now).pending == raw,
        debounce_step(s, raw, now).changed_at == now,
{
}

/// The debounced state only ever changes to the current reading, and only
/// when that reading agrees with the previous one and has been steady for at
/// least `DEBOUNCE_MS` since it last flipped.
pub proof fn lemma_change_needs_steady_reading(s: DebouncedSwitch, raw: bool, now: u64)
    ensures
        debounce_step(s, raw, now).on != s.on ==> {
            &&& debounce_step(s, raw, now).on == raw
            &&& raw == s.pending
            &&& now >= s.changed_at + DEBOUNCE_MS
        },
{
}

/// A single reading that deviates from a settled switch never changes its
/// debounced state, however far apart in time the readings are.
pub proof fn lemma_single_glitch_ignored(s: DebouncedSwitch, t1: u64, t2: u64)
    requires
        s.on == s.pending,
    ensures
        debounce_run(s, seq![(!s.on, t1), (s.on, t2)]).on == s.on,
        debounce_run(s, seq![(!s.on, t1), (s.on, t2)]).pending == s.on,
{
    reveal_with_fuel(debounce_run, 3);
    let samples = seq![(!s.on, t1), (s.on, t2)];
    assert(samples.drop_last() =~= seq![(!s.on, t1)]);
    assert(seq![(!s.on, t1)].drop_last() =~= Seq::<(bool, u64)>::empty());
}

/// Two equal readings taken at least `DEBOUNCE_MS` apart make the debounced
/// state follow them.
pub proof fn lemma_two_steady_readings(s: DebouncedSwitch, raw: bool, t1: u64, t2: u64)
    requires
        s.changed_at <= t1,
        t1 + DEBOUNCE_MS <= t2,
    ensures
        debounce_step(debounce_step(s, raw, t1), raw, t2).on == raw,
{
}

/// With sample times that never go backwards, the recorded flip time is never
/// later than the latest sample.
proof fn lemma_flip_time_bounded(s: DebouncedSwitch, samples: Seq<(bool, u64)>)
    requires
        samples.len() > 0,
        times_ordered(s, samples),
    ensures
        debounce_run(s, samples).changed_at <= samples.last().1,
    decreases samples.len(),
{
    let prefix = samples.drop_last();
    if prefix.len() > 0 {
        assert(times_ordered(s, prefix));
        lemma_flip_time_bounded(s, prefix);
        assert(prefix.last() == samples[samples.len() - 2]);
    } else {
        assert(debounce_run(s, prefix) == s);
    }
}

/// Once the reading `raw` has been seen at sample `j` and at every later
/// sample, the last reading is `raw` and the timer has not been restarted
/// after sample `j`.
proof fn lemma_steady_tail(s: DebouncedSwitch, samples: Seq<(bool, u64)>, j: int, raw: bool)
    requires
        0 <= j < samples.len(),
        forall|k: int| j <= k < samples.len() ==> samples[k].0 == raw,
        times_ordered(s, samples),
    ensures
        debounce_run(s, samples).pending == raw,
        debounce_run(s, samples).changed_at <= samples[j].1,
    decreases samples.len(),
{
    let prefix = samples.drop_last();
    if samples.len() - 1 == j {
        if prefix.len() > 0 {
            assert(times_ordered(s, prefix));
            lemma_flip_time_bounded(s, prefix);
            assert(prefix.last() == samples[j - 1]);
        } else {
            assert(debounce_run(s, prefix) == s);
        }
    } else {
        assert(times_ordered(s, prefix));
        lemma_steady_tail(s, prefix, j, raw);
    }
}

/// Debouncing: a reading that has stayed the same from sample `j` on, over a
/// span of at least `DEBOUNCE_MS`, is the debounced state after the last
/// sample.
pub proof fn lemma_steady_reading_trusted(
    s: DebouncedSwitch,
    samples: Seq<(bool, u64)>,
    j: int,
    raw: bool,
)
    requires
        0 <= j < samples.len(),
        forall|k: int| j <= k < samples.len() ==> samples[k].0 == raw,
        times_ordered(s, samples),
        samples.last().1 >= samples[j].1 + DEBOUNCE_MS,
    ensures
        debounce_run(s, samples).on == raw,
{
    let n = samples.len();
    let prefix = samples.drop_last();
    assert(j < n - 1);
    assert(times_ordered(s, prefix));
    lemma_steady_tail(s, prefix, j, raw);
}

/// What a run of readings did to a switch that started settled: either every
/// reading agreed with its starting reading and nothing changed (`-1`), or the
/// last flip of the reading was at the returned sample index `j`, the timer
/// was restarted there, and every reading from `j` on is that same reading.
proof fn lemma_run_history(s: DebouncedSwitch, samples: Seq<(bool, u64)>) -> (j: int)
    requires
        s.on == s.pending,
    ensures
        j == -1 ==> {
            &&& debounce_run(s, samples) == s
            &&& forall|m: int| 0 <= m < samples.len() ==> samples[m].0 == s.pending
        },
        j != -1 ==> {
            &&& 0 <= j < samples.len()
            &&& debounce_run(s, samples).changed_at == samples[j].1
            &&& debounce_run(s, samples).pending == samples[j].0
            &&& forall|m: int| j <= m < samples.len() ==> samples[m].0 == samples[j].0
        },
    decreases samples.len(),
{
    if samples.len() == 0 {
        -1
    } else {
        let n = samples.len();
        let prefix = samples.drop_last();
        let prev = debounce_run(s, prefix);
        let jp = lemma_run_history(s, prefix);
        let last = samples.last();
        if last.0 != prev.pending {
            n - 1
        } else if jp == -1 {
            assert forall|m: int| 0 <= m < n implies samples[m].0 == s.pending by {
                if m < n - 1 {
                    assert(samples[m] == prefix[m]);
                }
            }
            -1
        } else {
            assert forall|m: int| jp <= m < n implies samples[m].0 == samples[jp].0 by {
                if m < n - 1 {
                    assert(samples[m] == prefix[m]);
                }
            }
            jp
        }
    }
}

/// The debounced state only ever moves to a reading that stayed the same over
/// consecutive samples for at least `DEBOUNCE_MS`: when the last sample of a
/// run changes the state of a switch that started settled (as a new switch
/// does), there is an earlier sample `j` from which every reading equals the
/// new state, and the last sample is at least `DEBOUNCE_MS` after sample `j`.
pub proof fn lemma_change_needs_steady_run(s: DebouncedSwitch, samples: Seq<(bool, u64)>)
    requires
        s.on == s.pending,
        samples.len() > 0,
        debounce_run(s, samples).on != debounce_run(s, samples.drop_last()).on,
    ensures
        exists|j: int|
            0 <= j < samples.len() - 1 && samples.last().1 >= samples[j].1 + DEBOUNCE_MS && (
            forall|m: int| j <= m < samples.len() ==> #[trigger] samples[m].0 == debounce_run(
                s,
                samples,
            ).on),
{
    let n = samples.len();
    let prefix = samples.drop_last();
    let prev = debounce_run(s, prefix);
    let j = lemma_run_history(s, prefix);
    let last = samples.last();
    assert(last.0 == prev.pending);
    assert(debounce_run(s, samples).on == prev.pending);
    if j == -1 {
        assert(prev == s);
        assert(false);
    } else {
        assert(samples[j] == prefix[j]);
        assert forall|m: int| j <= m < n implies #[trigger] samples[m].0 == debounce_run(
            s,
            samples,
        ).on by {
            if m < n - 1 {
                assert(samples[m] == prefix[m]);
            }
        }
    }
}

/// A new switch starts settled (released, with the reading released).
pub proof fn lemma_new_switch_settled()
    ensures
        DebouncedSwitch::new_spec().on == DebouncedSwitch::new_spec().pending,
{
}

/// The states of all eight switches after one `Switches::upd` with readings
/// `low` at time `now`.
pub open spec fn switches_step(v: Seq<DebouncedSwitch>, low: [bool; 8], now: u64) -> Seq<
    DebouncedSwitch,
> {
    Seq::new(8, |i: int| debounce_step(v[i], low[i], now))
}

/// The states of all eight switches after a run of `Switches::upd` calls, one
/// per element of `readings` (the readings of all switches and the time).
pub open spec fn switches_run(v: Seq<DebouncedSwitch>, readings: Seq<([bool; 8], u64)>) -> Seq<
    DebouncedSwitch,
>
    decreases readings.len(),
{
    if readings.len() == 0 {
        v
    } else {
        let last = readings.last();
        switches_step(switches_run(v, readings.drop_last()), last.0, last.1)
    }
}

/// The samples that the switch at panel position `i` sees in a run of
/// `Switches::upd` calls: its own reading and the time of each call.
pub open spec fn samples_of(readings: Seq<([bool; 8], u64)>, i: int) -> Seq<(bool, u64)> {
    Seq::new(readings.len(), |k: int| (readings[k].0[i], readings[k].1))
}

/// Over a run of updates, each switch is debounced on its own samples alone.
proof fn lemma_switches_run_project(
    v: Seq<DebouncedSwitch>,
    readings: Seq<([bool; 8], u64)>,
    i: int,
)
    requires
        0 <= i < 8,
    ensures
        switches_run(v, readings)[i] == debounce_run(v[i], samples_of(readings, i)),
    decreases readings.len(),
{
    if readings.len() > 0 {
        let prefix = readings.drop_last();
        lemma_switches_run_project(v, prefix, i);
        assert(samples_of(prefix, i) =~= samples_of(readings, i).drop_last());
    } else {
        assert(samples_of(readings, i) =~= Seq::<(bool, u64)>::empty());
    }
}

/// A switch's reported state depends only on its own readings and the times
/// of the updates: two runs that give switch `i` the same starting state and
/// the same samples leave it in the same state, whatever the other switches
/// read.
pub proof fn lemma_switch_depends_only_on_own_readings(
    v1: Seq<DebouncedSwitch>,
    v2: Seq<DebouncedSwitch>,
    readings1: Seq<([bool; 8], u64)>,
    readings2: Seq<([bool; 8], u64)>,
    i: int,
)
    requires
        0 <= i < 8,
        v1[i] == v2[i],
        samples_of(readings1, i) == samples_of(readings2, i),
    ensures
        switches_run(v1, readings1)[i] == switches_run(v2, readings2)[i],
{
    lemma_switches_run_project(v1, readings1, i);
    lemma_switches_run_project(v2, readings2, i);
}

/// A press or release held for `DEBOUNCE_MS` is reported: if over a run of
/// `Switches::upd` calls at times that never go backwards (none before the
/// switch's last recorded flip) the switch at panel position `i` reads `raw`
/// from call `j` on, and the last call is at least `DEBOUNCE_MS` after call
/// `j`, its debounced state is `raw` afterwards.
pub proof fn lemma_switch_steady_reading_reported(
    v: Seq<DebouncedSwitch>,
    readings: Seq<([bool; 8], u64)>,
    i: int,
    j: int,
    raw: bool,
)
    requires
        0 <= i < 8,
        0 <= j < readings.len(),
        forall|k: int| j <= k < readings.len() ==> (#[trigger] readings[k]).0[i] == raw,
        times_ordered(v[i], samples_of(readings, i)),
        readings.last().1 >= readings[j].1 + DEBOUNCE_MS,
    ensures
        switches_run(v, readings)[i].on == raw,
{
    let samples = samples_of(readings, i);
    lemma_switches_run_project(v, readings, i);
    assert forall|k: int| j <= k < samples.len() implies samples[k].0 == raw by {
        assert(samples[k] == (readings[k].0[i], readings[k].1));
    }
    assert(samples.last() == (readings.last().0[i], readings.last().1));
    lemma_steady_reading_trusted(v[i], samples, j, raw);
}

/// The debounce state of all eight switches, in panel order.
///
/// The pins themselves are read elsewhere; each update hands over whether the
/// line of each switch reads low (the switches use pull-ups, so a closed
/// contact reads low).
pub struct Switches {
    states: [DebouncedSwitch; 8],
}

impl View for Switches {
    type V = Seq<DebouncedSwitch>;

    closed spec fn view(&self) -> Seq<DebouncedSwitch> {
        self.states@
    }
}

impl Switches {
    /// Whether the debounced state of `switch` is "pressed".
    pub open spec fn is_pressed(self, switch: SwitchId) -> bool {
        self@[switch.spec_index()].on
    }

    /// All eight switches released, with their timers at 0.
    pub fn new() -> (s: Switches)
        ensures
            s@.len() == 8,
            forall|i: int| 0 <= i < 8 ==> s@[i] == DebouncedSwitch::new_spec(),
    {
        Switches {
            states: [
                DebouncedSwitch::new(),
                DebouncedSwitch::new(),
                DebouncedSwitch::new(),
                DebouncedSwitch::new(),
                DebouncedSwitch::new(),
                DebouncedSwitch::new(),
                DebouncedSwitch::new(),
                DebouncedSwitch::new(),
            ],
        }
    }

    /// Feeds one reading of every switch, all taken at time `now` (ms);
    /// `low[i]` tells whether the line of the switch at panel position `i`
    /// reads low, that is whether its contact is closed.
    pub fn upd(&mut self, now: u64, low: [bool; 8])
        ensures
            final(self)@ == switches_step(old(self)@, low, now),
            forall|i: int| 0 <= i < 8 ==> final(self)@[i] == debounce_step(old(self)@[i], low[i], now),
    {
        let ghost before = self@;
        let mut i: usize = 0;
        while i < 8
            invariant
                0 <= i <= 8,
                self@.len() == 8,
                before.len() == 8,
                forall|j: int| 0 <= j < i ==> self@[j] == debounce_step(before[j], low[j], now),
                forall|j: int| i <= j < 8 ==> self@[j] == before[j],
            decreases 8 - i,
        {
            let mut s = self.states[i];
            s.update(low[i], now);
            self.states[i] = s;
            i = i + 1;
        }
        assert(self@ =~= switches_step(before, low, now));
    }

    /// Whether `switch` is pressed, after debouncing.
    pub fn pressed(&self, switch: SwitchId) -> (b: bool)
        ensures
            b == self.is_pressed(switch),
    {
        self.states[switch.index()].on()
    }
}

} // verus!
