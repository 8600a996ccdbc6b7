//! Histogramming recipes: spatial binning, gate filtering and, for
//! time-of-flight, relative times and time bins.

use vstd::prelude::*;
use crate::event::{Event, EventFlags, EventHisto, EventTime, EventType};

verus! {

/// Configuration of the `histo_std` recipe; unset values take defaults.
#[derive(Debug, Clone, Copy, PartialEq, Eq, Structural)]
pub struct StdConfig {
    pub bin_x: Option<u16>,
    pub bin_y: Option<u16>,
    pub use_gate: Option<bool>,
}

/// Whether gating voids `ev`: gating is on and no gate is open.
pub open spec fn gated_out(use_gate: bool, gate_up: bool) -> bool {
    use_gate && !gate_up
}

pub open spec fn void(ev: Event) -> Event {
    Event { evtype: EventType::Void, ..ev }
}

/// A neutron's spatial coordinates divided by the bin sizes.
pub open spec fn binned(ev: Event, bin_x: u16, bin_y: u16) -> Event {
    Event { histo: EventHisto { x: (ev.histo.x / bin_x) as u16, y: (ev.histo.y / bin_y) as u16, ..ev.histo }, ..ev }
}

/// Spatial binning and gate filtering.
pub struct Std {
    bin_x: u16,
    bin_y: u16,
    use_gate: bool,
    gate_up: bool,
}

impl Std {
    #[verifier::type_invariant]
    closed spec fn wf(self) -> bool {
        self.bin_x >= 1 && self.bin_y >= 1
    }

    pub closed spec fn spec_bin_x(self) -> u16 {
        self.bin_x
    }

    pub closed spec fn spec_bin_y(self) -> u16 {
        self.bin_y
    }

    pub closed spec fn spec_use_gate(self) -> bool {
        self.use_gate
    }

    pub closed spec fn spec_gate_up(self) -> bool {
        self.gate_up
    }

    /// One event: a gate event opens or closes a gate; any other event is
    /// voided while gating holds it back, and a neutron is binned.
    pub open spec fn step(bin_x: u16, bin_y: u16, use_gate: bool, gate_up: bool, ev: Event) -> (
        bool,
        Event,
    ) {
        match ev.evtype {
            EventType::Gate { up } => (up, ev),
            _ => if gated_out(use_gate, gate_up) {
                (gate_up, void(ev))
            } else if ev.evtype is Neutron {
                (gate_up, binned(ev, bin_x, bin_y))
            } else {
                (gate_up, ev)
            },
        }
    }

    /// Gate state after `evs` and the processed events.
    pub open spec fn run(bin_x: u16, bin_y: u16, use_gate: bool, gate_up: bool, evs: Seq<Event>) -> (
        bool,
        Seq<Event>,
    )
        decreases evs.len(),
    {
        if evs.len() == 0 {
            (gate_up, seq![])
        } else {
            let (g, out) = Self::run(bin_x, bin_y, use_gate, gate_up, evs.drop_last());
            let (g2, e) = Self::step(bin_x, bin_y, use_gate, g, evs.last());
            (g2, out.push(e))
        }
    }

    /// A recipe from its configuration: bins default to 1, gating to off.
    pub fn new(config: StdConfig) -> (r: Std)
        requires
            config.bin_x != Some(0u16),
            config.bin_y != Some(0u16),
        ensures
            r.spec_bin_x() == config.bin_x.unwrap_or(1),
            r.spec_bin_y() == config.bin_y.unwrap_or(1),
            r.spec_use_gate() == config.use_gate.unwrap_or(false),
            !r.spec_gate_up(),
    {
        Std {
            bin_x: match config.bin_x { Some(b) => b, None => 1 },
            bin_y: match config.bin_y { Some(b) => b, None => 1 },
            use_gate: match config.use_gate { Some(g) => g, None => false },
            gate_up: false,
        }
    }

    pub fn start_of_run(&mut self)
        ensures
            !final(self).spec_gate_up(),
            final(self).spec_bin_x() == old(self).spec_bin_x(),
            final(self).spec_bin_y() == old(self).spec_bin_y(),
            final(self).spec_use_gate() == old(self).spec_use_gate(),
    {
        proof {
            use_type_invariant(&*self);
        }
        self.gate_up = false;
    }

    pub fn process(&mut self, events: Vec<Event>) -> (out: Vec<Event>)
        ensures
            (final(self).spec_gate_up(), out@) == Self::run(
                old(self).spec_bin_x(),
                old(self).spec_bin_y(),
                old(self).spec_use_gate(),
                old(self).spec_gate_up(),
                events@,
            ),
            final(self).spec_bin_x() == old(self).spec_bin_x(),
            final(self).spec_bin_y() == old(self).spec_bin_y(),
            final(self).spec_use_gate() == old(self).spec_use_gate(),
    {
        proof {
            use_type_invariant(&*self);
        }
        let mut out: Vec<Event> = Vec::new();
        let mut i: usize = 0;
        while i < events.len()
            invariant
                i <= events@.len(),
                self.bin_x >= 1,
                self.bin_y >= 1,
                self.bin_x == old(self).bin_x,
                self.bin_y == old(self).bin_y,
                self.use_gate == old(self).use_gate,
                (self.gate_up, out@) == Self::run(
                    self.bin_x,
                    self.bin_y,
                    self.use_gate,
                    old(self).gate_up,
                    events@.subrange(0, i as int),
                ),
            decreases events@.len() - i,
        {
            let mut ev = events[i];
            proof {
                assert(events@.subrange(0, i + 1).drop_last() =~= events@.subrange(0, i as int));
            }
            match ev.evtype {
                EventType::Gate { up } => {
                    self.gate_up = up;
                },
                _ => {
                    if self.use_gate && !self.gate_up {
                        ev.evtype = EventType::Void;
                    } else if let EventType::Neutron = ev.evtype {
                        ev.histo.x = ev.histo.x / self.bin_x;
                        ev.histo.y = ev.histo.y / self.bin_y;
                    }
                },
            }
            out.push(ev);
            i = i + 1;
        }
        proof {
            assert(events@.subrange(0, events@.len() as int) =~= events@);
        }
        out
    }
}

/// Configuration of the `histo_tof` recipe; unset values take defaults.
#[derive(Debug)]
pub struct TofConfig {
    pub bin_x: Option<u16>,
    pub bin_y: Option<u16>,
    pub use_gate: Option<bool>,
    pub aux_mode: Option<u8>,
    pub time_bins: Option<Vec<EventTime>>,
}

/// The time bin edges with `i64::MAX` appended unless it is already the
/// last edge, so every relative time indexes a valid bin.
pub open spec fn normalized_bins(bins: Seq<EventTime>) -> Seq<EventTime> {
    if bins.len() > 0 && bins.last() == EventTime(i64::MAX) {
        bins
    } else {
        bins.push(EventTime(i64::MAX))
    }
}

/// The first bin at or after `cur` whose end lies beyond `t`.
pub open spec fn find_bin(bins: Seq<EventTime>, cur: int, t: i64) -> int
    decreases bins.len() - cur,
{
    if 0 <= cur < bins.len() && t >= bins[cur].0 {
        find_bin(bins, cur + 1, t)
    } else {
        cur
    }
}

/// Run state of the time-of-flight recipe.
#[derive(Debug, Clone, Copy, PartialEq, Eq, Structural)]
pub struct TofState {
    pub gate_up: bool,
    pub last_t0: EventTime,
    pub cur_bin: usize,
    pub t0_known: bool,
}

/// Time-of-flight histogramming: relative times since the last T0, time
/// bins, spatial binning and gate filtering.
pub struct Tof {
    bin_x: u16,
    bin_y: u16,
    use_gate: bool,
    aux_mode: Option<u8>,
    time_bins: Vec<EventTime>,
    state: TofState,
}

/// Whether `ev` marks a T0: a T-zero event, or in aux mode the chosen
/// auxiliary signal.
pub open spec fn is_t0(aux_mode: Option<u8>, ev: Event) -> bool {
    match ev.evtype {
        EventType::Tzero => aux_mode is None,
        EventType::AuxSignal { num } => aux_mode == Some(num),
        _ => false,
    }
}

impl Tof {
    #[verifier::type_invariant]
    closed spec fn wf(self) -> bool {
        &&& self.bin_x >= 1
        &&& self.bin_y >= 1
        &&& self.time_bins@.len() >= 1
        &&& self.time_bins@.last() == EventTime(i64::MAX)
        &&& self.state.cur_bin < self.time_bins@.len()
    }

    pub closed spec fn spec_bins(self) -> Seq<EventTime> {
        self.time_bins@
    }

    pub closed spec fn spec_state(self) -> TofState {
        self.state
    }

    pub closed spec fn spec_config(self) -> (u16, u16, bool, Option<u8>) {
        (self.bin_x, self.bin_y, self.use_gate, self.aux_mode)
    }

    /// One event, or `None` where processing it would overflow: a T0 event
    /// restarts the time bins; gate events open or close a gate; other
    /// events are voided while gated out or before any T0, else get their
    /// relative time (unless they have one) and, for neutrons, their time
    /// bin and spatial binning.
    pub open spec fn step(
        cfg: (u16, u16, bool, Option<u8>),
        bins: Seq<EventTime>,
        st: TofState,
        ev: Event,
    ) -> Option<(TofState, Event)> {
        let (bin_x, bin_y, use_gate, aux_mode) = cfg;
        match ev.evtype {
            EventType::Tzero | EventType::AuxSignal { .. } => if is_t0(aux_mode, ev) {
                Some((TofState { last_t0: ev.time, cur_bin: 0, t0_known: true, ..st }, ev))
            } else {
                Some((st, ev))
            },
            EventType::Gate { up } => Some((TofState { gate_up: up, ..st }, ev)),
            _ => if gated_out(use_gate, st.gate_up) || !st.t0_known {
                Some((st, void(ev)))
            } else {
                let rel = if ev.flags.has_rel_time() {
                    ev.rel_time.0 as int
                } else {
                    ev.time.0 - st.last_t0.0
                };
                if rel < i64::MIN || rel > i64::MAX {
                    None
                } else {
                    let ev2 = if ev.flags.has_rel_time() {
                        ev
                    } else {
                        Event {
                            rel_time: EventTime(rel as i64),
                            flags: EventFlags::spec_from_members(true, ev.flags.is_fake()),
                            ..ev
                        }
                    };
                    if ev2.evtype is Neutron {
                        if bins.len() > 1 {
                            if ev2.rel_time.0 == i64::MAX {
                                None
                            } else {
                                let b = find_bin(bins, st.cur_bin as int, ev2.rel_time.0);
                                Some((
                                    TofState { cur_bin: b as usize, ..st },
                                    binned(Event { histo: EventHisto { t: b as u16, ..ev2.histo }, ..ev2 }, bin_x, bin_y),
                                ))
                            }
                        } else {
                            Some((st, binned(ev2, bin_x, bin_y)))
                        }
                    } else {
                        Some((st, ev2))
                    }
                }
            },
        }
    }

    /// The state after `evs` and the processed events, or `None` where
    /// some event would overflow.
    pub open spec fn run(
        cfg: (u16, u16, bool, Option<u8>),
        bins: Seq<EventTime>,
        st: TofState,
        evs: Seq<Event>,
    ) -> Option<(TofState, Seq<Event>)>
        decreases evs.len(),
    {
        if evs.len() == 0 {
            Some((st, seq![]))
        } else {
            match Self::run(cfg, bins, st, evs.drop_last()) {
                None => None,
                Some((s1, out)) => match Self::step(cfg, bins, s1, evs.last()) {
                    None => None,
                    Some((s2, e)) => Some((s2, out.push(e))),
                },
            }
        }
    }

    /// `bins` with `i64::MAX` as its last edge.
    pub fn normalize_time_bins(bins: Vec<EventTime>) -> (r: Vec<EventTime>)
        ensures
            r@ == normalized_bins(bins@),
    {
        let mut bins = bins;
        let n = bins.len();
        if n > 0 && bins[n - 1].0 == i64::MAX {
            bins
        } else {
            bins.push(EventTime::max_time());
            bins
        }
    }

    /// A recipe from its configuration: bins default to 1, gating to off,
    /// T0 to T-zero events, and time bins to a single open bin.
    pub fn new(config: TofConfig) -> (r: Tof)
        requires
            config.bin_x != Some(0u16),
            config.bin_y != Some(0u16),
        ensures
            r.spec_config() == (
                config.bin_x.unwrap_or(1),
                config.bin_y.unwrap_or(1),
                config.use_gate.unwrap_or(false),
                config.aux_mode,
            ),
            r.spec_bins() == normalized_bins(
                match config.time_bins {
                    Some(v) => v@,
                    None => seq![],
                },
            ),
            r.spec_state() == (TofState {
                gate_up: false,
                last_t0: EventTime(0),
                cur_bin: 0,
                t0_known: false,
            }),
    {
        let bins = match config.time_bins {
            Some(v) => v,
            None => Vec::new(),
        };
        Tof {
            bin_x: match config.bin_x { Some(b) => b, None => 1 },
            bin_y: match config.bin_y { Some(b) => b, None => 1 },
            use_gate: match config.use_gate { Some(g) => g, None => false },
            aux_mode: config.aux_mode,
            time_bins: Self::normalize_time_bins(bins),
            state: TofState { gate_up: false, last_t0: EventTime(0), cur_bin: 0, t0_known: false },
        }
    }

    /// Replaces the time bin edges (normalized) and restarts at bin 0.
    pub fn set_time_bins(&mut self, value: Vec<EventTime>)
        ensures
            final(self).spec_bins() == normalized_bins(value@),
            final(self).spec_state() == (TofState { cur_bin: 0, ..old(self).spec_state() }),
            final(self).spec_config() == old(self).spec_config(),
    {
        proof {
            use_type_invariant(&*self);
        }
        let bins = Self::normalize_time_bins(value);
        let mut st = self.state;
        st.cur_bin = 0;
        self.state = st;
        assert(bins@.len() >= 1 && bins@.last() == EventTime(i64::MAX));
        self.time_bins = bins;
    }

    /// Forgets the last T0, the time bin and any open gate.
    pub fn start_of_run(&mut self)
        ensures
            final(self).spec_state() == (TofState {
                gate_up: false,
                last_t0: EventTime(0),
                cur_bin: 0,
                t0_known: false,
            }),
            final(self).spec_bins() == old(self).spec_bins(),
            final(self).spec_config() == old(self).spec_config(),
    {
        proof {
            use_type_invariant(&*self);
        }
        self.state = TofState { gate_up: false, last_t0: EventTime(0), cur_bin: 0, t0_known: false };
    }

    fn step_exec(&self, st: TofState, ev: Event) -> (r: Option<(TofState, Event)>)
        requires
            st.cur_bin < self.time_bins@.len(),
        ensures
            r == Self::step(self.spec_config(), self.spec_bins(), st, ev),
            r matches Some((s2, _)) ==> s2.cur_bin < self.time_bins@.len(),
    {
        proof {
            use_type_invariant(self);
        }
        match ev.evtype {
            EventType::Tzero | EventType::AuxSignal { .. } => {
                let t0 = match ev.evtype {
                    EventType::Tzero => self.aux_mode.is_none(),
                    EventType::AuxSignal { num } => match self.aux_mode {
                        Some(m) => m == num,
                        None => false,
                    },
                    _ => false,
                };
                if t0 {
                    Some((TofState { last_t0: ev.time, cur_bin: 0, t0_known: true, ..st }, ev))
                } else {
                    Some((st, ev))
                }
            },
            EventType::Gate { up } => Some((TofState { gate_up: up, ..st }, ev)),
            _ => {
                if (self.use_gate && !st.gate_up) || !st.t0_known {
                    let mut v = ev;
                    v.evtype = EventType::Void;
                    return Some((st, v));
                }
                let mut ev2 = ev;
                if !ev.flags.contains(EventFlags::HasRelTime) {
                    let rel = match ev.time.0.checked_sub(st.last_t0.0) {
                        Some(r) => r,
                        None => return None,
                    };
                    ev2.rel_time = EventTime(rel);
                    ev2.flags.set(EventFlags::HasRelTime);
                }
                if let EventType::Neutron = ev2.evtype {
                    let mut st2 = st;
                    if self.time_bins.len() > 1 {
                        if ev2.rel_time.0 == i64::MAX {
                            return None;
                        }
                        let mut b = st.cur_bin;
                        while ev2.rel_time.0 >= self.time_bins[b].0
                            invariant
                                st.cur_bin <= b < self.time_bins@.len(),
                                self.time_bins@.last() == EventTime(i64::MAX),
                                ev2.rel_time.0 < i64::MAX,
                                find_bin(self.time_bins@, st.cur_bin as int, ev2.rel_time.0)
                                    == find_bin(self.time_bins@, b as int, ev2.rel_time.0),
                            decreases self.time_bins@.len() - b,
                        {
                            // the last edge is i64::MAX, beyond any time reached here
                            assert(b + 1 < self.time_bins.len());
                            b = b + 1;
                        }
                        st2.cur_bin = b;
                        ev2.histo.t = #[verifier::truncate] (b as u16);
                    }
                    ev2.histo.x = ev2.histo.x / self.bin_x;
                    ev2.histo.y = ev2.histo.y / self.bin_y;
                    Some((st2, ev2))
                } else {
                    Some((st, ev2))
                }
            },
        }
    }

    /// Processes a batch, or gives back `None` and changes nothing where
    /// some event's relative time would overflow (where processing would
    /// otherwise fail).
    pub fn process_checked(&mut self, events: Vec<Event>) -> (r: Option<Vec<Event>>)
        ensures
            match Self::run(old(self).spec_config(), old(self).spec_bins(), old(self).spec_state(), events@) {
                Some((st, out)) => r matches Some(v) && v@ == out && final(self).spec_state() == st,
                None => r is None && final(self).spec_state() == old(self).spec_state(),
            },
            final(self).spec_bins() == old(self).spec_bins(),
            final(self).spec_config() == old(self).spec_config(),
    {
        proof {
            use_type_invariant(&*self);
        }
        let mut st = self.state;
        let mut out: Vec<Event> = Vec::new();
        let mut i: usize = 0;
        while i < events.len()
            invariant
                i <= events@.len(),
                st.cur_bin < self.time_bins@.len(),
                Self::run(self.spec_config(), self.spec_bins(), self.state, events@.subrange(0, i as int))
                    == Some((st, out@)),
            decreases events@.len() - i,
        {
            proof {
                assert(events@.subrange(0, i + 1).drop_last() =~= events@.subrange(0, i as int));
            }
            match self.step_exec(st, events[i]) {
                Some((s2, e)) => {
                    st = s2;
                    out.push(e);
                },
                None => {
                    proof {
                        lemma_run_none_extends(self.spec_config(), self.spec_bins(), self.state, events@, i as int + 1);
                    }
                    return None;
                },
            }
            i = i + 1;
        }
        proof {
            assert(events@.subrange(0, events@.len() as int) =~= events@);
        }
        self.state = st;
        Some(out)
    }
}

impl Tof {
    /// Processes a batch on which no relative time overflows.
    pub fn process(&mut self, events: Vec<Event>) -> (out: Vec<Event>)
        requires
            Tof::run(old(self).spec_config(), old(self).spec_bins(), old(self).spec_state(), events@) is Some,
        ensures
            Tof::run(old(self).spec_config(), old(self).spec_bins(), old(self).spec_state(), events@)
                == Some((final(self).spec_state(), out@)),
            final(self).spec_bins() == old(self).spec_bins(),
            final(self).spec_config() == old(self).spec_config(),
    {
        match self.process_checked(events) {
            Some(v) => v,
            None => Vec::new(),
        }
    }
}


/// Events that pass through the time-of-flight recipe unchanged: T0s,
/// auxiliary signals and gate edges.
pub open spec fn is_marker(ev: Event) -> bool {
    ev.evtype is Tzero || ev.evtype is AuxSignal || ev.evtype is Gate
}

/// One event keeps its time, channel and (unless voided) its type; a
/// marker passes unchanged; another event is voided while no T0 is known.
proof fn lemma_tof_step(cfg: (u16, u16, bool, Option<u8>), bins: Seq<EventTime>, st: TofState, ev: Event)
    requires
        Tof::step(cfg, bins, st, ev) is Some,
    ensures
        ({
            let (s2, e) = Tof::step(cfg, bins, st, ev)->0;
            &&& e.time == ev.time
            &&& e.channel == ev.channel
            &&& (e.evtype == ev.evtype || e.evtype is Void)
            &&& is_marker(ev) ==> e == ev
            &&& !is_marker(ev) && !st.t0_known ==> e.evtype is Void
            &&& s2.t0_known == (st.t0_known || is_t0(cfg.3, ev))
        }),
{
}

/// Processing a batch with the time-of-flight recipe gives one event for
/// each event given, in order, with the same time and channel; T0s,
/// auxiliary signals and gate edges pass unchanged; every other event
/// keeps its type or is voided, and is voided where no T0 was known
/// before the batch and none came in it before the event.
pub proof fn law_tof_keeps_events(cfg: (u16, u16, bool, Option<u8>), bins: Seq<EventTime>, st: TofState, evs: Seq<Event>)
    requires
        Tof::run(cfg, bins, st, evs) is Some,
    ensures
        ({
            let (s2, out) = Tof::run(cfg, bins, st, evs)->0;
            &&& out.len() == evs.len()
            &&& s2.t0_known == (st.t0_known || exists|j: int| 0 <= j < evs.len() && is_t0(cfg.3, #[trigger] evs[j]))
            &&& forall|i: int| 0 <= i < evs.len() ==> {
                &&& (#[trigger] out[i]).time == evs[i].time
                &&& out[i].channel == evs[i].channel
                &&& (out[i].evtype == evs[i].evtype || out[i].evtype is Void)
                &&& is_marker(evs[i]) ==> out[i] == evs[i]
                &&& (!is_marker(evs[i]) && !st.t0_known && forall|j: int| 0 <= j < i ==> !is_t0(cfg.3, #[trigger] evs[j]))
                    ==> out[i].evtype is Void
            }
        }),
    decreases evs.len(),
{
    if evs.len() > 0 {
        let init = evs.drop_last();
        law_tof_keeps_events(cfg, bins, st, init);
        let (s1, out1) = Tof::run(cfg, bins, st, init)->0;
        lemma_tof_step(cfg, bins, s1, evs.last());
        let (s2, out) = Tof::run(cfg, bins, st, evs)->0;
        assert(out == out1.push((Tof::step(cfg, bins, s1, evs.last())->0).1));
        assert forall|i: int| 0 <= i < evs.len() - 1 implies #[trigger] evs[i] == init[i] by {}
        let n = evs.len() - 1;
        if !st.t0_known && (forall|j: int| 0 <= j < n ==> !is_t0(cfg.3, #[trigger] evs[j])) {
            assert(!s1.t0_known) by {
                if s1.t0_known {
                    let j = choose|j: int| 0 <= j < init.len() && is_t0(cfg.3, #[trigger] init[j]);
                    assert(evs[j] == init[j]);
                }
            }
        }
        if s2.t0_known && !st.t0_known && !is_t0(cfg.3, evs.last()) {
            let j = choose|j: int| 0 <= j < init.len() && is_t0(cfg.3, #[trigger] init[j]);
            assert(evs[j] == init[j]);
        }
        if is_t0(cfg.3, evs.last()) {
            assert(is_t0(cfg.3, evs[n]));
        }
        if !st.t0_known && (exists|j: int| 0 <= j < evs.len() && is_t0(cfg.3, #[trigger] evs[j])) {
            let j = choose|j: int| 0 <= j < evs.len() && is_t0(cfg.3, #[trigger] evs[j]);
            if j < n {
                assert(init[j] == evs[j]);
            }
        }
    }
}


impl Std {
    /// The runtime parameters: the bin sizes and whether gating is on.
    pub fn params(&self) -> (r: (u16, u16, bool))
        ensures
            r == (self.spec_bin_x(), self.spec_bin_y(), self.spec_use_gate()),
    {
        (self.bin_x, self.bin_y, self.use_gate)
    }

    /// Sets the bin sizes; a size of 0 is refused, and nothing changes.
    pub fn set_bins(&mut self, bin_x: u16, bin_y: u16) -> (ok: bool)
        ensures
            ok == (bin_x != 0 && bin_y != 0),
            final(self).spec_bin_x() == (if ok { bin_x } else { old(self).spec_bin_x() }),
            final(self).spec_bin_y() == (if ok { bin_y } else { old(self).spec_bin_y() }),
            final(self).spec_use_gate() == old(self).spec_use_gate(),
            final(self).spec_gate_up() == old(self).spec_gate_up(),
    {
        proof {
            use_type_invariant(&*self);
        }
        if bin_x == 0 || bin_y == 0 {
            return false;
        }
        self.bin_x = bin_x;
        self.bin_y = bin_y;
        true
    }

    /// Switches gating on or off.
    pub fn set_use_gate(&mut self, use_gate: bool)
        ensures
            final(self).spec_use_gate() == use_gate,
            final(self).spec_bin_x() == old(self).spec_bin_x(),
            final(self).spec_bin_y() == old(self).spec_bin_y(),
            final(self).spec_gate_up() == old(self).spec_gate_up(),
    {
        proof {
            use_type_invariant(&*self);
        }
        self.use_gate = use_gate;
    }
}

impl Tof {
    /// The runtime parameters but the time bins: the bin sizes, whether
    /// gating is on, and the auxiliary signal used as T0.
    pub fn params(&self) -> (r: (u16, u16, bool, Option<u8>))
        ensures
            r == self.spec_config(),
    {
        (self.bin_x, self.bin_y, self.use_gate, self.aux_mode)
    }

    /// The time bin edges, the last one `i64::MAX`.
    pub fn time_bins(&self) -> (r: Vec<EventTime>)
        ensures
            r@ == self.spec_bins(),
    {
        let mut r: Vec<EventTime> = Vec::new();
        let mut i: usize = 0;
        while i < self.time_bins.len()
            invariant
                i <= self.time_bins@.len(),
                r@ == self.time_bins@.subrange(0, i as int),
            decreases self.time_bins@.len() - i,
        {
            r.push(self.time_bins[i]);
            i = i + 1;
            assert(r@ =~= self.time_bins@.subrange(0, i as int));
        }
        assert(r@ =~= self.time_bins@);
        r
    }

    /// Sets the bin sizes, gating and the T0 signal; a bin size of 0 is
    /// refused, and nothing changes.
    pub fn set_params(&mut self, bin_x: u16, bin_y: u16, use_gate: bool, aux_mode: Option<u8>) -> (ok: bool)
        ensures
            ok == (bin_x != 0 && bin_y != 0),
            final(self).spec_config() == (if ok {
                (bin_x, bin_y, use_gate, aux_mode)
            } else {
                old(self).spec_config()
            }),
            final(self).spec_bins() == old(self).spec_bins(),
            final(self).spec_state() == old(self).spec_state(),
    {
        proof {
            use_type_invariant(&*self);
        }
        if bin_x == 0 || bin_y == 0 {
            return false;
        }
        self.bin_x = bin_x;
        self.bin_y = bin_y;
        self.use_gate = use_gate;
        self.aux_mode = aux_mode;
        true
    }
}


/// The recipe's state before the `i`-th event of a batch.
pub open spec fn tof_state_before(cfg: (u16, u16, bool, Option<u8>), bins: Seq<EventTime>, st: TofState, evs: Seq<Event>, i: int) -> TofState {
    (Tof::run(cfg, bins, st, evs.take(i))->0).0
}

/// Each event of a batch is processed as one step from the state the
/// events before it left: the `i`-th event given comes out as that step
/// makes it, and every prefix of the batch is processed without overflow.
pub proof fn law_tof_per_event(cfg: (u16, u16, bool, Option<u8>), bins: Seq<EventTime>, st: TofState, evs: Seq<Event>)
    requires
        Tof::run(cfg, bins, st, evs) is Some,
    ensures
        forall|i: int| 0 <= i <= evs.len() ==> (#[trigger] Tof::run(cfg, bins, st, evs.take(i))) is Some,
        forall|i: int| 0 <= i < evs.len() ==> {
            &&& Tof::step(cfg, bins, tof_state_before(cfg, bins, st, evs, i), evs[i]) is Some
            &&& (#[trigger] (Tof::run(cfg, bins, st, evs)->0).1[i]) == (Tof::step(
                cfg,
                bins,
                tof_state_before(cfg, bins, st, evs, i),
                evs[i],
            )->0).1
        },
    decreases evs.len(),
{
    if evs.len() > 0 {
        let n = evs.len() - 1;
        let init = evs.drop_last();
        law_tof_per_event(cfg, bins, st, init);
        assert(evs.take(n) =~= init);
        assert(evs.take(evs.len() as int) =~= evs);
        assert forall|i: int| 0 <= i <= n implies #[trigger] evs.take(i) == init.take(i) by {
            assert(evs.take(i) =~= init.take(i));
        }
        law_tof_keeps_events(cfg, bins, st, init);
        let (s1, out1) = Tof::run(cfg, bins, st, init)->0;
        let out = (Tof::run(cfg, bins, st, evs)->0).1;
        assert(out == out1.push((Tof::step(cfg, bins, s1, evs.last())->0).1));
        assert forall|i: int| 0 <= i <= evs.len() implies (#[trigger] Tof::run(cfg, bins, st, evs.take(i))) is Some by {
            if i <= n {
                assert(evs.take(i) == init.take(i));
            }
        }
        assert forall|i: int| 0 <= i < evs.len() implies {
            &&& Tof::step(cfg, bins, tof_state_before(cfg, bins, st, evs, i), evs[i]) is Some
            &&& (#[trigger] (Tof::run(cfg, bins, st, evs)->0).1[i]) == (Tof::step(
                cfg,
                bins,
                tof_state_before(cfg, bins, st, evs, i),
                evs[i],
            )->0).1
        } by {
            assert(evs.take(i) == init.take(i));
            if i < n {
                assert(evs[i] == init[i]);
                assert(out[i] == out1[i]);
            } else {
                assert(evs.take(i) == init);
                assert(evs[i] == evs.last());
            }
        }
    }
}

/// What one event that is not a T0, auxiliary signal or gate edge
/// becomes: voided while gating holds it back or no T0 is known; else it
/// gets its time since the last T0 as relative time (where it has none)
/// and the relative-time flag, and a neutron has its spatial coordinates
/// divided by the bin sizes.
pub proof fn law_tof_step(cfg: (u16, u16, bool, Option<u8>), bins: Seq<EventTime>, st: TofState, ev: Event)
    requires
        cfg.0 >= 1,
        cfg.1 >= 1,
        !is_marker(ev),
        Tof::step(cfg, bins, st, ev) is Some,
    ensures
        gated_out(cfg.2, st.gate_up) || !st.t0_known ==> (Tof::step(cfg, bins, st, ev)->0).1 == void(ev),
        !(gated_out(cfg.2, st.gate_up) || !st.t0_known) ==> {
            let e = (Tof::step(cfg, bins, st, ev)->0).1;
            &&& e.evtype == ev.evtype
            &&& e.flags.has_rel_time()
            &&& e.rel_time.0 == (if ev.flags.has_rel_time() { ev.rel_time.0 as int } else { ev.time.0 - st.last_t0.0 })
        },
        !(gated_out(cfg.2, st.gate_up) || !st.t0_known) && ev.evtype is Neutron ==> {
            let e = (Tof::step(cfg, bins, st, ev)->0).1;
            e.histo.x == ev.histo.x / cfg.0 && e.histo.y == ev.histo.y / cfg.1
        },
{
    assert((ev.histo.x / cfg.0) as u16 == ev.histo.x / cfg.0) by (nonlinear_arith)
        requires
            cfg.0 >= 1,
    ;
    assert((ev.histo.y / cfg.1) as u16 == ev.histo.y / cfg.1) by (nonlinear_arith)
        requires
            cfg.1 >= 1,
    ;
}

/// Once a prefix of the events fails, so does every longer prefix.
proof fn lemma_run_none_extends(
    cfg: (u16, u16, bool, Option<u8>),
    bins: Seq<EventTime>,
    st: TofState,
    evs: Seq<Event>,
    k: int,
)
    requires
        0 <= k <= evs.len(),
        Tof::run(cfg, bins, st, evs.subrange(0, k)) is None,
    ensures
        Tof::run(cfg, bins, st, evs) is None,
    decreases evs.len() - k,
{
    if k < evs.len() {
        assert(evs.subrange(0, k + 1).drop_last() =~= evs.subrange(0, k));
        lemma_run_none_extends(cfg, bins, st, evs, k + 1);
    } else {
        assert(evs.subrange(0, k) =~= evs);
    }
}


/// Whether a gate is open after `evs`, starting from `gate_up`: the state
/// the last gate event among them set, or `gate_up` where there is none.
pub open spec fn gate_after(gate_up: bool, evs: Seq<Event>) -> bool
    decreases evs.len(),
{
    if evs.len() == 0 {
        gate_up
    } else {
        match evs.last().evtype {
            EventType::Gate { up } => up,
            _ => gate_after(gate_up, evs.drop_last()),
        }
    }
}

/// Whether the recipe turns `ev` into `out` where `gate_open` tells
/// whether a gate is open: a gate event is unchanged; with gating on and no open
/// gate any other event becomes a void event with all its other fields
/// kept; else a neutron has its coordinates divided by the bin sizes and
/// all its other fields kept, and any other event is unchanged.
pub open spec fn std_turns_into(bin_x: u16, bin_y: u16, use_gate: bool, gate_open: bool, ev: Event, out: Event) -> bool {
    if ev.evtype is Gate {
        out == ev
    } else if use_gate && !gate_open {
        out == (Event { evtype: EventType::Void, ..ev })
    } else if ev.evtype is Neutron {
        &&& out.histo.x == ev.histo.x / bin_x
        &&& out.histo.y == ev.histo.y / bin_y
        &&& out == (Event { histo: EventHisto { x: out.histo.x, y: out.histo.y, ..ev.histo }, ..ev })
    } else {
        out == ev
    }
}

/// A neutron that gating does not void is binned, with gating on or off:
/// each event of a batch is handled as `std_turns_into` says.
pub proof fn law_std_per_event(bin_x: u16, bin_y: u16, use_gate: bool, gate_up: bool, evs: Seq<Event>)
    requires
        bin_x >= 1,
        bin_y >= 1,
    ensures
        Std::run(bin_x, bin_y, use_gate, gate_up, evs).0 == gate_after(gate_up, evs),
        Std::run(bin_x, bin_y, use_gate, gate_up, evs).1.len() == evs.len(),
        forall|i: int| 0 <= i < evs.len() ==> std_turns_into(
            bin_x,
            bin_y,
            use_gate,
            gate_after(gate_up, evs.take(i)),
            evs[i],
            #[trigger] Std::run(bin_x, bin_y, use_gate, gate_up, evs).1[i],
        ),
    decreases evs.len(),
{
    if evs.len() > 0 {
        let n = evs.len() - 1;
        let init = evs.drop_last();
        law_std_per_event(bin_x, bin_y, use_gate, gate_up, init);
        let (g, out1) = Std::run(bin_x, bin_y, use_gate, gate_up, init);
        let ev = evs.last();
        let (g2, e) = Std::step(bin_x, bin_y, use_gate, g, ev);
        let out = Std::run(bin_x, bin_y, use_gate, gate_up, evs).1;
        assert(out == out1.push(e));
        assert(evs.take(n) =~= init);
        assert((ev.histo.x / bin_x) as u16 == ev.histo.x / bin_x) by (nonlinear_arith)
            requires
                bin_x >= 1,
        ;
        assert((ev.histo.y / bin_y) as u16 == ev.histo.y / bin_y) by (nonlinear_arith)
            requires
                bin_y >= 1,
        ;
        assert(std_turns_into(bin_x, bin_y, use_gate, g, ev, e));
        assert forall|i: int| 0 <= i < evs.len() implies std_turns_into(
            bin_x,
            bin_y,
            use_gate,
            gate_after(gate_up, evs.take(i)),
            evs[i],
            #[trigger] Std::run(bin_x, bin_y, use_gate, gate_up, evs).1[i],
        ) by {
            if i < n {
                assert(evs.take(i) =~= init.take(i));
                assert(evs[i] == init[i]);
                assert(out[i] == out1[i]);
            } else {
                assert(out[i] == e);
            }
        }
    }
}

} // verus!
