//! Event diagnostics: which event types to show, and out-of-order
//! counting.

use vstd::prelude::*;
use crate::event::{Event, EventType};

verus! {

/// Event types selected for display, as a bit set.
#[derive(Debug, Clone, Copy, PartialEq, Eq, Structural)]
pub struct EventMask(pub u16);

pub const NEUTRON: u16 = 0x1;
pub const EDGE: u16 = 0x2;
pub const HEARTBEAT: u16 = 0x20;
pub const MONITOR: u16 = 0x80;
pub const TZERO: u16 = 0x100;
pub const GATE: u16 = 0x200;
pub const AUX: u16 = 0x400;
pub const VOID: u16 = 0x800;
pub const ALL: u16 = 0xFFF;

/// The mask bit of an event type.
pub open spec fn spec_mask_bit(t: EventType) -> u16 {
    match t {
        EventType::Neutron => NEUTRON,
        EventType::Edge { .. } => EDGE,
        EventType::Heartbeat => HEARTBEAT,
        EventType::Monitor { .. } => MONITOR,
        EventType::Tzero => TZERO,
        EventType::Gate { .. } => GATE,
        EventType::AuxSignal { .. } => AUX,
        EventType::Void => VOID,
    }
}

impl EventMask {
    pub fn mask_bit(t: EventType) -> (b: u16)
        ensures
            b == spec_mask_bit(t),
    {
        match t {
            EventType::Neutron => NEUTRON,
            EventType::Edge { .. } => EDGE,
            EventType::Heartbeat => HEARTBEAT,
            EventType::Monitor { .. } => MONITOR,
            EventType::Tzero => TZERO,
            EventType::Gate { .. } => GATE,
            EventType::AuxSignal { .. } => AUX,
            EventType::Void => VOID,
        }
    }

    pub fn is_empty(self) -> (r: bool)
        ensures
            r == (self.0 == 0),
    {
        self.0 == 0
    }

    /// Whether events of type `t` are selected.
    pub fn selects(self, t: EventType) -> (r: bool)
        ensures
            r == (self.0 & spec_mask_bit(t) != 0),
    {
        self.0 & Self::mask_bit(t) != 0
    }
}

/// What the diagnostics report about a batch, for the log.
#[derive(Debug, Clone, Copy, PartialEq, Eq, Structural)]
pub enum DiagNote {
    /// This many events were received in the run so far.
    Received(usize),
    /// An event earlier than the one before it.
    OutOfOrder { last_ts: i64, ev_ts: i64 },
    /// The event at this position of the batch is of a type to display.
    Show(usize),
}

/// Running diagnostics of an event stream: which event types are shown,
/// whether order is checked, how often the count is reported, and the
/// counts so far.
#[derive(Debug, Clone, Copy, PartialEq, Eq, Structural)]
pub struct DiagState {
    pub mask: EventMask,
    pub check_order: bool,
    pub print_every: usize,
    pub ev_count: usize,
    /// The count at which the next report is due.
    pub debug_at: usize,
    pub last_ts: i64,
    pub out_of_order: usize,
}

/// The last time, the out-of-order count and the notes after the events
/// `evs` (positions counted from the start of `evs`): each event earlier
/// than its predecessor is noted and counted when order is checked, and
/// each event of a type in `mask` is noted for display.
pub open spec fn order_run(mask: EventMask, check: bool, last_ts: i64, ooo: usize, evs: Seq<Event>) -> (i64, usize, Seq<DiagNote>)
    decreases evs.len(),
{
    if evs.len() == 0 {
        (last_ts, ooo, seq![])
    } else {
        let (l, o, notes) = order_run(mask, check, last_ts, ooo, evs.drop_last());
        let ev = evs.last();
        let late = check && ev.time.0 < l;
        let notes1 = if late { notes.push(DiagNote::OutOfOrder { last_ts: l, ev_ts: ev.time.0 }) } else { notes };
        let notes2 = if mask.0 & spec_mask_bit(ev.evtype) != 0 {
            notes1.push(DiagNote::Show((evs.len() - 1) as usize))
        } else {
            notes1
        };
        (ev.time.0, if late { (o + 1) as usize } else { o }, notes2)
    }
}

impl DiagState {
    pub fn new(mask: EventMask, check_order: bool, print_every: usize) -> (d: DiagState)
        ensures
            d == (DiagState { mask, check_order, print_every, ev_count: 0, debug_at: 0, last_ts: 0, out_of_order: 0 }),
    {
        DiagState { mask, check_order, print_every, ev_count: 0, debug_at: 0, last_ts: 0, out_of_order: 0 }
    }

    /// A run starts: the counts start over, and the first report is due
    /// after `print_every` events.
    pub fn start_of_run(&mut self)
        ensures
            *final(self) == (DiagState { ev_count: 0, debug_at: old(self).print_every, last_ts: 0, out_of_order: 0, ..*old(self) }),
    {
        self.ev_count = 0;
        self.debug_at = self.print_every;
        self.last_ts = 0;
        self.out_of_order = 0;
    }

    /// Accounts for a batch of events: counts them, reports the count once
    /// it reaches the next report mark, and notes events out of order and
    /// events to display.
    pub fn handle_events(&mut self, events: &Vec<Event>) -> (notes: Vec<DiagNote>)
        requires
            old(self).ev_count + events@.len() <= usize::MAX,
            old(self).out_of_order + events@.len() <= usize::MAX,
            old(self).ev_count + events@.len() >= old(self).debug_at ==> old(self).debug_at + old(self).print_every <= usize::MAX,
        ensures
            ({
                let due = old(self).ev_count + events@.len() >= old(self).debug_at;
                let head = if due { seq![DiagNote::Received(old(self).debug_at)] } else { seq![] };
                let (l, o, rest) = order_run(old(self).mask, old(self).check_order, old(self).last_ts, old(self).out_of_order, events@);
                &&& notes@ == head + rest
                &&& *final(self) == (DiagState {
                    ev_count: (old(self).ev_count + events@.len()) as usize,
                    debug_at: if due { (old(self).debug_at + old(self).print_every) as usize } else { old(self).debug_at },
                    last_ts: l,
                    out_of_order: o,
                    ..*old(self)
                })
            }),
    {
        let mut notes: Vec<DiagNote> = Vec::new();
        self.ev_count = self.ev_count + events.len();
        if self.ev_count >= self.debug_at {
            notes.push(DiagNote::Received(self.debug_at));
            self.debug_at = self.debug_at + self.print_every;
        }
        let ghost head = notes@;
        let ghost start = *self;
        let mut i: usize = 0;
        while i < events.len()
            invariant
                i <= events@.len(),
                start.out_of_order + events@.len() <= usize::MAX,
                self.mask == start.mask,
                self.check_order == start.check_order,
                self.print_every == start.print_every,
                self.ev_count == start.ev_count,
                self.debug_at == start.debug_at,
                self.out_of_order <= start.out_of_order + i,
                ({
                    let (l, o, rest) = order_run(start.mask, start.check_order, start.last_ts, start.out_of_order, events@.subrange(0, i as int));
                    &&& self.last_ts == l
                    &&& self.out_of_order == o
                    &&& notes@ == head + rest
                }),
            decreases events@.len() - i,
        {
            proof {
                assert(events@.subrange(0, i + 1).drop_last() =~= events@.subrange(0, i as int));
                assert(events@.subrange(0, i + 1).last() == events@[i as int]);
            }
            let ev = events[i];
            let ts = ev.time.0;
            if self.check_order && ts < self.last_ts {
                notes.push(DiagNote::OutOfOrder { last_ts: self.last_ts, ev_ts: ts });
                self.out_of_order = self.out_of_order + 1;
            }
            self.last_ts = ts;
            if self.mask.selects(ev.evtype) {
                notes.push(DiagNote::Show(i));
            }
            i = i + 1;
        }
        assert(events@.subrange(0, events@.len() as int) =~= events@);
        notes
    }
}

} // verus!
