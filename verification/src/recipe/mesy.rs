//! Recipes for Mesytec MPSD and MDLL detectors.

use vstd::prelude::*;
use crate::event::{Event, EventHisto, EventType};
use crate::expr::alias::ExprAlias;

verus! {

/// What a rising edge on a given channel is reinterpreted as.
#[derive(Debug, Clone, Copy, PartialEq, Eq, Structural)]
pub enum EdgeMapping {
    Tzero,
    Monitor(u8),
    Aux(u8),
}

impl EdgeMapping {
    pub open spec fn spec_evtype(self) -> EventType {
        match self {
            EdgeMapping::Tzero => EventType::Tzero,
            EdgeMapping::Monitor(num) => EventType::Monitor { num },
            EdgeMapping::Aux(num) => EventType::AuxSignal { num },
        }
    }

    pub fn to_evtype(self) -> (t: EventType)
        ensures
            t == self.spec_evtype(),
    {
        match self {
            EdgeMapping::Tzero => EventType::Tzero,
            EdgeMapping::Monitor(num) => EventType::Monitor { num },
            EdgeMapping::Aux(num) => EventType::AuxSignal { num },
        }
    }
}

/// The mapping of the first entry for `channel`, if any.
pub open spec fn lookup(inputs: Seq<(u32, EdgeMapping)>, channel: u32) -> Option<EdgeMapping>
    decreases inputs.len(),
{
    if inputs.len() == 0 {
        None
    } else if inputs[0].0 == channel {
        Some(inputs[0].1)
    } else {
        lookup(inputs.drop_first(), channel)
    }
}

/// Recipe for MPSD detectors.
#[derive(Debug, Clone)]
pub struct Mpsd {
    /// Edge channel to event type; a channel not listed stays an edge.
    pub inputs: Vec<(u32, EdgeMapping)>,
    /// Void neutron events whose raw amplitude is 0 or above 960, a known
    /// bad/overflow region of the amplitude channel.
    pub y_mask: bool,
}

/// The MPSD has 8 channels per board: the channel with its fourth bit
/// removed.
pub open spec fn mpsd_x(channel: u32) -> u32 {
    ((channel >> 1u32) & 0xFFF8) | (channel & 0x7)
}

pub open spec fn mpsd_event(inputs: Seq<(u32, EdgeMapping)>, y_mask: bool, ev: Event) -> Event {
    match ev.evtype {
        EventType::Neutron => {
            let y = ev.raw.0 as u16;
            let ev2 = Event {
                histo: EventHisto { x: mpsd_x(ev.channel.0) as u16, y, ..ev.histo },
                ..ev
            };
            if y_mask && (y == 0 || y > 960) {
                Event { evtype: EventType::Void, ..ev2 }
            } else {
                ev2
            }
        },
        EventType::Edge { up: true } => match lookup(inputs, ev.channel.0) {
            Some(m) => Event { evtype: m.spec_evtype(), ..ev },
            None => ev,
        },
        _ => ev,
    }
}

impl Mpsd {
    fn find(&self, channel: u32) -> (r: Option<EdgeMapping>)
        ensures
            r == lookup(self.inputs@, channel),
    {
        let mut i: usize = 0;
        assert(self.inputs@.subrange(0, self.inputs@.len() as int) =~= self.inputs@);
        while i < self.inputs.len()
            invariant
                i <= self.inputs@.len(),
                lookup(self.inputs@, channel) == lookup(self.inputs@.subrange(i as int, self.inputs@.len() as int), channel),
            decreases self.inputs@.len() - i,
        {
            let ghost rest = self.inputs@.subrange(i as int, self.inputs@.len() as int);
            assert(rest.drop_first() =~= self.inputs@.subrange(i + 1, self.inputs@.len() as int));
            if self.inputs[i].0 == channel {
                return Some(self.inputs[i].1);
            }
            i = i + 1;
        }
        None
    }

    pub fn process(&mut self, events: Vec<Event>) -> (out: Vec<Event>)
        ensures
            out@.len() == events@.len(),
            forall|i: int| 0 <= i < events@.len() ==> out@[i] == mpsd_event(old(self).inputs@, old(self).y_mask, events@[i]),
            final(self).inputs@ == old(self).inputs@,
            final(self).y_mask == old(self).y_mask,
    {
        let mut out: Vec<Event> = Vec::new();
        let mut i: usize = 0;
        while i < events.len()
            invariant
                i <= events@.len(),
                out@.len() == i,
                forall|j: int| 0 <= j < i ==> out@[j] == mpsd_event(self.inputs@, self.y_mask, events@[j]),
            decreases events@.len() - i,
        {
            let mut ev = events[i];
            match ev.evtype {
                EventType::Neutron => {
                    let c = ev.channel.0;
                    let x = ((c >> 1) & 0xFFF8) | (c & 0x7);
                    ev.histo.x = #[verifier::truncate] (x as u16);
                    let y = #[verifier::truncate] (ev.raw.0 as u16);
                    if self.y_mask && (y == 0 || y > 960) {
                        ev.evtype = EventType::Void;
                    }
                    ev.histo.y = y;
                },
                EventType::Edge { up: true } => {
                    if let Some(m) = self.find(ev.channel.0) {
                        ev.evtype = m.to_evtype();
                    }
                },
                _ => {},
            }
            out.push(ev);
            i = i + 1;
        }
        out
    }

    /// The channel bit fields as expression aliases.
    pub fn expr_aliases(&self) -> (v: Vec<ExprAlias>)
        ensures
            v@.len() == 3,
            v@[0]@.name == "mesy_slot"@ && v@[0]@.expr == "channel[0..4]"@,
            v@[1]@.name == "mesy_mod"@ && v@[1]@.expr == "channel[4..7]"@,
            v@[2]@.name == "mesy_mcpd"@ && v@[2]@.expr == "channel[7..15]"@,
    {
        let mut v = Vec::new();
        v.push(ExprAlias::new("mesy_slot", "channel[0..4]", "MCPD slot in module"));
        v.push(ExprAlias::new("mesy_mod", "channel[4..7]", "MCPD module"));
        v.push(ExprAlias::new("mesy_mcpd", "channel[7..15]", "MCPD id"));
        v
    }
}

/// Recipe for MDLL detectors: neutrons at the origin, rising edges become
/// T-zero events.
#[derive(Debug, Clone, Copy, PartialEq, Eq, Structural)]
pub struct Mdll {}

pub open spec fn mdll_event(ev: Event) -> Event {
    match ev.evtype {
        EventType::Neutron => Event { histo: EventHisto { x: 0, y: 0, ..ev.histo }, ..ev },
        EventType::Edge { up: true } => Event { evtype: EventType::Tzero, ..ev },
        _ => ev,
    }
}

impl Mdll {
    pub fn process(&mut self, events: Vec<Event>) -> (out: Vec<Event>)
        ensures
            out@.len() == events@.len(),
            forall|i: int| 0 <= i < events@.len() ==> out@[i] == mdll_event(events@[i]),
    {
        let mut out: Vec<Event> = Vec::new();
        let mut i: usize = 0;
        while i < events.len()
            invariant
                i <= events@.len(),
                out@.len() == i,
                forall|j: int| 0 <= j < i ==> out@[j] == mdll_event(events@[j]),
            decreases events@.len() - i,
        {
            let mut ev = events[i];
            match ev.evtype {
                EventType::Neutron => {
                    ev.histo.x = 0;
                    ev.histo.y = 0;
                },
                EventType::Edge { up: true } => {
                    ev.evtype = EventType::Tzero;
                },
                _ => {},
            }
            out.push(ev);
            i = i + 1;
        }
        out
    }
}

} // verus!
