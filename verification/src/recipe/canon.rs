//! Recipe for the Canon PSD tubes.

use vstd::prelude::*;
use crate::event::{Event, EventHisto, EventType};

verus! {

/// Canon PSD recipe: the tube is the X position, the charge ratio of
/// the tube's two ends (scaled to `reso` pixels) the Y position.
#[derive(Debug, Clone, Copy, PartialEq, Eq, Structural)]
pub struct Psd {
    pub reso: usize,
}

/// One event, with `y` the Y position computed for it: neutrons get
/// their position, rising edges become T-zero events.
pub open spec fn psd_event(ev: Event, y: u16) -> Event {
    match ev.evtype {
        EventType::Neutron => Event {
            histo: EventHisto { x: ev.channel.0 as u16, y, ..ev.histo },
            ..ev
        },
        EventType::Edge { up: true } => Event { evtype: EventType::Tzero, ..ev },
        _ => ev,
    }
}

impl Psd {
    /// Cooks one event, given its Y position.
    pub fn cook(&self, ev: Event, y: u16) -> (r: Event)
        ensures
            r == psd_event(ev, y),
    {
        let mut ev = ev;
        match ev.evtype {
            EventType::Neutron => {
                ev.histo.x = #[verifier::truncate] (ev.channel.0 as u16);
                ev.histo.y = y;
            },
            EventType::Edge { up: true } => {
                ev.evtype = EventType::Tzero;
            },
            _ => {},
        }
        ev
    }
}

} // verus!
