//! Recipe for the KWS GE detector: tube pixel ids to X/Y, and edge
//! channels to gate, T-zero and auxiliary signals.

use vstd::prelude::*;
use crate::event::{Event, EventHisto, EventType};

verus! {

pub const TUBE_RESOLUTION: u32 = 256;
pub const MIDDLE_TUBE_RES: u32 = 206;
pub const SMALL_TUBE_RES: u32 = 94;
pub const MIDDLE_TUBE_OFFS: u32 = 25;
pub const SMALL_TUBE_OFFS: u32 = 81;
pub const PIXEL_PER_PACK: u32 = 8192;
pub const EXT_START: u8 = 1;

/// Configuration and recipe of the KWS GE detector.
#[derive(Debug, Clone, Copy, PartialEq, Eq, Structural)]
pub struct KWSGERecipe {
    pub reso_1024: bool,
    pub rebin_8x8: bool,
    pub invert_ts: bool,
}

/// The X/Y pixel of a neutron's channel id. Packs 3 to 14 hold full
/// tubes, of which packs 3..5 and 12..14 are middle-length; the others
/// hold short tubes, centred in the 256-pixel range.
pub open spec fn kws_position(r: KWSGERecipe, channel: u32) -> (u32, u32) {
    let n8p = channel / PIXEL_PER_PACK;
    let id = channel % PIXEL_PER_PACK;
    let small = !(3 <= n8p <= 14);
    let middle = !small && !(6 <= n8p <= 11);
    let (x, y): (int, int) = if r.reso_1024 {
        let y1 = id % 1024;
        (
            (id / 1024) as int,
            if small {
                y1 * SMALL_TUBE_RES / 1024 + SMALL_TUBE_OFFS
            } else if middle {
                y1 * MIDDLE_TUBE_RES / 1024 + MIDDLE_TUBE_OFFS
            } else {
                y1 * TUBE_RESOLUTION / 1024
            },
        )
    } else if small {
        ((id / SMALL_TUBE_RES) as int, id % SMALL_TUBE_RES + SMALL_TUBE_OFFS)
    } else if middle {
        ((id / MIDDLE_TUBE_RES) as int, id % MIDDLE_TUBE_RES + MIDDLE_TUBE_OFFS)
    } else {
        ((id / TUBE_RESOLUTION) as int, (id % TUBE_RESOLUTION) as int)
    };
    let y2 = if r.rebin_8x8 { 64 + y / 2 } else { y };
    ((x + 8 * n8p) as u32, y2 as u32)
}

/// One event: neutrons get their pixel; edges on channel 0 become gate
/// events, and active edges on channels 1 and 3 T-zero events, on channel
/// 2 an auxiliary signal (an edge is active when rising, or falling with
/// `invert_ts`).
pub open spec fn kws_event(r: KWSGERecipe, ev: Event) -> Event {
    match ev.evtype {
        EventType::Neutron => {
            let (x, y) = kws_position(r, ev.channel.0);
            Event { histo: EventHisto { x: x as u16, y: y as u16, ..ev.histo }, ..ev }
        },
        EventType::Edge { up } => {
            let active = up != r.invert_ts;
            if ev.channel.0 == 0 {
                Event { evtype: EventType::Gate { up: active }, ..ev }
            } else if (ev.channel.0 == 1 || ev.channel.0 == 3) && active {
                Event { evtype: EventType::Tzero, ..ev }
            } else if ev.channel.0 == 2 && active {
                Event { evtype: EventType::AuxSignal { num: EXT_START }, ..ev }
            } else {
                ev
            }
        },
        _ => ev,
    }
}

impl KWSGERecipe {
    pub fn position(&self, channel: u32) -> (p: (u32, u32))
        ensures
            p == kws_position(*self, channel),
    {
        let n8p = channel / PIXEL_PER_PACK;
        let id = channel % PIXEL_PER_PACK;
        let small = !(3 <= n8p && n8p <= 14);
        let middle = !small && !(6 <= n8p && n8p <= 11);
        let x;
        let mut y;
        if self.reso_1024 {
            x = id / 1024;
            let y1 = id % 1024;
            if small {
                y = y1 * SMALL_TUBE_RES / 1024 + SMALL_TUBE_OFFS;
            } else if middle {
                y = y1 * MIDDLE_TUBE_RES / 1024 + MIDDLE_TUBE_OFFS;
            } else {
                y = y1 * TUBE_RESOLUTION / 1024;
            }
        } else if small {
            x = id / SMALL_TUBE_RES;
            y = id % SMALL_TUBE_RES + SMALL_TUBE_OFFS;
        } else if middle {
            x = id / MIDDLE_TUBE_RES;
            y = id % MIDDLE_TUBE_RES + MIDDLE_TUBE_OFFS;
        } else {
            x = id / TUBE_RESOLUTION;
            y = id % TUBE_RESOLUTION;
        }
        if self.rebin_8x8 {
            y = 64 + y / 2;
        }
        (x + 8 * n8p, y)
    }

    pub fn process(&mut self, events: Vec<Event>) -> (out: Vec<Event>)
        ensures
            out@.len() == events@.len(),
            forall|i: int| 0 <= i < events@.len() ==> out@[i] == kws_event(*old(self), events@[i]),
            *final(self) == *old(self),
    {
        let mut out: Vec<Event> = Vec::new();
        let mut i: usize = 0;
        while i < events.len()
            invariant
                i <= events@.len(),
                out@.len() == i,
                forall|j: int| 0 <= j < i ==> out@[j] == kws_event(*self, events@[j]),
            decreases events@.len() - i,
        {
            let mut ev = events[i];
            match ev.evtype {
                EventType::Neutron => {
                    let (x, y) = self.position(ev.channel.0);
                    ev.histo.x = #[verifier::truncate] (x as u16);
                    ev.histo.y = #[verifier::truncate] (y as u16);
                },
                EventType::Edge { up } => {
                    let active = up != self.invert_ts;
                    let ch = ev.channel.0;
                    if ch == 0 {
                        ev.evtype = EventType::Gate { up: active };
                    } else if (ch == 1 || ch == 3) && active {
                        ev.evtype = EventType::Tzero;
                    } else if ch == 2 && active {
                        ev.evtype = EventType::AuxSignal { num: EXT_START };
                    }
                },
                _ => {},
            }
            out.push(ev);
            i = i + 1;
        }
        out
    }
}


/// The tube length and pixel offset of a pack: packs 6 to 11 hold full
/// 256-pixel tubes, packs 3, 4, 5, 12, 13 and 14 middle-length 206-pixel
/// tubes offset by 25, and every other pack short 94-pixel tubes offset
/// by 81.
pub open spec fn pack_tubes(pack: int) -> (int, int) {
    if pack == 6 || pack == 7 || pack == 8 || pack == 9 || pack == 10 || pack == 11 {
        (256, 0)
    } else if pack == 3 || pack == 4 || pack == 5 || pack == 12 || pack == 13 || pack == 14 {
        (206, 25)
    } else {
        (94, 81)
    }
}

/// A neutron on pixel `id` of pack `pack` (channel `pack * 8192 + id`)
/// lands, at the default resolution, in column `id / len + 8 * pack` and
/// row `id % len + offs`, where `len` and `offs` are the pack's tube
/// length and offset; at 1024-pixel resolution in column `id / 1024 + 8 *
/// pack` and row `(id % 1024) * len / 1024 + offs`. With 8x8 rebinning the
/// row becomes `64 + row / 2`.
pub proof fn law_kws_pixel(r: KWSGERecipe, pack: u32, id: u32)
    requires
        id < 8192,
        pack * 8192 + id <= u32::MAX,
    ensures
        ({
            let (len, offs) = pack_tubes(pack as int);
            let (x, y): (int, int) = if r.reso_1024 {
                ((id as int) / 1024 + 8 * pack, ((id as int) % 1024) * len / 1024 + offs)
            } else {
                ((id as int) / len + 8 * pack, (id as int) % len + offs)
            };
            kws_position(r, (pack * 8192 + id) as u32) == (x as u32, (if r.rebin_8x8 { 64 + y / 2 } else { y }) as u32)
        }),
{
    let ch = (pack * 8192 + id) as u32;
    assert(ch / 8192 == pack && ch % 8192 == id) by (nonlinear_arith)
        requires
            ch == pack * 8192 + id,
            id < 8192,
    ;
}

} // verus!
