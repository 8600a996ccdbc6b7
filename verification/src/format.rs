//! Binary event formats for output and IPC.

use vstd::prelude::*;
use crate::event::{Event, EventType, spec_evtype_code};
use crate::expr::evtype_discriminant;

verus! {

/// An event format: a name as accepted in the configuration, and the
/// conversion from an event.
pub trait Format: Sized {
    fn name() -> &'static str;

    fn description() -> &'static str;

    /// Convert an event into this format.
    fn from_event(event: Event) -> Self;

    /// Appends the record as stored in event files and sent to consumers.
    fn write_to(&self, out: &mut Vec<u8>);
}

/// The bytes of `v`, least significant first.
pub open spec fn le_u16(v: u16) -> Seq<u8> {
    seq![v as u8, (v >> 8u16) as u8]
}

pub open spec fn le_u32(v: u32) -> Seq<u8> {
    seq![v as u8, (v >> 8u32) as u8, (v >> 16u32) as u8, (v >> 24u32) as u8]
}

pub open spec fn le_u64(v: u64) -> Seq<u8> {
    le_u32(v as u32) + le_u32((v >> 32u64) as u32)
}

fn push_u16(out: &mut Vec<u8>, v: u16)
    ensures
        final(out)@ == old(out)@ + le_u16(v),
{
    out.push(#[verifier::truncate] (v as u8));
    out.push(#[verifier::truncate] ((v >> 8) as u8));
    assert(final(out)@ =~= old(out)@ + le_u16(v));
}

fn push_u32(out: &mut Vec<u8>, v: u32)
    ensures
        final(out)@ == old(out)@ + le_u32(v),
{
    out.push(#[verifier::truncate] (v as u8));
    out.push(#[verifier::truncate] ((v >> 8) as u8));
    out.push(#[verifier::truncate] ((v >> 16) as u8));
    out.push(#[verifier::truncate] ((v >> 24) as u8));
    assert(final(out)@ =~= old(out)@ + le_u32(v));
}

fn push_u64(out: &mut Vec<u8>, v: u64)
    ensures
        final(out)@ == old(out)@ + le_u64(v),
{
    push_u32(out, #[verifier::truncate] (v as u32));
    push_u32(out, #[verifier::truncate] ((v >> 32) as u32));
    assert(final(out)@ =~= old(out)@ + le_u64(v));
}

/// The number an event type carries: the auxiliary signal's or monitor's
/// number, an edge's or gate's direction (1 rising), else 0.
pub open spec fn evtype_index(t: EventType) -> u8 {
    match t {
        EventType::Monitor { num } => num,
        EventType::AuxSignal { num } => num,
        EventType::Edge { up } => if up { 1 } else { 0 },
        EventType::Gate { up } => if up { 1 } else { 0 },
        _ => 0,
    }
}

/// The full event format, including all fields.
#[derive(Debug, Clone, Copy, PartialEq, Eq)]
pub struct Full {
    pub evtype: u8,
    pub index: u8,
    pub flags: u16,
    pub channel: u32,
    pub raw: [u32; 2],
    pub ampl: u32,
    pub reserve: u32,
    pub histo: [u16; 4],
    pub time: i64,
    pub rel_time: i64,
}

/// The stored form of a full record: each field little-endian, in
/// order, 48 bytes.
pub open spec fn full_bytes(f: Full) -> Seq<u8> {
    seq![f.evtype, f.index] + le_u16(f.flags) + le_u32(f.channel) + le_u32(f.raw[0]) + le_u32(f.raw[1])
        + le_u32(f.ampl) + le_u32(f.reserve) + le_u16(f.histo[0]) + le_u16(f.histo[1]) + le_u16(f.histo[2])
        + le_u16(f.histo[3]) + le_u64(f.time as u64) + le_u64(f.rel_time as u64)
}

/// The stored form of an `XYTof` record: each field little-endian, in
/// order, 8 bytes.
pub open spec fn xytof_bytes(f: XYTof) -> Seq<u8> {
    le_u16(f.x) + le_u16(f.y) + le_u32(f.tof)
}

pub open spec fn spec_full(ev: Event) -> Full {
    Full {
        evtype: spec_evtype_code(ev.evtype) as u8,
        index: evtype_index(ev.evtype),
        flags: ev.flags.spec_bits(),
        channel: ev.channel.0,
        raw: [ev.raw.0, ev.raw.1],
        ampl: ev.ampl.0,
        reserve: 0,
        histo: [ev.histo.x, ev.histo.y, ev.histo.t, ev.histo.i],
        time: ev.time.0,
        rel_time: ev.rel_time.0,
    }
}

fn index_of(t: EventType) -> (r: u8)
    ensures
        r == evtype_index(t),
{
    match t {
        EventType::Monitor { num } => num,
        EventType::AuxSignal { num } => num,
        EventType::Edge { up } => if up { 1 } else { 0 },
        EventType::Gate { up } => if up { 1 } else { 0 },
        _ => 0,
    }
}

impl Format for Full {
    fn name() -> (s: &'static str)
        ensures
            s@ == "full"@,
    {
        "full"
    }

    fn description() -> (s: &'static str)
        ensures
            s@ == "The full event format, including all fields"@,
    {
        "The full event format, including all fields"
    }

    fn from_event(event: Event) -> (f: Full)
        ensures
            f == spec_full(event),
    {
        let code = evtype_discriminant(&event.evtype);
        Full {
            evtype: code as u8,
            index: index_of(event.evtype),
            flags: event.flags.bits(),
            channel: event.channel.0,
            raw: [event.raw.0, event.raw.1],
            ampl: event.ampl.0,
            reserve: 0,
            histo: [event.histo.x, event.histo.y, event.histo.t, event.histo.i],
            time: event.time.0,
            rel_time: event.rel_time.0,
        }
    }

    fn write_to(&self, out: &mut Vec<u8>)
        ensures
            final(out)@ == old(out)@ + full_bytes(*self),
    {
        out.push(self.evtype);
        out.push(self.index);
        push_u16(out, self.flags);
        push_u32(out, self.channel);
        push_u32(out, self.raw[0]);
        push_u32(out, self.raw[1]);
        push_u32(out, self.ampl);
        push_u32(out, self.reserve);
        push_u16(out, self.histo[0]);
        push_u16(out, self.histo[1]);
        push_u16(out, self.histo[2]);
        push_u16(out, self.histo[3]);
        push_u64(out, #[verifier::truncate] (self.time as u64));
        push_u64(out, #[verifier::truncate] (self.rel_time as u64));
        assert(final(out)@ =~= old(out)@ + full_bytes(*self));
    }
}

/// Only the x, y coordinates and time-of-flight in 100 ns units.
#[derive(Debug, Clone, Copy, PartialEq, Eq, Structural)]
pub struct XYTof {
    pub x: u16,
    pub y: u16,
    pub tof: u32,
}

impl Format for XYTof {
    fn name() -> (s: &'static str)
        ensures
            s@ == "xy_tof"@,
    {
        "xy_tof"
    }

    fn description() -> (s: &'static str)
        ensures
            s@ == "Only the x, y coordinates and time-of-flight in 100ns units"@,
    {
        "Only the x, y coordinates and time-of-flight in 100ns units"
    }

    fn from_event(event: Event) -> (f: XYTof)
        ensures
            f.x == event.histo.x,
            f.y == event.histo.y,
            f.tof == (crate::event::trunc_div(event.rel_time.0 as int, 100) as i64) as u32,
    {
        let q = event.rel_time.0 / 100;
        XYTof { x: event.histo.x, y: event.histo.y, tof: #[verifier::truncate] (q as u32) }
    }

    fn write_to(&self, out: &mut Vec<u8>)
        ensures
            final(out)@ == old(out)@ + xytof_bytes(*self),
    {
        push_u16(out, self.x);
        push_u16(out, self.y);
        push_u32(out, self.tof);
        assert(final(out)@ =~= old(out)@ + xytof_bytes(*self));
    }
}

} // verus!
