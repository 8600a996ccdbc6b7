//! The common event structure that all detector inputs decode into.

use vstd::prelude::*;
use vstd::std_specs::cmp::PartialOrdSpecImpl;
use vstd::std_specs::ops::{AddSpecImpl, SubSpecImpl, BitOrSpecImpl};

verus! {

/// Integer division rounding toward zero, as Rust's `/` does.
pub open spec fn trunc_div(a: int, b: int) -> int
    recommends
        b != 0,
{
    if a == 0 {
        0
    } else if a > 0 && b > 0 {
        a / b
    } else if a < 0 && b < 0 {
        (a * -1) / (b * -1)
    } else if a < 0 {
        ((a * -1) / b) * -1
    } else {
        (a / (b * -1)) * -1
    }
}

/// Timestamp of an event in nanoseconds (absolute, relative to the UNIX
/// epoch, where possible).
#[derive(Debug, Clone, Copy, PartialEq, Eq, Structural, PartialOrd, Ord)]
pub struct EventTime(pub i64);

impl Default for EventTime {
    /// The zero time, as [`EventTime::zero`].
    fn default() -> (t: EventTime)
        ensures
            t == EventTime(0),
    {
        EventTime(0)
    }
}

impl EventTime {
    pub fn zero() -> (t: EventTime)
        ensures
            t.0 == 0,
    {
        EventTime(0)
    }

    /// The latest representable time, used as an open upper bin edge.
    pub fn max_time() -> (t: EventTime)
        ensures
            t.0 == i64::MAX,
    {
        EventTime(i64::MAX)
    }

    pub fn from_sec_nsec(sec: u32, nsec: u32) -> (t: EventTime)
        ensures
            t.0 == sec * 1_000_000_000 + nsec,
    {
        EventTime(sec as i64 * 1_000_000_000 + nsec as i64)
    }

    /// `ticks` counts of `ns_per` nanoseconds each.
    pub fn from_ticks(ns_per: i64, ticks: i64) -> (t: EventTime)
        requires
            i64::MIN <= ticks * ns_per <= i64::MAX,
        ensures
            t.0 == ticks * ns_per,
    {
        EventTime(ticks * ns_per)
    }

    /// `ticks` of a clock running at `freq` Hz.
    pub fn from_clock(freq: i64, ticks: i64) -> (t: EventTime)
        requires
            freq != 0,
            i64::MIN < ticks * 1_000_000_000 <= i64::MAX,
        ensures
            t.0 == trunc_div(ticks * 1_000_000_000, freq as int),
    {
        let scaled = ticks * 1_000_000_000;
        match scaled.checked_div(freq) {
            Some(v) => EventTime(v),
            None => EventTime(0),  // unreachable: freq != 0 and scaled != i64::MIN
        }
    }
}

impl core::ops::Add for EventTime {
    type Output = EventTime;

    fn add(self, other: EventTime) -> (r: EventTime) {
        EventTime(self.0 + other.0)
    }
}

impl AddSpecImpl for EventTime {
    open spec fn obeys_add_spec() -> bool {
        true
    }

    open spec fn add_req(self, rhs: EventTime) -> bool {
        i64::MIN <= self.0 + rhs.0 <= i64::MAX
    }

    open spec fn add_spec(self, rhs: EventTime) -> EventTime {
        EventTime((self.0 + rhs.0) as i64)
    }
}

impl core::ops::Sub for EventTime {
    type Output = EventTime;

    fn sub(self, other: EventTime) -> (r: EventTime) {
        EventTime(self.0 - other.0)
    }
}

impl SubSpecImpl for EventTime {
    open spec fn obeys_sub_spec() -> bool {
        true
    }

    open spec fn sub_req(self, rhs: EventTime) -> bool {
        i64::MIN <= self.0 - rhs.0 <= i64::MAX
    }

    open spec fn sub_spec(self, rhs: EventTime) -> EventTime {
        EventTime((self.0 - rhs.0) as i64)
    }
}

/// Input channel of the event - a tube or pixel ID for neutrons, or a signal
/// for edges or other kinds of events.
#[derive(Debug, Clone, Copy, PartialEq, Eq, Structural)]
pub struct ChannelId(pub u32);

/// Amplitude of the event, e.g. pulse height or time-over-threshold.
#[derive(Debug, Clone, Copy, PartialEq, Eq, Structural)]
pub struct Amplitude(pub u32);

/// The logical kind of an event.
#[derive(Debug, Clone, Copy, PartialEq, Eq, Structural)]
pub enum EventType {
    /// Neutron event.
    Neutron,
    /// Monitor count.
    Monitor { num: u8 },
    /// Signal edge without further meaning.
    Edge { up: bool },
    /// Gate signal.
    Gate { up: bool },
    /// T-zero signal (usually chopper).
    Tzero,
    /// Additional signal.
    AuxSignal { num: u8 },
    /// Heartbeat from hardware.
    Heartbeat,
    /// Sorted-out event.
    Void,
}

/// Wire code of an event type, as used by the expression language's
/// `evtype` field and its named constants.
pub open spec fn spec_evtype_code(t: EventType) -> i64 {
    match t {
        EventType::Neutron => 0x01,
        EventType::Monitor { .. } => 0x02,
        EventType::Edge { .. } => 0x10,
        EventType::Gate { .. } => 0x11,
        EventType::Tzero => 0x12,
        EventType::AuxSignal { .. } => 0x13,
        EventType::Heartbeat => 0x80,
        EventType::Void => 0xFF,
    }
}

/// The set of event flags: `HasRelTime` (bit 0) and `Fake` (bit 12), each
/// combination a value of its own.
#[derive(Debug, Clone, Copy, PartialEq, Eq, Structural)]
pub enum EventFlags {
    NoFlags,
    HasRelTime,
    Fake,
    HasRelTimeFake,
}

impl EventFlags {
    pub open spec fn spec_bits(self) -> u16 {
        match self {
            EventFlags::NoFlags => 0,
            EventFlags::HasRelTime => 1,
            EventFlags::Fake => 0x1000,
            EventFlags::HasRelTimeFake => 0x1001,
        }
    }

    pub open spec fn has_rel_time(self) -> bool {
        self is HasRelTime || self is HasRelTimeFake
    }

    pub open spec fn is_fake(self) -> bool {
        self is Fake || self is HasRelTimeFake
    }

    /// The flag set holding exactly the given members.
    pub open spec fn spec_from_members(rel_time: bool, fake: bool) -> EventFlags {
        if rel_time && fake {
            EventFlags::HasRelTimeFake
        } else if rel_time {
            EventFlags::HasRelTime
        } else if fake {
            EventFlags::Fake
        } else {
            EventFlags::NoFlags
        }
    }

    pub fn empty() -> (f: EventFlags)
        ensures
            f == EventFlags::NoFlags,
    {
        EventFlags::NoFlags
    }

    /// The raw bit pattern of the flag set.
    pub fn bits(self) -> (b: u16)
        ensures
            b == self.spec_bits(),
    {
        match self {
            EventFlags::NoFlags => 0,
            EventFlags::HasRelTime => 1,
            EventFlags::Fake => 0x1000,
            EventFlags::HasRelTimeFake => 0x1001,
        }
    }

    pub fn is_empty(self) -> (r: bool)
        ensures
            r == (self == EventFlags::NoFlags),
    {
        matches!(self, EventFlags::NoFlags)
    }

    fn members(self) -> (r: (bool, bool))
        ensures
            r == (self.has_rel_time(), self.is_fake()),
    {
        match self {
            EventFlags::NoFlags => (false, false),
            EventFlags::HasRelTime => (true, false),
            EventFlags::Fake => (false, true),
            EventFlags::HasRelTimeFake => (true, true),
        }
    }

    fn from_members(rel_time: bool, fake: bool) -> (f: EventFlags)
        ensures
            f == EventFlags::spec_from_members(rel_time, fake),
    {
        if rel_time && fake {
            EventFlags::HasRelTimeFake
        } else if rel_time {
            EventFlags::HasRelTime
        } else if fake {
            EventFlags::Fake
        } else {
            EventFlags::NoFlags
        }
    }

    /// True if every member of `other` is a member of `self`.
    pub fn contains(self, other: EventFlags) -> (r: bool)
        ensures
            r == ((other.has_rel_time() ==> self.has_rel_time()) && (other.is_fake()
                ==> self.is_fake())),
    {
        let (a_rt, a_fake) = self.members();
        let (b_rt, b_fake) = other.members();
        (!b_rt || a_rt) && (!b_fake || a_fake)
    }

    /// Adds the members of `other`.
    pub fn set(&mut self, other: EventFlags)
        ensures
            *final(self) == EventFlags::spec_from_members(
                old(self).has_rel_time() || other.has_rel_time(),
                old(self).is_fake() || other.is_fake(),
            ),
    {
        let (a_rt, a_fake) = self.members();
        let (b_rt, b_fake) = other.members();
        *self = EventFlags::from_members(a_rt || b_rt, a_fake || b_fake);
    }

    /// Short text form: `-` for the empty set, otherwise the members'
    /// abbreviations `RT` and `F` joined by `|`.
    pub fn to_text(self) -> (s: &'static str)
        ensures
            s@ == (match self {
                EventFlags::NoFlags => "-"@,
                EventFlags::HasRelTime => "RT"@,
                EventFlags::Fake => "F"@,
                EventFlags::HasRelTimeFake => "RT|F"@,
            }),
    {
        match self {
            EventFlags::NoFlags => "-",
            EventFlags::HasRelTime => "RT",
            EventFlags::Fake => "F",
            EventFlags::HasRelTimeFake => "RT|F",
        }
    }
}

impl core::ops::BitOr for EventFlags {
    type Output = EventFlags;

    fn bitor(self, other: EventFlags) -> (r: EventFlags) {
        let (a_rt, a_fake) = self.members();
        let (b_rt, b_fake) = other.members();
        EventFlags::from_members(a_rt || b_rt, a_fake || b_fake)
    }
}

impl BitOrSpecImpl for EventFlags {
    open spec fn obeys_bitor_spec() -> bool {
        true
    }

    open spec fn bitor_req(self, rhs: EventFlags) -> bool {
        true
    }

    open spec fn bitor_spec(self, rhs: EventFlags) -> EventFlags {
        EventFlags::spec_from_members(
            self.has_rel_time() || rhs.has_rel_time(),
            self.is_fake() || rhs.is_fake(),
        )
    }
}

/// Histogram coordinates of an event.
#[derive(Debug, Clone, Copy, PartialEq, Eq, Structural)]
pub struct EventHisto {
    pub x: u16,
    pub y: u16,
    pub t: u16,
    pub i: u16,
}

impl EventHisto {
    pub fn zero() -> (h: EventHisto)
        ensures
            h == (EventHisto { x: 0, y: 0, t: 0, i: 0 }),
    {
        EventHisto { x: 0, y: 0, t: 0, i: 0 }
    }
}

/// One detector event.
#[derive(Debug, Clone, Copy)]
pub struct Event {
    pub time: EventTime,
    /// Zero until determined.
    pub rel_time: EventTime,
    /// Raw data from hardware, e.g. for debugging.
    pub raw: (u32, u32),
    pub channel: ChannelId,
    pub ampl: Amplitude,
    /// Histogram coordinates.
    pub histo: EventHisto,
    pub flags: EventFlags,
    pub evtype: EventType,
}

/// A fresh event of the given type, all other fields zero.
pub open spec fn spec_new_event(evtype: EventType) -> Event {
    Event {
        time: EventTime(0),
        rel_time: EventTime(0),
        raw: (0, 0),
        channel: ChannelId(0),
        ampl: Amplitude(0),
        histo: EventHisto { x: 0, y: 0, t: 0, i: 0 },
        flags: EventFlags::NoFlags,
        evtype,
    }
}

impl Event {
    pub fn new(evtype: EventType) -> (ev: Event)
        ensures
            ev == spec_new_event(evtype),
    {
        Event {
            evtype,
            channel: ChannelId(0),
            time: EventTime::zero(),
            rel_time: EventTime::zero(),
            flags: EventFlags::NoFlags,
            histo: EventHisto::zero(),
            ampl: Amplitude(0),
            raw: (0, 0),
        }
    }

    pub fn with_channel(self, channel: u32) -> (ev: Event)
        ensures
            ev == (Event { channel: ChannelId(channel), ..self }),
    {
        Event { channel: ChannelId(channel), ..self }
    }

    /// Sets the absolute time and the relative time `time + off`, and marks
    /// the relative time as known.
    pub fn with_abs_time_and_offset(self, time: EventTime, off: EventTime) -> (ev: Event)
        requires
            i64::MIN <= time.0 + off.0 <= i64::MAX,
        ensures
            ev == (Event {
                time,
                rel_time: EventTime((time.0 + off.0) as i64),
                flags: EventFlags::spec_from_members(true, self.flags.is_fake()),
                ..self
            }),
    {
        let mut flags = self.flags;
        flags.set(EventFlags::HasRelTime);
        Event { time, rel_time: EventTime(time.0 + off.0), flags, ..self }
    }

    pub fn with_abs_time(self, time: EventTime) -> (ev: Event)
        ensures
            ev == (Event { time, ..self }),
    {
        Event { time, ..self }
    }

    /// Sets the relative time and marks it as known.
    pub fn with_rel_time(self, rel_time: EventTime) -> (ev: Event)
        ensures
            ev == (Event {
                rel_time,
                flags: EventFlags::spec_from_members(true, self.flags.is_fake()),
                ..self
            }),
    {
        let mut flags = self.flags;
        flags.set(EventFlags::HasRelTime);
        Event { rel_time, flags, ..self }
    }

    pub fn with_ampl(self, ampl: u32) -> (ev: Event)
        ensures
            ev == (Event { ampl: Amplitude(ampl), ..self }),
    {
        Event { ampl: Amplitude(ampl), ..self }
    }

    pub fn with_raw(self, a: u32, b: u32) -> (ev: Event)
        ensures
            ev == (Event { raw: (a, b), ..self }),
    {
        Event { raw: (a, b), ..self }
    }

    pub fn with_flags(self, flags: EventFlags) -> (ev: Event)
        ensures
            ev == (Event { flags, ..self }),
    {
        Event { flags, ..self }
    }

    /// A view of the event for one-line display.
    pub fn dump(&self) -> (d: DumpEvent<'_>)
        ensures
            *d.spec_event() == *self,
    {
        DumpEvent(self)
    }
}

/// Two events are equal when all their fields are.
impl PartialEq for Event {
    fn eq(&self, other: &Self) -> (r: bool) {
        self.time == other.time && self.rel_time == other.rel_time && self.raw.0 == other.raw.0
            && self.raw.1 == other.raw.1 && self.channel == other.channel && self.ampl
            == other.ampl && self.histo == other.histo && self.flags == other.flags
            && self.evtype == other.evtype
    }
}

impl vstd::std_specs::cmp::PartialEqSpecImpl for Event {
    open spec fn obeys_eq_spec() -> bool {
        true
    }

    open spec fn eq_spec(&self, other: &Self) -> bool {
        *self == *other
    }
}

impl Eq for Event {}

/// Events are ordered by their absolute time only.
impl PartialOrd for Event {
    fn partial_cmp(&self, other: &Self) -> (r: Option<core::cmp::Ordering>) {
        if self.time.0 < other.time.0 {
            Some(core::cmp::Ordering::Less)
        } else if self.time.0 > other.time.0 {
            Some(core::cmp::Ordering::Greater)
        } else {
            Some(core::cmp::Ordering::Equal)
        }
    }
}

impl PartialOrdSpecImpl for Event {
    open spec fn obeys_partial_cmp_spec() -> bool {
        true
    }

    open spec fn partial_cmp_spec(&self, other: &Self) -> Option<core::cmp::Ordering> {
        if self.time.0 < other.time.0 {
            Some(core::cmp::Ordering::Less)
        } else if self.time.0 > other.time.0 {
            Some(core::cmp::Ordering::Greater)
        } else {
            Some(core::cmp::Ordering::Equal)
        }
    }
}

/// Borrowed event, formatted as one line of text by the application.
pub struct DumpEvent<'a>(&'a Event);

impl<'a> DumpEvent<'a> {
    pub closed spec fn spec_event(&self) -> &'a Event {
        self.0
    }

    pub fn event(&self) -> (ev: &'a Event)
        ensures
            ev == self.spec_event(),
    {
        self.0
    }
}

} // verus!
