//! Decoding of the Canon PSD event stream: 64-bit big-endian words whose
//! top byte gives the word's type.

use vstd::prelude::*;
use crate::bytes::{be64, read_u64_be};
use crate::config::SourceConfig;
use crate::error::UResult;
use crate::event::{Event, EventFlags, EventTime, EventType, spec_new_event, trunc_div};

verus! {

/// Configuration of a Canon input.
#[derive(Debug)]
pub struct CanonConfig {
    pub source: SourceConfig,
    pub channel_offset: u32,
    pub gatenet: bool,
}

/// A source of Canon event words: fills `buffer` with whole words and
/// gives the number of words written.
pub trait CanonSource {
    fn request_events(&mut self, buffer: &mut [u8]) -> UResult<usize>;
}

/// Bytes per event word.
pub const EVENT_SIZE: usize = 8;

/// Most events asked for in one request.
pub const MAX_EVENTS: usize = 1000;

/// The request a networked device gets for up to `MAX_EVENTS` events,
/// counted in 16-bit units.
pub fn request_word() -> (w: u64)
    ensures
        w == 0xA300_0000_0000_0000u64 + 4 * MAX_EVENTS,
{
    0xA300_0000_0000_0000u64 + (MAX_EVENTS as u64) * 4
}

/// The number of events in a device's answer of `units` 16-bit units,
/// four to an event.
pub fn announced_events(units: u32) -> (n: usize)
    ensures
        n == units / 4,
{
    (units / 4) as usize
}

/// 01/01/2008 00:00:00 UTC, the epoch of Canon device time, in ns.
pub const EPOCH_NS: i64 = 1199145600000000000;

/// Type of a Canon word, by its top byte.
#[derive(Debug, Clone, Copy, PartialEq, Eq, Structural)]
pub enum CanonEvType {
    TriggerSync,
    Neutron,
    Trigger,
    DeviceTime,
    External,
    Neutron14bit,
    DevTime32bit,
    Other(u8),
}

pub open spec fn spec_evtype(w: u64) -> CanonEvType {
    let c = w >> 56u64;
    if c == 0x51 {
        CanonEvType::TriggerSync
    } else if c == 0x5a {
        CanonEvType::Neutron
    } else if c == 0x5b {
        CanonEvType::Trigger
    } else if c == 0x5c {
        CanonEvType::DeviceTime
    } else if c == 0x5d {
        CanonEvType::External
    } else if c == 0x5f {
        CanonEvType::Neutron14bit
    } else if c == 0x6c {
        CanonEvType::DevTime32bit
    } else {
        CanonEvType::Other(c as u8)
    }
}

pub fn evtype(w: u64) -> (t: CanonEvType)
    ensures
        t == spec_evtype(w),
{
    let c = w >> 56;
    if c == 0x51 {
        CanonEvType::TriggerSync
    } else if c == 0x5a {
        CanonEvType::Neutron
    } else if c == 0x5b {
        CanonEvType::Trigger
    } else if c == 0x5c {
        CanonEvType::DeviceTime
    } else if c == 0x5d {
        CanonEvType::External
    } else if c == 0x5f {
        CanonEvType::Neutron14bit
    } else if c == 0x6c {
        CanonEvType::DevTime32bit
    } else {
        CanonEvType::Other(#[verifier::truncate] (c as u8))
    }
}

/// The bit field `(w >> shift) & mask`.
pub open spec fn field(w: u64, shift: u64, mask: u64) -> int {
    ((w >> shift) & mask) as int
}

/// Absolute time of a device-time word with seconds `s`, 1/32768-second
/// subseconds `ss` and module clock ticks `us` of `tick` ns each (25 ns in
/// the device-time word, 100 ns in the 32-bit one).
pub open spec fn device_time(s: int, ss: int, us: int, tick: int) -> int {
    EPOCH_NS + s * 1_000_000_000 + trunc_div(ss * 1_000_000_000, 32768) + us * tick
}

/// Decoder state: the channel offset of this input and the device time of
/// the last time word.
pub struct CanonDecoder {
    pub channel_ofs: u32,
    pub time_ofs: EventTime,
}

/// What a neutron word gives, with its PSD number `p`, pulse heights
/// `pl`/`pr` and detection time `t` after the last time word.
pub open spec fn neutron_event(channel_ofs: u32, time_ofs: EventTime, p: int, pl: int, pr: int, t: int) -> Event {
    Event {
        channel: crate::event::ChannelId((channel_ofs + p) as u32),
        time: time_ofs,
        rel_time: EventTime((time_ofs.0 + t * 25) as i64),
        flags: EventFlags::spec_from_members(true, false),
        ampl: crate::event::Amplitude((pl + pr) as u32),
        raw: (pl as u32, pr as u32),
        ..spec_new_event(EventType::Neutron)
    }
}

/// A T-zero event at device time `time`.
pub open spec fn tzero_event(channel_ofs: u32, time: int) -> Event {
    Event {
        channel: crate::event::ChannelId(channel_ofs),
        time: EventTime(time as i64),
        rel_time: EventTime(time as i64),
        flags: EventFlags::spec_from_members(true, false),
        ..spec_new_event(EventType::Tzero)
    }
}

impl CanonDecoder {
    /// Channel offsets leave room for the 8 PSDs of a module, and device
    /// times stay within what a time word can give.
    pub open spec fn wf(self) -> bool {
        self.channel_ofs <= u32::MAX - 8 && 0 <= self.time_ofs.0 <= 6_000_000_000_000_000_000
    }

    /// One word: the new device time and the event it gives, if any.
    /// Trigger and external words, and words of unknown type, give none.
    pub open spec fn step(self, w: u64) -> (EventTime, Option<Event>) {
        match spec_evtype(w) {
            CanonEvType::DeviceTime => {
                let time = device_time(field(w, 26, 0x3FFFFFFF), field(w, 11, 0x7FFF), field(w, 0, 0x7FF), 25);
                (EventTime(time as i64), Some(tzero_event(self.channel_ofs, time)))
            },
            CanonEvType::DevTime32bit => {
                let time = device_time(field(w, 24, 0xFFFFFFFF), field(w, 9, 0x7FFF), field(w, 0, 0x1FF), 100);
                (EventTime(time as i64), Some(tzero_event(self.channel_ofs, time)))
            },
            CanonEvType::Neutron => (
                self.time_ofs,
                Some(neutron_event(self.channel_ofs, self.time_ofs, field(w, 24, 0x7), field(w, 12, 0xFFF), field(w, 0, 0xFFF), field(w, 32, 0xFFFFFF))),
            ),
            CanonEvType::Neutron14bit => (
                self.time_ofs,
                Some(neutron_event(self.channel_ofs, self.time_ofs, field(w, 28, 0x7), field(w, 14, 0x3FFF), field(w, 0, 0x3FFF), field(w, 32, 0xFFFFFF))),
            ),
            _ => (self.time_ofs, None),
        }
    }

    /// The device time after `words` and the events they give, in order.
    pub open spec fn run(self, words: Seq<u64>) -> (EventTime, Seq<Event>)
        decreases words.len(),
    {
        if words.len() == 0 {
            (self.time_ofs, seq![])
        } else {
            let (t, evs) = self.run(words.drop_last());
            let (t2, e) = (CanonDecoder { time_ofs: t, ..self }).step(words.last());
            (t2, match e {
                Some(ev) => evs.push(ev),
                None => evs,
            })
        }
    }

    pub fn new(channel_ofs: u32) -> (d: CanonDecoder)
        requires
            channel_ofs <= u32::MAX - 8,
        ensures
            d.wf(),
            d.channel_ofs == channel_ofs,
            d.time_ofs == EventTime(0),
    {
        CanonDecoder { channel_ofs, time_ofs: EventTime(0) }
    }

    proof fn lemma_step_wf(self, w: u64)
        requires
            self.wf(),
        ensures
            (CanonDecoder { time_ofs: self.step(w).0, ..self }).wf(),
    {
        let s = (w >> 26u64) & 0x3FFFFFFF;
        let s32 = (w >> 24u64) & 0xFFFFFFFF;
        let ss = (w >> 11u64) & 0x7FFF;
        let ss32 = (w >> 9u64) & 0x7FFF;
        let us = (w >> 0u64) & 0x7FF;
        let us32 = (w >> 0u64) & 0x1FF;
        assert(s <= 0x3FFFFFFF && s32 <= 0xFFFFFFFF && ss <= 0x7FFF && ss32 <= 0x7FFF && us <= 0x7FF
            && us32 <= 0x1FF) by (bit_vector)
            requires
                s == (w >> 26u64) & 0x3FFFFFFF,
                s32 == (w >> 24u64) & 0xFFFFFFFF,
                ss == (w >> 11u64) & 0x7FFF,
                ss32 == (w >> 9u64) & 0x7FFF,
                us == (w >> 0u64) & 0x7FF,
                us32 == (w >> 0u64) & 0x1FF,
        ;
        lemma_device_time_bound(s as int, ss as int, us as int, 25);
        lemma_device_time_bound(s32 as int, ss32 as int, us32 as int, 100);
    }

    /// Decodes the first `nevents` words of `buf`.
    pub fn decode(&mut self, buf: &[u8], nevents: usize) -> (events: Vec<Event>)
        requires
            old(self).wf(),
            nevents * EVENT_SIZE <= buf.len(),
        ensures
            final(self).wf(),
            final(self).channel_ofs == old(self).channel_ofs,
            (final(self).time_ofs, events@) == old(self).run(Seq::new(nevents as nat, |i: int| be64(buf@, 8 * i) as u64)),
    {
        let ghost words = Seq::new(nevents as nat, |i: int| be64(buf@, 8 * i) as u64);
        let ghost start = *self;
        let mut events: Vec<Event> = Vec::new();
        let mut i: usize = 0;
        while i < nevents
            invariant
                i <= nevents,
                nevents * EVENT_SIZE <= buf.len(),
                words == Seq::new(nevents as nat, |i: int| be64(buf@, 8 * i) as u64),
                self.wf(),
                self.channel_ofs == start.channel_ofs,
                (self.time_ofs, events@) == start.run(words.subrange(0, i as int)),
            decreases nevents - i,
        {
            proof {
                assert(words.subrange(0, i + 1).drop_last() =~= words.subrange(0, i as int));
                assert((i + 1) * 8 <= nevents * 8) by (nonlinear_arith)
                    requires
                        i + 1 <= nevents,
                ;
            }
            let w = read_u64_be(buf, i * EVENT_SIZE);
            assert(w == words[i as int]);
            proof {
                self.lemma_step_wf(w);
            }
            let ghost before = *self;
            match self.step_exec(w) {
                Some(ev) => events.push(ev),
                None => {},
            }
            i = i + 1;
        }
        proof {
            assert(words.subrange(0, nevents as int) =~= words);
        }
        events
    }

    fn step_exec(&mut self, w: u64) -> (r: Option<Event>)
        requires
            old(self).wf(),
        ensures
            (final(self).time_ofs, r) == old(self).step(w),
            final(self).channel_ofs == old(self).channel_ofs,
    {
        match evtype(w) {
            CanonEvType::DeviceTime => {
                let s = bits(w, 26, 0x3FFFFFFF);
                let ss = bits(w, 11, 0x7FFF);
                let us = bits(w, 0, 0x7FF);
                let t = device_time_exec(s, ss, us, 25);
                self.time_ofs = EventTime(t);
                Some(Event::new(EventType::Tzero).with_channel(self.channel_ofs).with_abs_time_and_offset(
                    self.time_ofs,
                    EventTime::zero(),
                ))
            },
            CanonEvType::DevTime32bit => {
                let s = bits(w, 24, 0xFFFFFFFF);
                let ss = bits(w, 9, 0x7FFF);
                let us = bits(w, 0, 0x1FF);
                let t = device_time_exec(s, ss, us, 100);
                self.time_ofs = EventTime(t);
                Some(Event::new(EventType::Tzero).with_channel(self.channel_ofs).with_abs_time_and_offset(
                    self.time_ofs,
                    EventTime::zero(),
                ))
            },
            CanonEvType::Neutron => {
                let p = bits(w, 24, 0x7);
                let pl = bits(w, 12, 0xFFF);
                let pr = bits(w, 0, 0xFFF);
                let t = bits(w, 32, 0xFFFFFF);
                Some(self.neutron(p, pl, pr, t))
            },
            CanonEvType::Neutron14bit => {
                let p = bits(w, 28, 0x7);
                let pl = bits(w, 14, 0x3FFF);
                let pr = bits(w, 0, 0x3FFF);
                let t = bits(w, 32, 0xFFFFFF);
                Some(self.neutron(p, pl, pr, t))
            },
            _ => None,
        }
    }

    fn neutron(&self, p: u64, pl: u64, pr: u64, t: u64) -> (ev: Event)
        requires
            self.wf(),
            p <= 7,
            pl <= 0x3FFF,
            pr <= 0x3FFF,
            t <= 0xFFFFFF,
        ensures
            ev == neutron_event(self.channel_ofs, self.time_ofs, p as int, pl as int, pr as int, t as int),
    {
        let off = EventTime::from_ticks(25, t as i64);
        Event::new(EventType::Neutron).with_channel(self.channel_ofs + p as u32).with_abs_time_and_offset(
            self.time_ofs,
            off,
        ).with_ampl((pl + pr) as u32).with_raw(pl as u32, pr as u32)
    }
}

proof fn lemma_device_time_bound(s: int, ss: int, us: int, tick: int)
    requires
        0 <= s <= 0xFFFFFFFF,
        0 <= ss <= 0x7FFF,
        0 <= us <= 0x7FF,
        tick == 25 || tick == 100,
    ensures
        0 <= device_time(s, ss, us, tick) <= 6_000_000_000_000_000_000,
{
    lemma_clock_bound(ss);
    assert(0 <= s * 1_000_000_000 <= 0xFFFFFFFF * 1_000_000_000) by (nonlinear_arith)
        requires
            0 <= s <= 0xFFFFFFFF,
    ;
}

/// The bit field `(w >> shift) & mask`.
fn bits(w: u64, shift: u64, mask: u64) -> (r: u64)
    requires
        shift < 64,
    ensures
        r == (w >> shift) & mask,
        r <= mask,
{
    let r = (w >> shift) & mask;
    assert(r <= mask) by (bit_vector)
        requires
            r == (w >> shift) & mask,
    ;
    r
}

proof fn lemma_clock_bound(ss: int)
    requires
        0 <= ss <= 0x7FFF,
    ensures
        0 <= trunc_div(ss * 1_000_000_000, 32768) <= 1_000_000_000,
{
    assert(0 <= (ss * 1_000_000_000) / 32768 <= 1_000_000_000) by (nonlinear_arith)
        requires
            0 <= ss <= 0x7FFF,
    ;
}

fn device_time_exec(s: u64, ss: u64, us: u64, tick: i64) -> (t: i64)
    requires
        s <= 0xFFFFFFFF,
        ss <= 0x7FFF,
        us <= 0x7FF,
        tick == 25 || tick == 100,
    ensures
        t == device_time(s as int, ss as int, us as int, tick as int),
        0 <= t <= 6_000_000_000_000_000_000,
{
    proof {
        lemma_clock_bound(ss as int);
    }
    let secs = EventTime::from_ticks(1_000_000_000, s as i64);
    let sub = EventTime::from_clock(32768, ss as i64);
    let ticks = EventTime::from_ticks(tick, us as i64);
    EPOCH_NS + secs.0 + sub.0 + ticks.0
}


proof fn lemma_word14_fields(t: u64, p: u64, pl: u64, pr: u64)
    by (bit_vector)
    requires
        t < 0x100_0000,
        p < 8,
        pl < 0x4000,
        pr < 0x4000,
    ensures
        ((0x5fu64 << 56u64) | (t << 32u64) | (p << 28u64) | (pl << 14u64) | pr) >> 56u64 == 0x5f,
        (((0x5fu64 << 56u64) | (t << 32u64) | (p << 28u64) | (pl << 14u64) | pr) >> 32u64) & 0xFFFFFFu64 == t,
        (((0x5fu64 << 56u64) | (t << 32u64) | (p << 28u64) | (pl << 14u64) | pr) >> 28u64) & 0x7u64 == p,
        (((0x5fu64 << 56u64) | (t << 32u64) | (p << 28u64) | (pl << 14u64) | pr) >> 14u64) & 0x3FFFu64 == pl,
        (((0x5fu64 << 56u64) | (t << 32u64) | (p << 28u64) | (pl << 14u64) | pr) >> 0u64) & 0x3FFFu64 == pr,
{
}

proof fn lemma_word12_fields(t: u64, p: u64, pl: u64, pr: u64)
    by (bit_vector)
    requires
        t < 0x100_0000,
        p < 8,
        pl < 0x1000,
        pr < 0x1000,
    ensures
        ((0x5au64 << 56u64) | (t << 32u64) | (p << 24u64) | (pl << 12u64) | pr) >> 56u64 == 0x5a,
        (((0x5au64 << 56u64) | (t << 32u64) | (p << 24u64) | (pl << 12u64) | pr) >> 32u64) & 0xFFFFFFu64 == t,
        (((0x5au64 << 56u64) | (t << 32u64) | (p << 24u64) | (pl << 12u64) | pr) >> 24u64) & 0x7u64 == p,
        (((0x5au64 << 56u64) | (t << 32u64) | (p << 24u64) | (pl << 12u64) | pr) >> 12u64) & 0xFFFu64 == pl,
        (((0x5au64 << 56u64) | (t << 32u64) | (p << 24u64) | (pl << 12u64) | pr) >> 0u64) & 0xFFFu64 == pr,
{
}

/// A 14-bit neutron word (type byte 0x5F) laid out as detection time
/// (bits 32..55, in 25 ns ticks after the last time word), PSD number
/// (28..30), left pulse height (14..27) and right pulse height (0..13)
/// gives a neutron on channel `channel_ofs + psd` whose raw value is the
/// two 14-bit pulse heights and whose amplitude is their sum, at the last
/// device time; the device time is left as it was.
pub proof fn law_neutron14_word(d: CanonDecoder, t: u64, psd: u64, pl: u64, pr: u64)
    requires
        t < 0x100_0000,
        psd < 8,
        pl < 0x4000,
        pr < 0x4000,
    ensures
        ({
            let (time, e) = d.step((0x5fu64 << 56u64) | (t << 32u64) | (psd << 28u64) | (pl << 14u64) | pr);
            &&& time == d.time_ofs
            &&& e is Some
            &&& e->0.evtype == EventType::Neutron
            &&& e->0.raw == (pl as u32, pr as u32)
            &&& e->0.ampl.0 == pl + pr
            &&& e->0.channel.0 == (d.channel_ofs + psd) as u32
            &&& e->0.time == d.time_ofs
            &&& e->0.rel_time.0 == (d.time_ofs.0 + t * 25) as i64
        }),
{
    lemma_word14_fields(t, psd, pl, pr);
}

/// A 12-bit neutron word (type byte 0x5A) laid out as detection time
/// (bits 32..55), PSD number (24..26), left pulse height (12..23) and right
/// pulse height (0..11) gives a neutron on channel `channel_ofs + psd`
/// whose raw value is the two 12-bit pulse heights and whose amplitude is
/// their sum.
pub proof fn law_neutron12_word(d: CanonDecoder, t: u64, psd: u64, pl: u64, pr: u64)
    requires
        t < 0x100_0000,
        psd < 8,
        pl < 0x1000,
        pr < 0x1000,
    ensures
        ({
            let (time, e) = d.step((0x5au64 << 56u64) | (t << 32u64) | (psd << 24u64) | (pl << 12u64) | pr);
            &&& time == d.time_ofs
            &&& e is Some
            &&& e->0.evtype == EventType::Neutron
            &&& e->0.raw == (pl as u32, pr as u32)
            &&& e->0.ampl.0 == pl + pr
            &&& e->0.channel.0 == (d.channel_ofs + psd) as u32
            &&& e->0.time == d.time_ofs
            &&& e->0.rel_time.0 == (d.time_ofs.0 + t * 25) as i64
        }),
{
    lemma_word12_fields(t, psd, pl, pr);
}


/// Decoding a buffer of one word is one step: the device time it leaves
/// and the event it gives, if any.
pub proof fn law_run_one_word(d: CanonDecoder, w: u64)
    ensures
        d.run(seq![w]) == (d.step(w).0, match d.step(w).1 {
            Some(e) => seq![e],
            None => Seq::<Event>::empty(),
        }),
{
    assert(seq![w].drop_last() =~= Seq::<u64>::empty());
    assert(seq![w].last() == w);
    assert(d.run(Seq::<u64>::empty()) == (d.time_ofs, Seq::<Event>::empty())) by {
        assert(seq![] =~= Seq::<Event>::empty());
    }
    assert((CanonDecoder { time_ofs: d.time_ofs, ..d }) == d);
    match d.step(w).1 {
        Some(e) => assert(Seq::<Event>::empty().push(e) =~= seq![e]),
        None => {},
    }
}


proof fn lemma_time_word_fields(s: u64, ss: u64, us: u64)
    by (bit_vector)
    requires
        s < 0x4000_0000,
        ss < 0x8000,
        us < 0x800,
    ensures
        ((0x5cu64 << 56u64) | (s << 26u64) | (ss << 11u64) | us) >> 56u64 == 0x5c,
        (((0x5cu64 << 56u64) | (s << 26u64) | (ss << 11u64) | us) >> 26u64) & 0x3FFFFFFFu64 == s,
        (((0x5cu64 << 56u64) | (s << 26u64) | (ss << 11u64) | us) >> 11u64) & 0x7FFFu64 == ss,
        (((0x5cu64 << 56u64) | (s << 26u64) | (ss << 11u64) | us) >> 0u64) & 0x7FFu64 == us,
{
}

proof fn lemma_time32_word_fields(s: u64, ss: u64, us: u64)
    by (bit_vector)
    requires
        s < 0x1_0000_0000,
        ss < 0x8000,
        us < 0x200,
    ensures
        ((0x6cu64 << 56u64) | (s << 24u64) | (ss << 9u64) | us) >> 56u64 == 0x6c,
        (((0x6cu64 << 56u64) | (s << 24u64) | (ss << 9u64) | us) >> 24u64) & 0xFFFFFFFFu64 == s,
        (((0x6cu64 << 56u64) | (s << 24u64) | (ss << 9u64) | us) >> 9u64) & 0x7FFFu64 == ss,
        (((0x6cu64 << 56u64) | (s << 24u64) | (ss << 9u64) | us) >> 0u64) & 0x1FFu64 == us,
{
}

/// A device-time word (type byte 0x5C) with seconds `s` (bits 26..55),
/// 1/32768-second subseconds `ss` (11..25) and 25 ns ticks `us` (0..10)
/// sets the device time to the epoch plus those, and gives a T-zero event
/// at that time on the input's first channel.
pub proof fn law_time_word(d: CanonDecoder, s: u64, ss: u64, us: u64)
    requires
        s < 0x4000_0000,
        ss < 0x8000,
        us < 0x800,
    ensures
        ({
            let t = EPOCH_NS + s * 1_000_000_000 + trunc_div(ss * 1_000_000_000, 32768) + us * 25;
            let (time, e) = d.step((0x5cu64 << 56u64) | (s << 26u64) | (ss << 11u64) | us);
            &&& time == EventTime(t as i64)
            &&& e is Some
            &&& e->0.evtype == EventType::Tzero
            &&& e->0.time == EventTime(t as i64)
            &&& e->0.channel.0 == d.channel_ofs
        }),
{
    lemma_time_word_fields(s, ss, us);
}

/// A 32-bit device-time word (type byte 0x6C) with seconds `s` (bits
/// 24..55), subseconds `ss` (9..23) and 100 ns ticks `us` (0..8) sets the
/// device time to the epoch plus those, and gives a T-zero event then.
pub proof fn law_time32_word(d: CanonDecoder, s: u64, ss: u64, us: u64)
    requires
        s < 0x1_0000_0000,
        ss < 0x8000,
        us < 0x200,
    ensures
        ({
            let t = EPOCH_NS + s * 1_000_000_000 + trunc_div(ss * 1_000_000_000, 32768) + us * 100;
            let (time, e) = d.step((0x6cu64 << 56u64) | (s << 24u64) | (ss << 9u64) | us);
            &&& time == EventTime(t as i64)
            &&& e is Some
            &&& e->0.evtype == EventType::Tzero
            &&& e->0.time == EventTime(t as i64)
            &&& e->0.channel.0 == d.channel_ofs
        }),
{
    lemma_time32_word_fields(s, ss, us);
}

} // verus!
