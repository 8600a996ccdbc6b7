//! Decoding of GE detector packets: a 16-byte header (length, packet type,
//! header time) followed by a 24-byte packet header and fixed-size event
//! records, all little-endian.  Events are only handed on once the header
//! time of a packet shows that no earlier event can still arrive.

use vstd::prelude::*;
use crate::bytes::{le32, read_u32_le};
use crate::config::SourceConfig;
use crate::event::{Event, EventFlags, EventTime, EventType, spec_new_event};
use crate::sorter::{law_sort_seq_sorted_permutation, sort_by_time, sort_seq, sorted_by_time};

verus! {

/// Configuration of a GE input.
#[derive(Debug)]
pub struct GEConfig {
    pub source: SourceConfig,
    /// Whether the unit is a timestamper (edges) rather than an event
    /// processor (neutrons).
    pub timestamper: bool,
}

pub const PACKET_NORMAL: u32 = 0x1000;
pub const PACKET_NORM_FAKE: u32 = 0x1100;
pub const PACKET_DIAG: u32 = 0x3000;
pub const PACKET_DIAG_FAKE: u32 = 0x3100;
pub const PACKET_HEARTBT: u32 = 0x5000;
pub const MAX_PACKET_SIZE: usize = 65536;
/// Bytes of the header that precedes each packet's content.
pub const HEADER_SIZE: usize = 16;

/// Why a packet cannot be decoded; each carries the packet type.
#[derive(Debug, Clone, Copy, PartialEq, Eq, Structural)]
pub enum GeError {
    /// A packet without content that is no heartbeat.
    EmptyPacket(u32),
    /// A packet of unknown type.
    UnsupportedPacket(u32),
}

/// Seconds and nanoseconds as two little-endian words at `off`.
pub open spec fn time_at(b: Seq<u8>, off: int) -> EventTime {
    EventTime((le32(b, off) * 1_000_000_000 + le32(b, off + 4)) as i64)
}

pub open spec fn packet_len(b: Seq<u8>) -> int {
    le32(b, 0)
}

pub open spec fn packet_type(b: Seq<u8>) -> int {
    le32(b, 4)
}

pub open spec fn header_time(b: Seq<u8>) -> EventTime {
    time_at(b, 8)
}

pub open spec fn is_known_type(t: int) -> bool {
    t == PACKET_NORMAL || t == PACKET_NORM_FAKE || t == PACKET_DIAG || t == PACKET_DIAG_FAKE
}

pub open spec fn is_diag(t: int) -> bool {
    t == PACKET_DIAG || t == PACKET_DIAG_FAKE
}

/// Bytes per event record of a packet type.
pub open spec fn event_len(t: int) -> int {
    if is_diag(t) {
        24
    } else {
        12
    }
}

/// Number of event records in a packet of the given length and type.
pub open spec fn event_count(len: int, t: int) -> int {
    (len - 24) / event_len(t)
}

/// The event of the record at `off` of a packet of type `t`.  Diagnostic
/// packets of an event processor carry two integrated pulse heights whose
/// sum (modulo 2^32) is the amplitude.
pub open spec fn record_event(is_ts: bool, t: int, b: Seq<u8>, off: int) -> Event {
    let detid = le32(b, off + 8) as u32;
    Event {
        channel: crate::event::ChannelId(detid),
        time: time_at(b, off),
        flags: if t == PACKET_NORM_FAKE || t == PACKET_DIAG_FAKE {
            EventFlags::Fake
        } else {
            EventFlags::NoFlags
        },
        ampl: crate::event::Amplitude(
            if !is_ts && is_diag(t) {
                ((le32(b, off + 16) + le32(b, off + 20)) % 0x1_0000_0000) as u32
            } else {
                0
            },
        ),
        ..spec_new_event(
            if is_ts {
                EventType::Edge { up: detid & 0x8000_0000 != 0 }
            } else {
                EventType::Neutron
            },
        )
    }
}

/// All events of a packet, in record order.
pub open spec fn packet_events(is_ts: bool, b: Seq<u8>) -> Seq<Event> {
    let t = packet_type(b);
    Seq::new(
        event_count(packet_len(b), t) as nat,
        |k: int| record_event(is_ts, t, b, 40 + k * event_len(t)),
    )
}

/// The events of `s` earlier than `t`, in order.
pub open spec fn earlier(s: Seq<Event>, t: i64) -> Seq<Event>
    decreases s.len(),
{
    if s.len() == 0 {
        seq![]
    } else if s.last().time.0 < t {
        earlier(s.drop_last(), t).push(s.last())
    } else {
        earlier(s.drop_last(), t)
    }
}

/// The events of `s` no earlier than `t`, in order.
pub open spec fn not_earlier(s: Seq<Event>, t: i64) -> Seq<Event>
    decreases s.len(),
{
    if s.len() == 0 {
        seq![]
    } else if s.last().time.0 < t {
        not_earlier(s.drop_last(), t)
    } else {
        not_earlier(s.drop_last(), t).push(s.last())
    }
}

/// Every event is either handed on, if earlier than the header time `t`,
/// or held back, otherwise, and none is lost or doubled.
pub proof fn law_split_by_header_time(s: Seq<Event>, t: i64)
    ensures
        earlier(s, t).to_multiset().add(not_earlier(s, t).to_multiset()) == s.to_multiset(),
        forall|i: int| 0 <= i < earlier(s, t).len() ==> #[trigger] earlier(s, t)[i].time.0 < t,
        forall|i: int| 0 <= i < not_earlier(s, t).len() ==> #[trigger] not_earlier(s, t)[i].time.0 >= t,
    decreases s.len(),
{
    broadcast use vstd::seq_lib::group_to_multiset_ensures;

    if s.len() == 0 {
        assert(earlier(s, t).to_multiset() =~= vstd::multiset::Multiset::empty());
        assert(not_earlier(s, t).to_multiset() =~= vstd::multiset::Multiset::empty());
        assert(s.to_multiset() =~= vstd::multiset::Multiset::empty());
    } else {
        law_split_by_header_time(s.drop_last(), t);
        assert(s =~= s.drop_last().push(s.last()));
        assert(s.to_multiset() =~= s.drop_last().to_multiset().insert(s.last()));
        if s.last().time.0 < t {
            assert(earlier(s, t).to_multiset().add(not_earlier(s, t).to_multiset()) =~= earlier(
                s.drop_last(),
                t,
            ).to_multiset().add(not_earlier(s.drop_last(), t).to_multiset()).insert(s.last()));
        } else {
            assert(earlier(s, t).to_multiset().add(not_earlier(s, t).to_multiset()) =~= earlier(
                s.drop_last(),
                t,
            ).to_multiset().add(not_earlier(s.drop_last(), t).to_multiset()).insert(s.last()));
        }
    }
}

/// Across a packet, no event is lost or doubled: of the events held back
/// from earlier packets and those of a packet with header time `t`, the
/// ones handed on are in time order and earlier than `t`, the ones held
/// back are not, and together they are all of them.
pub proof fn law_packet_keeps_every_event(held: Seq<Event>, decoded: Seq<Event>, t: i64)
    ensures
        ({
            let all = held + decoded;
            let out = sort_seq(earlier(all, t));
            let kept = not_earlier(all, t);
            &&& sorted_by_time(out)
            &&& out.to_multiset().add(kept.to_multiset()) == all.to_multiset()
            &&& forall|i: int| 0 <= i < out.len() ==> #[trigger] out[i].time.0 < t
            &&& forall|i: int| 0 <= i < kept.len() ==> #[trigger] kept[i].time.0 >= t
        }),
{
    broadcast use vstd::seq_lib::group_to_multiset_ensures;

    let all = held + decoded;
    let e = earlier(all, t);
    let out = sort_seq(e);
    law_split_by_header_time(all, t);
    law_sort_seq_sorted_permutation(e);
    assert forall|i: int| 0 <= i < out.len() implies #[trigger] out[i].time.0 < t by {
        assert(out.to_multiset().count(out[i]) > 0);
        assert(e.to_multiset().count(out[i]) > 0);
        assert(e.contains(out[i]));
        let j = choose|j: int| 0 <= j < e.len() && e[j] == out[i];
        assert(e[j].time.0 < t);
    }
}

/// A heartbeat at time `t`.
pub open spec fn heartbeat_event(t: EventTime) -> Event {
    Event { time: t, ..spec_new_event(EventType::Heartbeat) }
}

/// Whether a buffer holds a whole packet that can be decoded without
/// running past its end: the header, and content of the length it gives,
/// which is either empty or holds at least the packet header.
pub open spec fn whole_packet(b: Seq<u8>) -> bool {
    &&& b.len() >= HEADER_SIZE
    &&& HEADER_SIZE + packet_len(b) <= b.len()
    &&& (packet_len(b) == 0 || packet_len(b) >= 24)
}

/// The decoder of one GE input: whether it reads a timestamper, and the
/// events held back until a later header time.
pub struct GeDecoder {
    pub is_ts: bool,
    pub queue: Vec<Event>,
}

fn read_time(buf: &[u8], off: usize) -> (t: EventTime)
    requires
        off + 8 <= buf.len(),
    ensures
        t == time_at(buf@, off as int),
{
    let sec = read_u32_le(buf, off);
    let nsec = read_u32_le(buf, off + 4);
    EventTime::from_sec_nsec(sec, nsec)
}

impl GeDecoder {
    pub fn new(is_ts: bool) -> (d: GeDecoder)
        ensures
            d.is_ts == is_ts,
            d.queue@.len() == 0,
    {
        GeDecoder { is_ts, queue: Vec::new() }
    }

    /// Forgets the held-back events (at the start of a run, or a reset).
    pub fn clear(&mut self)
        ensures
            final(self).is_ts == old(self).is_ts,
            final(self).queue@.len() == 0,
    {
        self.queue.clear();
    }

    /// At the end of the data: the held-back events, sorted, or `None`
    /// when there are none left.
    pub fn flush(&mut self) -> (r: Option<Vec<Event>>)
        ensures
            final(self).is_ts == old(self).is_ts,
            final(self).queue@.len() == 0,
            old(self).queue@.len() == 0 ==> r is None,
            old(self).queue@.len() > 0 ==> (r matches Some(v) && v@ == sort_seq(old(self).queue@)),
    {
        if self.queue.len() == 0 {
            return None;
        }
        let mut out: Vec<Event> = Vec::new();
        std::mem::swap(&mut out, &mut self.queue);
        sort_by_time(&mut out);
        Some(out)
    }

    fn event_at(&self, buf: &[u8], pktype: u32, off: usize) -> (ev: Event)
        requires
            off + event_len(pktype as int) <= buf.len(),
            is_known_type(pktype as int),
        ensures
            ev == record_event(self.is_ts, pktype as int, buf@, off as int),
    {
        let detid = read_u32_le(buf, off + 8);
        let flags = if pktype == PACKET_NORM_FAKE || pktype == PACKET_DIAG_FAKE {
            EventFlags::Fake
        } else {
            EventFlags::NoFlags
        };
        let (data, ampl) = if self.is_ts {
            (EventType::Edge { up: detid & 0x8000_0000 != 0 }, 0u32)
        } else if pktype == PACKET_DIAG || pktype == PACKET_DIAG_FAKE {
            let a_integrated = read_u32_le(buf, off + 16);
            let b_integrated = read_u32_le(buf, off + 20);
            let s = a_integrated.wrapping_add(b_integrated);
            assert(s == (a_integrated + b_integrated) % 0x1_0000_0000);
            (EventType::Neutron, s)
        } else {
            (EventType::Neutron, 0u32)
        };
        Event::new(data).with_channel(detid).with_abs_time(read_time(buf, off)).with_flags(
            flags,
        ).with_ampl(ampl)
    }

    /// Decodes one whole packet.  A heartbeat gives one heartbeat event.  An
    /// event packet gives, sorted by time, all events held back and all
    /// events of the packet that are earlier than the packet's header time;
    /// the others are held back, in order.  Empty packets of another type and
    /// packets of unknown type are refused and change nothing.
    pub fn decode_packet(&mut self, buf: &[u8]) -> (r: Result<Vec<Event>, GeError>)
        requires
            whole_packet(buf@),
        ensures
            final(self).is_ts == old(self).is_ts,
            packet_len(buf@) == 0 && packet_type(buf@) == PACKET_HEARTBT ==> {
                &&& r matches Ok(v) && v@ == seq![heartbeat_event(header_time(buf@))]
                &&& final(self).queue@ == old(self).queue@
            },
            packet_len(buf@) == 0 && packet_type(buf@) != PACKET_HEARTBT ==> {
                &&& r == Err::<Vec<Event>, GeError>(GeError::EmptyPacket(packet_type(buf@) as u32))
                &&& final(self).queue@ == old(self).queue@
            },
            packet_len(buf@) != 0 && !is_known_type(packet_type(buf@)) ==> {
                &&& r == Err::<Vec<Event>, GeError>(GeError::UnsupportedPacket(packet_type(buf@) as u32))
                &&& final(self).queue@ == old(self).queue@
            },
            packet_len(buf@) != 0 && is_known_type(packet_type(buf@)) ==> {
                let all = old(self).queue@ + packet_events(old(self).is_ts, buf@);
                &&& r matches Ok(v) && v@ == sort_seq(earlier(all, header_time(buf@).0))
                &&& final(self).queue@ == not_earlier(all, header_time(buf@).0)
            },
    {
        let len = read_u32_le(buf, 0);
        let pktype = read_u32_le(buf, 4);
        let header_time = read_time(buf, 8);
        if len == 0 {
            if pktype == PACKET_HEARTBT {
                let mut v: Vec<Event> = Vec::new();
                v.push(Event::new(EventType::Heartbeat).with_abs_time(header_time));
                return Ok(v);
            }
            return Err(GeError::EmptyPacket(pktype));
        }
        let evlen: usize = if pktype == PACKET_NORMAL || pktype == PACKET_NORM_FAKE {
            12
        } else if pktype == PACKET_DIAG || pktype == PACKET_DIAG_FAKE {
            24
        } else {
            return Err(GeError::UnsupportedPacket(pktype));
        };
        let nevents: usize = (len as usize - 24) / evlen;
        let ghost t = header_time.0;
        let ghost q = self.queue@;
        let ghost evs = packet_events(self.is_ts, buf@);
        let ghost all = q + evs;
        assert(evs.len() == nevents);

        let mut events: Vec<Event> = Vec::new();
        let mut kept: Vec<Event> = Vec::new();
        std::mem::swap(&mut kept, &mut self.queue);
        let mut queue: Vec<Event> = Vec::new();
        let mut i: usize = 0;
        while i < kept.len()
            invariant
                kept@ == q,
                header_time.0 == t,
                i <= q.len(),
                all == q + evs,
                events@ == earlier(all.subrange(0, i as int), t),
                queue@ == not_earlier(all.subrange(0, i as int), t),
            decreases q.len() - i,
        {
            let ev = kept[i];
            proof {
                assert(all.subrange(0, i + 1).drop_last() =~= all.subrange(0, i as int));
                assert(all.subrange(0, i + 1).last() == ev);
            }
            if ev.time.0 < header_time.0 {
                events.push(ev);
            } else {
                queue.push(ev);
            }
            i = i + 1;
        }
        let mut k: usize = 0;
        let mut offset: usize = 40;
        while k < nevents
            invariant
                all == q + evs,
                evs == packet_events(self.is_ts, buf@),
                evs.len() == nevents,
                is_known_type(pktype as int),
                pktype == packet_type(buf@),
                len == packet_len(buf@),
                evlen == event_len(pktype as int),
                nevents == event_count(len as int, pktype as int),
                whole_packet(buf@),
                header_time.0 == t,
                k <= nevents,
                offset == 40 + k * evlen,
                events@ == earlier(all.subrange(0, q.len() + k), t),
                queue@ == not_earlier(all.subrange(0, q.len() + k), t),
            decreases nevents - k,
        {
            proof {
                assert(nevents * evlen <= len - 24) by (nonlinear_arith)
                    requires
                        nevents == (len - 24) / (evlen as int),
                        evlen > 0,
                        len >= 24,
                ;
                assert((k + 1) * evlen <= nevents * evlen) by (nonlinear_arith)
                    requires
                        k + 1 <= nevents,
                ;
                assert((k + 1) * evlen == k * evlen + evlen) by (nonlinear_arith);
            }
            let ev = self.event_at(buf, pktype, offset);
            proof {
                let j = q.len() + k;
                assert(all.subrange(0, j + 1).drop_last() =~= all.subrange(0, j));
                assert(all[j] == evs[k as int]);
                assert(all.subrange(0, j + 1).last() == ev);
            }
            if ev.time.0 < header_time.0 {
                events.push(ev);
            } else {
                queue.push(ev);
            }
            assert(offset + evlen <= 16 + len);
            assert(offset + evlen <= buf.len());
            offset = offset + evlen;
            k = k + 1;
        }
        proof {
            assert(all.subrange(0, q.len() + nevents) =~= all);
        }
        self.queue = queue;
        sort_by_time(&mut events);
        Ok(events)
    }
}

} // verus!
