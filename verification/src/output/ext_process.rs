//! Wire format of the frames sent to an external consumer process: a
//! 7-byte header (tag, 16-bit sequence number, 32-bit payload length, both
//! little-endian) followed by the payload; the batching and numbering of
//! the frames; and the check of the histograms a consumer declares.

use vstd::prelude::*;
use crate::event::{Event, EventType};

verus! {

/// Frame tag, the first header byte.
#[derive(Debug, Clone, Copy, PartialEq, Eq, Structural)]
pub enum FrameTag {
    Events,
    StartOfRun,
    EndOfRun,
    Clear,
    /// Any byte without a meaning.
    Unknown,
}

impl FrameTag {
    pub open spec fn spec_byte(self) -> u8 {
        match self {
            FrameTag::Events => 0,
            FrameTag::StartOfRun => 1,
            FrameTag::EndOfRun => 2,
            FrameTag::Clear => 3,
            FrameTag::Unknown => 0xff,
        }
    }

    pub open spec fn spec_from_byte(b: u8) -> FrameTag {
        if b == 0 {
            FrameTag::Events
        } else if b == 1 {
            FrameTag::StartOfRun
        } else if b == 2 {
            FrameTag::EndOfRun
        } else if b == 3 {
            FrameTag::Clear
        } else {
            FrameTag::Unknown
        }
    }

    pub fn to_byte(self) -> (b: u8)
        ensures
            b == self.spec_byte(),
    {
        match self {
            FrameTag::Events => 0,
            FrameTag::StartOfRun => 1,
            FrameTag::EndOfRun => 2,
            FrameTag::Clear => 3,
            FrameTag::Unknown => 0xff,
        }
    }

    /// The tag of a byte; bytes without a meaning read as `Unknown`.
    pub fn from_byte(b: u8) -> (t: FrameTag)
        ensures
            t == FrameTag::spec_from_byte(b),
    {
        if b == 0 {
            FrameTag::Events
        } else if b == 1 {
            FrameTag::StartOfRun
        } else if b == 2 {
            FrameTag::EndOfRun
        } else if b == 3 {
            FrameTag::Clear
        } else {
            FrameTag::Unknown
        }
    }
}

/// The header bytes of a frame.
pub open spec fn spec_header(tag: FrameTag, seq: u16, len: u32) -> Seq<u8> {
    seq![
        tag.spec_byte(),
        (seq % 256) as u8,
        (seq / 256) as u8,
        (len % 256) as u8,
        ((len / 256) % 256) as u8,
        ((len / 65536) % 256) as u8,
        (len / 16777216) as u8,
    ]
}

/// Encodes a frame header.
pub fn encode_header(tag: FrameTag, seq: u16, len: u32) -> (h: [u8; 7])
    ensures
        h@ == spec_header(tag, seq, len),
{
    let h: [u8; 7] = [
        tag.to_byte(),
        (seq % 256) as u8,
        (seq / 256) as u8,
        (len % 256) as u8,
        ((len / 256) % 256) as u8,
        ((len / 65536) % 256) as u8,
        (len / 16777216) as u8,
    ];
    assert(h@ =~= spec_header(tag, seq, len));
    h
}

/// Decodes a frame header: tag, sequence number and payload length.
pub fn decode_header(h: [u8; 7]) -> (r: (FrameTag, u16, u32))
    ensures
        r.0 == FrameTag::spec_from_byte(h@[0]),
        r.1 == h@[1] + 256 * h@[2],
        r.2 == h@[3] + 256 * h@[4] + 65536 * h@[5] + 16777216 * h@[6],
{
    let tag = FrameTag::from_byte(h[0]);
    let seq = h[1] as u16 + 256 * (h[2] as u16);
    let len = h[3] as u32 + 256 * (h[4] as u32) + 65536 * (h[5] as u32) + 16777216 * (h[6] as u32);
    (tag, seq, len)
}

/// Decoding an encoded header gives back its tag (for the four meaningful
/// tags), sequence number and payload length.
pub proof fn law_header_roundtrip(tag: FrameTag, seq: u16, len: u32)
    requires
        tag != FrameTag::Unknown,
    ensures
        ({
            let h = spec_header(tag, seq, len);
            &&& FrameTag::spec_from_byte(h[0]) == tag
            &&& h[1] + 256 * h[2] == seq
            &&& h[3] + 256 * h[4] + 65536 * h[5] + 16777216 * h[6] == len
        }),
{
}

/// A frame for the external consumer.
pub enum Frame {
    /// A batch of neutron events.
    Events(Vec<Event>),
    /// A run starts, with this run id.
    StartOfRun(String),
    EndOfRun,
    Clear,
}

impl Frame {
    /// The tag the frame is sent with.
    pub fn tag(&self) -> (t: FrameTag)
        ensures
            t == match self {
                Frame::Events(_) => FrameTag::Events,
                Frame::StartOfRun(_) => FrameTag::StartOfRun,
                Frame::EndOfRun => FrameTag::EndOfRun,
                Frame::Clear => FrameTag::Clear,
            },
    {
        match self {
            Frame::Events(_) => FrameTag::Events,
            Frame::StartOfRun(_) => FrameTag::StartOfRun,
            Frame::EndOfRun => FrameTag::EndOfRun,
            Frame::Clear => FrameTag::Clear,
        }
    }
}

/// Buffered neutrons are handed on as a batch once there are more than
/// this many.
pub const EVENT_BATCH_SIZE: usize = 8192;

/// The neutron events of `s`, in order.
pub open spec fn neutrons(s: Seq<Event>) -> Seq<Event>
    decreases s.len(),
{
    if s.len() == 0 {
        seq![]
    } else {
        let r = neutrons(s.drop_last());
        if s.last().evtype == EventType::Neutron {
            r.push(s.last())
        } else {
            r
        }
    }
}

/// The sequence number after `s`, wrapping at 2^16.
pub open spec fn seq_after(s: u16) -> u16 {
    ((s + 1) % 0x10000) as u16
}

/// The sending side of the stream to the external consumer: neutron
/// events waiting for the next batch, the next frame's sequence number,
/// and whether a batch was dropped in this run.
pub struct ExtStream {
    pub buffer: Vec<Event>,
    pub seq_number: u16,
    pub dropped_this_run: bool,
}

impl ExtStream {
    pub fn new() -> (s: ExtStream)
        ensures
            s.buffer@.len() == 0,
            s.seq_number == 0,
            !s.dropped_this_run,
    {
        ExtStream { buffer: Vec::new(), seq_number: 0, dropped_this_run: false }
    }

    fn next_seq(&mut self) -> (s: u16)
        ensures
            s == old(self).seq_number,
            final(self).seq_number == seq_after(old(self).seq_number),
            final(self).buffer == old(self).buffer,
            final(self).dropped_this_run == old(self).dropped_this_run,
    {
        let s = self.seq_number;
        self.seq_number = self.seq_number.wrapping_add(1);
        s
    }

    /// Buffers the neutrons of `events`; once more than
    /// `EVENT_BATCH_SIZE` are waiting, hands them all on as the next
    /// numbered batch.
    pub fn handle_events(&mut self, events: &Vec<Event>) -> (batch: Option<(u16, Vec<Event>)>)
        ensures
            final(self).dropped_this_run == old(self).dropped_this_run,
            ({
                let waiting = old(self).buffer@ + neutrons(events@);
                if waiting.len() > EVENT_BATCH_SIZE {
                    &&& batch matches Some((s, b)) && s == old(self).seq_number && b@ == waiting
                    &&& final(self).buffer@.len() == 0
                    &&& final(self).seq_number == seq_after(old(self).seq_number)
                } else {
                    &&& batch is None
                    &&& final(self).buffer@ == waiting
                    &&& final(self).seq_number == old(self).seq_number
                }
            }),
    {
        let mut i: usize = 0;
        while i < events.len()
            invariant
                i <= events@.len(),
                self.buffer@ == old(self).buffer@ + neutrons(events@.take(i as int)),
                self.seq_number == old(self).seq_number,
                self.dropped_this_run == old(self).dropped_this_run,
            decreases events@.len() - i,
        {
            proof {
                assert(events@.take(i + 1).drop_last() =~= events@.take(i as int));
                assert(events@.take(i + 1).last() == events@[i as int]);
            }
            let ev = events[i];
            if ev.evtype == EventType::Neutron {
                self.buffer.push(ev);
            }
            i = i + 1;
        }
        assert(events@.take(events@.len() as int) =~= events@);
        if self.buffer.len() > EVENT_BATCH_SIZE {
            let mut b: Vec<Event> = Vec::new();
            std::mem::swap(&mut b, &mut self.buffer);
            let s = self.next_seq();
            Some((s, b))
        } else {
            None
        }
    }

    /// A batch could not be queued: whether this is the first time in the
    /// run, and worth a warning.
    pub fn batch_dropped(&mut self) -> (warn: bool)
        ensures
            warn == !old(self).dropped_this_run,
            final(self).dropped_this_run,
            final(self).buffer == old(self).buffer,
            final(self).seq_number == old(self).seq_number,
    {
        let warn = !self.dropped_this_run;
        self.dropped_this_run = true;
        warn
    }

    /// A run starts: what is buffered is discarded, and the run id goes
    /// out as the next frame.
    pub fn start_of_run(&mut self, run: String) -> (f: (u16, Frame))
        ensures
            f.0 == old(self).seq_number,
            f.1 matches Frame::StartOfRun(r) && r@ == run@,
            final(self).buffer@.len() == 0,
            !final(self).dropped_this_run,
            final(self).seq_number == seq_after(old(self).seq_number),
    {
        self.buffer = Vec::new();
        self.dropped_this_run = false;
        let s = self.next_seq();
        (s, Frame::StartOfRun(run))
    }

    /// A run ends: what is buffered goes out as a last batch, if anything
    /// is, followed by the end-of-run frame.
    pub fn end_of_run(&mut self) -> (frames: Vec<(u16, Frame)>)
        ensures
            final(self).buffer@.len() == 0,
            final(self).dropped_this_run == old(self).dropped_this_run,
            old(self).buffer@.len() > 0 ==> {
                &&& frames@.len() == 2
                &&& frames@[0].0 == old(self).seq_number
                &&& frames@[0].1 matches Frame::Events(b) && b@ == old(self).buffer@
                &&& frames@[1].0 == seq_after(old(self).seq_number)
                &&& frames@[1].1 is EndOfRun
                &&& final(self).seq_number == seq_after(seq_after(old(self).seq_number))
            },
            old(self).buffer@.len() == 0 ==> {
                &&& frames@.len() == 1
                &&& frames@[0].0 == old(self).seq_number
                &&& frames@[0].1 is EndOfRun
                &&& final(self).seq_number == seq_after(old(self).seq_number)
            },
    {
        let mut frames: Vec<(u16, Frame)> = Vec::new();
        if self.buffer.len() > 0 {
            let mut b: Vec<Event> = Vec::new();
            std::mem::swap(&mut b, &mut self.buffer);
            let s = self.next_seq();
            frames.push((s, Frame::Events(b)));
        }
        let s = self.next_seq();
        frames.push((s, Frame::EndOfRun));
        frames
    }

    /// The histograms are cleared: what is buffered is discarded, and the
    /// clear frame goes out.
    pub fn clear(&mut self) -> (f: (u16, Frame))
        ensures
            f.0 == old(self).seq_number,
            f.1 is Clear,
            final(self).buffer@.len() == 0,
            final(self).dropped_this_run == old(self).dropped_this_run,
            final(self).seq_number == seq_after(old(self).seq_number),
    {
        self.buffer = Vec::new();
        let s = self.next_seq();
        (s, Frame::Clear)
    }
}

/// What the check of a declared histogram reads: its name and the bins
/// of its axes (`y` and `t` are optional, so a histogram has one to three
/// dimensions).
pub struct ExtHistoShape {
    pub name: String,
    pub x_bins: u16,
    pub y_bins: Option<u16>,
    pub t_bins: Option<u16>,
}

/// Why a list of declared histograms is refused.
#[derive(Debug, Clone, Copy, PartialEq, Eq, Structural)]
pub enum ExtHistoError {
    /// Two histograms share a name.
    DuplicateName,
    /// An axis has no bins.
    ZeroBins,
}

/// Why the `i`-th declared histogram is refused, if it is: a name used
/// before it, or an axis without bins.
pub open spec fn ext_histo_error(v: Seq<ExtHistoShape>, i: int) -> Option<ExtHistoError> {
    if exists|j: int| 0 <= j < i && #[trigger] v[j].name@ == v[i].name@ {
        Some(ExtHistoError::DuplicateName)
    } else if v[i].x_bins == 0 || v[i].y_bins == Some(0u16) || v[i].t_bins == Some(0u16) {
        Some(ExtHistoError::ZeroBins)
    } else {
        None
    }
}

/// The first refusal among the first `n` declared histograms, if any.
pub open spec fn first_ext_error(v: Seq<ExtHistoShape>, n: nat) -> Option<ExtHistoError>
    decreases n,
{
    if n == 0 {
        None
    } else {
        match first_ext_error(v, (n - 1) as nat) {
            Some(e) => Some(e),
            None => ext_histo_error(v, n - 1),
        }
    }
}

proof fn lemma_first_ext_error_sticks(v: Seq<ExtHistoShape>, n: nat, m: nat)
    requires
        n <= m,
        first_ext_error(v, n) is Some,
    ensures
        first_ext_error(v, m) == first_ext_error(v, n),
    decreases m - n,
{
    if n < m {
        lemma_first_ext_error_sticks(v, n, (m - 1) as nat);
    }
}

/// Checks the declared histograms in order, refusing with the first
/// problem found.
pub fn validate_histos(value: &Vec<ExtHistoShape>) -> (r: Result<(), ExtHistoError>)
    ensures
        match r {
            Ok(()) => first_ext_error(value@, value@.len()) == None::<ExtHistoError>,
            Err(e) => first_ext_error(value@, value@.len()) == Some(e),
        },
{
    let mut i: usize = 0;
    while i < value.len()
        invariant
            i <= value@.len(),
            first_ext_error(value@, i as nat) == None::<ExtHistoError>,
        decreases value@.len() - i,
    {
        let h = &value[i];
        let mut j: usize = 0;
        while j < i
            invariant
                j <= i < value@.len(),
                h == value@[i as int],
                first_ext_error(value@, i as nat) == None::<ExtHistoError>,
                forall|a: int| 0 <= a < j ==> value@[a].name@ != h.name@,
            decreases i - j,
        {
            if value[j].name == h.name {
                proof {
                    assert(value@[j as int].name@ == value@[i as int].name@);
                    assert(first_ext_error(value@, (i + 1) as nat) == Some(ExtHistoError::DuplicateName));
                    lemma_first_ext_error_sticks(value@, (i + 1) as nat, value@.len());
                }
                return Err(ExtHistoError::DuplicateName);
            }
            j = j + 1;
        }
        assert(!exists|a: int| 0 <= a < i && #[trigger] value@[a].name@ == value@[i as int].name@);
        let zero_bins = h.x_bins == 0 || (match h.y_bins {
            Some(b) => b == 0,
            None => false,
        }) || (match h.t_bins {
            Some(b) => b == 0,
            None => false,
        });
        if zero_bins {
            proof {
                assert(first_ext_error(value@, (i + 1) as nat) == Some(ExtHistoError::ZeroBins));
                lemma_first_ext_error_sticks(value@, (i + 1) as nat, value@.len());
            }
            return Err(ExtHistoError::ZeroBins);
        }
        i = i + 1;
    }
    Ok(())
}

} // verus!
