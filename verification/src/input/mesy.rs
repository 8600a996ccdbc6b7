//! Mesytec MCPD input: configuration of the MCPD and its modules, and the
//! decoding of its data buffers.  A data buffer is a 42-byte header (buffer
//! length in words, buffer type, serial number, MCPD id and status, 48-bit
//! header timestamp) followed by 48-bit event words; words are 16 bits wide,
//! little-endian on the wire and big-endian in dump files.

pub mod cmd;
pub mod header;

use vstd::prelude::*;
use crate::bytes::{read_u16, read_48bit, word16, word48};
use crate::config::SourceConfig;
use crate::event::{Event, EventTime, EventType, spec_new_event};
use crate::sorter::{sort_by_time, sort_seq};

verus! {

/// Nanoseconds per MCPD clock tick.
pub const TIME_BASE: i64 = 100;
pub const MAX_PACKET_SIZE: usize = 2048;
pub const HEADER_LEN: usize = 42;
pub const EVENT_SIZE: usize = 6;
/// Empty data buffers (about 250 ms) after which a heartbeat is generated.
pub const HEARTBEAT_BUFFERS: usize = 10;

/// Marker before the first buffer of a dump file.
pub open spec fn beg_marker() -> Seq<u8> {
    seq![0x00u8, 0x00, 0x55, 0x55, 0xaa, 0xaa, 0xff, 0xff]
}

/// Marker after each buffer of a dump file.
pub open spec fn pkt_marker() -> Seq<u8> {
    seq![0x00u8, 0x00, 0xff, 0xff, 0x55, 0x55, 0xaa, 0xaa]
}

/// Marker at the end of a dump file.
pub open spec fn end_marker() -> Seq<u8> {
    seq![0xffu8, 0xff, 0xaa, 0xaa, 0x55, 0x55, 0x00, 0x00]
}

/// The first eight bytes of a dump file's text header: `mesytec `.
pub open spec fn file_start() -> Seq<u8> {
    seq![0x6du8, 0x65, 0x73, 0x79, 0x74, 0x65, 0x63, 0x20]
}

/// Whether the eight bytes at the start of `b` are `m`.
fn starts_with8(b: &[u8], m: [u8; 8]) -> (r: bool)
    requires
        b.len() >= 8,
    ensures
        r == (b@.subrange(0, 8) == m@),
{
    let mut i: usize = 0;
    while i < 8
        invariant
            i <= 8,
            b@.len() >= 8,
            forall|j: int| 0 <= j < i ==> b@[j] == m@[j],
        decreases 8 - i,
    {
        if b[i] != m[i] {
            return false;
        }
        i = i + 1;
    }
    assert(b@.subrange(0, 8) =~= m@);
    true
}

pub fn is_beg_marker(b: &[u8]) -> (r: bool)
    requires
        b.len() >= 8,
    ensures
        r == (b@.subrange(0, 8) == beg_marker()),
{
    let r = starts_with8(b, [0x00, 0x00, 0x55, 0x55, 0xaa, 0xaa, 0xff, 0xff]);
    assert([0x00u8, 0x00, 0x55, 0x55, 0xaa, 0xaa, 0xff, 0xff]@ =~= beg_marker());
    r
}

pub fn is_pkt_marker(b: &[u8]) -> (r: bool)
    requires
        b.len() >= 8,
    ensures
        r == (b@.subrange(0, 8) == pkt_marker()),
{
    let r = starts_with8(b, [0x00, 0x00, 0xff, 0xff, 0x55, 0x55, 0xaa, 0xaa]);
    assert([0x00u8, 0x00, 0xff, 0xff, 0x55, 0x55, 0xaa, 0xaa]@ =~= pkt_marker());
    r
}

/// What the eight bytes read at a buffer boundary of a dump file are.
#[derive(Debug, Clone, Copy, PartialEq, Eq, Structural)]
pub enum DumpHead {
    /// The start of the file's text header.
    FileStart,
    /// The end of the data.
    EndMarker,
    /// The start of a buffer of this many bytes (twice its length field,
    /// big-endian).
    Packet(usize),
}

pub fn classify_head(head: &[u8]) -> (r: DumpHead)
    requires
        head.len() >= 8,
    ensures
        head@.subrange(0, 8) == file_start() ==> r == DumpHead::FileStart,
        head@.subrange(0, 8) != file_start() && head@.subrange(0, 8) == end_marker() ==> r == DumpHead::EndMarker,
        head@.subrange(0, 8) != file_start() && head@.subrange(0, 8) != end_marker() ==> r == DumpHead::Packet(
            (2 * crate::bytes::be16(head@, 0)) as usize,
        ),
{
    if starts_with8(head, [0x6d, 0x65, 0x73, 0x79, 0x74, 0x65, 0x63, 0x20]) {
        assert([0x6du8, 0x65, 0x73, 0x79, 0x74, 0x65, 0x63, 0x20]@ =~= file_start());
        return DumpHead::FileStart;
    }
    assert([0x6du8, 0x65, 0x73, 0x79, 0x74, 0x65, 0x63, 0x20]@ =~= file_start());
    if starts_with8(head, [0xff, 0xff, 0xaa, 0xaa, 0x55, 0x55, 0x00, 0x00]) {
        assert([0xffu8, 0xff, 0xaa, 0xaa, 0x55, 0x55, 0x00, 0x00]@ =~= end_marker());
        return DumpHead::EndMarker;
    }
    assert([0xffu8, 0xff, 0xaa, 0xaa, 0x55, 0x55, 0x00, 0x00]@ =~= end_marker());
    DumpHead::Packet(2 * crate::bytes::read_u16_be(head, 0) as usize)
}

/// Whether a buffer of `n` bytes from a dump file is acceptable: at least
/// a header, and no more than fits in `capacity` bytes.
pub fn dump_packet_size_ok(n: usize, capacity: usize) -> (r: bool)
    ensures
        r == (HEADER_LEN <= n <= capacity),
{
    !(n > capacity || n < HEADER_LEN)
}

/// A cell's trigger source: which physical or logical signal counts into it.
#[derive(Debug, Clone, Copy, PartialEq, Eq, Structural)]
pub enum CellTrigger {
    Disabled,
    Aux1,
    Aux2,
    Aux3,
    Aux4,
    Digital1,
    Digital2,
    Compare,
}

impl CellTrigger {
    pub open spec fn spec_code(self) -> u16 {
        match self {
            CellTrigger::Disabled => 0,
            CellTrigger::Aux1 => 1,
            CellTrigger::Aux2 => 2,
            CellTrigger::Aux3 => 3,
            CellTrigger::Aux4 => 4,
            CellTrigger::Digital1 => 5,
            CellTrigger::Digital2 => 6,
            CellTrigger::Compare => 7,
        }
    }

    /// The source's number in the MCPD's cell command.
    pub fn code(self) -> (c: u16)
        ensures
            c == self.spec_code(),
    {
        match self {
            CellTrigger::Disabled => 0,
            CellTrigger::Aux1 => 1,
            CellTrigger::Aux2 => 2,
            CellTrigger::Aux3 => 3,
            CellTrigger::Aux4 => 4,
            CellTrigger::Digital1 => 5,
            CellTrigger::Digital2 => 6,
            CellTrigger::Compare => 7,
        }
    }
}

/// A bit index into the MCPD's compare/status register: 0-20 select one of
/// its 21 status bits, 21 is the counter-overflow pseudo-bit, 22 is the
/// rising-edge pseudo-bit.  Only meaningful when a cell's source is
/// `CellTrigger::Compare`.
#[derive(Debug, Clone, Copy, PartialEq, Eq, Structural)]
pub struct CompareBit(u16);

/// Why a compare bit was refused: the value given.
#[derive(Debug, Clone, Copy, PartialEq, Eq, Structural)]
pub struct CompareBitError(pub u16);

impl CompareBit {
    pub closed spec fn value(self) -> u16 {
        self.0
    }

    /// A compare bit; values above 22 are refused.
    pub fn new(value: u16) -> (r: Result<CompareBit, CompareBitError>)
        ensures
            value <= 22 ==> (r matches Ok(b) && b.value() == value),
            value > 22 ==> r == Err::<CompareBit, CompareBitError>(CompareBitError(value)),
    {
        if value > 22 {
            return Err(CompareBitError(value));
        }
        Ok(CompareBit(value))
    }

    pub fn get(self) -> (v: u16)
        ensures
            v == self.value(),
            v <= 22,
    {
        proof {
            use_type_invariant(self);
        }
        self.0
    }

    #[verifier::type_invariant]
    spec fn in_range(self) -> bool {
        self.0 <= 22
    }
}

/// Trigger source and compare bit of one cell.
#[derive(Debug, Clone, Copy, PartialEq, Eq, Structural)]
pub struct MesyCellConfig {
    pub source: CellTrigger,
    pub compare: CompareBit,
}

/// An MPSD's gain, either the same for every channel or one value per
/// channel.
#[derive(Debug, Clone, Copy, PartialEq, Eq)]
pub enum MesyGain {
    Uniform(u16),
    PerChannel([u16; 8]),
}

/// An MSTD-16's gain, either the same for every channel or one value per
/// channel.
#[derive(Debug, Clone, Copy, PartialEq, Eq)]
pub enum MstdGain {
    Uniform(u16),
    PerChannel([u16; 16]),
}

/// Threshold and gain of one module, by module kind.
#[derive(Debug, Clone, Copy, PartialEq, Eq)]
pub enum MesyModuleConfig {
    Mpsd { threshold: u16, gain: MesyGain },
    Mstd { threshold: u16, gain: MstdGain },
}

/// One module's test-pulse injection setting.
#[derive(Debug, Clone, Copy, PartialEq, Eq, Structural)]
pub struct PulserConfig {
    pub chan: u16,
    pub pos: cmd::PulserPos,
    pub amp: u16,
    pub on: bool,
}

impl PulserConfig {
    /// The pulser switched off.
    pub fn off() -> (c: PulserConfig)
        ensures
            c == (PulserConfig { chan: 0, pos: cmd::PulserPos::Left, amp: 0, on: false }),
    {
        PulserConfig { chan: 0, pos: cmd::PulserPos::Left, amp: 0, on: false }
    }
}

/// The cell set-up of a cell not configured: cells 0-5 count any status
/// bit's rising edge (compare bit 22), cells 6 and 7 count nothing.
pub open spec fn spec_default_cell(i: int) -> (CellTrigger, u16) {
    if i < 6 {
        (CellTrigger::Compare, 22)
    } else {
        (CellTrigger::Disabled, 0)
    }
}

pub fn default_cell_config(i: usize) -> (c: MesyCellConfig)
    ensures
        (c.source, c.compare.value()) == spec_default_cell(i as int),
{
    if i < 6 {
        MesyCellConfig { source: CellTrigger::Compare, compare: CompareBit(22) }
    } else {
        MesyCellConfig { source: CellTrigger::Disabled, compare: CompareBit(0) }
    }
}

/// Configuration of an MCPD input.  Cells and modules are given by index,
/// each index at most once.
#[derive(Debug)]
pub struct MesyConfig {
    pub local: SourceConfig,
    pub remote: String,
    pub is_master: bool,
    /// Sync-bus termination; forced on for the master.
    pub terminate: bool,
    /// External synchronisation input, only meaningful for the master.
    pub ext_sync: bool,
    /// Negotiate amplitude data into the transmission mode if supported.
    pub transmit_ampl: bool,
    pub mcpd_id: u8,
    pub cells: Vec<(usize, MesyCellConfig)>,
    pub modules: Vec<(usize, MesyModuleConfig)>,
    /// Auxiliary timer presets; zero leaves a timer alone.
    pub aux_timers: [u16; 4],
}

/// Something unusual about a buffer that the input reports and passes
/// over.
#[derive(Debug, Clone, Copy, PartialEq, Eq, Structural)]
pub enum MesyWarning {
    /// The buffer's length field disagrees with the bytes received.
    SizeMismatch { got: usize, expected: usize },
    /// A command buffer arrived on the data channel.
    CommandBuffer,
    /// An event buffer arrived while the DAQ is stopped.
    DaqStopped,
    /// Buffers were lost between serial numbers `prev` and `serial`.
    Skipped { count: u16, prev: u16, serial: u16 },
}

/// What one buffer gives: its events, sorted by time, and a warning.
pub struct MesyPacket {
    pub events: Vec<Event>,
    pub warning: Option<MesyWarning>,
}

/// The event of one 48-bit event word of a buffer with timestamp `pkt_ts`
/// from MCPD `mcpd_id`: a trigger (top bit set) or a neutron, whose channel
/// combines MCPD id, module id and slot id.
pub open spec fn mesy_event(data: u64, pkt_ts: u64, mcpd_id: u64) -> Event {
    let ts = pkt_ts + (data & 0x7ffffu64);
    if data >> 47u64 == 1 {
        Event {
            channel: crate::event::ChannelId(((data >> 40u64) & 0xfu64) as u32),
            time: EventTime((ts * TIME_BASE) as i64),
            ..spec_new_event(EventType::Edge { up: true })
        }
    } else {
        let mod_id = (data >> 44u64) & 0x7u64;
        let slot_id = (data >> 39u64) & 0x1fu64;
        Event {
            channel: crate::event::ChannelId(((mcpd_id << 7u64) | (mod_id << 4u64) | slot_id) as u32),
            time: EventTime((ts * TIME_BASE) as i64),
            ampl: crate::event::Amplitude(((data >> 29u64) & 0x3ffu64) as u32),
            raw: (((data >> 19u64) & 0x3ffu64) as u32, 0),
            ..spec_new_event(EventType::Neutron)
        }
    }
}

pub open spec fn buffer_word(b: Seq<u8>, off: int, be: bool) -> u16 {
    word16(b, off, be) as u16
}

pub open spec fn event_count(n: int) -> int {
    (n - HEADER_LEN) / EVENT_SIZE as int
}

/// The events of a data buffer of `n` bytes, in buffer order.
pub open spec fn buffer_events(b: Seq<u8>, n: int, be: bool) -> Seq<Event> {
    let pkt_ts = word48(b, 12, be) as u64;
    let mcpd_id = (buffer_word(b, 10, be) >> 8u16) as u64;
    Seq::new(
        event_count(n) as nat,
        |i: int| mesy_event(word48(b, HEADER_LEN + i * EVENT_SIZE, be) as u64, pkt_ts, mcpd_id),
    )
}

/// Whether decoding a buffer stays within what was received: a data buffer
/// whose length field matches must hold at least the header.
pub open spec fn decodable(b: Seq<u8>, n: int, be: bool) -> bool {
    &&& HEADER_LEN <= b.len()
    &&& n <= b.len()
    &&& (2 * buffer_word(b, 0, be) == n && buffer_word(b, 2, be) >> 15u16 == 0 ==> HEADER_LEN <= n)
}

/// The decoder of one MCPD's data buffers: the serial number of the last
/// data buffer, and how many empty buffers came in a row since the last
/// heartbeat or event.
pub struct MesyDecoder {
    pub buf_serial: Option<u16>,
    pub no_event_buffers: usize,
}

impl MesyDecoder {
    pub open spec fn wf(self) -> bool {
        self.no_event_buffers < HEARTBEAT_BUFFERS
    }

    /// The state after a data buffer with serial `serial` and `nevents`
    /// events.
    pub open spec fn after(self, serial: u16, nevents: int) -> MesyDecoder {
        MesyDecoder {
            buf_serial: Some(serial),
            no_event_buffers: if nevents == 0 && self.no_event_buffers + 1 < HEARTBEAT_BUFFERS {
                (self.no_event_buffers + 1) as usize
            } else {
                0
            },
        }
    }

    /// Whether a data buffer with `nevents` events gives a heartbeat: the
    /// tenth empty buffer in a row does.
    pub open spec fn gives_heartbeat(self, nevents: int) -> bool {
        nevents == 0 && self.no_event_buffers + 1 == HEARTBEAT_BUFFERS
    }

    /// The warning about lost buffers before `serial`, if any.
    pub open spec fn skip_warning(self, serial: u16) -> Option<MesyWarning> {
        match self.buf_serial {
            Some(prev) => if serial != ((prev + 1) % 0x10000) as u16 {
                Some(
                    MesyWarning::Skipped {
                        count: ((serial - (prev + 1)) % 0x10000) as u16,
                        prev,
                        serial,
                    },
                )
            } else {
                None
            },
            None => None,
        }
    }

    pub fn new() -> (d: MesyDecoder)
        ensures
            d.wf(),
            d.buf_serial is None,
            d.no_event_buffers == 0,
    {
        MesyDecoder { buf_serial: None, no_event_buffers: 0 }
    }

    /// At the start of a run the serial numbers start over.
    pub fn start(&mut self)
        ensures
            final(self).buf_serial is None,
            final(self).no_event_buffers == old(self).no_event_buffers,
    {
        self.buf_serial = None;
    }

    /// Decodes the first `n` bytes of `buf`.  Buffers whose length field
    /// disagrees with `n`, command buffers, and data buffers sent while the
    /// DAQ is stopped give a warning, no events, and change nothing.  A data
    /// buffer gives its events, and a heartbeat at its timestamp after ten
    /// empty buffers in a row, all sorted by time; lost buffers are reported.
    pub fn decode(&mut self, buf: &[u8], n: usize, big_endian: bool) -> (r: MesyPacket)
        requires
            old(self).wf(),
            decodable(buf@, n as int, big_endian),
        ensures
            final(self).wf(),
            ({
                let b = buf@;
                let be = big_endian;
                let expected = 2 * buffer_word(b, 0, be);
                let status = buffer_word(b, 10, be) & 0xffu16;
                let serial = buffer_word(b, 6, be);
                let nevents = event_count(n as int);
                if expected != n {
                    &&& r.warning == Some(MesyWarning::SizeMismatch { got: n, expected: expected as usize })
                    &&& r.events@.len() == 0
                    &&& *final(self) == *old(self)
                } else if buffer_word(b, 2, be) >> 15u16 != 0 {
                    &&& r.warning == Some(MesyWarning::CommandBuffer)
                    &&& r.events@.len() == 0
                    &&& *final(self) == *old(self)
                } else if status & 1u16 != 1 {
                    &&& r.warning == Some(MesyWarning::DaqStopped)
                    &&& r.events@.len() == 0
                    &&& *final(self) == *old(self)
                } else {
                    let hb = if old(self).gives_heartbeat(nevents) {
                        seq![
                            Event {
                                time: EventTime((word48(b, 12, be) * TIME_BASE) as i64),
                                ..spec_new_event(EventType::Heartbeat)
                            },
                        ]
                    } else {
                        seq![]
                    };
                    &&& r.warning == old(self).skip_warning(serial)
                    &&& r.events@ == sort_seq(hb + buffer_events(b, n as int, be))
                    &&& *final(self) == old(self).after(serial, nevents)
                }
            }),
    {
        let buf_length: usize = read_u16(buf, 0, big_endian) as usize * 2;
        if buf_length != n {
            return MesyPacket {
                events: Vec::new(),
                warning: Some(MesyWarning::SizeMismatch { got: n, expected: buf_length }),
            };
        }
        let btype = read_u16(buf, 2, big_endian);
        if btype >> 15 != 0 {
            return MesyPacket { events: Vec::new(), warning: Some(MesyWarning::CommandBuffer) };
        }
        let nevents: usize = (n - HEADER_LEN) / EVENT_SIZE;
        let buf_serial = read_u16(buf, 6, big_endian);
        let id_status = read_u16(buf, 10, big_endian);
        let status = id_status & 0xFF;
        let hi = id_status >> 8;
        assert(hi < 256) by (bit_vector)
            requires
                hi == id_status >> 8u16,
        ;
        let mcpd_id = hi as u64;
        let pkt_ts = read_48bit(buf, 12, big_endian);
        if status & 1 != 1 {
            return MesyPacket { events: Vec::new(), warning: Some(MesyWarning::DaqStopped) };
        }
        let warning = self.skip_warning_exec(buf_serial);
        let mut events = self.count_buffer(buf_serial, nevents, pkt_ts);
        let evs = buffer_events_exec(buf, n, big_endian, pkt_ts, mcpd_id);
        let ghost hb = events@;
        append_events(&mut events, evs);
        sort_by_time(&mut events);
        MesyPacket { events, warning }
    }
}

impl MesyDecoder {
    fn skip_warning_exec(&self, serial: u16) -> (w: Option<MesyWarning>)
        ensures
            w == self.skip_warning(serial),
    {
        match self.buf_serial {
            Some(prev) => {
                let next = prev.wrapping_add(1);
                if serial != next {
                    Some(MesyWarning::Skipped { count: serial.wrapping_sub(next), prev, serial })
                } else {
                    None
                }
            },
            None => None,
        }
    }

    /// Takes note of a data buffer; gives the heartbeat it leads to, if any.
    fn count_buffer(&mut self, serial: u16, nevents: usize, pkt_ts: u64) -> (hb: Vec<Event>)
        requires
            old(self).wf(),
            pkt_ts < 0x1_0000_0000_0000,
        ensures
            final(self).wf(),
            *final(self) == old(self).after(serial, nevents as int),
            hb@ == (if old(self).gives_heartbeat(nevents as int) {
                seq![Event { time: EventTime((pkt_ts * TIME_BASE) as i64), ..spec_new_event(EventType::Heartbeat) }]
            } else {
                seq![]
            }),
    {
        self.buf_serial = Some(serial);
        let mut events: Vec<Event> = Vec::new();
        if nevents == 0 {
            self.no_event_buffers = self.no_event_buffers + 1;
            if self.no_event_buffers == HEARTBEAT_BUFFERS {
                events.push(
                    Event::new(EventType::Heartbeat).with_abs_time(
                        EventTime::from_ticks(TIME_BASE, pkt_ts as i64),
                    ),
                );
                self.no_event_buffers = 0;
            }
        } else {
            self.no_event_buffers = 0;
        }
        events
    }
}

fn append_events(events: &mut Vec<Event>, more: Vec<Event>)
    ensures
        final(events)@ == old(events)@ + more@,
{
    let mut more = more;
    events.append(&mut more);
}

fn buffer_events_exec(buf: &[u8], n: usize, big_endian: bool, pkt_ts: u64, mcpd_id: u64) -> (events: Vec<Event>)
    requires
        decodable(buf@, n as int, big_endian),
        HEADER_LEN <= n,
        pkt_ts == word48(buf@, 12, big_endian),
        pkt_ts < 0x1_0000_0000_0000,
        mcpd_id == (buffer_word(buf@, 10, big_endian) >> 8u16) as u64,
        mcpd_id < 256,
    ensures
        events@ == buffer_events(buf@, n as int, big_endian),
{
    let nevents: usize = (n - HEADER_LEN) / EVENT_SIZE;
    let ghost evs = buffer_events(buf@, n as int, big_endian);
    let mut events: Vec<Event> = Vec::new();
    let mut i: usize = 0;
    while i < nevents
        invariant
            decodable(buf@, n as int, big_endian),
            HEADER_LEN <= n,
            nevents == event_count(n as int),
            evs == buffer_events(buf@, n as int, big_endian),
            pkt_ts == word48(buf@, 12, big_endian),
            pkt_ts < 0x1_0000_0000_0000,
            mcpd_id == (buffer_word(buf@, 10, big_endian) >> 8u16) as u64,
            mcpd_id < 256,
            i <= nevents,
            events@ == evs.subrange(0, i as int),
        decreases nevents - i,
    {
        proof {
            assert(HEADER_LEN + (i + 1) * EVENT_SIZE <= n) by (nonlinear_arith)
                requires
                    i + 1 <= nevents,
                    nevents == (n - HEADER_LEN) / 6,
                    n >= HEADER_LEN,
            ;
        }
        let data = read_48bit(buf, HEADER_LEN + i * EVENT_SIZE, big_endian);
        let ev = event_of(data, pkt_ts, mcpd_id);
        events.push(ev);
        proof {
            assert(evs.subrange(0, i + 1) =~= evs.subrange(0, i as int).push(ev));
        }
        i = i + 1;
    }
    proof {
        assert(evs.subrange(0, nevents as int) =~= evs);
    }
    events
}

fn event_of(data: u64, pkt_ts: u64, mcpd_id: u64) -> (ev: Event)
    requires
        data < 0x1_0000_0000_0000,
        pkt_ts < 0x1_0000_0000_0000,
        mcpd_id < 256,
    ensures
        ev == mesy_event(data, pkt_ts, mcpd_id),
{
    let low = data & 0x7ffff;
    assert(low <= 0x7ffff) by (bit_vector)
        requires
            low == data & 0x7ffff,
    ;
    let ts = pkt_ts + low;
    let time = EventTime::from_ticks(TIME_BASE, ts as i64);
    if data >> 47 == 1 {
        let data_id = (data >> 40) & 0xf;
        Event::new(EventType::Edge { up: true }).with_channel(data_id as u32).with_abs_time(time)
    } else {
        let mod_id = (data >> 44) & 0x7;
        let slot_id = (data >> 39) & 0x1f;
        let ampl = (data >> 29) & 0x3ff;
        let ypos = (data >> 19) & 0x3ff;
        let xpos = mcpd_id << 7 | mod_id << 4 | slot_id;
        Event::new(EventType::Neutron).with_channel(xpos as u32).with_abs_time(time).with_ampl(
            ampl as u32,
        ).with_raw(ypos as u32, 0)
    }
}


proof fn lemma_neutron_word_fields(m: u64, s: u64, a: u64, y: u64, t: u64)
    by (bit_vector)
    requires
        m < 8,
        s < 32,
        a < 1024,
        y < 1024,
        t < 0x80000,
    ensures
        ((m << 44u64) | (s << 39u64) | (a << 29u64) | (y << 19u64) | t) < 0x1_0000_0000_0000,
        ((m << 44u64) | (s << 39u64) | (a << 29u64) | (y << 19u64) | t) >> 47u64 == 0,
        (((m << 44u64) | (s << 39u64) | (a << 29u64) | (y << 19u64) | t) >> 44u64) & 0x7u64 == m,
        (((m << 44u64) | (s << 39u64) | (a << 29u64) | (y << 19u64) | t) >> 39u64) & 0x1fu64 == s,
        (((m << 44u64) | (s << 39u64) | (a << 29u64) | (y << 19u64) | t) >> 29u64) & 0x3ffu64 == a,
        (((m << 44u64) | (s << 39u64) | (a << 29u64) | (y << 19u64) | t) >> 19u64) & 0x3ffu64 == y,
        ((m << 44u64) | (s << 39u64) | (a << 29u64) | (y << 19u64) | t) & 0x7ffffu64 == t,
{
}

proof fn lemma_trigger_word_fields(d: u64, t: u64)
    by (bit_vector)
    requires
        d < 16,
        t < 0x80000,
    ensures
        (0x8000_0000_0000u64 | (d << 40u64) | t) >> 47u64 == 1,
        ((0x8000_0000_0000u64 | (d << 40u64) | t) >> 40u64) & 0xfu64 == d,
        (0x8000_0000_0000u64 | (d << 40u64) | t) & 0x7ffffu64 == t,
{
}

/// An MCPD neutron word, laid out as module id (bits 44..46), slot id
/// (39..43), amplitude (29..38), position (19..28) and time offset
/// (0..18) with the top bit clear, decodes to a neutron whose amplitude
/// is the 10-bit amplitude field, whose raw position is the 10-bit
/// position field, whose channel is `mcpd_id << 7 | mod_id << 4 | slot`,
/// and whose time is the buffer time plus the offset, in 100 ns ticks.
pub proof fn law_neutron_word(mod_id: u64, slot: u64, ampl: u64, ypos: u64, toff: u64, pkt_ts: u64, mcpd_id: u64)
    requires
        mod_id < 8,
        slot < 32,
        ampl < 1024,
        ypos < 1024,
        toff < 0x80000,
    ensures
        ({
            let ev = mesy_event(
                (mod_id << 44u64) | (slot << 39u64) | (ampl << 29u64) | (ypos << 19u64) | toff,
                pkt_ts,
                mcpd_id,
            );
            &&& ev.evtype == EventType::Neutron
            &&& ev.raw == (ypos as u32, 0u32)
            &&& ev.ampl.0 == ampl
            &&& ev.channel.0 == ((mcpd_id << 7u64) | (mod_id << 4u64) | slot) as u32
            &&& ev.time == EventTime(((pkt_ts + toff) * 100) as i64)
        }),
{
    lemma_neutron_word_fields(mod_id, slot, ampl, ypos, toff);
}

/// An MCPD trigger word (top bit set) with trigger id `d` in bits 40..43
/// and time offset `toff` decodes to a rising edge on channel `d` at the
/// buffer time plus the offset.
pub proof fn law_trigger_word(d: u64, toff: u64, pkt_ts: u64, mcpd_id: u64)
    requires
        d < 16,
        toff < 0x80000,
    ensures
        ({
            let ev = mesy_event(0x8000_0000_0000u64 | (d << 40u64) | toff, pkt_ts, mcpd_id);
            &&& ev.evtype == EventType::Edge { up: true }
            &&& ev.channel.0 == d
            &&& ev.time == EventTime(((pkt_ts + toff) * 100) as i64)
        }),
{
    lemma_trigger_word_fields(d, toff);
}

} // verus!
