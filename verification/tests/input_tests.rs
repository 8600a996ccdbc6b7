use umami::config::HistoConfig;
use umami::event::EventHisto;
use umami::input::mesy::{classify_head, dump_packet_size_ok, is_beg_marker, is_pkt_marker, DumpHead};
use umami::input::mesy::header::HeaderScan;
use umami::postproc::count_neutrons;
use umami::postproc::{PostState, UnknownMode};
use umami::shm::ShmBox;
use umami::event::{Event, EventFlags, EventType};
use umami::input::canon::CanonDecoder;
use umami::input::ge::{GeDecoder, GeError};
use umami::input::mesy::{MesyDecoder, MesyWarning};
use umami::input::test::{template_events, TestInputConfig, TestSource};
use umami::input::{ControlCommand, InputMachine, InputState, Next, Notice, Phase, ReadFailure, Reply};

// ---- GE packets ----

fn ge_header(len: u32, pktype: u32, sec: u32, nsec: u32) -> Vec<u8> {
    let mut v = Vec::new();
    v.extend_from_slice(&len.to_le_bytes());
    v.extend_from_slice(&pktype.to_le_bytes());
    v.extend_from_slice(&sec.to_le_bytes());
    v.extend_from_slice(&nsec.to_le_bytes());
    v
}

/// A normal packet with header time `hsec` s and events (sec, nsec, detid).
fn ge_normal(pktype: u32, hsec: u32, events: &[(u32, u32, u32)]) -> Vec<u8> {
    let len = 24 + 12 * events.len() as u32;
    let mut v = ge_header(len, pktype, hsec, 0);
    v.extend_from_slice(&[0u8; 24]);
    for &(s, ns, d) in events {
        v.extend_from_slice(&s.to_le_bytes());
        v.extend_from_slice(&ns.to_le_bytes());
        v.extend_from_slice(&d.to_le_bytes());
    }
    v
}

#[test]
fn ge_heartbeat_gives_heartbeat_event() {
    let mut d = GeDecoder::new(false);
    let buf = ge_header(0, 0x5000, 7, 5);
    let evs = d.decode_packet(&buf).unwrap();
    assert_eq!(evs.len(), 1);
    assert_eq!(evs[0].evtype, EventType::Heartbeat);
    assert_eq!(evs[0].time.0, 7_000_000_005);
}

#[test]
fn ge_empty_packet_of_other_type_is_refused() {
    let mut d = GeDecoder::new(false);
    let buf = ge_header(0, 0x1000, 1, 0);
    assert_eq!(d.decode_packet(&buf).unwrap_err(), GeError::EmptyPacket(0x1000));
}

#[test]
fn ge_unknown_packet_type_is_refused() {
    let mut d = GeDecoder::new(false);
    let buf = ge_normal(0x4242, 1, &[(0, 1, 2)]);
    assert_eq!(d.decode_packet(&buf).unwrap_err(), GeError::UnsupportedPacket(0x4242));
    assert!(d.queue.is_empty());
}

#[test]
fn ge_events_after_header_time_are_held_back() {
    let mut d = GeDecoder::new(false);
    // header time 10 s; events at 9.5 s, 11 s, 9.1 s
    let buf = ge_normal(0x1000, 10, &[(9, 500_000_000, 3), (11, 0, 4), (9, 100_000_000, 5)]);
    let evs = d.decode_packet(&buf).unwrap();
    assert_eq!(evs.len(), 2);
    // sorted by time
    assert_eq!(evs[0].time.0, 9_100_000_000);
    assert_eq!(evs[0].channel.0, 5);
    assert_eq!(evs[1].time.0, 9_500_000_000);
    assert_eq!(evs[1].evtype, EventType::Neutron);
    assert_eq!(evs[1].flags, EventFlags::NoFlags);
    assert_eq!(d.queue.len(), 1);
    assert_eq!(d.queue[0].time.0, 11_000_000_000);

    // the next packet's header time releases the held-back event
    let buf = ge_normal(0x1100, 12, &[(10, 0, 6)]);
    let evs = d.decode_packet(&buf).unwrap();
    assert_eq!(evs.len(), 2);
    assert_eq!(evs[0].time.0, 10_000_000_000);
    assert_eq!(evs[0].flags, EventFlags::Fake);
    assert_eq!(evs[1].time.0, 11_000_000_000);
    assert!(d.queue.is_empty());
}

#[test]
fn ge_diag_packet_sums_integrated_heights() {
    let mut d = GeDecoder::new(false);
    let mut buf = ge_header(24 + 24, 0x3000, 5, 0);
    buf.extend_from_slice(&[0u8; 24]);
    for w in [1u32, 0, 9, 77, 0xFFFF_FFFF, 3] {
        buf.extend_from_slice(&w.to_le_bytes());
    }
    let evs = d.decode_packet(&buf).unwrap();
    assert_eq!(evs.len(), 1);
    assert_eq!(evs[0].channel.0, 9);
    // 0xFFFF_FFFF + 3 wraps around
    assert_eq!(evs[0].ampl.0, 2);
}

#[test]
fn ge_timestamper_gives_edges() {
    let mut d = GeDecoder::new(true);
    let buf = ge_normal(0x1000, 10, &[(1, 0, 0x8000_0002), (2, 0, 0x0000_0003)]);
    let evs = d.decode_packet(&buf).unwrap();
    assert_eq!(evs[0].evtype, EventType::Edge { up: true });
    assert_eq!(evs[1].evtype, EventType::Edge { up: false });
    assert_eq!(evs[0].ampl.0, 0);
}

#[test]
fn ge_flush_hands_out_the_rest_sorted() {
    let mut d = GeDecoder::new(false);
    let buf = ge_normal(0x1000, 1, &[(5, 0, 1), (3, 0, 2)]);
    assert!(d.decode_packet(&buf).unwrap().is_empty());
    let rest = d.flush().unwrap();
    assert_eq!(rest.len(), 2);
    assert_eq!(rest[0].channel.0, 2);
    assert_eq!(rest[1].channel.0, 1);
    assert!(d.flush().is_none());
}

// ---- Mesytec buffers ----

fn words_to_bytes(words: &[u16], be: bool) -> Vec<u8> {
    let mut v = Vec::new();
    for w in words {
        if be {
            v.extend_from_slice(&w.to_be_bytes());
        } else {
            v.extend_from_slice(&w.to_le_bytes());
        }
    }
    v
}

fn split48(x: u64) -> [u16; 3] {
    [(x & 0xffff) as u16, ((x >> 16) & 0xffff) as u16, ((x >> 32) & 0xffff) as u16]
}

/// A data buffer with the given serial, MCPD id, status, header timestamp
/// and event words.
fn mesy_buffer(serial: u16, mcpd_id: u8, status: u8, ts: u64, events: &[u64], be: bool) -> Vec<u8> {
    let n_words = 21 + 3 * events.len();
    let mut words = vec![0u16; 21];
    words[0] = n_words as u16;
    words[1] = 0;
    words[2] = 21;
    words[3] = serial;
    words[5] = ((mcpd_id as u16) << 8) | status as u16;
    let t = split48(ts);
    words[6] = t[0];
    words[7] = t[1];
    words[8] = t[2];
    for &e in events {
        words.extend_from_slice(&split48(e));
    }
    words_to_bytes(&words, be)
}

fn neutron_word(mod_id: u64, slot: u64, ampl: u64, ypos: u64, toff: u64) -> u64 {
    (mod_id << 44) | (slot << 39) | (ampl << 29) | (ypos << 19) | toff
}

#[test]
fn mesy_decodes_neutron_and_trigger_events() {
    for be in [false, true] {
        let mut d = MesyDecoder::new();
        let trig = (1u64 << 47) | (5 << 40) | 10;
        let buf = mesy_buffer(1, 2, 1, 1000, &[neutron_word(3, 4, 100, 200, 50), trig], be);
        let p = d.decode(&buf, buf.len(), be);
        assert!(p.warning.is_none());
        assert_eq!(p.events.len(), 2);
        // sorted: the trigger (1010) comes before the neutron (1050)
        let t = &p.events[0];
        assert_eq!(t.evtype, EventType::Edge { up: true });
        assert_eq!(t.channel.0, 5);
        assert_eq!(t.time.0, 101_000);
        let n = &p.events[1];
        assert_eq!(n.evtype, EventType::Neutron);
        assert_eq!(n.channel.0, (2 << 7) | (3 << 4) | 4);
        assert_eq!(n.time.0, 105_000);
        assert_eq!(n.ampl.0, 100);
        assert_eq!(n.raw, (200, 0));
        assert_eq!(d.buf_serial, Some(1));
    }
}

#[test]
fn mesy_size_mismatch_is_reported() {
    let mut d = MesyDecoder::new();
    let mut buf = mesy_buffer(1, 0, 1, 0, &[], false);
    buf.extend_from_slice(&[0, 0]);
    let p = d.decode(&buf, buf.len(), false);
    assert_eq!(p.warning, Some(MesyWarning::SizeMismatch { got: 44, expected: 42 }));
    assert!(p.events.is_empty());
    assert_eq!(d.buf_serial, None);
}

#[test]
fn mesy_command_buffer_and_stopped_daq_are_reported() {
    let mut d = MesyDecoder::new();
    let mut buf = mesy_buffer(1, 0, 1, 0, &[], false);
    buf[2] = 0x00;
    buf[3] = 0x80;
    assert_eq!(d.decode(&buf, buf.len(), false).warning, Some(MesyWarning::CommandBuffer));
    let buf = mesy_buffer(1, 0, 0, 0, &[neutron_word(0, 0, 0, 0, 0)], false);
    let p = d.decode(&buf, buf.len(), false);
    assert_eq!(p.warning, Some(MesyWarning::DaqStopped));
    assert!(p.events.is_empty());
    assert_eq!(d.buf_serial, None);
}

#[test]
fn mesy_skipped_buffers_are_reported() {
    let mut d = MesyDecoder::new();
    let buf = mesy_buffer(0xFFFF, 0, 1, 0, &[neutron_word(0, 0, 0, 0, 0)], false);
    assert!(d.decode(&buf, buf.len(), false).warning.is_none());
    // serial wraps to 0: no loss
    let buf = mesy_buffer(0, 0, 1, 0, &[neutron_word(0, 0, 0, 0, 0)], false);
    assert!(d.decode(&buf, buf.len(), false).warning.is_none());
    let buf = mesy_buffer(4, 0, 1, 0, &[neutron_word(0, 0, 0, 0, 0)], false);
    assert_eq!(
        d.decode(&buf, buf.len(), false).warning,
        Some(MesyWarning::Skipped { count: 3, prev: 0, serial: 4 })
    );
}

#[test]
fn mesy_heartbeat_after_ten_empty_buffers() {
    let mut d = MesyDecoder::new();
    for i in 0..9u16 {
        let buf = mesy_buffer(i, 0, 1, 77, &[], false);
        assert!(d.decode(&buf, buf.len(), false).events.is_empty());
    }
    let buf = mesy_buffer(9, 0, 1, 77, &[], false);
    let p = d.decode(&buf, buf.len(), false);
    assert_eq!(p.events.len(), 1);
    assert_eq!(p.events[0].evtype, EventType::Heartbeat);
    assert_eq!(p.events[0].time.0, 7700);
    assert_eq!(d.no_event_buffers, 0);
    // an event buffer resets the count
    let buf = mesy_buffer(10, 0, 1, 0, &[], false);
    d.decode(&buf, buf.len(), false);
    let buf = mesy_buffer(11, 0, 1, 0, &[neutron_word(0, 0, 0, 0, 0)], false);
    d.decode(&buf, buf.len(), false);
    assert_eq!(d.no_event_buffers, 0);
}

// ---- Canon words ----

#[test]
fn canon_time_word_then_neutron() {
    let s: u64 = 1;
    let us: u64 = 4;
    let time_word = (0x5c_u64 << 56) | (s << 26) | us;
    let neutron = (0x5a_u64 << 56) | (10 << 32) | (3 << 24) | (0x100 << 12) | 0x200;
    let mut buf = Vec::new();
    buf.extend_from_slice(&time_word.to_be_bytes());
    buf.extend_from_slice(&neutron.to_be_bytes());
    let mut d = CanonDecoder::new(16);
    let evs = d.decode(&buf, 2);
    assert_eq!(evs.len(), 2);
    let t0 = 1_199_145_600_000_000_000i64 + 1_000_000_000 + 100;
    assert_eq!(evs[0].evtype, EventType::Tzero);
    assert_eq!(evs[0].time.0, t0);
    assert_eq!(evs[0].channel.0, 16);
    assert_eq!(evs[1].evtype, EventType::Neutron);
    assert_eq!(evs[1].channel.0, 19);
    assert_eq!(evs[1].time.0, t0);
    assert_eq!(evs[1].rel_time.0, t0 + 250);
    assert_eq!(evs[1].ampl.0, 0x300);
    assert_eq!(evs[1].raw, (0x100, 0x200));
    assert_eq!(d.time_ofs.0, t0);
}

#[test]
fn canon_32bit_time_word_counts_100ns_units() {
    let word: u64 = 0x6C00_0000_0000_0001;
    let mut d = CanonDecoder::new(7);
    let evs = d.decode(&word.to_be_bytes(), 1);
    assert_eq!(evs.len(), 1);
    let t = 1_199_145_600_000_000_000i64 + 100;
    assert_eq!(evs[0].evtype, EventType::Tzero);
    assert_eq!(evs[0].channel.0, 7);
    assert_eq!(evs[0].time.0, t);
    assert_eq!(evs[0].rel_time.0, t);
    assert!(evs[0].flags.contains(EventFlags::HasRelTime));
}

#[test]
fn postprocessor_reports_default_mode_name() {
    let names = vec!["std".to_string(), "tof".to_string()];
    let s = PostState::new(names, "std").unwrap();
    assert_eq!(s.current, 0);
    assert_eq!(s.mode_name, "std");
}

// ---- input state machine ----

#[test]
fn input_machine_start_stop_cycle() {
    let (mut m, notices) = InputMachine::new();
    assert_eq!(notices, vec![Notice::State(InputState::Idle)]);
    let step = m.command(ControlCommand::Start);
    assert_eq!(step.next, Next::Perform(Phase::Start));
    let step = m.finished(Phase::Start, Ok(()));
    assert_eq!(step.next, Next::Reply(Reply::Done));
    assert_eq!(step.notices, vec![Notice::State(InputState::Running)]);
    assert!(m.passes_events());
    // starting again stops first
    let step = m.command(ControlCommand::Start);
    assert_eq!(step.next, Next::Perform(Phase::StopForRestart));
    let step = m.finished(Phase::StopForRestart, Ok(()));
    assert_eq!(step.next, Next::Perform(Phase::Start));
    assert_eq!(step.notices, vec![Notice::EndOfRun, Notice::State(InputState::Idle)]);
    m.finished(Phase::Start, Ok(()));
    let step = m.command(ControlCommand::Stop);
    assert_eq!(step.next, Next::Perform(Phase::Stop));
    let step = m.finished(Phase::Stop, Ok(()));
    assert_eq!(step.notices, vec![Notice::EndOfRun, Notice::State(InputState::Idle)]);
    assert_eq!(m.state, InputState::Idle);
    // stopping an idle input just answers
    assert_eq!(m.command(ControlCommand::Stop).next, Next::Reply(Reply::Done));
}

#[test]
fn input_machine_error_state_needs_reset() {
    let (mut m, _) = InputMachine::new();
    m.command(ControlCommand::Start);
    let step = m.finished(Phase::Start, Err("no device".to_string()));
    assert_eq!(step.next, Next::Reply(Reply::Error("Failed to start input: no device".to_string())));
    assert_eq!(m.state, InputState::Error("Failed to start input: no device".to_string()));
    assert!(!m.reads_events());
    let step = m.command(ControlCommand::Start);
    assert_eq!(
        step.next,
        Next::Reply(Reply::Error(
            "Cannot start input in error state. Last error: Failed to start input: no device".to_string()
        ))
    );
    let step = m.command(ControlCommand::Stop);
    assert!(matches!(step.next, Next::Reply(Reply::Error(_))));
    assert_eq!(m.command(ControlCommand::Reset).next, Next::Perform(Phase::Reset));
    let step = m.finished(Phase::Reset, Ok(()));
    assert_eq!(step.next, Next::Reply(Reply::Done));
    assert_eq!(m.state, InputState::Idle);
    // resetting a healthy input does nothing
    assert_eq!(m.command(ControlCommand::Reset).next, Next::Reply(Reply::Done));
}

#[test]
fn input_machine_end_of_data_and_read_errors() {
    let (mut m, _) = InputMachine::new();
    m.command(ControlCommand::Start);
    m.finished(Phase::Start, Ok(()));
    let notices = m.read_failed(ReadFailure::NoMoreData);
    assert_eq!(notices, vec![Notice::EndOfRun, Notice::State(InputState::Ended)]);
    let step = m.command(ControlCommand::Stop);
    assert_eq!(step.next, Next::Reply(Reply::Done));
    assert_eq!(m.state, InputState::Idle);
    let notices = m.read_failed(ReadFailure::Failed("broken pipe".to_string()));
    assert_eq!(notices, vec![Notice::State(InputState::Error("Error reading events: broken pipe".to_string()))]);
}

#[test]
fn input_machine_other_commands_go_to_the_input() {
    let (mut m, _) = InputMachine::new();
    assert_eq!(m.command(ControlCommand::Other).next, Next::Perform(Phase::Handle));
    assert_eq!(m.finished(Phase::Handle, Ok(())).next, Next::Reply(Reply::Forward));
    assert_eq!(
        m.finished(Phase::Handle, Err("bad".to_string())).next,
        Next::Reply(Reply::Error("Failed to handle command: bad".to_string()))
    );
    assert_eq!(m.state, InputState::Idle);
}

// ---- synthetic test input ----

#[test]
fn test_input_covers_every_cell_once_per_run() {
    let evs = template_events(TestInputConfig { nx: 3, ny: 2 });
    assert_eq!(evs.len(), 6);
    let cells: Vec<(u16, u16)> = evs.iter().map(|e| (e.histo.x, e.histo.y)).collect();
    assert_eq!(cells, vec![(0, 0), (1, 0), (2, 0), (0, 1), (1, 1), (2, 1)]);
    assert!(evs.iter().all(|e: &Event| e.evtype == EventType::Neutron));

    let mut src = TestSource::new(TestInputConfig { nx: 2, ny: 2 });
    assert!(src.read_events().is_none());
    src.restart();
    assert_eq!(src.read_events().unwrap().len(), 4);
    assert!(src.read_events().is_none());
}

#[test]
fn mesy_dump_file_markers() {
    assert_eq!(classify_head(b"mesytec psd"), DumpHead::FileStart);
    assert_eq!(classify_head(&[0xff, 0xff, 0xaa, 0xaa, 0x55, 0x55, 0x00, 0x00]), DumpHead::EndMarker);
    assert_eq!(classify_head(&[0x00, 0x15, 0, 0, 0, 0, 0, 0]), DumpHead::Packet(42));
    assert!(is_beg_marker(&[0x00, 0x00, 0x55, 0x55, 0xaa, 0xaa, 0xff, 0xff]));
    assert!(is_pkt_marker(&[0x00, 0x00, 0xff, 0xff, 0x55, 0x55, 0xaa, 0xaa]));
    assert!(!is_pkt_marker(&[0u8; 8]));
    assert!(dump_packet_size_ok(42, 2048));
    assert!(!dump_packet_size_ok(40, 2048));
    assert!(!dump_packet_size_ok(4096, 2048));
}

/// Feeds `text` to a fresh header scan; the number of bytes taken when the
/// header ended, if it did.
fn header_end(text: &[u8]) -> Option<usize> {
    let mut scan = HeaderScan::new();
    for (i, b) in text.iter().enumerate() {
        if scan.feed(*b) {
            return Some(i + 1);
        }
    }
    None
}

#[test]
fn mesy_dump_header_of_two_lines() {
    let text = b"mesytec psd listmode data\nheader length: 2 lines\n\x00\x00UU";
    assert_eq!(header_end(text), Some(text.len() - 4));
    let plain = b"mesytec psd listmode data\nsomething else\nmore";
    assert_eq!(header_end(plain), Some(plain.len() - 4));
}

#[test]
fn mesy_dump_header_declares_its_length() {
    let mut file = b"mesytec psd listmode data\nheader length: 3 lines \nextra\n".to_vec();
    let header_len = file.len();
    file.extend_from_slice(&[0x00, 0x00, 0x55, 0x55, 0xaa, 0xaa, 0xff, 0xff]);
    assert_eq!(header_end(&file), Some(header_len));
    assert!(is_beg_marker(&file[header_len..header_len + 8]));
    let padded = b"x\nheader length:  +4 lines\na\nb\n";
    assert_eq!(header_end(padded), Some(padded.len()));
    let bad = b"x\nheader length: many lines\n";
    assert_eq!(header_end(bad), Some(bad.len()));
}

#[test]
fn mesy_dump_header_scan_state() {
    let mut scan = HeaderScan::new();
    assert_eq!((scan.linebreaks, scan.lines), (0, 2));
    for b in b"abc" {
        assert!(!scan.feed(*b));
    }
    assert_eq!(scan.line, b"abc".to_vec());
    assert!(!scan.feed(b'\n'));
    assert_eq!((scan.linebreaks, scan.lines, scan.line.len()), (1, 2, 0));
    for b in b"header length: 5 lines" {
        scan.feed(*b);
    }
    assert!(!scan.feed(b'\n'));
    assert_eq!((scan.linebreaks, scan.lines), (2, 5));
}

#[test]
fn postprocessor_modes_and_states() {
    let names = vec!["std".to_string(), "tof".to_string()];
    assert!(PostState::new(names.clone(), "other").is_none());
    let mut s = PostState::new(names, "tof").unwrap();
    assert_eq!(s.current, 1);
    assert_eq!(s.mode_name, "tof");
    assert_eq!(s.set_mode("bogus"), Err(UnknownMode("bogus".to_string())));
    assert_eq!(s.current, 1);
    assert_eq!(s.set_mode("std"), Ok(()));
    assert_eq!(s.current, 0);
    assert_eq!(s.mode_name, "std");
    s.set_input_state("in1".to_string(), InputState::Idle);
    s.set_input_state("in2".to_string(), InputState::Idle);
    s.set_input_state("in1".to_string(), InputState::Running);
    assert_eq!(s.input_states, vec![("in1".to_string(), InputState::Running), ("in2".to_string(), InputState::Idle)]);
}

#[test]
fn postprocessor_counts_neutrons_in_range() {
    let mut shm = ShmBox::create(&HistoConfig { nx: 4, ny: 4, max_nt: 1, max_ni: 0 }).unwrap();
    let mut a = Event::new(EventType::Neutron);
    a.histo = EventHisto { x: 1, y: 2, t: 0, i: 0 };
    let mut out_of_range = Event::new(EventType::Neutron);
    out_of_range.histo = EventHisto { x: 9, y: 0, t: 0, i: 0 };
    let mut edge = Event::new(EventType::Edge { up: true });
    edge.histo = EventHisto { x: 1, y: 2, t: 0, i: 0 };
    count_neutrons(&mut shm, &vec![a, out_of_range, edge, a]);
    assert_eq!(shm.bins[2 * 4 + 1], 2);
    assert_eq!(shm.bins.iter().sum::<u32>(), 2);
    assert_eq!(shm.header.total_neutrons, 2);
}


#[test]
fn test_update_params_rejects_out_of_range_compare_bit() {
    assert!(umami::input::mesy::CompareBit::new(23).is_err());
    assert_eq!(umami::input::mesy::CompareBit::new(22).unwrap().get(), 22);
}

#[test]
fn canon_event_requests_count_in_16_bit_units() {
    assert_eq!(umami::input::canon::request_word(), 0xA300_0000_0000_0FA0);
    assert_eq!(umami::input::canon::announced_events(4000), 1000);
    assert_eq!(umami::input::canon::announced_events(7), 1);
}
