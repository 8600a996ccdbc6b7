use umami::event::{Event, EventFlags, EventHisto, EventTime, EventType};
use umami::format::{Format, Full, XYTof};
use umami::histo::Histogram;
use umami::config::HistoConfig;
use umami::output::aux_histo::{bin_index, shm_name, AuxHistoError, AuxHistos, AxisSpec, HistoSpec};
use umami::shm::{ShmBox, ShmError, ShmReader};
use umami::output::diag::{DiagNote, DiagState, EventMask, NEUTRON};
use umami::output::ext_process::{
    decode_header, encode_header, validate_histos, ExtHistoError, ExtHistoShape, ExtStream, Frame, FrameTag, EVENT_BATCH_SIZE,
};
use umami::pipeline::PipelineHandle;
use umami::expr::alias::{AliasTable, ExprAlias};

fn neutron_at(t: i64) -> Event {
    Event::new(EventType::Neutron).with_abs_time(EventTime(t))
}

#[test]
fn full_format_carries_all_fields() {
    let mut ev = Event::new(EventType::Monitor { num: 3 })
        .with_channel(7)
        .with_abs_time(EventTime(1000))
        .with_rel_time(EventTime(250))
        .with_ampl(42)
        .with_raw(1, 2);
    ev.histo = EventHisto { x: 1, y: 2, t: 3, i: 4 };
    let f = Full::from_event(ev);
    assert_eq!(f.evtype, 0x02);
    assert_eq!(f.index, 3);
    assert_eq!(f.flags, EventFlags::HasRelTime.bits());
    assert_eq!(f.channel, 7);
    assert_eq!(f.raw, [1, 2]);
    assert_eq!(f.ampl, 42);
    assert_eq!(f.histo, [1, 2, 3, 4]);
    assert_eq!(f.time, 1000);
    assert_eq!(f.rel_time, 250);
    assert_eq!(Full::name(), "full");
}

#[test]
fn xy_tof_format_in_100ns_units() {
    let mut ev = Event::new(EventType::Neutron).with_rel_time(EventTime(12_345));
    ev.histo = EventHisto { x: 5, y: 6, t: 0, i: 0 };
    let f = XYTof::from_event(ev);
    assert_eq!(f, XYTof { x: 5, y: 6, tof: 123 });
    assert_eq!(XYTof::name(), "xy_tof");
}

#[test]
fn histogram_counts_cells() {
    let mut h = Histogram::new(3, 2);
    h.add(1, 1);
    h.add(1, 1);
    h.add(2, 0);
    assert_eq!(h.get(1, 1), 2);
    assert_eq!(h.get(2, 0), 1);
    assert_eq!(h.get(0, 0), 0);
}

#[test]
fn frame_header_round_trip() {
    let h = encode_header(FrameTag::EndOfRun, 0x1234, 0xdead_beef);
    assert_eq!(h, [2, 0x34, 0x12, 0xef, 0xbe, 0xad, 0xde]);
    assert_eq!(decode_header(h), (FrameTag::EndOfRun, 0x1234, 0xdead_beef));
    assert_eq!(FrameTag::from_byte(9), FrameTag::Unknown);
    assert_eq!(FrameTag::from_byte(FrameTag::Clear.to_byte()), FrameTag::Clear);
}

fn edge_at(t: i64, ch: u32, up: bool) -> Event {
    Event::new(EventType::Edge { up }).with_channel(ch).with_abs_time(EventTime(t))
}

fn heartbeat_at(t: i64) -> Event {
    Event::new(EventType::Heartbeat).with_abs_time(EventTime(t))
}

fn default_diag() -> DiagState {
    DiagState::new(EventMask(0), false, i64::MAX as usize)
}

#[test]
fn diag_counts_out_of_order_events() {
    let mut d = DiagState::new(EventMask(0), true, 100);
    d.start_of_run();
    let notes = d.handle_events(&vec![neutron_at(10), neutron_at(5), neutron_at(20), neutron_at(20)]);
    assert_eq!(d.ev_count, 4);
    assert_eq!(d.out_of_order, 1);
    assert_eq!(d.last_ts, 20);
    assert_eq!(notes, vec![DiagNote::OutOfOrder { last_ts: 10, ev_ts: 5 }]);
    let m = EventMask(EventMask::mask_bit(EventType::Neutron));
    assert!(m.selects(EventType::Neutron));
    assert!(!m.selects(EventType::Heartbeat));
    assert!(EventMask(0).is_empty());
}

#[test]
fn diag_notes_report_and_shown_events() {
    let mut d = DiagState::new(EventMask(NEUTRON), false, 2);
    d.start_of_run();
    let notes = d.handle_events(&vec![neutron_at(1), heartbeat_at(2), neutron_at(3)]);
    assert_eq!(notes, vec![DiagNote::Received(2), DiagNote::Show(0), DiagNote::Show(2)]);
    assert_eq!(d.debug_at, 4);
}

#[test]
fn test_diag_counting() {
    let mut output = default_diag();
    output.start_of_run();
    let events = vec![neutron_at(100), neutron_at(200), neutron_at(300)];
    output.handle_events(&events);
    assert_eq!(output.ev_count, 3);
}

#[test]
fn test_diag_out_of_order_detection() {
    let mut output = DiagState::new(EventMask(0), true, i64::MAX as usize);
    output.start_of_run();
    let events = vec![neutron_at(300), neutron_at(100)];
    output.handle_events(&events);
    assert_eq!(output.out_of_order, 1);
}

#[test]
fn test_diag_mask_filtering() {
    let mut output = DiagState::new(EventMask(NEUTRON), false, i64::MAX as usize);
    output.start_of_run();
    let events = vec![neutron_at(100), edge_at(200, 0, true), heartbeat_at(300)];
    let notes = output.handle_events(&events);
    assert_eq!(output.ev_count, 3);
    assert_eq!(notes, vec![DiagNote::Show(0)]);
}

#[test]
fn test_diag_print_every() {
    let mut output = DiagState::new(EventMask(0), false, 5);
    output.start_of_run();
    let events: Vec<Event> = (0..10).map(|i| neutron_at(i * 100)).collect();
    output.handle_events(&events);
    assert_eq!(output.ev_count, 10);
    assert_eq!(output.debug_at, 10);
}

#[test]
fn test_diag_reset_on_start() {
    let mut output = DiagState::new(EventMask(0), true, i64::MAX as usize);
    output.start_of_run();
    let events = vec![neutron_at(300), neutron_at(100)];
    output.handle_events(&events);
    assert_eq!(output.out_of_order, 1);
    output.start_of_run();
    assert_eq!(output.out_of_order, 0);
    assert_eq!(output.ev_count, 0);
}

#[test]
fn aux_histo_bins_include_max() {
    assert_eq!(bin_index(0, 0, 9, 10), Some(0));
    assert_eq!(bin_index(9, 0, 9, 10), Some(9));
    assert_eq!(bin_index(10, 0, 9, 10), None);
    assert_eq!(bin_index(-1, 0, 9, 10), None);
    assert_eq!(bin_index(5, 0, 9, 2), Some(1));
    assert_eq!(bin_index(i64::MAX, i64::MIN, i64::MAX, 4), Some(3));
    assert_eq!(bin_index(3, 0, 9, 0), None);
}

#[test]
fn pipeline_handle_names() {
    let h = PipelineHandle::new("umami_test".to_string());
    assert_eq!(h.ipc_name(), "umami_test");
    assert_eq!(h.shm_name(), "umami_test");
}

fn axis(expr: &str, bins: u16, min: i64, max: i64) -> AxisSpec {
    AxisSpec { expr: expr.to_string(), bins, min, max }
}

fn histo(name: &str, filter: Option<&str>, x: AxisSpec, y: Option<AxisSpec>) -> HistoSpec {
    HistoSpec { name: name.to_string(), filter: filter.map(|f| f.to_string()), x, y }
}

fn aux(histos: Vec<HistoSpec>) -> AuxHistos {
    AuxHistos::new("umami_auxtest".to_string(), "aux".to_string(), true, histos, AliasTable::new()).unwrap()
}

fn amp_histo() -> HistoSpec {
    histo("amp", None, axis("ampl", 4, 0, 7), None)
}

fn total(h: &AuxHistos, k: usize) -> u32 {
    h.compiled[k].shm.bins.iter().sum::<u32>()
}

#[test]
fn test_1d_histogram_filters_and_bins() {
    let mut output = aux(vec![histo("amp", Some("evtype == neutron"), axis("ampl", 4, 0, 7), None)]);
    assert_eq!(output.compiled[0].shm_name, "umami_auxtest_aux_amp");
    let ev1 = Event::new(EventType::Neutron).with_ampl(1);
    let ev2 = Event::new(EventType::Neutron).with_ampl(5);
    let filtered_out = Event::new(EventType::Tzero);
    output.handle_events(&vec![ev1, ev2, filtered_out]).unwrap();
    let data = &output.compiled[0].shm.bins;
    assert_eq!(data[0], 1);
    assert_eq!(data[2], 1);
    assert_eq!(total(&output, 0), 2);
}

#[test]
fn test_2d_histogram_and_bit_slice_expr() {
    let mut output = aux(vec![histo(
        "xy",
        None,
        axis("raw_0[0..12:signed]", 4, -8, 7),
        Some(axis("raw_1[0..12:signed]", 4, -8, 7)),
    )]);
    let ev = Event::new(EventType::Neutron).with_raw(2, 6);
    output.handle_events(&vec![ev]).unwrap();
    let data = &output.compiled[0].shm.bins;
    assert_eq!(data[3 * 4 + 2], 1);
    assert_eq!(total(&output, 0), 1);
}

#[test]
fn test_out_of_range_value_is_dropped_not_clamped() {
    let mut output = aux(vec![amp_histo()]);
    let ev = Event::new(EventType::Neutron).with_ampl(100);
    output.handle_events(&vec![ev]).unwrap();
    assert_eq!(total(&output, 0), 0);
}

#[test]
fn test_enabled_toggle_skips_event_processing() {
    let mut output = aux(vec![amp_histo()]);
    let ev = Event::new(EventType::Neutron);
    output.set_enabled(false);
    output.handle_events(&vec![ev]).unwrap();
    assert_eq!(total(&output, 0), 0);
    output.set_enabled(true);
    output.handle_events(&vec![ev]).unwrap();
    assert_eq!(total(&output, 0), 1);
}

#[test]
fn test_invalid_expr_rejected_at_config_time() {
    let r = AuxHistos::new(
        "umami_auxtest".to_string(),
        "aux".to_string(),
        true,
        vec![histo("bad", None, axis("not_a_real_field", 4, 0, 8), None)],
        AliasTable::new(),
    );
    assert!(r.is_err());
}

#[test]
fn test_set_params_rebuilds_and_rejects_bad_update_without_disturbing_state() {
    let mut output = aux(vec![amp_histo()]);
    let bad = vec![histo("bad", None, axis("nonsense", 4, 0, 7), None)];
    assert!(output.set_histos(bad).is_err());
    assert_eq!(output.histos.len(), 1);
    assert_eq!(output.histos[0].name, "amp");
    let good = vec![histo("chan", None, axis("channel", 2, 0, 1), None)];
    let dropped = output.set_histos(good).unwrap();
    assert_eq!(output.histos.len(), 1);
    assert_eq!(output.histos[0].name, "chan");
    assert_eq!(output.compiled[0].shm_name, "umami_auxtest_aux_chan");
    assert_eq!(dropped, vec!["umami_auxtest_aux_amp".to_string()]);
}

#[test]
fn test_clear_zeroes_all_histograms() {
    let mut output = aux(vec![amp_histo()]);
    let ev = Event::new(EventType::Neutron);
    output.handle_events(&vec![ev]).unwrap();
    assert_eq!(total(&output, 0), 1);
    output.clear();
    assert_eq!(total(&output, 0), 0);
}

#[test]
fn test_start_of_run_sets_run_id() {
    let mut output = aux(vec![amp_histo()]);
    output.start_of_run("run_042");
    let run_id = &output.compiled[0].shm.header.run_id;
    assert!(run_id.starts_with(b"run_042"));
    assert_eq!(run_id[7], 0);
}

#[test]
fn test_max_is_inclusive() {
    let mut output = aux(vec![histo("chan", None, axis("channel", 56, 0, 55), None)]);
    for channel in [0u32, 55] {
        let ev = Event::new(EventType::Neutron).with_channel(channel);
        output.handle_events(&vec![ev]).unwrap();
    }
    let data = &output.compiled[0].shm.bins;
    assert_eq!(data[0], 1, "channel 0 should land in bin 0");
    assert_eq!(data[55], 1, "channel 55 (== max) should land in bin 55, not be dropped");
    assert_eq!(total(&output, 0), 2);
}

#[test]
fn aux_histo_definitions_refused_in_order() {
    let dup = vec![amp_histo(), amp_histo()];
    assert_eq!(
        AuxHistos::new("i".to_string(), "o".to_string(), true, dup, AliasTable::new()).err(),
        Some(AuxHistoError::DuplicateName)
    );
    let empty_axis = vec![histo("a", None, axis("ampl", 0, 0, 7), None)];
    assert_eq!(
        AuxHistos::new("i".to_string(), "o".to_string(), true, empty_axis, AliasTable::new()).err(),
        Some(AuxHistoError::InvalidAxis)
    );
    let huge = vec![histo("a", None, axis("ampl", 60000, 0, 7), Some(axis("ampl", 60000, 0, 7)))];
    assert_eq!(
        AuxHistos::new("i".to_string(), "o".to_string(), true, huge, AliasTable::new()).err(),
        Some(AuxHistoError::Segment(ShmError::TooLarge))
    );
}

fn shape(name: &str, x: u16, y: Option<u16>, t: Option<u16>) -> ExtHistoShape {
    ExtHistoShape { name: name.to_string(), x_bins: x, y_bins: y, t_bins: t }
}

#[test]
fn test_no_consumer_does_not_block_or_error() {
    let mut output = ExtStream::new();
    assert!(output.handle_events(&vec![Event::new(EventType::Neutron).with_channel(5)]).is_none());
    let _ = output.start_of_run("run1".to_string());
    let _ = output.end_of_run();
    let _ = output.clear();
    assert_eq!(output.seq_number, 3);
}

#[test]
fn test_forwards_events_start_end_clear() {
    let mut output = ExtStream::new();
    let (seq0, frame) = output.start_of_run("run1".to_string());
    assert_eq!(frame.tag(), FrameTag::StartOfRun);
    assert!(matches!(frame, Frame::StartOfRun(r) if r == "run1"));
    let event = neutron_at(100).with_channel(5);
    assert!(output.handle_events(&vec![event]).is_none());
    let frames = output.end_of_run();
    assert_eq!(frames.len(), 2);
    let seq1 = frames[0].0;
    let f1 = &frames[0].1;
    assert_eq!(f1.tag(), FrameTag::Events);
    assert!(matches!(f1, Frame::Events(b) if b.len() == 1 && b[0].time.0 == 100 && b[0].channel.0 == 5));
    let seq2 = frames[1].0;
    let f2 = &frames[1].1;
    assert_eq!(f2.tag(), FrameTag::EndOfRun);
    assert_eq!([seq1, seq2], [seq0.wrapping_add(1), seq0.wrapping_add(2)]);
    let (seq3, f3) = output.clear();
    assert_eq!(f3.tag(), FrameTag::Clear);
    assert_eq!(seq3, seq0.wrapping_add(3));
}

#[test]
fn ext_stream_batches_only_neutrons_past_the_batch_size() {
    let mut output = ExtStream::new();
    let mut evs: Vec<Event> = (0..EVENT_BATCH_SIZE as i64).map(neutron_at).collect();
    evs.push(heartbeat_at(1));
    assert!(output.handle_events(&evs).is_none());
    assert_eq!(output.buffer.len(), EVENT_BATCH_SIZE);
    let (seq, batch) = output.handle_events(&vec![neutron_at(9)]).unwrap();
    assert_eq!(seq, 0);
    assert_eq!(batch.len(), EVENT_BATCH_SIZE + 1);
    assert!(output.buffer.is_empty());
    assert!(output.batch_dropped());
    assert!(!output.batch_dropped());
    let _ = output.start_of_run("r".to_string());
    assert!(!output.dropped_this_run);
    output.seq_number = u16::MAX;
    assert_eq!(output.clear().0, u16::MAX);
    assert_eq!(output.seq_number, 0);
}

#[test]
fn test_histo_can_be_1d_2d_or_3d() {
    let histos = vec![shape("one_d", 10, None, None), shape("three_d", 10, Some(5), Some(3))];
    assert_eq!(validate_histos(&histos), Ok(()));
    assert!(histos[0].y_bins.is_none() && histos[0].t_bins.is_none());
    assert!(histos[1].y_bins.is_some() && histos[1].t_bins.is_some());
}

#[test]
fn test_zero_bins_axis_rejected() {
    assert_eq!(validate_histos(&vec![shape("bad", 0, None, None)]), Err(ExtHistoError::ZeroBins));
    assert_eq!(validate_histos(&vec![shape("bad", 3, None, Some(0))]), Err(ExtHistoError::ZeroBins));
}

#[test]
fn test_duplicate_histo_names_rejected_at_config_time() {
    let histos = vec![shape("dup", 10, None, None), shape("dup", 20, None, None)];
    assert_eq!(validate_histos(&histos), Err(ExtHistoError::DuplicateName));
}

#[test]
fn test_declared_histo_name_matches_convention_an_external_writer_would_use() {
    let ipc_name = "umami_test_ext_process_shm";
    let spec = shape("physical_view", 4, Some(3), None);
    let (nx, ny) = (spec.x_bins, spec.y_bins.unwrap());
    let name = shm_name(ipc_name, "histos4", &spec.name);
    assert_eq!(name, "umami_test_ext_process_shm_histos4_physical_view");
    let config = HistoConfig { nx: nx as usize, ny: ny as usize, max_nt: 1, max_ni: 0 };
    let mut writer = ShmBox::create(&config).unwrap();
    writer.header.set_run_id("sim_run");
    writer.add_histo(EventHisto { x: 2, y: 1, t: 0, i: 0 });
    let reader = ShmReader::from_parts(writer.header, writer.bins.clone()).unwrap();
    assert_eq!(reader.run_id(), "sim_run");
    assert_eq!((reader.nx(), reader.ny()), (nx, ny));
    assert_eq!(reader.histo_data()[nx as usize + 2], 1);
}

#[test]
fn records_are_stored_little_endian() {
    let mut ev = Event::new(EventType::Neutron).with_channel(0x0102_0304).with_abs_time(EventTime(-2));
    ev.histo = EventHisto { x: 0x0506, y: 7, t: 8, i: 9 };
    let mut bytes = Vec::new();
    Full::from_event(ev).write_to(&mut bytes);
    assert_eq!(bytes.len(), 48);
    assert_eq!(&bytes[0..4], &[0x01, 0x00, 0x00, 0x00]);
    assert_eq!(&bytes[4..8], &[0x04, 0x03, 0x02, 0x01]);
    assert_eq!(&bytes[24..26], &[0x06, 0x05]);
    assert_eq!(&bytes[32..40], &[0xfe, 0xff, 0xff, 0xff, 0xff, 0xff, 0xff, 0xff]);
    let mut short = Vec::new();
    XYTof { x: 1, y: 2, tof: 0x0a0b0c0d }.write_to(&mut short);
    assert_eq!(short, vec![1, 0, 2, 0, 0x0d, 0x0c, 0x0b, 0x0a]);
}

#[test]
fn test_axis_expression_resolves_configured_alias() {
    let mut aliases = AliasTable::new();
    aliases.insert("adc0".to_string(), ExprAlias::new("adc0", "raw_0[0..12:signed]", ""));
    let specs = vec![histo("a", None, axis("adc0", 4, -8, 7), None)];
    let mut output = AuxHistos::new("umami_auxtest".to_string(), "alias".to_string(), true, specs, aliases).unwrap();
    let ev = Event::new(EventType::Neutron).with_raw(2, 0);
    output.handle_events(&vec![ev]).unwrap();
    assert_eq!(output.compiled[0].shm.bins[2], 1);
    assert_eq!(total(&output, 0), 1);
    let unknown = vec![histo("a", None, axis("adc0", 4, -8, 7), None)];
    assert!(AuxHistos::new("i".to_string(), "o".to_string(), true, unknown, AliasTable::new()).is_err());
}

#[test]
fn test_filter_resolves_configured_alias() {
    let mut aliases = AliasTable::new();
    aliases.insert("isneutron".to_string(), ExprAlias::new("isneutron", "evtype == neutron", ""));
    let specs = vec![histo("amp", Some("isneutron"), axis("ampl", 4, 0, 7), None)];
    let mut output = AuxHistos::new("umami_auxtest".to_string(), "aliasf".to_string(), true, specs, aliases).unwrap();
    output.handle_events(&vec![Event::new(EventType::Neutron).with_ampl(1), Event::new(EventType::Tzero)]).unwrap();
    assert_eq!(total(&output, 0), 1);
}
