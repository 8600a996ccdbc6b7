use umami::event::{Event, EventTime, EventType};
use umami::expr::alias::AliasTable;
use umami::expr::Expr;
use umami::recipe::jumiom::{
    adchelper, parse_limits, unpack_adc, LimitsError, LimitsFileError, Position, PositionMode, LIMIT_TABLE_SIZE,
};

fn neutron_with_raw(channel: u32, adc: [i32; 4]) -> Event {
    let enc = |v: i32| -> u32 { (v as u32) & 0xFFF };
    let word2 = (enc(adc[1]) << 16) | enc(adc[0]);
    let word3 = (enc(adc[3]) << 16) | enc(adc[2]);
    Event::new(EventType::Neutron).with_channel(channel).with_raw(word2, word3)
}

fn fpga_recipe() -> Position {
    Position::new(PositionMode::Fpga, false, None).unwrap()
}

/// The table of a limits file with one line "0 0 <lo> <hi> 0" per pixel,
/// accept-all except for the given overrides.
fn limits(overrides: &[(usize, usize, u32, u32)]) -> (Vec<u32>, Vec<u32>) {
    let mut table = vec![(0u32, 255u32); LIMIT_TABLE_SIZE];
    for &(x, y, lo, hi) in overrides {
        table[y * 256 + x] = (lo, hi);
    }
    let mut text = String::new();
    for (lo, hi) in table {
        text.push_str(&format!("0 0 {lo} {hi} 0\n"));
    }
    parse_limits(&text).unwrap()
}

#[test]
fn test_adchelper_computation() {
    assert_eq!(adchelper([100, -50, 2000, -2000]), 65);
    assert_eq!(adchelper([-1, -2, -3, -4]), 0);
}

#[test]
fn test_no_limits_file_still_rejects_y_zero_and_bad_adchelper() {
    let mut r = fpga_recipe();
    let out = r.process(vec![neutron_with_raw(5, [100, 100, 100, 100])], &vec![]);
    assert_eq!(out[0].evtype, EventType::Void);
    let channel = (3u32 << 8) | 5u32;
    let ev = Event::new(EventType::Neutron).with_channel(channel).with_abs_time(EventTime(100));
    let out = r.process(vec![ev], &vec![]);
    assert_eq!(out[0].evtype, EventType::Void);
}

#[test]
fn test_no_limits_file_accepts_valid_position_and_adchelper() {
    let mut r = fpga_recipe();
    let channel = (3u32 << 8) | 5u32;
    let out = r.process(vec![neutron_with_raw(channel, [100, 100, 100, 100])], &vec![]);
    assert_eq!(out[0].evtype, EventType::Neutron);
    assert_eq!(out[0].histo.x, 5);
    assert_eq!(out[0].histo.y, 3);
}

#[test]
fn test_limits_file_rejects_outside_window() {
    let mut r = Position::new(PositionMode::Fpga, false, Some(limits(&[(5, 3, 10, 20)]))).unwrap();
    let channel = (3u32 << 8) | 5u32;
    let out = r.process(vec![neutron_with_raw(channel, [100, 100, 100, 100])], &vec![]);
    assert_eq!(out[0].evtype, EventType::Neutron);
    assert_eq!((out[0].histo.x, out[0].histo.y), (5, 3));
    let out = r.process(vec![neutron_with_raw(channel, [2000, 2000, 2000, 2000])], &vec![]);
    assert_eq!(out[0].evtype, EventType::Void);
}

#[test]
fn test_limits_file_use_fpga_index_toggle() {
    // calculated position (128, 192) differs from the FPGA one (9, 9)
    let table = limits(&[(128, 192, 255, 0)]);
    let channel = (9u32 << 8) | 9u32;
    let adc = [128, 128, 192, 64];
    let calc = vec![Some((128, 192))];

    let mut r_fpga = Position::new(PositionMode::Linear, true, Some(table.clone())).unwrap();
    let out = r_fpga.process(vec![neutron_with_raw(channel, adc)], &calc);
    assert_eq!(out[0].evtype, EventType::Neutron);

    let mut r_calc = Position::new(PositionMode::Linear, false, Some(table)).unwrap();
    let out = r_calc.process(vec![neutron_with_raw(channel, adc)], &calc);
    assert_eq!(out[0].evtype, EventType::Void);
}

#[test]
fn test_limits_file_ymerk_zero_is_always_rejected() {
    let mut r = Position::new(PositionMode::Fpga, false, Some(limits(&[]))).unwrap();
    let out = r.process(vec![neutron_with_raw(5, [100, 100, 100, 100])], &vec![]);
    assert_eq!(out[0].evtype, EventType::Void);
}

#[test]
fn test_limits_file_wrong_line_count_errors() {
    // only 1 line, not 65536
    assert_eq!(parse_limits("0 0 0 255 0\n"), Err(LimitsFileError::EntryCount { found: 1 }));
    let r = Position::new(PositionMode::Fpga, false, Some((vec![0], vec![255])));
    assert!(matches!(r, Err(LimitsError::EntryCount)));
}

#[test]
fn limits_file_lines_comments_and_errors() {
    assert_eq!(parse_limits("; comment\n\n0 0 1 2\n"), Err(LimitsFileError::FieldCount { line: 3, found: 4 }));
    assert_eq!(parse_limits("0 0 x 2 0\r\n"), Err(LimitsFileError::BadLower { line: 1 }));
    assert_eq!(parse_limits("0 0 +1 4294967296 0"), Err(LimitsFileError::BadUpper { line: 1 }));
    assert_eq!(parse_limits(""), Err(LimitsFileError::EntryCount { found: 0 }));
    let mut text = String::from("; header\r\n");
    for i in 0..LIMIT_TABLE_SIZE {
        text.push_str(&format!("1\t2  {}  +{} 5\r\n", i % 7, 200 + i % 3));
    }
    let (lo, hi) = parse_limits(&text).unwrap();
    assert_eq!(lo.len(), LIMIT_TABLE_SIZE);
    assert_eq!((lo[8], hi[8]), (1, 202));
}

#[test]
fn test_expr_aliases_match_unpack_adc_layout() {
    let r = fpga_recipe();
    let aliases = r.expr_aliases();
    let names: Vec<_> = aliases.iter().map(|a| a.name.as_str()).collect();
    assert_eq!(names, ["adc0", "adc1", "adc2", "adc3"]);

    let mut table = AliasTable::new();
    for a in &aliases {
        table.insert(a.name.clone(), a.duplicate());
    }
    let adc = [100, -50, 2000, -2000];
    let ev = neutron_with_raw(0, adc);
    assert_eq!(unpack_adc(ev.raw), adc);
    for (i, name) in ["adc0", "adc1", "adc2", "adc3"].iter().enumerate() {
        let got = Expr::parse_with_aliases(name, &table).unwrap().eval(&ev);
        assert_eq!(got, adc[i] as i64, "{name} mismatch");
    }
}

#[test]
fn test_fpga_mode_extracts_x_y_from_channel() {
    let mut r = fpga_recipe();
    let channel = (3u32 << 8) | 5u32;
    let out = r.process(vec![neutron_with_raw(channel, [100, 100, 100, 100])], &vec![]);
    assert_eq!(out[0].evtype, EventType::Neutron);
    assert_eq!(out[0].histo.x, 5);
    assert_eq!(out[0].histo.y, 3);
}

#[test]
fn test_position_leaves_other_event_types_unchanged() {
    let mut r = fpga_recipe();
    let out = r.process(vec![Event::new(EventType::Tzero).with_abs_time(EventTime(50))], &vec![]);
    assert_eq!(out[0].evtype, EventType::Tzero);
    assert_eq!(out[0].histo.x, 0);
    assert_eq!(out[0].histo.y, 0);
}

#[test]
fn test_calculated_position_out_of_range_or_missing_is_voided() {
    let mut r = Position::new(PositionMode::Distortion, false, None).unwrap();
    let channel = (3u32 << 8) | 5u32;
    let evs = vec![neutron_with_raw(channel, [100, 100, 100, 100]), neutron_with_raw(channel, [100, 100, 100, 100]), neutron_with_raw(channel, [100, 100, 100, 100])];
    let out = r.process(evs, &vec![Some((256, 3)), None, Some((7, 8))]);
    assert_eq!(out[0].evtype, EventType::Void);
    assert_eq!(out[1].evtype, EventType::Void);
    assert_eq!(out[2].evtype, EventType::Neutron);
    assert_eq!((out[2].histo.x, out[2].histo.y), (7, 8));
}

#[test]
fn adchelper_takes_any_i32_without_overflow() {
    assert_eq!(adchelper([i32::MAX; 4]), (i32::MAX >> 3) * 4 / 4);
    assert_eq!(adchelper([i32::MIN; 4]), 0);
    assert_eq!(adchelper([i32::MAX, i32::MIN, i32::MAX, -1]), (i32::MAX >> 3) * 2 / 4);
}
