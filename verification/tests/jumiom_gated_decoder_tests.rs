use umami::event::{EventTime, EventType};
use umami::input::jumiom::JumiomMode;
use umami::input::jumiom_decode::{JumiomDecoder, NS_PER_TICK};

fn tof1_words(gatebit: bool, x: u8, y: u8, counter: u32, adc: [i32; 4]) -> [u32; 4] {
    let word0 = 0x8000_0000 | if gatebit { 0x4000_0000 } else { 0 } | ((y as u32) << 8) | x as u32;
    let word1 = counter;
    let enc = |v: i32| -> u32 { (v as u32) & 0xFFF };
    let word2 = (enc(adc[1]) << 16) | enc(adc[0]);
    let word3 = (enc(adc[3]) << 16) | enc(adc[2]);
    [word0, word1, word2, word3]
}

#[test]
fn test_tof1_gated_neutron_event() {
    let mut dec = JumiomDecoder::new(JumiomMode::Tof1, false);
    let words = tof1_words(true, 5, 3, 1234, [100, 50, 25, 10]);
    let events = dec.feed(&words);
    assert_eq!(events.len(), 1);
    let ev = &events[0];
    assert_eq!(ev.evtype, EventType::Neutron);
    assert_eq!(ev.histo.x, 5);
    assert_eq!(ev.histo.y, 3);
    assert_eq!(ev.ampl.0, 5);
    assert_eq!(ev.raw, (words[2], words[3]));
    assert_eq!(ev.rel_time, EventTime::from_ticks(NS_PER_TICK, 1234i64));
}

#[test]
fn test_tof1_ungated_event_dropped_unless_ingore_gate() {
    let words = tof1_words(false, 1, 1, 10, [8, 8, 8, 8]);
    let mut dec = JumiomDecoder::new(JumiomMode::Tof1, true);
    assert!(dec.feed(&words).is_empty());
    let mut dec = JumiomDecoder::new(JumiomMode::Tof1, false);
    let events = dec.feed(&words);
    assert_eq!(events.len(), 1);
    assert_eq!(events[0].evtype, EventType::Neutron);
}

#[test]
fn jumiom_decode_test_tof1_negative_adc_excluded_from_sum() {
    let mut dec = JumiomDecoder::new(JumiomMode::Tof1, false);
    let words = tof1_words(true, 0, 0, 0, [40, -1, 40, 40]);
    let events = dec.feed(&words);
    assert_eq!(events.len(), 1);
    assert_eq!(events[0].ampl.0, 3);
}

#[test]
fn jumiom_decode_test_tof1_event_split_across_feed_calls() {
    let mut dec = JumiomDecoder::new(JumiomMode::Tof1, false);
    let words = tof1_words(true, 7, 9, 42, [16, 16, 16, 16]);
    assert!(dec.feed(&words[..2]).is_empty());
    assert!(dec.feed(&words[2..3]).is_empty());
    let events = dec.feed(&words[3..]);
    assert_eq!(events.len(), 1);
    assert_eq!(events[0].histo.x, 7);
    assert_eq!(events[0].histo.y, 9);
    assert_eq!(events[0].ampl.0, 2);
}

#[test]
fn jumiom_decode_test_tof1_monitor_and_chopper_events() {
    let mut dec = JumiomDecoder::new(JumiomMode::Tof1, false);
    let monitor_word0 = 0x8000_0000 | 0x1000_0000;
    let events = dec.feed(&[monitor_word0, 500]);
    assert_eq!(events.len(), 1);
    assert_eq!(events[0].evtype, EventType::Monitor { num: 0 });
    assert_eq!(events[0].rel_time, EventTime::from_ticks(NS_PER_TICK, 500i64));

    let mut dec = JumiomDecoder::new(JumiomMode::Tof1, false);
    let chopper_word0 = 0x8000_0000 | 0x0800_0000;
    let events = dec.feed(&[chopper_word0, 777]);
    assert_eq!(events.len(), 1);
    assert_eq!(events[0].evtype, EventType::Tzero);
    assert_eq!(events[0].rel_time, EventTime::from_ticks(NS_PER_TICK, 777i64));
}

#[test]
fn jumiom_decode_test_tof1_monitor_event_immediately_followed_by_next_frame() {
    let mut dec = JumiomDecoder::new(JumiomMode::Tof1, false);
    let monitor_word0 = 0x8000_0000 | 0x1000_0000;
    let next = tof1_words(true, 2, 2, 1, [8, 8, 8, 8]);
    let mut stream = vec![monitor_word0, 1];
    stream.extend_from_slice(&next);
    let events = dec.feed(&stream);
    assert_eq!(events.len(), 2);
    assert_eq!(events[0].evtype, EventType::Monitor { num: 0 });
    assert_eq!(events[1].evtype, EventType::Neutron);
    assert_eq!(events[1].histo.x, 2);
}

#[test]
fn test_raw_mode_four_channels() {
    let mut dec = JumiomDecoder::new(JumiomMode::Raw, false);
    let word0 = 0x8000_0000 | (0xCDu32 << 20) | (0xABu32 << 4);
    let word1 = (0x12u32 << 20) | (0x34u32 << 4);
    let events = dec.feed(&[word0, word1]);
    assert_eq!(events.len(), 4);
    let expect = [0xAB, 0xCD, 0x34, 0x12];
    for (i, ev) in events.iter().enumerate() {
        assert_eq!(ev.evtype, EventType::AuxSignal { num: i as u8 });
        assert_eq!(ev.ampl.0, expect[i]);
        assert_eq!(ev.raw, (word0, word1));
    }
}

#[test]
fn test_ramp_mode_four_channels() {
    let mut dec = JumiomDecoder::new(JumiomMode::Ramp, false);
    let word0 = 0x8000_0000 | (0x1234u32 << 16) | 0x5678u32;
    let word1 = (0x2222u32 << 16) | 0x3333u32;
    let events = dec.feed(&[word0, word1]);
    assert_eq!(events.len(), 4);
    let expect = [36, 172, 68, 102];
    for (i, ev) in events.iter().enumerate() {
        assert_eq!(ev.evtype, EventType::AuxSignal { num: i as u8 });
        assert_eq!(ev.ampl.0, expect[i]);
    }
}

#[test]
fn gated_words_before_first_framing_word_are_skipped() {
    let mut dec = JumiomDecoder::new(JumiomMode::Tof1, false);
    assert!(dec.feed(&[0x0000_0000, 5, 0, 0]).is_empty());
}
