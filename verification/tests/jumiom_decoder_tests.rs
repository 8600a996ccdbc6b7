use umami::event::{EventTime, EventType};
use umami::input::jumiom::decode::{JumiomDecoder, NS_PER_TICK};
use umami::input::jumiom::JumiomMode;

fn tof1_words(gatebit: bool, x: u8, y: u8, counter: u32, adc: [i32; 4]) -> [u32; 4] {
    let word0 = 0x8000_0000 | if gatebit { 0x4000_0000 } else { 0 } | ((y as u32) << 8) | x as u32;
    let word1 = counter;
    let enc = |v: i32| -> u32 { (v as u32) & 0xFFF };
    let word2 = (enc(adc[1]) << 16) | enc(adc[0]);
    let word3 = (enc(adc[3]) << 16) | enc(adc[2]);
    [word0, word1, word2, word3]
}

#[test]
fn test_tof1_neutron_event_and_gate_transition() {
    let mut dec = JumiomDecoder::new(JumiomMode::Tof1);
    let words = tof1_words(true, 5, 3, 1234, [100, 50, 25, 10]);
    let events = dec.feed(&words);
    assert_eq!(events.len(), 2);
    assert_eq!(events[0].evtype, EventType::Gate { up: true });
    let ev = &events[1];
    assert_eq!(ev.evtype, EventType::Neutron);
    assert_eq!(ev.channel.0 & 0xFF, 5);
    assert_eq!((ev.channel.0 >> 8) & 0xFF, 3);
    assert_eq!(ev.ampl.0, 5);
    assert_eq!(ev.raw, (words[2], words[3]));
    assert_eq!(ev.rel_time, EventTime::from_ticks(NS_PER_TICK, 1234i64));
}

#[test]
fn test_tof1_neutron_always_emitted_regardless_of_gate() {
    let mut dec = JumiomDecoder::new(JumiomMode::Tof1);
    let words = tof1_words(false, 1, 1, 10, [8, 8, 8, 8]);
    let events = dec.feed(&words);
    assert_eq!(events.len(), 1);
    assert_eq!(events[0].evtype, EventType::Neutron);
}

#[test]
fn test_tof1_gate_event_only_on_transition() {
    let mut dec = JumiomDecoder::new(JumiomMode::Tof1);
    let gated = tof1_words(true, 1, 1, 10, [8, 8, 8, 8]);
    let events = dec.feed(&gated);
    assert_eq!(events.len(), 2);
    assert_eq!(events[0].evtype, EventType::Gate { up: true });
    let events = dec.feed(&gated);
    assert_eq!(events.len(), 1);
    assert_eq!(events[0].evtype, EventType::Neutron);
}

#[test]
fn decode_test_tof1_negative_adc_excluded_from_sum() {
    let mut dec = JumiomDecoder::new(JumiomMode::Tof1);
    let words = tof1_words(true, 0, 0, 0, [40, -1, 40, 40]);
    let events = dec.feed(&words);
    let neutron = events.iter().find(|e| e.evtype == EventType::Neutron).unwrap();
    assert_eq!(neutron.ampl.0, 3);
}

#[test]
fn decode_test_tof1_event_split_across_feed_calls() {
    let mut dec = JumiomDecoder::new(JumiomMode::Tof1);
    let words = tof1_words(true, 7, 9, 42, [16, 16, 16, 16]);
    let first = dec.feed(&words[..2]);
    assert_eq!(first.len(), 1);
    assert_eq!(first[0].evtype, EventType::Gate { up: true });
    assert!(dec.feed(&words[2..3]).is_empty());
    let events = dec.feed(&words[3..]);
    assert_eq!(events.len(), 1);
    assert_eq!(events[0].evtype, EventType::Neutron);
    assert_eq!(events[0].channel.0 & 0xFF, 7);
    assert_eq!((events[0].channel.0 >> 8) & 0xFF, 9);
    assert_eq!(events[0].ampl.0, 2);
}

#[test]
fn decode_test_tof1_monitor_and_chopper_events() {
    let mut dec = JumiomDecoder::new(JumiomMode::Tof1);
    let monitor_word0 = 0x8000_0000 | 0x1000_0000;
    let events = dec.feed(&[monitor_word0, 500]);
    assert_eq!(events.len(), 1);
    assert_eq!(events[0].evtype, EventType::Monitor { num: 0 });
    assert_eq!(events[0].rel_time, EventTime::from_ticks(NS_PER_TICK, 500i64));

    let mut dec = JumiomDecoder::new(JumiomMode::Tof1);
    let chopper_word0 = 0x8000_0000 | 0x0800_0000;
    let events = dec.feed(&[chopper_word0, 777]);
    assert_eq!(events.len(), 1);
    assert_eq!(events[0].evtype, EventType::Tzero);
    assert_eq!(events[0].rel_time, EventTime::from_ticks(NS_PER_TICK, 777i64));
}

#[test]
fn decode_test_tof1_monitor_event_immediately_followed_by_next_frame() {
    let mut dec = JumiomDecoder::new(JumiomMode::Tof1);
    let monitor_word0 = 0x8000_0000 | 0x1000_0000;
    let next = tof1_words(true, 2, 2, 1, [8, 8, 8, 8]);
    let mut stream = vec![monitor_word0, 1];
    stream.extend_from_slice(&next);
    let events = dec.feed(&stream);
    assert_eq!(events.len(), 3);
    assert_eq!(events[0].evtype, EventType::Monitor { num: 0 });
    assert_eq!(events[1].evtype, EventType::Gate { up: true });
    assert_eq!(events[2].evtype, EventType::Neutron);
    assert_eq!(events[2].channel.0 & 0xFF, 2);
}

#[test]
fn test_raw_mode_single_averaged_event() {
    let mut dec = JumiomDecoder::new(JumiomMode::Raw);
    let word0 = 0x8000_0000 | (0xCDu32 << 20) | (0xABu32 << 4);
    let word1 = (0x12u32 << 20) | (0x34u32 << 4);
    let events = dec.feed(&[word0, word1]);
    assert_eq!(events.len(), 1);
    let ev = &events[0];
    assert_eq!(ev.evtype, EventType::AuxSignal { num: 0 });
    assert_eq!(ev.ampl.0, 111);
    assert_eq!(ev.raw, (word0, word1));
}

#[test]
fn test_ramp_mode_single_averaged_event() {
    let mut dec = JumiomDecoder::new(JumiomMode::Ramp);
    let word0 = 0x8000_0000 | (0x1234u32 << 16) | 0x5678u32;
    let word1 = (0x2222u32 << 16) | 0x3333u32;
    let events = dec.feed(&[word0, word1]);
    assert_eq!(events.len(), 1);
    let ev = &events[0];
    assert_eq!(ev.evtype, EventType::AuxSignal { num: 1 });
    assert_eq!(ev.ampl.0, 94);
    assert_eq!(ev.raw, (word0, word1));
}

#[test]
fn decode_words_before_first_frame_and_chunking_agree() {
    // chunked feeding yields the same events as feeding everything at once
    let words = tof1_words(true, 3, 4, 99, [64, 64, 64, 64]);
    let mut all = vec![0x1234u32];
    all.extend_from_slice(&words);
    all.extend_from_slice(&words);
    let mut whole = JumiomDecoder::new(JumiomMode::Tof1);
    let at_once = whole.feed(&all);
    let mut parts = JumiomDecoder::new(JumiomMode::Tof1);
    let mut chunked = parts.feed(&all[..3]);
    chunked.extend(parts.feed(&all[3..7]));
    chunked.extend(parts.feed(&all[7..]));
    assert_eq!(at_once.len(), chunked.len());
    for (a, b) in at_once.iter().zip(chunked.iter()) {
        assert!(a == b);
    }
}

#[test]
fn words_before_first_framing_word_are_skipped() {
    let mut d = JumiomDecoder::new(JumiomMode::Tof1);
    assert!(d.feed(&[0x0000_0000, 5, 0, 0]).is_empty());
}
