use umami::event::{Amplitude, ChannelId, Event, EventFlags, EventTime, EventType};

fn neutron(time_ns: i64, channel: u32) -> Event {
    Event::new(EventType::Neutron).with_channel(channel).with_abs_time(EventTime(time_ns))
}

fn edge(time_ns: i64, channel: u32, up: bool) -> Event {
    Event::new(EventType::Edge { up }).with_channel(channel).with_abs_time(EventTime(time_ns))
}

fn tzero(time_ns: i64) -> Event {
    Event::new(EventType::Tzero).with_abs_time(EventTime(time_ns))
}

fn gate(time_ns: i64, up: bool) -> Event {
    Event::new(EventType::Gate { up }).with_abs_time(EventTime(time_ns))
}

fn aux(time_ns: i64, num: u8) -> Event {
    Event::new(EventType::AuxSignal { num }).with_abs_time(EventTime(time_ns))
}

fn heartbeat(time_ns: i64) -> Event {
    Event::new(EventType::Heartbeat).with_abs_time(EventTime(time_ns))
}

fn void(time_ns: i64) -> Event {
    Event::new(EventType::Void).with_abs_time(EventTime(time_ns))
}

fn neutron_xy(time_ns: i64, channel: u32, x: u16, y: u16) -> Event {
    let mut ev = Event::new(EventType::Neutron).with_channel(channel).with_abs_time(EventTime(time_ns));
    ev.histo.x = x;
    ev.histo.y = y;
    ev
}

#[test]
fn test_event_size() {
    assert_eq!(std::mem::size_of::<Event>(), 48);
}

#[test]
fn test_event_time_api() {
    assert_eq!(EventTime::zero(), EventTime(0));
    assert_eq!(EventTime::from_sec_nsec(1, 500_000_000), EventTime(1_500_000_000));
    assert_eq!(EventTime::from_sec_nsec(0, 0), EventTime::zero());
    assert_eq!(EventTime::from_ticks(100, 10i64), EventTime(1000));
    assert_eq!(EventTime::from_ticks(100, 0i64), EventTime::zero());
    assert_eq!(EventTime::from_clock(1_000_000, 500_000i64), EventTime(500_000_000));
    assert_eq!(EventTime::from_clock(1_000_000, 0i64), EventTime::zero());
    assert_eq!(EventTime::max_time(), EventTime(i64::MAX));

    let a = EventTime(1_000_000_000);
    let b = EventTime(500_000_000);
    assert_eq!(a + b, EventTime(1_500_000_000));
    assert_eq!(a - b, EventTime(500_000_000));
    assert_eq!(b - a, EventTime(-500_000_000));

    assert!(EventTime(100) < EventTime(200));
    assert!(EventTime(200) > EventTime(100));
    assert_eq!(EventTime(100), EventTime(100));
}

#[test]
fn test_event_ordering() {
    // ordering compares `time` only, ignoring channel
    let e1 = neutron(100, 0);
    let e2 = neutron(200, 0);
    let e3 = neutron(100, 1);
    assert!(e1 < e2);
    assert!(e2 > e1);
    assert_eq!(e1.partial_cmp(&e3), Some(std::cmp::Ordering::Equal));

    let mut events = vec![neutron(300, 0), neutron(100, 0), neutron(200, 0)];
    umami::sorter::sort_by_time(&mut events);
    assert_eq!(events[0].time, EventTime(100));
    assert_eq!(events[1].time, EventTime(200));
    assert_eq!(events[2].time, EventTime(300));
}

#[test]
fn test_event_data_equality() {
    assert_eq!(EventType::Neutron, EventType::Neutron);
    assert_ne!(EventType::Neutron, EventType::Edge { up: true });
    assert_eq!(EventType::Edge { up: true }, EventType::Edge { up: true });
    assert_ne!(EventType::Edge { up: true }, EventType::Edge { up: false });
}

#[test]
fn test_event_flags() {
    let empty = EventFlags::empty();
    assert!(empty.is_empty());
    assert!(!empty.contains(EventFlags::HasRelTime));
    assert_eq!(empty.to_text(), "-");

    let rt = EventFlags::HasRelTime;
    assert!(rt.contains(EventFlags::HasRelTime));
    assert!(!rt.contains(EventFlags::Fake));
    assert_eq!(rt.to_text(), "RT");
    assert_eq!(EventFlags::Fake.to_text(), "F");

    let combined = rt | EventFlags::Fake;
    assert!(combined.contains(EventFlags::HasRelTime));
    assert!(combined.contains(EventFlags::Fake));
    assert_eq!(combined.to_text(), "RT|F");
}

#[test]
fn test_event_new() {
    let ev = Event::new(EventType::Neutron)
        .with_channel(42)
        .with_abs_time(EventTime(100))
        .with_rel_time(EventTime(50))
        .with_ampl(1234);
    assert_eq!(ev.time, EventTime(100));
    assert_eq!(ev.rel_time, EventTime(50));
    assert_eq!(ev.channel, ChannelId(42));
    assert_eq!(ev.flags, EventFlags::HasRelTime);
    assert_eq!(ev.evtype, EventType::Neutron);
    assert_eq!(ev.ampl, Amplitude(1234));
    assert_eq!(ev.histo.x, 0);
    assert_eq!(ev.histo.y, 0);
    assert_eq!(ev.histo.t, 0);
    assert_eq!(ev.histo.i, 0);
}

#[test]
fn test_event_helpers() {
    let ev = neutron(100, 5);
    assert_eq!(ev.evtype, EventType::Neutron);
    assert_eq!(ev.time, EventTime(100));
    assert_eq!(ev.channel, ChannelId(5));

    let ev = edge(200, 3, true);
    assert_eq!(ev.evtype, EventType::Edge { up: true });
    assert_eq!(ev.channel, ChannelId(3));

    let ev = tzero(300);
    assert_eq!(ev.evtype, EventType::Tzero);

    let ev = gate(400, false);
    assert_eq!(ev.evtype, EventType::Gate { up: false });

    let ev = aux(500, 2);
    assert_eq!(ev.evtype, EventType::AuxSignal { num: 2 });

    let ev = heartbeat(600);
    assert_eq!(ev.evtype, EventType::Heartbeat);

    let ev = void(700);
    assert_eq!(ev.evtype, EventType::Void);

    let ev = neutron_xy(800, 1, 10, 20);
    assert_eq!(ev.histo.x, 10);
    assert_eq!(ev.histo.y, 20);
}

#[test]
fn test_abs_time_with_offset_sets_rel_time() {
    let ev = Event::new(EventType::Neutron).with_abs_time_and_offset(EventTime(1000), EventTime(400));
    assert_eq!(ev.time, EventTime(1000));
    assert_eq!(ev.rel_time, EventTime(1400));
    assert!(ev.flags.contains(EventFlags::HasRelTime));
}

#[test]
fn event_time_default_is_zero() {
    assert_eq!(EventTime::default(), EventTime::zero());
    let t = EventTime(12_345);
    assert_eq!(t + EventTime::default(), t);
    assert_eq!(t - EventTime::default(), t);
}
