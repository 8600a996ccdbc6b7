use std::collections::{HashMap, VecDeque};
use umami::event::{Event, EventTime, EventType};
use umami::pipeline::balanced_sorter_tree;
use umami::sorter::{merge_step, sort_by_time, Side, SorterState, StreamItem};

fn neutron(t: i64) -> Event {
    Event::new(EventType::Neutron).with_abs_time(EventTime(t))
}

/// Runs one sorter over two complete input streams, the way the pipeline
/// drives it, until the stream it waits on has nothing more.
fn run_sorter(
    mut a: VecDeque<StreamItem<String>>,
    mut b: VecDeque<StreamItem<String>>,
) -> Vec<StreamItem<String>> {
    let mut st = SorterState::new();
    let mut out = Vec::new();
    loop {
        match st.next_read() {
            Some(side) => {
                let q = match side {
                    Side::First => &mut a,
                    Side::Second => &mut b,
                };
                let item = match q.pop_front() {
                    Some(i) => i,
                    None => return out,
                };
                out.extend(st.receive(side, item));
            }
            None => {
                sort_by_time(&mut st.buf1);
                sort_by_time(&mut st.buf2);
                out.push(StreamItem::Events(st.merge()));
            }
        }
    }
}

fn events_of(items: &[StreamItem<String>]) -> Vec<i64> {
    let mut times = Vec::new();
    for item in items {
        if let StreamItem::Events(evs) = item {
            times.extend(evs.iter().map(|e| e.time.0));
        }
    }
    times
}

#[test]
fn test_sorter_merge_sorted_streams() {
    let s1 = VecDeque::from(vec![
        StreamItem::Events(vec![neutron(100), neutron(300), neutron(500)]),
        StreamItem::EndOfRun,
    ]);
    let s2 = VecDeque::from(vec![StreamItem::Events(vec![neutron(200), neutron(400)]), StreamItem::EndOfRun]);
    let out = run_sorter(s1, s2);
    assert_eq!(events_of(&out), vec![100, 200, 300, 400, 500]);
}

#[test]
fn test_sorter_passthrough_non_events() {
    let s1 = VecDeque::from(vec![
        StreamItem::Other("start run1".to_string()),
        StreamItem::Events(vec![neutron(200)]),
        StreamItem::EndOfRun,
    ]);
    let s2 = VecDeque::from(vec![StreamItem::Events(vec![neutron(100)]), StreamItem::EndOfRun]);
    let out = run_sorter(s1, s2);
    assert!(out.iter().any(|i| matches!(i, StreamItem::Other(s) if s == "start run1")));
    assert_eq!(events_of(&out), vec![100, 200]);
}

#[test]
fn test_sorter_end_of_run_forwards() {
    let s1 = VecDeque::from(vec![StreamItem::EndOfRun]);
    let s2 = VecDeque::from(vec![StreamItem::EndOfRun]);
    let out = run_sorter(s1, s2);
    assert!(out.iter().any(|i| matches!(i, StreamItem::EndOfRun)));
}

#[test]
fn test_build_sorter_tree_preserves_time_order() {
    const N_INPUTS: i64 = 5;
    const N_EVENTS_PER_INPUT: i64 = 20;
    let mut streams: HashMap<usize, VecDeque<StreamItem<String>>> = HashMap::new();
    for i in 0..N_INPUTS {
        let events: Vec<Event> = (0..N_EVENTS_PER_INPUT).map(|k| neutron(k * N_INPUTS + i)).collect();
        streams.insert(i as usize, VecDeque::from(vec![StreamItem::Events(events), StreamItem::EndOfRun]));
    }
    let plan = balanced_sorter_tree(N_INPUTS as usize);
    assert_eq!(plan.len(), (N_INPUTS - 1) as usize);
    let mut last = Vec::new();
    for node in plan {
        let a = streams.remove(&node.first).unwrap();
        let b = streams.remove(&node.second).unwrap();
        let out = run_sorter(a, b);
        match node.output {
            Some(id) => {
                streams.insert(id, out.into_iter().collect());
            }
            None => last = out,
        }
    }
    assert!(streams.is_empty());
    assert!(matches!(last.last(), Some(StreamItem::EndOfRun)));
    let times = events_of(&last);
    assert_eq!(times.len(), (N_INPUTS * N_EVENTS_PER_INPUT) as usize);
    let mut sorted = times.clone();
    sorted.sort();
    assert_eq!(times, sorted, "merged stream is not fully time-ordered");
}

#[test]
fn merge_step_hands_back_only_what_is_safe() {
    let mut a = vec![neutron(1), neutron(4), neutron(9)];
    let mut b = vec![neutron(2), neutron(3)];
    let batch = merge_step(&mut a, &mut b);
    let times: Vec<i64> = batch.iter().map(|e| e.time.0).collect();
    assert_eq!(times, vec![1, 2, 3]);
    assert!(b.is_empty());
    assert_eq!(a.iter().map(|e| e.time.0).collect::<Vec<_>>(), vec![4, 9]);
}

#[test]
fn sort_by_time_is_stable() {
    let mut v = vec![neutron(3).with_channel(1), neutron(1), neutron(3).with_channel(2)];
    sort_by_time(&mut v);
    assert_eq!(v.iter().map(|e| (e.time.0, e.channel.0)).collect::<Vec<_>>(), vec![(1, 0), (3, 1), (3, 2)]);
}
