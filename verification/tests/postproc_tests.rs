use umami::command::CommandReply;
use umami::config::HistoConfig;
use umami::event::{Event, EventHisto, EventType};
use umami::input::InputState;
use umami::postproc::{post_step, save_histo_reply, Forward, ParamInfo, PostAction, PostEvent, PostState, RecipeReport};
use umami::shm::ShmBox;

fn setup(names: &[&str], default: &str) -> (PostState, ShmBox) {
    let names: Vec<String> = names.iter().map(|s| s.to_string()).collect();
    let state = PostState::new(names, default).unwrap();
    let shm = ShmBox::create(&HistoConfig { nx: 4, ny: 4, max_nt: 1, max_ni: 0 }).unwrap();
    (state, shm)
}

fn neutron_xy(x: u16, y: u16) -> Event {
    let mut ev = Event::new(EventType::Neutron);
    ev.histo = EventHisto { x, y, t: 0, i: 0 };
    ev
}

fn only_reply(a: PostAction) -> CommandReply {
    assert_eq!(a.replies.len(), 1);
    a.replies.into_iter().next().unwrap()
}

fn data(r: CommandReply) -> serde_json::Value {
    match r {
        CommandReply::Data { value } => value,
        other => panic!("unexpected reply: {other:?}"),
    }
}

#[test]
fn test_postproc_mode_switching_and_state() {
    let (mut state, mut shm) = setup(&["std", "tof"], "std");

    let modes = data(only_reply(post_step(&mut state, &mut shm, PostEvent::GetModes)));
    let modes: Vec<String> = modes.as_array().unwrap().iter().map(|v| v.as_str().unwrap().to_string()).collect();
    assert!(modes.contains(&"std".to_string()));
    assert!(modes.contains(&"tof".to_string()));

    // switching to an unknown mode fails, and doesn't change the current one
    let r = only_reply(post_step(&mut state, &mut shm, PostEvent::SetMode("bogus".to_string())));
    assert!(r.is_error());
    assert_eq!(state.mode_name, "std");

    // switching to a known mode succeeds and is reflected in GetState
    let r = only_reply(post_step(&mut state, &mut shm, PostEvent::SetMode("tof".to_string())));
    assert!(matches!(r, CommandReply::Done));

    post_step(&mut state, &mut shm, PostEvent::InputState("in1".to_string(), InputState::Running));
    let value = data(only_reply(post_step(&mut state, &mut shm, PostEvent::GetState)));
    assert_eq!(value["mode"], "tof");
    assert_eq!(value["inputs"]["in1"], "running");
}

#[test]
fn test_postproc_get_state_reports_instance_name() {
    let (mut state, mut shm) = setup(&["std"], "std");
    state.set_instance(Some("My Detector".to_string()));
    let value = data(only_reply(post_step(&mut state, &mut shm, PostEvent::GetState)));
    assert_eq!(value["name"], "My Detector");
}

#[test]
fn test_postproc_meta_items_not_forwarded() {
    let (mut state, mut shm) = setup(&["std"], "std");

    // meta items are consumed by the postprocessor and never reach the output
    assert!(post_step(&mut state, &mut shm, PostEvent::GetModes).forward.is_none());
    assert!(post_step(&mut state, &mut shm, PostEvent::GetState).forward.is_none());
    let a = post_step(&mut state, &mut shm, PostEvent::InputState("in1".to_string(), InputState::Running));
    assert!(a.forward.is_none());

    // regular items pass through to the output once processed
    let a = post_step(&mut state, &mut shm, PostEvent::StartOfRun("run1".to_string()));
    assert!(matches!(a.forward, Some(Forward::StartOfRun(_))));
    let mut ev = Event::new(EventType::Neutron);
    ev.time = umami::event::EventTime(100);
    let a = post_step(&mut state, &mut shm, PostEvent::Events(vec![ev]));
    assert!(matches!(a.forward, Some(Forward::Events(_))));
    let a = post_step(&mut state, &mut shm, PostEvent::EndOfRun);
    assert!(matches!(a.forward, Some(Forward::EndOfRun)));
}

#[test]
fn test_postproc_histogram_accumulation_clear_and_save() {
    let (mut state, mut shm) = setup(&["std"], "std");

    let events = vec![neutron_xy(1, 2), neutron_xy(1, 2), Event::new(EventType::Edge { up: true })];
    let a = post_step(&mut state, &mut shm, PostEvent::Events(events));
    assert!(a.counted);
    assert_eq!(shm.bins.iter().sum::<u32>(), 2);
    assert_eq!(shm.bins[2 * 4 + 1], 2); // offset for (x=1, y=2, t=0)

    post_step(&mut state, &mut shm, PostEvent::Clear);
    assert!(shm.bins.iter().all(|&v| v == 0));

    post_step(&mut state, &mut shm, PostEvent::Events(vec![neutron_xy(0, 0)]));
    let a = post_step(&mut state, &mut shm, PostEvent::SaveHisto(1));
    let text = a.histo_text.unwrap();
    assert!(text.contains('1'));
    assert!(matches!(save_histo_reply(Ok(())), CommandReply::Done));
}

#[test]
fn postproc_unknown_mode_message() {
    let (mut state, mut shm) = setup(&["std"], "std");
    match only_reply(post_step(&mut state, &mut shm, PostEvent::SetMode("bogus".to_string()))) {
        CommandReply::Error { module, message } => {
            assert_eq!(module, None);
            assert_eq!(message, "Recipe bogus not found");
        }
        other => panic!("unexpected reply: {other:?}"),
    }
}

#[test]
fn postproc_get_state_without_name_is_null() {
    let (mut state, mut shm) = setup(&["std"], "std");
    post_step(&mut state, &mut shm, PostEvent::InputState("in1".to_string(), InputState::Error("gone".to_string())));
    let value = data(only_reply(post_step(&mut state, &mut shm, PostEvent::GetState)));
    assert!(value["name"].is_null());
    assert_eq!(value["mode"], "std");
    assert_eq!(value["inputs"]["in1"]["error"], "gone");
}

fn std_report(bin_x: u16) -> RecipeReport {
    RecipeReport {
        kind_name: "histo_std".to_string(),
        params: vec![ParamInfo {
            name: "bin_x".to_string(),
            datatype: "u16".to_string(),
            help: "Binning in x direction".to_string(),
            readonly: false,
            runtime_only: false,
            value: serde_json::Value::from(bin_x),
        }],
    }
}

#[test]
fn postproc_get_params_uses_dotted_keys() {
    let (mut state, mut shm) = setup(&["std"], "std");
    let a = post_step(&mut state, &mut shm, PostEvent::GetParams(false, vec![std_report(1)]));
    assert!(matches!(a.forward, Some(Forward::Params)));
    let value = data(only_reply(a));
    assert_eq!(value["std.bin_x"]["value"], 1);
    assert!(value["std.bin_x"].get("help").is_none());
    assert!(value.get("std._info").is_none());

    let a = post_step(&mut state, &mut shm, PostEvent::GetParams(true, vec![std_report(4)]));
    let value = data(only_reply(a));
    assert_eq!(value["std.bin_x"]["value"], 4);
    assert_eq!(value["std.bin_x"]["datatype"], "u16");
    assert_eq!(value["std.bin_x"]["readonly"], false);
    assert_eq!(value["std._info"]["kind"], "recipe");
    assert_eq!(value["std._info"]["type"], "histo_std");
}

#[test]
fn postproc_set_params_reports_each_recipe() {
    let (mut state, mut shm) = setup(&["std", "tof"], "std");
    let outcomes = vec![("std".to_string(), Ok(())), ("tof".to_string(), Err("not a number".to_string()))];
    let a = post_step(&mut state, &mut shm, PostEvent::SetParams(outcomes));
    assert!(matches!(a.forward, Some(Forward::Params)));
    assert_eq!(a.replies.len(), 2);
    assert!(matches!(a.replies[0], CommandReply::Done));
    match &a.replies[1] {
        CommandReply::Error { module, message } => {
            assert_eq!(module.as_deref(), Some("tof"));
            assert_eq!(message, "Failed to set parameters: not a number");
        }
        other => panic!("unexpected reply: {other:?}"),
    }
}

#[test]
fn postproc_start_of_run_resets_recipes_and_stores_run_id() {
    let (mut state, mut shm) = setup(&["std"], "std");
    let a = post_step(&mut state, &mut shm, PostEvent::StartOfRun("run7".to_string()));
    assert!(a.reset_recipes);
    assert!(a.replies.is_empty());
    assert_eq!(&shm.header.run_id[..4], b"run7");
    assert!(!post_step(&mut state, &mut shm, PostEvent::EndOfRun).reset_recipes);
}

#[test]
fn postproc_save_failure_is_reported() {
    match save_histo_reply(Err("disk full".to_string())) {
        CommandReply::Error { module, message } => {
            assert_eq!(module, None);
            assert_eq!(message, "Failed to save histogram: disk full");
        }
        other => panic!("unexpected reply: {other:?}"),
    }
}
