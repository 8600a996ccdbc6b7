use umami::command::handler::{gather, reply_for, Action, Answer, CommandKind, Handler, Outcome, Party, ReplyKind};
use umami::command::{dotted_key, first_error_or_done, param_key_valid, saved_param, split_param_key, CommandReply};
use umami::pipeline::{
    check_input_count, check_module_names, has_default_mode, sorter_tree, ModuleKind, PipelineError, SorterNode,
};
use umami::config::SourceConfig;
use umami::{set_debug_params, DebugFlags, TraceUnavailable};

fn names(v: &[&str]) -> Vec<String> {
    v.iter().map(|s| s.to_string()).collect()
}

#[test]
fn fanout_reply_is_first_error() {
    let mut replies = vec![
        CommandReply::Done,
        CommandReply::new_error("input failed".into()),
        CommandReply::new_mod_error("mod1".into(), "later".into()),
    ];
    match first_error_or_done(&mut replies) {
        CommandReply::Error { module, message } => {
            assert_eq!(module, None);
            assert_eq!(message, "input failed");
        }
        other => panic!("unexpected reply: {other:?}"),
    }
    let mut ok = vec![CommandReply::Done, CommandReply::Done];
    assert!(matches!(first_error_or_done(&mut ok), CommandReply::Done));
    assert!(matches!(first_error_or_done(&mut Vec::new()), CommandReply::Done));
}

#[test]
fn reply_error_kinds() {
    assert!(CommandReply::new_error("x".into()).is_error());
    assert!(!CommandReply::Done.is_error());
}

#[test]
fn param_keys_split_at_first_dot() {
    assert!(!param_key_valid("no_dot_here"));
    assert!(param_key_valid("std.bin_x"));
    assert_eq!(split_param_key("std.bin_x"), Some(("std".to_string(), "bin_x".to_string())));
    assert_eq!(split_param_key("a.b.c"), Some(("a".to_string(), "b.c".to_string())));
    assert_eq!(split_param_key("nodot"), None);
    assert_eq!(dotted_key("mesy", "threshold"), "mesy.threshold");
}

#[test]
fn saved_params_skip_readonly_runtime_and_info() {
    assert_eq!(
        saved_param("ge01.channel_offset", false, false, true),
        Some(("ge01".to_string(), "channel_offset".to_string()))
    );
    assert_eq!(saved_param("ge01.mod_types", true, false, true), None);
    assert_eq!(saved_param("std.pulser", false, true, true), None);
    assert_eq!(saved_param("std._info", false, false, true), None);
    assert_eq!(saved_param("std.value", false, false, false), None);
    assert_eq!(saved_param("nodot", false, false, true), None);
}

#[test]
fn input_count_limits() {
    assert_eq!(check_input_count(0, 4), Err(PipelineError::NoInputs));
    assert_eq!(check_input_count(5, 4), Err(PipelineError::TooManyInputs(5, 4)));
    assert_eq!(check_input_count(4, 4), Ok(()));
}

#[test]
fn module_names_must_be_unique() {
    let r = check_module_names(&names(&["ge01", "ge02"]), &names(&["file"]), &names(&["std", "tof"]), &names(&["ge"]));
    assert_eq!(r, Ok(()));
    let r = check_module_names(&names(&["ge01"]), &names(&["std"]), &names(&["std", "ge01"]), &names(&[]));
    assert_eq!(
        r,
        Err(PipelineError::DuplicateName { kind: ModuleKind::ProcessMode, name: "std".into(), prev: ModuleKind::Output })
    );
    let r = check_module_names(&names(&["x"]), &names(&[]), &names(&[]), &names(&["x"]));
    assert_eq!(
        r,
        Err(PipelineError::DuplicateName { kind: ModuleKind::InputRecipe, name: "x".into(), prev: ModuleKind::Input })
    );
}

#[test]
fn default_mode_lookup() {
    assert!(has_default_mode(&names(&["std", "tof"]), "tof"));
    assert!(!has_default_mode(&names(&["std"]), "tof"));
}

#[test]
fn sorter_tree_merges_pairwise() {
    assert!(sorter_tree(1).is_empty());
    assert_eq!(sorter_tree(2), vec![SorterNode { first: 1, second: 0, output: None }]);
    assert_eq!(
        sorter_tree(3),
        vec![
            SorterNode { first: 2, second: 1, output: Some(3) },
            SorterNode { first: 3, second: 0, output: None },
        ]
    );
    assert_eq!(sorter_tree(5).len(), 4);
}

#[test]
fn debug_params_without_trace_support() {
    let (flags, r) = set_debug_params(true, false, false);
    assert_eq!(flags, DebugFlags { debug: true, trace: None });
    assert_eq!(r, Ok(()));
    let (_, r) = set_debug_params(false, true, false);
    assert_eq!(r, Err(TraceUnavailable));
    let (flags, r) = set_debug_params(false, true, true);
    assert_eq!(flags.trace, Some(true));
    assert_eq!(r, Ok(()));
}

/// Runs the handler's decisions for a command of kind `kind` with `n`
/// inputs, feeding it `outcomes` in turn; the actions it asked for, the
/// last one its answer.
fn drive(kind: CommandKind, n: usize, keys: &[&str], outcomes: &[Outcome]) -> Vec<Action> {
    let keys = names(keys);
    let (mut h, mut a) = Handler::start(kind, n, &keys);
    let mut actions = vec![a];
    let mut next = outcomes.iter();
    while !matches!(a, Action::Answer(_)) {
        let o = *next.next().expect("the handler asked for more than was given");
        (h, a) = h.step(o);
        actions.push(a);
    }
    assert!(next.next().is_none(), "the handler answered early");
    actions
}

fn answer(actions: &[Action]) -> Answer {
    match actions.last() {
        Some(Action::Answer(a)) => *a,
        other => panic!("no answer: {other:?}"),
    }
}

#[test]
fn test_ping_and_clear() {
    assert_eq!(drive(CommandKind::Ping, 0, &[], &[]), vec![Action::Answer(Answer::Version)]);
    // clear is sent to the postprocessor, and no reply is awaited
    assert_eq!(
        drive(CommandKind::Clear, 0, &[], &[Outcome::Sent]),
        vec![Action::SendPost, Action::Answer(Answer::Done)]
    );
}

#[test]
fn test_get_modes_passes_through_postprocessor_reply() {
    let actions = drive(CommandKind::GetModes, 0, &[], &[Outcome::Sent, Outcome::Replied(ReplyKind::OtherData)]);
    assert_eq!(
        actions,
        vec![Action::SendPost, Action::Await(Party::Postprocessor), Action::Answer(Answer::Received(0))]
    );
}

#[test]
fn test_set_mode_get_state_save_histo_pass_through_errors() {
    for kind in [CommandKind::SetMode, CommandKind::GetState, CommandKind::SaveHisto] {
        let actions = drive(kind, 0, &[], &[Outcome::Sent, Outcome::Replied(ReplyKind::Error)]);
        assert_eq!(answer(&actions), Answer::Received(0));
    }
}

#[test]
fn test_start_sends_start_of_run_and_fans_out_to_inputs() {
    let actions = drive(
        CommandKind::Start,
        1,
        &[],
        &[Outcome::Sent, Outcome::Sent, Outcome::Replied(ReplyKind::Done)],
    );
    assert_eq!(
        actions,
        vec![Action::SendPost, Action::SendInput(0), Action::Await(Party::AnyInput), Action::Answer(Answer::Done)]
    );
}

#[test]
fn test_fanout_returns_first_input_error() {
    let outcomes = [Outcome::Sent, Outcome::Sent, Outcome::Replied(ReplyKind::Done), Outcome::Replied(ReplyKind::Error)];
    let actions = drive(CommandKind::Stop, 2, &[], &outcomes);
    assert_eq!(&actions[..3], &[Action::SendInput(0), Action::SendInput(1), Action::Await(Party::AnyInput)]);
    assert_eq!(answer(&actions), Answer::Received(1));
    let mut replies = vec![CommandReply::Done, CommandReply::new_error("input failed".into())];
    assert!(first_error_or_done(&mut replies).is_error());
}

#[test]
fn fan_out_answer_is_first_error_of_all_replies() {
    let outcomes = [
        Outcome::Sent, Outcome::Sent, Outcome::Sent,
        Outcome::Replied(ReplyKind::Done), Outcome::Replied(ReplyKind::Error), Outcome::Replied(ReplyKind::Error),
    ];
    assert_eq!(answer(&drive(CommandKind::Reset, 3, &[], &outcomes)), Answer::Received(1));
    let ok = [Outcome::Sent, Outcome::Sent, Outcome::Replied(ReplyKind::Done), Outcome::Replied(ReplyKind::OtherData)];
    assert_eq!(answer(&drive(CommandKind::SetRawDump, 2, &[], &ok)), Answer::Done);
    assert_eq!(drive(CommandKind::Stop, 0, &[], &[]), vec![Action::Answer(Answer::Done)]);
}

#[test]
fn test_set_params_rejects_key_without_dot() {
    // never touches any channel: validated up front
    assert_eq!(
        drive(CommandKind::SetParams, 2, &["std.bin_x", "no_dot_here"], &[]),
        vec![Action::Answer(Answer::InvalidKey(1))]
    );
    assert!(!param_key_valid("no_dot_here"));
    assert_eq!(split_param_key("no_dot_here"), None);
    let keys = names(&["std.bin_x", "no_dot_here"]);
    match reply_for(Answer::InvalidKey(1), &keys, &vec![], "1.0", vec![], Ok(())) {
        CommandReply::Error { module: None, message } => assert_eq!(
            message,
            "Invalid param key no_dot_here, needs to be of the form <module>.<param>"
        ),
        other => panic!("unexpected reply: {other:?}"),
    }
}

#[test]
fn test_get_params_propagates_input_error() {
    let actions = drive(CommandKind::GetParams, 1, &[], &[Outcome::Sent, Outcome::Replied(ReplyKind::Error)]);
    assert_eq!(answer(&actions), Answer::Received(0));
}

#[test]
fn get_params_gathers_inputs_then_recipes() {
    let outcomes = [
        Outcome::Sent, Outcome::Replied(ReplyKind::Object), Outcome::Sent,
        Outcome::Replied(ReplyKind::Object), Outcome::Closed,
    ];
    assert_eq!(
        drive(CommandKind::GetParams, 1, &[], &outcomes),
        vec![
            Action::SendInput(0), Action::Await(Party::AnyInput), Action::SendPost,
            Action::Await(Party::RecipesOrOutputs), Action::Await(Party::RecipesOrOutputs),
            Action::Answer(Answer::Gathered),
        ]
    );
    let save = [Outcome::Sent, Outcome::Closed];
    assert_eq!(answer(&drive(CommandKind::SaveConfig, 0, &[], &save)), Answer::SaveGathered);
}

#[test]
fn test_set_params_propagates_input_error_before_reaching_postprocessor() {
    let actions = drive(
        CommandKind::SetParams,
        1,
        &["ge.rebin_8x8"],
        &[Outcome::Sent, Outcome::Replied(ReplyKind::Error)],
    );
    assert!(!actions.contains(&Action::SendPost));
    assert_eq!(answer(&actions), Answer::Received(0));
    let fine = [Outcome::Sent, Outcome::Replied(ReplyKind::Done), Outcome::Sent, Outcome::Replied(ReplyKind::Done), Outcome::Closed];
    assert_eq!(answer(&drive(CommandKind::SetParams, 1, &["std.bin_x"], &fine)), Answer::Done);
}

#[test]
fn test_unresponsive_component_times_out_instead_of_hanging() {
    let actions = drive(CommandKind::GetState, 0, &[], &[Outcome::Sent, Outcome::TimedOut]);
    assert_eq!(answer(&actions), Answer::Unresponsive(Party::Postprocessor));
    let actions = drive(CommandKind::Stop, 1, &[], &[Outcome::Sent, Outcome::TimedOut]);
    assert_eq!(answer(&actions), Answer::Unresponsive(Party::AnyInput));
    let actions = drive(CommandKind::Reset, 2, &[], &[Outcome::Sent, Outcome::SendFailed]);
    assert_eq!(answer(&actions), Answer::Unresponsive(Party::Input(1)));
}

#[test]
fn test_source_config_deserialize() {
    let cfg = SourceConfig::from_text("localhost:50001".to_string());
    assert!(matches!(cfg, SourceConfig::IP(s) if s == "localhost:50001"));
    let cfg = SourceConfig::from_text("file".to_string());
    assert!(matches!(cfg, SourceConfig::File(s) if s == "file"));
    let cfg = SourceConfig::from_text("/data:archive/file.dump".to_string());
    assert!(matches!(cfg, SourceConfig::File(s) if s == "/data:archive/file.dump"));
    let cfg = SourceConfig::from_text("fe80::1:50001".to_string());
    assert!(matches!(cfg, SourceConfig::File(s) if s == "fe80::1:50001"));
}

#[test]
fn replies_for_answers() {
    match reply_for(Answer::Version, &vec![], &vec![], "0.4.2", vec![], Ok(())) {
        CommandReply::Data { value } => assert_eq!(value, serde_json::Value::String("UMAMI 0.4.2".into())),
        other => panic!("unexpected reply: {other:?}"),
    }
    assert!(matches!(reply_for(Answer::Done, &vec![], &vec![], "", vec![], Ok(())), CommandReply::Done));
    let inputs = names(&["ge01", "mesy"]);
    match reply_for(Answer::Unresponsive(Party::Input(1)), &vec![], &inputs, "", vec![], Ok(())) {
        CommandReply::Error { module: None, message } => {
            assert_eq!(message, "Input mesy did not respond within 2s; it may be stuck")
        }
        other => panic!("unexpected reply: {other:?}"),
    }
    match reply_for(Answer::Unresponsive(Party::Postprocessor), &vec![], &inputs, "", vec![], Ok(())) {
        CommandReply::Error { message, .. } => {
            assert_eq!(message, "Postprocessor did not respond within 2s; it may be stuck")
        }
        other => panic!("unexpected reply: {other:?}"),
    }
    let received = vec![CommandReply::Done, CommandReply::new_error("boom".into())];
    match reply_for(Answer::Received(1), &vec![], &vec![], "", received, Ok(())) {
        CommandReply::Error { message, .. } => assert_eq!(message, "boom"),
        other => panic!("unexpected reply: {other:?}"),
    }
    match reply_for(Answer::SaveGathered, &vec![], &vec![], "", vec![], Err("disk full".into())) {
        CommandReply::Error { message, .. } => assert_eq!(message, "Failed to save config: disk full"),
        other => panic!("unexpected reply: {other:?}"),
    }
    assert!(matches!(reply_for(Answer::SaveGathered, &vec![], &vec![], "", vec![], Ok(())), CommandReply::Done));
}

fn object(entries: &[(&str, serde_json::Value)]) -> serde_json::Value {
    let mut m = serde_json::Map::new();
    for (k, v) in entries {
        m.insert(k.to_string(), v.clone());
    }
    serde_json::Value::Object(m)
}

fn value_info(v: serde_json::Value) -> serde_json::Value {
    object(&[("value", v)])
}

#[test]
fn gathered_replies_are_merged_in_order() {
    let received = vec![
        CommandReply::Data { value: object(&[("ge.rebin_8x8", value_info(false.into())), ("std.bin_x", value_info(2.into()))]) },
        CommandReply::Done,
        CommandReply::Data { value: serde_json::Value::String("not an object".into()) },
        CommandReply::Data { value: object(&[("std.bin_x", value_info(1.into()))]) },
    ];
    let merged = gather(&received);
    assert_eq!(merged["ge.rebin_8x8"]["value"], false);
    assert_eq!(merged["std.bin_x"]["value"], 1);
    match reply_for(Answer::Gathered, &vec![], &vec![], "", received, Ok(())) {
        CommandReply::Data { value } => assert_eq!(value, merged),
        other => panic!("unexpected reply: {other:?}"),
    }
}

#[test]
fn test_save_config_patches_settable_values_and_skips_readonly_and_runtime_only() {
    let text = r#"
# a comment that should survive
[inputs.ge01]
type = "ge"
source = "localhost:50000"
channel_offset = 0

[process_modes]
default = "std"
std = { type = "histo_std", bin_x = 1 }
"#;
    // (key, readonly, runtime_only, value) as get-params reports them
    let reported: Vec<(&str, bool, bool, toml_edit::Value)> = vec![
        ("ge01.channel_offset", false, false, toml_edit::Value::from(5i64)),
        ("ge01.mod_types", true, false, toml_edit::Value::from("mpsd8")),
        ("std.bin_x", false, false, toml_edit::Value::from(4i64)),
        ("std.pulser", false, true, toml_edit::Value::from(true)),
    ];
    let mut updates = Vec::new();
    for (key, readonly, runtime_only, value) in reported {
        if let Some((module, param)) = saved_param(key, readonly, runtime_only, true) {
            updates.push((module, param, value));
        }
    }
    updates.push(("not_configured".to_string(), "x".to_string(), toml_edit::Value::from(1i64)));
    let saved = umami::config::patch::patch_config_text(text, updates).unwrap();
    assert!(saved.contains("a comment that should survive"));
    assert!(saved.contains("source = \"localhost:50000\""), "saved:\n{saved}");
    let doc: toml_edit::DocumentMut = saved.parse().unwrap();
    assert_eq!(doc["inputs"]["ge01"]["channel_offset"].as_integer(), Some(5));
    assert_eq!(doc["process_modes"]["std"]["bin_x"].as_integer(), Some(4));
    // readonly/runtime_only fields must not have been written
    assert!(doc["inputs"]["ge01"].get("mod_types").is_none());
    assert!(doc["process_modes"]["std"].get("pulser").is_none());
    assert!(doc.get("not_configured").is_none());
    assert!(umami::config::patch::patch_config_text("[unclosed", Vec::new()).is_err());
}

#[test]
fn start_reaches_postprocessor_before_inputs() {
    let outcomes = [
        Outcome::Sent, Outcome::Sent, Outcome::Sent,
        Outcome::Replied(ReplyKind::Error), Outcome::Replied(ReplyKind::Done),
    ];
    assert_eq!(
        drive(CommandKind::Start, 2, &[], &outcomes),
        vec![
            Action::SendPost, Action::SendInput(0), Action::SendInput(1),
            Action::Await(Party::AnyInput), Action::Await(Party::AnyInput), Action::Answer(Answer::Received(0)),
        ]
    );
    assert_eq!(answer(&drive(CommandKind::Start, 2, &[], &[Outcome::SendFailed])), Answer::Unresponsive(Party::Postprocessor));
}
