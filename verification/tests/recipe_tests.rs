use umami::event::{Event, EventFlags, EventTime, EventType};
use umami::recipe::histo::{Std, StdConfig, Tof, TofConfig};
use umami::recipe::kws::{KWSGERecipe, EXT_START, PIXEL_PER_PACK};
use umami::recipe::mesy::{EdgeMapping, Mdll, Mpsd};
use umami::recipe::canon::Psd;
use umami::recipe::{kind_for_type, lookup_recipe, NoRecipe, RecipeKind, RecipeLookupError};
use umami::recipe::tof::TofStd;

fn neutron(time_ns: i64, channel: u32) -> Event {
    Event::new(EventType::Neutron).with_channel(channel).with_abs_time(EventTime(time_ns))
}
fn edge(time_ns: i64, channel: u32, up: bool) -> Event {
    Event::new(EventType::Edge { up }).with_channel(channel).with_abs_time(EventTime(time_ns))
}
fn tzero(time_ns: i64) -> Event {
    Event::new(EventType::Tzero).with_abs_time(EventTime(time_ns))
}
fn gate(time_ns: i64, up: bool) -> Event {
    Event::new(EventType::Gate { up }).with_abs_time(EventTime(time_ns))
}
fn aux(time_ns: i64, num: u8) -> Event {
    Event::new(EventType::AuxSignal { num }).with_abs_time(EventTime(time_ns))
}
fn std_cfg(bin_x: Option<u16>, bin_y: Option<u16>, use_gate: Option<bool>) -> StdConfig {
    StdConfig { bin_x, bin_y, use_gate }
}
fn tof_default() -> TofConfig {
    TofConfig { bin_x: None, bin_y: None, use_gate: None, aux_mode: None, time_bins: None }
}
fn kws(reso_1024: bool, rebin_8x8: bool, invert_ts: bool) -> KWSGERecipe {
    KWSGERecipe { reso_1024, rebin_8x8, invert_ts }
}

#[test]
fn test_no_recipe_passthrough() {
    let mut recipe = NoRecipe::new();
    let out = recipe.process(vec![neutron(100, 1), edge(200, 2, true)]);
    assert_eq!(out.len(), 2);
    assert_eq!(out[0].evtype, EventType::Neutron);
    assert_eq!(out[1].evtype, EventType::Edge { up: true });
}

#[test]
fn test_std_passthrough_default() {
    let mut recipe = Std::new(std_cfg(None, None, None));
    let out = recipe.process(vec![neutron(100, 1), neutron(200, 2)]);
    assert_eq!(out.len(), 2);
    assert_eq!(out[0].channel.0, 1);
    assert_eq!(out[1].channel.0, 2);
}

#[test]
fn test_std_binning() {
    let mut recipe = Std::new(std_cfg(Some(2), Some(3), None));
    let mut ev = neutron(100, 1);
    ev.histo.x = 7;
    ev.histo.y = 8;
    let out = recipe.process(vec![ev]);
    assert_eq!(out[0].histo.x, 3);
    assert_eq!(out[0].histo.y, 2);
}

#[test]
fn test_std_gate_filtering_off() {
    let mut recipe = Std::new(std_cfg(None, None, Some(false)));
    let out = recipe.process(vec![gate(50, true), neutron(100, 1)]);
    assert_eq!(out.len(), 2);
    assert_eq!(out[0].evtype, EventType::Gate { up: true });
    assert_eq!(out[1].evtype, EventType::Neutron);
}

#[test]
fn test_std_gate_filtering_on_before_gate() {
    let mut recipe = Std::new(std_cfg(None, None, Some(true)));
    let out = recipe.process(vec![neutron(100, 1)]);
    assert_eq!(out[0].evtype, EventType::Void);
}

#[test]
fn test_std_gate_filtering_on_after_gate_up() {
    let mut recipe = Std::new(std_cfg(None, None, Some(true)));
    let out = recipe.process(vec![gate(50, true), neutron(100, 1), gate(150, false), neutron(200, 2)]);
    assert_eq!(out[0].evtype, EventType::Gate { up: true });
    assert_eq!(out[1].evtype, EventType::Neutron);
    assert_eq!(out[2].evtype, EventType::Gate { up: false });
    assert_eq!(out[3].evtype, EventType::Void);
}

#[test]
fn test_tof_basic() {
    let mut recipe = Tof::new(tof_default());
    let out = recipe.process_checked(vec![tzero(0), neutron(500, 1)]).unwrap();
    assert_eq!(out[0].evtype, EventType::Tzero);
    assert_eq!(out[1].evtype, EventType::Neutron);
    assert_eq!(out[1].rel_time, EventTime(500));
    assert!(out[1].flags.contains(EventFlags::HasRelTime));
}

#[test]
fn test_tof_gate_filtering() {
    let mut recipe = Tof::new(TofConfig { use_gate: Some(true), ..tof_default() });
    let out = recipe
        .process_checked(vec![tzero(0), gate(100, true), neutron(200, 1), gate(300, false), neutron(400, 2)])
        .unwrap();
    assert_eq!(out[1].evtype, EventType::Gate { up: true });
    assert_eq!(out[2].evtype, EventType::Neutron);
    assert_eq!(out[3].evtype, EventType::Gate { up: false });
    assert_eq!(out[4].evtype, EventType::Void);
}

#[test]
fn test_tof_aux_mode() {
    let mut recipe = Tof::new(TofConfig { aux_mode: Some(2), ..tof_default() });
    let out = recipe.process_checked(vec![aux(100, 1), aux(200, 2), neutron(300, 1)]).unwrap();
    assert_eq!(out[2].rel_time, EventTime(100));
}

#[test]
fn test_tof_neutron_before_any_tzero_is_voided() {
    let mut recipe = Tof::new(tof_default());
    let out = recipe.process_checked(vec![neutron(999_999_999_999, 1)]).unwrap();
    assert_eq!(out[0].evtype, EventType::Void);
}

#[test]
fn test_tof_start_forgets_stale_t0_until_a_fresh_one_arrives() {
    let mut recipe = Tof::new(tof_default());
    let out = recipe.process_checked(vec![tzero(1000), neutron(1100, 1)]).unwrap();
    assert_eq!(out[1].rel_time, EventTime(100));
    recipe.start_of_run();
    let out = recipe.process_checked(vec![neutron(999_999_999_999, 2)]).unwrap();
    assert_eq!(out[0].evtype, EventType::Void);
    let out = recipe.process_checked(vec![tzero(2000), neutron(2050, 3)]).unwrap();
    assert_eq!(out[1].rel_time, EventTime(50));
}

#[test]
fn test_tof_binning() {
    let mut recipe = Tof::new(TofConfig { bin_x: Some(2), bin_y: Some(4), ..tof_default() });
    let mut ev = neutron(100, 1);
    ev.histo.x = 10;
    ev.histo.y = 15;
    let out = recipe.process_checked(vec![tzero(0), ev]).unwrap();
    assert_eq!(out[1].histo.x, 5);
    assert_eq!(out[1].histo.y, 3);
}

#[test]
fn test_tof_time_bins() {
    let bins = vec![EventTime(1000), EventTime(2000), EventTime(i64::MAX)];
    let mut recipe = Tof::new(TofConfig { time_bins: Some(bins), ..tof_default() });
    let out = recipe
        .process_checked(vec![tzero(0), neutron(500, 1), neutron(1500, 2), neutron(2500, 3)])
        .unwrap();
    assert_eq!(out[1].histo.t, 0);
    assert_eq!(out[2].histo.t, 1);
    assert_eq!(out[3].histo.t, 2);
}

#[test]
fn test_tof_time_bins_set_at_runtime_without_max_sentinel() {
    let mut recipe = Tof::new(tof_default());
    recipe.set_time_bins(vec![EventTime(1000), EventTime(2000)]);
    let out = recipe
        .process_checked(vec![tzero(0), neutron(500, 1), neutron(1500, 2), neutron(999_999, 3)])
        .unwrap();
    assert_eq!(out[1].histo.t, 0);
    assert_eq!(out[2].histo.t, 1);
    assert_eq!(out[3].histo.t, 2);
}

#[test]
fn test_tof_existing_rel_time_preserved() {
    let mut recipe = Tof::new(tof_default());
    let mut ev = neutron(100, 1);
    ev.rel_time = EventTime(999);
    ev.flags.set(EventFlags::HasRelTime);
    let out = recipe.process_checked(vec![tzero(0), ev]).unwrap();
    assert_eq!(out[1].rel_time, EventTime(999));
}

#[test]
fn test_tof_overflowing_rel_time_is_refused_without_change() {
    let mut recipe = Tof::new(tof_default());
    assert!(recipe.process_checked(vec![tzero(i64::MIN), neutron(i64::MAX, 1)]).is_none());
    // state unchanged: still no T0 known
    let out = recipe.process_checked(vec![neutron(5, 1)]).unwrap();
    assert_eq!(out[0].evtype, EventType::Void);
}

#[test]
fn test_normalize_time_bins_appends_max_once() {
    let v = Tof::normalize_time_bins(vec![EventTime(5)]);
    assert_eq!(v, vec![EventTime(5), EventTime(i64::MAX)]);
    let v = Tof::normalize_time_bins(v);
    assert_eq!(v.len(), 2);
    assert_eq!(Tof::normalize_time_bins(vec![]), vec![EventTime(i64::MAX)]);
}

#[test]
fn test_tof_std_rel_time() {
    let mut r = TofStd::new();
    let out = r.process_checked(vec![tzero(100), neutron(150, 1)]).unwrap();
    assert_eq!(out[1].rel_time, EventTime(50));
    assert_eq!(r.last_t0, EventTime(100));
}

#[test]
fn test_kws_neutron_full_tube_region() {
    let out = kws(false, false, false).process(vec![neutron(100, 6 * PIXEL_PER_PACK)]);
    assert_eq!(out[0].histo.x, 48);
    assert_eq!(out[0].histo.y, 0);
}

#[test]
fn test_kws_neutron_full_tube_nonzero() {
    let out = kws(false, false, false).process(vec![neutron(100, 6 * PIXEL_PER_PACK + 256)]);
    assert_eq!(out[0].histo.x, 49);
    assert_eq!(out[0].histo.y, 0);
}

#[test]
fn test_kws_neutron_small_tube_region() {
    let out = kws(false, false, false).process(vec![neutron(100, 2 * PIXEL_PER_PACK)]);
    assert_eq!(out[0].histo.x, 16);
    assert_eq!(out[0].histo.y, 81);
}

#[test]
fn test_kws_neutron_middle_tube_region() {
    let out = kws(false, false, false).process(vec![neutron(100, 4 * PIXEL_PER_PACK)]);
    assert_eq!(out[0].histo.x, 32);
    assert_eq!(out[0].histo.y, 25);
}

#[test]
fn test_kws_neutron_reso_1024() {
    let out = kws(true, false, false).process(vec![neutron(100, 6 * PIXEL_PER_PACK + 512)]);
    assert_eq!(out[0].histo.x, 48);
    assert_eq!(out[0].histo.y, 128);
}

#[test]
fn test_kws_neutron_rebin_8x8() {
    let out = kws(false, true, false).process(vec![neutron(100, 6 * PIXEL_PER_PACK + 100)]);
    assert_eq!(out[0].histo.x, 48);
    assert_eq!(out[0].histo.y, 114);
}

#[test]
fn test_kws_edge_to_tzero_ch3() {
    let out = kws(false, false, false).process(vec![edge(100, 3, true)]);
    assert_eq!(out[0].evtype, EventType::Tzero);
}

#[test]
fn test_kws_edge_unmatched_channel_unchanged() {
    let out = kws(false, false, false).process(vec![edge(100, 5, true)]);
    assert!(matches!(out[0].evtype, EventType::Edge { up: true }));
}

#[test]
fn test_kws_edge_to_gate() {
    let out = kws(false, false, false).process(vec![edge(100, 0, true)]);
    assert_eq!(out[0].evtype, EventType::Gate { up: true });
}

#[test]
fn test_kws_edge_to_tzero_ch1() {
    let out = kws(false, false, false).process(vec![edge(100, 1, true)]);
    assert_eq!(out[0].evtype, EventType::Tzero);
}

#[test]
fn test_kws_edge_to_aux_ch2() {
    let out = kws(false, false, false).process(vec![edge(100, 2, true)]);
    assert_eq!(out[0].evtype, EventType::AuxSignal { num: EXT_START });
}

#[test]
fn test_kws_edge_no_match_down() {
    let out = kws(false, false, false).process(vec![edge(100, 1, false)]);
    assert!(matches!(out[0].evtype, EventType::Edge { up: false }));
}

#[test]
fn test_kws_invert_ts() {
    let out = kws(false, false, true).process(vec![edge(100, 1, false)]);
    assert_eq!(out[0].evtype, EventType::Tzero);
}

#[test]
fn test_mdll_neutron_sets_zero() {
    let mut ev = neutron(100, 1);
    ev.histo.x = 5;
    ev.histo.y = 6;
    let out = Mdll {}.process(vec![ev]);
    assert_eq!(out[0].histo.x, 0);
    assert_eq!(out[0].histo.y, 0);
}

#[test]
fn test_mdll_edge_mapping() {
    let out = Mdll {}.process(vec![edge(100, 1, true), edge(200, 1, false)]);
    assert_eq!(out[0].evtype, EventType::Tzero);
    assert_eq!(out[1].evtype, EventType::Edge { up: false });
}

#[test]
fn test_mpsd_channel_bit_manipulation() {
    let mut r = Mpsd { inputs: vec![], y_mask: false };
    // channel 0b1_0101 -> x = (0b1010 & 0xFFF8) | 0b101 = 0b1101
    let out = r.process(vec![neutron(100, 0b1_0101)]);
    assert_eq!(out[0].histo.x, 0b1101);
}

#[test]
fn test_mpsd_amplitude_to_y() {
    let mut r = Mpsd { inputs: vec![], y_mask: false };
    let out = r.process(vec![neutron(100, 0).with_raw(500, 0)]);
    assert_eq!(out[0].histo.y, 500);
}

#[test]
fn test_mpsd_y_mask_voids_zero_and_overflow() {
    let mut r = Mpsd { inputs: vec![], y_mask: true };
    let out = r.process(vec![neutron(1, 0).with_raw(0, 0), neutron(2, 0).with_raw(961, 0), neutron(3, 0).with_raw(960, 0)]);
    assert_eq!(out[0].evtype, EventType::Void);
    assert_eq!(out[1].evtype, EventType::Void);
    assert_eq!(out[2].evtype, EventType::Neutron);
}

#[test]
fn test_mpsd_input_mapping() {
    let mut r = Mpsd {
        inputs: vec![(1, EdgeMapping::Tzero), (2, EdgeMapping::Monitor(3)), (4, EdgeMapping::Aux(7))],
        y_mask: false,
    };
    let out = r.process(vec![edge(1, 1, true), edge(2, 2, true), edge(3, 4, true), edge(4, 5, true), edge(5, 1, false)]);
    assert_eq!(out[0].evtype, EventType::Tzero);
    assert_eq!(out[1].evtype, EventType::Monitor { num: 3 });
    assert_eq!(out[2].evtype, EventType::AuxSignal { num: 7 });
    assert_eq!(out[3].evtype, EventType::Edge { up: true });
    assert_eq!(out[4].evtype, EventType::Edge { up: false });
}

#[test]
fn test_mpsd_expr_aliases_match_channel_bit_layout() {
    let r = Mpsd { inputs: vec![], y_mask: false };
    let names: Vec<String> = r.expr_aliases().iter().map(|a| a.name.clone()).collect();
    assert_eq!(names, ["mesy_slot", "mesy_mod", "mesy_mcpd"]);
}

#[test]
fn test_mpsd_y_mask_disabled_by_default() {
    let mut r = Mpsd { inputs: vec![], y_mask: false };
    let ev = Event::new(EventType::Neutron).with_raw(0, 0);
    let out = r.process(vec![ev]);
    assert_eq!(out[0].evtype, EventType::Neutron);
}

#[test]
fn test_mpsd_unmapped_input_is_left_alone() {
    for up in [true, false] {
        let mut r = Mpsd { inputs: vec![], y_mask: false };
        let ev = Event::new(EventType::Edge { up }).with_channel(5).with_abs_time(EventTime(100));
        let out = r.process(vec![ev]);
        assert_eq!(out[0].evtype, EventType::Edge { up }, "up={up}");
    }
}

/// The Y position of a Canon PSD neutron: the right end's share of the two
/// pulse heights, scaled to `reso` pixels.
fn psd_y(ev: &Event, reso: usize) -> u16 {
    let (pl, pr) = ev.raw;
    (f64::from(pr) / f64::from(pr + pl) * reso as f64) as u16
}

#[test]
fn test_psd_neutron_binning() {
    let recipe = Psd { reso: 256 };
    let ev = Event::new(EventType::Neutron).with_channel(42).with_raw(100, 300);
    let out = recipe.cook(ev, psd_y(&ev, 256));
    assert_eq!(out.histo.x, 42);
    assert_eq!(out.histo.y, 192);
    let ev = Event::new(EventType::Neutron).with_channel(0).with_raw(50, 50);
    let out = recipe.cook(ev, psd_y(&ev, 256));
    assert_eq!(out.histo.y, 128);
}

#[test]
fn test_psd_edge_mapping() {
    for (up, expected) in [(true, EventType::Tzero), (false, EventType::Edge { up: false })] {
        let recipe = Psd { reso: 256 };
        let ev = edge(100, 5, up);
        let out = recipe.cook(ev, psd_y(&ev, 256));
        assert_eq!(out.evtype, expected, "up={up}");
    }
}

#[test]
fn test_postproc_switching_to_tof_mode_mid_run_does_not_use_stale_t0() {
    let mut state = umami::postproc::PostState::new(vec!["std".to_string(), "tof".to_string()], "std").unwrap();
    let mut recipes = (Std::new(StdConfig { bin_x: None, bin_y: None, use_gate: None }), Tof::new(tof_default()));
    let _ = recipes.0.process(vec![tzero(1000)]);
    assert!(state.set_mode("tof").is_ok());
    assert_eq!(state.current, 1);
    let out = recipes.1.process_checked(vec![neutron(999_999_999_999, 1)]).unwrap();
    assert_eq!(out[0].evtype, EventType::Void);
}

#[test]
fn tof_batch_keeps_count_times_and_markers() {
    let mut recipe = Tof::new(tof_default());
    let evs = vec![neutron(50, 1), gate(60, true), tzero(100), edge(130, 2, true), neutron(150, 3)];
    let out = recipe.process_checked(evs.clone()).unwrap();
    assert_eq!(out.len(), evs.len());
    for (o, e) in out.iter().zip(&evs) {
        assert_eq!(o.time, e.time);
        assert_eq!(o.channel, e.channel);
    }
    assert_eq!(out[0].evtype, EventType::Void);
    for k in [1, 2] {
        assert_eq!(out[k].evtype, evs[k].evtype);
        assert_eq!(out[k].rel_time, evs[k].rel_time);
        assert_eq!(out[k].flags, evs[k].flags);
    }
    assert_eq!(out[3].evtype, evs[3].evtype);
    assert_eq!(out[3].rel_time, EventTime(30));
    assert_eq!(out[4].evtype, EventType::Neutron);
    assert_eq!(out[4].rel_time, EventTime(50));
}

#[test]
fn histo_recipe_params_can_be_changed() {
    let mut std = Std::new(std_cfg(Some(2), None, None));
    assert_eq!(std.params(), (2, 1, false));
    assert!(!std.set_bins(0, 4));
    assert_eq!(std.params(), (2, 1, false));
    assert!(std.set_bins(4, 2));
    std.set_use_gate(true);
    assert_eq!(std.params(), (4, 2, true));

    let mut tof = Tof::new(tof_default());
    assert_eq!(tof.params(), (1, 1, false, None));
    assert_eq!(tof.time_bins(), vec![EventTime(i64::MAX)]);
    assert!(tof.set_params(2, 2, true, Some(1)));
    assert_eq!(tof.params(), (2, 2, true, Some(1)));
    assert!(!tof.set_params(0, 2, false, None));
    assert_eq!(tof.params(), (2, 2, true, Some(1)));
    tof.set_time_bins(vec![EventTime(100), EventTime(200)]);
    assert_eq!(tof.time_bins(), vec![EventTime(100), EventTime(200), EventTime(i64::MAX)]);
}

#[test]
fn tof_event_processing_per_event() {
    let mut recipe = Tof::new(tof_default());
    let mut with_rel = neutron(500, 4);
    with_rel.rel_time = EventTime(7);
    with_rel.flags = EventFlags::HasRelTime;
    let out = recipe.process_checked(vec![tzero(100), neutron(150, 3), with_rel]).unwrap();
    assert_eq!(out[1].rel_time, EventTime(50));
    assert!(out[1].flags.contains(EventFlags::HasRelTime));
    assert_eq!(out[2].rel_time, EventTime(7));
    assert_eq!(out[2].evtype, EventType::Neutron);
}

fn recipe_map(name: &str, kind: &str) -> Vec<(String, String)> {
    vec![(name.to_string(), kind.to_string())]
}

#[test]
fn test_from_config_none() {
    let map = recipe_map("test", "none");
    let kind = lookup_recipe(&map, "test").unwrap();
    assert_eq!(kind, RecipeKind::Null);
    let mut r = NoRecipe::new();
    let out = r.process(vec![neutron(100, 1)]);
    assert_eq!(out.len(), 1);
}

#[test]
fn test_from_config_not_found() {
    let map: Vec<(String, String)> = Vec::new();
    match lookup_recipe(&map, "missing") {
        Ok(_) => panic!("expected error"),
        Err(e) => assert!(e.message().contains("not found")),
    }
}

#[test]
fn test_from_config_unknown_type() {
    let map = recipe_map("test", "bogus");
    match lookup_recipe(&map, "test") {
        Ok(_) => panic!("expected error"),
        Err(e) => assert!(e.message().contains("Unknown recipe type")),
    }
}

#[test]
fn test_from_config_dispatches_to_recipe_type() {
    let cases = [
        ("histo_std", RecipeKind::HistoStd),
        ("histo_tof", RecipeKind::HistoTof),
        ("mesy_mpsd", RecipeKind::MesyMpsd),
        ("mesy_mdll", RecipeKind::MesyMdll),
        ("kws_gedet", RecipeKind::KwsGe),
        ("canon", RecipeKind::Canon),
        ("jumiom", RecipeKind::Jumiom),
    ];
    for (kind_name, kind) in cases {
        let map = recipe_map("test", kind_name);
        let found = lookup_recipe(&map, "test").unwrap_or_else(|e| panic!("building recipe {kind_name}: {}", e.message()));
        assert_eq!(found, kind, "recipe {kind_name}");
    }
}

#[test]
fn recipe_lookup_messages_and_names() {
    let map = vec![("a".to_string(), "histo_std".to_string()), ("b".to_string(), "nope".to_string())];
    assert_eq!(lookup_recipe(&map, "a"), Ok(RecipeKind::HistoStd));
    assert_eq!(lookup_recipe(&map, "b"), Err(RecipeLookupError::UnknownType("nope".to_string())));
    assert_eq!(lookup_recipe(&map, "c").unwrap_err().message(), "Recipe c not found");
    assert_eq!(lookup_recipe(&map, "b").unwrap_err().message(), "Unknown recipe type: nope");
    for kind in [RecipeKind::Null, RecipeKind::HistoStd, RecipeKind::HistoTof, RecipeKind::MesyMpsd,
                 RecipeKind::MesyMdll, RecipeKind::Canon, RecipeKind::KwsGe, RecipeKind::Jumiom, RecipeKind::TofStd] {
        assert_eq!(kind_for_type(kind.config_name()), Some(kind));
    }
    assert_eq!(RecipeKind::KwsGe.config_name(), "kws_ge");
    assert_eq!(kind_for_type("kws_gedet"), Some(RecipeKind::KwsGe));
    assert_eq!(kind_for_type(""), None);
}
