use umami::input::mesy::cmd::{check_reply, ReplyError};
use umami::input::mesy::cmd::{le_bytes, packet_words};
use umami::input::mesy::cmd::{
    aux_timer_commands, cell_commands, found_module, mcpd_version, module_commands,
    mstd_commands, mpsd_commands, pulser_command, setup_head, setup_tail, timing_command, tx_mode, Cmd,
    FoundModule, McpdCommand, McpdVersion, ModType, ModuleNote, PulserPos,
};
use umami::input::mesy::{
    default_cell_config, CellTrigger, CompareBit, CompareBitError, MesyCellConfig, MesyGain,
    MesyModuleConfig, MstdGain, PulserConfig,
};

/// (addr, chan, value) triples for every command `cmd` with three words.
fn gain_calls(plan: &[McpdCommand], cmd: Cmd) -> Vec<(u16, u16, u16)> {
    plan.iter()
        .filter(|c| c.cmd == cmd)
        .map(|c| (c.data[0], c.data[1], c.data[2]))
        .collect()
}

/// (idx, value) pairs for every command `cmd` with two words.
fn two_word_calls(plan: &[McpdCommand], cmd: Cmd) -> Vec<(u16, u16)> {
    plan.iter().filter(|c| c.cmd == cmd).map(|c| (c.data[0], c.data[1])).collect()
}

fn no_modules() -> [FoundModule; 8] {
    [FoundModule { mod_type: ModType::Empty, fw_version: (0, 0) }; 8]
}

#[test]
fn test_set_up_mstd_uses_dedicated_gain_command_with_full_channel_index_when_mstd16p() {
    let plan = mstd_commands(3, true, 42, MstdGain::Uniform(7));
    assert_eq!(gain_calls(&plan, Cmd::SetGainMstd), vec![(3, 16, 7)]);
    assert!(gain_calls(&plan, Cmd::SetGainMpsd).is_empty());
}

#[test]
fn test_set_up_mstd_falls_back_to_mpsd_gain_command_and_halves_channel_when_not_mstd16p() {
    let plan = mstd_commands(3, false, 42, MstdGain::Uniform(7));
    // 16 = all channels for MSTD-16, halved to 8 = all channels for MPSD-8
    assert_eq!(gain_calls(&plan, Cmd::SetGainMpsd), vec![(3, 8, 7)]);
    assert!(gain_calls(&plan, Cmd::SetGainMstd).is_empty());
}

#[test]
fn test_set_up_mstd_per_channel_gain_halves_only_channels_above_7_when_not_mstd16p() {
    let mut gains = [0u16; 16];
    for (i, g) in gains.iter_mut().enumerate() {
        *g = i as u16;
    }
    let plan = mstd_commands(0, false, 0, MstdGain::PerChannel(gains));
    let chans: Vec<u16> = gain_calls(&plan, Cmd::SetGainMpsd).iter().map(|&(_, chan, _)| chan).collect();
    assert_eq!(chans, vec![0, 1, 2, 3, 4, 5, 6, 7, 4, 4, 5, 5, 6, 6, 7, 7]);
}

#[test]
fn test_set_up_module_uses_mstd_gain_command_once_mcpd_firmware_reaches_9_8() {
    let cfg = MesyModuleConfig::Mstd { threshold: 1, gain: MstdGain::Uniform(5) };
    let (plan, note) = module_commands(2, ModType::Mstd16, McpdVersion { cpu: (9, 8), fpga: (0, 0) }, Some(cfg));
    assert_eq!(gain_calls(&plan, Cmd::SetGainMstd), vec![(2, 16, 5)]);
    assert_eq!(note, ModuleNote::Configured);
}

#[test]
fn test_set_up_module_falls_back_below_mcpd_firmware_9_8() {
    let cfg = MesyModuleConfig::Mstd { threshold: 1, gain: MstdGain::Uniform(5) };
    let (plan, _) = module_commands(2, ModType::Mstd16, McpdVersion { cpu: (9, 7), fpga: (0, 0) }, Some(cfg));
    assert_eq!(gain_calls(&plan, Cmd::SetGainMpsd), vec![(2, 8, 5)]);
}

#[test]
fn test_set_up_module_promoted_mstd16p_always_uses_dedicated_gain_command() {
    let cfg = MesyModuleConfig::Mstd { threshold: 1, gain: MstdGain::Uniform(5) };
    let (plan, _) = module_commands(2, ModType::Mstd16P, McpdVersion { cpu: (0, 0), fpga: (0, 0) }, Some(cfg));
    assert_eq!(gain_calls(&plan, Cmd::SetGainMstd), vec![(2, 16, 5)]);
}

#[test]
fn test_set_up_module_warns_instead_of_erroring_on_mismatched_mstd_config() {
    let cfg = MesyModuleConfig::Mpsd { threshold: 1, gain: MesyGain::Uniform(5) };
    let (plan, note) = module_commands(2, ModType::Mstd16, McpdVersion::zero(), Some(cfg));
    assert!(gain_calls(&plan, Cmd::SetGainMpsd).is_empty());
    assert!(gain_calls(&plan, Cmd::SetGainMstd).is_empty());
    assert_eq!(note, ModuleNote::WrongConfig);
}

#[test]
fn test_scan_promotes_mstd16_to_mstd16p_once_module_firmware_reaches_6_0() {
    let version = mcpd_version([1, 0, 0]); // cpu 1.0, fpga 0.0
    assert_eq!(version.cpu, (1, 0));
    let found = found_module(104, [0, 0xF, 0, 6 << 8]); // firmware 6.0
    assert_eq!(found.mod_type, ModType::Mstd16P);
    assert_eq!(found.fw_version, (6, 0));
}

#[test]
fn test_scan_keeps_mstd16_type_below_module_firmware_6_0() {
    let found = found_module(104, [0, 0xF, 0, (5 << 8) | 9]); // firmware 5.9
    assert_eq!(found.mod_type, ModType::Mstd16);
    assert_eq!(found.fw_version, (5, 9));
}

#[test]
fn test_set_up_cells_fills_unconfigured_slots_with_default_cell_config() {
    let cells = vec![(2usize, MesyCellConfig { source: CellTrigger::Aux1, compare: CompareBit::new(0).unwrap() })];
    let plan = cell_commands(&cells);
    let calls = gain_calls(&plan, Cmd::SetCell);
    assert_eq!(calls.len(), 8);
    // explicitly configured
    assert_eq!(calls[2], (2, CellTrigger::Aux1.code(), 0));
    // default for cells 0-5: compare/22 (any status bit's rising edge)
    assert_eq!(calls[0], (0, CellTrigger::Compare.code(), 22));
    assert_eq!(calls[5], (5, CellTrigger::Compare.code(), 22));
    // default for cells 6/7: none/0, not wired to the compare register
    assert_eq!(calls[6], (6, CellTrigger::Disabled.code(), 0));
    assert_eq!(calls[7], (7, CellTrigger::Disabled.code(), 0));
}

#[test]
fn test_set_up_skips_aux_timers_left_at_zero() {
    let plan = setup_tail(0, &no_modules(), &[0; 8], true, &Vec::new(), &[0, 5, 0, 9], &Vec::new(), McpdVersion::zero());
    assert_eq!(two_word_calls(&plan, Cmd::SetAuxTimer), vec![(1, 5), (3, 9)]);
    assert_eq!(two_word_calls(&aux_timer_commands(&[0, 5, 0, 9]), Cmd::SetAuxTimer), vec![(1, 5), (3, 9)]);
}

#[test]
fn compare_bit_range() {
    assert_eq!(CompareBit::new(22).unwrap().get(), 22);
    assert_eq!(CompareBit::new(23).unwrap_err(), CompareBitError(23));
    let c = default_cell_config(6);
    assert_eq!(c.source, CellTrigger::Disabled);
    assert_eq!(c.compare.get(), 0);
}

#[test]
fn mpsd_gains_and_threshold() {
    let plan = mpsd_commands(1, 30, MesyGain::Uniform(9));
    assert_eq!(gain_calls(&plan, Cmd::SetGainMpsd), vec![(1, 8, 9)]);
    assert_eq!(two_word_calls(&plan, Cmd::SetThreshold), vec![(1, 30)]);
    let plan = mpsd_commands(1, 30, MesyGain::PerChannel([1, 2, 3, 4, 5, 6, 7, 8]));
    assert_eq!(gain_calls(&plan, Cmd::SetGainMpsd).len(), 8);
    assert_eq!(gain_calls(&plan, Cmd::SetGainMpsd)[7], (1, 7, 8));
    assert_eq!(plan.last().unwrap().cmd, Cmd::SetThreshold);
}

#[test]
fn tx_mode_negotiation() {
    let mut found = no_modules();
    found[1].mod_type = ModType::Mpsd8;
    let mut caps = [0u16; 8];
    caps[1] = 0b011;
    // the module lacks amplitudes
    assert_eq!(tx_mode(0b111, &found, &caps, true), 2);
    caps[1] = 0b111;
    assert_eq!(tx_mode(0b111, &found, &caps, true), 4);
    // amplitudes not wanted
    assert_eq!(tx_mode(0b111, &found, &caps, false), 2);
    // empty slots do not count
    caps[3] = 0;
    assert_eq!(tx_mode(0b111, &found, &caps, true), 4);
    assert_eq!(tx_mode(0b001, &found, &caps, true), 1);
}

#[test]
fn timing_and_comm_pars() {
    let t = timing_command(true, false, true);
    assert_eq!((t.cmd, t.data.clone()), (Cmd::SetTiming, vec![3, 1]));
    let t = timing_command(false, false, false);
    assert_eq!(t.data, vec![0, 0]);
    let head = setup_head(Some(50000), false, true, false);
    assert_eq!(head.len(), 2);
    assert_eq!(head[0].cmd, Cmd::SetCommPars);
    assert_eq!(head[0].data.len(), 14);
    assert_eq!(head[0].data[9], 50000);
    assert_eq!(head[1].data, vec![0, 1]);
    assert_eq!(setup_head(None, false, false, false).len(), 1);
}

#[test]
fn pulser_halves_mstd_channels() {
    let cfg = PulserConfig { chan: 9, pos: PulserPos::Middle, amp: 60, on: true };
    let c = pulser_command(2, ModType::Mstd16, &cfg);
    assert_eq!(c.data, vec![2, 4, 2, 60, 1]);
    let c = pulser_command(2, ModType::Mpsd8, &cfg);
    assert_eq!(c.data, vec![2, 9, 2, 60, 1]);
}

#[test]
fn setup_tail_switches_pulsers_off() {
    let mut found = no_modules();
    found[0].mod_type = ModType::Mpsd8;
    found[4].mod_type = ModType::Mwpchr;
    let plan = setup_tail(0b111, &found, &[0b111; 8], true, &Vec::new(), &[0; 4], &Vec::new(), McpdVersion::zero());
    assert_eq!(plan[0].cmd, Cmd::SetCapabilities);
    assert_eq!(plan[0].data, vec![4]);
    let peri: Vec<_> = plan.iter().filter(|c| c.cmd == Cmd::WritePeriReg).map(|c| c.data[0]).collect();
    assert_eq!(peri, vec![0, 4]);
    let pulsers: Vec<_> = plan.iter().filter(|c| c.cmd == Cmd::SetPulser).map(|c| c.data.clone()).collect();
    assert_eq!(pulsers, vec![vec![0, 0, 0, 0, 0]]);
}

#[test]
fn command_codes() {
    assert_eq!(Cmd::GetMcpdVer.code(), 51);
    assert_eq!(Cmd::SetCommPars.reply_words(), 14);
    assert_eq!(ModType::from_u16(103), ModType::Mpsd8);
    assert_eq!(ModType::from_u16(999), ModType::Unknown);
    assert!(ModType::Mpsd8P.is_mpsd());
    assert!(!ModType::Mpsd8Old.is_mpsd());
    assert!(ModType::Mstd16P.is_mstd());
}

#[test]
fn command_packet_checksum_and_trailer() {
    let c = timing_command(true, true, false);
    let w = packet_words(&c, 5, 3);
    assert_eq!(w.len(), 10 + 2 + 1);
    assert_eq!(&w[..9], &[12, 0x8000, 10, 5, 6, 3 << 8, 0, 0, 0]);
    assert_eq!(&w[10..12], &[1, 1]);
    assert_eq!(w[12], 0xFFFF);
    // all words but the trailer XOR to zero
    let x = w[..12].iter().fold(0u16, |a, b| a ^ b);
    assert_eq!(x, 0);
    let b = le_bytes(&w);
    assert_eq!(b.len(), 26);
    assert_eq!(&b[..4], &[12, 0, 0x00, 0x80]);
}

fn reply(words: &[u16], trailer: bool) -> Vec<u8> {
    let mut b: Vec<u8> = words.iter().flat_map(|w| w.to_le_bytes()).collect();
    if trailer {
        b.extend_from_slice(&[0xFF, 0xFF]);
    }
    b.resize(64, 0);
    b
}

#[test]
fn reply_checks() {
    // SetTiming expects two data words; header length field = 12 words
    let hdr = |len: u16, typ: u16, hl: u16, serial: u16, cmd: u16, id: u16| {
        vec![len, typ, hl, serial, cmd, id << 8, 0, 0, 0, 0, 7, 8]
    };
    let good = hdr(12, 0x8000, 10, 5, 6, 3);
    let buf = reply(&good, true);
    assert_eq!(check_reply(&buf, 26, Cmd::SetTiming, 5, 3), Ok(vec![7, 8]));
    // a missing trailer is tolerated
    let buf = reply(&good, false);
    assert_eq!(check_reply(&buf, 24, Cmd::SetTiming, 5, 3), Ok(vec![7, 8]));
    let buf = reply(&hdr(12, 0x8000, 10, 6, 6, 3), true);
    assert_eq!(check_reply(&buf, 26, Cmd::SetTiming, 5, 3), Err(ReplyError::Serial { got: 6, expected: 5 }));
    let buf = reply(&hdr(12, 0x8000, 10, 5, 6 | 0x8000, 3), true);
    assert_eq!(check_reply(&buf, 26, Cmd::SetTiming, 5, 3), Err(ReplyError::CommandFailed { got: 0x8006, cmd: 6 }));
    let buf = reply(&hdr(12, 0x8000, 10, 5, 6, 4), true);
    assert_eq!(check_reply(&buf, 26, Cmd::SetTiming, 5, 3), Err(ReplyError::McpdId { got: 4, expected: 3 }));
    let buf = reply(&hdr(11, 0x8000, 10, 5, 6, 3), true);
    assert_eq!(check_reply(&buf, 26, Cmd::SetTiming, 5, 3), Err(ReplyError::LengthHeader { got: 11, expected: 12 }));
    assert_eq!(
        check_reply(&buf, 26, Cmd::SetCommPars, 5, 3),
        Err(ReplyError::WrongLength { expected: 50, got: 26 })
    );
}

#[test]
fn test_update_params_wrong_module_type_is_only_a_warning() {
    let cfg = MesyModuleConfig::Mpsd { threshold: 1, gain: MesyGain::Uniform(1) };
    let (cmds, note) = module_commands(2, ModType::Mwpchr, McpdVersion::zero(), Some(cfg));
    assert!(cmds.is_empty());
    assert_eq!(note, ModuleNote::NothingToConfigure);
    let (cmds, note) = module_commands(2, ModType::Mstd16, McpdVersion::zero(), Some(cfg));
    assert!(cmds.is_empty());
    assert_eq!(note, ModuleNote::WrongConfig);
}
