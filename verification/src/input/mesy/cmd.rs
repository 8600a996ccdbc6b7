//! The MCPD's command protocol, as plans: each set-up step is a list of
//! commands (command id and 16-bit data words) that the caller sends in
//! order.  What the MCPD answers to a scan is turned into module types and
//! versions here too.

use vstd::prelude::*;
use crate::bytes::{le16, read_u16_le};
use super::{CellTrigger, MesyCellConfig, default_cell_config, MesyGain, MesyModuleConfig, MstdGain, PulserConfig};

verus! {

// Transmission mode bits (capability and mode register): which fields the
// event stream carries.  A capability register is a bitmask of which of
// these are supported.
/// Position only.
pub const TX_P: u16 = 1;
/// Time and position.
pub const TX_TP: u16 = 2;
/// Time, position and amplitude.
pub const TX_TPA: u16 = 4;

pub const RESET_DATA_PORT: u16 = 54321;
pub const HEADER_WORDS: u16 = 10;
pub const BUFFERTYPE: u16 = 0x8000;
pub const ERROR_FLAG: u16 = 0x8000;

/// The MCPD commands used.
#[derive(Debug, Clone, Copy, PartialEq, Eq, Structural)]
pub enum Cmd {
    Reset,
    Start,
    Stop,
    SetCommPars,
    SetTiming,
    SetCell,
    SetAuxTimer,
    SetGainMpsd,
    SetThreshold,
    SetPulser,
    GetCapabilities,
    SetCapabilities,
    GetModInfo,
    SetGainMstd,
    ReadIds,
    GetMcpdVer,
    WritePeriReg,
}

impl Cmd {
    pub open spec fn spec_code(self) -> u16 {
        match self {
            Cmd::Reset => 0,
            Cmd::Start => 1,
            Cmd::Stop => 2,
            Cmd::SetCommPars => 5,
            Cmd::SetTiming => 6,
            Cmd::SetCell => 9,
            Cmd::SetAuxTimer => 10,
            Cmd::SetGainMpsd => 13,
            Cmd::SetThreshold => 14,
            Cmd::SetPulser => 15,
            Cmd::GetCapabilities => 22,
            Cmd::SetCapabilities => 23,
            Cmd::GetModInfo => 24,
            Cmd::SetGainMstd => 26,
            Cmd::ReadIds => 36,
            Cmd::GetMcpdVer => 51,
            Cmd::WritePeriReg => 53,
        }
    }

    /// The command's id on the wire.
    pub fn code(self) -> (c: u16)
        ensures
            c == self.spec_code(),
    {
        match self {
            Cmd::Reset => 0,
            Cmd::Start => 1,
            Cmd::Stop => 2,
            Cmd::SetCommPars => 5,
            Cmd::SetTiming => 6,
            Cmd::SetCell => 9,
            Cmd::SetAuxTimer => 10,
            Cmd::SetGainMpsd => 13,
            Cmd::SetThreshold => 14,
            Cmd::SetPulser => 15,
            Cmd::GetCapabilities => 22,
            Cmd::SetCapabilities => 23,
            Cmd::GetModInfo => 24,
            Cmd::SetGainMstd => 26,
            Cmd::ReadIds => 36,
            Cmd::GetMcpdVer => 51,
            Cmd::WritePeriReg => 53,
        }
    }

    pub open spec fn spec_reply_words(self) -> usize {
        match self {
            Cmd::Reset | Cmd::Start | Cmd::Stop => 0,
            Cmd::SetCommPars => 14,
            Cmd::SetTiming | Cmd::SetAuxTimer | Cmd::SetThreshold | Cmd::GetCapabilities => 2,
            Cmd::SetCell | Cmd::SetGainMpsd | Cmd::SetGainMstd | Cmd::WritePeriReg
            | Cmd::GetMcpdVer => 3,
            Cmd::SetPulser => 5,
            Cmd::SetCapabilities => 1,
            Cmd::GetModInfo => 4,
            Cmd::ReadIds => 8,
        }
    }

    /// Number of data words in the MCPD's reply to the command.
    pub fn reply_words(self) -> (n: usize)
        ensures
            n == self.spec_reply_words(),
    {
        match self {
            Cmd::Reset | Cmd::Start | Cmd::Stop => 0,
            Cmd::SetCommPars => 14,
            Cmd::SetTiming | Cmd::SetAuxTimer | Cmd::SetThreshold | Cmd::GetCapabilities => 2,
            Cmd::SetCell | Cmd::SetGainMpsd | Cmd::SetGainMstd | Cmd::WritePeriReg
            | Cmd::GetMcpdVer => 3,
            Cmd::SetPulser => 5,
            Cmd::SetCapabilities => 1,
            Cmd::GetModInfo => 4,
            Cmd::ReadIds => 8,
        }
    }
}

/// Type of the module in an MCPD slot.
#[derive(Debug, Clone, Copy, PartialEq, Eq, Structural)]
pub enum ModType {
    /// No module in the slot.
    Empty,
    Mpsd8Old,
    Mcpd8,
    Mdll,
    Mpsd8SADC,
    Mpsd8,
    Mstd16,
    Mpsd8P,
    /// Multi wire proportional chamber, high resolution.
    Mwpchr,
    /// MSTD-16 with firmware 6.0 or later.
    Mstd16P,
    /// MDLL with newer firmware.
    MdllP,
    Unknown,
}

impl ModType {
    pub open spec fn spec_from_u16(v: u16) -> ModType {
        if v == 0 {
            ModType::Empty
        } else if v == 1 {
            ModType::Mpsd8Old
        } else if v == 2 {
            ModType::Mcpd8
        } else if v == 35 {
            ModType::Mdll
        } else if v == 102 {
            ModType::Mpsd8SADC
        } else if v == 103 {
            ModType::Mpsd8
        } else if v == 104 {
            ModType::Mstd16
        } else if v == 105 {
            ModType::Mpsd8P
        } else if v == 110 {
            ModType::Mwpchr
        } else if v == 204 {
            ModType::Mstd16P
        } else if v == 235 {
            ModType::MdllP
        } else {
            ModType::Unknown
        }
    }

    /// The type with the given id; ids not listed are `Unknown`.
    pub fn from_u16(v: u16) -> (t: ModType)
        ensures
            t == ModType::spec_from_u16(v),
    {
        if v == 0 {
            ModType::Empty
        } else if v == 1 {
            ModType::Mpsd8Old
        } else if v == 2 {
            ModType::Mcpd8
        } else if v == 35 {
            ModType::Mdll
        } else if v == 102 {
            ModType::Mpsd8SADC
        } else if v == 103 {
            ModType::Mpsd8
        } else if v == 104 {
            ModType::Mstd16
        } else if v == 105 {
            ModType::Mpsd8P
        } else if v == 110 {
            ModType::Mwpchr
        } else if v == 204 {
            ModType::Mstd16P
        } else if v == 235 {
            ModType::MdllP
        } else {
            ModType::Unknown
        }
    }

    pub open spec fn spec_is_mpsd(self) -> bool {
        self == ModType::Mpsd8SADC || self == ModType::Mpsd8 || self == ModType::Mpsd8P
    }

    pub open spec fn spec_is_mstd(self) -> bool {
        self == ModType::Mstd16 || self == ModType::Mstd16P
    }

    /// Whether the module is a supported MPSD (the old MPSD-8 is not).
    pub fn is_mpsd(&self) -> (r: bool)
        ensures
            r == self.spec_is_mpsd(),
    {
        match self {
            ModType::Mpsd8SADC | ModType::Mpsd8 | ModType::Mpsd8P => true,
            _ => false,
        }
    }

    pub fn is_mstd(&self) -> (r: bool)
        ensures
            r == self.spec_is_mstd(),
    {
        match self {
            ModType::Mstd16 | ModType::Mstd16P => true,
            _ => false,
        }
    }
}

/// Position of an injected test pulse relative to the module's channel
/// strip.
#[derive(Debug, Clone, Copy, PartialEq, Eq, Structural)]
pub enum PulserPos {
    Left,
    Right,
    Middle,
}

impl PulserPos {
    pub open spec fn spec_code(self) -> u16 {
        match self {
            PulserPos::Left => 0,
            PulserPos::Right => 1,
            PulserPos::Middle => 2,
        }
    }

    pub fn code(self) -> (c: u16)
        ensures
            c == self.spec_code(),
    {
        match self {
            PulserPos::Left => 0,
            PulserPos::Right => 1,
            PulserPos::Middle => 2,
        }
    }
}

/// What was discovered about one MCPD slot during a scan.
#[derive(Debug, Clone, Copy, PartialEq, Eq)]
pub struct FoundModule {
    pub mod_type: ModType,
    /// (major, minor); zero for an empty slot.
    pub fw_version: (u8, u8),
}

/// MCPD firmware versions, each (major, minor).
#[derive(Debug, Clone, Copy, PartialEq, Eq)]
pub struct McpdVersion {
    pub cpu: (u8, u8),
    pub fpga: (u8, u8),
}

impl McpdVersion {
    pub fn zero() -> (v: McpdVersion)
        ensures
            v == (McpdVersion { cpu: (0, 0), fpga: (0, 0) }),
    {
        McpdVersion { cpu: (0, 0), fpga: (0, 0) }
    }
}

/// `(major, minor) >= (maj, min)` in version order.
pub open spec fn version_at_least(v: (u8, u8), maj: u8, min: u8) -> bool {
    v.0 > maj || (v.0 == maj && v.1 >= min)
}

fn at_least(v: (u8, u8), maj: u8, min: u8) -> (r: bool)
    ensures
        r == version_at_least(v, maj, min),
{
    v.0 > maj || (v.0 == maj && v.1 >= min)
}

/// The MCPD's version from the three words of its version reply.
pub open spec fn spec_mcpd_version(w: Seq<u16>) -> McpdVersion {
    McpdVersion {
        cpu: (w[0] as u8, w[1] as u8),
        fpga: ((w[2] >> 8u16) as u8, (w[2] & 0xffu16) as u8),
    }
}

pub fn mcpd_version(w: [u16; 3]) -> (v: McpdVersion)
    ensures
        v == spec_mcpd_version(w@),
{
    McpdVersion {
        cpu: (#[verifier::truncate] (w[0] as u8), #[verifier::truncate] (w[1] as u8)),
        fpga: (#[verifier::truncate] ((w[2] >> 8) as u8), #[verifier::truncate] ((w[2] & 0xff) as u8)),
    }
}

/// Whether a slot with this id holds a module whose info must be asked.
pub fn needs_mod_info(mod_id: u16) -> (r: bool)
    ensures
        r == (mod_id != 0),
{
    mod_id != 0
}

/// The module found in a slot with id `mod_id`, given the four words of
/// its info reply (unused for an empty slot).  An MSTD-16 whose firmware
/// has reached 6.0 is the newer variant.
pub open spec fn spec_found_module(mod_id: u16, info: Seq<u16>) -> FoundModule {
    if mod_id == 0 {
        FoundModule { mod_type: ModType::spec_from_u16(mod_id), fw_version: (0, 0) }
    } else {
        let fw = ((info[3] >> 8u16) as u8, (info[3] & 0xffu16) as u8);
        let t = ModType::spec_from_u16(mod_id);
        FoundModule {
            mod_type: if t == ModType::Mstd16 && version_at_least(fw, 6, 0) {
                ModType::Mstd16P
            } else {
                t
            },
            fw_version: fw,
        }
    }
}

pub fn found_module(mod_id: u16, info: [u16; 4]) -> (m: FoundModule)
    ensures
        m == spec_found_module(mod_id, info@),
{
    let t = ModType::from_u16(mod_id);
    if mod_id == 0 {
        return FoundModule { mod_type: t, fw_version: (0, 0) };
    }
    let fw: (u8, u8) = (#[verifier::truncate] ((info[3] >> 8) as u8), #[verifier::truncate] ((info[3] & 0xff) as u8));
    if t == ModType::Mstd16 && at_least(fw, 6, 0) {
        FoundModule { mod_type: ModType::Mstd16P, fw_version: fw }
    } else {
        FoundModule { mod_type: t, fw_version: fw }
    }
}

/// The transmission capabilities of a scanned slot: those of its info
/// reply, zero for an empty slot.
pub fn slot_caps(mod_id: u16, info: [u16; 4]) -> (c: u16)
    ensures
        c == (if mod_id == 0 { 0 } else { info@[1] }),
{
    if mod_id == 0 {
        0
    } else {
        info[1]
    }
}

/// One command: its id and data words.
pub struct McpdCommand {
    pub cmd: Cmd,
    pub data: Vec<u16>,
}

impl View for McpdCommand {
    type V = (Cmd, Seq<u16>);

    open spec fn view(&self) -> (Cmd, Seq<u16>) {
        (self.cmd, self.data@)
    }
}

/// A plan as (command, data) pairs.
pub open spec fn plan_view(s: Seq<McpdCommand>) -> Seq<(Cmd, Seq<u16>)> {
    s.map_values(|c: McpdCommand| c@)
}

fn push_cmd(plan: &mut Vec<McpdCommand>, cmd: Cmd, data: Vec<u16>)
    ensures
        plan_view(final(plan)@) == plan_view(old(plan)@).push((cmd, data@)),
{
    let ghost d = data@;
    plan.push(McpdCommand { cmd, data });
    assert(plan_view(plan@) =~= plan_view(old(plan)@).push((cmd, d)));
}

fn words2(a: u16, b: u16) -> (v: Vec<u16>)
    ensures
        v@ == seq![a, b],
{
    let mut v: Vec<u16> = Vec::new();
    v.push(a);
    v.push(b);
    v
}

fn words3(a: u16, b: u16, c: u16) -> (v: Vec<u16>)
    ensures
        v@ == seq![a, b, c],
{
    let mut v = words2(a, b);
    v.push(c);
    v
}

/// The cell set-up of a cell not configured: cells 0-5 count any status
/// bit's rising edge (compare bit 22), cells 6 and 7 count nothing.
pub open spec fn spec_default_cell(i: int) -> (CellTrigger, u16) {
    if i < 6 {
        (CellTrigger::Compare, 22)
    } else {
        (CellTrigger::Disabled, 0)
    }
}

/// The configuration given for index `i` in a list of (index, value)
/// pairs: the first pair with that index.
pub open spec fn lookup<T>(s: Seq<(usize, T)>, i: usize) -> Option<T>
    decreases s.len(),
{
    if s.len() == 0 {
        None
    } else if s[0].0 == i {
        Some(s[0].1)
    } else {
        lookup(s.drop_first(), i)
    }
}

proof fn lemma_lookup_skip<T>(s: Seq<(usize, T)>, j: int, i: usize)
    requires
        0 <= j < s.len(),
        s[j].0 != i,
    ensures
        lookup(s.skip(j), i) == lookup(s.skip(j + 1), i),
{
    assert(s.skip(j).drop_first() =~= s.skip(j + 1));
}

fn find_cell(cells: &Vec<(usize, MesyCellConfig)>, i: usize) -> (r: Option<MesyCellConfig>)
    ensures
        r == lookup(cells@, i),
{
    let mut j: usize = 0;
    proof {
        assert(cells@.skip(0) =~= cells@);
    }
    while j < cells.len()
        invariant
            j <= cells@.len(),
            lookup(cells@, i) == lookup(cells@.skip(j as int), i),
        decreases cells@.len() - j,
    {
        if cells[j].0 == i {
            return Some(cells[j].1);
        }
        proof {
            lemma_lookup_skip(cells@, j as int, i);
        }
        j = j + 1;
    }
    None
}

/// The command that sets up one cell.
pub open spec fn cell_cmd(idx: usize, source: CellTrigger, compare: u16) -> (Cmd, Seq<u16>) {
    (Cmd::SetCell, seq![idx as u16, source.spec_code(), compare])
}

/// Sets up one cell.
pub fn cell_command(idx: usize, cfg: &MesyCellConfig) -> (c: McpdCommand)
    ensures
        c@ == cell_cmd(idx, cfg.source, cfg.compare.value()),
{
    McpdCommand {
        cmd: Cmd::SetCell,
        data: words3(#[verifier::truncate] (idx as u16), cfg.source.code(), cfg.compare.get()),
    }
}

/// The cell set-up of cell `i`: as configured, else the default.
pub open spec fn cell_setting(cells: Seq<(usize, MesyCellConfig)>, i: int) -> (CellTrigger, u16) {
    match lookup(cells, i as usize) {
        Some(c) => (c.source, c.compare.value()),
        None => spec_default_cell(i),
    }
}

/// All eight cells, each as configured or else by default.
pub open spec fn cells_plan(cells: Seq<(usize, MesyCellConfig)>) -> Seq<(Cmd, Seq<u16>)> {
    Seq::new(
        8,
        |i: int| cell_cmd(i as usize, cell_setting(cells, i).0, cell_setting(cells, i).1),
    )
}

pub fn cell_commands(cells: &Vec<(usize, MesyCellConfig)>) -> (plan: Vec<McpdCommand>)
    ensures
        plan_view(plan@) == cells_plan(cells@),
{
    let mut plan: Vec<McpdCommand> = Vec::new();
    let mut i: usize = 0;
    while i < 8
        invariant
            i <= 8,
            plan_view(plan@) == cells_plan(cells@).subrange(0, i as int),
        decreases 8 - i,
    {
        let cfg = match find_cell(cells, i) {
            Some(c) => c,
            None => default_cell_config(i),
        };
        let c = cell_command(i, &cfg);
        let ghost before = plan@;
        plan.push(c);
        proof {
            assert(plan_view(plan@) =~= plan_view(before).push(c@));
            assert(cells_plan(cells@).subrange(0, i + 1) =~= cells_plan(cells@).subrange(
                0,
                i as int,
            ).push(cells_plan(cells@)[i as int]));
        }
        i = i + 1;
    }
    proof {
        assert(cells_plan(cells@).subrange(0, 8) =~= cells_plan(cells@));
    }
    plan
}

/// Sync-bus role, termination and external sync; a master is always
/// terminated.
pub open spec fn timing_cmd(master: bool, terminate: bool, ext_sync: bool) -> (Cmd, Seq<u16>) {
    (
        Cmd::SetTiming,
        seq![
            ((if master { 1u16 } else { 0u16 }) + 2 * (if ext_sync { 1u16 } else { 0u16 })) as u16,
            if master || terminate { 1u16 } else { 0u16 },
        ],
    )
}

pub fn timing_command(master: bool, terminate: bool, ext_sync: bool) -> (c: McpdCommand)
    ensures
        c@ == timing_cmd(master, terminate, ext_sync),
{
    let term = master || terminate;
    let m: u16 = if master { 1 } else { 0 };
    let e: u16 = if ext_sync { 1 } else { 0 };
    McpdCommand { cmd: Cmd::SetTiming, data: words2(m + 2 * e, if term { 1 } else { 0 }) }
}

/// Points the MCPD's data at `data_port` of this host (all addresses zero
/// meaning "unchanged" or "the sender").
pub open spec fn comm_pars_cmd(data_port: u16) -> (Cmd, Seq<u16>) {
    (Cmd::SetCommPars, Seq::new(14, |i: int| if i == 9 { data_port } else { 0u16 }))
}

pub fn comm_pars_command(data_port: u16) -> (c: McpdCommand)
    ensures
        c@ == comm_pars_cmd(data_port),
{
    let mut data: Vec<u16> = Vec::new();
    let mut i: usize = 0;
    while i < 14
        invariant
            i <= 14,
            data@ == Seq::new(i as nat, |k: int| if k == 9 { data_port } else { 0u16 }),
        decreases 14 - i,
    {
        data.push(if i == 9 { data_port } else { 0 });
        proof {
            assert(data@ =~= Seq::new((i + 1) as nat, |k: int| if k == 9 { data_port } else { 0u16 }));
        }
        i = i + 1;
    }
    McpdCommand { cmd: Cmd::SetCommPars, data }
}

/// Points the MCPD's data back at the factory default port.
pub fn default_reset_command() -> (c: McpdCommand)
    ensures
        c@ == comm_pars_cmd(RESET_DATA_PORT),
{
    comm_pars_command(RESET_DATA_PORT)
}

/// Starts acquisition: a reset, then a start.
pub fn start_commands() -> (plan: Vec<McpdCommand>)
    ensures
        plan_view(plan@) == seq![(Cmd::Reset, Seq::<u16>::empty()), (Cmd::Start, Seq::<u16>::empty())],
{
    let mut plan: Vec<McpdCommand> = Vec::new();
    push_cmd(&mut plan, Cmd::Reset, Vec::new());
    push_cmd(&mut plan, Cmd::Start, Vec::new());
    plan
}

pub fn stop_command() -> (c: McpdCommand)
    ensures
        c@ == (Cmd::Stop, Seq::<u16>::empty()),
{
    McpdCommand { cmd: Cmd::Stop, data: Vec::new() }
}

/// The capabilities common to the MCPD (`mcpd_cap`) and the present
/// modules among the first `k` slots.
pub open spec fn common_caps(mcpd_cap: u16, found: Seq<FoundModule>, caps: Seq<u16>, k: int) -> u16
    decreases k,
{
    if k <= 0 {
        mcpd_cap
    } else if found[k - 1].mod_type != ModType::Empty {
        common_caps(mcpd_cap, found, caps, k - 1) & caps[k - 1]
    } else {
        common_caps(mcpd_cap, found, caps, k - 1)
    }
}

/// The transmission mode for common capabilities `cap`: the richest one
/// supported, capped at time and position unless amplitudes are wanted.
pub open spec fn choose_mode(cap: u16, transmit_ampl: bool) -> u16 {
    let c = if transmit_ampl { cap } else { cap & (TX_P | TX_TP) };
    if c & TX_TPA != 0 {
        TX_TPA
    } else if c & TX_TP != 0 {
        TX_TP
    } else {
        TX_P
    }
}

/// The transmission mode negotiated with the MCPD and its present modules.
pub fn tx_mode(mcpd_cap: u16, found: &[FoundModule; 8], caps: &[u16; 8], transmit_ampl: bool) -> (mode: u16)
    ensures
        mode == choose_mode(common_caps(mcpd_cap, found@, caps@, 8), transmit_ampl),
{
    let mut cap = mcpd_cap;
    let mut i: usize = 0;
    while i < 8
        invariant
            i <= 8,
            cap == common_caps(mcpd_cap, found@, caps@, i as int),
        decreases 8 - i,
    {
        if found[i].mod_type != ModType::Empty {
            cap = cap & caps[i];
        }
        i = i + 1;
    }
    if !transmit_ampl {
        cap = cap & (TX_P | TX_TP);
    }
    if cap & TX_TPA != 0 {
        TX_TPA
    } else if cap & TX_TP != 0 {
        TX_TP
    } else {
        TX_P
    }
}

proof fn lemma_common_bit(mcpd_cap: u16, found: Seq<FoundModule>, caps: Seq<u16>, k: int, m: u16)
    requires
        0 <= k <= found.len(),
        k <= caps.len(),
        m == TX_TP || m == TX_TPA,
    ensures
        (common_caps(mcpd_cap, found, caps, k) & m != 0) <==> (mcpd_cap & m != 0 && forall|i: int|
            0 <= i < k && found[i].mod_type != ModType::Empty ==> #[trigger] caps[i] & m != 0),
    decreases k,
{
    if k > 0 {
        lemma_common_bit(mcpd_cap, found, caps, k - 1, m);
        let c = common_caps(mcpd_cap, found, caps, k - 1);
        let d = caps[k - 1];
        assert((c & d) & m != 0 <==> (c & m != 0 && d & m != 0)) by (bit_vector)
            requires
                m == 2u16 || m == 4u16,
        ;
    }
}

/// Whether the MCPD and every present module support mode bit `m`.
pub open spec fn all_support(mcpd_cap: u16, found: Seq<FoundModule>, caps: Seq<u16>, m: u16) -> bool {
    mcpd_cap & m != 0 && forall|i: int|
        0 <= i < 8 && found[i].mod_type != ModType::Empty ==> #[trigger] caps[i] & m != 0
}

/// The negotiated transmission mode is one of the three; one richer than
/// position-only is supported by the MCPD and by every present module;
/// amplitudes come only when wanted; and the richest mode that all of them
/// support (amplitudes only when wanted) is the one chosen.
pub proof fn law_tx_mode_supported(mcpd_cap: u16, found: Seq<FoundModule>, caps: Seq<u16>, transmit_ampl: bool)
    requires
        found.len() == 8,
        caps.len() == 8,
    ensures
        ({
            let mode = choose_mode(common_caps(mcpd_cap, found, caps, 8), transmit_ampl);
            &&& mode == TX_P || mode == TX_TP || mode == TX_TPA
            &&& mode != TX_P ==> all_support(mcpd_cap, found, caps, mode)
            &&& mode == TX_TPA ==> transmit_ampl
            &&& (transmit_ampl && all_support(mcpd_cap, found, caps, TX_TPA)) ==> mode == TX_TPA
            &&& all_support(mcpd_cap, found, caps, TX_TP) && !(transmit_ampl && all_support(
                mcpd_cap,
                found,
                caps,
                TX_TPA,
            )) ==> mode == TX_TP
        }),
{
    lemma_common_bit(mcpd_cap, found, caps, 8, TX_TP);
    lemma_common_bit(mcpd_cap, found, caps, 8, TX_TPA);
    let c = common_caps(mcpd_cap, found, caps, 8);
    assert((TX_P | TX_TP) == 3u16) by (bit_vector);
    assert((c & 3u16) & 4u16 == 0 && ((c & 3u16) & 2u16 != 0 <==> c & 2u16 != 0)) by (bit_vector);
}

/// Writes the mode to the module registers of the present modules among
/// the first `k` slots.
pub open spec fn peri_plan(mode: u16, found: Seq<FoundModule>, k: int) -> Seq<(Cmd, Seq<u16>)>
    decreases k,
{
    if k <= 0 {
        seq![]
    } else if found[k - 1].mod_type != ModType::Empty {
        peri_plan(mode, found, k - 1).push((Cmd::WritePeriReg, seq![(k - 1) as u16, 1u16, mode]))
    } else {
        peri_plan(mode, found, k - 1)
    }
}

/// Sets the transmission mode MCPD-wide and in each present module.
pub open spec fn tx_mode_plan(mode: u16, found: Seq<FoundModule>) -> Seq<(Cmd, Seq<u16>)> {
    seq![(Cmd::SetCapabilities, seq![mode])] + peri_plan(mode, found, 8)
}

pub fn tx_mode_commands(mode: u16, found: &[FoundModule; 8]) -> (plan: Vec<McpdCommand>)
    ensures
        plan_view(plan@) == tx_mode_plan(mode, found@),
{
    let mut plan: Vec<McpdCommand> = Vec::new();
    let mut d: Vec<u16> = Vec::new();
    d.push(mode);
    push_cmd(&mut plan, Cmd::SetCapabilities, d);
    let mut i: usize = 0;
    while i < 8
        invariant
            i <= 8,
            plan_view(plan@) == seq![(Cmd::SetCapabilities, seq![mode])] + peri_plan(mode, found@, i as int),
        decreases 8 - i,
    {
        if found[i].mod_type != ModType::Empty {
            push_cmd(&mut plan, Cmd::WritePeriReg, words3(i as u16, 1, mode));
        }
        i = i + 1;
    }
    plan
}

/// Sets the non-zero auxiliary timers among the first `k`.
pub open spec fn aux_plan(timers: Seq<u16>, k: int) -> Seq<(Cmd, Seq<u16>)>
    decreases k,
{
    if k <= 0 {
        seq![]
    } else if timers[k - 1] != 0 {
        aux_plan(timers, k - 1).push((Cmd::SetAuxTimer, seq![(k - 1) as u16, timers[k - 1]]))
    } else {
        aux_plan(timers, k - 1)
    }
}

pub fn aux_timer_commands(timers: &[u16; 4]) -> (plan: Vec<McpdCommand>)
    ensures
        plan_view(plan@) == aux_plan(timers@, 4),
{
    let mut plan: Vec<McpdCommand> = Vec::new();
    let mut i: usize = 0;
    while i < 4
        invariant
            i <= 4,
            plan_view(plan@) == aux_plan(timers@, i as int),
        decreases 4 - i,
    {
        if timers[i] != 0 {
            push_cmd(&mut plan, Cmd::SetAuxTimer, words2(i as u16, timers[i]));
        }
        i = i + 1;
    }
    plan
}

/// Gains (all channels: channel 8) and threshold of an MPSD.
pub open spec fn mpsd_plan(idx: usize, threshold: u16, gain: MesyGain) -> Seq<(Cmd, Seq<u16>)> {
    let num = idx as u16;
    (match gain {
        MesyGain::Uniform(g) => seq![(Cmd::SetGainMpsd, seq![num, 8u16, g])],
        MesyGain::PerChannel(gs) => Seq::new(
            8,
            |c: int| (Cmd::SetGainMpsd, seq![num, c as u16, gs@[c]]),
        ),
    }) + seq![(Cmd::SetThreshold, seq![num, threshold])]
}

/// The channel number sent for MSTD channel `c`: without the dedicated
/// MSTD command, channels are addressed in pairs, so numbers above 7
/// (including 16, all channels) are halved.
pub open spec fn mstd_chan(mstd16p: bool, c: u16) -> u16 {
    if !mstd16p && c > 7 {
        c / 2
    } else {
        c
    }
}

/// Gains (all channels: channel 16) and threshold of an MSTD-16, with the
/// dedicated gain command on the newer variant and the MPSD one otherwise.
pub open spec fn mstd_plan(idx: usize, mstd16p: bool, threshold: u16, gain: MstdGain) -> Seq<(Cmd, Seq<u16>)> {
    let num = idx as u16;
    let gain_cmd = if mstd16p { Cmd::SetGainMstd } else { Cmd::SetGainMpsd };
    (match gain {
        MstdGain::Uniform(g) => seq![(gain_cmd, seq![num, mstd_chan(mstd16p, 16), g])],
        MstdGain::PerChannel(gs) => Seq::new(
            16,
            |c: int| (gain_cmd, seq![num, mstd_chan(mstd16p, c as u16), gs@[c]]),
        ),
    }) + seq![(Cmd::SetThreshold, seq![num, threshold])]
}

fn mstd_chan_exec(mstd16p: bool, c: u16) -> (r: u16)
    ensures
        r == mstd_chan(mstd16p, c),
{
    if !mstd16p && c > 7 {
        c / 2
    } else {
        c
    }
}

pub fn mpsd_commands(idx: usize, threshold: u16, gain: MesyGain) -> (plan: Vec<McpdCommand>)
    ensures
        plan_view(plan@) == mpsd_plan(idx, threshold, gain),
{
    let num: u16 = #[verifier::truncate] (idx as u16);
    let mut plan: Vec<McpdCommand> = Vec::new();
    match gain {
        MesyGain::Uniform(g) => {
            push_cmd(&mut plan, Cmd::SetGainMpsd, words3(num, 8, g));
        },
        MesyGain::PerChannel(gs) => {
            let mut c: usize = 0;
            while c < 8
                invariant
                    c <= 8,
                    plan_view(plan@) == Seq::new(
                        c as nat,
                        |k: int| (Cmd::SetGainMpsd, seq![num, k as u16, gs@[k]]),
                    ),
                decreases 8 - c,
            {
                push_cmd(&mut plan, Cmd::SetGainMpsd, words3(num, c as u16, gs[c]));
                proof {
                    assert(plan_view(plan@) =~= Seq::new(
                        (c + 1) as nat,
                        |k: int| (Cmd::SetGainMpsd, seq![num, k as u16, gs@[k]]),
                    ));
                }
                c = c + 1;
            }
        },
    }
    let ghost gains = plan_view(plan@);
    push_cmd(&mut plan, Cmd::SetThreshold, words2(num, threshold));
    proof {
        assert(plan_view(plan@) =~= gains + seq![(Cmd::SetThreshold, seq![num, threshold])]);
    }
    plan
}

pub fn mstd_commands(idx: usize, mstd16p: bool, threshold: u16, gain: MstdGain) -> (plan: Vec<McpdCommand>)
    ensures
        plan_view(plan@) == mstd_plan(idx, mstd16p, threshold, gain),
{
    let num: u16 = #[verifier::truncate] (idx as u16);
    let gain_cmd = if mstd16p { Cmd::SetGainMstd } else { Cmd::SetGainMpsd };
    let mut plan: Vec<McpdCommand> = Vec::new();
    match gain {
        MstdGain::Uniform(g) => {
            push_cmd(&mut plan, gain_cmd, words3(num, mstd_chan_exec(mstd16p, 16), g));
        },
        MstdGain::PerChannel(gs) => {
            let mut c: usize = 0;
            while c < 16
                invariant
                    c <= 16,
                    gain_cmd == (if mstd16p { Cmd::SetGainMstd } else { Cmd::SetGainMpsd }),
                    plan_view(plan@) == Seq::new(
                        c as nat,
                        |k: int| (gain_cmd, seq![num, mstd_chan(mstd16p, k as u16), gs@[k]]),
                    ),
                decreases 16 - c,
            {
                push_cmd(&mut plan, gain_cmd, words3(num, mstd_chan_exec(mstd16p, c as u16), gs[c]));
                proof {
                    assert(plan_view(plan@) =~= Seq::new(
                        (c + 1) as nat,
                        |k: int| (gain_cmd, seq![num, mstd_chan(mstd16p, k as u16), gs@[k]]),
                    ));
                }
                c = c + 1;
            }
        },
    }
    let ghost gains = plan_view(plan@);
    push_cmd(&mut plan, Cmd::SetThreshold, words2(num, threshold));
    proof {
        assert(plan_view(plan@) =~= gains + seq![(Cmd::SetThreshold, seq![num, threshold])]);
    }
    plan
}

/// What setting up one module amounted to, besides its commands.
#[derive(Debug, Clone, Copy, PartialEq, Eq, Structural)]
pub enum ModuleNote {
    /// Threshold and gain were set.
    Configured,
    /// The configuration given is for another kind of module.
    WrongConfig,
    /// No configuration was given for a configurable module.
    NoConfig,
    /// The module needs no configuration.
    NothingToConfigure,
    /// The module type cannot be configured.
    Unsupported,
}

/// Whether an MSTD gets the dedicated gain command: the newer variant
/// always, the older one once the MCPD's CPU firmware reaches 9.8.
pub open spec fn uses_mstd_gain(modtype: ModType, version: McpdVersion) -> bool {
    modtype == ModType::Mstd16P || version_at_least(version.cpu, 9, 8)
}

/// The commands and note of setting up the module in slot `idx`.
pub open spec fn module_plan(idx: usize, modtype: ModType, version: McpdVersion, cfg: Option<MesyModuleConfig>) -> (Seq<(Cmd, Seq<u16>)>, ModuleNote) {
    if modtype.spec_is_mpsd() {
        match cfg {
            Some(MesyModuleConfig::Mpsd { threshold, gain }) => (mpsd_plan(idx, threshold, gain), ModuleNote::Configured),
            Some(_) => (seq![], ModuleNote::WrongConfig),
            None => (seq![], ModuleNote::NoConfig),
        }
    } else if modtype.spec_is_mstd() {
        match cfg {
            Some(MesyModuleConfig::Mstd { threshold, gain }) => (
                mstd_plan(idx, uses_mstd_gain(modtype, version), threshold, gain),
                ModuleNote::Configured,
            ),
            Some(_) => (seq![], ModuleNote::WrongConfig),
            None => (seq![], ModuleNote::NoConfig),
        }
    } else if modtype == ModType::Mwpchr {
        (seq![], ModuleNote::NothingToConfigure)
    } else {
        (seq![], ModuleNote::Unsupported)
    }
}

/// Sets up threshold and gain of the module in slot `idx`, if it is a
/// configurable MPSD or MSTD and its configuration is of its kind.
pub fn module_commands(idx: usize, modtype: ModType, version: McpdVersion, cfg: Option<MesyModuleConfig>) -> (r: (Vec<McpdCommand>, ModuleNote))
    ensures
        (plan_view(r.0@), r.1) == module_plan(idx, modtype, version, cfg),
{
    if modtype.is_mpsd() {
        match cfg {
            Some(MesyModuleConfig::Mpsd { threshold, gain }) => (mpsd_commands(idx, threshold, gain), ModuleNote::Configured),
            Some(_) => (Vec::new(), ModuleNote::WrongConfig),
            None => (Vec::new(), ModuleNote::NoConfig),
        }
    } else if modtype.is_mstd() {
        match cfg {
            Some(MesyModuleConfig::Mstd { threshold, gain }) => {
                let mstd16p = modtype == ModType::Mstd16P || at_least(version.cpu, 9, 8);
                (mstd_commands(idx, mstd16p, threshold, gain), ModuleNote::Configured)
            },
            Some(_) => (Vec::new(), ModuleNote::WrongConfig),
            None => (Vec::new(), ModuleNote::NoConfig),
        }
    } else if modtype == ModType::Mwpchr {
        (Vec::new(), ModuleNote::NothingToConfigure)
    } else {
        (Vec::new(), ModuleNote::Unsupported)
    }
}

/// The test-pulse command for a module; MSTD channels are addressed in
/// pairs, so their channel number is halved.
pub open spec fn pulser_cmd(module: usize, modtype: ModType, cfg: PulserConfig) -> (Cmd, Seq<u16>) {
    (
        Cmd::SetPulser,
        seq![
            module as u16,
            if modtype.spec_is_mstd() { (cfg.chan / 2) as u16 } else { cfg.chan },
            cfg.pos.spec_code(),
            cfg.amp,
            if cfg.on { 1u16 } else { 0u16 },
        ],
    )
}

pub fn pulser_command(module: usize, modtype: ModType, cfg: &PulserConfig) -> (c: McpdCommand)
    ensures
        c@ == pulser_cmd(module, modtype, *cfg),
{
    let chan = if modtype.is_mstd() { cfg.chan / 2 } else { cfg.chan };
    let mut data = words3(#[verifier::truncate] (module as u16), chan, cfg.pos.code());
    data.push(cfg.amp);
    data.push(if cfg.on { 1 } else { 0 });
    McpdCommand { cmd: Cmd::SetPulser, data }
}

/// Sets up the present modules among the first `k` slots, with the
/// configuration given for each.
pub open spec fn modules_plan(modules: Seq<(usize, MesyModuleConfig)>, found: Seq<FoundModule>, version: McpdVersion, k: int) -> Seq<(Cmd, Seq<u16>)>
    decreases k,
{
    if k <= 0 {
        seq![]
    } else if found[k - 1].mod_type != ModType::Empty {
        modules_plan(modules, found, version, k - 1) + module_plan(
            (k - 1) as usize,
            found[k - 1].mod_type,
            version,
            lookup(modules, (k - 1) as usize),
        ).0
    } else {
        modules_plan(modules, found, version, k - 1)
    }
}

/// Switches off the pulser of every MPSD and MSTD among the first `k`
/// slots.
pub open spec fn pulser_off_plan(found: Seq<FoundModule>, k: int) -> Seq<(Cmd, Seq<u16>)>
    decreases k,
{
    if k <= 0 {
        seq![]
    } else if found[k - 1].mod_type.spec_is_mpsd() || found[k - 1].mod_type.spec_is_mstd() {
        pulser_off_plan(found, k - 1).push(
            pulser_cmd(
                (k - 1) as usize,
                found[k - 1].mod_type,
                PulserConfig { chan: 0, pos: PulserPos::Left, amp: 0, on: false },
            ),
        )
    } else {
        pulser_off_plan(found, k - 1)
    }
}

fn append(plan: &mut Vec<McpdCommand>, more: Vec<McpdCommand>)
    ensures
        plan_view(final(plan)@) == plan_view(old(plan)@) + plan_view(more@),
{
    let mut more = more;
    let ghost m = more@;
    plan.append(&mut more);
    assert(plan_view(plan@) =~= plan_view(old(plan)@) + plan_view(m));
}

fn find_module(modules: &Vec<(usize, MesyModuleConfig)>, i: usize) -> (r: Option<MesyModuleConfig>)
    ensures
        r == lookup(modules@, i),
{
    let mut j: usize = 0;
    proof {
        assert(modules@.skip(0) =~= modules@);
    }
    while j < modules.len()
        invariant
            j <= modules@.len(),
            lookup(modules@, i) == lookup(modules@.skip(j as int), i),
        decreases modules@.len() - j,
    {
        if modules[j].0 == i {
            return Some(modules[j].1);
        }
        proof {
            lemma_lookup_skip(modules@, j as int, i);
        }
        j = j + 1;
    }
    None
}

/// The first part of setting up an MCPD (after stopping it): its data
/// port, if it sends to this host over the network, and its timing.
pub open spec fn setup_head_plan(data_port: Option<u16>, master: bool, terminate: bool, ext_sync: bool) -> Seq<(Cmd, Seq<u16>)> {
    (match data_port {
        Some(p) => seq![comm_pars_cmd(p)],
        None => seq![],
    }).push(timing_cmd(master, terminate, ext_sync))
}

pub fn setup_head(data_port: Option<u16>, master: bool, terminate: bool, ext_sync: bool) -> (plan: Vec<McpdCommand>)
    ensures
        plan_view(plan@) == setup_head_plan(data_port, master, terminate, ext_sync),
{
    let mut plan: Vec<McpdCommand> = Vec::new();
    match data_port {
        Some(p) => {
            let c = comm_pars_command(p);
            plan.push(c);
            assert(plan_view(plan@) =~= seq![comm_pars_cmd(p)]);
        },
        None => {
            assert(plan_view(plan@) =~= seq![]);
        },
    }
    let t = timing_command(master, terminate, ext_sync);
    let ghost before = plan@;
    plan.push(t);
    assert(plan_view(plan@) =~= plan_view(before).push(t@));
    plan
}

/// The rest of setting up an MCPD, once its capabilities `mcpd_cap` are
/// known: the negotiated transmission mode, the cells, the auxiliary
/// timers, each present module, and the pulsers switched off.
pub open spec fn setup_tail_plan(
    mcpd_cap: u16,
    found: Seq<FoundModule>,
    caps: Seq<u16>,
    transmit_ampl: bool,
    cells: Seq<(usize, MesyCellConfig)>,
    timers: Seq<u16>,
    modules: Seq<(usize, MesyModuleConfig)>,
    version: McpdVersion,
) -> Seq<(Cmd, Seq<u16>)> {
    tx_mode_plan(choose_mode(common_caps(mcpd_cap, found, caps, 8), transmit_ampl), found)
        + cells_plan(cells) + aux_plan(timers, 4) + modules_plan(modules, found, version, 8)
        + pulser_off_plan(found, 8)
}

pub fn setup_tail(
    mcpd_cap: u16,
    found: &[FoundModule; 8],
    caps: &[u16; 8],
    transmit_ampl: bool,
    cells: &Vec<(usize, MesyCellConfig)>,
    timers: &[u16; 4],
    modules: &Vec<(usize, MesyModuleConfig)>,
    version: McpdVersion,
) -> (plan: Vec<McpdCommand>)
    ensures
        plan_view(plan@) == setup_tail_plan(mcpd_cap, found@, caps@, transmit_ampl, cells@, timers@, modules@, version),
{
    let mode = tx_mode(mcpd_cap, found, caps, transmit_ampl);
    let mut plan = tx_mode_commands(mode, found);
    append(&mut plan, cell_commands(cells));
    append(&mut plan, aux_timer_commands(timers));
    let ghost head = plan_view(plan@);
    let mut i: usize = 0;
    while i < 8
        invariant
            i <= 8,
            plan_view(plan@) == head + modules_plan(modules@, found@, version, i as int),
        decreases 8 - i,
    {
        if found[i].mod_type != ModType::Empty {
            let (cmds, _note) = module_commands(i, found[i].mod_type, version, find_module(modules, i));
            append(&mut plan, cmds);
            proof {
                assert(head + modules_plan(modules@, found@, version, i + 1) =~= head + modules_plan(
                    modules@,
                    found@,
                    version,
                    i as int,
                ) + module_plan(i, found@[i as int].mod_type, version, lookup(modules@, i)).0);
            }
        }
        i = i + 1;
    }
    let ghost mid = plan_view(plan@);
    let off = PulserConfig::off();
    let mut j: usize = 0;
    while j < 8
        invariant
            j <= 8,
            off == (PulserConfig { chan: 0, pos: PulserPos::Left, amp: 0, on: false }),
            plan_view(plan@) == mid + pulser_off_plan(found@, j as int),
        decreases 8 - j,
    {
        if found[j].mod_type.is_mpsd() || found[j].mod_type.is_mstd() {
            let c = pulser_command(j, found[j].mod_type, &off);
            let ghost before = plan@;
            plan.push(c);
            proof {
                assert(plan_view(plan@) =~= plan_view(before).push(c@));
            }
        }
        j = j + 1;
    }
    plan
}


/// XOR of the words `w[0..k]`.
pub open spec fn xor_words(w: Seq<u16>, k: int) -> u16
    decreases k,
{
    if k <= 0 {
        0
    } else {
        xor_words(w, k - 1) ^ w[k - 1]
    }
}

/// The words of a command packet before its checksum is filled in: the
/// header (buffer length in words, buffer type, header length, serial
/// number, command id, status and MCPD id, three timestamp words, checksum)
/// and the data, with a zero trailer.
pub open spec fn unsummed_packet(cmd_id: u16, data: Seq<u16>, serial: u16, mcpd_id: u8) -> Seq<u16> {
    seq![
        (HEADER_WORDS + data.len()) as u16,
        BUFFERTYPE,
        HEADER_WORDS,
        serial,
        cmd_id,
        ((mcpd_id as u16) << 8u16) as u16,
        0u16,
        0u16,
        0u16,
        0u16,
    ] + data + seq![0u16]
}

/// A command packet as words: the checksum is the XOR of all words with
/// checksum and trailer zero, and the trailer is 0xFFFF.
pub open spec fn command_packet(cmd_id: u16, data: Seq<u16>, serial: u16, mcpd_id: u8) -> Seq<u16> {
    let w = unsummed_packet(cmd_id, data, serial, mcpd_id);
    w.update(9, xor_words(w, w.len() as int)).update(w.len() - 1, 0xFFFFu16)
}

proof fn lemma_xor_update(w: Seq<u16>, j: int, v: u16, n: int)
    requires
        0 <= j < n <= w.len(),
    ensures
        xor_words(w.update(j, v), n) == xor_words(w, n) ^ w[j] ^ v,
    decreases n,
{
    let a = xor_words(w, n - 1);
    if j == n - 1 {
        assert(xor_words(w.update(j, v), n - 1) == a) by {
            lemma_xor_prefix_same(w, w.update(j, v), n - 1);
        }
        let x = w[j];
        assert(a ^ v == (a ^ x) ^ x ^ v) by (bit_vector);
    } else {
        lemma_xor_update(w, j, v, n - 1);
        let b = xor_words(w.update(j, v), n - 1);
        let x = w[j];
        let y = w[n - 1];
        assert(b == a ^ x ^ v);
        assert((a ^ x ^ v) ^ y == (a ^ y) ^ x ^ v) by (bit_vector);
    }
}

proof fn lemma_xor_prefix_same(w: Seq<u16>, u: Seq<u16>, n: int)
    requires
        0 <= n <= w.len(),
        n <= u.len(),
        forall|i: int| 0 <= i < n ==> w[i] == u[i],
    ensures
        xor_words(w, n) == xor_words(u, n),
    decreases n,
{
    if n > 0 {
        lemma_xor_prefix_same(w, u, n - 1);
    }
}

/// The checksum makes the XOR of all words of a command packet zero,
/// counting the trailer as zero.
pub proof fn law_checksum_cancels(cmd_id: u16, data: Seq<u16>, serial: u16, mcpd_id: u8)
    ensures
        ({
            let p = command_packet(cmd_id, data, serial, mcpd_id);
            xor_words(p.update(p.len() - 1, 0u16), p.len() as int) == 0
        }),
{
    let w = unsummed_packet(cmd_id, data, serial, mcpd_id);
    let n = w.len() as int;
    let s = xor_words(w, n);
    let p = command_packet(cmd_id, data, serial, mcpd_id);
    assert(p.update(n - 1, 0u16) =~= w.update(9, s));
    lemma_xor_update(w, 9, s, n);
    assert(w[9] == 0);
    assert(s ^ 0u16 ^ s == 0) by (bit_vector);
}

/// The words of the packet that sends `c` with serial number `serial` to
/// MCPD `mcpd_id`.
pub fn packet_words(c: &McpdCommand, serial: u16, mcpd_id: u8) -> (w: Vec<u16>)
    requires
        c.data@.len() + HEADER_WORDS <= u16::MAX,
    ensures
        w@ == command_packet(c.cmd.spec_code(), c.data@, serial, mcpd_id),
{
    let n = c.data.len();
    let ghost target = unsummed_packet(c.cmd.spec_code(), c.data@, serial, mcpd_id);
    let mut w: Vec<u16> = Vec::new();
    w.push(HEADER_WORDS + n as u16);
    w.push(BUFFERTYPE);
    w.push(HEADER_WORDS);
    w.push(serial);
    w.push(c.cmd.code());
    w.push((mcpd_id as u16) << 8);
    w.push(0);
    w.push(0);
    w.push(0);
    w.push(0);
    let mut i: usize = 0;
    while i < n
        invariant
            n == c.data@.len(),
            i <= n,
            w@ == target.subrange(0, 10 + i as int),
            target == unsummed_packet(c.cmd.spec_code(), c.data@, serial, mcpd_id),
        decreases n - i,
    {
        w.push(c.data[i]);
        proof {
            assert(target.subrange(0, 10 + i + 1) =~= target.subrange(0, 10 + i as int).push(c.data@[i as int]));
        }
        i = i + 1;
    }
    w.push(0);
    assert(w@ =~= target);
    let mut sum: u16 = 0;
    let mut k: usize = 0;
    while k < w.len()
        invariant
            w@ == target,
            k <= w@.len(),
            sum == xor_words(target, k as int),
        decreases w@.len() - k,
    {
        sum = sum ^ w[k];
        k = k + 1;
    }
    w.set(9, sum);
    let last = w.len() - 1;
    w.set(last, 0xFFFF);
    w
}

/// The little-endian bytes of `w`.
pub fn le_bytes(w: &Vec<u16>) -> (b: Vec<u8>)
    ensures
        b@.len() == 2 * w@.len(),
        forall|i: int| 0 <= i < w@.len() ==> le16(b@, 2 * i) == w@[i],
{
    let mut b: Vec<u8> = Vec::new();
    let mut i: usize = 0;
    while i < w.len()
        invariant
            i <= w@.len(),
            b@.len() == 2 * i,
            forall|j: int| 0 <= j < i ==> le16(b@, 2 * j) == w@[j],
        decreases w@.len() - i,
    {
        let x = w[i];
        let lo = (x & 0xff) as u8;
        let hi = (x >> 8) as u8;
        assert(lo + 256 * hi == x) by (bit_vector)
            requires
                lo == (x & 0xff) as u8,
                hi == (x >> 8) as u8,
        ;
        let ghost before = b@;
        b.push(lo);
        b.push(hi);
        proof {
            assert forall|j: int| 0 <= j < i + 1 implies le16(b@, 2 * j) == w@[j] by {
                if j < i {
                    assert(b@[2 * j] == before[2 * j] && b@[2 * j + 1] == before[2 * j + 1]);
                }
            }
        }
        i = i + 1;
    }
    b
}

/// Why the MCPD's reply to a command is refused.
#[derive(Debug, Clone, Copy, PartialEq, Eq, Structural)]
pub enum ReplyError {
    /// Fewer bytes than a reply with the expected data holds.
    WrongLength { expected: usize, got: usize },
    /// The length field disagrees with the bytes received.
    LengthHeader { got: u16, expected: usize },
    BufferType { got: u16 },
    HeaderLength { got: u16 },
    Serial { got: u16, expected: u16 },
    /// The MCPD reports that the command failed.
    CommandFailed { got: u16, cmd: u16 },
    CommandId { got: u16, expected: u16 },
    McpdId { got: u8, expected: u8 },
}

/// Bytes received, counting a trailer that some MCPDs leave out.
pub open spec fn reply_len(b: Seq<u8>, nrecv: int) -> int {
    if b[nrecv - 2] == 0xFF && b[nrecv - 1] == 0xFF {
        nrecv
    } else {
        nrecv + 2
    }
}

/// Whether a reply buffer can be checked without reading past its end.
pub open spec fn reply_readable(b: Seq<u8>, nrecv: int) -> bool {
    2 <= nrecv <= b.len() && reply_len(b, nrecv) <= b.len()
}

/// The verdict on a reply of `nrecv` bytes in `b` to a command with id
/// `cmd_id`, serial number `serial` to MCPD `mcpd_id`, expecting `k` data
/// words: the data words, or the first check that fails.
pub open spec fn reply_verdict(b: Seq<u8>, nrecv: int, k: int, serial: u16, cmd_id: u16, mcpd_id: u8) -> Result<Seq<u16>, ReplyError> {
    let n = reply_len(b, nrecv);
    let size = 22 + 2 * k;
    let buf_len = le16(b, 0) as u16;
    let got_cmd = le16(b, 8) as u16;
    if n < size {
        Err(ReplyError::WrongLength { expected: size as usize, got: n as usize })
    } else if buf_len != n / 2 - 1 {
        Err(ReplyError::LengthHeader { got: buf_len, expected: (n / 2 - 1) as usize })
    } else if le16(b, 2) != BUFFERTYPE {
        Err(ReplyError::BufferType { got: le16(b, 2) as u16 })
    } else if le16(b, 4) != HEADER_WORDS {
        Err(ReplyError::HeaderLength { got: le16(b, 4) as u16 })
    } else if le16(b, 6) != serial {
        Err(ReplyError::Serial { got: le16(b, 6) as u16, expected: serial })
    } else if got_cmd != cmd_id {
        if got_cmd == cmd_id | ERROR_FLAG {
            Err(ReplyError::CommandFailed { got: got_cmd, cmd: cmd_id })
        } else {
            Err(ReplyError::CommandId { got: got_cmd, expected: cmd_id })
        }
    } else if b[11] != mcpd_id {
        Err(ReplyError::McpdId { got: b[11], expected: mcpd_id })
    } else {
        Ok(Seq::new(k as nat, |i: int| le16(b, 20 + 2 * i) as u16))
    }
}

/// Checks the MCPD's reply to command `c`, sent with serial number
/// `serial` to MCPD `mcpd_id`, and gives its data words.
pub fn check_reply(buf: &[u8], nrecv: usize, c: Cmd, serial: u16, mcpd_id: u8) -> (r: Result<Vec<u16>, ReplyError>)
    requires
        reply_readable(buf@, nrecv as int),
    ensures
        match r {
            Ok(v) => reply_verdict(buf@, nrecv as int, c.spec_reply_words() as int, serial, c.spec_code(), mcpd_id) == Ok::<Seq<u16>, ReplyError>(v@),
            Err(e) => reply_verdict(buf@, nrecv as int, c.spec_reply_words() as int, serial, c.spec_code(), mcpd_id) == Err::<Seq<u16>, ReplyError>(e),
        },
{
    let k = c.reply_words();
    let cmd_id = c.code();
    let n = if buf[nrecv - 2] == 0xFF && buf[nrecv - 1] == 0xFF {
        nrecv
    } else {
        nrecv + 2
    };
    let size = 22 + 2 * k;
    if n < size {
        return Err(ReplyError::WrongLength { expected: size, got: n });
    }
    let buf_len = read_u16_le(buf, 0);
    if buf_len as usize != n / 2 - 1 {
        return Err(ReplyError::LengthHeader { got: buf_len, expected: n / 2 - 1 });
    }
    let buf_type = read_u16_le(buf, 2);
    if buf_type != BUFFERTYPE {
        return Err(ReplyError::BufferType { got: buf_type });
    }
    let hdr_len = read_u16_le(buf, 4);
    if hdr_len != HEADER_WORDS {
        return Err(ReplyError::HeaderLength { got: hdr_len });
    }
    let got_serial = read_u16_le(buf, 6);
    if got_serial != serial {
        return Err(ReplyError::Serial { got: got_serial, expected: serial });
    }
    let got_cmd = read_u16_le(buf, 8);
    if got_cmd != cmd_id {
        if got_cmd == cmd_id | ERROR_FLAG {
            return Err(ReplyError::CommandFailed { got: got_cmd, cmd: cmd_id });
        }
        return Err(ReplyError::CommandId { got: got_cmd, expected: cmd_id });
    }
    if buf[11] != mcpd_id {
        return Err(ReplyError::McpdId { got: buf[11], expected: mcpd_id });
    }
    let mut data: Vec<u16> = Vec::new();
    let mut i: usize = 0;
    while i < k
        invariant
            i <= k,
            k <= 14,
            22 + 2 * k <= n <= buf@.len(),
            data@ == Seq::new(i as nat, |j: int| le16(buf@, 20 + 2 * j) as u16),
        decreases k - i,
    {
        data.push(read_u16_le(buf, 20 + 2 * i));
        proof {
            assert(data@ =~= Seq::new((i + 1) as nat, |j: int| le16(buf@, 20 + 2 * j) as u16));
        }
        i = i + 1;
    }
    Ok(data)
}

} // verus!
