//! Position recipe of the Jumiom PSD: the FPGA-reported or a calculated
//! position, gated by a per-pixel accept window on the ADC sum.
//!
//! The FPGA X/Y is read from the event's channel (X in the low byte, Y in
//! the next byte); the four signed 12-bit ADC values are recovered from
//! the event's raw words. The calculated positions of the ADC-ratio modes
//! are floating-point formulas and are computed by the caller; this
//! recipe takes them as they come and applies the range check and the
//! accept window, which always apply.

use vstd::prelude::*;
use crate::event::{Event, EventHisto, EventType};
use crate::expr::alias::ExprAlias;
use crate::input::jumiom::decode::{adc12, spec_adc12};
use crate::text::{char_rows, lines, parse_u32, parse_u32_spec, split_words, text_lines, words};

verus! {

/// How the position of a neutron is found.
#[derive(Debug, Clone, Copy, PartialEq, Eq, Structural)]
pub enum PositionMode {
    /// Raw FPGA X/Y passthrough.
    Fpga,
    /// Linear ADC-ratio calculation.
    Linear,
    /// Distortion correction.
    Distortion,
    /// Older empirical distortion formula.
    Formula0,
    /// Linear PMT formula.
    Formula2,
}

/// Number of pixels of the accept-window table (256 by 256).
pub const LIMIT_TABLE_SIZE: usize = 65536;

/// Sign-extends the 12-bit field at `shift` in `word`.
pub fn adc12bit(word: u32, shift: u32) -> (r: i32)
    requires
        shift < 32,
    ensures
        r == spec_adc12(word, shift),
        -2048 <= r < 2048,
{
    adc12(word, shift)
}

pub open spec fn spec_unpack_adc(raw: (u32, u32)) -> Seq<i32> {
    seq![spec_adc12(raw.0, 0), spec_adc12(raw.0, 16), spec_adc12(raw.1, 0), spec_adc12(raw.1, 16)]
}

/// The four ADC values packed in an event's raw words.
pub fn unpack_adc(raw: (u32, u32)) -> (adc: [i32; 4])
    ensures
        adc@ == spec_unpack_adc(raw),
        forall|i: int| 0 <= i < 4 ==> -2048 <= #[trigger] adc@[i] < 2048,
{
    let adc = [adc12bit(raw.0, 0), adc12bit(raw.0, 16), adc12bit(raw.1, 0), adc12bit(raw.1, 16)];
    assert(adc@ =~= spec_unpack_adc(raw));
    adc
}

/// Each ADC value shifted down 3 more bits counts when non-negative; the
/// sum is divided by 4 whatever the number of terms.
pub open spec fn adc_term(v: i32) -> int {
    if (v >> 3u32) >= 0 {
        (v >> 3u32) as int
    } else {
        0
    }
}

pub open spec fn spec_adchelper(adc: Seq<i32>) -> int {
    (adc_term(adc[0]) + adc_term(adc[1]) + adc_term(adc[2]) + adc_term(adc[3])) / 4
}

/// The ADC sum used to gate on the accept-window table.
pub fn adchelper(adc: [i32; 4]) -> (r: i32)
    ensures
        r == spec_adchelper(adc@),
{
    let mut sum: i32 = 0;
    let mut i: usize = 0;
    while i < 4
        invariant
            i <= 4,
            sum as int == (if i > 0 { adc_term(adc@[0]) } else { 0 }) + (if i > 1 { adc_term(adc@[1]) } else { 0 })
                + (if i > 2 { adc_term(adc@[2]) } else { 0 }) + (if i > 3 { adc_term(adc@[3]) } else { 0 }),
            0 <= sum <= 0x1000_0000 * i,
        decreases 4 - i,
    {
        let a = adc[i];
        assert(a == adc@[i as int]);
        let v = a >> 3;
        assert(-0x1000_0000 <= v < 0x1000_0000) by (bit_vector)
            requires
                v == a >> 3,
        ;
        if v >= 0 {
            sum = sum + v;
        }
        i = i + 1;
    }
    sum / 4
}

/// Why an accept-window table is refused.
#[derive(Debug, Clone, Copy, PartialEq, Eq, Structural)]
pub enum LimitsError {
    /// The table does not hold exactly `LIMIT_TABLE_SIZE` entries.
    EntryCount,
}

/// Why an accept-window table file is refused; lines count from 1.
#[derive(Debug, Clone, Copy, PartialEq, Eq, Structural)]
pub enum LimitsFileError {
    /// A line does not hold exactly 5 fields.
    FieldCount { line: usize, found: usize },
    /// The lower limit of a line is not a number.
    BadLower { line: usize },
    /// The upper limit of a line is not a number.
    BadUpper { line: usize },
    /// The table does not hold exactly `LIMIT_TABLE_SIZE` entries.
    EntryCount { found: usize },
}

/// The limits of the first `k` lines of a table file: empty lines and
/// lines starting with `;` are skipped; every other line has five fields,
/// of which the third is the lower and the fourth the upper limit.
pub open spec fn limits_upto(lines: Seq<Seq<char>>, k: int) -> Result<(Seq<u32>, Seq<u32>), LimitsFileError>
    decreases k,
{
    if k <= 0 {
        Ok((seq![], seq![]))
    } else {
        match limits_upto(lines, k - 1) {
            Err(e) => Err(e),
            Ok((lo, hi)) => {
                let line = lines[k - 1];
                if line.len() == 0 || line[0] == ';' {
                    Ok((lo, hi))
                } else {
                    let f = words(line);
                    if f.len() != 5 {
                        Err(LimitsFileError::FieldCount { line: k as usize, found: f.len() as usize })
                    } else {
                        match (parse_u32_spec(f[2]), parse_u32_spec(f[3])) {
                            (None, _) => Err(LimitsFileError::BadLower { line: k as usize }),
                            (Some(_), None) => Err(LimitsFileError::BadUpper { line: k as usize }),
                            (Some(l), Some(u)) => Ok((lo.push(l), hi.push(u))),
                        }
                    }
                }
            },
        }
    }
}

/// The lower and upper limits of a table file's text, which must hold
/// exactly `LIMIT_TABLE_SIZE` entries.
pub open spec fn limits_of(text: Seq<char>) -> Result<(Seq<u32>, Seq<u32>), LimitsFileError> {
    let lines = text_lines(text);
    match limits_upto(lines, lines.len() as int) {
        Err(e) => Err(e),
        Ok((lo, hi)) => if lo.len() != LIMIT_TABLE_SIZE {
            Err(LimitsFileError::EntryCount { found: lo.len() as usize })
        } else {
            Ok((lo, hi))
        },
    }
}

proof fn lemma_error_sticks(lines: Seq<Seq<char>>, k: int, n: int)
    requires
        0 <= k <= n,
        limits_upto(lines, k) is Err,
    ensures
        limits_upto(lines, n) == limits_upto(lines, k),
    decreases n - k,
{
    if n > k {
        lemma_error_sticks(lines, k, n - 1);
    }
}

/// Reads an accept-window table file's text.
pub fn parse_limits(text: &str) -> (r: Result<(Vec<u32>, Vec<u32>), LimitsFileError>)
    ensures
        match r {
            Ok((lo, hi)) => limits_of(text@) == Ok::<(Seq<u32>, Seq<u32>), LimitsFileError>((lo@, hi@)),
            Err(e) => limits_of(text@) == Err::<(Seq<u32>, Seq<u32>), LimitsFileError>(e),
        },
{
    let ls = lines(text);
    let ghost rows = char_rows(ls@);
    let mut lo: Vec<u32> = Vec::new();
    let mut hi: Vec<u32> = Vec::new();
    let mut k: usize = 0;
    while k < ls.len()
        invariant
            k <= ls@.len(),
            rows == char_rows(ls@),
            rows == text_lines(text@),
            limits_upto(rows, k as int) == Ok::<(Seq<u32>, Seq<u32>), LimitsFileError>((lo@, hi@)),
            lo@.len() <= k,
        decreases ls@.len() - k,
    {
        let line = &ls[k];
        assert(line@ == rows[k as int]);
        if line.len() == 0 || line[0] == ';' {
            k = k + 1;
            continue;
        }
        let f = split_words(line);
        assert(char_rows(f@).len() == f@.len());
        if f.len() != 5 {
            proof {
                lemma_error_sticks(rows, k + 1, rows.len() as int);
            }
            return Err(LimitsFileError::FieldCount { line: k + 1, found: f.len() });
        }
        assert(char_rows(f@)[2] == f@[2]@ && char_rows(f@)[3] == f@[3]@);
        let l = match parse_u32(&f[2]) {
            Some(v) => v,
            None => {
                proof {
                    lemma_error_sticks(rows, k + 1, rows.len() as int);
                }
                return Err(LimitsFileError::BadLower { line: k + 1 });
            },
        };
        let u = match parse_u32(&f[3]) {
            Some(v) => v,
            None => {
                proof {
                    lemma_error_sticks(rows, k + 1, rows.len() as int);
                }
                return Err(LimitsFileError::BadUpper { line: k + 1 });
            },
        };
        lo.push(l);
        hi.push(u);
        k = k + 1;
    }
    if lo.len() != LIMIT_TABLE_SIZE {
        return Err(LimitsFileError::EntryCount { found: lo.len() });
    }
    Ok((lo, hi))
}

/// Position recipe of the Jumiom PSD.
pub struct Position {
    mode: PositionMode,
    use_fpga_for_limit_index: bool,
    lower_limit: Vec<u32>,
    upper_limit: Vec<u32>,
}

/// The FPGA-reported X/Y of a neutron's channel.
pub open spec fn fpga_position(channel: u32) -> (i32, i32) {
    ((channel & 0xFF) as i32, ((channel >> 8u32) & 0xFF) as i32)
}

impl Position {
    #[verifier::type_invariant]
    closed spec fn wf(self) -> bool {
        self.lower_limit@.len() == LIMIT_TABLE_SIZE && self.upper_limit@.len() == LIMIT_TABLE_SIZE
    }

    pub closed spec fn spec_mode(self) -> PositionMode {
        self.mode
    }

    pub closed spec fn spec_use_fpga_index(self) -> bool {
        self.use_fpga_for_limit_index
    }

    pub closed spec fn spec_lower(self) -> Seq<u32> {
        self.lower_limit@
    }

    pub closed spec fn spec_upper(self) -> Seq<u32> {
        self.upper_limit@
    }

    /// A recipe with the accept-window table `limits` (lower and upper
    /// limits per pixel, `y`-major), or with the accept-all window
    /// `[0, 255]` everywhere.
    pub fn new(mode: PositionMode, use_fpga_for_limit_index: bool, limits: Option<(Vec<u32>, Vec<u32>)>) -> (r: Result<Position, LimitsError>)
        ensures
            match limits {
                None => r matches Ok(p) && p.spec_mode() == mode && p.spec_use_fpga_index() == use_fpga_for_limit_index
                    && p.spec_lower() == Seq::new(LIMIT_TABLE_SIZE as nat, |i: int| 0u32)
                    && p.spec_upper() == Seq::new(LIMIT_TABLE_SIZE as nat, |i: int| 255u32),
                Some((lo, hi)) => if lo@.len() == LIMIT_TABLE_SIZE && hi@.len() == LIMIT_TABLE_SIZE {
                    r matches Ok(p) && p.spec_mode() == mode && p.spec_use_fpga_index() == use_fpga_for_limit_index
                        && p.spec_lower() == lo@ && p.spec_upper() == hi@
                } else {
                    r == Err::<Position, LimitsError>(LimitsError::EntryCount)
                },
            },
    {
        match limits {
            None => {
                let mut lo: Vec<u32> = Vec::new();
                let mut hi: Vec<u32> = Vec::new();
                let mut i: usize = 0;
                while i < LIMIT_TABLE_SIZE
                    invariant
                        i <= LIMIT_TABLE_SIZE,
                        lo@ == Seq::new(i as nat, |k: int| 0u32),
                        hi@ == Seq::new(i as nat, |k: int| 255u32),
                    decreases LIMIT_TABLE_SIZE - i,
                {
                    lo.push(0);
                    hi.push(255);
                    i = i + 1;
                    assert(lo@ =~= Seq::new(i as nat, |k: int| 0u32));
                    assert(hi@ =~= Seq::new(i as nat, |k: int| 255u32));
                }
                Ok(Position { mode, use_fpga_for_limit_index, lower_limit: lo, upper_limit: hi })
            },
            Some((lo, hi)) => {
                if lo.len() != LIMIT_TABLE_SIZE || hi.len() != LIMIT_TABLE_SIZE {
                    Err(LimitsError::EntryCount)
                } else {
                    Ok(Position { mode, use_fpga_for_limit_index, lower_limit: lo, upper_limit: hi })
                }
            },
        }
    }

    /// The accept-window gate: the ADC sum must be within 1..255 and the
    /// calculated Y above 0, and the sum inside the window of the pixel
    /// (the FPGA one with `use_fpga_for_limit_index`, else the calculated
    /// one).
    pub open spec fn spec_passes(self, xfpga: i32, yfpga: i32, xmerk: i32, ymerk: i32, raw: (u32, u32)) -> bool {
        let helper = spec_adchelper(spec_unpack_adc(raw));
        let (iy, ix) = if self.spec_use_fpga_index() { (yfpga, xfpga) } else { (ymerk, xmerk) };
        let idx = iy * 256 + ix;
        &&& 0 < helper < 256
        &&& ymerk > 0
        &&& self.spec_lower()[idx] <= helper <= self.spec_upper()[idx]
    }

    pub fn passes_limit_table(&self, xfpga: i32, yfpga: i32, xmerk: i32, ymerk: i32, raw: (u32, u32)) -> (r: bool)
        requires
            0 <= xfpga <= 255,
            0 <= yfpga <= 255,
            0 <= xmerk <= 255,
            0 <= ymerk <= 255,
        ensures
            r == self.spec_passes(xfpga, yfpga, xmerk, ymerk, raw),
    {
        proof {
            use_type_invariant(self);
        }
        let adc = unpack_adc(raw);
        let helper = adchelper(adc);
        if !(helper > 0 && helper < 256 && ymerk > 0) {
            return false;
        }
        let (iy, ix) = if self.use_fpga_for_limit_index {
            (yfpga, xfpga)
        } else {
            (ymerk, xmerk)
        };
        let idx = iy as usize * 256 + ix as usize;
        let h = helper as u32;
        h >= self.lower_limit[idx] && h <= self.upper_limit[idx]
    }

    /// A neutron event placed at `pos` (its position in the recipe's
    /// mode, `None` where it has none): kept with that position when it
    /// lies within 0..=255 on both axes and passes the accept window, else
    /// voided.
    pub open spec fn spec_place(self, ev: Event, pos: Option<(i32, i32)>) -> Event {
        let (xf, yf) = fpga_position(ev.channel.0);
        match pos {
            Some((x, y)) => if 0 <= x <= 255 && 0 <= y <= 255 && self.spec_passes(xf, yf, x, y, ev.raw) {
                Event { histo: EventHisto { x: x as u16, y: y as u16, ..ev.histo }, ..ev }
            } else {
                Event { evtype: EventType::Void, ..ev }
            },
            None => Event { evtype: EventType::Void, ..ev },
        }
    }

    pub fn place(&self, ev: Event, pos: Option<(i32, i32)>) -> (r: Event)
        ensures
            r == self.spec_place(ev, pos),
    {
        let c = ev.channel.0;
        assert(c & 0xFF <= 255 && (c >> 8u32) & 0xFF <= 255) by (bit_vector);
        let xf = (c & 0xFF) as i32;
        let yf = ((c >> 8) & 0xFF) as i32;
        let mut ev = ev;
        match pos {
            Some((x, y)) => {
                if 0 <= x && x <= 255 && 0 <= y && y <= 255 && self.passes_limit_table(xf, yf, x, y, ev.raw) {
                    ev.histo.x = x as u16;
                    ev.histo.y = y as u16;
                } else {
                    ev.evtype = EventType::Void;
                }
            },
            None => {
                ev.evtype = EventType::Void;
            },
        }
        ev
    }

    /// One event: neutrons are placed at their FPGA position in `Fpga`
    /// mode, else at `calc` (the position computed for them in the
    /// recipe's mode); other events pass unchanged.
    pub open spec fn spec_event(self, ev: Event, calc: Option<(i32, i32)>) -> Event {
        if ev.evtype is Neutron {
            if self.spec_mode() == PositionMode::Fpga {
                self.spec_place(ev, Some(fpga_position(ev.channel.0)))
            } else {
                self.spec_place(ev, calc)
            }
        } else {
            ev
        }
    }

    /// Processes a batch; `calc[i]` is the position computed for event
    /// `i` in the recipe's mode, unused in `Fpga` mode.
    pub fn process(&mut self, events: Vec<Event>, calc: &Vec<Option<(i32, i32)>>) -> (out: Vec<Event>)
        requires
            old(self).spec_mode() != PositionMode::Fpga ==> calc@.len() == events@.len(),
        ensures
            out@.len() == events@.len(),
            forall|i: int| 0 <= i < events@.len() ==> out@[i] == old(self).spec_event(
                events@[i],
                if i < calc@.len() { calc@[i] } else { None },
            ),
    {
        let mut out: Vec<Event> = Vec::new();
        let mut i: usize = 0;
        while i < events.len()
            invariant
                i <= events@.len(),
                out@.len() == i,
                self.spec_mode() != PositionMode::Fpga ==> calc@.len() == events@.len(),
                forall|j: int| 0 <= j < i ==> out@[j] == self.spec_event(
                    events@[j],
                    if j < calc@.len() { calc@[j] } else { None },
                ),
            decreases events@.len() - i,
        {
            let ev = events[i];
            let r = if let EventType::Neutron = ev.evtype {
                match self.mode {
                    PositionMode::Fpga => {
                        let c = ev.channel.0;
                        assert(c & 0xFF <= 255 && (c >> 8u32) & 0xFF <= 255) by (bit_vector);
                        let p = ((c & 0xFF) as i32, ((c >> 8) & 0xFF) as i32);
                        self.place(ev, Some(p))
                    },
                    _ => self.place(ev, calc[i]),
                }
            } else {
                ev
            };
            out.push(r);
            i = i + 1;
        }
        out
    }

    /// The ADC fields as expression aliases.
    pub fn expr_aliases(&self) -> (v: Vec<ExprAlias>)
        ensures
            v@.len() == 4,
            v@[0]@.name == "adc0"@ && v@[0]@.expr == "raw_0[0..12:signed]"@,
            v@[1]@.name == "adc1"@ && v@[1]@.expr == "raw_0[16..28:signed]"@,
            v@[2]@.name == "adc2"@ && v@[2]@.expr == "raw_1[0..12:signed]"@,
            v@[3]@.name == "adc3"@ && v@[3]@.expr == "raw_1[16..28:signed]"@,
    {
        let mut v = Vec::new();
        v.push(ExprAlias::new("adc0", "raw_0[0..12:signed]", "Jumiom ADC0 (signed 12-bit)"));
        v.push(ExprAlias::new("adc1", "raw_0[16..28:signed]", "Jumiom ADC1 (signed 12-bit)"));
        v.push(ExprAlias::new("adc2", "raw_1[0..12:signed]", "Jumiom ADC2 (signed 12-bit)"));
        v.push(ExprAlias::new("adc3", "raw_1[16..28:signed]", "Jumiom ADC3 (signed 12-bit)"));
        v
    }
}

} // verus!
