//! User-defined auxiliary histograms: each is filled by evaluating a
//! filter and one or two axis expressions against every event.

use vstd::prelude::*;
use vstd::string::StringSliceAdditionalSpecFns;
use crate::config::HistoConfig;
use crate::event::{Event, EventHisto};
use crate::expr::lexer::ExprError;
use crate::expr::parser::spec_parse_text;
use crate::expr::{Expr, Node, spec_defined, spec_eval};
use crate::expr::alias::{AliasTable, SpecAlias};
use crate::shm::{ShmBox, ShmError, ShmInterface, MAX_HISTO_SIZE, is_fresh_header, stored_run_id};

verus! {

/// One axis of a histogram: its expression and `bins` bins over the
/// inclusive value range `min..=max`.
#[derive(Debug)]
pub struct AxisSpec {
    pub expr: String,
    pub bins: u16,
    pub min: i64,
    pub max: i64,
}

/// A histogram definition.
#[derive(Debug)]
pub struct HistoSpec {
    pub name: String,
    pub filter: Option<String>,
    pub x: AxisSpec,
    pub y: Option<AxisSpec>,
}

/// Why a histogram definition is refused.
#[derive(Debug, Clone, Copy, PartialEq, Eq, Structural)]
pub enum AuxHistoError {
    /// An axis has no bins or `max < min`.
    InvalidAxis,
    /// An expression does not parse.
    Expr(ExprError),
    /// Two histograms share a name.
    DuplicateName,
    /// Evaluating an expression would negate `i64::MIN`.
    EvalOverflow,
    /// A histogram's segment cannot be made.
    Segment(ShmError),
}

/// An axis ready to evaluate.
pub struct CompiledAxis {
    pub expr: Expr,
    pub bins: u16,
    pub min: i64,
    pub max: i64,
}

/// Bin of `v` in `bins` bins over `min..=max` (`max` inclusive: the range
/// spans `max - min + 1` values), or `None` outside it.
pub open spec fn spec_bin_index(v: i64, min: i64, max: i64, bins: u16) -> Option<u16> {
    if v < min || v > max || bins == 0 {
        None
    } else {
        let b = (v - min) * bins / (max - min + 1);
        Some(if b > bins - 1 { (bins - 1) as u16 } else { b as u16 })
    }
}

/// The bin index; the range arithmetic is exact.
pub fn bin_index(v: i64, min: i64, max: i64, bins: u16) -> (r: Option<u16>)
    ensures
        r == spec_bin_index(v, min, max, bins),
{
    if v < min || v > max || bins == 0 {
        return None;
    }
    proof {
        assert(0 <= (v - min) * bins) by (nonlinear_arith)
            requires
                v >= min,
                bins >= 0,
        ;
        assert((v - min) * bins <= 0x1_0000_0000_0000_0000 * 0x10000) by (nonlinear_arith)
            requires
                0 <= v - min <= 0x1_0000_0000_0000_0000,
                0 <= bins <= 0x10000,
        ;
    }
    let num: i128 = (v as i128 - min as i128) * (bins as i128);
    let den: i128 = max as i128 - min as i128 + 1;
    let b: i128 = num / den;
    proof {
        assert(b <= num) by (nonlinear_arith)
            requires
                b == num / den,
                num >= 0,
                den >= 1,
        ;
        assert(0 <= b) by (nonlinear_arith)
            requires
                b == num / den,
                num >= 0,
                den >= 1,
        ;
    }
    let last = bins as i128 - 1;
    if b > last {
        Some(bins - 1)
    } else {
        Some(b as u16)
    }
}

/// Why an axis definition is refused, if it is: an empty or reversed
/// range, or an expression that does not parse.
pub open spec fn axis_error(a: AxisSpec, al: Map<Seq<char>, SpecAlias>) -> Option<AuxHistoError> {
    if a.bins == 0 || a.max < a.min {
        Some(AuxHistoError::InvalidAxis)
    } else {
        match spec_parse_text(a.expr@, al, 0) {
            Err(e) => Some(AuxHistoError::Expr(e)),
            Ok(_) => None,
        }
    }
}

/// `c` is the compiled form of the valid axis `a`.
pub open spec fn compiled_from(c: CompiledAxis, a: AxisSpec, al: Map<Seq<char>, SpecAlias>) -> bool {
    &&& a.bins > 0
    &&& a.max >= a.min
    &&& spec_parse_text(a.expr@, al, 0) == Ok::<Node, ExprError>(c.expr@)
    &&& c.bins == a.bins
    &&& c.min == a.min
    &&& c.max == a.max
}

/// Both ends of an axis range are inclusive: every value from `min` to
/// `max` lands in one of the bins, `min` in the first; every value outside
/// is dropped, not clamped.
pub proof fn law_bin_index_range(v: i64, min: i64, max: i64, bins: u16)
    requires
        bins > 0,
        min <= max,
    ensures
        min <= v <= max ==> (spec_bin_index(v, min, max, bins) matches Some(b) && b < bins),
        v < min || v > max ==> spec_bin_index(v, min, max, bins) is None,
        spec_bin_index(min, min, max, bins) == Some(0u16),
{
    assert((min - min) * bins / (max - min + 1) == 0) by (nonlinear_arith)
        requires
            max - min + 1 >= 1,
    ;
}

/// Checks and compiles an axis.
pub fn compile_axis(axis: &AxisSpec, aliases: &AliasTable) -> (r: Result<CompiledAxis, AuxHistoError>)
    ensures
        match r {
            Ok(c) => axis_error(*axis, aliases@) == None::<AuxHistoError> && compiled_from(c, *axis, aliases@),
            Err(e) => axis_error(*axis, aliases@) == Some(e),
        },
{
    if axis.bins == 0 || axis.max < axis.min {
        return Err(AuxHistoError::InvalidAxis);
    }
    match Expr::parse_with_aliases(axis.expr.as_str(), aliases) {
        Ok(expr) => Ok(CompiledAxis { expr, bins: axis.bins, min: axis.min, max: axis.max }),
        Err(e) => Err(AuxHistoError::Expr(e)),
    }
}

/// A checked histogram definition with its segment name and dimensions.
pub struct PreparedHisto {
    pub name: String,
    pub filter: Expr,
    pub x: CompiledAxis,
    pub y: Option<CompiledAxis>,
    pub shm_name: String,
    pub histo_config: HistoConfig,
}

/// Name of a histogram's segment: `<ipc>_<output>_<histo>`.
pub open spec fn spec_shm_name(ipc: Seq<char>, out: Seq<char>, histo: Seq<char>) -> Seq<char> {
    ipc + seq!['_'] + out + seq!['_'] + histo
}

pub fn shm_name(ipc: &str, out: &str, histo: &str) -> (s: String)
    ensures
        s@ == spec_shm_name(ipc@, out@, histo@),
{
    let mut s = ipc.to_owned();
    s.append("_");
    s.append(out);
    s.append("_");
    s.append(histo);
    proof {
        reveal_strlit("_");
    }
    s
}

/// Why a histogram's filter is refused, if it is.
pub open spec fn filter_error(s: HistoSpec, al: Map<Seq<char>, SpecAlias>) -> Option<AuxHistoError> {
    match s.filter {
        Some(f) => match spec_parse_text(f@, al, 0) {
            Err(e) => Some(AuxHistoError::Expr(e)),
            Ok(_) => None,
        },
        None => None,
    }
}

/// Why the `i`-th definition is refused, if it is, checking in turn its
/// name against the ones before it, its filter, its `x` axis and its `y`
/// axis.
pub open spec fn histo_error(specs: Seq<HistoSpec>, i: int, al: Map<Seq<char>, SpecAlias>) -> Option<AuxHistoError> {
    let s = specs[i];
    if exists|j: int| 0 <= j < i && #[trigger] specs[j].name@ == s.name@ {
        Some(AuxHistoError::DuplicateName)
    } else if filter_error(s, al) is Some {
        filter_error(s, al)
    } else if axis_error(s.x, al) is Some {
        axis_error(s.x, al)
    } else {
        match s.y {
            Some(y) => axis_error(y, al),
            None => None,
        }
    }
}

/// The first refusal among the first `n` definitions, if any.
pub open spec fn first_error(specs: Seq<HistoSpec>, n: nat, al: Map<Seq<char>, SpecAlias>) -> Option<AuxHistoError>
    decreases n,
{
    if n == 0 {
        None
    } else {
        match first_error(specs, (n - 1) as nat, al) {
            Some(e) => Some(e),
            None => histo_error(specs, n - 1, al),
        }
    }
}

proof fn lemma_first_error_sticks(specs: Seq<HistoSpec>, n: nat, m: nat, al: Map<Seq<char>, SpecAlias>)
    requires
        n <= m,
        first_error(specs, n, al) is Some,
    ensures
        first_error(specs, m, al) == first_error(specs, n, al),
    decreases m - n,
{
    if n < m {
        lemma_first_error_sticks(specs, n, (m - 1) as nat, al);
    }
}

/// The dimensions of a histogram's segment: `x` bins by `y` bins (one
/// where there is no `y` axis), one time slice.
pub open spec fn histo_config_of(s: HistoSpec) -> HistoConfig {
    HistoConfig {
        nx: s.x.bins as usize,
        ny: match s.y {
            Some(y) => y.bins as usize,
            None => 1,
        },
        max_nt: 1,
        max_ni: 0,
    }
}

/// `filter`, `x` and `y` are the compiled filter and axes of `s`; a
/// histogram without a filter counts every event.
pub open spec fn compiled_spec(filter: Node, x: CompiledAxis, y: Option<CompiledAxis>, s: HistoSpec, al: Map<Seq<char>, SpecAlias>) -> bool {
    &&& match s.filter {
        Some(f) => spec_parse_text(f@, al, 0) == Ok::<Node, ExprError>(filter),
        None => filter == Node::Lit(1),
    }
    &&& compiled_from(x, s.x, al)
    &&& match (y, s.y) {
        (Some(c), Some(a)) => compiled_from(c, a, al),
        (None, None) => true,
        _ => false,
    }
}

/// `p` is the checked form of `s`, with its segment named after
/// `ipc` and `out`.
pub open spec fn prepared_from(p: PreparedHisto, s: HistoSpec, ipc: Seq<char>, out: Seq<char>, al: Map<Seq<char>, SpecAlias>) -> bool {
    &&& p.name@ == s.name@
    &&& p.shm_name@ == spec_shm_name(ipc, out, s.name@)
    &&& compiled_spec(p.filter@, p.x, p.y, s, al)
    &&& p.histo_config == histo_config_of(s)
}

/// Checks a list of definitions (distinct names, expressions, axis
/// ranges) without creating anything; refuses with the first problem
/// found.
pub fn prepare(ipc: &str, out: &str, specs: &Vec<HistoSpec>, aliases: &AliasTable) -> (r: Result<Vec<PreparedHisto>, AuxHistoError>)
    ensures
        match r {
            Ok(v) => {
                &&& first_error(specs@, specs@.len(), aliases@) == None::<AuxHistoError>
                &&& v@.len() == specs@.len()
                &&& forall|i: int, j: int| 0 <= i < j < specs@.len() ==> specs@[i].name@ != specs@[j].name@
                &&& forall|i: int| 0 <= i < v@.len() ==> prepared_from(#[trigger] v@[i], specs@[i], ipc@, out@, aliases@)
            },
            Err(e) => first_error(specs@, specs@.len(), aliases@) == Some(e),
        },
{
    let mut result: Vec<PreparedHisto> = Vec::new();
    let mut i: usize = 0;
    while i < specs.len()
        invariant
            i <= specs@.len(),
            result@.len() == i,
            first_error(specs@, i as nat, aliases@) == None::<AuxHistoError>,
            forall|a: int, b: int| 0 <= a < b < i ==> specs@[a].name@ != specs@[b].name@,
            forall|k: int| 0 <= k < i ==> prepared_from(#[trigger] result@[k], specs@[k], ipc@, out@, aliases@),
        decreases specs@.len() - i,
    {
        let spec = &specs[i];
        let mut j: usize = 0;
        while j < i
            invariant
                j <= i < specs@.len(),
                spec == specs@[i as int],
                first_error(specs@, i as nat, aliases@) == None::<AuxHistoError>,
                forall|a: int| 0 <= a < j ==> specs@[a].name@ != spec.name@,
            decreases i - j,
        {
            if specs[j].name == spec.name {
                proof {
                    assert(specs@[j as int].name@ == specs@[i as int].name@);
                    assert(histo_error(specs@, i as int, aliases@) == Some(AuxHistoError::DuplicateName));
                    assert(first_error(specs@, (i + 1) as nat, aliases@) == Some(AuxHistoError::DuplicateName));
                    lemma_first_error_sticks(specs@, (i + 1) as nat, specs@.len(), aliases@);
                }
                return Err(AuxHistoError::DuplicateName);
            }
            j = j + 1;
        }
        assert(!exists|j: int| 0 <= j < i && #[trigger] specs@[j].name@ == spec.name@);
        let filter = match &spec.filter {
            Some(f) => match Expr::parse_with_aliases(f.as_str(), aliases) {
                Ok(e) => e,
                Err(e) => {
                    proof {
                        assert(first_error(specs@, (i + 1) as nat, aliases@) == Some(AuxHistoError::Expr(e)));
                        lemma_first_error_sticks(specs@, (i + 1) as nat, specs@.len(), aliases@);
                    }
                    return Err(AuxHistoError::Expr(e));
                },
            },
            None => Expr::from_root(Node::Lit(1)),
        };
        assert(filter_error(*spec, aliases@) is None);
        let x = match compile_axis(&spec.x, aliases) {
            Ok(x) => x,
            Err(e) => {
                proof {
                    assert(first_error(specs@, (i + 1) as nat, aliases@) == Some(e));
                    lemma_first_error_sticks(specs@, (i + 1) as nat, specs@.len(), aliases@);
                }
                return Err(e);
            },
        };
        let y = match &spec.y {
            Some(ya) => match compile_axis(ya, aliases) {
                Ok(c) => Some(c),
                Err(e) => {
                    proof {
                        assert(first_error(specs@, (i + 1) as nat, aliases@) == Some(e));
                        lemma_first_error_sticks(specs@, (i + 1) as nat, specs@.len(), aliases@);
                    }
                    return Err(e);
                },
            },
            None => None,
        };
        assert(histo_error(specs@, i as int, aliases@) is None);
        let ny: usize = match &y {
            Some(c) => c.bins as usize,
            None => 1,
        };
        let histo_config = HistoConfig { nx: x.bins as usize, ny, max_nt: 1, max_ni: 0 };
        let name = spec.name.clone();
        let sname = shm_name(ipc, out, spec.name.as_str());
        let p = PreparedHisto { name, filter, x, y, shm_name: sname, histo_config };
        assert(prepared_from(p, specs@[i as int], ipc@, out@, aliases@));
        result.push(p);
        i = i + 1;
    }
    Ok(result)
}

/// A histogram being filled.
pub struct FilledHisto {
    pub filter: Expr,
    pub x: CompiledAxis,
    pub y: Option<CompiledAxis>,
    pub shm_name: String,
    pub shm: ShmBox,
}

/// The bin of `ev` in a histogram, if it passes the filter and lies in
/// range on every axis (`None` inside means skipped); `Err` where an
/// expression cannot be evaluated.
pub open spec fn spec_target(h: &FilledHisto, ev: Event) -> Result<Option<(u16, u16)>, ()> {
    if !spec_defined(h.filter@, ev) {
        Err(())
    } else if spec_eval(h.filter@, ev) == 0 {
        Ok(None)
    } else if !spec_defined(h.x.expr@, ev) {
        Err(())
    } else {
        match spec_bin_index(spec_eval(h.x.expr@, ev), h.x.min, h.x.max, h.x.bins) {
            None => Ok(None),
            Some(bx) => match h.y {
                None => Ok(Some((bx, 0u16))),
                Some(y) => if !spec_defined(y.expr@, ev) {
                    Err(())
                } else {
                    match spec_bin_index(spec_eval(y.expr@, ev), y.min, y.max, y.bins) {
                        None => Ok(None),
                        Some(by) => Ok(Some((bx, by))),
                    }
                },
            },
        }
    }
}

impl FilledHisto {
    /// The bin an event goes to, if any.
    pub fn target(&self, ev: &Event) -> (r: Result<Option<(u16, u16)>, AuxHistoError>)
        ensures
            match spec_target(self, *ev) {
                Ok(t) => r == Ok::<Option<(u16, u16)>, AuxHistoError>(t),
                Err(_) => r == Err::<Option<(u16, u16)>, AuxHistoError>(AuxHistoError::EvalOverflow),
            },
    {
        let f = match self.filter.try_eval(ev) {
            Some(v) => v,
            None => return Err(AuxHistoError::EvalOverflow),
        };
        if f == 0 {
            return Ok(None);
        }
        let vx = match self.x.expr.try_eval(ev) {
            Some(v) => v,
            None => return Err(AuxHistoError::EvalOverflow),
        };
        let bx = match bin_index(vx, self.x.min, self.x.max, self.x.bins) {
            Some(b) => b,
            None => return Ok(None),
        };
        match &self.y {
            None => Ok(Some((bx, 0))),
            Some(y) => {
                let vy = match y.expr.try_eval(ev) {
                    Some(v) => v,
                    None => return Err(AuxHistoError::EvalOverflow),
                };
                match bin_index(vy, y.min, y.max, y.bins) {
                    Some(by) => Ok(Some((bx, by))),
                    None => Ok(None),
                }
            },
        }
    }

    /// Whether every one of `events` can be evaluated.
    pub fn check_all(&self, events: &Vec<Event>) -> (r: bool)
        ensures
            r == all_defined(self, events@),
    {
        let mut i: usize = 0;
        while i < events.len()
            invariant
                i <= events@.len(),
                forall|k: int| 0 <= k < i ==> spec_target(self, #[trigger] events@[k]) is Ok,
            decreases events@.len() - i,
        {
            if self.target(&events[i]).is_err() {
                return false;
            }
            i = i + 1;
        }
        true
    }

    /// Counts each of `events` in its bin, if it has one.
    pub fn fill_all(&mut self, events: &Vec<Event>)
        requires
            old(self).shm.consistent(),
            all_defined(old(self), events@),
            old(self).shm.header.total_neutrons + events@.len() <= u64::MAX,
            forall|j: int| 0 <= j < events@.len() ==> (hit_offset(old(self), #[trigger] events@[j]) matches Some(off)
                ==> old(self).shm.bins@[off] + events@.len() <= u32::MAX),
        ensures
            filled(*old(self), *final(self), events@),
    {
        let ghost h0 = *self;
        let mut i: usize = 0;
        while i < events.len()
            invariant
                i <= events@.len(),
                h0.shm.consistent(),
                all_defined(&h0, events@),
                h0.shm.header.total_neutrons + events@.len() <= u64::MAX,
                forall|j: int| 0 <= j < events@.len() ==> (hit_offset(&h0, #[trigger] events@[j]) matches Some(off)
                    ==> h0.shm.bins@[off] + events@.len() <= u32::MAX),
                self.filter == h0.filter,
                self.x == h0.x,
                self.y == h0.y,
                self.shm_name == h0.shm_name,
                self.shm.consistent(),
                self.shm.bins@.len() == h0.shm.bins@.len(),
                self.shm.bins@ == count_into(&h0, h0.shm.bins@, events@.take(i as int)),
                self.shm.header == (ShmInterface {
                    total_neutrons: (h0.shm.header.total_neutrons + hit_count(&h0, events@.take(i as int))) as u64,
                    ..h0.shm.header
                }),
                hit_count(&h0, events@.take(i as int)) <= i,
                forall|j: int| 0 <= j < self.shm.bins@.len() ==> #[trigger] self.shm.bins@[j] <= h0.shm.bins@[j] + i,
            decreases events@.len() - i,
        {
            proof {
                assert(events@.take(i + 1).drop_last() =~= events@.take(i as int));
                assert(events@.take(i + 1).last() == events@[i as int]);
                assert(spec_target(&h0, events@[i as int]) is Ok);
            }
            let ev = &events[i];
            match self.target(ev) {
                Err(_) => {
                    assert(false);
                },
                Ok(None) => {},
                Ok(Some((bx, by))) => {
                    proof {
                        let nx = self.shm.header.nx as int;
                        let ny = self.shm.header.ny as int;
                        assert(crate::shm::bin_offset(nx, ny, bx as int, by as int, 0) == by as int * nx + bx as int) by (nonlinear_arith);
                        if bx < self.shm.header.nx && by < self.shm.header.ny && 0 < self.shm.header.nt {
                            let off = by as int * nx + bx as int;
                            assert(0 <= off < self.shm.bins@.len()) by (nonlinear_arith)
                                requires
                                    off == by as int * nx + bx as int,
                                    0 <= bx < nx,
                                    0 <= by < ny,
                                    1 <= self.shm.header.nt,
                                    self.shm.bins@.len() == nx * ny * self.shm.header.nt,
                            ;
                            assert(hit_offset(&h0, events@[i as int]) == Some(off));
                            assert(self.shm.bins@[off] < u32::MAX);
                        }
                    }
                    self.shm.add_histo(EventHisto { x: bx, y: by, t: 0, i: 0 });
                },
            }
            i = i + 1;
        }
        assert(events@.take(events@.len() as int) =~= events@);
    }
}

/// Whether every event of `evs` can be evaluated against `h`.
pub open spec fn all_defined(h: &FilledHisto, evs: Seq<Event>) -> bool {
    forall|i: int| 0 <= i < evs.len() ==> spec_target(h, #[trigger] evs[i]) is Ok
}

/// The offset of the bin that `ev` lands in, if it lands in one of the
/// segment's bins.
pub open spec fn hit_offset(h: &FilledHisto, ev: Event) -> Option<int> {
    match spec_target(h, ev) {
        Ok(Some((bx, by))) => if bx < h.shm.header.nx && by < h.shm.header.ny && 0 < h.shm.header.nt {
            Some(by as int * h.shm.header.nx as int + bx as int)
        } else {
            None
        },
        _ => None,
    }
}

/// `bins` after counting each of `evs` in its bin.
pub open spec fn count_into(h: &FilledHisto, bins: Seq<u32>, evs: Seq<Event>) -> Seq<u32>
    decreases evs.len(),
{
    if evs.len() == 0 {
        bins
    } else {
        let b = count_into(h, bins, evs.drop_last());
        match hit_offset(h, evs.last()) {
            Some(off) => b.update(off, (b[off] + 1) as u32),
            None => b,
        }
    }
}

/// How many of `evs` land in a bin.
pub open spec fn hit_count(h: &FilledHisto, evs: Seq<Event>) -> nat
    decreases evs.len(),
{
    if evs.len() == 0 {
        0
    } else {
        hit_count(h, evs.drop_last()) + if hit_offset(h, evs.last()) is Some {
            1nat
        } else {
            0nat
        }
    }
}

/// `new` is `old` after counting `evs`: the definition is kept, each
/// event is counted in its bin and in the neutron total.
pub open spec fn filled(old: FilledHisto, new: FilledHisto, evs: Seq<Event>) -> bool {
    &&& new.filter == old.filter
    &&& new.x == old.x
    &&& new.y == old.y
    &&& new.shm_name == old.shm_name
    &&& new.shm.consistent()
    &&& new.shm.bins@ == count_into(&old, old.shm.bins@, evs)
    &&& new.shm.header == (ShmInterface {
        total_neutrons: (old.shm.header.total_neutrons + hit_count(&old, evs)) as u64,
        ..old.shm.header
    })
}

/// Whether the segment of a definition would exceed the largest
/// histogram.
pub open spec fn too_large(s: HistoSpec) -> bool {
    histo_config_of(s).nx * histo_config_of(s).ny > MAX_HISTO_SIZE
}

/// `h` is a fresh, empty histogram for `s`, its segment named after `ipc`
/// and `out`.
pub open spec fn fresh_from(h: FilledHisto, s: HistoSpec, ipc: Seq<char>, out: Seq<char>, al: Map<Seq<char>, SpecAlias>) -> bool {
    &&& h.shm_name@ == spec_shm_name(ipc, out, s.name@)
    &&& compiled_spec(h.filter@, h.x, h.y, s, al)
    &&& is_fresh_header(h.shm.header, histo_config_of(s))
    &&& h.shm.consistent()
    &&& h.shm.bins@ == Seq::new(h.shm.bins@.len(), |i: int| 0u32)
}

/// The auxiliary histograms of one output: a global switch, the
/// definitions, and the histograms being filled.
pub struct AuxHistos {
    /// Prefix of the segment names.
    pub ipc_name: String,
    /// Name of the output.
    pub name: String,
    /// While off, events are not looked at.
    pub enabled: bool,
    pub histos: Vec<HistoSpec>,
    pub compiled: Vec<FilledHisto>,
    /// The expression aliases that the definitions may use.
    pub aliases: AliasTable,
}

impl AuxHistos {
    /// The output with the histograms `histos`, or why they are refused.
    /// Their expressions may use the aliases of `aliases`.
    pub fn new(ipc_name: String, name: String, enabled: bool, histos: Vec<HistoSpec>, aliases: AliasTable) -> (r: Result<AuxHistos, AuxHistoError>)
        ensures
            match r {
                Ok(a) => {
                    &&& first_error(histos@, histos@.len(), aliases@) == None::<AuxHistoError>
                    &&& forall|k: int| 0 <= k < histos@.len() ==> !too_large(#[trigger] histos@[k])
                    &&& a.ipc_name@ == ipc_name@
                    &&& a.name@ == name@
                    &&& a.enabled == enabled
                    &&& a.histos@ == histos@
                    &&& a.aliases@ == aliases@
                    &&& a.compiled@.len() == histos@.len()
                    &&& forall|k: int| 0 <= k < histos@.len() ==> fresh_from(#[trigger] a.compiled@[k], histos@[k], ipc_name@, name@, aliases@)
                },
                Err(e) => match first_error(histos@, histos@.len(), aliases@) {
                    Some(f) => e == f,
                    None => e == AuxHistoError::Segment(ShmError::TooLarge) && exists|k: int|
                        0 <= k < histos@.len() && too_large(#[trigger] histos@[k]),
                },
            },
    {
        let mut a = AuxHistos { ipc_name, name, enabled, histos: Vec::new(), compiled: Vec::new(), aliases };
        match a.set_histos(histos) {
            Ok(_) => Ok(a),
            Err(e) => Err(e),
        }
    }

    /// Replaces the histograms by fresh ones for `value`, after checking
    /// all of it: on a refusal nothing changes. Gives the segment names of
    /// the histograms it dropped.
    pub fn set_histos(&mut self, value: Vec<HistoSpec>) -> (r: Result<Vec<String>, AuxHistoError>)
        ensures
            match r {
                Ok(dropped) => {
                    &&& first_error(value@, value@.len(), old(self).aliases@) == None::<AuxHistoError>
                    &&& forall|k: int| 0 <= k < value@.len() ==> !too_large(#[trigger] value@[k])
                    &&& final(self).ipc_name == old(self).ipc_name
                    &&& final(self).name == old(self).name
                    &&& final(self).enabled == old(self).enabled
                    &&& final(self).aliases == old(self).aliases
                    &&& final(self).histos@ == value@
                    &&& final(self).compiled@.len() == value@.len()
                    &&& forall|k: int|
                        0 <= k < value@.len() ==> fresh_from(#[trigger] final(self).compiled@[k], value@[k], old(self).ipc_name@, old(self).name@, old(self).aliases@)
                    &&& dropped@.len() == old(self).compiled@.len()
                    &&& forall|k: int| 0 <= k < dropped@.len() ==> #[trigger] dropped@[k]@ == old(self).compiled@[k].shm_name@
                },
                Err(e) => {
                    &&& *final(self) == *old(self)
                    &&& match first_error(value@, value@.len(), old(self).aliases@) {
                        Some(f) => e == f,
                        None => e == AuxHistoError::Segment(ShmError::TooLarge) && exists|k: int|
                            0 <= k < value@.len() && too_large(#[trigger] value@[k]),
                    }
                },
            },
    {
        let mut prepared = match prepare(self.ipc_name.as_str(), self.name.as_str(), &value, &self.aliases) {
            Ok(p) => p,
            Err(e) => return Err(e),
        };
        let ghost all = prepared@;
        let mut fresh: Vec<FilledHisto> = Vec::new();
        while prepared.len() > 0
            invariant
                *self == *old(self),
                first_error(value@, value@.len(), self.aliases@) == None::<AuxHistoError>,
                all.len() == value@.len(),
                forall|k: int| 0 <= k < all.len() ==> prepared_from(#[trigger] all[k], value@[k], self.ipc_name@, self.name@, self.aliases@),
                fresh@.len() + prepared@.len() == all.len(),
                prepared@ == all.subrange(fresh@.len() as int, all.len() as int),
                forall|k: int| 0 <= k < fresh@.len() ==> !too_large(#[trigger] value@[k]),
                forall|k: int|
                    0 <= k < fresh@.len() ==> fresh_from(#[trigger] fresh@[k], value@[k], self.ipc_name@, self.name@, self.aliases@),
            decreases prepared@.len(),
        {
            let p = prepared.remove(0);
            let ghost k = fresh@.len() as int;
            assert(p == all[k]);
            assert(prepared_from(all[k], value@[k], self.ipc_name@, self.name@, self.aliases@));
            proof {
                let c = p.histo_config;
                assert(c.nx > 0 && c.ny > 0);
                assert(c.nx * c.ny * c.max_nt == c.nx * c.ny && c.nx * c.ny > 0) by (nonlinear_arith)
                    requires
                        c.nx > 0,
                        c.ny > 0,
                        c.max_nt == 1,
                ;
            }
            match ShmBox::create(&p.histo_config) {
                Err(e) => {
                    assert(too_large(value@[k]));
                    return Err(AuxHistoError::Segment(e));
                },
                Ok(shm) => {
                    let h = FilledHisto { filter: p.filter, x: p.x, y: p.y, shm_name: p.shm_name, shm };
                    assert(fresh_from(h, value@[k], self.ipc_name@, self.name@, self.aliases@));
                    fresh.push(h);
                },
            }
        }
        let mut dropped: Vec<String> = Vec::new();
        let mut i: usize = 0;
        while i < self.compiled.len()
            invariant
                i <= self.compiled@.len(),
                dropped@.len() == i,
                forall|k: int| 0 <= k < i ==> #[trigger] dropped@[k]@ == self.compiled@[k].shm_name@,
            decreases self.compiled@.len() - i,
        {
            dropped.push(self.compiled[i].shm_name.clone());
            i = i + 1;
        }
        self.compiled = fresh;
        self.histos = value;
        Ok(dropped)
    }

    /// Switches event processing on or off.
    pub fn set_enabled(&mut self, enabled: bool)
        ensures
            *final(self) == (AuxHistos { enabled, ..*old(self) }),
    {
        self.enabled = enabled;
    }

    /// Counts a batch of events in every histogram, after checking that
    /// every expression can be evaluated for every event (if not, nothing
    /// changes); while switched off, nothing happens.
    pub fn handle_events(&mut self, events: &Vec<Event>) -> (r: Result<(), AuxHistoError>)
        requires
            forall|k: int| 0 <= k < old(self).compiled@.len() ==> {
                &&& (#[trigger] old(self).compiled@[k]).shm.consistent()
                &&& old(self).compiled@[k].shm.header.total_neutrons + events@.len() <= u64::MAX
                &&& forall|j: int| 0 <= j < events@.len() ==> (hit_offset(&old(self).compiled@[k], #[trigger] events@[j]) matches Some(off)
                    ==> old(self).compiled@[k].shm.bins@[off] + events@.len() <= u32::MAX)
            },
        ensures
            !old(self).enabled ==> r is Ok && *final(self) == *old(self),
            old(self).enabled ==> {
                &&& (r is Ok <==> forall|k: int| 0 <= k < old(self).compiled@.len() ==> all_defined(&#[trigger] old(self).compiled@[k], events@))
                &&& (r is Err ==> r == Err::<(), AuxHistoError>(AuxHistoError::EvalOverflow) && *final(self) == *old(self))
                &&& (r is Ok ==> {
                    &&& final(self).ipc_name == old(self).ipc_name
                    &&& final(self).name == old(self).name
                    &&& final(self).enabled == old(self).enabled
                    &&& final(self).histos == old(self).histos
                    &&& final(self).compiled@.len() == old(self).compiled@.len()
                    &&& forall|k: int|
                        0 <= k < old(self).compiled@.len() ==> filled(old(self).compiled@[k], #[trigger] final(self).compiled@[k], events@)
                })
            },
    {
        if !self.enabled {
            return Ok(());
        }
        let mut i: usize = 0;
        while i < self.compiled.len()
            invariant
                i <= self.compiled@.len(),
                *self == *old(self),
                self.enabled,
                forall|k: int| 0 <= k < i ==> all_defined(&#[trigger] self.compiled@[k], events@),
            decreases self.compiled@.len() - i,
        {
            if !self.compiled[i].check_all(events) {
                return Err(AuxHistoError::EvalOverflow);
            }
            i = i + 1;
        }
        let ghost orig = self.compiled@;
        let mut rest: Vec<FilledHisto> = Vec::new();
        std::mem::swap(&mut rest, &mut self.compiled);
        let mut done: Vec<FilledHisto> = Vec::new();
        while rest.len() > 0
            invariant
                forall|k: int| 0 <= k < orig.len() ==> all_defined(&#[trigger] orig[k], events@),
                forall|k: int| 0 <= k < orig.len() ==> {
                    &&& (#[trigger] orig[k]).shm.consistent()
                    &&& orig[k].shm.header.total_neutrons + events@.len() <= u64::MAX
                    &&& forall|j: int| 0 <= j < events@.len() ==> (hit_offset(&orig[k], #[trigger] events@[j]) matches Some(off)
                        ==> orig[k].shm.bins@[off] + events@.len() <= u32::MAX)
                },
                done@.len() + rest@.len() == orig.len(),
                rest@ == orig.subrange(done@.len() as int, orig.len() as int),
                forall|k: int| 0 <= k < done@.len() ==> filled(orig[k], #[trigger] done@[k], events@),
                self.ipc_name == old(self).ipc_name,
                self.name == old(self).name,
                self.enabled == old(self).enabled,
                self.histos == old(self).histos,
            decreases rest@.len(),
        {
            let mut h = rest.remove(0);
            let ghost k = done@.len() as int;
            assert(h == orig[k]);
            h.fill_all(events);
            done.push(h);
        }
        self.compiled = done;
        Ok(())
    }

    /// A run starts: every segment records the run id.
    pub fn start_of_run(&mut self, run: &str)
        ensures
            final(self).ipc_name == old(self).ipc_name,
            final(self).name == old(self).name,
            final(self).enabled == old(self).enabled,
            final(self).histos == old(self).histos,
            final(self).compiled@.len() == old(self).compiled@.len(),
            forall|k: int|
                0 <= k < old(self).compiled@.len() ==> {
                    let (o, n) = (old(self).compiled@[k], #[trigger] final(self).compiled@[k]);
                    &&& n.filter == o.filter && n.x == o.x && n.y == o.y && n.shm_name == o.shm_name
                    &&& n.shm.bins == o.shm.bins
                    &&& n.shm.header.run_id@ == stored_run_id(run.spec_bytes())
                    &&& n.shm.header == (ShmInterface { run_id: n.shm.header.run_id, ..o.shm.header })
                },
    {
        let ghost orig = self.compiled@;
        let mut rest: Vec<FilledHisto> = Vec::new();
        std::mem::swap(&mut rest, &mut self.compiled);
        let mut done: Vec<FilledHisto> = Vec::new();
        while rest.len() > 0
            invariant
                done@.len() + rest@.len() == orig.len(),
                rest@ == orig.subrange(done@.len() as int, orig.len() as int),
                forall|k: int|
                    0 <= k < done@.len() ==> {
                        let (o, n) = (orig[k], #[trigger] done@[k]);
                        &&& n.filter == o.filter && n.x == o.x && n.y == o.y && n.shm_name == o.shm_name
                        &&& n.shm.bins == o.shm.bins
                        &&& n.shm.header.run_id@ == stored_run_id(run.spec_bytes())
                        &&& n.shm.header == (ShmInterface { run_id: n.shm.header.run_id, ..o.shm.header })
                    },
                self.ipc_name == old(self).ipc_name,
                self.name == old(self).name,
                self.enabled == old(self).enabled,
                self.histos == old(self).histos,
            decreases rest@.len(),
        {
            let mut h = rest.remove(0);
            let ghost k = done@.len() as int;
            assert(h == orig[k]);
            h.shm.header.set_run_id(run);
            done.push(h);
        }
        self.compiled = done;
    }

    /// Zeroes every histogram.
    pub fn clear(&mut self)
        ensures
            final(self).ipc_name == old(self).ipc_name,
            final(self).name == old(self).name,
            final(self).enabled == old(self).enabled,
            final(self).histos == old(self).histos,
            final(self).compiled@.len() == old(self).compiled@.len(),
            forall|k: int|
                0 <= k < old(self).compiled@.len() ==> {
                    let (o, n) = (old(self).compiled@[k], #[trigger] final(self).compiled@[k]);
                    &&& n.filter == o.filter && n.x == o.x && n.y == o.y && n.shm_name == o.shm_name
                    &&& n.shm.header == o.shm.header
                    &&& n.shm.bins@ == Seq::new(o.shm.bins@.len(), |i: int| 0u32)
                },
    {
        let ghost orig = self.compiled@;
        let mut rest: Vec<FilledHisto> = Vec::new();
        std::mem::swap(&mut rest, &mut self.compiled);
        let mut done: Vec<FilledHisto> = Vec::new();
        while rest.len() > 0
            invariant
                done@.len() + rest@.len() == orig.len(),
                rest@ == orig.subrange(done@.len() as int, orig.len() as int),
                forall|k: int|
                    0 <= k < done@.len() ==> {
                        let (o, n) = (orig[k], #[trigger] done@[k]);
                        &&& n.filter == o.filter && n.x == o.x && n.y == o.y && n.shm_name == o.shm_name
                        &&& n.shm.header == o.shm.header
                        &&& n.shm.bins@ == Seq::new(o.shm.bins@.len(), |i: int| 0u32)
                    },
                self.ipc_name == old(self).ipc_name,
                self.name == old(self).name,
                self.enabled == old(self).enabled,
                self.histos == old(self).histos,
            decreases rest@.len(),
        {
            let mut h = rest.remove(0);
            let ghost k = done@.len() as int;
            assert(h == orig[k]);
            h.shm.clear_histo();
            done.push(h);
        }
        self.compiled = done;
    }
}

} // verus!
