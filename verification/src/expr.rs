//! A small expression language for extracting numeric values (histogram
//! axes) or boolean filters (nonzero = keep) from an [`Event`].
//!
//! Grammar:
//! ```text
//! expr    := or
//! or      := and ( "||" and )*
//! and     := rel ( "&&" rel )*
//! rel     := add ( ("=="|"!="|"<"|"<="|">"|">=") add )?
//! add     := mul ( ("+"|"-") mul )*
//! mul     := unary ( ("*"|"/"|"&"|">>"|"<<") unary )*
//! unary   := ("-"|"!") unary | postfix
//! postfix := primary ( "[" int ".." int (":signed")? "]" )*
//! primary := int | ident | "(" expr ")"
//! ```
//!
//! Fields: `time`, `rel_time`, `raw_0`, `raw_1`, `channel`, `ampl`,
//! `x`, `y`, `t`, `i`, `flags`, `evtype`, `auxnum`, `monnum`, `gateup`.
//! Named constants for `evtype` comparisons: `neutron`, `monitor`, `edge`,
//! `gate`, `tzero`, `auxsignal`, `heartbeat`, `void`.
//! Integer literals: decimal, hex (`0x..`) or binary (`0b..`).
//! Bit-slice: `<expr>[offset..end]` (unsigned) or `[offset..end:signed]`.
//! An identifier that is neither a field nor a named constant is resolved
//! against an alias table (name -> expression text).


pub mod alias;
pub mod lexer;
pub mod parser;

use vstd::prelude::*;
use crate::event::{Event, EventType, spec_evtype_code, trunc_div};
use crate::text::{chars_eq_str, str_to_chars};
use crate::expr::alias::AliasTable;
use crate::expr::lexer::ExprError;
use crate::expr::parser::{parse_text, spec_parse_text};


verus! {

/// An event field readable from an expression.
#[derive(Debug, Clone, Copy, PartialEq, Eq, Structural)]
pub enum Field {
    Time,
    RelTime,
    Raw0,
    Raw1,
    Channel,
    Ampl,
    HistoX,
    HistoY,
    HistoT,
    HistoI,
    Flags,
    EvType,
    AuxNum,
    MonNum,
    GateUp,
}

pub open spec fn spec_field_resolve(name: Seq<char>) -> Option<Field> {
    if name == "time"@ {
        Some(Field::Time)
    } else if name == "rel_time"@ {
        Some(Field::RelTime)
    } else if name == "raw_0"@ {
        Some(Field::Raw0)
    } else if name == "raw_1"@ {
        Some(Field::Raw1)
    } else if name == "channel"@ {
        Some(Field::Channel)
    } else if name == "ampl"@ {
        Some(Field::Ampl)
    } else if name == "x"@ {
        Some(Field::HistoX)
    } else if name == "y"@ {
        Some(Field::HistoY)
    } else if name == "t"@ {
        Some(Field::HistoT)
    } else if name == "i"@ {
        Some(Field::HistoI)
    } else if name == "flags"@ {
        Some(Field::Flags)
    } else if name == "evtype"@ {
        Some(Field::EvType)
    } else if name == "auxnum"@ {
        Some(Field::AuxNum)
    } else if name == "monnum"@ {
        Some(Field::MonNum)
    } else if name == "gateup"@ {
        Some(Field::GateUp)
    } else {
        None
    }
}

pub open spec fn spec_named_constant(name: Seq<char>) -> Option<i64> {
    if name == "neutron"@ {
        Some(0x01)
    } else if name == "monitor"@ {
        Some(0x02)
    } else if name == "edge"@ {
        Some(0x10)
    } else if name == "gate"@ {
        Some(0x11)
    } else if name == "tzero"@ {
        Some(0x12)
    } else if name == "auxsignal"@ {
        Some(0x13)
    } else if name == "heartbeat"@ {
        Some(0x80)
    } else if name == "void"@ {
        Some(0xFF)
    } else {
        None
    }
}

/// Value of a field for an event.
pub open spec fn spec_field_eval(f: Field, ev: Event) -> i64 {
    match f {
        Field::Time => ev.time.0,
        Field::RelTime => ev.rel_time.0,
        Field::Raw0 => ev.raw.0 as i64,
        Field::Raw1 => ev.raw.1 as i64,
        Field::Channel => ev.channel.0 as i64,
        Field::Ampl => ev.ampl.0 as i64,
        Field::HistoX => ev.histo.x as i64,
        Field::HistoY => ev.histo.y as i64,
        Field::HistoT => ev.histo.t as i64,
        Field::HistoI => ev.histo.i as i64,
        Field::Flags => ev.flags.spec_bits() as i64,
        Field::EvType => spec_evtype_code(ev.evtype),
        Field::AuxNum => match ev.evtype {
            EventType::AuxSignal { num } => num as i64,
            _ => -1i64,
        },
        Field::MonNum => match ev.evtype {
            EventType::Monitor { num } => num as i64,
            _ => -1i64,
        },
        Field::GateUp => match ev.evtype {
            EventType::Edge { up } => if up { 1 } else { 0 },
            EventType::Gate { up } => if up { 1 } else { 0 },
            _ => -1i64,
        },
    }
}

impl Field {
    pub fn resolve(ident: &Vec<char>) -> (r: Option<Field>)
        ensures
            r == spec_field_resolve(ident@),
    {
        if chars_eq_str(ident, "time") {
            Some(Field::Time)
        } else if chars_eq_str(ident, "rel_time") {
            Some(Field::RelTime)
        } else if chars_eq_str(ident, "raw_0") {
            Some(Field::Raw0)
        } else if chars_eq_str(ident, "raw_1") {
            Some(Field::Raw1)
        } else if chars_eq_str(ident, "channel") {
            Some(Field::Channel)
        } else if chars_eq_str(ident, "ampl") {
            Some(Field::Ampl)
        } else if chars_eq_str(ident, "x") {
            Some(Field::HistoX)
        } else if chars_eq_str(ident, "y") {
            Some(Field::HistoY)
        } else if chars_eq_str(ident, "t") {
            Some(Field::HistoT)
        } else if chars_eq_str(ident, "i") {
            Some(Field::HistoI)
        } else if chars_eq_str(ident, "flags") {
            Some(Field::Flags)
        } else if chars_eq_str(ident, "evtype") {
            Some(Field::EvType)
        } else if chars_eq_str(ident, "auxnum") {
            Some(Field::AuxNum)
        } else if chars_eq_str(ident, "monnum") {
            Some(Field::MonNum)
        } else if chars_eq_str(ident, "gateup") {
            Some(Field::GateUp)
        } else {
            None
        }
    }

    pub fn eval(self, ev: &Event) -> (r: i64)
        ensures
            r == spec_field_eval(self, *ev),
    {
        match self {
            Field::Time => ev.time.0,
            Field::RelTime => ev.rel_time.0,
            Field::Raw0 => ev.raw.0 as i64,
            Field::Raw1 => ev.raw.1 as i64,
            Field::Channel => ev.channel.0 as i64,
            Field::Ampl => ev.ampl.0 as i64,
            Field::HistoX => ev.histo.x as i64,
            Field::HistoY => ev.histo.y as i64,
            Field::HistoT => ev.histo.t as i64,
            Field::HistoI => ev.histo.i as i64,
            Field::Flags => ev.flags.bits() as i64,
            Field::EvType => evtype_discriminant(&ev.evtype),
            Field::AuxNum => match ev.evtype {
                EventType::AuxSignal { num } => num as i64,
                _ => -1,
            },
            Field::MonNum => match ev.evtype {
                EventType::Monitor { num } => num as i64,
                _ => -1,
            },
            Field::GateUp => match ev.evtype {
                EventType::Edge { up } => if up { 1 } else { 0 },
                EventType::Gate { up } => if up { 1 } else { 0 },
                _ => -1,
            },
        }
    }
}

pub fn evtype_discriminant(t: &EventType) -> (r: i64)
    ensures
        r == spec_evtype_code(*t),
{
    match t {
        EventType::Neutron => 0x01,
        EventType::Monitor { .. } => 0x02,
        EventType::Edge { .. } => 0x10,
        EventType::Gate { .. } => 0x11,
        EventType::Tzero => 0x12,
        EventType::AuxSignal { .. } => 0x13,
        EventType::Heartbeat => 0x80,
        EventType::Void => 0xFF,
    }
}

pub fn named_constant(ident: &Vec<char>) -> (r: Option<i64>)
    ensures
        r == spec_named_constant(ident@),
{
    if chars_eq_str(ident, "neutron") {
        Some(0x01)
    } else if chars_eq_str(ident, "monitor") {
        Some(0x02)
    } else if chars_eq_str(ident, "edge") {
        Some(0x10)
    } else if chars_eq_str(ident, "gate") {
        Some(0x11)
    } else if chars_eq_str(ident, "tzero") {
        Some(0x12)
    } else if chars_eq_str(ident, "auxsignal") {
        Some(0x13)
    } else if chars_eq_str(ident, "heartbeat") {
        Some(0x80)
    } else if chars_eq_str(ident, "void") {
        Some(0xFF)
    } else {
        None
    }
}

pub open spec fn spec_is_reserved(name: Seq<char>) -> bool {
    spec_field_resolve(name) is Some || spec_named_constant(name) is Some
}

/// True if `name` is an intrinsic field or named constant, which a custom
/// alias must not shadow.
pub fn is_reserved_name(name: &str) -> (r: bool)
    ensures
        r == spec_is_reserved(name@),
{
    let chars = str_to_chars(name);
    Field::resolve(&chars).is_some() || named_constant(&chars).is_some()
}

#[derive(Debug, Clone, Copy, PartialEq, Eq, Structural)]
pub enum BinOp {
    Add,
    Sub,
    Mul,
    Div,
    BitAnd,
    Shl,
    Shr,
    Eq,
    Ne,
    Lt,
    Le,
    Gt,
    Ge,
    LogAnd,
    LogOr,
}

/// Syntax tree of a parsed expression.
#[derive(Debug)]
pub enum Node {
    Lit(i64),
    Field(Field),
    /// Bits `offset .. offset + width` of the inner value (taken as `u32`),
    /// sign-extended if the flag is set.
    Slice(Box<Node>, u32, u32, bool),
    Neg(Box<Node>),
    Not(Box<Node>),
    BinOp(BinOp, Box<Node>, Box<Node>),
}

/// Every bit slice starts inside the 32-bit word and is 1 to 32 bits wide.
pub open spec fn spec_node_wf(n: Node) -> bool
    decreases n,
{
    match n {
        Node::Lit(_) => true,
        Node::Field(_) => true,
        Node::Slice(inner, offset, width, _) => offset < 32 && 1 <= width <= 32 && spec_node_wf(
            *inner,
        ),
        Node::Neg(inner) => spec_node_wf(*inner),
        Node::Not(inner) => spec_node_wf(*inner),
        Node::BinOp(_, l, r) => spec_node_wf(*l) && spec_node_wf(*r),
    }
}

pub open spec fn bool_val(b: bool) -> i64 {
    if b {
        1
    } else {
        0
    }
}

/// Bits `offset .. offset + width` of `v` (as `u32`), optionally
/// sign-extended from the slice's top bit.
pub open spec fn spec_slice_value(v: i64, offset: u32, width: u32, signed: bool) -> i64 {
    let x = v as u32;
    let mask: u32 = if width >= 32 { u32::MAX } else { ((1u32 << width) - 1) as u32 };
    let extracted: u32 = (x >> offset) & mask;
    if signed {
        ((((extracted << ((32 - width) as u32)) as u32) as i32) >> ((32 - width) as u32)) as i64
    } else {
        extracted as i64
    }
}

/// `l.wrapping_div(r)` with `/ 0` defined as `0`.
pub open spec fn spec_div(l: i64, r: i64) -> i64 {
    if r == 0 {
        0
    } else if l == i64::MIN && r == -1 {
        i64::MIN
    } else {
        trunc_div(l as int, r as int) as i64
    }
}

/// Value of a binary operator applied to two operand values (both
/// operands evaluated; the logical operators only need the right operand
/// when the left one does not decide).
pub open spec fn spec_binop_value(op: BinOp, l: i64, r: i64) -> i64 {
    match op {
        BinOp::Add => l.wrapping_add(r),
        BinOp::Sub => l.wrapping_sub(r),
        BinOp::Mul => l.wrapping_mul(r),
        BinOp::Div => spec_div(l, r),
        BinOp::BitAnd => l & r,
        BinOp::Shl => l.wrapping_shl(r as u32),
        BinOp::Shr => l.wrapping_shr(r as u32),
        BinOp::Eq => bool_val(l == r),
        BinOp::Ne => bool_val(l != r),
        BinOp::Lt => bool_val(l < r),
        BinOp::Le => bool_val(l <= r),
        BinOp::Gt => bool_val(l > r),
        BinOp::Ge => bool_val(l >= r),
        BinOp::LogAnd => bool_val(l != 0 && r != 0),
        BinOp::LogOr => bool_val(l != 0 || r != 0),
    }
}

/// Value of an expression tree for an event.
pub open spec fn spec_eval(n: Node, ev: Event) -> i64
    decreases n,
{
    match n {
        Node::Lit(v) => v,
        Node::Field(f) => spec_field_eval(f, ev),
        Node::Slice(inner, offset, width, signed) => spec_slice_value(
            spec_eval(*inner, ev),
            offset,
            width,
            signed,
        ),
        Node::Neg(inner) => (-spec_eval(*inner, ev)) as i64,
        Node::Not(inner) => bool_val(spec_eval(*inner, ev) == 0),
        Node::BinOp(op, l, r) => spec_binop_value(op, spec_eval(*l, ev), spec_eval(*r, ev)),
    }
}

/// Evaluation stays within `i64`: no negation of `i64::MIN` among the
/// subexpressions that evaluation reaches (`&&` and `||` skip their right
/// operand when the left one decides).
pub open spec fn spec_defined(n: Node, ev: Event) -> bool
    decreases n,
{
    match n {
        Node::Lit(_) => true,
        Node::Field(_) => true,
        Node::Slice(inner, _, _, _) => spec_defined(*inner, ev),
        Node::Neg(inner) => spec_defined(*inner, ev) && spec_eval(*inner, ev) != i64::MIN,
        Node::Not(inner) => spec_defined(*inner, ev),
        Node::BinOp(op, l, r) => spec_defined(*l, ev) && (match op {
            BinOp::LogAnd => spec_eval(*l, ev) != 0 ==> spec_defined(*r, ev),
            BinOp::LogOr => spec_eval(*l, ev) == 0 ==> spec_defined(*r, ev),
            _ => spec_defined(*r, ev),
        }),
    }
}

fn slice_value(v: i64, offset: u32, width: u32, signed: bool) -> (r: i64)
    requires
        offset < 32,
        1 <= width <= 32,
    ensures
        r == spec_slice_value(v, offset, width, signed),
{
    let x = v as u32;
    let mask: u32 = if width >= 32 {
        u32::MAX
    } else {
        assert(1u32 << width >= 1) by (bit_vector)
            requires
                width < 32,
        ;
        (1u32 << width) - 1
    };
    let extracted = (x >> offset) & mask;
    if signed {
        (#[verifier::truncate] ((extracted << (32 - width)) as i32) >> (32 - width)) as i64
    } else {
        extracted as i64
    }
}

proof fn lemma_div_nonneg_bounds(a: int, b: int)
    requires
        a >= 0,
        b >= 1,
    ensures
        0 <= a / b <= a,
{
    assert(0 <= a / b <= a) by (nonlinear_arith)
        requires
            a >= 0,
            b >= 1,
    ;
}

/// Truncating division of `i64` values stays in range, except for
/// `i64::MIN / -1`.
proof fn lemma_trunc_div_in_range(a: int, b: int)
    requires
        i64::MIN <= a <= i64::MAX,
        i64::MIN <= b <= i64::MAX,
        b != 0,
        !(a == i64::MIN && b == -1),
    ensures
        i64::MIN <= trunc_div(a, b) <= i64::MAX,
{
    if a > 0 && b > 0 {
        lemma_div_nonneg_bounds(a, b);
    } else if a < 0 && b < 0 {
        lemma_div_nonneg_bounds(-a, -b);
        if b == -1 {
            assert(-a <= i64::MAX);
        } else {
            assert((a * -1) / (b * -1) <= i64::MAX) by (nonlinear_arith)
                requires
                    a < 0,
                    b <= -2,
                    a >= i64::MIN,
            ;
        }
    } else if a < 0 {
        lemma_div_nonneg_bounds(-a, b);
    } else if a > 0 {
        lemma_div_nonneg_bounds(a, -b);
    }
}

fn binop_value(op: BinOp, l: i64, r: i64) -> (res: i64)
    ensures
        res == spec_binop_value(op, l, r),
{
    match op {
        BinOp::Add => l.wrapping_add(r),
        BinOp::Sub => l.wrapping_sub(r),
        BinOp::Mul => l.wrapping_mul(r),
        BinOp::Div => {
            if r == 0 {
                0
            } else if l == i64::MIN && r == -1 {
                i64::MIN
            } else {
                proof {
                    lemma_trunc_div_in_range(l as int, r as int);
                }
                let q = l.checked_div(r);
                match q {
                    Some(q) => q,
                    None => 0,  // unreachable: r != 0 and not i64::MIN / -1
                }
            }
        },
        BinOp::BitAnd => l & r,
        BinOp::Shl => l.wrapping_shl(#[verifier::truncate] (r as u32)),
        BinOp::Shr => l.wrapping_shr(#[verifier::truncate] (r as u32)),
        BinOp::Eq => if l == r { 1 } else { 0 },
        BinOp::Ne => if l != r { 1 } else { 0 },
        BinOp::Lt => if l < r { 1 } else { 0 },
        BinOp::Le => if l <= r { 1 } else { 0 },
        BinOp::Gt => if l > r { 1 } else { 0 },
        BinOp::Ge => if l >= r { 1 } else { 0 },
        BinOp::LogAnd => if l != 0 && r != 0 { 1 } else { 0 },
        BinOp::LogOr => if l != 0 || r != 0 { 1 } else { 0 },
    }
}

impl Node {
    pub fn try_eval(&self, ev: &Event) -> (r: Option<i64>)
        requires
            spec_node_wf(*self),
        ensures
            r == (if spec_defined(*self, *ev) {
                Some(spec_eval(*self, *ev))
            } else {
                None::<i64>
            }),
        decreases self,
    {
        match self {
            Node::Lit(v) => Some(*v),
            Node::Field(f) => Some(f.eval(ev)),
            Node::Slice(inner, offset, width, signed) => {
                match inner.try_eval(ev) {
                    Some(v) => Some(slice_value(v, *offset, *width, *signed)),
                    None => None,
                }
            },
            Node::Neg(inner) => {
                match inner.try_eval(ev) {
                    Some(v) => if v == i64::MIN {
                        None
                    } else {
                        Some(-v)
                    },
                    None => None,
                }
            },
            Node::Not(inner) => {
                match inner.try_eval(ev) {
                    Some(v) => Some(if v == 0 { 1 } else { 0 }),
                    None => None,
                }
            },
            Node::BinOp(op, lhs, rhs) => {
                let l = match lhs.try_eval(ev) {
                    Some(l) => l,
                    None => return None,
                };
                match op {
                    BinOp::LogAnd => {
                        if l == 0 {
                            return Some(0);
                        }
                        return match rhs.try_eval(ev) {
                            Some(r) => Some(if r != 0 { 1 } else { 0 }),
                            None => None,
                        };
                    },
                    BinOp::LogOr => {
                        if l != 0 {
                            return Some(1);
                        }
                        return match rhs.try_eval(ev) {
                            Some(r) => Some(if r != 0 { 1 } else { 0 }),
                            None => None,
                        };
                    },
                    _ => {},
                }
                match rhs.try_eval(ev) {
                    Some(r) => Some(binop_value(*op, l, r)),
                    None => None,
                }
            },
        }
    }

    pub fn eval(&self, ev: &Event) -> (r: i64)
        requires
            spec_node_wf(*self),
            spec_defined(*self, *ev),
        ensures
            r == spec_eval(*self, *ev),
        decreases self,
    {
        match self {
            Node::Lit(v) => *v,
            Node::Field(f) => f.eval(ev),
            Node::Slice(inner, offset, width, signed) => {
                let v = inner.eval(ev);
                slice_value(v, *offset, *width, *signed)
            },
            Node::Neg(inner) => -inner.eval(ev),
            Node::Not(inner) => if inner.eval(ev) == 0 { 1 } else { 0 },
            Node::BinOp(op, lhs, rhs) => {
                let l = lhs.eval(ev);
                match op {
                    BinOp::LogAnd => {
                        return if l != 0 && rhs.eval(ev) != 0 { 1 } else { 0 };
                    },
                    BinOp::LogOr => {
                        return if l != 0 || rhs.eval(ev) != 0 { 1 } else { 0 };
                    },
                    _ => {},
                }
                let r = rhs.eval(ev);
                binop_value(*op, l, r)
            },
        }
    }
}

/// A parsed, ready-to-evaluate expression.
#[derive(Debug)]
pub struct Expr {
    root: Node,
}

impl View for Expr {
    type V = Node;

    closed spec fn view(&self) -> Node {
        self.root
    }
}

impl Expr {
    #[verifier::type_invariant]
    closed spec fn wf(self) -> bool {
        spec_node_wf(self.root)
    }

    pub(crate) fn from_root(root: Node) -> (e: Expr)
        requires
            spec_node_wf(root),
        ensures
            e@ == root,
    {
        Expr { root }
    }

    /// Parses an expression that may use fields and named constants only.
    pub fn parse(src: &str) -> (r: Result<Expr, ExprError>)
        ensures
            match r {
                Ok(e) => spec_parse_text(src@, Map::empty(), 0) == Ok::<Node, ExprError>(e@),
                Err(err) => spec_parse_text(src@, Map::empty(), 0) == Err::<Node, ExprError>(err),
            },
    {
        let empty = AliasTable::new();
        Self::parse_with_aliases(src, &empty)
    }

    /// Like [`Expr::parse`], but resolves any identifier that isn't a known
    /// field or named constant against `aliases` before giving up. Aliases
    /// may reference other aliases, up to a fixed nesting depth.
    pub fn parse_with_aliases(src: &str, aliases: &AliasTable) -> (r: Result<Expr, ExprError>)
        ensures
            match r {
                Ok(e) => spec_parse_text(src@, aliases@, 0) == Ok::<Node, ExprError>(e@),
                Err(err) => spec_parse_text(src@, aliases@, 0) == Err::<Node, ExprError>(err),
            },
    {
        match parse_text(src, aliases, 0) {
            Ok(root) => Ok(Expr { root }),
            Err(e) => Err(e),
        }
    }

    /// Evaluates the expression for `ev`, or `None` where evaluation would
    /// negate `i64::MIN`.
    pub fn try_eval(&self, ev: &Event) -> (r: Option<i64>)
        ensures
            r == (if spec_defined(self@, *ev) {
                Some(spec_eval(self@, *ev))
            } else {
                None::<i64>
            }),
    {
        proof {
            use_type_invariant(self);
        }
        self.root.try_eval(ev)
    }

    /// Evaluates the expression for `ev`.
    pub fn eval(&self, ev: &Event) -> (r: i64)
        requires
            spec_defined(self@, *ev),
        ensures
            r == spec_eval(self@, *ev),
    {
        proof {
            use_type_invariant(self);
        }
        self.root.eval(ev)
    }
}


/// The comparison and logical operators give 1 where their relation holds
/// and 0 where it does not: `<` is less-than, `<=` less-or-equal, `>`
/// greater-than, `>=` greater-or-equal, `==` equality and `!=` its
/// negation; `&&` is 1 where both operands are nonzero, `||` where either is.
pub proof fn law_comparisons_mean_their_names(l: i64, r: i64)
    ensures
        spec_binop_value(BinOp::Lt, l, r) == 1 <==> l < r,
        spec_binop_value(BinOp::Le, l, r) == 1 <==> l <= r,
        spec_binop_value(BinOp::Gt, l, r) == 1 <==> l > r,
        spec_binop_value(BinOp::Ge, l, r) == 1 <==> l >= r,
        spec_binop_value(BinOp::Eq, l, r) == 1 <==> l == r,
        spec_binop_value(BinOp::Ne, l, r) == 1 <==> l != r,
        spec_binop_value(BinOp::LogAnd, l, r) == 1 <==> (l != 0 && r != 0),
        spec_binop_value(BinOp::LogOr, l, r) == 1 <==> (l != 0 || r != 0),
        forall|op: BinOp|
            (op == BinOp::Lt || op == BinOp::Le || op == BinOp::Gt || op == BinOp::Ge || op == BinOp::Eq
                || op == BinOp::Ne || op == BinOp::LogAnd || op == BinOp::LogOr) ==> (#[trigger] spec_binop_value(op, l, r) == 0
                || spec_binop_value(op, l, r) == 1),
{
}

/// A comparison of two subexpressions evaluates, for every event, to 1
/// exactly where the relation holds between the subexpressions' values.
pub proof fn law_comparison_eval(op: BinOp, l: Node, r: Node, ev: Event)
    ensures
        op == BinOp::Le ==> (spec_eval(Node::BinOp(op, Box::new(l), Box::new(r)), ev) == 1 <==> spec_eval(l, ev) <= spec_eval(r, ev)),
        op == BinOp::Lt ==> (spec_eval(Node::BinOp(op, Box::new(l), Box::new(r)), ev) == 1 <==> spec_eval(l, ev) < spec_eval(r, ev)),
        op == BinOp::Ge ==> (spec_eval(Node::BinOp(op, Box::new(l), Box::new(r)), ev) == 1 <==> spec_eval(l, ev) >= spec_eval(r, ev)),
        op == BinOp::Gt ==> (spec_eval(Node::BinOp(op, Box::new(l), Box::new(r)), ev) == 1 <==> spec_eval(l, ev) > spec_eval(r, ev)),
        op == BinOp::Eq ==> (spec_eval(Node::BinOp(op, Box::new(l), Box::new(r)), ev) == 1 <==> spec_eval(l, ev) == spec_eval(r, ev)),
        op == BinOp::Ne ==> (spec_eval(Node::BinOp(op, Box::new(l), Box::new(r)), ev) == 1 <==> spec_eval(l, ev) != spec_eval(r, ev)),
{
    law_comparisons_mean_their_names(spec_eval(l, ev), spec_eval(r, ev));
}


/// Where the exact result fits in 64 bits, `+`, `-` and `*` give the sum,
/// difference and product, and `/` by a nonzero divisor gives a quotient
/// rounded toward zero: `l == q * r + m` with `|m| < |r|` and `m` zero or
/// of the sign of `l`; `/` by zero gives 0.
pub proof fn law_arithmetic_operators(l: i64, r: i64)
    ensures
        i64::MIN <= l + r <= i64::MAX ==> spec_binop_value(BinOp::Add, l, r) == l + r,
        i64::MIN <= l - r <= i64::MAX ==> spec_binop_value(BinOp::Sub, l, r) == l - r,
        i64::MIN <= l * r <= i64::MAX ==> spec_binop_value(BinOp::Mul, l, r) == l * r,
        r == 0 ==> spec_binop_value(BinOp::Div, l, r) == 0,
        r != 0 && !(l == i64::MIN && r == -1) ==> ({
            let q = spec_binop_value(BinOp::Div, l, r) as int;
            let m = l - q * r;
            &&& (if r > 0 { -r < m < r } else { r < m < -r })
            &&& (m == 0 || (m > 0) == (l > 0))
        }),
{
    if r != 0 && !(l == i64::MIN && r == -1) {
        lemma_trunc_div_rem(l as int, r as int);
        lemma_trunc_div_in_range(l as int, r as int);
    }
}

proof fn lemma_nonneg_div_rem(a: int, b: int)
    by (nonlinear_arith)
    requires
        a >= 0,
        b >= 1,
    ensures
        0 <= a - (a / b) * b < b,
{
}

/// Truncating division leaves a remainder smaller than the divisor, zero
/// or of the dividend's sign.
proof fn lemma_trunc_div_rem(a: int, b: int)
    requires
        b != 0,
    ensures
        ({
            let m = a - trunc_div(a, b) * b;
            &&& (if b > 0 { -b < m < b } else { b < m < -b })
            &&& (m == 0 || (m > 0) == (a > 0))
        }),
{
    if a > 0 && b > 0 {
        lemma_nonneg_div_rem(a, b);
    } else if a < 0 && b < 0 {
        lemma_nonneg_div_rem(-a, -b);
        assert(a - ((a * -1) / (b * -1)) * b == -((-a) - ((-a) / (-b)) * (-b))) by (nonlinear_arith);
    } else if a < 0 {
        lemma_nonneg_div_rem(-a, b);
        assert(a - (((a * -1) / b) * -1) * b == -((-a) - ((-a) / b) * b)) by (nonlinear_arith);
    } else if a > 0 {
        lemma_nonneg_div_rem(a, -b);
        assert(a - ((a / (b * -1)) * -1) * b == a - (a / (-b)) * (-b)) by (nonlinear_arith);
    }
}

} // verus!
