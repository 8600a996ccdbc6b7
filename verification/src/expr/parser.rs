//! Recursive-descent parser of the expression language: the grammar as
//! spec functions over tokens, and the parser that follows them.

use vstd::prelude::*;
use crate::expr::alias::{AliasTable, SpecAlias};
use crate::expr::lexer::{tokenize, spec_tokenize, lemma_tokens_nonneg, toks_nonneg, lemma_view_toks_len, ExprError, Op, SpecTok, Tok, view_toks};
use crate::expr::{
    named_constant, spec_field_resolve, spec_named_constant, spec_node_wf, BinOp, Field, Node,
};
use crate::text::chars_eq_str;

verus! {

/// Nested alias expansion is capped at this depth to catch an accidental
/// cycle (e.g. two aliases defined in terms of each other).
pub const MAX_ALIAS_DEPTH: u32 = 8;

pub type Parsed = Result<(Node, int), ExprError>;

/// Termination measure of the alias nesting: shrinks by at least one from
/// a text to the parse functions on its tokens, and from a primary to the
/// text of an alias it expands.
pub open spec fn budget(depth: nat) -> int {
    if depth <= MAX_ALIAS_DEPTH {
        2 * (MAX_ALIAS_DEPTH + 1 - depth)
    } else {
        0
    }
}

pub open spec fn is_op_at(t: Seq<SpecTok>, p: int, op: Op) -> bool {
    0 <= p < t.len() && t[p] == SpecTok::Op(op)
}

/// A parse that consumed at least one token and stayed within the input.
pub open spec fn advanced(pos: int, p: int, t: Seq<SpecTok>) -> bool {
    pos < p <= t.len()
}

pub open spec fn rel_op_at(t: Seq<SpecTok>, p: int) -> Option<BinOp> {
    if 0 <= p < t.len() {
        match t[p] {
            SpecTok::Op(Op::EqEq) => Some(BinOp::Eq),
            SpecTok::Op(Op::NotEq) => Some(BinOp::Ne),
            SpecTok::Op(Op::Less) => Some(BinOp::Lt),
            SpecTok::Op(Op::LessEq) => Some(BinOp::Le),
            SpecTok::Op(Op::Greater) => Some(BinOp::Gt),
            SpecTok::Op(Op::GreaterEq) => Some(BinOp::Ge),
            _ => None,
        }
    } else {
        None
    }
}

pub open spec fn add_op_at(t: Seq<SpecTok>, p: int) -> Option<BinOp> {
    if 0 <= p < t.len() {
        match t[p] {
            SpecTok::Op(Op::Plus) => Some(BinOp::Add),
            SpecTok::Op(Op::Minus) => Some(BinOp::Sub),
            _ => None,
        }
    } else {
        None
    }
}

pub open spec fn mul_op_at(t: Seq<SpecTok>, p: int) -> Option<BinOp> {
    if 0 <= p < t.len() {
        match t[p] {
            SpecTok::Op(Op::Star) => Some(BinOp::Mul),
            SpecTok::Op(Op::Slash) => Some(BinOp::Div),
            SpecTok::Op(Op::Amp) => Some(BinOp::BitAnd),
            SpecTok::Op(Op::ShiftRight) => Some(BinOp::Shr),
            SpecTok::Op(Op::ShiftLeft) => Some(BinOp::Shl),
            _ => None,
        }
    } else {
        None
    }
}

pub open spec fn int_at(t: Seq<SpecTok>, p: int) -> Option<i64> {
    if 0 <= p < t.len() {
        match t[p] {
            SpecTok::Int(v) => Some(v),
            _ => None,
        }
    } else {
        None
    }
}

pub open spec fn binop(op: BinOp, l: Node, r: Node) -> Node {
    Node::BinOp(op, Box::new(l), Box::new(r))
}

/// A whole expression text: tokens, then `or`, with nothing left over.
#[verifier::opaque]
pub open spec fn spec_parse_text(c: Seq<char>, al: Map<Seq<char>, SpecAlias>, depth: nat) -> Result<
    Node,
    ExprError,
>
    decreases budget(depth) + 1, 0int, 0int,
{
    if depth > MAX_ALIAS_DEPTH {
        Err(ExprError::AliasTooDeep)
    } else {
        match spec_tokenize(c) {
            Err(e) => Err(e),
            Ok(t) => match p_or(t, 0, al, depth) {
                Err(e) => Err(e),
                Ok((n, p)) => if p != t.len() {
                    Err(ExprError::TrailingInput)
                } else {
                    Ok(n)
                },
            },
        }
    }
}

/// `or := and ( "||" and )*`
#[verifier::opaque]
pub open spec fn p_or(t: Seq<SpecTok>, pos: int, al: Map<Seq<char>, SpecAlias>, depth: nat) -> Parsed
    decreases budget(depth), t.len() - pos, 8int,
{
    match p_and(t, pos, al, depth) {
        Err(e) => Err(e),
        Ok((n, p)) => if advanced(pos, p, t) {
            or_tail(t, p, n, al, depth)
        } else {
            Err(ExprError::ExpectedValue)
        },
    }
}

#[verifier::opaque]
pub open spec fn or_tail(
    t: Seq<SpecTok>,
    pos: int,
    node: Node,
    al: Map<Seq<char>, SpecAlias>,
    depth: nat,
) -> Parsed
    decreases budget(depth), t.len() - pos, 8int,
{
    if is_op_at(t, pos, Op::OrOr) {
        match p_and(t, pos + 1, al, depth) {
            Err(e) => Err(e),
            Ok((r, p)) => if advanced(pos + 1, p, t) {
                or_tail(t, p, binop(BinOp::LogOr, node, r), al, depth)
            } else {
                Err(ExprError::ExpectedValue)
            },
        }
    } else {
        Ok((node, pos))
    }
}

/// `and := rel ( "&&" rel )*`
#[verifier::opaque]
pub open spec fn p_and(t: Seq<SpecTok>, pos: int, al: Map<Seq<char>, SpecAlias>, depth: nat) -> Parsed
    decreases budget(depth), t.len() - pos, 7int,
{
    match p_rel(t, pos, al, depth) {
        Err(e) => Err(e),
        Ok((n, p)) => if advanced(pos, p, t) {
            and_tail(t, p, n, al, depth)
        } else {
            Err(ExprError::ExpectedValue)
        },
    }
}

#[verifier::opaque]
pub open spec fn and_tail(
    t: Seq<SpecTok>,
    pos: int,
    node: Node,
    al: Map<Seq<char>, SpecAlias>,
    depth: nat,
) -> Parsed
    decreases budget(depth), t.len() - pos, 7int,
{
    if is_op_at(t, pos, Op::AndAnd) {
        match p_rel(t, pos + 1, al, depth) {
            Err(e) => Err(e),
            Ok((r, p)) => if advanced(pos + 1, p, t) {
                and_tail(t, p, binop(BinOp::LogAnd, node, r), al, depth)
            } else {
                Err(ExprError::ExpectedValue)
            },
        }
    } else {
        Ok((node, pos))
    }
}

/// `rel := add ( relop add )?`
#[verifier::opaque]
pub open spec fn p_rel(t: Seq<SpecTok>, pos: int, al: Map<Seq<char>, SpecAlias>, depth: nat) -> Parsed
    decreases budget(depth), t.len() - pos, 6int,
{
    match p_add(t, pos, al, depth) {
        Err(e) => Err(e),
        Ok((n, p)) => if advanced(pos, p, t) {
            match rel_op_at(t, p) {
                None => Ok((n, p)),
                Some(op) => match p_add(t, p + 1, al, depth) {
                    Err(e) => Err(e),
                    Ok((r, p2)) => Ok((binop(op, n, r), p2)),
                },
            }
        } else {
            Err(ExprError::ExpectedValue)
        },
    }
}

/// `add := mul ( ("+"|"-") mul )*`
#[verifier::opaque]
pub open spec fn p_add(t: Seq<SpecTok>, pos: int, al: Map<Seq<char>, SpecAlias>, depth: nat) -> Parsed
    decreases budget(depth), t.len() - pos, 5int,
{
    match p_mul(t, pos, al, depth) {
        Err(e) => Err(e),
        Ok((n, p)) => if advanced(pos, p, t) {
            add_tail(t, p, n, al, depth)
        } else {
            Err(ExprError::ExpectedValue)
        },
    }
}

#[verifier::opaque]
pub open spec fn add_tail(
    t: Seq<SpecTok>,
    pos: int,
    node: Node,
    al: Map<Seq<char>, SpecAlias>,
    depth: nat,
) -> Parsed
    decreases budget(depth), t.len() - pos, 5int,
{
    match add_op_at(t, pos) {
        None => Ok((node, pos)),
        Some(op) => match p_mul(t, pos + 1, al, depth) {
            Err(e) => Err(e),
            Ok((r, p)) => if advanced(pos + 1, p, t) {
                add_tail(t, p, binop(op, node, r), al, depth)
            } else {
                Err(ExprError::ExpectedValue)
            },
        },
    }
}

/// `mul := unary ( ("*"|"/"|"&"|">>"|"<<") unary )*`
#[verifier::opaque]
pub open spec fn p_mul(t: Seq<SpecTok>, pos: int, al: Map<Seq<char>, SpecAlias>, depth: nat) -> Parsed
    decreases budget(depth), t.len() - pos, 4int,
{
    match p_unary(t, pos, al, depth) {
        Err(e) => Err(e),
        Ok((n, p)) => if advanced(pos, p, t) {
            mul_tail(t, p, n, al, depth)
        } else {
            Err(ExprError::ExpectedValue)
        },
    }
}

#[verifier::opaque]
pub open spec fn mul_tail(
    t: Seq<SpecTok>,
    pos: int,
    node: Node,
    al: Map<Seq<char>, SpecAlias>,
    depth: nat,
) -> Parsed
    decreases budget(depth), t.len() - pos, 4int,
{
    match mul_op_at(t, pos) {
        None => Ok((node, pos)),
        Some(op) => match p_unary(t, pos + 1, al, depth) {
            Err(e) => Err(e),
            Ok((r, p)) => if advanced(pos + 1, p, t) {
                mul_tail(t, p, binop(op, node, r), al, depth)
            } else {
                Err(ExprError::ExpectedValue)
            },
        },
    }
}

/// `unary := ("-"|"!") unary | postfix`
#[verifier::opaque]
pub open spec fn p_unary(t: Seq<SpecTok>, pos: int, al: Map<Seq<char>, SpecAlias>, depth: nat) -> Parsed
    decreases budget(depth), t.len() - pos, 3int,
{
    if is_op_at(t, pos, Op::Minus) {
        match p_unary(t, pos + 1, al, depth) {
            Err(e) => Err(e),
            Ok((n, p)) => Ok((Node::Neg(Box::new(n)), p)),
        }
    } else if is_op_at(t, pos, Op::Bang) {
        match p_unary(t, pos + 1, al, depth) {
            Err(e) => Err(e),
            Ok((n, p)) => Ok((Node::Not(Box::new(n)), p)),
        }
    } else {
        p_postfix(t, pos, al, depth)
    }
}

/// `postfix := primary ( "[" int ".." int (":signed")? "]" )*`
#[verifier::opaque]
pub open spec fn p_postfix(
    t: Seq<SpecTok>,
    pos: int,
    al: Map<Seq<char>, SpecAlias>,
    depth: nat,
) -> Parsed
    decreases budget(depth), t.len() - pos, 2int,
{
    match p_primary(t, pos, al, depth) {
        Err(e) => Err(e),
        Ok((n, p)) => if advanced(pos, p, t) {
            postfix_tail(t, p, n, al, depth)
        } else {
            Err(ExprError::ExpectedValue)
        },
    }
}

/// One bit slice `[offset..end]` or `[offset..end:signed]` starting at the
/// `[` at `pos`: the slice's offset, width, signedness and the position
/// after its `]`.
pub open spec fn p_slice(t: Seq<SpecTok>, pos: int) -> Result<(u32, u32, bool, int), ExprError> {
    match int_at(t, pos + 1) {
        None => Err(ExprError::ExpectedInteger),
        Some(offset) => if !is_op_at(t, pos + 2, Op::DotDot) {
            Err(ExprError::ExpectedOperator)
        } else {
            match int_at(t, pos + 3) {
                None => Err(ExprError::ExpectedInteger),
                Some(end) => if end <= offset || end - offset > 32 || offset >= 32 {
                    Err(ExprError::InvalidBitSlice)
                } else if is_op_at(t, pos + 4, Op::Colon) {
                    if 0 <= pos + 5 < t.len() && t[pos + 5] == SpecTok::Ident("signed"@) {
                        if is_op_at(t, pos + 6, Op::RBracket) {
                            Ok((offset as u32, (end - offset) as u32, true, pos + 7))
                        } else {
                            Err(ExprError::ExpectedOperator)
                        }
                    } else {
                        Err(ExprError::ExpectedSigned)
                    }
                } else if is_op_at(t, pos + 4, Op::RBracket) {
                    Ok((offset as u32, (end - offset) as u32, false, pos + 5))
                } else {
                    Err(ExprError::ExpectedOperator)
                },
            }
        },
    }
}

#[verifier::opaque]
pub open spec fn postfix_tail(
    t: Seq<SpecTok>,
    pos: int,
    node: Node,
    al: Map<Seq<char>, SpecAlias>,
    depth: nat,
) -> Parsed
    decreases budget(depth), t.len() - pos, 2int,
{
    if is_op_at(t, pos, Op::LBracket) {
        match p_slice(t, pos) {
            Err(e) => Err(e),
            Ok((offset, width, signed, p)) => if advanced(pos, p, t) {
                postfix_tail(t, p, Node::Slice(Box::new(node), offset, width, signed), al, depth)
            } else {
                Err(ExprError::ExpectedOperator)
            },
        }
    } else {
        Ok((node, pos))
    }
}

/// `primary := int | ident | "(" expr ")"`; an identifier is a field, a
/// named constant, or an alias whose text is parsed one level deeper.
#[verifier::opaque]
pub open spec fn p_primary(
    t: Seq<SpecTok>,
    pos: int,
    al: Map<Seq<char>, SpecAlias>,
    depth: nat,
) -> Parsed
    decreases budget(depth), t.len() - pos, 1int,
{
    if pos < 0 || pos >= t.len() {
        Err(ExprError::ExpectedValue)
    } else {
        match t[pos] {
            SpecTok::Int(v) => Ok((Node::Lit(v), pos + 1)),
            SpecTok::Ident(id) => if spec_field_resolve(id) is Some {
                Ok((Node::Field(spec_field_resolve(id)->0), pos + 1))
            } else if spec_named_constant(id) is Some {
                Ok((Node::Lit(spec_named_constant(id)->0), pos + 1))
            } else if al.contains_key(id) {
                if depth + 1 > MAX_ALIAS_DEPTH {
                    Err(ExprError::AliasTooDeep)
                } else {
                    match spec_parse_text(al[id].expr, al, depth + 1) {
                        Err(e) => Err(e),
                        Ok(n) => Ok((n, pos + 1)),
                    }
                }
            } else {
                Err(ExprError::UnknownIdentifier)
            },
            SpecTok::Op(Op::LParen) => match p_or(t, pos + 1, al, depth) {
                Err(e) => Err(e),
                Ok((n, p)) => if advanced(pos + 1, p, t) {
                    if is_op_at(t, p, Op::RParen) {
                        Ok((n, p + 1))
                    } else {
                        Err(ExprError::ExpectedOperator)
                    }
                } else {
                    Err(ExprError::ExpectedValue)
                },
            },
            _ => Err(ExprError::ExpectedValue),
        }
    }
}

proof fn lemma_unfold_spec_parse_text(c: Seq<char>, al: Map<Seq<char>, SpecAlias>, depth: nat)
    ensures
        spec_parse_text(c, al, depth) == ({
        if depth > MAX_ALIAS_DEPTH {
            Err(ExprError::AliasTooDeep)
        } else {
            match spec_tokenize(c) {
                Err(e) => Err(e),
                Ok(t) => match p_or(t, 0, al, depth) {
                    Err(e) => Err(e),
                    Ok((n, p)) => if p != t.len() {
                        Err(ExprError::TrailingInput)
                    } else {
                        Ok(n)
                    },
                },
            }
        }
        }),
{
    reveal_with_fuel(spec_parse_text, 1);
    reveal_with_fuel(p_or, 1);
}

proof fn lemma_unfold_p_or(t: Seq<SpecTok>, pos: int, al: Map<Seq<char>, SpecAlias>, depth: nat)
    ensures
        p_or(t, pos, al, depth) == ({
        match p_and(t, pos, al, depth) {
            Err(e) => Err(e),
            Ok((n, p)) => if advanced(pos, p, t) {
                or_tail(t, p, n, al, depth)
            } else {
                Err(ExprError::ExpectedValue)
            },
        }
        }),
{
    reveal_with_fuel(p_or, 1);
    reveal_with_fuel(p_and, 1);
    reveal_with_fuel(or_tail, 1);
}

proof fn lemma_unfold_or_tail(
    t: Seq<SpecTok>,
    pos: int,
    node: Node,
    al: Map<Seq<char>, SpecAlias>,
    depth: nat,
)
    ensures
        or_tail(t, pos, node, al, depth) == ({
        if is_op_at(t, pos, Op::OrOr) {
            match p_and(t, pos + 1, al, depth) {
                Err(e) => Err(e),
                Ok((r, p)) => if advanced(pos + 1, p, t) {
                    or_tail(t, p, binop(BinOp::LogOr, node, r), al, depth)
                } else {
                    Err(ExprError::ExpectedValue)
                },
            }
        } else {
            Ok((node, pos))
        }
        }),
{
    reveal_with_fuel(or_tail, 1);
    reveal_with_fuel(p_and, 1);
}

proof fn lemma_unfold_p_and(t: Seq<SpecTok>, pos: int, al: Map<Seq<char>, SpecAlias>, depth: nat)
    ensures
        p_and(t, pos, al, depth) == ({
        match p_rel(t, pos, al, depth) {
            Err(e) => Err(e),
            Ok((n, p)) => if advanced(pos, p, t) {
                and_tail(t, p, n, al, depth)
            } else {
                Err(ExprError::ExpectedValue)
            },
        }
        }),
{
    reveal_with_fuel(p_and, 1);
    reveal_with_fuel(p_rel, 1);
    reveal_with_fuel(and_tail, 1);
}

proof fn lemma_unfold_and_tail(
    t: Seq<SpecTok>,
    pos: int,
    node: Node,
    al: Map<Seq<char>, SpecAlias>,
    depth: nat,
)
    ensures
        and_tail(t, pos, node, al, depth) == ({
        if is_op_at(t, pos, Op::AndAnd) {
            match p_rel(t, pos + 1, al, depth) {
                Err(e) => Err(e),
                Ok((r, p)) => if advanced(pos + 1, p, t) {
                    and_tail(t, p, binop(BinOp::LogAnd, node, r), al, depth)
                } else {
                    Err(ExprError::ExpectedValue)
                },
            }
        } else {
            Ok((node, pos))
        }
        }),
{
    reveal_with_fuel(and_tail, 1);
    reveal_with_fuel(p_rel, 1);
}

proof fn lemma_unfold_p_rel(t: Seq<SpecTok>, pos: int, al: Map<Seq<char>, SpecAlias>, depth: nat)
    ensures
        p_rel(t, pos, al, depth) == ({
        match p_add(t, pos, al, depth) {
            Err(e) => Err(e),
            Ok((n, p)) => if advanced(pos, p, t) {
                match rel_op_at(t, p) {
                    None => Ok((n, p)),
                    Some(op) => match p_add(t, p + 1, al, depth) {
                        Err(e) => Err(e),
                        Ok((r, p2)) => Ok((binop(op, n, r), p2)),
                    },
                }
            } else {
                Err(ExprError::ExpectedValue)
            },
        }
        }),
{
    reveal_with_fuel(p_rel, 1);
    reveal_with_fuel(p_add, 1);
}

proof fn lemma_unfold_p_add(t: Seq<SpecTok>, pos: int, al: Map<Seq<char>, SpecAlias>, depth: nat)
    ensures
        p_add(t, pos, al, depth) == ({
        match p_mul(t, pos, al, depth) {
            Err(e) => Err(e),
            Ok((n, p)) => if advanced(pos, p, t) {
                add_tail(t, p, n, al, depth)
            } else {
                Err(ExprError::ExpectedValue)
            },
        }
        }),
{
    reveal_with_fuel(p_add, 1);
    reveal_with_fuel(p_mul, 1);
    reveal_with_fuel(add_tail, 1);
}

proof fn lemma_unfold_add_tail(
    t: Seq<SpecTok>,
    pos: int,
    node: Node,
    al: Map<Seq<char>, SpecAlias>,
    depth: nat,
)
    ensures
        add_tail(t, pos, node, al, depth) == ({
        match add_op_at(t, pos) {
            None => Ok((node, pos)),
            Some(op) => match p_mul(t, pos + 1, al, depth) {
                Err(e) => Err(e),
                Ok((r, p)) => if advanced(pos + 1, p, t) {
                    add_tail(t, p, binop(op, node, r), al, depth)
                } else {
                    Err(ExprError::ExpectedValue)
                },
            },
        }
        }),
{
    reveal_with_fuel(add_tail, 1);
    reveal_with_fuel(p_mul, 1);
}

proof fn lemma_unfold_p_mul(t: Seq<SpecTok>, pos: int, al: Map<Seq<char>, SpecAlias>, depth: nat)
    ensures
        p_mul(t, pos, al, depth) == ({
        match p_unary(t, pos, al, depth) {
            Err(e) => Err(e),
            Ok((n, p)) => if advanced(pos, p, t) {
                mul_tail(t, p, n, al, depth)
            } else {
                Err(ExprError::ExpectedValue)
            },
        }
        }),
{
    reveal_with_fuel(p_mul, 1);
    reveal_with_fuel(p_unary, 1);
    reveal_with_fuel(mul_tail, 1);
}

proof fn lemma_unfold_mul_tail(
    t: Seq<SpecTok>,
    pos: int,
    node: Node,
    al: Map<Seq<char>, SpecAlias>,
    depth: nat,
)
    ensures
        mul_tail(t, pos, node, al, depth) == ({
        match mul_op_at(t, pos) {
            None => Ok((node, pos)),
            Some(op) => match p_unary(t, pos + 1, al, depth) {
                Err(e) => Err(e),
                Ok((r, p)) => if advanced(pos + 1, p, t) {
                    mul_tail(t, p, binop(op, node, r), al, depth)
                } else {
                    Err(ExprError::ExpectedValue)
                },
            },
        }
        }),
{
    reveal_with_fuel(mul_tail, 1);
    reveal_with_fuel(p_unary, 1);
}

proof fn lemma_unfold_p_unary(t: Seq<SpecTok>, pos: int, al: Map<Seq<char>, SpecAlias>, depth: nat)
    ensures
        p_unary(t, pos, al, depth) == ({
        if is_op_at(t, pos, Op::Minus) {
            match p_unary(t, pos + 1, al, depth) {
                Err(e) => Err(e),
                Ok((n, p)) => Ok((Node::Neg(Box::new(n)), p)),
            }
        } else if is_op_at(t, pos, Op::Bang) {
            match p_unary(t, pos + 1, al, depth) {
                Err(e) => Err(e),
                Ok((n, p)) => Ok((Node::Not(Box::new(n)), p)),
            }
        } else {
            p_postfix(t, pos, al, depth)
        }
        }),
{
    reveal_with_fuel(p_unary, 1);
    reveal_with_fuel(p_postfix, 1);
}

proof fn lemma_unfold_p_postfix(
    t: Seq<SpecTok>,
    pos: int,
    al: Map<Seq<char>, SpecAlias>,
    depth: nat,
)
    ensures
        p_postfix(t, pos, al, depth) == ({
        match p_primary(t, pos, al, depth) {
            Err(e) => Err(e),
            Ok((n, p)) => if advanced(pos, p, t) {
                postfix_tail(t, p, n, al, depth)
            } else {
                Err(ExprError::ExpectedValue)
            },
        }
        }),
{
    reveal_with_fuel(p_postfix, 1);
    reveal_with_fuel(p_primary, 1);
    reveal_with_fuel(postfix_tail, 1);
}

proof fn lemma_unfold_postfix_tail(
    t: Seq<SpecTok>,
    pos: int,
    node: Node,
    al: Map<Seq<char>, SpecAlias>,
    depth: nat,
)
    ensures
        postfix_tail(t, pos, node, al, depth) == ({
        if is_op_at(t, pos, Op::LBracket) {
            match p_slice(t, pos) {
                Err(e) => Err(e),
                Ok((offset, width, signed, p)) => if advanced(pos, p, t) {
                    postfix_tail(t, p, Node::Slice(Box::new(node), offset, width, signed), al, depth)
                } else {
                    Err(ExprError::ExpectedOperator)
                },
            }
        } else {
            Ok((node, pos))
        }
        }),
{
    reveal_with_fuel(postfix_tail, 1);
}

proof fn lemma_unfold_p_primary(
    t: Seq<SpecTok>,
    pos: int,
    al: Map<Seq<char>, SpecAlias>,
    depth: nat,
)
    ensures
        p_primary(t, pos, al, depth) == ({
        if pos < 0 || pos >= t.len() {
            Err(ExprError::ExpectedValue)
        } else {
            match t[pos] {
                SpecTok::Int(v) => Ok((Node::Lit(v), pos + 1)),
                SpecTok::Ident(id) => if spec_field_resolve(id) is Some {
                    Ok((Node::Field(spec_field_resolve(id)->0), pos + 1))
                } else if spec_named_constant(id) is Some {
                    Ok((Node::Lit(spec_named_constant(id)->0), pos + 1))
                } else if al.contains_key(id) {
                    if depth + 1 > MAX_ALIAS_DEPTH {
                        Err(ExprError::AliasTooDeep)
                    } else {
                        match spec_parse_text(al[id].expr, al, depth + 1) {
                            Err(e) => Err(e),
                            Ok(n) => Ok((n, pos + 1)),
                        }
                    }
                } else {
                    Err(ExprError::UnknownIdentifier)
                },
                SpecTok::Op(Op::LParen) => match p_or(t, pos + 1, al, depth) {
                    Err(e) => Err(e),
                    Ok((n, p)) => if advanced(pos + 1, p, t) {
                        if is_op_at(t, p, Op::RParen) {
                            Ok((n, p + 1))
                        } else {
                            Err(ExprError::ExpectedOperator)
                        }
                    } else {
                        Err(ExprError::ExpectedValue)
                    },
                },
                _ => Err(ExprError::ExpectedValue),
            }
        }
        }),
{
    reveal_with_fuel(p_primary, 1);
    reveal_with_fuel(spec_parse_text, 1);
    reveal_with_fuel(p_or, 1);
}

/// The exec result `r` agrees with the spec result `s` of a parse that
/// started at `pos`.
pub open spec fn agrees(r: Result<(Node, usize), ExprError>, s: Parsed, pos: int, t: Seq<SpecTok>) -> bool {
    match r {
        Ok((n, p)) => s == Ok::<(Node, int), ExprError>((n, p as int)) && advanced(pos, p as int, t)
            && spec_node_wf(n),
        Err(e) => s == Err::<(Node, int), ExprError>(e),
    }
}

/// The state of one parse: the tokens of one text, the alias table and the
/// alias nesting depth of that text.
pub struct Parser<'a> {
    pub toks: &'a Vec<Tok>,
    pub aliases: &'a AliasTable,
    pub depth: u32,
}

impl<'a> Parser<'a> {
    pub open spec fn t(&self) -> Seq<SpecTok> {
        view_toks(self.toks@)
    }

    pub open spec fn sdepth(&self) -> nat {
        self.depth as nat
    }

    fn peek_op(&self, pos: usize, op: Op) -> (r: bool)
        ensures
            r == is_op_at(self.t(), pos as int, op),
            r ==> pos < self.toks.len(),
    {
        if pos < self.toks.len() {
            match &self.toks[pos] {
                Tok::Op(o) => *o == op,
                _ => false,
            }
        } else {
            false
        }
    }

    fn int_literal(&self, pos: usize) -> (r: Option<i64>)
        ensures
            r == int_at(self.t(), pos as int),
            r is Some ==> pos < self.toks.len(),
    {
        if pos < self.toks.len() {
            match &self.toks[pos] {
                Tok::Int(v) => Some(*v),
                _ => None,
            }
        } else {
            None
        }
    }

    fn is_signed_word(&self, pos: usize) -> (r: bool)
        ensures
            r == (0 <= pos < self.t().len() && self.t()[pos as int] == SpecTok::Ident("signed"@)),
            r ==> pos < self.toks.len(),
    {
        if pos < self.toks.len() {
            match &self.toks[pos] {
                Tok::Ident(s) => chars_eq_str(s, "signed"),
                _ => false,
            }
        } else {
            false
        }
    }

    fn rel_op(&self, pos: usize) -> (r: Option<BinOp>)
        ensures
            r == rel_op_at(self.t(), pos as int),
            r is Some ==> pos < self.toks.len(),
    {
        if pos < self.toks.len() {
            match &self.toks[pos] {
                Tok::Op(Op::EqEq) => Some(BinOp::Eq),
                Tok::Op(Op::NotEq) => Some(BinOp::Ne),
                Tok::Op(Op::Less) => Some(BinOp::Lt),
                Tok::Op(Op::LessEq) => Some(BinOp::Le),
                Tok::Op(Op::Greater) => Some(BinOp::Gt),
                Tok::Op(Op::GreaterEq) => Some(BinOp::Ge),
                _ => None,
            }
        } else {
            None
        }
    }

    fn add_op(&self, pos: usize) -> (r: Option<BinOp>)
        ensures
            r == add_op_at(self.t(), pos as int),
            r is Some ==> pos < self.toks.len(),
    {
        if pos < self.toks.len() {
            match &self.toks[pos] {
                Tok::Op(Op::Plus) => Some(BinOp::Add),
                Tok::Op(Op::Minus) => Some(BinOp::Sub),
                _ => None,
            }
        } else {
            None
        }
    }

    fn mul_op(&self, pos: usize) -> (r: Option<BinOp>)
        ensures
            r == mul_op_at(self.t(), pos as int),
            r is Some ==> pos < self.toks.len(),
    {
        if pos < self.toks.len() {
            match &self.toks[pos] {
                Tok::Op(Op::Star) => Some(BinOp::Mul),
                Tok::Op(Op::Slash) => Some(BinOp::Div),
                Tok::Op(Op::Amp) => Some(BinOp::BitAnd),
                Tok::Op(Op::ShiftRight) => Some(BinOp::Shr),
                Tok::Op(Op::ShiftLeft) => Some(BinOp::Shl),
                _ => None,
            }
        } else {
            None
        }
    }

    fn parse_or(&self, pos: usize) -> (r: Result<(Node, usize), ExprError>)
        requires
            pos <= self.toks.len(),
            self.depth <= MAX_ALIAS_DEPTH,
            toks_nonneg(self.t()),
        ensures
            agrees(r, p_or(self.t(), pos as int, self.aliases@, self.sdepth()), pos as int, self.t()),
        decreases budget(self.sdepth()), self.t().len() - pos, 8int,
    {
        proof {
            lemma_view_toks_len(self.toks@);
            lemma_unfold_p_or(self.t(), pos as int, self.aliases@, self.sdepth());
        }
        let (mut node, mut p) = match self.parse_and(pos) {
            Ok(x) => x,
            Err(e) => return Err(e),
        };
        while self.peek_op(p, Op::OrOr)
            invariant
                pos < p <= self.toks.len(),
                self.depth <= MAX_ALIAS_DEPTH,
                toks_nonneg(self.t()),
                spec_node_wf(node),
                p_or(self.t(), pos as int, self.aliases@, self.sdepth()) == or_tail(
                    self.t(),
                    p as int,
                    node,
                    self.aliases@,
                    self.sdepth(),
                ),
            decreases self.toks.len() - p,
        {
            proof {
                lemma_unfold_or_tail(self.t(), p as int, node, self.aliases@, self.sdepth());
            }
            match self.parse_and(p + 1) {
                Ok((rhs, p2)) => {
                    node = Node::BinOp(BinOp::LogOr, Box::new(node), Box::new(rhs));
                    p = p2;
                },
                Err(e) => return Err(e),
            }
        }
        proof {
            lemma_unfold_or_tail(self.t(), p as int, node, self.aliases@, self.sdepth());
        }
        Ok((node, p))
    }

    fn parse_and(&self, pos: usize) -> (r: Result<(Node, usize), ExprError>)
        requires
            pos <= self.toks.len(),
            self.depth <= MAX_ALIAS_DEPTH,
            toks_nonneg(self.t()),
        ensures
            agrees(r, p_and(self.t(), pos as int, self.aliases@, self.sdepth()), pos as int, self.t()),
        decreases budget(self.sdepth()), self.t().len() - pos, 7int,
    {
        proof {
            lemma_view_toks_len(self.toks@);
            lemma_unfold_p_and(self.t(), pos as int, self.aliases@, self.sdepth());
        }
        let (mut node, mut p) = match self.parse_rel(pos) {
            Ok(x) => x,
            Err(e) => return Err(e),
        };
        while self.peek_op(p, Op::AndAnd)
            invariant
                pos < p <= self.toks.len(),
                self.depth <= MAX_ALIAS_DEPTH,
                toks_nonneg(self.t()),
                spec_node_wf(node),
                p_and(self.t(), pos as int, self.aliases@, self.sdepth()) == and_tail(
                    self.t(),
                    p as int,
                    node,
                    self.aliases@,
                    self.sdepth(),
                ),
            decreases self.toks.len() - p,
        {
            proof {
                lemma_unfold_and_tail(self.t(), p as int, node, self.aliases@, self.sdepth());
            }
            match self.parse_rel(p + 1) {
                Ok((rhs, p2)) => {
                    node = Node::BinOp(BinOp::LogAnd, Box::new(node), Box::new(rhs));
                    p = p2;
                },
                Err(e) => return Err(e),
            }
        }
        proof {
            lemma_unfold_and_tail(self.t(), p as int, node, self.aliases@, self.sdepth());
        }
        Ok((node, p))
    }

    fn parse_rel(&self, pos: usize) -> (r: Result<(Node, usize), ExprError>)
        requires
            pos <= self.toks.len(),
            self.depth <= MAX_ALIAS_DEPTH,
            toks_nonneg(self.t()),
        ensures
            agrees(r, p_rel(self.t(), pos as int, self.aliases@, self.sdepth()), pos as int, self.t()),
        decreases budget(self.sdepth()), self.t().len() - pos, 6int,
    {
        proof {
            lemma_view_toks_len(self.toks@);
            lemma_unfold_p_rel(self.t(), pos as int, self.aliases@, self.sdepth());
        }
        let (node, p) = match self.parse_add(pos) {
            Ok(x) => x,
            Err(e) => return Err(e),
        };
        match self.rel_op(p) {
            None => Ok((node, p)),
            Some(op) => match self.parse_add(p + 1) {
                Ok((rhs, p2)) => Ok((Node::BinOp(op, Box::new(node), Box::new(rhs)), p2)),
                Err(e) => Err(e),
            },
        }
    }

    fn parse_add(&self, pos: usize) -> (r: Result<(Node, usize), ExprError>)
        requires
            pos <= self.toks.len(),
            self.depth <= MAX_ALIAS_DEPTH,
            toks_nonneg(self.t()),
        ensures
            agrees(r, p_add(self.t(), pos as int, self.aliases@, self.sdepth()), pos as int, self.t()),
        decreases budget(self.sdepth()), self.t().len() - pos, 5int,
    {
        proof {
            lemma_view_toks_len(self.toks@);
            lemma_unfold_p_add(self.t(), pos as int, self.aliases@, self.sdepth());
        }
        let (mut node, mut p) = match self.parse_mul(pos) {
            Ok(x) => x,
            Err(e) => return Err(e),
        };
        loop
            invariant
                pos < p <= self.toks.len(),
                self.depth <= MAX_ALIAS_DEPTH,
                toks_nonneg(self.t()),
                spec_node_wf(node),
                p_add(self.t(), pos as int, self.aliases@, self.sdepth()) == add_tail(
                    self.t(),
                    p as int,
                    node,
                    self.aliases@,
                    self.sdepth(),
                ),
            ensures
                pos < p <= self.toks.len(),
                spec_node_wf(node),
                p_add(self.t(), pos as int, self.aliases@, self.sdepth()) == add_tail(
                    self.t(),
                    p as int,
                    node,
                    self.aliases@,
                    self.sdepth(),
                ),
                add_op_at(self.t(), p as int) is None,
            decreases self.toks.len() - p,
        {
            proof {
                lemma_unfold_add_tail(self.t(), p as int, node, self.aliases@, self.sdepth());
            }
            let op = match self.add_op(p) {
                Some(op) => op,
                None => break,
            };
            match self.parse_mul(p + 1) {
                Ok((rhs, p2)) => {
                    node = Node::BinOp(op, Box::new(node), Box::new(rhs));
                    p = p2;
                },
                Err(e) => return Err(e),
            }
        }
        proof {
            lemma_unfold_add_tail(self.t(), p as int, node, self.aliases@, self.sdepth());
        }
        Ok((node, p))
    }

    fn parse_mul(&self, pos: usize) -> (r: Result<(Node, usize), ExprError>)
        requires
            pos <= self.toks.len(),
            self.depth <= MAX_ALIAS_DEPTH,
            toks_nonneg(self.t()),
        ensures
            agrees(r, p_mul(self.t(), pos as int, self.aliases@, self.sdepth()), pos as int, self.t()),
        decreases budget(self.sdepth()), self.t().len() - pos, 4int,
    {
        proof {
            lemma_view_toks_len(self.toks@);
            lemma_unfold_p_mul(self.t(), pos as int, self.aliases@, self.sdepth());
        }
        let (mut node, mut p) = match self.parse_unary(pos) {
            Ok(x) => x,
            Err(e) => return Err(e),
        };
        loop
            invariant
                pos < p <= self.toks.len(),
                self.depth <= MAX_ALIAS_DEPTH,
                toks_nonneg(self.t()),
                spec_node_wf(node),
                p_mul(self.t(), pos as int, self.aliases@, self.sdepth()) == mul_tail(
                    self.t(),
                    p as int,
                    node,
                    self.aliases@,
                    self.sdepth(),
                ),
            ensures
                pos < p <= self.toks.len(),
                spec_node_wf(node),
                p_mul(self.t(), pos as int, self.aliases@, self.sdepth()) == mul_tail(
                    self.t(),
                    p as int,
                    node,
                    self.aliases@,
                    self.sdepth(),
                ),
                mul_op_at(self.t(), p as int) is None,
            decreases self.toks.len() - p,
        {
            proof {
                lemma_unfold_mul_tail(self.t(), p as int, node, self.aliases@, self.sdepth());
            }
            let op = match self.mul_op(p) {
                Some(op) => op,
                None => break,
            };
            match self.parse_unary(p + 1) {
                Ok((rhs, p2)) => {
                    node = Node::BinOp(op, Box::new(node), Box::new(rhs));
                    p = p2;
                },
                Err(e) => return Err(e),
            }
        }
        proof {
            lemma_unfold_mul_tail(self.t(), p as int, node, self.aliases@, self.sdepth());
        }
        Ok((node, p))
    }

    fn parse_unary(&self, pos: usize) -> (r: Result<(Node, usize), ExprError>)
        requires
            pos <= self.toks.len(),
            self.depth <= MAX_ALIAS_DEPTH,
            toks_nonneg(self.t()),
        ensures
            agrees(r, p_unary(self.t(), pos as int, self.aliases@, self.sdepth()), pos as int, self.t()),
        decreases budget(self.sdepth()), self.t().len() - pos, 3int,
    {
        proof {
            lemma_view_toks_len(self.toks@);
            lemma_unfold_p_unary(self.t(), pos as int, self.aliases@, self.sdepth());
        }
        if self.peek_op(pos, Op::Minus) {
            match self.parse_unary(pos + 1) {
                Ok((n, p)) => Ok((Node::Neg(Box::new(n)), p)),
                Err(e) => Err(e),
            }
        } else if self.peek_op(pos, Op::Bang) {
            match self.parse_unary(pos + 1) {
                Ok((n, p)) => Ok((Node::Not(Box::new(n)), p)),
                Err(e) => Err(e),
            }
        } else {
            self.parse_postfix(pos)
        }
    }

    /// The bit slice whose `[` is at `pos`.
    fn parse_slice(&self, pos: usize) -> (r: Result<(u32, u32, bool, usize), ExprError>)
        requires
            pos < self.toks.len(),
            toks_nonneg(self.t()),
        ensures
            match r {
                Ok((o, w, s, p)) => p_slice(self.t(), pos as int) == Ok::<
                    (u32, u32, bool, int),
                    ExprError,
                >((o, w, s, p as int)) && pos < p <= self.toks.len() && o < 32 && 1 <= w <= 32,
                Err(e) => p_slice(self.t(), pos as int) == Err::<(u32, u32, bool, int), ExprError>(
                    e,
                ),
            },
    {
        proof {
            lemma_view_toks_len(self.toks@);
        }
        let _n = self.toks.len();
        let offset = match self.int_literal(pos + 1) {
            Some(v) => v,
            None => return Err(ExprError::ExpectedInteger),
        };
        if !self.peek_op(pos + 2, Op::DotDot) {
            return Err(ExprError::ExpectedOperator);
        }
        let end = match self.int_literal(pos + 3) {
            Some(v) => v,
            None => return Err(ExprError::ExpectedInteger),
        };
        if end <= offset || offset >= 32 || (end as i128) - (offset as i128) > 32 {
            return Err(ExprError::InvalidBitSlice);
        }
        let signed = if self.peek_op(pos + 4, Op::Colon) {
            if !self.is_signed_word(pos + 5) {
                return Err(ExprError::ExpectedSigned);
            }
            true
        } else {
            false
        };
        let close = if signed {
            pos + 6
        } else {
            pos + 4
        };
        if !self.peek_op(close, Op::RBracket) {
            return Err(ExprError::ExpectedOperator);
        }
        Ok((offset as u32, (end - offset) as u32, signed, close + 1))
    }

    fn parse_postfix(&self, pos: usize) -> (r: Result<(Node, usize), ExprError>)
        requires
            pos <= self.toks.len(),
            self.depth <= MAX_ALIAS_DEPTH,
            toks_nonneg(self.t()),
        ensures
            agrees(r, p_postfix(self.t(), pos as int, self.aliases@, self.sdepth()), pos as int, self.t()),
        decreases budget(self.sdepth()), self.t().len() - pos, 2int,
    {
        proof {
            lemma_view_toks_len(self.toks@);
            lemma_unfold_p_postfix(self.t(), pos as int, self.aliases@, self.sdepth());
        }
        let (mut node, mut p) = match self.parse_primary(pos) {
            Ok(x) => x,
            Err(e) => return Err(e),
        };
        while self.peek_op(p, Op::LBracket)
            invariant
                pos < p <= self.toks.len(),
                toks_nonneg(self.t()),
                spec_node_wf(node),
                p_postfix(self.t(), pos as int, self.aliases@, self.sdepth()) == postfix_tail(
                    self.t(),
                    p as int,
                    node,
                    self.aliases@,
                    self.sdepth(),
                ),
            decreases self.toks.len() - p,
        {
            proof {
                lemma_unfold_postfix_tail(self.t(), p as int, node, self.aliases@, self.sdepth());
            }
            match self.parse_slice(p) {
                Ok((offset, width, signed, p2)) => {
                    node = Node::Slice(Box::new(node), offset, width, signed);
                    p = p2;
                },
                Err(e) => return Err(e),
            }
        }
        proof {
            lemma_unfold_postfix_tail(self.t(), p as int, node, self.aliases@, self.sdepth());
        }
        Ok((node, p))
    }

    fn parse_primary(&self, pos: usize) -> (r: Result<(Node, usize), ExprError>)
        requires
            pos <= self.toks.len(),
            self.depth <= MAX_ALIAS_DEPTH,
            toks_nonneg(self.t()),
        ensures
            agrees(r, p_primary(self.t(), pos as int, self.aliases@, self.sdepth()), pos as int, self.t()),
        decreases budget(self.sdepth()), self.t().len() - pos, 1int,
    {
        proof {
            lemma_view_toks_len(self.toks@);
            lemma_unfold_p_primary(self.t(), pos as int, self.aliases@, self.sdepth());
        }
        if pos >= self.toks.len() {
            return Err(ExprError::ExpectedValue);
        }
        match &self.toks[pos] {
            Tok::Int(v) => Ok((Node::Lit(*v), pos + 1)),
            Tok::Ident(id) => {
                if let Some(f) = Field::resolve(id) {
                    Ok((Node::Field(f), pos + 1))
                } else if let Some(c) = named_constant(id) {
                    Ok((Node::Lit(c), pos + 1))
                } else {
                    match self.aliases.get_chars(id) {
                        Some(alias) => {
                            if self.depth + 1 > MAX_ALIAS_DEPTH {
                                Err(ExprError::AliasTooDeep)
                            } else {
                                match parse_text(alias.expr.as_str(), self.aliases, self.depth + 1) {
                                    Ok(n) => Ok((n, pos + 1)),
                                    Err(e) => Err(e),
                                }
                            }
                        },
                        None => Err(ExprError::UnknownIdentifier),
                    }
                }
            },
            Tok::Op(Op::LParen) => {
                match self.parse_or(pos + 1) {
                    Ok((n, p)) => {
                        if self.peek_op(p, Op::RParen) {
                            Ok((n, p + 1))
                        } else {
                            Err(ExprError::ExpectedOperator)
                        }
                    },
                    Err(e) => Err(e),
                }
            },
            _ => Err(ExprError::ExpectedValue),
        }
    }
}

/// Parses a whole text at alias nesting `depth`.
pub fn parse_text(src: &str, aliases: &AliasTable, depth: u32) -> (r: Result<Node, ExprError>)
    ensures
        match r {
            Ok(n) => spec_parse_text(src@, aliases@, depth as nat) == Ok::<Node, ExprError>(n)
                && spec_node_wf(n),
            Err(e) => spec_parse_text(src@, aliases@, depth as nat) == Err::<Node, ExprError>(e),
        },
    decreases budget(depth as nat) + 1, 0int, 0int,
{
        proof {
            lemma_unfold_spec_parse_text(src@, aliases@, depth as nat);
        }
    if depth > MAX_ALIAS_DEPTH {
        return Err(ExprError::AliasTooDeep);
    }
    let toks = match tokenize(src) {
        Ok(t) => t,
        Err(e) => return Err(e),
    };
    proof {
        lemma_tokens_nonneg(src@);
    }
    let p = Parser { toks: &toks, aliases, depth };
    match p.parse_or(0) {
        Ok((n, end)) => {
            if end != toks.len() {
                Err(ExprError::TrailingInput)
            } else {
                Ok(n)
            }
        },
        Err(e) => Err(e),
    }
}

} // verus!
