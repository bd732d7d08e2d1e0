//! Recursive-descent parser from source text to the expression tree, one
//! procedure per precedence level: pipe, or, and, not, comparison, primary
//! (an atom followed by postfix index/slice/projection/flatten/filter
//! operations). Whitespace is insignificant outside string literals.
//!
//! Each procedure's contract bounds its progress through the input: on
//! success the new position strictly advances and never passes the end. A
//! float literal becomes its IEEE-754 bit pattern by exact decimal rounding.
use vstd::prelude::*;

use crate::CompareOp;
use crate::LogicOp;
use crate::ast::{AstV, JmesPathExpr, ast_ok, ast_v};
use crate::errors::SyntaxError;
use crate::float_bits::decimal_bits;

verus! {

/// Whether a character is a decimal digit.
pub open spec fn is_digit(c: char) -> bool {
    48 <= (c as int) <= 57
}

/// Whether a character may start an identifier.
pub open spec fn is_alpha(c: char) -> bool {
    (65 <= (c as int) <= 90) || (97 <= (c as int) <= 122)
}

/// Whether a character may continue an identifier.
pub open spec fn is_ident_char(c: char) -> bool {
    is_alpha(c) || is_digit(c) || c == '_'
}

/// Whether a character is insignificant whitespace.
pub open spec fn is_space(c: char) -> bool {
    c == ' ' || c == '\t' || c == '\n' || c == '\r'
}


// ---------------------------------------------------------------------------
// The grammar as a total mathematical function. Each spec function below
// mirrors one executable procedure, so the parser's contract can say exactly
// which tree (or which error offset) every input yields: the executable
// entry point ensures `spec_parse(input)`. Recursion is measured by
// (remaining input, precedence rank); positions handed back by sub-parses
// are re-checked against the input bounds so the measures stay meaningful
// (the checks never fail on the values the procedures actually return).
// ---------------------------------------------------------------------------
/// Whether the text at `pos` reads exactly `lit`.
pub open spec fn lit_matches(s: Seq<char>, pos: int, lit: Seq<char>) -> bool {
    0 <= pos && pos + lit.len() <= s.len() && s.subrange(pos, pos + lit.len()) == lit
}

pub open spec fn ws_scan(s: Seq<char>, pos: int) -> int
    decreases s.len() - pos when 0 <= pos <= s.len()
{
    if pos < s.len() && is_space(s[pos]) {
        ws_scan(s, pos + 1)
    } else {
        pos
    }
}

/// The first non-whitespace position at or after `pos`.
pub open spec fn ws(s: Seq<char>, pos: int) -> int {
    let q = ws_scan(s, pos);
    if pos <= q <= s.len() {
        q
    } else {
        pos
    }
}

pub open spec fn ident_scan(s: Seq<char>, pos: int) -> int
    decreases s.len() - pos when 0 <= pos <= s.len()
{
    if pos < s.len() && is_ident_char(s[pos]) {
        ident_scan(s, pos + 1)
    } else {
        pos
    }
}

/// An identifier at `pos`: its text and end position, or the offset of the
/// failure.
pub open spec fn spec_identifier(s: Seq<char>, pos: int) -> Result<(Seq<char>, int), int> {
    if 0 <= pos < s.len() && is_alpha(s[pos]) {
        let q = ident_scan(s, pos + 1);
        let e = if pos + 1 <= q <= s.len() {
            q
        } else {
            pos + 1
        };
        Ok((s.subrange(pos, e), e))
    } else {
        Err(pos)
    }
}

pub open spec fn digits_scan(s: Seq<char>, pos: int, acc: u64, count: u32) -> Result<(u64, u32, int), int>
    decreases s.len() - pos when 0 <= pos <= s.len()
{
    if pos < s.len() && is_digit(s[pos]) {
        if count >= 19 || acc >= 0x1999_9999_9999_9999 {
            Err(pos)
        } else {
            digits_scan(s, pos + 1, (acc * 10 + ((s[pos] as int) - 48)) as u64, (count + 1) as u32)
        }
    } else {
        Ok((acc, count, pos))
    }
}

/// A run of decimal digits starting at `pos`, accumulated from `start`:
/// the value, the digit count, and the end position.
pub open spec fn spec_digits_from(s: Seq<char>, pos: int, start: u64) -> Result<
    (u64, u32, int),
    int,
> {
    if 0 <= pos < s.len() && is_digit(s[pos]) {
        match digits_scan(s, pos, start, 0) {
            Ok((acc, count, p)) => if pos < p <= s.len() {
                Ok((acc, count, p))
            } else {
                Err(pos)
            },
            Err(e) => Err(e),
        }
    } else {
        Err(pos)
    }
}

pub open spec fn str_scan(s: Seq<char>, pos: int, quote: char) -> Result<int, int>
    decreases s.len() - pos when 0 <= pos <= s.len()
{
    if pos >= s.len() {
        Err(s.len() as int)
    } else if s[pos] == quote {
        Ok(pos)
    } else if s[pos] == '\\' {
        if pos + 1 >= s.len() {
            Err(pos)
        } else if s[pos + 1] == quote || s[pos + 1] == '\\' || s[pos + 1] == 'n' || s[pos + 1]
            == 'r' || s[pos + 1] == 't' {
            str_scan(s, pos + 2, quote)
        } else {
            Err(pos + 1)
        }
    } else {
        str_scan(s, pos + 1, quote)
    }
}

/// A quoted string literal at `pos`: the raw span between the quotes (escape
/// pairs kept as written) and the position after the closing quote.
pub open spec fn spec_string_lit(s: Seq<char>, pos: int, quote: char) -> Result<
    (Seq<char>, int),
    int,
> {
    if 0 <= pos < s.len() && s[pos] == quote {
        match str_scan(s, pos + 1, quote) {
            Ok(end) => if pos < end < s.len() {
                Ok((s.subrange(pos + 1, end), end + 1))
            } else {
                Err(pos)
            },
            Err(e) => Err(e),
        }
    } else {
        Err(pos)
    }
}

/// A numeric literal at `pos`: an integer, or a float (digits, dot, digits)
/// rounded exactly to its bit pattern.
pub open spec fn spec_number(s: Seq<char>, pos: int) -> Result<(AstV, int), int> {
    let neg = 0 <= pos < s.len() && s[pos] == '-';
    let p = if neg {
        pos + 1
    } else {
        pos
    };
    match spec_digits_from(s, p, 0) {
        Err(e) => Err(e),
        Ok((ipart, _ic, p1)) => {
            if p1 < s.len() && s[p1] == '.' && p1 + 1 <= s.len() {
                match spec_digits_from(s, p1 + 1, ipart) {
                    Err(e) => Err(e),
                    Ok((all, k, p3)) => Ok(
                        (AstV::ConstFloat(crate::float_bits::decimal_to_f64_bits(neg, all, k as nat)), p3),
                    ),
                }
            } else if ipart > 0x7fff_ffff {
                Err(pos)
            } else {
                Ok(
                    (
                        AstV::ConstInt(
                            (if neg {
                                -(ipart as int)
                            } else {
                                ipart as int
                            }) as i32,
                        ),
                        p1,
                    ),
                )
            }
        },
    }
}

/// A comparison operator at `pos`.
pub open spec fn spec_compare_op(s: Seq<char>, pos: int) -> Option<(CompareOp, int)> {
    if lit_matches(s, pos, seq!['=', '=']) {
        Some((CompareOp::Eq, pos + 2))
    } else if lit_matches(s, pos, seq!['!', '=']) {
        Some((CompareOp::Ne, pos + 2))
    } else if lit_matches(s, pos, seq!['>', '=']) {
        Some((CompareOp::Gte, pos + 2))
    } else if lit_matches(s, pos, seq!['<', '=']) {
        Some((CompareOp::Lte, pos + 2))
    } else if lit_matches(s, pos, seq!['>']) {
        Some((CompareOp::Gt, pos + 1))
    } else if lit_matches(s, pos, seq!['<']) {
        Some((CompareOp::Lt, pos + 1))
    } else {
        None
    }
}

/// A signed integer bound inside a bracket suffix.
pub open spec fn spec_signed(s: Seq<char>, pos: int) -> Option<(i32, int)> {
    let neg = 0 <= pos < s.len() && s[pos] == '-';
    let p = if neg {
        pos + 1
    } else {
        pos
    };
    match spec_digits_from(s, p, 0) {
        Ok((mag, _c, p2)) => if mag > 0x7fff_ffff {
            None
        } else {
            Some(
                (
                    (if neg {
                        -(mag as int)
                    } else {
                        mag as int
                    }) as i32,
                    p2,
                ),
            )
        },
        Err(_) => None,
    }
}

/// An index or slice suffix read from the opening bracket at `pos`; `None`
/// when the text has neither shape (the bracket is then left unconsumed).
pub open spec fn spec_bracket(s: Seq<char>, pos: int) -> Option<(BracketOp, int)> {
    let p0 = ws(s, pos + 1);
    let (first, p1): (Option<i32>, int) = match spec_signed(s, p0) {
        Some((v, p1)) => (Some(v), p1),
        None => (None, p0),
    };
    let p2 = ws(s, p1);
    if lit_matches(s, p2, seq![']']) {
        match first {
            Some(v) => Some((BracketOp::Index(v), p2 + 1)),
            None => None,
        }
    } else if lit_matches(s, p2, seq![':']) {
        let p3 = ws(s, p2 + 1);
        let (stop, p4): (Option<i32>, int) = match spec_signed(s, p3) {
            Some((v, p4)) => (Some(v), p4),
            None => (None, p3),
        };
        let p5 = ws(s, p4);
        let (step, p6): (Option<i32>, int) = if lit_matches(s, p5, seq![':']) {
            let p5b = ws(s, p5 + 1);
            match spec_signed(s, p5b) {
                Some((v, p6)) => (Some(v), p6),
                None => (None, p5b),
            }
        } else {
            (None, p5)
        };
        let p7 = ws(s, p6);
        if lit_matches(s, p7, seq![']']) {
            Some((BracketOp::Slice(first, stop, step), p7 + 1))
        } else {
            None
        }
    } else {
        None
    }
}

/// The expression node a bracket suffix wraps around a base.
pub open spec fn apply_bracket(e: AstV, op: BracketOp) -> AstV {
    match op {
        BracketOp::Index(i) => AstV::Index(Box::new(e), i),
        BracketOp::Slice(start, stop, step) => AstV::Slice {
            base: Box::new(e),
            start,
            stop,
            step,
        },
    }
}

/// Bound check on a sub-parse result: a sub-parse always advances within
/// the input, so the `Err` arm of the check is never taken.
pub open spec fn advance_ok(pos: int, len: int, r: Result<(AstV, int), int>) -> Result<
    (AstV, int),
    int,
> {
    match r {
        Ok((e, p)) => if pos < p <= len {
            Ok((e, p))
        } else {
            Err(pos)
        },
        Err(e) => Err(e),
    }
}

/// The dotted-path continuation after a first identifier.
pub open spec fn spec_path_segs(s: Seq<char>, pos: int, parts: Seq<Seq<char>>) -> (Seq<Seq<char>>, int)
    decreases s.len() - pos when 0 <= pos <= s.len()
{
    if pos < s.len() && s[pos] == '.' {
        match spec_identifier(s, pos + 1) {
            Ok((seg, p2)) => spec_path_segs(s, p2, parts.push(seg)),
            Err(_) => (parts, pos),
        }
    } else {
        (parts, pos)
    }
}

/// A pipe expression (the lowest precedence level). A `|` immediately
/// followed by another `|` is never taken as a pipe: the double bar belongs
/// to the or-level below, so precedence is pipe < or < and < not <
/// comparison < postfix.
pub open spec fn spec_parse_pipe(s: Seq<char>, pos: int) -> Result<(AstV, int), int>
    decreases s.len() - pos, 6int when 0 <= pos <= s.len()
{
    match advance_ok(pos, s.len() as int, spec_parse_logical_or(s, pos)) {
        Err(e) => Err(e),
        Ok((first, p)) => {
            let p1 = ws(s, p);
            if lit_matches(s, p1, seq!['|']) && !lit_matches(s, p1, seq!['|', '|']) {
                let p2 = ws(s, p1 + 1);
                match advance_ok(p2, s.len() as int, spec_parse_pipe(s, p2)) {
                    Err(e) => Err(e),
                    Ok((second, p3)) => Ok(
                        (AstV::Pipe(Box::new(first), Box::new(second)), p3),
                    ),
                }
            } else {
                Ok((first, p1))
            }
        },
    }
}

/// A logical-or expression.
pub open spec fn spec_parse_logical_or(s: Seq<char>, pos: int) -> Result<(AstV, int), int>
    decreases s.len() - pos, 5int when 0 <= pos <= s.len()
{
    match advance_ok(pos, s.len() as int, spec_parse_logical_and(s, pos)) {
        Err(e) => Err(e),
        Ok((first, p)) => {
            let p1 = ws(s, p);
            if lit_matches(s, p1, seq!['|', '|']) {
                let p2 = ws(s, p1 + 2);
                match advance_ok(p2, s.len() as int, spec_parse_logical_or(s, p2)) {
                    Err(e) => Err(e),
                    Ok((second, p3)) => Ok(
                        (
                            AstV::Logic {
                                op: LogicOp::Or,
                                lhs: Box::new(first),
                                rhs: Some(Box::new(second)),
                            },
                            p3,
                        ),
                    ),
                }
            } else {
                Ok((first, p1))
            }
        },
    }
}

/// A logical-and expression.
pub open spec fn spec_parse_logical_and(s: Seq<char>, pos: int) -> Result<(AstV, int), int>
    decreases s.len() - pos, 4int when 0 <= pos <= s.len()
{
    match advance_ok(pos, s.len() as int, spec_parse_logical_not(s, pos)) {
        Err(e) => Err(e),
        Ok((first, p)) => {
            let p1 = ws(s, p);
            if lit_matches(s, p1, seq!['&', '&']) {
                let p2 = ws(s, p1 + 2);
                match advance_ok(p2, s.len() as int, spec_parse_logical_and(s, p2)) {
                    Err(e) => Err(e),
                    Ok((second, p3)) => Ok(
                        (
                            AstV::Logic {
                                op: LogicOp::And,
                                lhs: Box::new(first),
                                rhs: Some(Box::new(second)),
                            },
                            p3,
                        ),
                    ),
                }
            } else {
                Ok((first, p1))
            }
        },
    }
}

/// A logical-not expression.
pub open spec fn spec_parse_logical_not(s: Seq<char>, pos: int) -> Result<(AstV, int), int>
    decreases s.len() - pos, 3int when 0 <= pos <= s.len()
{
    let p = ws(s, pos);
    if lit_matches(s, p, seq!['!']) {
        let p1 = ws(s, p + 1);
        match advance_ok(p1, s.len() as int, spec_parse_logical_not(s, p1)) {
            Err(e) => Err(e),
            Ok((inner, p2)) => Ok(
                (AstV::Logic { op: LogicOp::Not, lhs: Box::new(inner), rhs: None }, p2),
            ),
        }
    } else {
        spec_parse_comparison(s, p)
    }
}

/// A comparison between two primaries.
pub open spec fn spec_parse_comparison(s: Seq<char>, pos: int) -> Result<(AstV, int), int>
    decreases s.len() - pos, 2int when 0 <= pos <= s.len()
{
    match advance_ok(pos, s.len() as int, spec_parse_primary(s, pos)) {
        Err(e) => Err(e),
        Ok((lhs, p)) => {
            let p1 = ws(s, p);
            match spec_compare_op(s, p1) {
                Some((op, p2)) => {
                    let p3 = ws(s, p2);
                    match advance_ok(p3, s.len() as int, spec_parse_primary(s, p3)) {
                        Err(e) => Err(e),
                        Ok((rhs, p4)) => Ok(
                            (
                                AstV::Compare { op, lhs: Box::new(lhs), rhs: Box::new(rhs) },
                                p4,
                            ),
                        ),
                    }
                },
                None => Ok((lhs, p1)),
            }
        },
    }
}

/// A primary: an atom followed by postfix operations.
pub open spec fn spec_parse_primary(s: Seq<char>, pos: int) -> Result<(AstV, int), int>
    decreases s.len() - pos, 1int when 0 <= pos <= s.len()
{
    let p0 = ws(s, pos);
    match advance_ok(p0, s.len() as int, spec_parse_atom(s, p0)) {
        Err(e) => Err(e),
        Ok((a, p)) => spec_postfix(s, a, p),
    }
}

/// The postfix chain after an atom: flatten, projection, slice, index and
/// filter suffixes, applied left to right until none matches.
pub open spec fn spec_postfix(s: Seq<char>, e: AstV, pos: int) -> Result<(AstV, int), int>
    decreases s.len() - pos, 0int when 0 <= pos <= s.len()
{
    let q = ws(s, pos);
    if lit_matches(s, q, seq!['[', ']']) {
        spec_postfix(s, AstV::Flatten(Box::new(e)), q + 2)
    } else if lit_matches(s, q, seq!['[', '*', ']']) {
        let q1 = ws(s, q + 3);
        if lit_matches(s, q1, seq!['.']) {
            match advance_ok(q1 + 1, s.len() as int, spec_parse_primary(s, q1 + 1)) {
                Err(e2) => Err(e2),
                Ok((fe, q2)) => spec_postfix(
                    s,
                    AstV::Projection(Box::new(e), Box::new(fe)),
                    q2,
                ),
            }
        } else {
            spec_postfix(
                s,
                AstV::Projection(Box::new(e), Box::new(AstV::Path(Seq::empty()))),
                q1,
            )
        }
    } else if lit_matches(s, q, seq!['[', '?']) {
        let q1 = ws(s, q + 2);
        match advance_ok(q1, s.len() as int, spec_parse_logical_or(s, q1)) {
            Err(e2) => Err(e2),
            Ok((cond, q2)) => {
                let q3 = ws(s, q2);
                if lit_matches(s, q3, seq![']']) {
                    spec_postfix(s, AstV::Filter(Box::new(e), Box::new(cond)), q3 + 1)
                } else {
                    Err(q3)
                }
            },
        }
    } else if lit_matches(s, q, seq!['[']) {
        match spec_bracket(s, q) {
            Some((op, q2)) => if q < q2 <= s.len() {
                spec_postfix(s, apply_bracket(e, op), q2)
            } else {
                Ok((e, pos))
            },
            None => Ok((e, pos)),
        }
    } else {
        Ok((e, pos))
    }
}

/// An atom: current node, expression reference, literal, parenthesized
/// pipe, multi-select hash, function call or dotted path.
pub open spec fn spec_parse_atom(s: Seq<char>, pos: int) -> Result<(AstV, int), int>
    decreases s.len() - pos, 0int when 0 <= pos <= s.len()
{
    if pos >= s.len() {
        Err(pos)
    } else {
        let c = s[pos];
        if c == '@' {
            Ok((AstV::CurrentNode, pos + 1))
        } else if c == '&' {
            let p1 = ws(s, pos + 1);
            match advance_ok(p1, s.len() as int, spec_parse_primary(s, p1)) {
                Err(e) => Err(e),
                Ok((inner, p2)) => Ok((AstV::ExprRef(Box::new(inner)), p2)),
            }
        } else if c == '-' || is_digit(c) {
            spec_number(s, pos)
        } else if c == '"' || c == '\'' {
            match spec_string_lit(s, pos, c) {
                Err(e) => Err(e),
                Ok((lit, p1)) => Ok((AstV::ConstString(lit), p1)),
            }
        } else if c == '(' {
            let p1 = ws(s, pos + 1);
            match advance_ok(p1, s.len() as int, spec_parse_pipe(s, p1)) {
                Err(e) => Err(e),
                Ok((inner, p2)) => {
                    let p3 = ws(s, p2);
                    if lit_matches(s, p3, seq![')']) {
                        Ok((inner, p3 + 1))
                    } else {
                        Err(p3)
                    }
                },
            }
        } else if c == '{' {
            spec_msh(s, pos + 1)
        } else if is_alpha(c) {
            match spec_identifier(s, pos) {
                Err(e) => Err(e),
                Ok((name, p1)) => {
                    if name == "true"@ {
                        Ok((AstV::ConstBool(true), p1))
                    } else if name == "false"@ {
                        Ok((AstV::ConstBool(false), p1))
                    } else {
                        let p2 = ws(s, p1);
                        if lit_matches(s, p2, seq!['(']) {
                            spec_call_args(s, p2 + 1, name)
                        } else {
                            let (parts, p) = spec_path_segs(s, p1, seq![name]);
                            Ok((AstV::Path(parts), p))
                        }
                    }
                },
            }
        } else {
            Err(pos)
        }
    }
}

/// A function call's argument list, entered just past the opening
/// parenthesis.
pub open spec fn spec_call_args(s: Seq<char>, pos: int, name: Seq<char>) -> Result<
    (AstV, int),
    int,
>
    decreases s.len() - pos, 8int when 0 <= pos <= s.len()
{
    let p0 = ws(s, pos);
    if lit_matches(s, p0, seq![')']) {
        Ok((AstV::Func { name, args: Seq::empty() }, p0 + 1))
    } else {
        spec_call_args_loop(s, p0, name, Seq::empty())
    }
}

pub open spec fn spec_call_args_loop(s: Seq<char>, pos: int, name: Seq<char>, args: Seq<AstV>) -> Result<
    (AstV, int),
    int,
>
    decreases s.len() - pos, 7int when 0 <= pos <= s.len()
{
    match advance_ok(pos, s.len() as int, spec_parse_logical_or(s, pos)) {
        Err(e) => Err(e),
        Ok((arg, p1)) => {
            let p2 = ws(s, p1);
            if lit_matches(s, p2, seq![',']) {
                let p = ws(s, p2 + 1);
                if p == p2 + 1 && p >= s.len() {
                    Err(p)
                } else {
                    spec_call_args_loop(s, p, name, args.push(arg))
                }
            } else if lit_matches(s, p2, seq![')']) {
                Ok((AstV::Func { name, args: args.push(arg) }, p2 + 1))
            } else {
                Err(p2)
            }
        },
    }
}

/// A multi-select hash, entered just past the opening brace.
pub open spec fn spec_msh(s: Seq<char>, pos: int) -> Result<(AstV, int), int>
    decreases s.len() - pos, 8int when 0 <= pos <= s.len()
{
    let p0 = ws(s, pos);
    if lit_matches(s, p0, seq!['}']) {
        Ok((AstV::MultiSelectHash(Seq::empty()), p0 + 1))
    } else {
        spec_msh_loop(s, p0, Seq::empty())
    }
}

pub open spec fn spec_msh_loop(s: Seq<char>, pos: int, pairs: Seq<(Seq<char>, AstV)>) -> Result<
    (AstV, int),
    int,
>
    decreases s.len() - pos, 7int when 0 <= pos <= s.len()
{
    match spec_identifier(s, pos) {
        Err(e) => Err(e),
        Ok((key, p1)) => {
            let p2 = ws(s, p1);
            if !lit_matches(s, p2, seq![':']) {
                Err(p2)
            } else {
                let p3 = ws(s, p2 + 1);
                match advance_ok(p3, s.len() as int, spec_parse_pipe(s, p3)) {
                    Err(e) => Err(e),
                    Ok((value, p4)) => {
                        let p5 = ws(s, p4);
                        if lit_matches(s, p5, seq![',']) {
                            let pn = ws(s, p5 + 1);
                            if pos < pn <= s.len() {
                                spec_msh_loop(s, pn, pairs.push((key, value)))
                            } else {
                                Err(p5)
                            }
                        } else if lit_matches(s, p5, seq!['}']) {
                            Ok((AstV::MultiSelectHash(pairs.push((key, value))), p5 + 1))
                        } else {
                            Err(p5)
                        }
                    },
                }
            }
        },
    }
}

/// A whole source string: leading whitespace, then a pipe expression; the
/// unconsumed remainder rides along with the tree.
pub open spec fn spec_parse(input: Seq<char>) -> Result<(Seq<char>, AstV), int> {
    let p0 = ws(input, 0);
    match spec_parse_pipe(input, p0) {
        Ok((ast, p)) => if 0 <= p <= input.len() {
            Ok((input.subrange(p, input.len() as int), ast))
        } else {
            Err(0)
        },
        Err(e) => Err(e),
    }
}

fn digit_exec(c: char) -> (r: bool)
    ensures
        r == is_digit(c),
{
    let u = c as u32;
    48 <= u && u <= 57
}

fn alpha_exec(c: char) -> (r: bool)
    ensures
        r == is_alpha(c),
{
    let u = c as u32;
    (65 <= u && u <= 90) || (97 <= u && u <= 122)
}

fn ident_char_exec(c: char) -> (r: bool)
    ensures
        r == is_ident_char(c),
{
    alpha_exec(c) || digit_exec(c) || c == '_'
}

fn space_exec(c: char) -> (r: bool)
    ensures
        r == is_space(c),
{
    c == ' ' || c == '\t' || c == '\n' || c == '\r'
}

/// Skips whitespace from `pos`.
fn skip_ws(s: &str, pos: usize) -> (p: usize)
    requires
        pos <= s@.len(),
    ensures
        pos <= p <= s@.len(),
        s@.len() <= usize::MAX,
        p as int == ws(s@, pos as int),
{
    let n = s.unicode_len();
    let mut i = pos;
    while i < n
        invariant
            pos <= i <= n,
            n == s@.len(),
            ws_scan(s@, pos as int) == ws_scan(s@, i as int),
        decreases n - i,
    {
        if !space_exec(s.get_char(i)) {
            return i;
        }
        i += 1;
    }
    i
}

/// Reads the character at `pos`, if any.
fn peek(s: &str, pos: usize) -> (r: Option<char>)
    requires
        pos <= s@.len(),
    ensures
        r is Some <==> pos < s@.len(),
        match r {
            Some(c) => pos < s@.len() && c == s@[pos as int],
            None => pos >= s@.len(),
        },
{
    if pos < s.unicode_len() {
        Some(s.get_char(pos))
    } else {
        None
    }
}

/// Whether the text at `pos` starts with the ASCII literal `lit`.
fn lit_at(s: &str, pos: usize, lit: &str) -> (r: bool)
    requires
        pos <= s@.len(),
    ensures
        r ==> pos + lit@.len() <= s@.len(),
        s@.len() <= usize::MAX,
        r == lit_matches(s@, pos as int, lit@),
{
    let n = s.unicode_len();
    let m = lit.unicode_len();
    if m > n - pos {
        return false;
    }
    let mut i: usize = 0;
    while i < m
        invariant
            0 <= i <= m,
            m == lit@.len(),
            n == s@.len(),
            pos + m <= n,
            forall|j: int| 0 <= j < i ==> s@[pos + j] == lit@[j],
        decreases m - i,
    {
        if s.get_char(pos + i) != lit.get_char(i) {
            proof {
                assert(s@.subrange(pos as int, pos + m as int)[i as int] != lit@[i as int]);
            }
            return false;
        }
        i += 1;
    }
    proof {
        assert(s@.subrange(pos as int, pos + m as int) =~= lit@);
    }
    true
}

fn err_at(pos: usize, what: &str) -> (e: SyntaxError)
    ensures
        e.offset == pos,
{
    SyntaxError { offset: pos, expected: String::from_str(what) }
}

/// Parses an identifier (`[A-Za-z][A-Za-z0-9_]*`).
fn parse_identifier(s: &str, pos: usize) -> (r: Result<(String, usize), SyntaxError>)
    requires
        pos <= s@.len(),
    ensures
        r is Ok ==> pos < r->Ok_0.1 <= s@.len(),
        r is Err ==> r->Err_0.offset <= s@.len(),
        match r {
            Ok((name, p)) => spec_identifier(s@, pos as int) == Ok::<(Seq<char>, int), int>(
                (name@, p as int),
            ),
            Err(e) => spec_identifier(s@, pos as int) == Err::<(Seq<char>, int), int>(
                e.offset as int,
            ),
        },
{
    let n = s.unicode_len();
    if pos >= n || !alpha_exec(s.get_char(pos)) {
        return Err(err_at(pos, "identifier"));
    }
    let mut p = pos + 1;
    while p < n && ident_char_exec(s.get_char(p))
        invariant
            pos < p <= n,
            n == s@.len(),
            ident_scan(s@, pos + 1) == ident_scan(s@, p as int),
        decreases n - p,
    {
        p += 1;
    }
    let name = s.substring_char(pos, p);
    proof {
        assert(ident_scan(s@, p as int) == p);
    }
    Ok((String::from_str(name), p))
}

/// Parses an unsigned decimal integer of at most 19 digits.
fn parse_digits(s: &str, pos: usize) -> (r: Result<(u64, u32, usize), SyntaxError>)
    requires
        pos <= s@.len(),
    ensures
        r is Ok ==> pos < r->Ok_0.2 <= s@.len() && r->Ok_0.1 <= 19,
        r is Err ==> r->Err_0.offset <= s@.len(),
        match r {
            Ok((acc, count, pe)) => spec_digits_from(s@, pos as int, 0) == Ok::<
                (u64, u32, int),
                int,
            >((acc, count, pe as int)),
            Err(e) => spec_digits_from(s@, pos as int, 0) == Err::<(u64, u32, int), int>(
                e.offset as int,
            ),
        },
{
    let n = s.unicode_len();
    if pos >= n || !digit_exec(s.get_char(pos)) {
        return Err(err_at(pos, "digit"));
    }
    let mut acc: u64 = 0;
    let mut count: u32 = 0;
    let mut p = pos;
    while p < n && digit_exec(s.get_char(p))
        invariant
            pos <= p <= n,
            n == s@.len(),
            count <= 19,
            pos < s@.len() && is_digit(s@[pos as int]),
            p == pos ==> acc == 0 && count == 0,
            digits_scan(s@, pos as int, 0, 0) == digits_scan(s@, p as int, acc, count),
        decreases n - p,
    {
        let c = s.get_char(p);
        if count >= 19 || acc >= 0x1999_9999_9999_9999 {
            return Err(err_at(p, "number of at most 19 digits"));
        }
        let d: u64 = (c as u32 as u64) - 48;
        acc = acc * 10 + d;
        count += 1;
        p += 1;
    }
    proof {
        assert(digits_scan(s@, p as int, acc, count) == Ok::<(u64, u32, int), int>(
            (acc, count, p as int),
        ));
    }
    if p == pos {
        return Err(err_at(pos, "digit"));
    }
    Ok((acc, count, p))
}

/// Parses a numeric literal: an optional minus, digits, and optionally a dot
/// and fractional digits (making a float).
fn parse_number(s: &str, pos: usize) -> (r: Result<(JmesPathExpr, usize), SyntaxError>)
    requires
        pos <= s@.len(),
    ensures
        r is Ok ==> pos < r->Ok_0.1 <= s@.len(),
        r is Ok ==> ast_ok(r->Ok_0.0),
        r is Err ==> r->Err_0.offset <= s@.len(),
        match r {
            Ok((ast, p)) => spec_number(s@, pos as int) == Ok::<(AstV, int), int>(
                (ast_v(ast), p as int),
            ),
            Err(e) => spec_number(s@, pos as int) == Err::<(AstV, int), int>(e.offset as int),
        },
{
    let n = s.unicode_len();
    let mut p = pos;
    let mut neg = false;
    if p < n && s.get_char(p) == '-' {
        neg = true;
        p += 1;
    }
    let (ipart, _icount, p1) = match parse_digits(s, p) {
        Ok(t) => t,
        Err(e) => {
            return Err(e);
        },
    };
    let mut p2 = p1;
    if p2 < n && s.get_char(p2) == '.' && p2 + 1 <= n {
        // A float literal: digits '.' digits.
        let (all, kdigits, p3) = match parse_digits_continuing(s, p2 + 1, ipart) {
            Ok(t) => t,
            Err(e) => {
                return Err(e);
            },
        };
        let bits = decimal_bits(neg, all, kdigits);
        return Ok((JmesPathExpr::ConstFloat(bits), p3));
    }
    if ipart > 0x7fff_ffff {
        return Err(err_at(pos, "integer in range"));
    }
    let v: i32 = if neg {
        (-(ipart as i64)) as i32
    } else {
        ipart as i32
    };
    Ok((JmesPathExpr::ConstInt(v), p2))
}

/// Continues digit accumulation after the decimal point, bounding the total
/// number of digits so the value stays exact.
fn parse_digits_continuing(s: &str, pos: usize, start: u64) -> (r: Result<
    (u64, u32, usize),
    SyntaxError,
>)
    requires
        pos <= s@.len(),
    ensures
        r is Ok ==> pos < r->Ok_0.2 <= s@.len() && r->Ok_0.1 <= 19,
        r is Err ==> r->Err_0.offset <= s@.len(),
        match r {
            Ok((acc, count, pe)) => spec_digits_from(s@, pos as int, start) == Ok::<
                (u64, u32, int),
                int,
            >((acc, count, pe as int)),
            Err(e) => spec_digits_from(s@, pos as int, start) == Err::<(u64, u32, int), int>(
                e.offset as int,
            ),
        },
{
    let n = s.unicode_len();
    if pos >= n || !digit_exec(s.get_char(pos)) {
        return Err(err_at(pos, "digit"));
    }
    let mut acc: u64 = start;
    let mut count: u32 = 0;
    let mut p = pos;
    while p < n && digit_exec(s.get_char(p))
        invariant
            pos <= p <= n,
            n == s@.len(),
            count <= 19,
            pos < s@.len() && is_digit(s@[pos as int]),
            p == pos ==> acc == start && count == 0,
            digits_scan(s@, pos as int, start, 0) == digits_scan(s@, p as int, acc, count),
        decreases n - p,
    {
        let c = s.get_char(p);
        if count >= 19 || acc >= 0x1999_9999_9999_9999 {
            return Err(err_at(p, "number of at most 19 digits"));
        }
        let d: u64 = (c as u32 as u64) - 48;
        acc = acc * 10 + d;
        count += 1;
        p += 1;
    }
    proof {
        assert(digits_scan(s@, p as int, acc, count) == Ok::<(u64, u32, int), int>(
            (acc, count, p as int),
        ));
    }
    if p == pos {
        return Err(err_at(pos, "digit"));
    }
    Ok((acc, count, p))
}

/// Parses a quoted string literal; the raw span between the quotes is kept
/// as written (escape pairs are preserved, with the backslashes).
fn parse_string_lit(s: &str, pos: usize, quote: char) -> (r: Result<(String, usize), SyntaxError>)
    requires
        pos <= s@.len(),
    ensures
        r is Ok ==> pos < r->Ok_0.1 <= s@.len(),
        r is Err ==> r->Err_0.offset <= s@.len(),
        match r {
            Ok((lit, p)) => spec_string_lit(s@, pos as int, quote) == Ok::<(Seq<char>, int), int>(
                (lit@, p as int),
            ),
            Err(e) => spec_string_lit(s@, pos as int, quote) == Err::<(Seq<char>, int), int>(
                e.offset as int,
            ),
        },
{
    let n = s.unicode_len();
    if pos >= n || s.get_char(pos) != quote {
        return Err(err_at(pos, "string"));
    }
    let start = pos + 1;
    let mut p = start;
    while p < n
        invariant
            start <= p <= n,
            n == s@.len(),
            start == pos + 1,
            pos < n,
            s@[pos as int] == quote,
            str_scan(s@, start as int, quote) == str_scan(s@, p as int, quote),
        decreases n - p,
    {
        let c = s.get_char(p);
        if c == quote {
            let content = s.substring_char(start, p);
            return Ok((String::from_str(content), p + 1));
        }
        if c == '\\' {
            if p + 1 >= n {
                return Err(err_at(p, "escape"));
            }
            let e = s.get_char(p + 1);
            if !(e == quote || e == '\\' || e == 'n' || e == 'r' || e == 't') {
                return Err(err_at(p + 1, "escape"));
            }
            p += 2;
        } else {
            p += 1;
        }
    }
    Err(err_at(n, "closing quote"))
}

/// Parses a comparison operator.
fn parse_compare_op(s: &str, pos: usize) -> (r: Option<(CompareOp, usize)>)
    requires
        pos <= s@.len(),
    ensures
        r is Some ==> pos < (r->0).1 <= s@.len(),
        match r {
            Some((op, p)) => spec_compare_op(s@, pos as int) == Some((op, p as int)),
            None => spec_compare_op(s@, pos as int) is None,
        },
{
    proof {
        reveal_strlit("==");
        reveal_strlit("!=");
        reveal_strlit(">=");
        reveal_strlit("<=");
        reveal_strlit(">");
        reveal_strlit("<");
        assert("=="@ =~= seq!['=', '=']);
        assert("!="@ =~= seq!['!', '=']);
        assert(">="@ =~= seq!['>', '=']);
        assert("<="@ =~= seq!['<', '=']);
        assert(">"@ =~= seq!['>']);
        assert("<"@ =~= seq!['<']);
    }
    if lit_at(s, pos, "==") {
        Some((CompareOp::Eq, pos + 2))
    } else if lit_at(s, pos, "!=") {
        Some((CompareOp::Ne, pos + 2))
    } else if lit_at(s, pos, ">=") {
        Some((CompareOp::Gte, pos + 2))
    } else if lit_at(s, pos, "<=") {
        Some((CompareOp::Lte, pos + 2))
    } else if lit_at(s, pos, ">") {
        Some((CompareOp::Gt, pos + 1))
    } else if lit_at(s, pos, "<") {
        Some((CompareOp::Lt, pos + 1))
    } else {
        None
    }
}

/// Parses a pipe expression (the lowest precedence level).
pub fn parse_pipe(s: &str, pos: usize) -> (r: Result<(JmesPathExpr, usize), SyntaxError>)
    requires
        pos <= s@.len(),
    ensures
        r is Ok ==> pos < r->Ok_0.1 <= s@.len(),
        r is Ok ==> ast_ok(r->Ok_0.0),
        r is Err ==> r->Err_0.offset <= s@.len(),
        match r {
            Ok((ast, p)) => spec_parse_pipe(s@, pos as int) == Ok::<(AstV, int), int>((ast_v(ast), p as int)),
            Err(e) => spec_parse_pipe(s@, pos as int) == Err::<(AstV, int), int>(e.offset as int),
        },
    decreases s@.len() - pos, 6int,
{
    proof {
        reveal_strlit("|");
        reveal_strlit("||");
        assert("|"@ =~= seq!['|']);
        assert("||"@ =~= seq!['|', '|']);
    }
    let (first, p) = match parse_logical_or(s, pos) {
        Ok(t) => t,
        Err(e) => {
            return Err(e);
        },
    };
    let p1 = skip_ws(s, p);
    if lit_at(s, p1, "|") && !lit_at(s, p1, "||") {
        let p2 = skip_ws(s, p1 + 1);
        let (second, p3) = match parse_pipe(s, p2) {
            Ok(t) => t,
            Err(e) => {
                return Err(e);
            },
        };
        Ok((JmesPathExpr::Pipe(Box::new(first), Box::new(second)), p3))
    } else {
        Ok((first, p1))
    }
}

/// Parses a logical-or expression.
fn parse_logical_or(s: &str, pos: usize) -> (r: Result<(JmesPathExpr, usize), SyntaxError>)
    requires
        pos <= s@.len(),
    ensures
        r is Ok ==> pos < r->Ok_0.1 <= s@.len(),
        r is Ok ==> ast_ok(r->Ok_0.0),
        r is Err ==> r->Err_0.offset <= s@.len(),
        match r {
            Ok((ast, p)) => spec_parse_logical_or(s@, pos as int) == Ok::<(AstV, int), int>((ast_v(ast), p as int)),
            Err(e) => spec_parse_logical_or(s@, pos as int) == Err::<(AstV, int), int>(e.offset as int),
        },
    decreases s@.len() - pos, 5int,
{
    proof {
        reveal_strlit("||");
        assert("||"@ =~= seq!['|', '|']);
    }
    let (first, p) = match parse_logical_and(s, pos) {
        Ok(t) => t,
        Err(e) => {
            return Err(e);
        },
    };
    let p1 = skip_ws(s, p);
    if lit_at(s, p1, "||") {
        let p2 = skip_ws(s, p1 + 2);
        let (second, p3) = match parse_logical_or(s, p2) {
            Ok(t) => t,
            Err(e) => {
                return Err(e);
            },
        };
        Ok(
            (
                JmesPathExpr::Logic {
                    op: LogicOp::Or,
                    lhs: Box::new(first),
                    rhs: Some(Box::new(second)),
                },
                p3,
            ),
        )
    } else {
        Ok((first, p1))
    }
}

/// Parses a logical-and expression.
fn parse_logical_and(s: &str, pos: usize) -> (r: Result<(JmesPathExpr, usize), SyntaxError>)
    requires
        pos <= s@.len(),
    ensures
        r is Ok ==> pos < r->Ok_0.1 <= s@.len(),
        r is Ok ==> ast_ok(r->Ok_0.0),
        r is Err ==> r->Err_0.offset <= s@.len(),
        match r {
            Ok((ast, p)) => spec_parse_logical_and(s@, pos as int) == Ok::<(AstV, int), int>((ast_v(ast), p as int)),
            Err(e) => spec_parse_logical_and(s@, pos as int) == Err::<(AstV, int), int>(e.offset as int),
        },
    decreases s@.len() - pos, 4int,
{
    proof {
        reveal_strlit("&&");
        assert("&&"@ =~= seq!['&', '&']);
    }
    let (first, p) = match parse_logical_not(s, pos) {
        Ok(t) => t,
        Err(e) => {
            return Err(e);
        },
    };
    let p1 = skip_ws(s, p);
    if lit_at(s, p1, "&&") {
        let p2 = skip_ws(s, p1 + 2);
        let (second, p3) = match parse_logical_and(s, p2) {
            Ok(t) => t,
            Err(e) => {
                return Err(e);
            },
        };
        Ok(
            (
                JmesPathExpr::Logic {
                    op: LogicOp::And,
                    lhs: Box::new(first),
                    rhs: Some(Box::new(second)),
                },
                p3,
            ),
        )
    } else {
        Ok((first, p1))
    }
}

/// Parses a logical-not expression.
fn parse_logical_not(s: &str, pos: usize) -> (r: Result<(JmesPathExpr, usize), SyntaxError>)
    requires
        pos <= s@.len(),
    ensures
        r is Ok ==> pos < r->Ok_0.1 <= s@.len(),
        r is Ok ==> ast_ok(r->Ok_0.0),
        r is Err ==> r->Err_0.offset <= s@.len(),
        match r {
            Ok((ast, p)) => spec_parse_logical_not(s@, pos as int) == Ok::<(AstV, int), int>((ast_v(ast), p as int)),
            Err(e) => spec_parse_logical_not(s@, pos as int) == Err::<(AstV, int), int>(e.offset as int),
        },
    decreases s@.len() - pos, 3int,
{
    proof {
        reveal_strlit("!");
        assert("!"@ =~= seq!['!']);
    }
    let p = skip_ws(s, pos);
    if lit_at(s, p, "!") {
        let p1 = skip_ws(s, p + 1);
        let (inner, p2) = match parse_logical_not(s, p1) {
            Ok(t) => t,
            Err(e) => {
                return Err(e);
            },
        };
        Ok((JmesPathExpr::Logic { op: LogicOp::Not, lhs: Box::new(inner), rhs: None }, p2))
    } else {
        parse_comparison(s, p)
    }
}

/// Parses a comparison between two primaries.
fn parse_comparison(s: &str, pos: usize) -> (r: Result<(JmesPathExpr, usize), SyntaxError>)
    requires
        pos <= s@.len(),
    ensures
        r is Ok ==> pos < r->Ok_0.1 <= s@.len(),
        r is Ok ==> ast_ok(r->Ok_0.0),
        r is Err ==> r->Err_0.offset <= s@.len(),
        match r {
            Ok((ast, p)) => spec_parse_comparison(s@, pos as int) == Ok::<(AstV, int), int>((ast_v(ast), p as int)),
            Err(e) => spec_parse_comparison(s@, pos as int) == Err::<(AstV, int), int>(e.offset as int),
        },
    decreases s@.len() - pos, 2int,
{
    let (lhs, p) = match parse_primary(s, pos) {
        Ok(t) => t,
        Err(e) => {
            return Err(e);
        },
    };
    let p1 = skip_ws(s, p);
    match parse_compare_op(s, p1) {
        Some((op, p2)) => {
            let p3 = skip_ws(s, p2);
            let (rhs, p4) = match parse_primary(s, p3) {
                Ok(t) => t,
                Err(e) => {
                    return Err(e);
                },
            };
            Ok((JmesPathExpr::Compare { op, lhs: Box::new(lhs), rhs: Box::new(rhs) }, p4))
        },
        None => Ok((lhs, p1)),
    }
}

/// Parses a primary expression: an atom followed by any number of postfix
/// flatten, projection, slice, index and filter operations.
#[verifier::rlimit(100)]
#[verifier::loop_isolation(false)]
fn parse_primary(s: &str, pos: usize) -> (r: Result<(JmesPathExpr, usize), SyntaxError>)
    requires
        pos <= s@.len(),
    ensures
        r is Ok ==> pos < r->Ok_0.1 <= s@.len(),
        r is Ok ==> ast_ok(r->Ok_0.0),
        r is Err ==> r->Err_0.offset <= s@.len(),
        match r {
            Ok((ast, p)) => spec_parse_primary(s@, pos as int) == Ok::<(AstV, int), int>((ast_v(ast), p as int)),
            Err(e) => spec_parse_primary(s@, pos as int) == Err::<(AstV, int), int>(e.offset as int),
        },
    decreases s@.len() - pos, 1int,
{
    proof {
        reveal_strlit("[]");
        reveal_strlit("[*]");
        reveal_strlit("[?");
        reveal_strlit("[");
        reveal_strlit("]");
        reveal_strlit(".");
        assert("[]"@ =~= seq!['[', ']']);
        assert("[*]"@ =~= seq!['[', '*', ']']);
        assert("[?"@ =~= seq!['[', '?']);
        assert("["@ =~= seq!['[']);
        assert("]"@ =~= seq![']']);
        assert("."@ =~= seq!['.']);
    }
    let p0 = skip_ws(s, pos);
    let (mut expr, mut p) = match parse_atom(s, p0) {
        Ok(t) => t,
        Err(e) => {
            return Err(e);
        },
    };
    let n = s.unicode_len();
    loop
        invariant
            pos < p <= n,
            n == s@.len(),
            ast_ok(expr),
            spec_parse_primary(s@, pos as int) == spec_postfix(s@, ast_v(expr), p as int),
        decreases n - p,
    {
        let q = skip_ws(s, p);
        if lit_at(s, q, "[]") {
            expr = JmesPathExpr::Flatten(Box::new(expr));
            p = q + 2;
            continue ;
        }
        if lit_at(s, q, "[*]") {
            let q1 = skip_ws(s, q + 3);
            if lit_at(s, q1, ".") {
                let (fe, q2) = match parse_primary(s, q1 + 1) {
                    Ok(t) => t,
                    Err(e) => {
                        return Err(e);
                    },
                };
                let ghost gold = ast_v(expr);
                let ghost gfe = ast_v(fe);
                proof {
                    assert(spec_postfix(s@, gold, p as int) == spec_postfix(
                        s@,
                        AstV::Projection(Box::new(gold), Box::new(gfe)),
                        q2 as int,
                    ));
                }
                expr = JmesPathExpr::Projection(Box::new(expr), Box::new(fe));
                proof {
                    assert(ast_v(expr) == AstV::Projection(Box::new(gold), Box::new(gfe)));
                }
                p = q2;
                continue ;
            } else {
                let ghost gold = ast_v(expr);
                let empty: Vec<String> = Vec::new();
                proof {
                    assert(empty.deep_view() =~= Seq::<Seq<char>>::empty());
                }
                let fe = JmesPathExpr::Path(empty);
                proof {
                    assert(ast_ok(fe));
                    assert(ast_v(fe) == AstV::Path(Seq::<Seq<char>>::empty()));
                    assert(spec_postfix(s@, gold, p as int) == spec_postfix(
                        s@,
                        AstV::Projection(
                            Box::new(gold),
                            Box::new(AstV::Path(Seq::<Seq<char>>::empty())),
                        ),
                        q1 as int,
                    ));
                }
                expr = JmesPathExpr::Projection(Box::new(expr), Box::new(fe));
                proof {
                    assert(ast_v(expr) == AstV::Projection(
                        Box::new(gold),
                        Box::new(AstV::Path(Seq::<Seq<char>>::empty())),
                    ));
                }
                p = q1;
                continue ;
            }
        }
        if lit_at(s, q, "[?") {
            let q1 = skip_ws(s, q + 2);
            let (cond, q2) = match parse_logical_or(s, q1) {
                Ok(t) => t,
                Err(e) => {
                    return Err(e);
                },
            };
            let q3 = skip_ws(s, q2);
            if !lit_at(s, q3, "]") {
                return Err(err_at(q3, "]"));
            }
            expr = JmesPathExpr::Filter(Box::new(expr), Box::new(cond));
            p = q3 + 1;
            continue ;
        }
        if lit_at(s, q, "[") {
            // A slice or an index; on neither shape, leave the bracket
            // unconsumed for the caller.
            match parse_bracket_suffix(s, q) {
                Some((made, q2)) => {
                    proof {
                        assert(spec_postfix(s@, ast_v(expr), p as int) == spec_postfix(
                            s@,
                            apply_bracket(ast_v(expr), made),
                            q2 as int,
                        ));
                    }
                    expr = match made {
                        BracketOp::Index(i) => JmesPathExpr::Index(Box::new(expr), i),
                        BracketOp::Slice(start, stop, step) => JmesPathExpr::Slice {
                            base: Box::new(expr),
                            start,
                            stop,
                            step,
                        },
                    };
                    p = q2;
                    continue ;
                },
                None => {
                    return Ok((expr, p));
                },
            }
        }
        return Ok((expr, p));
    }
}

/// A parsed bracket suffix: a positional index or a slice.
pub enum BracketOp {
    Index(i32),
    Slice(Option<i32>, Option<i32>, Option<i32>),
}

/// Parses a signed integer bound inside a bracket suffix.
fn parse_signed_i32(s: &str, pos: usize) -> (r: Option<(i32, usize)>)
    requires
        pos <= s@.len(),
    ensures
        r is Some ==> pos < (r->0).1 <= s@.len(),
        match r {
            Some((v, p)) => spec_signed(s@, pos as int) == Some((v, p as int)),
            None => spec_signed(s@, pos as int) is None,
        },
{
    let n = s.unicode_len();
    let mut p = pos;
    let mut neg = false;
    if p < n && s.get_char(p) == '-' {
        neg = true;
        p += 1;
    }
    match parse_digits(s, p) {
        Ok((mag, _cnt, p2)) => {
            if mag > 0x7fff_ffff {
                None
            } else {
                let v: i32 = if neg {
                    (-(mag as i64)) as i32
                } else {
                    mag as i32
                };
                Some((v, p2))
            }
        },
        Err(_) => None,
    }
}

/// Tries to read `[int]` or `[int?:int?(:int?)?]` starting at the opening
/// bracket; `None` leaves the text unconsumed.
fn parse_bracket_suffix(s: &str, pos: usize) -> (r: Option<(BracketOp, usize)>)
    requires
        pos < s@.len(),
        s@.len() <= usize::MAX,
    ensures
        r is Some ==> pos < (r->0).1 <= s@.len(),
        match r {
            Some((op, p)) => spec_bracket(s@, pos as int) == Some((op, p as int)),
            None => spec_bracket(s@, pos as int) is None,
        },
{
    proof {
        reveal_strlit("]");
        reveal_strlit(":");
        assert("]"@ =~= seq![']']);
        assert(":"@ =~= seq![':']);
    }
    let p0 = skip_ws(s, pos + 1);
    let (first, p1): (Option<i32>, usize) = match parse_signed_i32(s, p0) {
        Some((v, p1)) => (Some(v), p1),
        None => (None, p0),
    };
    let p2 = skip_ws(s, p1);
    if lit_at(s, p2, "]") {
        // An index needs the integer.
        match first {
            Some(v) => Some((BracketOp::Index(v), p2 + 1)),
            None => None,
        }
    } else if lit_at(s, p2, ":") {
        let p3 = skip_ws(s, p2 + 1);
        let (stop, p4): (Option<i32>, usize) = match parse_signed_i32(s, p3) {
            Some((v, p4)) => (Some(v), p4),
            None => (None, p3),
        };
        let p5 = skip_ws(s, p4);
        let (step, p6): (Option<i32>, usize) = if lit_at(s, p5, ":") {
            let p5b = skip_ws(s, p5 + 1);
            match parse_signed_i32(s, p5b) {
                Some((v, p6)) => (Some(v), p6),
                None => (None, p5b),
            }
        } else {
            (None, p5)
        };
        let p7 = skip_ws(s, p6);
        if lit_at(s, p7, "]") {
            Some((BracketOp::Slice(first, stop, step), p7 + 1))
        } else {
            None
        }
    } else {
        None
    }
}

/// Parses an atom: current node, expression reference, literal,
/// parenthesized pipe, multi-select hash, function call or dotted path.
#[verifier::rlimit(60)]
#[verifier::loop_isolation(false)]
fn parse_atom(s: &str, pos: usize) -> (r: Result<(JmesPathExpr, usize), SyntaxError>)
    requires
        pos <= s@.len(),
    ensures
        r is Ok ==> pos < r->Ok_0.1 <= s@.len(),
        r is Ok ==> ast_ok(r->Ok_0.0),
        r is Err ==> r->Err_0.offset <= s@.len(),
        match r {
            Ok((ast, p)) => spec_parse_atom(s@, pos as int) == Ok::<(AstV, int), int>((ast_v(ast), p as int)),
            Err(e) => spec_parse_atom(s@, pos as int) == Err::<(AstV, int), int>(e.offset as int),
        },
    decreases s@.len() - pos, 0int,
{
    proof {
        reveal_strlit(")");
        reveal_strlit("(");
        assert(")"@ =~= seq![')']);
        assert("("@ =~= seq!['(']);
    }
    let n = s.unicode_len();
    let c = match peek(s, pos) {
        Some(c) => c,
        None => {
            return Err(err_at(pos, "expression"));
        },
    };
    if c == '@' {
        return Ok((JmesPathExpr::CurrentNode, pos + 1));
    }
    if c == '&' {
        let p1 = skip_ws(s, pos + 1);
        let (inner, p2) = match parse_primary(s, p1) {
            Ok(t) => t,
            Err(e) => {
                return Err(e);
            },
        };
        return Ok((JmesPathExpr::ExprRef(Box::new(inner)), p2));
    }
    if c == '-' || digit_exec(c) {
        return parse_number(s, pos);
    }
    if c == '"' || c == '\'' {
        let (lit, p1) = match parse_string_lit(s, pos, c) {
            Ok(t) => t,
            Err(e) => {
                return Err(e);
            },
        };
        return Ok((JmesPathExpr::ConstString(lit), p1));
    }
    if c == '(' {
        let p1 = skip_ws(s, pos + 1);
        let (inner, p2) = match parse_pipe(s, p1) {
            Ok(t) => t,
            Err(e) => {
                return Err(e);
            },
        };
        let p3 = skip_ws(s, p2);
        if !lit_at(s, p3, ")") {
            return Err(err_at(p3, ")"));
        }
        return Ok((inner, p3 + 1));
    }
    if c == '{' {
        return parse_multi_select_hash(s, pos + 1);
    }
    if alpha_exec(c) {
        let (name, p1) = match parse_identifier(s, pos) {
            Ok(t) => t,
            Err(e) => {
                return Err(e);
            },
        };
        if crate::strops::eq_lit(&name, "true") {
            return Ok((JmesPathExpr::ConstBool(true), p1));
        }
        if crate::strops::eq_lit(&name, "false") {
            return Ok((JmesPathExpr::ConstBool(false), p1));
        }
        let p2 = skip_ws(s, p1);
        if lit_at(s, p2, "(") {
            return parse_call_args(s, p2 + 1, name, pos);
        }
        // A dotted path continuing from the identifier.
        let ghost gname = name@;
        let mut parts: Vec<String> = Vec::new();
        parts.push(name);
        proof {
            assert(parts.deep_view() =~= seq![gname]);
        }
        let mut p = p1;
        while p < n
            invariant
                pos < p <= n,
                n == s@.len(),
                spec_path_segs(s@, p1 as int, seq![gname]) == spec_path_segs(
                    s@,
                    p as int,
                    parts.deep_view(),
                ),
            decreases n - p,
        {
            if s.get_char(p) != '.' {
                return Ok((JmesPathExpr::Path(parts), p));
            }
            match parse_identifier(s, p + 1) {
                Ok((seg, pn)) => {
                    let ghost oldparts = parts.deep_view();
                    let ghost gseg = seg@;
                    parts.push(seg);
                    proof {
                        assert(parts.deep_view() =~= oldparts.push(gseg));
                    }
                    p = pn;
                },
                Err(_) => {
                    return Ok((JmesPathExpr::Path(parts), p));
                },
            }
        }
        return Ok((JmesPathExpr::Path(parts), p));
    }
    Err(err_at(pos, "expression"))
}

/// Parses the comma-separated argument list of a function call, after the
/// opening parenthesis.
#[verifier::rlimit(60)]
#[verifier::loop_isolation(false)]
fn parse_call_args(s: &str, pos: usize, name: String, start: usize) -> (r: Result<
    (JmesPathExpr, usize),
    SyntaxError,
>)
    requires
        start < pos <= s@.len(),
    ensures
        r is Ok ==> start < r->Ok_0.1 <= s@.len(),
        r is Ok ==> ast_ok(r->Ok_0.0),
        r is Err ==> r->Err_0.offset <= s@.len(),
        match r {
            Ok((ast, p)) => spec_call_args(s@, pos as int, name@) == Ok::<(AstV, int), int>(
                (ast_v(ast), p as int),
            ),
            Err(e) => spec_call_args(s@, pos as int, name@) == Err::<(AstV, int), int>(
                e.offset as int,
            ),
        },
    decreases s@.len() - pos, 7int,
{
    proof {
        reveal_strlit(")");
        reveal_strlit(",");
        assert(")"@ =~= seq![')']);
        assert(","@ =~= seq![',']);
    }
    let ghost gname = name@;
    let p0 = skip_ws(s, pos);
    let mut args: Vec<JmesPathExpr> = Vec::new();
    proof {
        assert(crate::ast::args_v(args@) =~= Seq::<AstV>::empty());
    }
    if lit_at(s, p0, ")") {
        return Ok((JmesPathExpr::Func { name, args }, p0 + 1));
    }
    let mut p = p0;
    let n = s.unicode_len();
    loop
        invariant
            p0 <= p <= n,
            n == s@.len(),
            start < p,
            forall|i: int| 0 <= i < args@.len() ==> ast_ok(#[trigger] args@[i]),
            spec_call_args(s@, pos as int, gname) == spec_call_args_loop(
                s@,
                p as int,
                gname,
                crate::ast::args_v(args@),
            ),
        decreases n - p,
    {
        let (arg, p1) = match parse_logical_or(s, p) {
            Ok(t) => t,
            Err(e) => {
                return Err(e);
            },
        };
        let ghost oldargs = crate::ast::args_v(args@);
        let ghost garg = ast_v(arg);
        args.push(arg);
        proof {
            assert(crate::ast::args_v(args@) =~= oldargs.push(garg));
        }
        let p2 = skip_ws(s, p1);
        if lit_at(s, p2, ",") {
            p = skip_ws(s, p2 + 1);
            if p == p2 + 1 && p >= n {
                return Err(err_at(p, "argument"));
            }
            continue ;
        }
        if lit_at(s, p2, ")") {
            return Ok((JmesPathExpr::Func { name, args }, p2 + 1));
        }
        return Err(err_at(p2, ", or )"));
    }
}

/// Parses a multi-select hash `{label: expr, ...}`, entered just past the
/// opening brace.
#[verifier::rlimit(80)]
#[verifier::loop_isolation(false)]
fn parse_multi_select_hash(s: &str, pos: usize) -> (r: Result<(JmesPathExpr, usize), SyntaxError>)
    requires
        pos <= s@.len(),
    ensures
        r is Ok ==> pos <= r->Ok_0.1 <= s@.len() && r->Ok_0.1 > 0,
        r is Ok ==> ast_ok(r->Ok_0.0),
        r is Err ==> r->Err_0.offset <= s@.len(),
        match r {
            Ok((ast, p)) => spec_msh(s@, pos as int) == Ok::<(AstV, int), int>(
                (ast_v(ast), p as int),
            ),
            Err(e) => spec_msh(s@, pos as int) == Err::<(AstV, int), int>(e.offset as int),
        },
    decreases s@.len() - pos, 7int,
{
    proof {
        reveal_strlit("}");
        reveal_strlit(":");
        reveal_strlit(",");
        assert("}"@ =~= seq!['}']);
        assert(":"@ =~= seq![':']);
        assert(","@ =~= seq![',']);
    }
    let p0 = skip_ws(s, pos);
    let mut pairs: Vec<(String, JmesPathExpr)> = Vec::new();
    proof {
        assert(crate::ast::pairs_v(pairs@) =~= Seq::<(Seq<char>, AstV)>::empty());
    }
    if lit_at(s, p0, "}") {
        return Ok((JmesPathExpr::MultiSelectHash(pairs), p0 + 1));
    }
    let mut p = p0;
    let n = s.unicode_len();
    loop
        invariant
            p0 <= p <= n,
            n == s@.len(),
            pos <= p,
            forall|i: int| 0 <= i < pairs@.len() ==> ast_ok((#[trigger] pairs@[i]).1),
            spec_msh(s@, pos as int) == spec_msh_loop(s@, p as int, crate::ast::pairs_v(pairs@)),
        decreases n - p,
    {
        let (key, p1) = match parse_identifier(s, p) {
            Ok(t) => t,
            Err(e) => {
                return Err(e);
            },
        };
        let p2 = skip_ws(s, p1);
        if !lit_at(s, p2, ":") {
            return Err(err_at(p2, ":"));
        }
        let p3 = skip_ws(s, p2 + 1);
        let (value, p4) = match parse_pipe(s, p3) {
            Ok(t) => t,
            Err(e) => {
                return Err(e);
            },
        };
        let ghost oldpairs = crate::ast::pairs_v(pairs@);
        let ghost gkey = key@;
        let ghost gval = ast_v(value);
        pairs.push((key, value));
        proof {
            assert(crate::ast::pairs_v(pairs@) =~= oldpairs.push((gkey, gval)));
        }
        let p5 = skip_ws(s, p4);
        if lit_at(s, p5, ",") {
            p = skip_ws(s, p5 + 1);
            continue ;
        }
        if lit_at(s, p5, "}") {
            return Ok((JmesPathExpr::MultiSelectHash(pairs), p5 + 1));
        }
        return Err(err_at(p5, ", or }"));
    }
}

/// Parses a whole source string into an expression tree, returning the
/// unconsumed remainder of the input alongside the tree. The contract pins
/// the result completely: the returned tree and remainder (or the error
/// offset) are exactly those of the spec-level grammar `spec_parse`.
pub fn parse_jmespath(input: &str) -> (r: Result<(String, JmesPathExpr), SyntaxError>)
    ensures
        r is Ok ==> ast_ok(r->Ok_0.1),
        r is Err ==> r->Err_0.offset <= input@.len(),
        match r {
            Ok((rest, ast)) => spec_parse(input@) == Ok::<(Seq<char>, AstV), int>(
                (rest@, ast_v(ast)),
            ),
            Err(e) => spec_parse(input@) == Err::<(Seq<char>, AstV), int>(e.offset as int),
        },
{
    let p0 = skip_ws(input, 0);
    match parse_pipe(input, p0) {
        Ok((ast, p)) => {
            let rest = input.substring_char(p, input.unicode_len());
            proof {
                assert(rest@ == input@.subrange(p as int, input@.len() as int));
            }
            Ok((String::from_str(rest), ast))
        },
        Err(e) => Err(e),
    }
}

} // verus!
