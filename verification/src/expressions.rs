//! Expressions, statements and function bodies.
//!
//! A body holds statements and expressions, and an expression may hold a
//! body (`loop`) or further expressions (call arguments, `let` values), so
//! the parsers here call one another. Their models measure progress by the
//! bytes left, and then by a rank for calls made at the same position.

use vstd::prelude::*;
use crate::ast::{extent_ok, kind_ok, expression_ok, body_ok, 
    ex, Expression, ExpressionKind, ExpressionModel, ExpressionKindModel, Extent, FunctionBody,
    FunctionBodyModel, Statement, StatementModel, models, lemma_models_push, span,
};
use crate::lexical::{
    Stop, spec_find, parse_until, spec_ident, ident, spec_literal, literal, spec_opt_literal,
    opt_literal, spec_opt_ws, opt_ws, spec_whitespace, whitespace, lemma_opt_ws_free, lemma_whitespace_free,
    blank_run, lemma_opt_ws_run, lemma_opt_ws_bounds, lemma_literal_first_byte, lemma_single_byte_literal,
    lemma_whitespace, lemma_find, lemma_ident, lemma_word_ident, word, ends_ident, starts_with_at,
};
use crate::progress::{keeps, stays_within, Progress, Status, Failures, Master, ok, fail, add_failure, note, no_failures};
use crate::token::{Token, ParseError, token_bytes};
use crate::types::{advanced, spec_comma_rest, comma_rest, spec_path, path, lemma_path_free, lemma_comma_rest_free};

verus! {

/// `p` lies at or past `pos` and within the text.
pub open spec fn reached(s: Seq<u8>, pos: int, p: int) -> bool {
    pos <= p <= s.len()
}

/// A macro call: a name, `!`, `(`, everything up to the next `)`, and `)`.
#[verifier::opaque]
pub open spec fn spec_macro_call(s: Seq<u8>, pos: int) -> Progress<int, ExpressionKindModel> {
    let r1 = spec_ident(s, pos);
    match r1.status {
        Status::Failure(e) => fail(r1.point, e),
        Status::Success(name) => {
            let r2 = spec_literal(s, r1.point, Token::Bang);
            match r2.status {
                Status::Failure(e) => fail(r2.point, e),
                Status::Success(_) => {
                    let r3 = spec_literal(s, r2.point, Token::LeftParen);
                    match r3.status {
                        Status::Failure(e) => fail(r3.point, e),
                        Status::Success(_) => {
                            let p4 = spec_find(s, r3.point, Stop::RightParen);
                            let r5 = spec_literal(s, p4, Token::RightParen);
                            match r5.status {
                                Status::Failure(e) => fail(r5.point, e),
                                Status::Success(_) => ok(
                                    r5.point,
                                    ExpressionKindModel::MacroCall { name, args: span(r3.point, p4) },
                                ),
                            }
                        },
                    }
                },
            }
        },
    }
}

pub fn macro_call(s: &[u8], pos: usize) -> (r: Progress<usize, ExpressionKind>)
    requires
        pos <= s@.len(),
    ensures
        r@ == spec_macro_call(s@, pos as int),
        pos <= r.point <= s@.len(),
        r.is_success() ==> r.point > pos,
        r.is_success() ==> kind_ok(r@.value(), s@.len() as int),
{
    proof {
        reveal(spec_macro_call);
    }
    let r1 = ident(s, pos);
    let name = match r1.status {
        Status::Failure(e) => return Progress::failure(r1.point, e),
        Status::Success(v) => v,
    };
    let r2 = literal(s, r1.point, Token::Bang);
    if let Status::Failure(e) = r2.status {
        return Progress::failure(r2.point, e);
    }
    let r3 = literal(s, r2.point, Token::LeftParen);
    if let Status::Failure(e) = r3.status {
        return Progress::failure(r3.point, e);
    }
    let p4 = parse_until(s, r3.point, Stop::RightParen);
    let r5 = literal(s, p4, Token::RightParen);
    match r5.status {
        Status::Failure(e) => Progress::failure(r5.point, e),
        Status::Success(_) => Progress::success(
            r5.point,
            ExpressionKind::MacroCall { name, args: (r3.point, p4) },
        ),
    }
}

/// A binding pattern: an optional `mut`, optional whitespace and an
/// identifier.
#[verifier::opaque]
pub open spec fn spec_pattern(s: Seq<u8>, pos: int, f: Failures) -> (Progress<int, Extent>, Failures) {
    let p1 = spec_opt_literal(s, pos, Token::Mut);
    let (p2, f2) = spec_opt_ws(s, p1, f);
    (spec_ident(s, p2), f2)
}

pub fn pattern(pm: &mut Master, s: &[u8], pos: usize) -> (r: Progress<usize, Extent>)
    requires
        pos <= s@.len(),
    ensures
        (r@, final(pm)@) == spec_pattern(s@, pos as int, old(pm)@),
        pos <= r.point <= s@.len(),
        stays_within(old(pm)@, final(pm)@, s@.len() as int),
        keeps(old(pm)@, final(pm)@),
        r.is_success() ==> r.point > pos,
        r.is_success() ==> extent_ok(r.value(), s@.len() as int),
{
    proof {
        reveal(spec_pattern);
    }
    let p1 = opt_literal(s, pos, Token::Mut);
    let p2 = opt_ws(pm, s, p1);
    ident(s, p2)
}

/// A value: a path prefix and an identifier; its extent covers both.
#[verifier::opaque]
pub open spec fn spec_expr_value(s: Seq<u8>, pos: int, f: Failures) -> (Progress<int, ExpressionKindModel>, Failures) {
    let (p1, _, f1) = spec_path(s, pos, f);
    let r2 = spec_ident(s, p1);
    match r2.status {
        Status::Failure(e) => (fail(r2.point, e), f1),
        Status::Success(_) => (ok(r2.point, ExpressionKindModel::Value { extent: span(pos, r2.point) }), f1),
    }
}

pub fn expr_value(pm: &mut Master, s: &[u8], pos: usize) -> (r: Progress<usize, ExpressionKind>)
    requires
        pos <= s@.len(),
    ensures
        (r@, final(pm)@) == spec_expr_value(s@, pos as int, old(pm)@),
        pos <= r.point <= s@.len(),
        stays_within(old(pm)@, final(pm)@, s@.len() as int),
        keeps(old(pm)@, final(pm)@),
        r.is_success() ==> r.point > pos,
        r.is_success() ==> kind_ok(r@.value(), s@.len() as int),
{
    proof {
        reveal(spec_expr_value);
    }
    let (p1, _) = path(pm, s, pos);
    let r2 = ident(s, p1);
    match r2.status {
        Status::Failure(e) => Progress::failure(r2.point, e),
        Status::Success(_) => Progress::success(r2.point, ExpressionKind::Value { extent: ex(pos, r2.point) }),
    }
}

/// The literal `true`.
#[verifier::opaque]
pub open spec fn spec_expr_true(s: Seq<u8>, pos: int) -> Progress<int, ExpressionKindModel> {
    let r1 = spec_literal(s, pos, Token::True);
    match r1.status {
        Status::Failure(e) => fail(r1.point, e),
        Status::Success(_) => ok(r1.point, ExpressionKindModel::True),
    }
}

pub fn expr_true(s: &[u8], pos: usize) -> (r: Progress<usize, ExpressionKind>)
    requires
        pos <= s@.len(),
    ensures
        r@ == spec_expr_true(s@, pos as int),
        pos <= r.point <= s@.len(),
        r.is_success() ==> r.point > pos,
        r.is_success() ==> kind_ok(r@.value(), s@.len() as int),
{
    proof {
        reveal(spec_expr_true);
    }
    let r1 = literal(s, pos, Token::True);
    match r1.status {
        Status::Failure(e) => Progress::failure(r1.point, e),
        Status::Success(_) => Progress::success(r1.point, ExpressionKind::True),
    }
}

/// An expression: optional whitespace, one kind of expression, optional
/// whitespace. Its extent runs from `pos`, leading whitespace included, to
/// its end.
pub open spec fn spec_expression(s: Seq<u8>, pos: int, f: Failures) -> (Progress<int, ExpressionModel>, Failures)
    decreases s.len() - pos, 11int,
{
    let (p1, f1) = spec_opt_ws(s, pos, f);
    if reached(s, pos, p1) {
        let (r2, f2) = spec_expression_kind(s, p1, f1);
        match r2.status {
            Status::Failure(e) => (fail(r2.point, e), f2),
            Status::Success(kind) => {
                let (p3, f3) = spec_opt_ws(s, r2.point, f2);
                (ok(p3, ExpressionModel { extent: span(pos, p3), kind }), f3)
            },
        }
    } else {
        (fail(p1, ParseError::IdentNotFound), f1)
    }
}

/// The kinds of expression, tried in turn: a macro call, `let`, a function
/// call, `loop`, a value and `true`. Each alternative that fails is noted
/// once the next one has run; the failure of the last is the result.
pub open spec fn spec_expression_kind(s: Seq<u8>, pos: int, f: Failures) -> (Progress<int, ExpressionKindModel>, Failures)
    decreases s.len() - pos, 10int,
{
    let r1 = spec_macro_call(s, pos);
    if r1.is_success() {
        (r1, f)
    } else {
        let (r2, g2) = spec_expr_let(s, pos, f);
        let f2 = note(g2, r1);
        if r2.is_success() {
            (r2, f2)
        } else {
            let (r3, g3) = spec_expr_function_call(s, pos, f2);
            let f3 = note(g3, r2);
            if r3.is_success() {
                (r3, f3)
            } else {
                let (r4, g4) = spec_expr_loop(s, pos, f3);
                let f4 = note(g4, r3);
                if r4.is_success() {
                    (r4, f4)
                } else {
                    let (r5, g5) = spec_expr_value(s, pos, f4);
                    let f5 = note(g5, r4);
                    if r5.is_success() {
                        (r5, f5)
                    } else {
                        let r6 = spec_expr_true(s, pos);
                        (r6, note(f5, r5))
                    }
                }
            }
        }
    }
}

/// `let`: `let`, whitespace, a pattern, optional whitespace and an optional
/// `= value`.
pub open spec fn spec_expr_let(s: Seq<u8>, pos: int, f: Failures) -> (Progress<int, ExpressionKindModel>, Failures)
    decreases s.len() - pos, 9int,
{
    let r1 = spec_literal(s, pos, Token::Let);
    match r1.status {
        Status::Failure(e) => (fail(r1.point, e), f),
        Status::Success(_) => {
            let (r2, f2) = spec_whitespace(s, r1.point, f);
            match r2.status {
                Status::Failure(e) => (fail(r2.point, e), f2),
                Status::Success(_) => {
                    let (r3, f3) = spec_pattern(s, r2.point, f2);
                    match r3.status {
                        Status::Failure(e) => (fail(r3.point, e), f3),
                        Status::Success(pattern) => {
                            let (p4, f4) = spec_opt_ws(s, r3.point, f3);
                            if advanced(s, pos, p4) {
                                let (r5, f5) = spec_expr_let_rhs(s, p4, f4);
                                let p5 = if r5.is_success() {
                                    r5.point
                                } else {
                                    p4
                                };
                                let value = if r5.is_success() {
                                    Some(Box::new(r5.value()))
                                } else {
                                    None
                                };
                                (ok(p5, ExpressionKindModel::Let { pattern, value }), f5)
                            } else {
                                (ok(p4, ExpressionKindModel::Let { pattern, value: None }), f4)
                            }
                        },
                    }
                },
            }
        },
    }
}

/// The value of a `let`: `=`, optional whitespace and an expression.
pub open spec fn spec_expr_let_rhs(s: Seq<u8>, pos: int, f: Failures) -> (Progress<int, ExpressionModel>, Failures)
    decreases s.len() - pos, 9int,
{
    let r1 = spec_literal(s, pos, Token::Equals);
    match r1.status {
        Status::Failure(e) => (fail(r1.point, e), f),
        Status::Success(_) => {
            let (p2, f2) = spec_opt_ws(s, r1.point, f);
            if advanced(s, pos, p2) {
                spec_expression(s, p2, f2)
            } else {
                (fail(p2, ParseError::IdentNotFound), f2)
            }
        },
    }
}

/// A function call: a path prefix, a name, `(`, separated argument
/// expressions and `)`. The name's extent runs from `pos` to the `(`.
pub open spec fn spec_expr_function_call(s: Seq<u8>, pos: int, f: Failures) -> (Progress<int, ExpressionKindModel>, Failures)
    decreases s.len() - pos, 9int,
{
    let (p1, _, f1) = spec_path(s, pos, f);
    let r2 = spec_ident(s, p1);
    match r2.status {
        Status::Failure(e) => (fail(r2.point, e), f1),
        Status::Success(_) => {
            let r3 = spec_literal(s, r2.point, Token::LeftParen);
            match r3.status {
                Status::Failure(e) => (fail(r3.point, e), f1),
                Status::Success(_) => if advanced(s, pos, r3.point) {
                    let (p4, args, f4) = spec_comma_exprs(s, r3.point, f1);
                    let r5 = spec_literal(s, p4, Token::RightParen);
                    match r5.status {
                        Status::Failure(e) => (fail(r5.point, e), f4),
                        Status::Success(_) => (
                            ok(
                                r5.point,
                                ExpressionKindModel::FunctionCall { name: span(pos, r2.point), args },
                            ),
                            f4,
                        ),
                    }
                } else {
                    (fail(r3.point, ParseError::Literal(Token::RightParen)), f1)
                },
            }
        },
    }
}

/// `loop`: `loop`, optional whitespace and a body.
pub open spec fn spec_expr_loop(s: Seq<u8>, pos: int, f: Failures) -> (Progress<int, ExpressionKindModel>, Failures)
    decreases s.len() - pos, 9int,
{
    let r1 = spec_literal(s, pos, Token::Loop);
    match r1.status {
        Status::Failure(e) => (fail(r1.point, e), f),
        Status::Success(_) => {
            let (p2, f2) = spec_opt_ws(s, r1.point, f);
            if advanced(s, pos, p2) {
                let (r3, f3) = spec_function_body(s, p2, f2);
                match r3.status {
                    Status::Failure(e) => (fail(r3.point, e), f3),
                    Status::Success(body) => (ok(r3.point, ExpressionKindModel::Loop { body: Box::new(body) }), f3),
                }
            } else {
                (fail(p2, ParseError::Literal(Token::LeftBrace)), f2)
            }
        },
    }
}

/// An expression followed by the list separator.
pub open spec fn spec_comma_expr(s: Seq<u8>, pos: int, f: Failures) -> (Progress<int, ExpressionModel>, Failures)
    decreases s.len() - pos, 12int,
{
    let (r1, f1) = spec_expression(s, pos, f);
    match r1.status {
        Status::Failure(e) => (fail(r1.point, e), f1),
        Status::Success(v) => {
            let (p2, f2) = spec_comma_rest(s, r1.point, f1);
            (ok(p2, v), f2)
        },
    }
}

/// Separated expressions, as many as there are; the failure that ends the
/// list is noted.
pub open spec fn spec_comma_exprs(s: Seq<u8>, pos: int, f: Failures) -> (int, Seq<ExpressionModel>, Failures)
    decreases s.len() - pos, 13int,
{
    let (r, f1) = spec_comma_expr(s, pos, f);
    match r.status {
        Status::Success(v) => if advanced(s, pos, r.point) {
            let (end, vs, g) = spec_comma_exprs(s, r.point, f1);
            (end, seq![v] + vs, g)
        } else {
            (pos, seq![], f1)
        },
        Status::Failure(e) => (pos, seq![], add_failure(f1, r.point, e)),
    }
}

/// A statement: an expression, `;` and optional whitespace.
pub open spec fn spec_statement(s: Seq<u8>, pos: int, f: Failures) -> (Progress<int, StatementModel>, Failures)
    decreases s.len() - pos, 12int,
{
    let (r1, f1) = spec_expression(s, pos, f);
    match r1.status {
        Status::Failure(e) => (fail(r1.point, e), f1),
        Status::Success(v) => {
            let r2 = spec_literal(s, r1.point, Token::Semicolon);
            match r2.status {
                Status::Failure(e) => (fail(r2.point, e), f1),
                Status::Success(_) => {
                    let (p3, f3) = spec_opt_ws(s, r2.point, f1);
                    (ok(p3, StatementModel(v)), f3)
                },
            }
        },
    }
}

/// Statements, as many as there are; the failure that ends the list is
/// noted.
pub open spec fn spec_statements(s: Seq<u8>, pos: int, f: Failures) -> (int, Seq<StatementModel>, Failures)
    decreases s.len() - pos, 13int,
{
    let (r, f1) = spec_statement(s, pos, f);
    match r.status {
        Status::Success(v) => if advanced(s, pos, r.point) {
            let (end, vs, g) = spec_statements(s, r.point, f1);
            (end, seq![v] + vs, g)
        } else {
            (pos, seq![], f1)
        },
        Status::Failure(e) => (pos, seq![], add_failure(f1, r.point, e)),
    }
}

/// A body: `{`, statements, an optional final expression and `}`. Its
/// extent runs from the `{` to past the `}`.
pub open spec fn spec_function_body(s: Seq<u8>, pos: int, f: Failures) -> (Progress<int, FunctionBodyModel>, Failures)
    decreases s.len() - pos, 9int,
{
    let r1 = spec_literal(s, pos, Token::LeftBrace);
    match r1.status {
        Status::Failure(e) => (fail(r1.point, e), f),
        Status::Success(_) => if advanced(s, pos, r1.point) {
            let (p2, statements, f2) = spec_statements(s, r1.point, f);
            if advanced(s, pos, p2) {
                let (r3, f3) = spec_expression(s, p2, f2);
                let p3 = if r3.is_success() {
                    r3.point
                } else {
                    p2
                };
                let expression = if r3.is_success() {
                    Some(r3.value())
                } else {
                    None
                };
                let r4 = spec_literal(s, p3, Token::RightBrace);
                match r4.status {
                    Status::Failure(e) => (fail(r4.point, e), f3),
                    Status::Success(_) => (
                        ok(
                            r4.point,
                            FunctionBodyModel { extent: span(pos, r4.point), statements, expression },
                        ),
                        f3,
                    ),
                }
            } else {
                (fail(p2, ParseError::Literal(Token::RightBrace)), f2)
            }
        } else {
            (fail(r1.point, ParseError::Literal(Token::RightBrace)), f)
        },
    }
}

pub fn expression(pm: &mut Master, s: &[u8], pos: usize) -> (r: Progress<usize, Expression>)
    requires
        pos <= s@.len(),
    ensures
        (r@, final(pm)@) == spec_expression(s@, pos as int, old(pm)@),
        pos <= r.point <= s@.len(),
        stays_within(old(pm)@, final(pm)@, s@.len() as int),
        keeps(old(pm)@, final(pm)@),
        r.is_success() ==> r.point > pos && r.value().extent == (pos, r.point),
        r.is_success() ==> expression_ok(r@.value(), s@.len() as int),
    decreases s@.len() - pos, 11int,
{
    let p1 = opt_ws(pm, s, pos);
    let r2 = expression_kind(pm, s, p1);
    let kind = match r2.status {
        Status::Failure(e) => return Progress::failure(r2.point, e),
        Status::Success(k) => k,
    };
    let p3 = opt_ws(pm, s, r2.point);
    let e = Expression { extent: ex(pos, p3), kind };
    proof {
        crate::ast::lemma_expression_view(e);
    }
    Progress::success(p3, e)
}

pub fn expression_kind(pm: &mut Master, s: &[u8], pos: usize) -> (r: Progress<usize, ExpressionKind>)
    requires
        pos <= s@.len(),
    ensures
        (r@, final(pm)@) == spec_expression_kind(s@, pos as int, old(pm)@),
        pos <= r.point <= s@.len(),
        stays_within(old(pm)@, final(pm)@, s@.len() as int),
        keeps(old(pm)@, final(pm)@),
        r.is_success() ==> r.point > pos,
        r.is_success() ==> kind_ok(r@.value(), s@.len() as int),
    decreases s@.len() - pos, 10int,
{
    let r1 = macro_call(s, pos);
    if let Status::Success(_) = r1.status {
        return r1;
    }
    let r2 = expr_let(pm, s, pos);
    pm.consume(&r1);
    if let Status::Success(_) = r2.status {
        return r2;
    }
    let r3 = expr_function_call(pm, s, pos);
    pm.consume(&r2);
    if let Status::Success(_) = r3.status {
        return r3;
    }
    let r4 = expr_loop(pm, s, pos);
    pm.consume(&r3);
    if let Status::Success(_) = r4.status {
        return r4;
    }
    let r5 = expr_value(pm, s, pos);
    pm.consume(&r4);
    if let Status::Success(_) = r5.status {
        return r5;
    }
    let r6 = expr_true(s, pos);
    pm.consume(&r5);
    r6
}

pub fn expr_let(pm: &mut Master, s: &[u8], pos: usize) -> (r: Progress<usize, ExpressionKind>)
    requires
        pos <= s@.len(),
    ensures
        (r@, final(pm)@) == spec_expr_let(s@, pos as int, old(pm)@),
        pos <= r.point <= s@.len(),
        stays_within(old(pm)@, final(pm)@, s@.len() as int),
        keeps(old(pm)@, final(pm)@),
        r.is_success() ==> r.point > pos,
        r.is_success() ==> kind_ok(r@.value(), s@.len() as int),
    decreases s@.len() - pos, 9int,
{
    let r1 = literal(s, pos, Token::Let);
    if let Status::Failure(e) = r1.status {
        return Progress::failure(r1.point, e);
    }
    let r2 = whitespace(pm, s, r1.point);
    if let Status::Failure(e) = r2.status {
        return Progress::failure(r2.point, e);
    }
    let r3 = pattern(pm, s, r2.point);
    let pattern = match r3.status {
        Status::Failure(e) => return Progress::failure(r3.point, e),
        Status::Success(v) => v,
    };
    let p4 = opt_ws(pm, s, r3.point);
    let r5 = expr_let_rhs(pm, s, p4);
    let (p5, value) = match r5.status {
        Status::Success(v) => (r5.point, Some(Box::new(v))),
        Status::Failure(_) => (p4, None),
    };
    Progress::success(p5, ExpressionKind::Let { pattern, value })
}

pub fn expr_let_rhs(pm: &mut Master, s: &[u8], pos: usize) -> (r: Progress<usize, Expression>)
    requires
        pos <= s@.len(),
    ensures
        (r@, final(pm)@) == spec_expr_let_rhs(s@, pos as int, old(pm)@),
        pos <= r.point <= s@.len(),
        stays_within(old(pm)@, final(pm)@, s@.len() as int),
        keeps(old(pm)@, final(pm)@),
        r.is_success() ==> r.point > pos,
        r.is_success() ==> expression_ok(r@.value(), s@.len() as int),
    decreases s@.len() - pos, 9int,
{
    let r1 = literal(s, pos, Token::Equals);
    if let Status::Failure(e) = r1.status {
        return Progress::failure(r1.point, e);
    }
    let p2 = opt_ws(pm, s, r1.point);
    expression(pm, s, p2)
}

pub fn expr_function_call(pm: &mut Master, s: &[u8], pos: usize) -> (r: Progress<usize, ExpressionKind>)
    requires
        pos <= s@.len(),
    ensures
        (r@, final(pm)@) == spec_expr_function_call(s@, pos as int, old(pm)@),
        pos <= r.point <= s@.len(),
        stays_within(old(pm)@, final(pm)@, s@.len() as int),
        keeps(old(pm)@, final(pm)@),
        r.is_success() ==> r.point > pos,
        r.is_success() ==> kind_ok(r@.value(), s@.len() as int),
    decreases s@.len() - pos, 9int,
{
    let (p1, _) = path(pm, s, pos);
    let r2 = ident(s, p1);
    if let Status::Failure(e) = r2.status {
        return Progress::failure(r2.point, e);
    }
    let r3 = literal(s, r2.point, Token::LeftParen);
    if let Status::Failure(e) = r3.status {
        return Progress::failure(r3.point, e);
    }
    let (p4, args) = comma_exprs(pm, s, r3.point);
    let r5 = literal(s, p4, Token::RightParen);
    if let Status::Failure(e) = r5.status {
        return Progress::failure(r5.point, e);
    }
    let kind = ExpressionKind::FunctionCall { name: ex(pos, r2.point), args };
    proof {
        crate::ast::lemma_call_view((pos, r2.point), args);
    }
    Progress::success(r5.point, kind)
}

pub fn expr_loop(pm: &mut Master, s: &[u8], pos: usize) -> (r: Progress<usize, ExpressionKind>)
    requires
        pos <= s@.len(),
    ensures
        (r@, final(pm)@) == spec_expr_loop(s@, pos as int, old(pm)@),
        pos <= r.point <= s@.len(),
        stays_within(old(pm)@, final(pm)@, s@.len() as int),
        keeps(old(pm)@, final(pm)@),
        r.is_success() ==> r.point > pos,
        r.is_success() ==> kind_ok(r@.value(), s@.len() as int),
    decreases s@.len() - pos, 9int,
{
    let r1 = literal(s, pos, Token::Loop);
    if let Status::Failure(e) = r1.status {
        return Progress::failure(r1.point, e);
    }
    let p2 = opt_ws(pm, s, r1.point);
    let r3 = function_body(pm, s, p2);
    match r3.status {
        Status::Failure(e) => Progress::failure(r3.point, e),
        Status::Success(body) => {
            proof {
                crate::ast::lemma_loop_view(body);
            }
            Progress::success(r3.point, ExpressionKind::Loop { body: Box::new(body) })
        },
    }
}

pub fn comma_expr(pm: &mut Master, s: &[u8], pos: usize) -> (r: Progress<usize, Expression>)
    requires
        pos <= s@.len(),
    ensures
        (r@, final(pm)@) == spec_comma_expr(s@, pos as int, old(pm)@),
        pos <= r.point <= s@.len(),
        stays_within(old(pm)@, final(pm)@, s@.len() as int),
        keeps(old(pm)@, final(pm)@),
        r.is_success() ==> r.point > pos,
        r.is_success() ==> expression_ok(r@.value(), s@.len() as int),
    decreases s@.len() - pos, 12int,
{
    let r1 = expression(pm, s, pos);
    match r1.status {
        Status::Failure(e) => Progress::failure(r1.point, e),
        Status::Success(v) => {
            let p2 = comma_rest(pm, s, r1.point);
            Progress::success(p2, v)
        },
    }
}

pub fn comma_exprs(pm: &mut Master, s: &[u8], pos: usize) -> (r: (usize, Vec<Expression>))
    requires
        pos <= s@.len(),
    ensures
        (r.0 as int, models(r.1@), final(pm)@) == spec_comma_exprs(s@, pos as int, old(pm)@),
        pos <= r.0 <= s@.len(),
        stays_within(old(pm)@, final(pm)@, s@.len() as int),
        keeps(old(pm)@, final(pm)@),
        forall|i: int| 0 <= i < r.1@.len() ==> expression_ok(#[trigger] models(r.1@)[i], s@.len() as int),
    decreases s@.len() - pos, 13int,
{
    let mut cur: usize = pos;
    let mut acc: Vec<Expression> = Vec::new();
    proof {
        crate::ast::lemma_models_empty::<Expression>();
    }
    loop
        invariant
            pos <= cur <= s@.len(),
            stays_within(old(pm)@, pm@, s@.len() as int),
            keeps(old(pm)@, pm@),
            forall|i: int| 0 <= i < acc@.len() ==> expression_ok(#[trigger] models(acc@)[i], s@.len() as int),
            ({
                let (e, vs, g) = spec_comma_exprs(s@, cur as int, pm@);
                (e, models(acc@) + vs, g) == spec_comma_exprs(s@, pos as int, old(pm)@)
            }),
        decreases s@.len() - cur,
    {
        let r = comma_expr(pm, s, cur);
        match r.status {
            Status::Success(v) => {
                proof {
                    let (e1, vs1, g1) = spec_comma_exprs(s@, r.point as int, pm@);
                    lemma_models_push(acc@, v);
                    assert(models(acc@).push(v@) + vs1 =~= models(acc@) + (seq![v@] + vs1));
                }
                acc.push(v);
                cur = r.point;
            },
            Status::Failure(e) => {
                pm.add(r.point, e);
                assert(models(acc@) + Seq::<ExpressionModel>::empty() =~= models(acc@));
                return (cur, acc);
            },
        }
    }
}

pub fn statement(pm: &mut Master, s: &[u8], pos: usize) -> (r: Progress<usize, Statement>)
    requires
        pos <= s@.len(),
    ensures
        (r@, final(pm)@) == spec_statement(s@, pos as int, old(pm)@),
        pos <= r.point <= s@.len(),
        stays_within(old(pm)@, final(pm)@, s@.len() as int),
        keeps(old(pm)@, final(pm)@),
        r.is_success() ==> r.point > pos,
        r.is_success() ==> expression_ok(r@.value().0, s@.len() as int),
    decreases s@.len() - pos, 12int,
{
    let r1 = expression(pm, s, pos);
    let v = match r1.status {
        Status::Failure(e) => return Progress::failure(r1.point, e),
        Status::Success(v) => v,
    };
    let r2 = literal(s, r1.point, Token::Semicolon);
    if let Status::Failure(e) = r2.status {
        return Progress::failure(r2.point, e);
    }
    let p3 = opt_ws(pm, s, r2.point);
    Progress::success(p3, Statement(v))
}

pub fn statements(pm: &mut Master, s: &[u8], pos: usize) -> (r: (usize, Vec<Statement>))
    requires
        pos <= s@.len(),
    ensures
        (r.0 as int, models(r.1@), final(pm)@) == spec_statements(s@, pos as int, old(pm)@),
        pos <= r.0 <= s@.len(),
        stays_within(old(pm)@, final(pm)@, s@.len() as int),
        keeps(old(pm)@, final(pm)@),
        forall|i: int| 0 <= i < r.1@.len() ==> expression_ok(#[trigger] models(r.1@)[i].0, s@.len() as int),
    decreases s@.len() - pos, 13int,
{
    let mut cur: usize = pos;
    let mut acc: Vec<Statement> = Vec::new();
    proof {
        crate::ast::lemma_models_empty::<Statement>();
    }
    loop
        invariant
            pos <= cur <= s@.len(),
            stays_within(old(pm)@, pm@, s@.len() as int),
            keeps(old(pm)@, pm@),
            forall|i: int| 0 <= i < acc@.len() ==> expression_ok(#[trigger] models(acc@)[i].0, s@.len() as int),
            ({
                let (e, vs, g) = spec_statements(s@, cur as int, pm@);
                (e, models(acc@) + vs, g) == spec_statements(s@, pos as int, old(pm)@)
            }),
        decreases s@.len() - cur,
    {
        let r = statement(pm, s, cur);
        match r.status {
            Status::Success(v) => {
                proof {
                    let (e1, vs1, g1) = spec_statements(s@, r.point as int, pm@);
                    lemma_models_push(acc@, v);
                    assert(models(acc@).push(v@) + vs1 =~= models(acc@) + (seq![v@] + vs1));
                }
                acc.push(v);
                cur = r.point;
            },
            Status::Failure(e) => {
                pm.add(r.point, e);
                assert(models(acc@) + Seq::<StatementModel>::empty() =~= models(acc@));
                return (cur, acc);
            },
        }
    }
}

pub fn function_body(pm: &mut Master, s: &[u8], pos: usize) -> (r: Progress<usize, FunctionBody>)
    requires
        pos <= s@.len(),
    ensures
        (r@, final(pm)@) == spec_function_body(s@, pos as int, old(pm)@),
        pos <= r.point <= s@.len(),
        stays_within(old(pm)@, final(pm)@, s@.len() as int),
        keeps(old(pm)@, final(pm)@),
        r.is_success() ==> r.point > pos && r.value().extent == (pos, r.point),
        r.is_success() ==> body_ok(r@.value(), s@.len() as int),
    decreases s@.len() - pos, 9int,
{
    let r1 = literal(s, pos, Token::LeftBrace);
    if let Status::Failure(e) = r1.status {
        return Progress::failure(r1.point, e);
    }
    let (p2, statements) = statements(pm, s, r1.point);
    let r3 = expression(pm, s, p2);
    let (p3, expression) = match r3.status {
        Status::Success(v) => (r3.point, Some(v)),
        Status::Failure(_) => (p2, None),
    };
    let r4 = literal(s, p3, Token::RightBrace);
    if let Status::Failure(e) = r4.status {
        return Progress::failure(r4.point, e);
    }
    let body = FunctionBody { extent: ex(pos, r4.point), statements, expression };
    proof {
        crate::ast::lemma_body_view(body);
    }
    Progress::success(r4.point, body)
}

// ---------------------------------------------------------------------------
// What a parse gives does not depend on the failures noted before it
// ---------------------------------------------------------------------------

/// A pattern comes out the same whatever failures were noted before.
pub proof fn lemma_pattern_free(s: Seq<u8>, pos: int, f: Failures, g: Failures)
    ensures
        spec_pattern(s, pos, f).0 == spec_pattern(s, pos, g).0,
{
    reveal(spec_pattern);
    lemma_opt_ws_free(s, spec_opt_literal(s, pos, Token::Mut), f, g);
}

/// A value comes out the same whatever failures were noted before.
pub proof fn lemma_expr_value_free(s: Seq<u8>, pos: int, f: Failures, g: Failures)
    ensures
        spec_expr_value(s, pos, f).0 == spec_expr_value(s, pos, g).0,
{
    reveal(spec_expr_value);
    lemma_path_free(s, pos, f, g);
}

/// An expression comes out the same whatever failures were noted before:
/// the record of failures only collects, it never steers the parse.
pub proof fn lemma_expression_free(s: Seq<u8>, pos: int, f: Failures, g: Failures)
    ensures
        spec_expression(s, pos, f).0 == spec_expression(s, pos, g).0,
    decreases s.len() - pos, 11int,
{
    lemma_opt_ws_free(s, pos, f, g);
    let (p1, f1) = spec_opt_ws(s, pos, f);
    let (_, g1) = spec_opt_ws(s, pos, g);
    if reached(s, pos, p1) {
        lemma_expression_kind_free(s, p1, f1, g1);
        let (r2, f2) = spec_expression_kind(s, p1, f1);
        let (_, g2) = spec_expression_kind(s, p1, g1);
        if r2.is_success() {
            lemma_opt_ws_free(s, r2.point, f2, g2);
        }
    }
}

pub proof fn lemma_expression_kind_free(s: Seq<u8>, pos: int, f: Failures, g: Failures)
    ensures
        spec_expression_kind(s, pos, f).0 == spec_expression_kind(s, pos, g).0,
    decreases s.len() - pos, 10int,
{
    let r1 = spec_macro_call(s, pos);
    lemma_expr_let_free(s, pos, f, g);
    let (r2, a2) = spec_expr_let(s, pos, f);
    let (_, b2) = spec_expr_let(s, pos, g);
    let (f2, g2) = (note(a2, r1), note(b2, r1));
    lemma_expr_function_call_free(s, pos, f2, g2);
    let (r3, a3) = spec_expr_function_call(s, pos, f2);
    let (_, b3) = spec_expr_function_call(s, pos, g2);
    let (f3, g3) = (note(a3, r2), note(b3, r2));
    lemma_expr_loop_free(s, pos, f3, g3);
    let (r4, a4) = spec_expr_loop(s, pos, f3);
    let (_, b4) = spec_expr_loop(s, pos, g3);
    let (f4, g4) = (note(a4, r3), note(b4, r3));
    lemma_expr_value_free(s, pos, f4, g4);
}

pub proof fn lemma_expr_let_free(s: Seq<u8>, pos: int, f: Failures, g: Failures)
    ensures
        spec_expr_let(s, pos, f).0 == spec_expr_let(s, pos, g).0,
    decreases s.len() - pos, 9int,
{
    let r1 = spec_literal(s, pos, Token::Let);
    if r1.is_success() {
        lemma_whitespace_free(s, r1.point, f, g);
        let (r2, f2) = spec_whitespace(s, r1.point, f);
        let (_, g2) = spec_whitespace(s, r1.point, g);
        if r2.is_success() {
            lemma_pattern_free(s, r2.point, f2, g2);
            let (r3, f3) = spec_pattern(s, r2.point, f2);
            let (_, g3) = spec_pattern(s, r2.point, g2);
            if r3.is_success() {
                lemma_opt_ws_free(s, r3.point, f3, g3);
                let (p4, f4) = spec_opt_ws(s, r3.point, f3);
                let (_, g4) = spec_opt_ws(s, r3.point, g3);
                if advanced(s, pos, p4) {
                    lemma_expr_let_rhs_free(s, p4, f4, g4);
                }
            }
        }
    }
}

pub proof fn lemma_expr_let_rhs_free(s: Seq<u8>, pos: int, f: Failures, g: Failures)
    ensures
        spec_expr_let_rhs(s, pos, f).0 == spec_expr_let_rhs(s, pos, g).0,
    decreases s.len() - pos, 9int,
{
    let r1 = spec_literal(s, pos, Token::Equals);
    if r1.is_success() {
        lemma_opt_ws_free(s, r1.point, f, g);
        let (p2, f2) = spec_opt_ws(s, r1.point, f);
        let (_, g2) = spec_opt_ws(s, r1.point, g);
        if advanced(s, pos, p2) {
            lemma_expression_free(s, p2, f2, g2);
        }
    }
}

pub proof fn lemma_expr_function_call_free(s: Seq<u8>, pos: int, f: Failures, g: Failures)
    ensures
        spec_expr_function_call(s, pos, f).0 == spec_expr_function_call(s, pos, g).0,
    decreases s.len() - pos, 9int,
{
    lemma_path_free(s, pos, f, g);
    let (p1, _, f1) = spec_path(s, pos, f);
    let (_, _, g1) = spec_path(s, pos, g);
    let r2 = spec_ident(s, p1);
    if r2.is_success() {
        let r3 = spec_literal(s, r2.point, Token::LeftParen);
        if r3.is_success() && advanced(s, pos, r3.point) {
            lemma_comma_exprs_free(s, r3.point, f1, g1);
        }
    }
}

pub proof fn lemma_expr_loop_free(s: Seq<u8>, pos: int, f: Failures, g: Failures)
    ensures
        spec_expr_loop(s, pos, f).0 == spec_expr_loop(s, pos, g).0,
    decreases s.len() - pos, 9int,
{
    let r1 = spec_literal(s, pos, Token::Loop);
    if r1.is_success() {
        lemma_opt_ws_free(s, r1.point, f, g);
        let (p2, f2) = spec_opt_ws(s, r1.point, f);
        let (_, g2) = spec_opt_ws(s, r1.point, g);
        if advanced(s, pos, p2) {
            lemma_function_body_free(s, p2, f2, g2);
        }
    }
}

pub proof fn lemma_comma_expr_free(s: Seq<u8>, pos: int, f: Failures, g: Failures)
    ensures
        spec_comma_expr(s, pos, f).0 == spec_comma_expr(s, pos, g).0,
    decreases s.len() - pos, 12int,
{
    lemma_expression_free(s, pos, f, g);
    let (r1, f1) = spec_expression(s, pos, f);
    let (_, g1) = spec_expression(s, pos, g);
    if r1.is_success() {
        lemma_comma_rest_free(s, r1.point, f1, g1);
    }
}

pub proof fn lemma_comma_exprs_free(s: Seq<u8>, pos: int, f: Failures, g: Failures)
    ensures
        spec_comma_exprs(s, pos, f).0 == spec_comma_exprs(s, pos, g).0,
        spec_comma_exprs(s, pos, f).1 == spec_comma_exprs(s, pos, g).1,
    decreases s.len() - pos, 13int,
{
    lemma_comma_expr_free(s, pos, f, g);
    let (r, f1) = spec_comma_expr(s, pos, f);
    let (_, g1) = spec_comma_expr(s, pos, g);
    if r.is_success() && advanced(s, pos, r.point) {
        lemma_comma_exprs_free(s, r.point, f1, g1);
    }
}

pub proof fn lemma_statement_free(s: Seq<u8>, pos: int, f: Failures, g: Failures)
    ensures
        spec_statement(s, pos, f).0 == spec_statement(s, pos, g).0,
    decreases s.len() - pos, 12int,
{
    lemma_expression_free(s, pos, f, g);
    let (r1, f1) = spec_expression(s, pos, f);
    let (_, g1) = spec_expression(s, pos, g);
    if r1.is_success() {
        let r2 = spec_literal(s, r1.point, Token::Semicolon);
        if r2.is_success() {
            lemma_opt_ws_free(s, r2.point, f1, g1);
        }
    }
}

pub proof fn lemma_statements_free(s: Seq<u8>, pos: int, f: Failures, g: Failures)
    ensures
        spec_statements(s, pos, f).0 == spec_statements(s, pos, g).0,
        spec_statements(s, pos, f).1 == spec_statements(s, pos, g).1,
    decreases s.len() - pos, 13int,
{
    lemma_statement_free(s, pos, f, g);
    let (r, f1) = spec_statement(s, pos, f);
    let (_, g1) = spec_statement(s, pos, g);
    if r.is_success() && advanced(s, pos, r.point) {
        lemma_statements_free(s, r.point, f1, g1);
    }
}

pub proof fn lemma_function_body_free(s: Seq<u8>, pos: int, f: Failures, g: Failures)
    ensures
        spec_function_body(s, pos, f).0 == spec_function_body(s, pos, g).0,
    decreases s.len() - pos, 9int,
{
    let r1 = spec_literal(s, pos, Token::LeftBrace);
    if r1.is_success() && advanced(s, pos, r1.point) {
        lemma_statements_free(s, r1.point, f, g);
        let (p2, _, f2) = spec_statements(s, r1.point, f);
        let (_, _, g2) = spec_statements(s, r1.point, g);
        if advanced(s, pos, p2) {
            lemma_expression_free(s, p2, f2, g2);
        }
    }
}

// ---------------------------------------------------------------------------
// What `let` and bodies take
// ---------------------------------------------------------------------------

/// No expression starts at a `}`.
pub proof fn lemma_expression_not_at_close(s: Seq<u8>, pos: int, f: Failures)
    requires
        0 <= pos < s.len(),
        s[pos] == '}' as u8,
    ensures
        spec_expression(s, pos, f).0.is_failure(),
{
    reveal(spec_macro_call);
    reveal(spec_expr_value);
    assert(blank_run(s, pos, pos));
    lemma_opt_ws_run(s, pos, pos, f);
    let (p1, f1) = spec_opt_ws(s, pos, f);
    assert(spec_find(s, pos, Stop::IdentEnd) == pos);
    assert(spec_ident(s, pos).is_failure());
    lemma_literal_first_byte(s, pos, Token::Let);
    lemma_literal_first_byte(s, pos, Token::Loop);
    lemma_literal_first_byte(s, pos, Token::True);
    assert(p1 == pos);
    assert(spec_macro_call(s, pos).is_failure());
    let (r2, a2) = spec_expr_let(s, pos, f1);
    assert(r2.is_failure());
    let f2 = note(a2, spec_macro_call(s, pos));
    crate::types::lemma_path_stops(s, pos, f2);
    let (r3, a3) = spec_expr_function_call(s, pos, f2);
    assert(r3.is_failure());
    let f3 = note(a3, r2);
    let (r4, a4) = spec_expr_loop(s, pos, f3);
    assert(r4.is_failure());
    let f4 = note(a4, r3);
    crate::types::lemma_path_stops(s, pos, f4);
    let (r5, a5) = spec_expr_value(s, pos, f4);
    assert(r5.is_failure());
    assert(spec_expr_true(s, pos).is_failure()) by {
        reveal(spec_expr_true);
    }
    assert(spec_expression_kind(s, pos, f1).0.is_failure());
}

/// Statements end within the text, at or after where they start.
pub proof fn lemma_statements_bounds(s: Seq<u8>, pos: int, f: Failures)
    requires
        0 <= pos <= s.len(),
    ensures
        pos <= spec_statements(s, pos, f).0 <= s.len(),
    decreases s.len() - pos,
{
    let (r, f1) = spec_statement(s, pos, f);
    if r.is_success() && advanced(s, pos, r.point) {
        lemma_statements_bounds(s, r.point, f1);
    }
}

/// What a `let` takes after its pattern. Where `q` ends the whitespace after
/// the pattern: if `=` stands at `q` and an expression parses where the
/// whitespace after the `=` ends, that expression is the value and the `let`
/// ends where it ends; otherwise there is no value and the `let` ends at `q`.
pub proof fn lemma_let_value(s: Seq<u8>, pos: int, f: Failures)
    requires
        0 <= pos <= s.len(),
        s.len() <= usize::MAX,
    ensures
        ({
            let r = spec_expr_let(s, pos, f).0;
            r.is_success() ==> {
                &&& r.value() is Let
                &&& forall|q: int|
                    #[trigger] blank_run(s, r.value()->pattern.1 as int, q) ==> if q < s.len() && s[q] == '=' as u8 {
                        forall|q2: int|
                            #[trigger] blank_run(s, q + 1, q2) ==> {
                                let e = spec_expression(s, q2, no_failures()).0;
                                if e.is_success() {
                                    r.value()->value == Some(Box::new(e.value())) && r.point == e.point
                                } else {
                                    r.value()->value is None && r.point == q
                                }
                            }
                    } else {
                        r.value()->value is None && r.point == q
                    }
            }
        }),
{
    let r = spec_expr_let(s, pos, f).0;
    let r1 = spec_literal(s, pos, Token::Let);
    if r1.is_success() {
        assert(r1.point == pos + 3);
        let (r2, f2) = spec_whitespace(s, r1.point, f);
        lemma_whitespace(s, r1.point, f);
        if r2.is_success() {
            let (r3, f3) = spec_pattern(s, r2.point, f2);
            let p1 = spec_opt_literal(s, r2.point, Token::Mut);
            assert(r2.point <= p1 <= s.len()) by {
                lemma_literal_first_byte(s, r2.point, Token::Mut);
            }
            lemma_opt_ws_bounds(s, p1, f2);
            let p2 = spec_opt_ws(s, p1, f2).0;
            assert(r3 == spec_ident(s, p2)) by {
                reveal(spec_pattern);
            }
            if r3.is_success() {
                let pattern = r3.value();
                assert(pattern == span(p2, r3.point) && p2 < r3.point);
                let (p4, f4) = spec_opt_ws(s, r3.point, f3);
                lemma_find(s, p2, Stop::IdentEnd);
                lemma_opt_ws_bounds(s, r3.point, f3);
                assert(advanced(s, pos, p4));
                assert(r.value()->pattern == pattern);
                assert forall|q: int| #[trigger] blank_run(s, r.value()->pattern.1 as int, q) implies if q < s.len()
                    && s[q] == '=' as u8 {
                    forall|q2: int|
                        #[trigger] blank_run(s, q + 1, q2) ==> {
                            let e = spec_expression(s, q2, no_failures()).0;
                            if e.is_success() {
                                r.value()->value == Some(Box::new(e.value())) && r.point == e.point
                            } else {
                                r.value()->value is None && r.point == q
                            }
                        }
                } else {
                    r.value()->value is None && r.point == q
                } by {
                    assert(r.value()->pattern.1 as int == r3.point);
                    lemma_opt_ws_run(s, r3.point, q, f3);
                    assert(p4 == q);
                    assert(advanced(s, pos, p4));
                    lemma_single_byte_literal(s, q, Token::Equals);
                    if q < s.len() && s[q] == '=' as u8 {
                        assert forall|q2: int| #[trigger] blank_run(s, q + 1, q2) implies {
                            let e = spec_expression(s, q2, no_failures()).0;
                            if e.is_success() {
                                r.value()->value == Some(Box::new(e.value())) && r.point == e.point
                            } else {
                                r.value()->value is None && r.point == q
                            }
                        } by {
                            lemma_opt_ws_run(s, q + 1, q2, f4);
                            let f5 = spec_opt_ws(s, q + 1, f4).1;
                            assert(advanced(s, q, q2));
                            lemma_expression_free(s, q2, f5, no_failures());
                            assert(spec_expr_let_rhs(s, q, f4).0 == spec_expression(s, q2, f5).0);
                        }
                    } else {
                        assert(spec_expr_let_rhs(s, q, f4).0.is_failure());
                    }
                }
            }
        }
    }
}

/// What a body takes: after its `{`, the statements, as many as parse; then
/// the final expression, looked for where the statements end; then `}`.
/// A body whose statements are followed directly by `}` has no final
/// expression; one whose statements are followed by an expression and `}`
/// has that expression; and every body that parses is one of these.
pub proof fn lemma_function_body_parts(s: Seq<u8>, pos: int, f: Failures)
    requires
        0 <= pos < s.len(),
        s.len() <= usize::MAX,
        s[pos] == '{' as u8,
    ensures
        ({
            let (p2, statements, _) = spec_statements(s, pos + 1, f);
            let e = spec_expression(s, p2, no_failures()).0;
            let r = spec_function_body(s, pos, f).0;
            &&& p2 < s.len() && s[p2] == '}' as u8 ==> r == ok(
                p2 + 1,
                FunctionBodyModel { extent: span(pos, p2 + 1), statements, expression: None },
            )
            &&& e.is_success() && p2 <= e.point < s.len() && s[e.point] == '}' as u8 ==> r == ok(
                e.point + 1,
                FunctionBodyModel { extent: span(pos, e.point + 1), statements, expression: Some(e.value()) },
            )
            &&& r.is_success() ==> {
                &&& r.value().statements == statements
                &&& match r.value().expression {
                    None => p2 < s.len() && s[p2] == '}' as u8 && r.point == p2 + 1,
                    Some(x) => e.is_success() && x == e.value() && e.point < s.len() && s[e.point] == '}' as u8
                        && r.point == e.point + 1,
                }
            }
        }),
{
    lemma_single_byte_literal(s, pos, Token::LeftBrace);
    lemma_statements_bounds(s, pos + 1, f);
    let (p2, statements, f2) = spec_statements(s, pos + 1, f);
    assert(advanced(s, pos, p2));
    lemma_expression_free(s, p2, f2, no_failures());
    let e = spec_expression(s, p2, no_failures()).0;
    if p2 < s.len() && s[p2] == '}' as u8 {
        lemma_expression_not_at_close(s, p2, f2);
    }
    lemma_single_byte_literal(s, p2, Token::RightBrace);
    lemma_literal_first_byte(s, e.point, Token::RightBrace);
    if e.is_success() && p2 <= e.point <= s.len() {
        lemma_single_byte_literal(s, e.point, Token::RightBrace);
    }
}

/// A pattern is an optional `mut`, whitespace, and a word: from `pos`, `c`
/// is past the `mut` if there is one and `d` past the whitespace after it.
/// The pattern is the word that starts at `d`, and fails where none does.
pub proof fn lemma_pattern(s: Seq<u8>, pos: int, c: int, d: int, f: Failures)
    requires
        0 <= pos <= s.len(),
        (starts_with_at(s, pos, token_bytes(Token::Mut)) && c == pos + 3) || (!starts_with_at(
            s,
            pos,
            token_bytes(Token::Mut),
        ) && c == pos),
        blank_run(s, c, d),
    ensures
        forall|e: int| #[trigger] word(s, d, e) ==> spec_pattern(s, pos, f).0 == ok(e, span(d, e)),
        !(d < s.len() && !ends_ident(s[d])) ==> spec_pattern(s, pos, f).0.is_failure(),
{
    reveal(spec_pattern);
    assert(spec_opt_literal(s, pos, Token::Mut) == c);
    lemma_opt_ws_run(s, c, d, f);
    assert forall|e: int| #[trigger] word(s, d, e) implies spec_pattern(s, pos, f).0 == ok(e, span(d, e)) by {
        lemma_word_ident(s, d, e);
    }
    lemma_ident(s, d);
}

/// A statement is an expression directly followed by `;`, and it ends where
/// the whitespace after the `;` ends.
pub proof fn lemma_statement(s: Seq<u8>, pos: int, f: Failures)
    ensures
        ({
            let e = spec_expression(s, pos, no_failures()).0;
            let r = spec_statement(s, pos, f).0;
            &&& r.is_success() <==> (e.is_success() && 0 <= e.point < s.len() && s[e.point] == ';' as u8)
            &&& forall|q: int|
                e.is_success() && 0 <= e.point < s.len() && s[e.point] == ';' as u8 && #[trigger] blank_run(
                    s,
                    e.point + 1,
                    q,
                ) ==> r == ok(
                    q,
                    StatementModel(e.value()),
                )
        }),
{
    lemma_expression_free(s, pos, f, no_failures());
    let (r1, f1) = spec_expression(s, pos, f);
    lemma_literal_first_byte(s, r1.point, Token::Semicolon);
    if r1.is_success() && 0 <= r1.point < s.len() && s[r1.point] == ';' as u8 {
        lemma_single_byte_literal(s, r1.point, Token::Semicolon);
    }
    assert forall|q: int|
        r1.is_success() && 0 <= r1.point < s.len() && s[r1.point] == ';' as u8 && #[trigger] blank_run(
            s,
            r1.point + 1,
            q,
        ) implies spec_statement(
        s,
        pos,
        f,
    ).0 == ok(q, StatementModel(r1.value())) by {
        lemma_single_byte_literal(s, r1.point, Token::Semicolon);
        lemma_opt_ws_run(s, r1.point + 1, q, f1);
    }
}

} // verus!
