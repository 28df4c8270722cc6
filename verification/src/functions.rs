//! Function headers: visibility, name, generic parameters, arguments, return
//! type and `where` clauses.

use vstd::prelude::*;
use crate::ast::{extent_within, extents_within, argument_within, arguments_within, where_within, wheres_within, header_parts_within, extent_ok, extents_ok, argument_ok, arguments_ok, where_ok, wheres_ok, header_ok, ex, Argument, Extent, FunctionHeader, FunctionHeaderModel, Where, span};
use crate::lexical::{starts_with_at, blank_run, lemma_opt_ws_run, lemma_single_byte_literal,
    spec_ident, ident, spec_literal, literal, spec_opt_literal, opt_literal, spec_opt_ws, opt_ws,
    spec_whitespace, whitespace,
};
use crate::progress::{keeps, stays_within, Progress, Status, Failures, Master, ok, fail, add_failure};
use crate::token::{ParseError, Token, token_bytes};
use crate::types::{advanced, spec_typ, typ};

verus! {

/// Identifiers, as many as there are; the failure that ends the list is
/// noted.
pub open spec fn spec_idents(s: Seq<u8>, pos: int, f: Failures) -> (int, Seq<Extent>, Failures)
    decreases s.len() - pos,
{
    let r = spec_ident(s, pos);
    match r.status {
        Status::Success(v) => if advanced(s, pos, r.point) {
            let (end, vs, g) = spec_idents(s, r.point, f);
            (end, seq![v] + vs, g)
        } else {
            (pos, seq![], f)
        },
        Status::Failure(e) => (pos, seq![], add_failure(f, r.point, e)),
    }
}

pub fn idents(pm: &mut Master, s: &[u8], pos: usize) -> (r: (usize, Vec<Extent>))
    requires
        pos <= s@.len(),
    ensures
        (r.0 as int, r.1@, final(pm)@) == spec_idents(s@, pos as int, old(pm)@),
        pos <= r.0 <= s@.len(),
        stays_within(old(pm)@, final(pm)@, s@.len() as int),
        keeps(old(pm)@, final(pm)@),
        extents_ok(r.1@, s@.len() as int),
        extents_within(r.1@, pos as int, r.0 as int),
{
    let mut cur: usize = pos;
    let mut acc: Vec<Extent> = Vec::new();
    loop
        invariant
            pos <= cur <= s@.len(),
            stays_within(old(pm)@, pm@, s@.len() as int),
            keeps(old(pm)@, pm@),
            extents_within(acc@, pos as int, cur as int),
            extents_ok(acc@, s@.len() as int),
            ({
                let (e, vs, g) = spec_idents(s@, cur as int, pm@);
                (e, acc@ + vs, g) == spec_idents(s@, pos as int, old(pm)@)
            }),
        decreases s@.len() - cur,
    {
        let r = ident(s, cur);
        match r.status {
            Status::Success(v) => {
                proof {
                    let (e1, vs1, g1) = spec_idents(s@, r.point as int, pm@);
                    assert(acc@.push(v) + vs1 =~= acc@ + (seq![v] + vs1));
                }
                acc.push(v);
                cur = r.point;
            },
            Status::Failure(e) => {
                pm.add(r.point, e);
                assert(acc@ + Seq::<Extent>::empty() =~= acc@);
                return (cur, acc);
            },
        }
    }
}

/// Generic parameters: `<`, one or more identifiers, `>`.
#[verifier::opaque]
pub open spec fn spec_function_generic_declarations(s: Seq<u8>, pos: int, f: Failures) -> (Progress<int, Seq<Extent>>, Failures) {
    let r1 = spec_literal(s, pos, Token::LessThan);
    match r1.status {
        Status::Failure(e) => (fail(r1.point, e), f),
        Status::Success(_) => {
            let r2 = spec_ident(s, r1.point);
            match r2.status {
                Status::Failure(e) => (fail(r2.point, e), f),
                Status::Success(head) => {
                    let (p3, tail, f3) = spec_idents(s, r2.point, f);
                    let r4 = spec_literal(s, p3, Token::GreaterThan);
                    match r4.status {
                        Status::Failure(e) => (fail(r4.point, e), f3),
                        Status::Success(_) => (ok(r4.point, seq![head] + tail), f3),
                    }
                },
            }
        },
    }
}

pub fn function_generic_declarations(pm: &mut Master, s: &[u8], pos: usize) -> (r: Progress<usize, Vec<Extent>>)
    requires
        pos <= s@.len(),
    ensures
        (r@, final(pm)@) == spec_function_generic_declarations(s@, pos as int, old(pm)@),
        pos <= r.point <= s@.len(),
        stays_within(old(pm)@, final(pm)@, s@.len() as int),
        keeps(old(pm)@, final(pm)@),
        r.is_success() ==> r.point > pos,
        r.is_success() ==> extents_ok(r@.value(), s@.len() as int),
        r.is_success() ==> extents_within(r@.value(), pos as int, r.point as int),
{
    proof {
        reveal(spec_function_generic_declarations);
    }
    let r1 = literal(s, pos, Token::LessThan);
    let p1 = match r1.status {
        Status::Failure(e) => return Progress::failure(r1.point, e),
        Status::Success(_) => r1.point,
    };
    let r2 = ident(s, p1);
    let head = match r2.status {
        Status::Failure(e) => return Progress::failure(r2.point, e),
        Status::Success(v) => v,
    };
    let (p3, mut decls) = idents(pm, s, r2.point);
    let ghost tail = decls@;
    decls.insert(0, head);
    assert(decls@ =~= seq![head] + tail);
    let r4 = literal(s, p3, Token::GreaterThan);
    match r4.status {
        Status::Failure(e) => Progress::failure(r4.point, e),
        Status::Success(_) => Progress::success(r4.point, decls),
    }
}

/// The receiver argument: an optional `&`, optional whitespace, an optional
/// `mut`, optional whitespace, `self` and an optional comma.
#[verifier::opaque]
pub open spec fn spec_self_argument(s: Seq<u8>, pos: int, f: Failures) -> (Progress<int, Argument>, Failures) {
    let p1 = spec_opt_literal(s, pos, Token::Ampersand);
    let (p2, f2) = spec_opt_ws(s, p1, f);
    let p3 = spec_opt_literal(s, p2, Token::Mut);
    let (p4, f4) = spec_opt_ws(s, p3, f2);
    let r5 = spec_literal(s, p4, Token::SelfValue);
    match r5.status {
        Status::Failure(e) => (fail(r5.point, e), f4),
        Status::Success(_) => {
            let p6 = spec_opt_literal(s, r5.point, Token::Comma);
            (ok(p6, Argument::SelfArgument), f4)
        },
    }
}

pub fn self_argument(pm: &mut Master, s: &[u8], pos: usize) -> (r: Progress<usize, Argument>)
    requires
        pos <= s@.len(),
    ensures
        (r@, final(pm)@) == spec_self_argument(s@, pos as int, old(pm)@),
        pos <= r.point <= s@.len(),
        stays_within(old(pm)@, final(pm)@, s@.len() as int),
        keeps(old(pm)@, final(pm)@),
        r.is_success() ==> r.point > pos && r.value() == Argument::SelfArgument,
{
    proof {
        reveal(spec_self_argument);
    }
    let p1 = opt_literal(s, pos, Token::Ampersand);
    let p2 = opt_ws(pm, s, p1);
    let p3 = opt_literal(s, p2, Token::Mut);
    let p4 = opt_ws(pm, s, p3);
    let r5 = literal(s, p4, Token::SelfValue);
    match r5.status {
        Status::Failure(e) => Progress::failure(r5.point, e),
        Status::Success(_) => {
            let p6 = opt_literal(s, r5.point, Token::Comma);
            Progress::success(p6, Argument::SelfArgument)
        },
    }
}

/// A receiver is `self`, with an `&` and a `mut` before it where they are
/// written, each of these followed by any whitespace: from `pos`, `a` is past
/// the `&` if there is one, `b` past the whitespace after it, `c` past the
/// `mut` if there is one and `d` past the whitespace after that. The receiver
/// is the self argument exactly when `self` stands at `d`, and then ends past
/// it and past a comma that follows it directly.
pub proof fn lemma_self_argument(s: Seq<u8>, pos: int, a: int, b: int, c: int, d: int, f: Failures)
    requires
        0 <= pos <= s.len(),
        (pos < s.len() && s[pos] == '&' as u8 && a == pos + 1) || (!(pos < s.len() && s[pos] == '&' as u8)
            && a == pos),
        blank_run(s, a, b),
        (starts_with_at(s, b, token_bytes(Token::Mut)) && c == b + 3) || (!starts_with_at(
            s,
            b,
            token_bytes(Token::Mut),
        ) && c == b),
        blank_run(s, c, d),
    ensures
        spec_self_argument(s, pos, f).0 == if starts_with_at(s, d, token_bytes(Token::SelfValue)) {
            ok(
                if d + 4 < s.len() && s[d + 4] == ',' as u8 {
                    d + 5
                } else {
                    d + 4
                },
                Argument::SelfArgument,
            )
        } else {
            fail(d, ParseError::Literal(Token::SelfValue))
        },
{
    reveal(spec_self_argument);
    lemma_single_byte_literal(s, pos, Token::Ampersand);
    assert(spec_opt_literal(s, pos, Token::Ampersand) == a);
    let (p2, f2) = spec_opt_ws(s, a, f);
    lemma_opt_ws_run(s, a, b, f);
    assert(spec_opt_literal(s, b, Token::Mut) == c);
    lemma_opt_ws_run(s, c, d, f2);
    if starts_with_at(s, d, token_bytes(Token::SelfValue)) {
        lemma_single_byte_literal(s, d + 4, Token::Comma);
    }
}

/// A named argument: an identifier, `:`, optional whitespace, the type as an
/// identifier and an optional comma.
#[verifier::opaque]
pub open spec fn spec_function_argument(s: Seq<u8>, pos: int, f: Failures) -> (Progress<int, Argument>, Failures) {
    let r1 = spec_ident(s, pos);
    match r1.status {
        Status::Failure(e) => (fail(r1.point, e), f),
        Status::Success(name) => {
            let r2 = spec_literal(s, r1.point, Token::Colon);
            match r2.status {
                Status::Failure(e) => (fail(r2.point, e), f),
                Status::Success(_) => {
                    let (p3, f3) = spec_opt_ws(s, r2.point, f);
                    let r4 = spec_ident(s, p3);
                    match r4.status {
                        Status::Failure(e) => (fail(r4.point, e), f3),
                        Status::Success(typ) => {
                            let p5 = spec_opt_literal(s, r4.point, Token::Comma);
                            (ok(p5, Argument::Named { name, typ }), f3)
                        },
                    }
                },
            }
        },
    }
}

pub fn function_argument(pm: &mut Master, s: &[u8], pos: usize) -> (r: Progress<usize, Argument>)
    requires
        pos <= s@.len(),
    ensures
        (r@, final(pm)@) == spec_function_argument(s@, pos as int, old(pm)@),
        pos <= r.point <= s@.len(),
        stays_within(old(pm)@, final(pm)@, s@.len() as int),
        keeps(old(pm)@, final(pm)@),
        r.is_success() ==> r.point > pos,
        r.is_success() ==> argument_ok(r.value(), s@.len() as int),
        r.is_success() ==> argument_within(r.value(), pos as int, r.point as int),
{
    proof {
        reveal(spec_function_argument);
    }
    let r1 = ident(s, pos);
    let name = match r1.status {
        Status::Failure(e) => return Progress::failure(r1.point, e),
        Status::Success(v) => v,
    };
    let r2 = literal(s, r1.point, Token::Colon);
    if let Status::Failure(e) = r2.status {
        return Progress::failure(r2.point, e);
    }
    let p3 = opt_ws(pm, s, r2.point);
    let r4 = ident(s, p3);
    let typ = match r4.status {
        Status::Failure(e) => return Progress::failure(r4.point, e),
        Status::Success(v) => v,
    };
    let p5 = opt_literal(s, r4.point, Token::Comma);
    Progress::success(p5, Argument::Named { name, typ })
}

/// Named arguments, as many as there are; the failure that ends the list is
/// noted.
pub open spec fn spec_function_arguments(s: Seq<u8>, pos: int, f: Failures) -> (int, Seq<Argument>, Failures)
    decreases s.len() - pos,
{
    let (r, f1) = spec_function_argument(s, pos, f);
    match r.status {
        Status::Success(v) => if advanced(s, pos, r.point) {
            let (end, vs, g) = spec_function_arguments(s, r.point, f1);
            (end, seq![v] + vs, g)
        } else {
            (pos, seq![], f1)
        },
        Status::Failure(e) => (pos, seq![], add_failure(f1, r.point, e)),
    }
}

pub fn function_arguments(pm: &mut Master, s: &[u8], pos: usize) -> (r: (usize, Vec<Argument>))
    requires
        pos <= s@.len(),
    ensures
        (r.0 as int, r.1@, final(pm)@) == spec_function_arguments(s@, pos as int, old(pm)@),
        pos <= r.0 <= s@.len(),
        stays_within(old(pm)@, final(pm)@, s@.len() as int),
        keeps(old(pm)@, final(pm)@),
        arguments_ok(r.1@, s@.len() as int),
        arguments_within(r.1@, pos as int, r.0 as int),
{
    let mut cur: usize = pos;
    let mut acc: Vec<Argument> = Vec::new();
    loop
        invariant
            pos <= cur <= s@.len(),
            stays_within(old(pm)@, pm@, s@.len() as int),
            keeps(old(pm)@, pm@),
            arguments_within(acc@, pos as int, cur as int),
            arguments_ok(acc@, s@.len() as int),
            ({
                let (e, vs, g) = spec_function_arguments(s@, cur as int, pm@);
                (e, acc@ + vs, g) == spec_function_arguments(s@, pos as int, old(pm)@)
            }),
        decreases s@.len() - cur,
    {
        let r = function_argument(pm, s, cur);
        match r.status {
            Status::Success(v) => {
                proof {
                    let (e1, vs1, g1) = spec_function_arguments(s@, r.point as int, pm@);
                    assert(acc@.push(v) + vs1 =~= acc@ + (seq![v] + vs1));
                }
                acc.push(v);
                cur = r.point;
            },
            Status::Failure(e) => {
                pm.add(r.point, e);
                assert(acc@ + Seq::<Argument>::empty() =~= acc@);
                return (cur, acc);
            },
        }
    }
}

/// The argument list: `(`, an optional receiver, named arguments and `)`.
/// The receiver, when present, comes first in the list.
#[verifier::opaque]
pub open spec fn spec_function_arglist(s: Seq<u8>, pos: int, f: Failures) -> (Progress<int, Seq<Argument>>, Failures) {
    let r1 = spec_literal(s, pos, Token::LeftParen);
    match r1.status {
        Status::Failure(e) => (fail(r1.point, e), f),
        Status::Success(_) => {
            let (r2, f2) = spec_self_argument(s, r1.point, f);
            let p2 = if r2.is_success() {
                r2.point
            } else {
                r1.point
            };
            let (p3, args, f3) = spec_function_arguments(s, p2, f2);
            let r4 = spec_literal(s, p3, Token::RightParen);
            match r4.status {
                Status::Failure(e) => (fail(r4.point, e), f3),
                Status::Success(_) => {
                    let all = if r2.is_success() {
                        seq![Argument::SelfArgument] + args
                    } else {
                        args
                    };
                    (ok(r4.point, all), f3)
                },
            }
        },
    }
}

pub fn function_arglist(pm: &mut Master, s: &[u8], pos: usize) -> (r: Progress<usize, Vec<Argument>>)
    requires
        pos <= s@.len(),
    ensures
        (r@, final(pm)@) == spec_function_arglist(s@, pos as int, old(pm)@),
        pos <= r.point <= s@.len(),
        stays_within(old(pm)@, final(pm)@, s@.len() as int),
        keeps(old(pm)@, final(pm)@),
        r.is_success() ==> r.point > pos,
        r.is_success() ==> arguments_ok(r@.value(), s@.len() as int),
        r.is_success() ==> arguments_within(r@.value(), pos as int, r.point as int),
{
    proof {
        reveal(spec_function_arglist);
    }
    let r1 = literal(s, pos, Token::LeftParen);
    let p1 = match r1.status {
        Status::Failure(e) => return Progress::failure(r1.point, e),
        Status::Success(_) => r1.point,
    };
    let r2 = self_argument(pm, s, p1);
    let (p2, self_arg) = match r2.status {
        Status::Success(a) => (r2.point, Some(a)),
        Status::Failure(_) => (p1, None),
    };
    let (p3, mut args) = function_arguments(pm, s, p2);
    let r4 = literal(s, p3, Token::RightParen);
    if let Status::Failure(e) = r4.status {
        return Progress::failure(r4.point, e);
    }
    if let Some(arg) = self_arg {
        let ghost rest = args@;
        args.insert(0, arg);
        assert(args@ =~= seq![Argument::SelfArgument] + rest);
    }
    Progress::success(r4.point, args)
}

/// The return type: `->`, optional whitespace and a type.
#[verifier::opaque]
pub open spec fn spec_function_return_type(s: Seq<u8>, pos: int, f: Failures) -> (Progress<int, Extent>, Failures) {
    let r1 = spec_literal(s, pos, Token::Arrow);
    match r1.status {
        Status::Failure(e) => (fail(r1.point, e), f),
        Status::Success(_) => {
            let (p2, f2) = spec_opt_ws(s, r1.point, f);
            spec_typ(s, p2, f2)
        },
    }
}

pub fn function_return_type(pm: &mut Master, s: &[u8], pos: usize) -> (r: Progress<usize, Extent>)
    requires
        pos <= s@.len(),
    ensures
        (r@, final(pm)@) == spec_function_return_type(s@, pos as int, old(pm)@),
        pos <= r.point <= s@.len(),
        stays_within(old(pm)@, final(pm)@, s@.len() as int),
        keeps(old(pm)@, final(pm)@),
        r.is_success() ==> r.point > pos,
        r.is_success() ==> extent_ok(r.value(), s@.len() as int),
        r.is_success() ==> extent_within(r.value(), pos as int, r.point as int),
{
    proof {
        reveal(spec_function_return_type);
    }
    let r1 = literal(s, pos, Token::Arrow);
    let p1 = match r1.status {
        Status::Failure(e) => return Progress::failure(r1.point, e),
        Status::Success(_) => r1.point,
    };
    let p2 = opt_ws(pm, s, p1);
    typ(pm, s, p2)
}

/// One `where` bound: an identifier, `:`, optional whitespace, the bounds as
/// an identifier and an optional comma.
#[verifier::opaque]
pub open spec fn spec_function_where(s: Seq<u8>, pos: int, f: Failures) -> (Progress<int, Where>, Failures) {
    let r1 = spec_ident(s, pos);
    match r1.status {
        Status::Failure(e) => (fail(r1.point, e), f),
        Status::Success(name) => {
            let r2 = spec_literal(s, r1.point, Token::Colon);
            match r2.status {
                Status::Failure(e) => (fail(r2.point, e), f),
                Status::Success(_) => {
                    let (p3, f3) = spec_opt_ws(s, r2.point, f);
                    let r4 = spec_ident(s, p3);
                    match r4.status {
                        Status::Failure(e) => (fail(r4.point, e), f3),
                        Status::Success(bounds) => {
                            let p5 = spec_opt_literal(s, r4.point, Token::Comma);
                            (ok(p5, Where { name, bounds }), f3)
                        },
                    }
                },
            }
        },
    }
}

pub fn function_where(pm: &mut Master, s: &[u8], pos: usize) -> (r: Progress<usize, Where>)
    requires
        pos <= s@.len(),
    ensures
        (r@, final(pm)@) == spec_function_where(s@, pos as int, old(pm)@),
        pos <= r.point <= s@.len(),
        stays_within(old(pm)@, final(pm)@, s@.len() as int),
        keeps(old(pm)@, final(pm)@),
        r.is_success() ==> r.point > pos,
        r.is_success() ==> where_ok(r.value(), s@.len() as int),
        r.is_success() ==> where_within(r.value(), pos as int, r.point as int),
{
    proof {
        reveal(spec_function_where);
    }
    let r1 = ident(s, pos);
    let name = match r1.status {
        Status::Failure(e) => return Progress::failure(r1.point, e),
        Status::Success(v) => v,
    };
    let r2 = literal(s, r1.point, Token::Colon);
    if let Status::Failure(e) = r2.status {
        return Progress::failure(r2.point, e);
    }
    let p3 = opt_ws(pm, s, r2.point);
    let r4 = ident(s, p3);
    let bounds = match r4.status {
        Status::Failure(e) => return Progress::failure(r4.point, e),
        Status::Success(v) => v,
    };
    let p5 = opt_literal(s, r4.point, Token::Comma);
    Progress::success(p5, Where { name, bounds })
}

/// `where` bounds, as many as there are; the failure that ends the list is
/// noted.
pub open spec fn spec_function_wheres(s: Seq<u8>, pos: int, f: Failures) -> (int, Seq<Where>, Failures)
    decreases s.len() - pos,
{
    let (r, f1) = spec_function_where(s, pos, f);
    match r.status {
        Status::Success(v) => if advanced(s, pos, r.point) {
            let (end, vs, g) = spec_function_wheres(s, r.point, f1);
            (end, seq![v] + vs, g)
        } else {
            (pos, seq![], f1)
        },
        Status::Failure(e) => (pos, seq![], add_failure(f1, r.point, e)),
    }
}

pub fn function_wheres(pm: &mut Master, s: &[u8], pos: usize) -> (r: (usize, Vec<Where>))
    requires
        pos <= s@.len(),
    ensures
        (r.0 as int, r.1@, final(pm)@) == spec_function_wheres(s@, pos as int, old(pm)@),
        pos <= r.0 <= s@.len(),
        stays_within(old(pm)@, final(pm)@, s@.len() as int),
        keeps(old(pm)@, final(pm)@),
        wheres_ok(r.1@, s@.len() as int),
        wheres_within(r.1@, pos as int, r.0 as int),
{
    let mut cur: usize = pos;
    let mut acc: Vec<Where> = Vec::new();
    loop
        invariant
            pos <= cur <= s@.len(),
            stays_within(old(pm)@, pm@, s@.len() as int),
            keeps(old(pm)@, pm@),
            wheres_within(acc@, pos as int, cur as int),
            wheres_ok(acc@, s@.len() as int),
            ({
                let (e, vs, g) = spec_function_wheres(s@, cur as int, pm@);
                (e, acc@ + vs, g) == spec_function_wheres(s@, pos as int, old(pm)@)
            }),
        decreases s@.len() - cur,
    {
        let r = function_where(pm, s, cur);
        match r.status {
            Status::Success(v) => {
                proof {
                    let (e1, vs1, g1) = spec_function_wheres(s@, r.point as int, pm@);
                    assert(acc@.push(v) + vs1 =~= acc@ + (seq![v] + vs1));
                }
                acc.push(v);
                cur = r.point;
            },
            Status::Failure(e) => {
                pm.add(r.point, e);
                assert(acc@ + Seq::<Where>::empty() =~= acc@);
                return (cur, acc);
            },
        }
    }
}

/// A `where` clause: `where`, whitespace and one or more bounds.
#[verifier::opaque]
pub open spec fn spec_function_where_clause(s: Seq<u8>, pos: int, f: Failures) -> (Progress<int, Seq<Where>>, Failures) {
    let r1 = spec_literal(s, pos, Token::Where);
    match r1.status {
        Status::Failure(e) => (fail(r1.point, e), f),
        Status::Success(_) => {
            let (r2, f2) = spec_whitespace(s, r1.point, f);
            match r2.status {
                Status::Failure(e) => (fail(r2.point, e), f2),
                Status::Success(_) => {
                    let (r3, f3) = spec_function_where(s, r2.point, f2);
                    match r3.status {
                        Status::Failure(e) => (fail(r3.point, e), f3),
                        Status::Success(head) => {
                            let (end, tail, g) = spec_function_wheres(s, r3.point, f3);
                            (ok(end, seq![head] + tail), g)
                        },
                    }
                },
            }
        },
    }
}

pub fn function_where_clause(pm: &mut Master, s: &[u8], pos: usize) -> (r: Progress<usize, Vec<Where>>)
    requires
        pos <= s@.len(),
    ensures
        (r@, final(pm)@) == spec_function_where_clause(s@, pos as int, old(pm)@),
        pos <= r.point <= s@.len(),
        stays_within(old(pm)@, final(pm)@, s@.len() as int),
        keeps(old(pm)@, final(pm)@),
        r.is_success() ==> r.point > pos,
        r.is_success() ==> wheres_ok(r@.value(), s@.len() as int),
        r.is_success() ==> wheres_within(r@.value(), pos as int, r.point as int),
{
    proof {
        reveal(spec_function_where_clause);
    }
    let r1 = literal(s, pos, Token::Where);
    let p1 = match r1.status {
        Status::Failure(e) => return Progress::failure(r1.point, e),
        Status::Success(_) => r1.point,
    };
    let r2 = whitespace(pm, s, p1);
    let p2 = match r2.status {
        Status::Failure(e) => return Progress::failure(r2.point, e),
        Status::Success(_) => r2.point,
    };
    let r3 = function_where(pm, s, p2);
    let head = match r3.status {
        Status::Failure(e) => return Progress::failure(r3.point, e),
        Status::Success(v) => v,
    };
    let (end, mut wheres) = function_wheres(pm, s, r3.point);
    let ghost tail = wheres@;
    wheres.insert(0, head);
    assert(wheres@ =~= seq![head] + tail);
    Progress::success(end, wheres)
}

/// A function header: an optional `pub`, optional whitespace, `fn`,
/// optional whitespace, the name, optional generic parameters, the argument
/// list, optional whitespace, an optional return type, optional whitespace
/// and an optional `where` clause. Its extent runs from `pos` to its end.
#[verifier::opaque]
pub open spec fn spec_function_header(s: Seq<u8>, pos: int, f: Failures) -> (Progress<int, FunctionHeaderModel>, Failures) {
    let r0 = spec_literal(s, pos, Token::Pub);
    let p0 = if r0.is_success() {
        r0.point
    } else {
        pos
    };
    let visibility = if r0.is_success() {
        Some(span(pos, r0.point))
    } else {
        None
    };
    let (p1, f1) = spec_opt_ws(s, p0, f);
    let r2 = spec_literal(s, p1, Token::Fn);
    match r2.status {
        Status::Failure(e) => (fail(r2.point, e), f1),
        Status::Success(_) => {
            let (p3, f3) = spec_opt_ws(s, r2.point, f1);
            let r4 = spec_ident(s, p3);
            match r4.status {
                Status::Failure(e) => (fail(r4.point, e), f3),
                Status::Success(name) => {
                    let (r5, f5) = spec_function_generic_declarations(s, r4.point, f3);
                    let p5 = if r5.is_success() {
                        r5.point
                    } else {
                        r4.point
                    };
                    let generics = if r5.is_success() {
                        r5.value()
                    } else {
                        seq![]
                    };
                    let (r6, f6) = spec_function_arglist(s, p5, f5);
                    match r6.status {
                        Status::Failure(e) => (fail(r6.point, e), f6),
                        Status::Success(arguments) => {
                            let (p7, f7) = spec_opt_ws(s, r6.point, f6);
                            let (r8, f8) = spec_function_return_type(s, p7, f7);
                            let p8 = if r8.is_success() {
                                r8.point
                            } else {
                                p7
                            };
                            let return_type = if r8.is_success() {
                                Some(r8.value())
                            } else {
                                None
                            };
                            let (p9, f9) = spec_opt_ws(s, p8, f8);
                            let (r10, f10) = spec_function_where_clause(s, p9, f9);
                            let p10 = if r10.is_success() {
                                r10.point
                            } else {
                                p9
                            };
                            let wheres = if r10.is_success() {
                                r10.value()
                            } else {
                                seq![]
                            };
                            (
                                ok(
                                    p10,
                                    FunctionHeaderModel {
                                        extent: span(pos, p10),
                                        visibility,
                                        name,
                                        generics,
                                        arguments,
                                        return_type,
                                        wheres,
                                    },
                                ),
                                f10,
                            )
                        },
                    }
                },
            }
        },
    }
}

pub fn function_header(pm: &mut Master, s: &[u8], pos: usize) -> (r: Progress<usize, FunctionHeader>)
    requires
        pos <= s@.len(),
    ensures
        (r@, final(pm)@) == spec_function_header(s@, pos as int, old(pm)@),
        pos <= r.point <= s@.len(),
        stays_within(old(pm)@, final(pm)@, s@.len() as int),
        keeps(old(pm)@, final(pm)@),
        r.is_success() ==> r.point > pos && r.value().extent == (pos, r.point),
        r.is_success() ==> header_ok(r@.value(), s@.len() as int),
        r.is_success() ==> header_parts_within(r@.value(), pos as int, r.point as int),
        r.is_success() ==> r.value().visibility == (if starts_with_at(s@, pos as int, token_bytes(Token::Pub)) {
            Some((pos, (pos + 3) as usize))
        } else {
            None
        }),
{
    proof {
        reveal(spec_function_header);
    }
    let r0 = literal(s, pos, Token::Pub);
    let (p0, visibility) = match r0.status {
        Status::Success(_) => (r0.point, Some(ex(pos, r0.point))),
        Status::Failure(_) => (pos, None),
    };
    let p1 = opt_ws(pm, s, p0);
    let r2 = literal(s, p1, Token::Fn);
    let p2 = match r2.status {
        Status::Failure(e) => return Progress::failure(r2.point, e),
        Status::Success(_) => r2.point,
    };
    let p3 = opt_ws(pm, s, p2);
    let r4 = ident(s, p3);
    let name = match r4.status {
        Status::Failure(e) => return Progress::failure(r4.point, e),
        Status::Success(v) => v,
    };
    let r5 = function_generic_declarations(pm, s, r4.point);
    let (p5, generics) = match r5.status {
        Status::Success(v) => (r5.point, v),
        Status::Failure(_) => (r4.point, Vec::new()),
    };
    let r6 = function_arglist(pm, s, p5);
    let arguments = match r6.status {
        Status::Failure(e) => return Progress::failure(r6.point, e),
        Status::Success(v) => v,
    };
    let p7 = opt_ws(pm, s, r6.point);
    let r8 = function_return_type(pm, s, p7);
    let (p8, return_type) = match r8.status {
        Status::Success(v) => (r8.point, Some(v)),
        Status::Failure(_) => (p7, None),
    };
    let p9 = opt_ws(pm, s, p8);
    let r10 = function_where_clause(pm, s, p9);
    let (p10, wheres) = match r10.status {
        Status::Success(v) => (r10.point, v),
        Status::Failure(_) => (p9, Vec::new()),
    };
    let header = FunctionHeader {
        extent: ex(pos, p10),
        visibility,
        name,
        generics,
        arguments,
        return_type,
        wheres,
    };
    Progress::success(p10, header)
}

} // verus!
