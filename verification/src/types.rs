//! Types, paths, lifetimes and the `, ` separator that lists use.
//!
//! A type may hold a list of types in angle brackets, so `typ`,
//! `typ_generics`, `type_generic_types`, `comma_typ` and `comma_typs` call
//! one another. Their models measure progress by the bytes left, and then by
//! a rank for calls made at the same position.

use vstd::prelude::*;
use crate::ast::{extent_ok, extents_ok, ex, Extent, span};
use crate::lexical::{spec_opt_ws, opt_ws, spec_opt_literal, opt_literal, spec_ident, ident, spec_literal, literal,
    starts_with_at, word, blank_run, lemma_opt_ws_run, lemma_word_ident, lemma_single_byte_literal, lemma_opt_ws_free};
use crate::token::token_bytes;
use crate::progress::{keeps, stays_within, Progress, Status, Failures, Master, ok, fail, add_failure, no_failures};
use crate::token::{Token, ParseError};

verus! {

/// `p` lies past `pos` and within the text. Positions only move forward, so
/// where a model asks this before going on, it always holds.
pub open spec fn advanced(s: Seq<u8>, pos: int, p: int) -> bool {
    pos < p <= s.len()
}

/// The separator after a list item: optional whitespace, an optional comma
/// and optional whitespace.
#[verifier::opaque]
pub open spec fn spec_comma_rest(s: Seq<u8>, pos: int, f: Failures) -> (int, Failures) {
    let (p1, f1) = spec_opt_ws(s, pos, f);
    let p2 = spec_opt_literal(s, p1, Token::Comma);
    spec_opt_ws(s, p2, f1)
}

pub fn comma_rest(pm: &mut Master, s: &[u8], pos: usize) -> (r: usize)
    requires
        pos <= s@.len(),
    ensures
        (r as int, final(pm)@) == spec_comma_rest(s@, pos as int, old(pm)@),
        pos <= r <= s@.len(),
        stays_within(old(pm)@, final(pm)@, s@.len() as int),
        keeps(old(pm)@, final(pm)@),
{
    proof {
        reveal(spec_comma_rest);
    }
    let p1 = opt_ws(pm, s, pos);
    let p2 = opt_literal(s, p1, Token::Comma);
    opt_ws(pm, s, p2)
}

/// One path segment: an identifier followed by `::`.
#[verifier::opaque]
pub open spec fn spec_path_component(s: Seq<u8>, pos: int) -> Progress<int, Extent> {
    let r1 = spec_ident(s, pos);
    match r1.status {
        Status::Failure(e) => fail(r1.point, e),
        Status::Success(_) => {
            let r2 = spec_literal(s, r1.point, Token::DoubleColon);
            match r2.status {
                Status::Failure(e) => fail(r2.point, e),
                Status::Success(_) => ok(r2.point, span(pos, r2.point)),
            }
        },
    }
}

pub fn path_component(s: &[u8], pos: usize) -> (r: Progress<usize, Extent>)
    requires
        pos <= s@.len(),
    ensures
        r@ == spec_path_component(s@, pos as int),
        pos <= r.point <= s@.len(),
        r.is_success() ==> r.point > pos,
{
    proof {
        reveal(spec_path_component);
    }
    let r1 = ident(s, pos);
    let p1 = match r1.status {
        Status::Failure(e) => return Progress::failure(r1.point, e),
        Status::Success(_) => r1.point,
    };
    let r2 = literal(s, p1, Token::DoubleColon);
    match r2.status {
        Status::Failure(e) => Progress::failure(r2.point, e),
        Status::Success(_) => Progress::success(r2.point, ex(pos, r2.point)),
    }
}

/// A path prefix: as many segments as there are; the failure that ends the
/// list is noted.
pub open spec fn spec_path(s: Seq<u8>, pos: int, f: Failures) -> (int, Seq<Extent>, Failures)
    decreases s.len() - pos,
{
    let r = spec_path_component(s, pos);
    match r.status {
        Status::Success(v) => if advanced(s, pos, r.point) {
            let (end, vs, g) = spec_path(s, r.point, f);
            (end, seq![v] + vs, g)
        } else {
            (pos, seq![], f)
        },
        Status::Failure(e) => (pos, seq![], add_failure(f, r.point, e)),
    }
}

pub fn path(pm: &mut Master, s: &[u8], pos: usize) -> (r: (usize, Vec<Extent>))
    requires
        pos <= s@.len(),
    ensures
        (r.0 as int, r.1@, final(pm)@) == spec_path(s@, pos as int, old(pm)@),
        pos <= r.0 <= s@.len(),
        stays_within(old(pm)@, final(pm)@, s@.len() as int),
        keeps(old(pm)@, final(pm)@),
{
    let mut cur: usize = pos;
    let mut acc: Vec<Extent> = Vec::new();
    loop
        invariant
            pos <= cur <= s@.len(),
            stays_within(old(pm)@, pm@, s@.len() as int),
            keeps(old(pm)@, pm@),
            ({
                let (e, vs, g) = spec_path(s@, cur as int, pm@);
                (e, acc@ + vs, g) == spec_path(s@, pos as int, old(pm)@)
            }),
        decreases s@.len() - cur,
    {
        let r = path_component(s, cur);
        match r.status {
            Status::Success(v) => {
                proof {
                    let (e1, vs1, g1) = spec_path(s@, r.point as int, pm@);
                    assert(acc@.push(v) + vs1 =~= acc@ + (seq![v] + vs1));
                }
                acc.push(v);
                cur = r.point;
            },
            Status::Failure(e) => {
                pm.add(r.point, e);
                assert(acc@ + Seq::<Extent>::empty() =~= acc@);
                return (cur, acc);
            },
        }
    }
}

/// A lifetime: `'`, optional whitespace and an identifier.
#[verifier::opaque]
pub open spec fn spec_lifetime(s: Seq<u8>, pos: int, f: Failures) -> (Progress<int, Extent>, Failures) {
    let r1 = spec_literal(s, pos, Token::Apostrophe);
    match r1.status {
        Status::Failure(e) => (fail(r1.point, e), f),
        Status::Success(_) => {
            let (p2, f2) = spec_opt_ws(s, r1.point, f);
            (spec_ident(s, p2), f2)
        },
    }
}

pub fn lifetime(pm: &mut Master, s: &[u8], pos: usize) -> (r: Progress<usize, Extent>)
    requires
        pos <= s@.len(),
    ensures
        (r@, final(pm)@) == spec_lifetime(s@, pos as int, old(pm)@),
        pos <= r.point <= s@.len(),
        stays_within(old(pm)@, final(pm)@, s@.len() as int),
        keeps(old(pm)@, final(pm)@),
        r.is_success() ==> r.point > pos,
{
    proof {
        reveal(spec_lifetime);
    }
    let r1 = literal(s, pos, Token::Apostrophe);
    let p1 = match r1.status {
        Status::Failure(e) => return Progress::failure(r1.point, e),
        Status::Success(_) => r1.point,
    };
    let p2 = opt_ws(pm, s, p1);
    ident(s, p2)
}

/// A lifetime followed by the list separator.
#[verifier::opaque]
pub open spec fn spec_comma_lifetime(s: Seq<u8>, pos: int, f: Failures) -> (Progress<int, Extent>, Failures) {
    let (r1, f1) = spec_lifetime(s, pos, f);
    match r1.status {
        Status::Failure(e) => (fail(r1.point, e), f1),
        Status::Success(v) => {
            let (p2, f2) = spec_comma_rest(s, r1.point, f1);
            (ok(p2, v), f2)
        },
    }
}

pub fn comma_lifetime(pm: &mut Master, s: &[u8], pos: usize) -> (r: Progress<usize, Extent>)
    requires
        pos <= s@.len(),
    ensures
        (r@, final(pm)@) == spec_comma_lifetime(s@, pos as int, old(pm)@),
        pos <= r.point <= s@.len(),
        stays_within(old(pm)@, final(pm)@, s@.len() as int),
        keeps(old(pm)@, final(pm)@),
        r.is_success() ==> r.point > pos,
{
    proof {
        reveal(spec_comma_lifetime);
    }
    let r1 = lifetime(pm, s, pos);
    match r1.status {
        Status::Failure(e) => Progress::failure(r1.point, e),
        Status::Success(v) => {
            let p2 = comma_rest(pm, s, r1.point);
            Progress::success(p2, v)
        },
    }
}

/// Separated lifetimes, as many as there are; the failure that ends the list
/// is noted.
pub open spec fn spec_comma_lifetimes(s: Seq<u8>, pos: int, f: Failures) -> (int, Seq<Extent>, Failures)
    decreases s.len() - pos,
{
    let (r, f1) = spec_comma_lifetime(s, pos, f);
    match r.status {
        Status::Success(v) => if advanced(s, pos, r.point) {
            let (end, vs, g) = spec_comma_lifetimes(s, r.point, f1);
            (end, seq![v] + vs, g)
        } else {
            (pos, seq![], f1)
        },
        Status::Failure(e) => (pos, seq![], add_failure(f1, r.point, e)),
    }
}

pub fn comma_lifetimes(pm: &mut Master, s: &[u8], pos: usize) -> (r: (usize, Vec<Extent>))
    requires
        pos <= s@.len(),
    ensures
        (r.0 as int, r.1@, final(pm)@) == spec_comma_lifetimes(s@, pos as int, old(pm)@),
        pos <= r.0 <= s@.len(),
        stays_within(old(pm)@, final(pm)@, s@.len() as int),
        keeps(old(pm)@, final(pm)@),
{
    let mut cur: usize = pos;
    let mut acc: Vec<Extent> = Vec::new();
    loop
        invariant
            pos <= cur <= s@.len(),
            stays_within(old(pm)@, pm@, s@.len() as int),
            keeps(old(pm)@, pm@),
            ({
                let (e, vs, g) = spec_comma_lifetimes(s@, cur as int, pm@);
                (e, acc@ + vs, g) == spec_comma_lifetimes(s@, pos as int, old(pm)@)
            }),
        decreases s@.len() - cur,
    {
        let r = comma_lifetime(pm, s, cur);
        match r.status {
            Status::Success(v) => {
                proof {
                    let (e1, vs1, g1) = spec_comma_lifetimes(s@, r.point as int, pm@);
                    assert(acc@.push(v) + vs1 =~= acc@ + (seq![v] + vs1));
                }
                acc.push(v);
                cur = r.point;
            },
            Status::Failure(e) => {
                pm.add(r.point, e);
                assert(acc@ + Seq::<Extent>::empty() =~= acc@);
                return (cur, acc);
            },
        }
    }
}

/// One or more separated lifetimes.
#[verifier::opaque]
pub open spec fn spec_typ_generic_lifetimes(s: Seq<u8>, pos: int, f: Failures) -> (Progress<int, Seq<Extent>>, Failures) {
    let (r1, f1) = spec_comma_lifetime(s, pos, f);
    match r1.status {
        Status::Failure(e) => (fail(r1.point, e), f1),
        Status::Success(v) => {
            let (end, vs, g) = spec_comma_lifetimes(s, r1.point, f1);
            (ok(end, seq![v] + vs), g)
        },
    }
}

pub fn typ_generic_lifetimes(pm: &mut Master, s: &[u8], pos: usize) -> (r: Progress<usize, Vec<Extent>>)
    requires
        pos <= s@.len(),
    ensures
        (r@, final(pm)@) == spec_typ_generic_lifetimes(s@, pos as int, old(pm)@),
        pos <= r.point <= s@.len(),
        stays_within(old(pm)@, final(pm)@, s@.len() as int),
        keeps(old(pm)@, final(pm)@),
        r.is_success() ==> r.point > pos,
{
    proof {
        reveal(spec_typ_generic_lifetimes);
    }
    let r1 = comma_lifetime(pm, s, pos);
    match r1.status {
        Status::Failure(e) => Progress::failure(r1.point, e),
        Status::Success(v) => {
            let (end, mut tail) = comma_lifetimes(pm, s, r1.point);
            let ghost rest = tail@;
            tail.insert(0, v);
            assert(tail@ =~= seq![v] + rest);
            Progress::success(end, tail)
        },
    }
}

/// A type: an optional `&`, an optional lifetime, optional whitespace, a
/// path prefix, an identifier and optional generic arguments. Its extent runs
/// from `pos` to where it ends.
pub open spec fn spec_typ(s: Seq<u8>, pos: int, f: Failures) -> (Progress<int, Extent>, Failures)
    decreases s.len() - pos, 1int,
{
    let p1 = spec_opt_literal(s, pos, Token::Ampersand);
    let (r2, f2) = spec_lifetime(s, p1, f);
    let p2 = if r2.is_success() {
        r2.point
    } else {
        p1
    };
    let (p3, f3) = spec_opt_ws(s, p2, f2);
    let (p4, _, f4) = spec_path(s, p3, f3);
    let r5 = spec_ident(s, p4);
    match r5.status {
        Status::Failure(e) => (fail(r5.point, e), f4),
        Status::Success(_) => if advanced(s, pos, r5.point) {
            let (r6, f6) = spec_typ_generics(s, r5.point, f4);
            let p6 = if r6.is_success() {
                r6.point
            } else {
                r5.point
            };
            (ok(p6, span(pos, p6)), f6)
        } else {
            (ok(r5.point, span(pos, r5.point)), f4)
        },
    }
}

/// Generic arguments: `<`, optional whitespace, optional lifetimes, optional
/// types and `>`.
pub open spec fn spec_typ_generics(s: Seq<u8>, pos: int, f: Failures) -> (Progress<int, Extent>, Failures)
    decreases s.len() - pos, 0int,
{
    let r1 = spec_literal(s, pos, Token::LessThan);
    match r1.status {
        Status::Failure(e) => (fail(r1.point, e), f),
        Status::Success(_) => {
            let (p2, f2) = spec_opt_ws(s, r1.point, f);
            let (r3, f3) = spec_typ_generic_lifetimes(s, p2, f2);
            let p3 = if r3.is_success() {
                r3.point
            } else {
                p2
            };
            if advanced(s, pos, p3) {
                let (r4, f4) = spec_type_generic_types(s, p3, f3);
                let p4 = if r4.is_success() {
                    r4.point
                } else {
                    p3
                };
                let r5 = spec_literal(s, p4, Token::GreaterThan);
                match r5.status {
                    Status::Failure(e) => (fail(r5.point, e), f4),
                    Status::Success(_) => (ok(r5.point, span(pos, r5.point)), f4),
                }
            } else {
                (fail(p3, ParseError::Literal(Token::GreaterThan)), f3)
            }
        },
    }
}

/// One or more separated types.
pub open spec fn spec_type_generic_types(s: Seq<u8>, pos: int, f: Failures) -> (Progress<int, Seq<Extent>>, Failures)
    decreases s.len() - pos, 3int,
{
    let (r1, f1) = spec_comma_typ(s, pos, f);
    match r1.status {
        Status::Failure(e) => (fail(r1.point, e), f1),
        Status::Success(v) => if advanced(s, pos, r1.point) {
            let (end, vs, g) = spec_comma_typs(s, r1.point, f1);
            (ok(end, seq![v] + vs), g)
        } else {
            (ok(r1.point, seq![v]), f1)
        },
    }
}

/// A type followed by the list separator.
pub open spec fn spec_comma_typ(s: Seq<u8>, pos: int, f: Failures) -> (Progress<int, Extent>, Failures)
    decreases s.len() - pos, 2int,
{
    let (r1, f1) = spec_typ(s, pos, f);
    match r1.status {
        Status::Failure(e) => (fail(r1.point, e), f1),
        Status::Success(v) => {
            let (p2, f2) = spec_comma_rest(s, r1.point, f1);
            (ok(p2, v), f2)
        },
    }
}

/// Separated types, as many as there are; the failure that ends the list is
/// noted.
pub open spec fn spec_comma_typs(s: Seq<u8>, pos: int, f: Failures) -> (int, Seq<Extent>, Failures)
    decreases s.len() - pos, 3int,
{
    let (r, f1) = spec_comma_typ(s, pos, f);
    match r.status {
        Status::Success(v) => if advanced(s, pos, r.point) {
            let (end, vs, g) = spec_comma_typs(s, r.point, f1);
            (end, seq![v] + vs, g)
        } else {
            (pos, seq![], f1)
        },
        Status::Failure(e) => (pos, seq![], add_failure(f1, r.point, e)),
    }
}

pub fn typ(pm: &mut Master, s: &[u8], pos: usize) -> (r: Progress<usize, Extent>)
    requires
        pos <= s@.len(),
    ensures
        (r@, final(pm)@) == spec_typ(s@, pos as int, old(pm)@),
        pos <= r.point <= s@.len(),
        stays_within(old(pm)@, final(pm)@, s@.len() as int),
        keeps(old(pm)@, final(pm)@),
        r.is_success() ==> r.point > pos && r.value() == (pos, r.point),
    decreases s@.len() - pos, 1int,
{
    let p1 = opt_literal(s, pos, Token::Ampersand);
    let r2 = lifetime(pm, s, p1);
    let p2 = if let Status::Success(_) = r2.status {
        r2.point
    } else {
        p1
    };
    let p3 = opt_ws(pm, s, p2);
    let (p4, _) = path(pm, s, p3);
    let r5 = ident(s, p4);
    let p5 = match r5.status {
        Status::Failure(e) => return Progress::failure(r5.point, e),
        Status::Success(_) => r5.point,
    };
    let r6 = typ_generics(pm, s, p5);
    let p6 = if let Status::Success(_) = r6.status {
        r6.point
    } else {
        p5
    };
    Progress::success(p6, ex(pos, p6))
}

pub fn typ_generics(pm: &mut Master, s: &[u8], pos: usize) -> (r: Progress<usize, Extent>)
    requires
        pos <= s@.len(),
    ensures
        (r@, final(pm)@) == spec_typ_generics(s@, pos as int, old(pm)@),
        pos <= r.point <= s@.len(),
        stays_within(old(pm)@, final(pm)@, s@.len() as int),
        keeps(old(pm)@, final(pm)@),
        r.is_success() ==> r.point > pos && r.value() == (pos, r.point),
    decreases s@.len() - pos, 0int,
{
    let r1 = literal(s, pos, Token::LessThan);
    let p1 = match r1.status {
        Status::Failure(e) => return Progress::failure(r1.point, e),
        Status::Success(_) => r1.point,
    };
    let p2 = opt_ws(pm, s, p1);
    let r3 = typ_generic_lifetimes(pm, s, p2);
    let p3 = if let Status::Success(_) = r3.status {
        r3.point
    } else {
        p2
    };
    let r4 = type_generic_types(pm, s, p3);
    let p4 = if let Status::Success(_) = r4.status {
        r4.point
    } else {
        p3
    };
    let r5 = literal(s, p4, Token::GreaterThan);
    match r5.status {
        Status::Failure(e) => Progress::failure(r5.point, e),
        Status::Success(_) => Progress::success(r5.point, ex(pos, r5.point)),
    }
}

pub fn type_generic_types(pm: &mut Master, s: &[u8], pos: usize) -> (r: Progress<usize, Vec<Extent>>)
    requires
        pos <= s@.len(),
    ensures
        (r@, final(pm)@) == spec_type_generic_types(s@, pos as int, old(pm)@),
        pos <= r.point <= s@.len(),
        stays_within(old(pm)@, final(pm)@, s@.len() as int),
        keeps(old(pm)@, final(pm)@),
        r.is_success() ==> r.point > pos,
        r.is_success() ==> extents_ok(r@.value(), s@.len() as int),
    decreases s@.len() - pos, 3int,
{
    let r1 = comma_typ(pm, s, pos);
    match r1.status {
        Status::Failure(e) => Progress::failure(r1.point, e),
        Status::Success(v) => {
            let (end, mut tail) = comma_typs(pm, s, r1.point);
            let ghost rest = tail@;
            tail.insert(0, v);
            assert(tail@ =~= seq![v] + rest);
            Progress::success(end, tail)
        },
    }
}

pub fn comma_typ(pm: &mut Master, s: &[u8], pos: usize) -> (r: Progress<usize, Extent>)
    requires
        pos <= s@.len(),
    ensures
        (r@, final(pm)@) == spec_comma_typ(s@, pos as int, old(pm)@),
        pos <= r.point <= s@.len(),
        stays_within(old(pm)@, final(pm)@, s@.len() as int),
        keeps(old(pm)@, final(pm)@),
        r.is_success() ==> r.point > pos,
        r.is_success() ==> extent_ok(r.value(), s@.len() as int),
    decreases s@.len() - pos, 2int,
{
    let r1 = typ(pm, s, pos);
    match r1.status {
        Status::Failure(e) => Progress::failure(r1.point, e),
        Status::Success(v) => {
            let p2 = comma_rest(pm, s, r1.point);
            Progress::success(p2, v)
        },
    }
}

pub fn comma_typs(pm: &mut Master, s: &[u8], pos: usize) -> (r: (usize, Vec<Extent>))
    requires
        pos <= s@.len(),
    ensures
        (r.0 as int, r.1@, final(pm)@) == spec_comma_typs(s@, pos as int, old(pm)@),
        pos <= r.0 <= s@.len(),
        stays_within(old(pm)@, final(pm)@, s@.len() as int),
        keeps(old(pm)@, final(pm)@),
        extents_ok(r.1@, s@.len() as int),
    decreases s@.len() - pos, 3int,
{
    let mut cur: usize = pos;
    let mut acc: Vec<Extent> = Vec::new();
    loop
        invariant
            pos <= cur <= s@.len(),
            stays_within(old(pm)@, pm@, s@.len() as int),
            keeps(old(pm)@, pm@),
            extents_ok(acc@, s@.len() as int),
            ({
                let (e, vs, g) = spec_comma_typs(s@, cur as int, pm@);
                (e, acc@ + vs, g) == spec_comma_typs(s@, pos as int, old(pm)@)
            }),
        decreases s@.len() - cur,
    {
        let r = comma_typ(pm, s, cur);
        match r.status {
            Status::Success(v) => {
                proof {
                    let (e1, vs1, g1) = spec_comma_typs(s@, r.point as int, pm@);
                    assert(acc@.push(v) + vs1 =~= acc@ + (seq![v] + vs1));
                }
                acc.push(v);
                cur = r.point;
            },
            Status::Failure(e) => {
                pm.add(r.point, e);
                assert(acc@ + Seq::<Extent>::empty() =~= acc@);
                return (cur, acc);
            },
        }
    }
}

/// A path prefix ends at the same point, with the same segments, whatever
/// failures were noted before.
pub proof fn lemma_path_free(s: Seq<u8>, pos: int, f: Failures, g: Failures)
    ensures
        spec_path(s, pos, f).0 == spec_path(s, pos, g).0,
        spec_path(s, pos, f).1 == spec_path(s, pos, g).1,
    decreases s.len() - pos,
{
    let r = spec_path_component(s, pos);
    if r.is_success() && advanced(s, pos, r.point) {
        lemma_path_free(s, r.point, f, g);
    }
}

/// The list separator ends at the same point whatever failures were noted
/// before.
pub proof fn lemma_comma_rest_free(s: Seq<u8>, pos: int, f: Failures, g: Failures)
    ensures
        spec_comma_rest(s, pos, f).0 == spec_comma_rest(s, pos, g).0,
{
    reveal(spec_comma_rest);
    lemma_opt_ws_free(s, pos, f, g);
    let (p1, f1) = spec_opt_ws(s, pos, f);
    let (_, g1) = spec_opt_ws(s, pos, g);
    let p2 = spec_opt_literal(s, p1, Token::Comma);
    lemma_opt_ws_free(s, p2, f1, g1);
}

/// Where the `i`-th segment of a path whose segments end at `ends` starts:
/// at `pos` for the first, and past the `::` after the one before it for
/// the others.
pub open spec fn segment_start(pos: int, ends: Seq<int>, i: int) -> int {
    if i == 0 {
        pos
    } else {
        ends[i - 1] + 2
    }
}

/// From `pos` the text holds words separated by `::`, the `i`-th ending at
/// `ends[i]`, and no `::` follows the last.
pub open spec fn path_words(s: Seq<u8>, pos: int, ends: Seq<int>) -> bool {
    &&& ends.len() > 0
    &&& forall|i: int| 0 <= i < ends.len() ==> word(s, #[trigger] segment_start(pos, ends, i), ends[i])
    &&& forall|i: int|
        0 <= i < ends.len() - 1 ==> starts_with_at(s, #[trigger] ends[i], token_bytes(Token::DoubleColon))
    &&& !starts_with_at(s, ends.last(), token_bytes(Token::DoubleColon))
}

/// A path prefix over such words takes every segment but the last.
pub proof fn lemma_path_words(s: Seq<u8>, pos: int, ends: Seq<int>, i: int, f: Failures)
    requires
        path_words(s, pos, ends),
        0 <= i < ends.len(),
    ensures
        spec_path(s, segment_start(pos, ends, i), f).0 == segment_start(pos, ends, ends.len() - 1),
    decreases ends.len() - i,
{
    let a = segment_start(pos, ends, i);
    let e = ends[i];
    assert(word(s, a, e));
    lemma_word_ident(s, a, e);
    let r = spec_path_component(s, a);
    if i < ends.len() - 1 {
        assert(starts_with_at(s, e, token_bytes(Token::DoubleColon)));
        assert(r == ok(e + 2, span(a, e + 2))) by {
            reveal(spec_path_component);
        }
        assert(segment_start(pos, ends, i + 1) == e + 2);
        lemma_path_words(s, pos, ends, i + 1, f);
        assert(spec_path(s, a, f).0 == spec_path(s, e + 2, f).0);
    } else {
        assert(r.is_failure()) by {
            reveal(spec_path_component);
        }
        assert(spec_path(s, a, f).0 == a);
    }
}

/// The words of such a path come one after another from `pos` on.
proof fn lemma_path_words_order(s: Seq<u8>, pos: int, ends: Seq<int>, i: int)
    requires
        path_words(s, pos, ends),
        0 <= i < ends.len(),
    ensures
        pos <= segment_start(pos, ends, i) < ends[i],
    decreases i,
{
    assert(word(s, segment_start(pos, ends, i), ends[i]));
    if i > 0 {
        lemma_path_words_order(s, pos, ends, i - 1);
    }
}

/// A type is an optional `&`, an optional lifetime, whitespace, and words
/// separated by `::`: from `pos`, `a` is past the `&` if there is one; where
/// `'` stands at `a`, whitespace runs from past it to `w` and the lifetime's
/// word from `w` to `l`, else `l` is `a`; whitespace runs from `l` to `st`,
/// and the words start at `st`. The name is read where the path prefix ends:
/// the type ends where its last word ends, or past the generic arguments
/// that follow that word, if they parse there. With no `<` after the last
/// word, it ends where that word ends.
pub proof fn lemma_typ_path(
    s: Seq<u8>,
    pos: int,
    a: int,
    w: int,
    l: int,
    st: int,
    ends: Seq<int>,
    f: Failures,
)
    requires
        0 <= pos < s.len(),
        (s[pos] == '&' as u8 && a == pos + 1) || (s[pos] != '&' as u8 && a == pos),
        (a < s.len() && s[a] == '\'' as u8 && blank_run(s, a + 1, w) && word(s, w, l)) || (!(a < s.len()
            && s[a] == '\'' as u8) && l == a),
        blank_run(s, l, st),
        path_words(s, st, ends),
    ensures
        ({
            let e = ends.last();
            let gen = spec_typ_generics(s, e, no_failures()).0;
            let end = if gen.is_success() {
                gen.point
            } else {
                e
            };
            &&& spec_typ(s, pos, f).0 == ok(end, span(pos, end))
            &&& !(e < s.len() && s[e] == '<' as u8) ==> spec_typ(s, pos, f).0 == ok(e, span(pos, e))
        }),
{
    let n = ends.len();
    let e = ends.last();
    lemma_single_byte_literal(s, pos, Token::Ampersand);
    let p1 = spec_opt_literal(s, pos, Token::Ampersand);
    assert(p1 == a);
    lemma_single_byte_literal(s, a, Token::Apostrophe);
    let (r2, f2) = spec_lifetime(s, p1, f);
    if a < s.len() && s[a] == '\'' as u8 {
        lemma_opt_ws_run(s, a + 1, w, f);
        lemma_word_ident(s, w, l);
        assert(r2 == ok(l, span(w, l))) by {
            reveal(spec_lifetime);
        }
    } else {
        assert(r2.is_failure()) by {
            reveal(spec_lifetime);
        }
    }
    let (p3, f3) = spec_opt_ws(s, l, f2);
    lemma_opt_ws_run(s, l, st, f2);
    assert(p3 == st);
    lemma_path_words(s, st, ends, 0, f3);
    let last = segment_start(st, ends, n - 1);
    assert(word(s, last, ends[n - 1]));
    lemma_word_ident(s, last, e);
    let (p4, _, f4) = spec_path(s, p3, f3);
    assert(p4 == last);
    assert(spec_ident(s, p4) == ok(e, span(last, e)));
    lemma_path_words_order(s, st, ends, n - 1);
    assert(pos < e <= s.len());
    lemma_typ_generics_free(s, e, f4, no_failures());
    lemma_single_byte_literal(s, e, Token::LessThan);
    assert(spec_typ(s, pos, f).0 == ok(
        if spec_typ_generics(s, e, f4).0.is_success() {
            spec_typ_generics(s, e, f4).0.point
        } else {
            e
        },
        span(
            pos,
            if spec_typ_generics(s, e, f4).0.is_success() {
                spec_typ_generics(s, e, f4).0.point
            } else {
                e
            },
        ),
    ));
}

/// Where no identifier starts, a path prefix takes nothing.
pub proof fn lemma_path_stops(s: Seq<u8>, pos: int, f: Failures)
    requires
        spec_ident(s, pos).is_failure(),
    ensures
        spec_path(s, pos, f).0 == pos,
        spec_path(s, pos, f).1 == Seq::<Extent>::empty(),
{
    reveal(spec_path_component);
}

/// A lifetime comes out the same whatever failures were noted before.
pub proof fn lemma_lifetime_free(s: Seq<u8>, pos: int, f: Failures, g: Failures)
    ensures
        spec_lifetime(s, pos, f).0 == spec_lifetime(s, pos, g).0,
{
    reveal(spec_lifetime);
    let r1 = spec_literal(s, pos, Token::Apostrophe);
    if r1.is_success() {
        lemma_opt_ws_free(s, r1.point, f, g);
    }
}

pub proof fn lemma_comma_lifetime_free(s: Seq<u8>, pos: int, f: Failures, g: Failures)
    ensures
        spec_comma_lifetime(s, pos, f).0 == spec_comma_lifetime(s, pos, g).0,
{
    reveal(spec_comma_lifetime);
    lemma_lifetime_free(s, pos, f, g);
    let (r1, f1) = spec_lifetime(s, pos, f);
    let (_, g1) = spec_lifetime(s, pos, g);
    if r1.is_success() {
        lemma_comma_rest_free(s, r1.point, f1, g1);
    }
}

pub proof fn lemma_comma_lifetimes_free(s: Seq<u8>, pos: int, f: Failures, g: Failures)
    ensures
        spec_comma_lifetimes(s, pos, f).0 == spec_comma_lifetimes(s, pos, g).0,
        spec_comma_lifetimes(s, pos, f).1 == spec_comma_lifetimes(s, pos, g).1,
    decreases s.len() - pos,
{
    lemma_comma_lifetime_free(s, pos, f, g);
    let (r, f1) = spec_comma_lifetime(s, pos, f);
    let (_, g1) = spec_comma_lifetime(s, pos, g);
    if r.is_success() && advanced(s, pos, r.point) {
        lemma_comma_lifetimes_free(s, r.point, f1, g1);
    }
}

pub proof fn lemma_typ_generic_lifetimes_free(s: Seq<u8>, pos: int, f: Failures, g: Failures)
    ensures
        spec_typ_generic_lifetimes(s, pos, f).0 == spec_typ_generic_lifetimes(s, pos, g).0,
{
    reveal(spec_typ_generic_lifetimes);
    lemma_comma_lifetime_free(s, pos, f, g);
    let (r1, f1) = spec_comma_lifetime(s, pos, f);
    let (_, g1) = spec_comma_lifetime(s, pos, g);
    if r1.is_success() {
        lemma_comma_lifetimes_free(s, r1.point, f1, g1);
    }
}

/// A type comes out the same whatever failures were noted before: the
/// record of failures only collects, it never steers the parse.
pub proof fn lemma_typ_free(s: Seq<u8>, pos: int, f: Failures, g: Failures)
    ensures
        spec_typ(s, pos, f).0 == spec_typ(s, pos, g).0,
    decreases s.len() - pos, 1int,
{
    let p1 = spec_opt_literal(s, pos, Token::Ampersand);
    lemma_lifetime_free(s, p1, f, g);
    let (r2, f2) = spec_lifetime(s, p1, f);
    let (_, g2) = spec_lifetime(s, p1, g);
    let p2 = if r2.is_success() {
        r2.point
    } else {
        p1
    };
    lemma_opt_ws_free(s, p2, f2, g2);
    let (p3, f3) = spec_opt_ws(s, p2, f2);
    let (_, g3) = spec_opt_ws(s, p2, g2);
    lemma_path_free(s, p3, f3, g3);
    let (p4, _, f4) = spec_path(s, p3, f3);
    let (_, _, g4) = spec_path(s, p3, g3);
    let name = spec_ident(s, p4);
    if name.is_success() && advanced(s, pos, name.point) {
        lemma_typ_generics_free(s, name.point, f4, g4);
    }
}

pub proof fn lemma_typ_generics_free(s: Seq<u8>, pos: int, f: Failures, g: Failures)
    ensures
        spec_typ_generics(s, pos, f).0 == spec_typ_generics(s, pos, g).0,
    decreases s.len() - pos, 0int,
{
    let r1 = spec_literal(s, pos, Token::LessThan);
    if r1.is_success() {
        lemma_opt_ws_free(s, r1.point, f, g);
        let (p2, f2) = spec_opt_ws(s, r1.point, f);
        let (_, g2) = spec_opt_ws(s, r1.point, g);
        lemma_typ_generic_lifetimes_free(s, p2, f2, g2);
        let (r3, f3) = spec_typ_generic_lifetimes(s, p2, f2);
        let (_, g3) = spec_typ_generic_lifetimes(s, p2, g2);
        let p3 = if r3.is_success() {
            r3.point
        } else {
            p2
        };
        if advanced(s, pos, p3) {
            lemma_type_generic_types_free(s, p3, f3, g3);
        }
    }
}

pub proof fn lemma_type_generic_types_free(s: Seq<u8>, pos: int, f: Failures, g: Failures)
    ensures
        spec_type_generic_types(s, pos, f).0 == spec_type_generic_types(s, pos, g).0,
    decreases s.len() - pos, 3int,
{
    lemma_comma_typ_free(s, pos, f, g);
    let (r1, f1) = spec_comma_typ(s, pos, f);
    let (_, g1) = spec_comma_typ(s, pos, g);
    if r1.is_success() && advanced(s, pos, r1.point) {
        lemma_comma_typs_free(s, r1.point, f1, g1);
    }
}

pub proof fn lemma_comma_typ_free(s: Seq<u8>, pos: int, f: Failures, g: Failures)
    ensures
        spec_comma_typ(s, pos, f).0 == spec_comma_typ(s, pos, g).0,
    decreases s.len() - pos, 2int,
{
    lemma_typ_free(s, pos, f, g);
    let (r1, f1) = spec_typ(s, pos, f);
    let (_, g1) = spec_typ(s, pos, g);
    if r1.is_success() {
        lemma_comma_rest_free(s, r1.point, f1, g1);
    }
}

pub proof fn lemma_comma_typs_free(s: Seq<u8>, pos: int, f: Failures, g: Failures)
    ensures
        spec_comma_typs(s, pos, f).0 == spec_comma_typs(s, pos, g).0,
        spec_comma_typs(s, pos, f).1 == spec_comma_typs(s, pos, g).1,
    decreases s.len() - pos, 3int,
{
    lemma_comma_typ_free(s, pos, f, g);
    let (r, f1) = spec_comma_typ(s, pos, f);
    let (_, g1) = spec_comma_typ(s, pos, g);
    if r.is_success() && advanced(s, pos, r.point) {
        lemma_comma_typs_free(s, r.point, f1, g1);
    }
}

} // verus!
