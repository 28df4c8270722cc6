//! Top-level items: comments, functions, enums, traits, impls, attributes,
//! `extern crate`, type aliases and whitespace.

use vstd::prelude::*;
use crate::ast::{extents_ok, variant_ok, enum_ok, impl_function_ok, impl_ok, item_ok, 
    ex, Crate, Enum, EnumModel, EnumVariant, EnumVariantModel, Extent, Function, FunctionModel,
    Impl, ImplFunction, ImplFunctionModel, ImplModel, TopLevel, TopLevelModel, Trait, TypeAlias,
    models, lemma_models_push, span,
};
use crate::expressions::{spec_function_body, function_body};
use crate::functions::{spec_function_header, function_header};
use crate::lexical::{
    Stop, starts_with_at, spec_find, parse_until, spec_ident, ident, spec_literal, literal,
    spec_opt_literal, opt_literal, spec_opt_ws, opt_ws, spec_whitespace, whitespace, lemma_find,
    lemma_single_byte_literal,
};
use crate::progress::{keeps, stays_within, Progress, Status, Failures, Master, ok, fail, add_failure, note};
use crate::token::{Token, token_bytes};
use crate::types::{advanced, spec_comma_rest, comma_rest, spec_comma_typs, comma_typs, spec_typ, typ};

verus! {

/// Where a top-level item begins in the text. A comment's extent leaves out
/// its `//`; every other item's extent covers all of it.
pub open spec fn item_start(t: TopLevelModel) -> int {
    match t {
        TopLevelModel::Comment(e) => e.0 - 2,
        TopLevelModel::Function(f) => f.extent.0 as int,
        TopLevelModel::Enum(e) => e.extent.0 as int,
        TopLevelModel::Trait(t) => t.extent.0 as int,
        TopLevelModel::Impl(i) => i.extent.0 as int,
        TopLevelModel::Attribute(e) => e.0 as int,
        TopLevelModel::ExternCrate(c) => c.extent.0 as int,
        TopLevelModel::TypeAlias(t) => t.extent.0 as int,
        TopLevelModel::Whitespace(e) => e.0 as int,
    }
}

/// Where a top-level item ends in the text.
pub open spec fn item_end(t: TopLevelModel) -> int {
    match t {
        TopLevelModel::Comment(e) => e.1 as int,
        TopLevelModel::Function(f) => f.extent.1 as int,
        TopLevelModel::Enum(e) => e.extent.1 as int,
        TopLevelModel::Trait(t) => t.extent.1 as int,
        TopLevelModel::Impl(i) => i.extent.1 as int,
        TopLevelModel::Attribute(e) => e.1 as int,
        TopLevelModel::ExternCrate(c) => c.extent.1 as int,
        TopLevelModel::TypeAlias(t) => t.extent.1 as int,
        TopLevelModel::Whitespace(e) => e.1 as int,
    }
}

/// A parsed top-level item spans exactly the text it was parsed from.
pub open spec fn spans<P>(r: Progress<P, TopLevelModel>, pos: int, end: int) -> bool {
    r.is_success() ==> item_start(r.value()) == pos && item_end(r.value()) == end
}

/// `//` at `pos` directly followed by a newline or by the end of the text:
/// the comment there would be empty.
pub open spec fn empty_comment_at(s: Seq<u8>, pos: int) -> bool {
    &&& starts_with_at(s, pos, token_bytes(Token::CommentStart))
    &&& spec_find(s, pos + 2, Stop::Newline) == pos + 2
}

/// A comment: `//` and everything up to the next newline or the end. Its
/// extent covers the text after the `//`.
#[verifier::opaque]
pub open spec fn spec_comment(s: Seq<u8>, pos: int) -> Progress<int, TopLevelModel> {
    let r1 = spec_literal(s, pos, Token::CommentStart);
    match r1.status {
        Status::Failure(e) => fail(r1.point, e),
        Status::Success(_) => {
            let p2 = spec_find(s, r1.point, Stop::Newline);
            ok(p2, TopLevelModel::Comment(span(r1.point, p2)))
        },
    }
}

pub fn comment(s: &[u8], pos: usize) -> (r: Progress<usize, TopLevel>)
    requires
        pos <= s@.len(),
        !empty_comment_at(s@, pos as int),
    ensures
        r@ == spec_comment(s@, pos as int),
        pos <= r.point <= s@.len(),
        r.is_success() ==> r.point > pos,
        spans(r@, pos as int, r.point as int),
        r.is_success() ==> item_ok(r@.value(), s@.len() as int),
{
    proof {
        reveal(spec_comment);
    }
    let r1 = literal(s, pos, Token::CommentStart);
    if let Status::Failure(e) = r1.status {
        return Progress::failure(r1.point, e);
    }
    let p2 = parse_until(s, r1.point, Stop::Newline);
    Progress::success(p2, TopLevel::Comment(ex(r1.point, p2)))
}

/// A function: a header, optional whitespace and a body.
#[verifier::opaque]
pub open spec fn spec_function(s: Seq<u8>, pos: int, f: Failures) -> (Progress<int, TopLevelModel>, Failures) {
    let (r1, f1) = spec_function_header(s, pos, f);
    match r1.status {
        Status::Failure(e) => (fail(r1.point, e), f1),
        Status::Success(header) => {
            let (p2, f2) = spec_opt_ws(s, r1.point, f1);
            let (r3, f3) = spec_function_body(s, p2, f2);
            match r3.status {
                Status::Failure(e) => (fail(r3.point, e), f3),
                Status::Success(body) => (
                    ok(r3.point, TopLevelModel::Function(FunctionModel { extent: span(pos, r3.point), header, body })),
                    f3,
                ),
            }
        },
    }
}

pub fn function(pm: &mut Master, s: &[u8], pos: usize) -> (r: Progress<usize, TopLevel>)
    requires
        pos <= s@.len(),
    ensures
        (r@, final(pm)@) == spec_function(s@, pos as int, old(pm)@),
        pos <= r.point <= s@.len(),
        stays_within(old(pm)@, final(pm)@, s@.len() as int),
        keeps(old(pm)@, final(pm)@),
        r.is_success() ==> r.point > pos,
        spans(r@, pos as int, r.point as int),
        r.is_success() ==> item_ok(r@.value(), s@.len() as int),
{
    proof {
        reveal(spec_function);
    }
    let r1 = function_header(pm, s, pos);
    let header = match r1.status {
        Status::Failure(e) => return Progress::failure(r1.point, e),
        Status::Success(h) => h,
    };
    let p2 = opt_ws(pm, s, r1.point);
    let r3 = function_body(pm, s, p2);
    match r3.status {
        Status::Failure(e) => Progress::failure(r3.point, e),
        Status::Success(body) => Progress::success(
            r3.point,
            TopLevel::Function(Function { extent: ex(pos, r3.point), header, body }),
        ),
    }
}

/// The types of a tuple-like variant: `(`, separated types and `)`.
#[verifier::opaque]
pub open spec fn spec_enum_variant_body(s: Seq<u8>, pos: int, f: Failures) -> (Progress<int, Seq<Extent>>, Failures) {
    let r1 = spec_literal(s, pos, Token::LeftParen);
    match r1.status {
        Status::Failure(e) => (fail(r1.point, e), f),
        Status::Success(_) => {
            let (p2, types, f2) = spec_comma_typs(s, r1.point, f);
            let r3 = spec_literal(s, p2, Token::RightParen);
            match r3.status {
                Status::Failure(e) => (fail(r3.point, e), f2),
                Status::Success(_) => (ok(r3.point, types), f2),
            }
        },
    }
}

pub fn enum_variant_body(pm: &mut Master, s: &[u8], pos: usize) -> (r: Progress<usize, Vec<Extent>>)
    requires
        pos <= s@.len(),
    ensures
        (r@, final(pm)@) == spec_enum_variant_body(s@, pos as int, old(pm)@),
        pos <= r.point <= s@.len(),
        stays_within(old(pm)@, final(pm)@, s@.len() as int),
        keeps(old(pm)@, final(pm)@),
        r.is_success() ==> r.point > pos,
        r.is_success() ==> extents_ok(r@.value(), s@.len() as int),
{
    proof {
        reveal(spec_enum_variant_body);
    }
    let r1 = literal(s, pos, Token::LeftParen);
    if let Status::Failure(e) = r1.status {
        return Progress::failure(r1.point, e);
    }
    let (p2, types) = comma_typs(pm, s, r1.point);
    let r3 = literal(s, p2, Token::RightParen);
    match r3.status {
        Status::Failure(e) => Progress::failure(r3.point, e),
        Status::Success(_) => Progress::success(r3.point, types),
    }
}

/// An enum variant: a name, optional whitespace and optional tuple types.
#[verifier::opaque]
pub open spec fn spec_enum_variant(s: Seq<u8>, pos: int, f: Failures) -> (Progress<int, EnumVariantModel>, Failures) {
    let r1 = spec_ident(s, pos);
    match r1.status {
        Status::Failure(e) => (fail(r1.point, e), f),
        Status::Success(name) => {
            let (p2, f2) = spec_opt_ws(s, r1.point, f);
            let (r3, f3) = spec_enum_variant_body(s, p2, f2);
            let p3 = if r3.is_success() {
                r3.point
            } else {
                p2
            };
            let body = if r3.is_success() {
                r3.value()
            } else {
                seq![]
            };
            (ok(p3, EnumVariantModel { extent: span(pos, p3), name, body }), f3)
        },
    }
}

pub fn enum_variant(pm: &mut Master, s: &[u8], pos: usize) -> (r: Progress<usize, EnumVariant>)
    requires
        pos <= s@.len(),
    ensures
        (r@, final(pm)@) == spec_enum_variant(s@, pos as int, old(pm)@),
        pos <= r.point <= s@.len(),
        stays_within(old(pm)@, final(pm)@, s@.len() as int),
        keeps(old(pm)@, final(pm)@),
        r.is_success() ==> r.point > pos,
        r.is_success() ==> variant_ok(r@.value(), s@.len() as int),
{
    proof {
        reveal(spec_enum_variant);
    }
    let r1 = ident(s, pos);
    let name = match r1.status {
        Status::Failure(e) => return Progress::failure(r1.point, e),
        Status::Success(v) => v,
    };
    let p2 = opt_ws(pm, s, r1.point);
    let r3 = enum_variant_body(pm, s, p2);
    let (p3, body) = match r3.status {
        Status::Success(v) => (r3.point, v),
        Status::Failure(_) => (p2, Vec::new()),
    };
    Progress::success(p3, EnumVariant { extent: ex(pos, p3), name, body })
}

/// An enum variant followed by the list separator.
#[verifier::opaque]
pub open spec fn spec_comma_enum_variant(s: Seq<u8>, pos: int, f: Failures) -> (Progress<int, EnumVariantModel>, Failures) {
    let (r1, f1) = spec_enum_variant(s, pos, f);
    match r1.status {
        Status::Failure(e) => (fail(r1.point, e), f1),
        Status::Success(v) => {
            let (p2, f2) = spec_comma_rest(s, r1.point, f1);
            (ok(p2, v), f2)
        },
    }
}

pub fn comma_enum_variant(pm: &mut Master, s: &[u8], pos: usize) -> (r: Progress<usize, EnumVariant>)
    requires
        pos <= s@.len(),
    ensures
        (r@, final(pm)@) == spec_comma_enum_variant(s@, pos as int, old(pm)@),
        pos <= r.point <= s@.len(),
        stays_within(old(pm)@, final(pm)@, s@.len() as int),
        keeps(old(pm)@, final(pm)@),
        r.is_success() ==> r.point > pos,
        r.is_success() ==> variant_ok(r@.value(), s@.len() as int),
{
    proof {
        reveal(spec_comma_enum_variant);
    }
    let r1 = enum_variant(pm, s, pos);
    match r1.status {
        Status::Failure(e) => Progress::failure(r1.point, e),
        Status::Success(v) => {
            let p2 = comma_rest(pm, s, r1.point);
            Progress::success(p2, v)
        },
    }
}

/// Separated enum variants, as many as there are; the failure that ends the
/// list is noted.
pub open spec fn spec_comma_enum_variants(s: Seq<u8>, pos: int, f: Failures) -> (int, Seq<EnumVariantModel>, Failures)
    decreases s.len() - pos,
{
    let (r, f1) = spec_comma_enum_variant(s, pos, f);
    match r.status {
        Status::Success(v) => if advanced(s, pos, r.point) {
            let (end, vs, g) = spec_comma_enum_variants(s, r.point, f1);
            (end, seq![v] + vs, g)
        } else {
            (pos, seq![], f1)
        },
        Status::Failure(e) => (pos, seq![], add_failure(f1, r.point, e)),
    }
}

pub fn comma_enum_variants(pm: &mut Master, s: &[u8], pos: usize) -> (r: (usize, Vec<EnumVariant>))
    requires
        pos <= s@.len(),
    ensures
        (r.0 as int, models(r.1@), final(pm)@) == spec_comma_enum_variants(s@, pos as int, old(pm)@),
        pos <= r.0 <= s@.len(),
        stays_within(old(pm)@, final(pm)@, s@.len() as int),
        keeps(old(pm)@, final(pm)@),
        forall|i: int| 0 <= i < r.1@.len() ==> variant_ok(#[trigger] models(r.1@)[i], s@.len() as int),
{
    let mut cur: usize = pos;
    let mut acc: Vec<EnumVariant> = Vec::new();
    proof {
        crate::ast::lemma_models_empty::<EnumVariant>();
    }
    loop
        invariant
            pos <= cur <= s@.len(),
            stays_within(old(pm)@, pm@, s@.len() as int),
            keeps(old(pm)@, pm@),
            forall|i: int| 0 <= i < acc@.len() ==> variant_ok(#[trigger] models(acc@)[i], s@.len() as int),
            ({
                let (e, vs, g) = spec_comma_enum_variants(s@, cur as int, pm@);
                (e, models(acc@) + vs, g) == spec_comma_enum_variants(s@, pos as int, old(pm)@)
            }),
        decreases s@.len() - cur,
    {
        let r = comma_enum_variant(pm, s, cur);
        match r.status {
            Status::Success(v) => {
                proof {
                    let (e1, vs1, g1) = spec_comma_enum_variants(s@, r.point as int, pm@);
                    lemma_models_push(acc@, v);
                    assert(models(acc@).push(v@) + vs1 =~= models(acc@) + (seq![v@] + vs1));
                }
                acc.push(v);
                cur = r.point;
            },
            Status::Failure(e) => {
                pm.add(r.point, e);
                assert(models(acc@) + Seq::<EnumVariantModel>::empty() =~= models(acc@));
                return (cur, acc);
            },
        }
    }
}

/// An enum: `enum`, whitespace, a name, optional whitespace, `{`, optional
/// whitespace, separated variants, optional whitespace and `}`.
#[verifier::opaque]
pub open spec fn spec_p_enum_inner(s: Seq<u8>, pos: int, f: Failures) -> (Progress<int, EnumModel>, Failures) {
    let r1 = spec_literal(s, pos, Token::Enum);
    match r1.status {
        Status::Failure(e) => (fail(r1.point, e), f),
        Status::Success(_) => {
            let (r2, f2) = spec_whitespace(s, r1.point, f);
            match r2.status {
                Status::Failure(e) => (fail(r2.point, e), f2),
                Status::Success(_) => {
                    let r3 = spec_ident(s, r2.point);
                    match r3.status {
                        Status::Failure(e) => (fail(r3.point, e), f2),
                        Status::Success(name) => {
                            let (p4, f4) = spec_opt_ws(s, r3.point, f2);
                            let r5 = spec_literal(s, p4, Token::LeftBrace);
                            match r5.status {
                                Status::Failure(e) => (fail(r5.point, e), f4),
                                Status::Success(_) => {
                                    let (p6, f6) = spec_opt_ws(s, r5.point, f4);
                                    let (p7, variants, f7) = spec_comma_enum_variants(s, p6, f6);
                                    let (p8, f8) = spec_opt_ws(s, p7, f7);
                                    let r9 = spec_literal(s, p8, Token::RightBrace);
                                    match r9.status {
                                        Status::Failure(e) => (fail(r9.point, e), f8),
                                        Status::Success(_) => (
                                            ok(r9.point, EnumModel { extent: span(pos, r9.point), name, variants }),
                                            f8,
                                        ),
                                    }
                                },
                            }
                        },
                    }
                },
            }
        },
    }
}

pub fn p_enum_inner(pm: &mut Master, s: &[u8], pos: usize) -> (r: Progress<usize, Enum>)
    requires
        pos <= s@.len(),
    ensures
        (r@, final(pm)@) == spec_p_enum_inner(s@, pos as int, old(pm)@),
        pos <= r.point <= s@.len(),
        stays_within(old(pm)@, final(pm)@, s@.len() as int),
        keeps(old(pm)@, final(pm)@),
        r.is_success() ==> r.point > pos && r.value().extent == (pos, r.point),
        r.is_success() ==> enum_ok(r@.value(), s@.len() as int),
{
    proof {
        reveal(spec_p_enum_inner);
    }
    let r1 = literal(s, pos, Token::Enum);
    if let Status::Failure(e) = r1.status {
        return Progress::failure(r1.point, e);
    }
    let r2 = whitespace(pm, s, r1.point);
    if let Status::Failure(e) = r2.status {
        return Progress::failure(r2.point, e);
    }
    let r3 = ident(s, r2.point);
    let name = match r3.status {
        Status::Failure(e) => return Progress::failure(r3.point, e),
        Status::Success(v) => v,
    };
    let p4 = opt_ws(pm, s, r3.point);
    let r5 = literal(s, p4, Token::LeftBrace);
    if let Status::Failure(e) = r5.status {
        return Progress::failure(r5.point, e);
    }
    let p6 = opt_ws(pm, s, r5.point);
    let (p7, variants) = comma_enum_variants(pm, s, p6);
    let p8 = opt_ws(pm, s, p7);
    let r9 = literal(s, p8, Token::RightBrace);
    if let Status::Failure(e) = r9.status {
        return Progress::failure(r9.point, e);
    }
    Progress::success(r9.point, Enum { extent: ex(pos, r9.point), name, variants })
}

#[verifier::opaque]
pub open spec fn spec_p_enum(s: Seq<u8>, pos: int, f: Failures) -> (Progress<int, TopLevelModel>, Failures) {
    let (r, g) = spec_p_enum_inner(s, pos, f);
    match r.status {
        Status::Failure(e) => (fail(r.point, e), g),
        Status::Success(v) => (ok(r.point, TopLevelModel::Enum(v)), g),
    }
}

pub fn p_enum(pm: &mut Master, s: &[u8], pos: usize) -> (r: Progress<usize, TopLevel>)
    requires
        pos <= s@.len(),
    ensures
        (r@, final(pm)@) == spec_p_enum(s@, pos as int, old(pm)@),
        pos <= r.point <= s@.len(),
        stays_within(old(pm)@, final(pm)@, s@.len() as int),
        keeps(old(pm)@, final(pm)@),
        r.is_success() ==> r.point > pos,
        spans(r@, pos as int, r.point as int),
        r.is_success() ==> item_ok(r@.value(), s@.len() as int),
{
    proof {
        reveal(spec_p_enum);
    }
    let r = p_enum_inner(pm, s, pos);
    match r.status {
        Status::Failure(e) => Progress::failure(r.point, e),
        Status::Success(v) => Progress::success(r.point, TopLevel::Enum(v)),
    }
}

/// A trait: `trait`, whitespace, a name, whitespace and `{}`.
#[verifier::opaque]
pub open spec fn spec_p_trait(s: Seq<u8>, pos: int, f: Failures) -> (Progress<int, TopLevelModel>, Failures) {
    let r1 = spec_literal(s, pos, Token::Trait);
    match r1.status {
        Status::Failure(e) => (fail(r1.point, e), f),
        Status::Success(_) => {
            let (r2, f2) = spec_whitespace(s, r1.point, f);
            match r2.status {
                Status::Failure(e) => (fail(r2.point, e), f2),
                Status::Success(_) => {
                    let r3 = spec_ident(s, r2.point);
                    match r3.status {
                        Status::Failure(e) => (fail(r3.point, e), f2),
                        Status::Success(name) => {
                            let (r4, f4) = spec_whitespace(s, r3.point, f2);
                            match r4.status {
                                Status::Failure(e) => (fail(r4.point, e), f4),
                                Status::Success(_) => {
                                    let r5 = spec_literal(s, r4.point, Token::EmptyBraces);
                                    match r5.status {
                                        Status::Failure(e) => (fail(r5.point, e), f4),
                                        Status::Success(_) => (
                                            ok(r5.point, TopLevelModel::Trait(Trait { extent: span(pos, r5.point), name })),
                                            f4,
                                        ),
                                    }
                                },
                            }
                        },
                    }
                },
            }
        },
    }
}

pub fn p_trait(pm: &mut Master, s: &[u8], pos: usize) -> (r: Progress<usize, TopLevel>)
    requires
        pos <= s@.len(),
    ensures
        (r@, final(pm)@) == spec_p_trait(s@, pos as int, old(pm)@),
        pos <= r.point <= s@.len(),
        stays_within(old(pm)@, final(pm)@, s@.len() as int),
        keeps(old(pm)@, final(pm)@),
        r.is_success() ==> r.point > pos,
        spans(r@, pos as int, r.point as int),
        r.is_success() ==> item_ok(r@.value(), s@.len() as int),
{
    proof {
        reveal(spec_p_trait);
    }
    let r1 = literal(s, pos, Token::Trait);
    if let Status::Failure(e) = r1.status {
        return Progress::failure(r1.point, e);
    }
    let r2 = whitespace(pm, s, r1.point);
    if let Status::Failure(e) = r2.status {
        return Progress::failure(r2.point, e);
    }
    let r3 = ident(s, r2.point);
    let name = match r3.status {
        Status::Failure(e) => return Progress::failure(r3.point, e),
        Status::Success(v) => v,
    };
    let r4 = whitespace(pm, s, r3.point);
    if let Status::Failure(e) = r4.status {
        return Progress::failure(r4.point, e);
    }
    let r5 = literal(s, r4.point, Token::EmptyBraces);
    if let Status::Failure(e) = r5.status {
        return Progress::failure(r5.point, e);
    }
    Progress::success(r5.point, TopLevel::Trait(Trait { extent: ex(pos, r5.point), name }))
}

/// A function inside an impl: a header and an optional body.
#[verifier::opaque]
pub open spec fn spec_impl_function(s: Seq<u8>, pos: int, f: Failures) -> (Progress<int, ImplFunctionModel>, Failures) {
    let (r1, f1) = spec_function_header(s, pos, f);
    match r1.status {
        Status::Failure(e) => (fail(r1.point, e), f1),
        Status::Success(header) => {
            let (r2, f2) = spec_function_body(s, r1.point, f1);
            let p2 = if r2.is_success() {
                r2.point
            } else {
                r1.point
            };
            let body = if r2.is_success() {
                Some(r2.value())
            } else {
                None
            };
            (ok(p2, ImplFunctionModel { extent: span(pos, p2), header, body }), f2)
        },
    }
}

pub fn impl_function(pm: &mut Master, s: &[u8], pos: usize) -> (r: Progress<usize, ImplFunction>)
    requires
        pos <= s@.len(),
    ensures
        (r@, final(pm)@) == spec_impl_function(s@, pos as int, old(pm)@),
        pos <= r.point <= s@.len(),
        stays_within(old(pm)@, final(pm)@, s@.len() as int),
        keeps(old(pm)@, final(pm)@),
        r.is_success() ==> r.point > pos,
        r.is_success() ==> impl_function_ok(r@.value(), s@.len() as int),
{
    proof {
        reveal(spec_impl_function);
    }
    let r1 = function_header(pm, s, pos);
    let header = match r1.status {
        Status::Failure(e) => return Progress::failure(r1.point, e),
        Status::Success(h) => h,
    };
    let r2 = function_body(pm, s, r1.point);
    let (p2, body) = match r2.status {
        Status::Success(b) => (r2.point, Some(b)),
        Status::Failure(_) => (r1.point, None),
    };
    Progress::success(p2, ImplFunction { extent: ex(pos, p2), header, body })
}

/// Functions inside an impl, as many as there are; the failure that ends the
/// list is noted.
pub open spec fn spec_impl_functions(s: Seq<u8>, pos: int, f: Failures) -> (int, Seq<ImplFunctionModel>, Failures)
    decreases s.len() - pos,
{
    let (r, f1) = spec_impl_function(s, pos, f);
    match r.status {
        Status::Success(v) => if advanced(s, pos, r.point) {
            let (end, vs, g) = spec_impl_functions(s, r.point, f1);
            (end, seq![v] + vs, g)
        } else {
            (pos, seq![], f1)
        },
        Status::Failure(e) => (pos, seq![], add_failure(f1, r.point, e)),
    }
}

pub fn impl_functions(pm: &mut Master, s: &[u8], pos: usize) -> (r: (usize, Vec<ImplFunction>))
    requires
        pos <= s@.len(),
    ensures
        (r.0 as int, models(r.1@), final(pm)@) == spec_impl_functions(s@, pos as int, old(pm)@),
        pos <= r.0 <= s@.len(),
        stays_within(old(pm)@, final(pm)@, s@.len() as int),
        keeps(old(pm)@, final(pm)@),
        forall|i: int| 0 <= i < r.1@.len() ==> impl_function_ok(#[trigger] models(r.1@)[i], s@.len() as int),
{
    let mut cur: usize = pos;
    let mut acc: Vec<ImplFunction> = Vec::new();
    proof {
        crate::ast::lemma_models_empty::<ImplFunction>();
    }
    loop
        invariant
            pos <= cur <= s@.len(),
            stays_within(old(pm)@, pm@, s@.len() as int),
            keeps(old(pm)@, pm@),
            forall|i: int| 0 <= i < acc@.len() ==> impl_function_ok(#[trigger] models(acc@)[i], s@.len() as int),
            ({
                let (e, vs, g) = spec_impl_functions(s@, cur as int, pm@);
                (e, models(acc@) + vs, g) == spec_impl_functions(s@, pos as int, old(pm)@)
            }),
        decreases s@.len() - cur,
    {
        let r = impl_function(pm, s, cur);
        match r.status {
            Status::Success(v) => {
                proof {
                    let (e1, vs1, g1) = spec_impl_functions(s@, r.point as int, pm@);
                    lemma_models_push(acc@, v);
                    assert(models(acc@).push(v@) + vs1 =~= models(acc@) + (seq![v@] + vs1));
                }
                acc.push(v);
                cur = r.point;
            },
            Status::Failure(e) => {
                pm.add(r.point, e);
                assert(models(acc@) + Seq::<ImplFunctionModel>::empty() =~= models(acc@));
                return (cur, acc);
            },
        }
    }
}

/// An impl: `impl`, whitespace, the trait, whitespace, `for`, whitespace,
/// the type, optional whitespace, `{`, optional whitespace, functions,
/// optional whitespace and `}`.
#[verifier::opaque]
pub open spec fn spec_p_impl_inner(s: Seq<u8>, pos: int, f: Failures) -> (Progress<int, ImplModel>, Failures) {
    let r1 = spec_literal(s, pos, Token::Impl);
    match r1.status {
        Status::Failure(e) => (fail(r1.point, e), f),
        Status::Success(_) => {
            let (r2, f2) = spec_whitespace(s, r1.point, f);
            match r2.status {
                Status::Failure(e) => (fail(r2.point, e), f2),
                Status::Success(_) => {
                    let (r3, f3) = spec_typ(s, r2.point, f2);
                    match r3.status {
                        Status::Failure(e) => (fail(r3.point, e), f3),
                        Status::Success(trait_name) => {
                            let (r4, f4) = spec_whitespace(s, r3.point, f3);
                            match r4.status {
                                Status::Failure(e) => (fail(r4.point, e), f4),
                                Status::Success(_) => spec_p_impl_rest(s, pos, r4.point, trait_name, f4),
                            }
                        },
                    }
                },
            }
        },
    }
}

/// The rest of an impl from just after the whitespace that follows the
/// trait: `for`, whitespace, the type, and the braced functions.
#[verifier::opaque]
pub open spec fn spec_p_impl_rest(s: Seq<u8>, start: int, pos: int, trait_name: Extent, f: Failures) -> (Progress<int, ImplModel>, Failures) {
    let r5 = spec_literal(s, pos, Token::For);
    match r5.status {
        Status::Failure(e) => (fail(r5.point, e), f),
        Status::Success(_) => {
            let (r6, f6) = spec_whitespace(s, r5.point, f);
            match r6.status {
                Status::Failure(e) => (fail(r6.point, e), f6),
                Status::Success(_) => {
                    let (r7, f7) = spec_typ(s, r6.point, f6);
                    match r7.status {
                        Status::Failure(e) => (fail(r7.point, e), f7),
                        Status::Success(self_type) => {
                            let (p8, f8) = spec_opt_ws(s, r7.point, f7);
                            let r9 = spec_literal(s, p8, Token::LeftBrace);
                            match r9.status {
                                Status::Failure(e) => (fail(r9.point, e), f8),
                                Status::Success(_) => {
                                    let (p10, f10) = spec_opt_ws(s, r9.point, f8);
                                    let (p11, body, f11) = spec_impl_functions(s, p10, f10);
                                    let (p12, f12) = spec_opt_ws(s, p11, f11);
                                    let r13 = spec_literal(s, p12, Token::RightBrace);
                                    match r13.status {
                                        Status::Failure(e) => (fail(r13.point, e), f12),
                                        Status::Success(_) => (
                                            ok(
                                                r13.point,
                                                ImplModel { extent: span(start, r13.point), trait_name, self_type, body },
                                            ),
                                            f12,
                                        ),
                                    }
                                },
                            }
                        },
                    }
                },
            }
        },
    }
}

pub fn p_impl_inner(pm: &mut Master, s: &[u8], pos: usize) -> (r: Progress<usize, Impl>)
    requires
        pos <= s@.len(),
    ensures
        (r@, final(pm)@) == spec_p_impl_inner(s@, pos as int, old(pm)@),
        pos <= r.point <= s@.len(),
        stays_within(old(pm)@, final(pm)@, s@.len() as int),
        keeps(old(pm)@, final(pm)@),
        r.is_success() ==> r.point > pos && r.value().extent == (pos, r.point),
        r.is_success() ==> impl_ok(r@.value(), s@.len() as int),
{
    proof {
        reveal(spec_p_impl_inner);
        reveal(spec_p_impl_rest);
    }
    let r1 = literal(s, pos, Token::Impl);
    if let Status::Failure(e) = r1.status {
        return Progress::failure(r1.point, e);
    }
    let r2 = whitespace(pm, s, r1.point);
    if let Status::Failure(e) = r2.status {
        return Progress::failure(r2.point, e);
    }
    let r3 = typ(pm, s, r2.point);
    let trait_name = match r3.status {
        Status::Failure(e) => return Progress::failure(r3.point, e),
        Status::Success(v) => v,
    };
    let r4 = whitespace(pm, s, r3.point);
    if let Status::Failure(e) = r4.status {
        return Progress::failure(r4.point, e);
    }
    let r5 = literal(s, r4.point, Token::For);
    if let Status::Failure(e) = r5.status {
        return Progress::failure(r5.point, e);
    }
    let r6 = whitespace(pm, s, r5.point);
    if let Status::Failure(e) = r6.status {
        return Progress::failure(r6.point, e);
    }
    let r7 = typ(pm, s, r6.point);
    let self_type = match r7.status {
        Status::Failure(e) => return Progress::failure(r7.point, e),
        Status::Success(v) => v,
    };
    let p8 = opt_ws(pm, s, r7.point);
    let r9 = literal(s, p8, Token::LeftBrace);
    if let Status::Failure(e) = r9.status {
        return Progress::failure(r9.point, e);
    }
    let p10 = opt_ws(pm, s, r9.point);
    let (p11, body) = impl_functions(pm, s, p10);
    let p12 = opt_ws(pm, s, p11);
    let r13 = literal(s, p12, Token::RightBrace);
    if let Status::Failure(e) = r13.status {
        return Progress::failure(r13.point, e);
    }
    Progress::success(r13.point, Impl { extent: ex(pos, r13.point), trait_name, self_type, body })
}

#[verifier::opaque]
pub open spec fn spec_p_impl(s: Seq<u8>, pos: int, f: Failures) -> (Progress<int, TopLevelModel>, Failures) {
    let (r, g) = spec_p_impl_inner(s, pos, f);
    match r.status {
        Status::Failure(e) => (fail(r.point, e), g),
        Status::Success(v) => (ok(r.point, TopLevelModel::Impl(v)), g),
    }
}

pub fn p_impl(pm: &mut Master, s: &[u8], pos: usize) -> (r: Progress<usize, TopLevel>)
    requires
        pos <= s@.len(),
    ensures
        (r@, final(pm)@) == spec_p_impl(s@, pos as int, old(pm)@),
        pos <= r.point <= s@.len(),
        stays_within(old(pm)@, final(pm)@, s@.len() as int),
        keeps(old(pm)@, final(pm)@),
        r.is_success() ==> r.point > pos,
        spans(r@, pos as int, r.point as int),
        r.is_success() ==> item_ok(r@.value(), s@.len() as int),
{
    proof {
        reveal(spec_p_impl);
    }
    let r = p_impl_inner(pm, s, pos);
    match r.status {
        Status::Failure(e) => Progress::failure(r.point, e),
        Status::Success(v) => Progress::success(r.point, TopLevel::Impl(v)),
    }
}

/// An attribute: `#`, an optional `!`, `[`, everything up to the next `]`,
/// and `]`.
#[verifier::opaque]
pub open spec fn spec_attribute(s: Seq<u8>, pos: int) -> Progress<int, TopLevelModel> {
    let r1 = spec_literal(s, pos, Token::Hash);
    match r1.status {
        Status::Failure(e) => fail(r1.point, e),
        Status::Success(_) => {
            let p2 = spec_opt_literal(s, r1.point, Token::Bang);
            let r3 = spec_literal(s, p2, Token::LeftBracket);
            match r3.status {
                Status::Failure(e) => fail(r3.point, e),
                Status::Success(_) => {
                    let p4 = spec_find(s, r3.point, Stop::RightBracket);
                    let r5 = spec_literal(s, p4, Token::RightBracket);
                    match r5.status {
                        Status::Failure(e) => fail(r5.point, e),
                        Status::Success(_) => ok(r5.point, TopLevelModel::Attribute(span(pos, r5.point))),
                    }
                },
            }
        },
    }
}

pub fn attribute(s: &[u8], pos: usize) -> (r: Progress<usize, TopLevel>)
    requires
        pos <= s@.len(),
    ensures
        r@ == spec_attribute(s@, pos as int),
        pos <= r.point <= s@.len(),
        r.is_success() ==> r.point > pos,
        spans(r@, pos as int, r.point as int),
        r.is_success() ==> item_ok(r@.value(), s@.len() as int),
{
    proof {
        reveal(spec_attribute);
    }
    let r1 = literal(s, pos, Token::Hash);
    if let Status::Failure(e) = r1.status {
        return Progress::failure(r1.point, e);
    }
    let p2 = opt_literal(s, r1.point, Token::Bang);
    let r3 = literal(s, p2, Token::LeftBracket);
    if let Status::Failure(e) = r3.status {
        return Progress::failure(r3.point, e);
    }
    let p4 = parse_until(s, r3.point, Stop::RightBracket);
    let r5 = literal(s, p4, Token::RightBracket);
    if let Status::Failure(e) = r5.status {
        return Progress::failure(r5.point, e);
    }
    Progress::success(r5.point, TopLevel::Attribute(ex(pos, r5.point)))
}

/// An attribute is `#`, an optional `!`, `[`, and everything up to the first
/// `]` after it: where `b` is the `[` after the `#` and its `!` if it has
/// one, and `k` the first `]` after `b`, the attribute runs from `pos` to
/// past `k`.
pub proof fn lemma_attribute(s: Seq<u8>, pos: int, b: int, k: int)
    requires
        0 <= pos < s.len(),
        s[pos] == '#' as u8,
        b == if pos + 1 < s.len() && s[pos + 1] == '!' as u8 {
            pos + 2
        } else {
            pos + 1
        },
        b < k < s.len(),
        s[b] == '[' as u8,
        s[k] == ']' as u8,
        forall|i: int| b < i < k ==> s[i] != ']' as u8,
    ensures
        spec_attribute(s, pos) == ok(k + 1, TopLevelModel::Attribute(span(pos, k + 1))),
{
    reveal(spec_attribute);
    lemma_single_byte_literal(s, pos, Token::Hash);
    lemma_single_byte_literal(s, pos + 1, Token::Bang);
    assert(spec_opt_literal(s, pos + 1, Token::Bang) == b);
    lemma_single_byte_literal(s, b, Token::LeftBracket);
    lemma_find(s, b + 1, Stop::RightBracket);
    let p4 = spec_find(s, b + 1, Stop::RightBracket);
    if p4 < k {
        assert(s[p4] == ']' as u8);
    }
    if p4 > k {
        assert(s[k] != ']' as u8);
    }
    assert(p4 == k);
    lemma_single_byte_literal(s, k, Token::RightBracket);
}

/// An attribute parses exactly where the text holds `#`, an optional `!`,
/// `[`, and a `]` somewhere after it.
pub proof fn lemma_attribute_succeeds(s: Seq<u8>, pos: int)
    requires
        0 <= pos <= s.len(),
    ensures
        ({
            let b = if pos + 1 < s.len() && s[pos + 1] == '!' as u8 {
                pos + 2
            } else {
                pos + 1
            };
            spec_attribute(s, pos).is_success() <==> {
                &&& pos < s.len() && s[pos] == '#' as u8
                &&& b < s.len() && s[b] == '[' as u8
                &&& exists|k: int| b < k < s.len() && s[k] == ']' as u8
            }
        }),
{
    reveal(spec_attribute);
    let b = if pos + 1 < s.len() && s[pos + 1] == '!' as u8 {
        pos + 2
    } else {
        pos + 1
    };
    lemma_single_byte_literal(s, pos, Token::Hash);
    if pos < s.len() && s[pos] == '#' as u8 {
        lemma_single_byte_literal(s, pos + 1, Token::Bang);
        assert(spec_opt_literal(s, pos + 1, Token::Bang) == b);
        lemma_single_byte_literal(s, b, Token::LeftBracket);
        if b < s.len() && s[b] == '[' as u8 {
            lemma_find(s, b + 1, Stop::RightBracket);
            let p4 = spec_find(s, b + 1, Stop::RightBracket);
            lemma_single_byte_literal(s, p4, Token::RightBracket);
            if exists|k: int| b < k < s.len() && s[k] == ']' as u8 {
                let k = choose|k: int| b < k < s.len() && s[k] == ']' as u8;
                if p4 > k {
                    assert(s[k] != ']' as u8);
                }
            }
            if p4 < s.len() {
                assert(b < p4 < s.len() && s[p4] == ']' as u8);
            }
        }
    }
}

/// `extern crate`: `extern`, whitespace, `crate`, whitespace, a name,
/// optional whitespace and `;`.
#[verifier::opaque]
pub open spec fn spec_extern_crate(s: Seq<u8>, pos: int, f: Failures) -> (Progress<int, TopLevelModel>, Failures) {
    let r1 = spec_literal(s, pos, Token::Extern);
    match r1.status {
        Status::Failure(e) => (fail(r1.point, e), f),
        Status::Success(_) => {
            let (r2, f2) = spec_whitespace(s, r1.point, f);
            match r2.status {
                Status::Failure(e) => (fail(r2.point, e), f2),
                Status::Success(_) => {
                    let r3 = spec_literal(s, r2.point, Token::Crate);
                    match r3.status {
                        Status::Failure(e) => (fail(r3.point, e), f2),
                        Status::Success(_) => {
                            let (r4, f4) = spec_whitespace(s, r3.point, f2);
                            match r4.status {
                                Status::Failure(e) => (fail(r4.point, e), f4),
                                Status::Success(_) => {
                                    let r5 = spec_ident(s, r4.point);
                                    match r5.status {
                                        Status::Failure(e) => (fail(r5.point, e), f4),
                                        Status::Success(name) => {
                                            let (p6, f6) = spec_opt_ws(s, r5.point, f4);
                                            let r7 = spec_literal(s, p6, Token::Semicolon);
                                            match r7.status {
                                                Status::Failure(e) => (fail(r7.point, e), f6),
                                                Status::Success(_) => (
                                                    ok(
                                                        r7.point,
                                                        TopLevelModel::ExternCrate(Crate { extent: span(pos, r7.point), name }),
                                                    ),
                                                    f6,
                                                ),
                                            }
                                        },
                                    }
                                },
                            }
                        },
                    }
                },
            }
        },
    }
}

pub fn extern_crate(pm: &mut Master, s: &[u8], pos: usize) -> (r: Progress<usize, TopLevel>)
    requires
        pos <= s@.len(),
    ensures
        (r@, final(pm)@) == spec_extern_crate(s@, pos as int, old(pm)@),
        pos <= r.point <= s@.len(),
        stays_within(old(pm)@, final(pm)@, s@.len() as int),
        keeps(old(pm)@, final(pm)@),
        r.is_success() ==> r.point > pos,
        spans(r@, pos as int, r.point as int),
        r.is_success() ==> item_ok(r@.value(), s@.len() as int),
{
    proof {
        reveal(spec_extern_crate);
    }
    let r1 = literal(s, pos, Token::Extern);
    if let Status::Failure(e) = r1.status {
        return Progress::failure(r1.point, e);
    }
    let r2 = whitespace(pm, s, r1.point);
    if let Status::Failure(e) = r2.status {
        return Progress::failure(r2.point, e);
    }
    let r3 = literal(s, r2.point, Token::Crate);
    if let Status::Failure(e) = r3.status {
        return Progress::failure(r3.point, e);
    }
    let r4 = whitespace(pm, s, r3.point);
    if let Status::Failure(e) = r4.status {
        return Progress::failure(r4.point, e);
    }
    let r5 = ident(s, r4.point);
    let name = match r5.status {
        Status::Failure(e) => return Progress::failure(r5.point, e),
        Status::Success(v) => v,
    };
    let p6 = opt_ws(pm, s, r5.point);
    let r7 = literal(s, p6, Token::Semicolon);
    if let Status::Failure(e) = r7.status {
        return Progress::failure(r7.point, e);
    }
    Progress::success(r7.point, TopLevel::ExternCrate(Crate { extent: ex(pos, r7.point), name }))
}

/// A type alias: `type`, whitespace, the name as a type, optional
/// whitespace, `=`, optional whitespace, the definition, optional whitespace
/// and `;`.
#[verifier::opaque]
pub open spec fn spec_type_alias(s: Seq<u8>, pos: int, f: Failures) -> (Progress<int, TopLevelModel>, Failures) {
    let r1 = spec_literal(s, pos, Token::Type);
    match r1.status {
        Status::Failure(e) => (fail(r1.point, e), f),
        Status::Success(_) => {
            let (r2, f2) = spec_whitespace(s, r1.point, f);
            match r2.status {
                Status::Failure(e) => (fail(r2.point, e), f2),
                Status::Success(_) => {
                    let (r3, f3) = spec_typ(s, r2.point, f2);
                    match r3.status {
                        Status::Failure(e) => (fail(r3.point, e), f3),
                        Status::Success(name) => {
                            let (p4, f4) = spec_opt_ws(s, r3.point, f3);
                            let r5 = spec_literal(s, p4, Token::Equals);
                            match r5.status {
                                Status::Failure(e) => (fail(r5.point, e), f4),
                                Status::Success(_) => {
                                    let (p6, f6) = spec_opt_ws(s, r5.point, f4);
                                    let (r7, f7) = spec_typ(s, p6, f6);
                                    match r7.status {
                                        Status::Failure(e) => (fail(r7.point, e), f7),
                                        Status::Success(defn) => {
                                            let (p8, f8) = spec_opt_ws(s, r7.point, f7);
                                            let r9 = spec_literal(s, p8, Token::Semicolon);
                                            match r9.status {
                                                Status::Failure(e) => (fail(r9.point, e), f8),
                                                Status::Success(_) => (
                                                    ok(
                                                        r9.point,
                                                        TopLevelModel::TypeAlias(TypeAlias { extent: span(pos, r9.point), name, defn }),
                                                    ),
                                                    f8,
                                                ),
                                            }
                                        },
                                    }
                                },
                            }
                        },
                    }
                },
            }
        },
    }
}

pub fn type_alias(pm: &mut Master, s: &[u8], pos: usize) -> (r: Progress<usize, TopLevel>)
    requires
        pos <= s@.len(),
    ensures
        (r@, final(pm)@) == spec_type_alias(s@, pos as int, old(pm)@),
        pos <= r.point <= s@.len(),
        stays_within(old(pm)@, final(pm)@, s@.len() as int),
        keeps(old(pm)@, final(pm)@),
        r.is_success() ==> r.point > pos,
        spans(r@, pos as int, r.point as int),
        r.is_success() ==> item_ok(r@.value(), s@.len() as int),
{
    proof {
        reveal(spec_type_alias);
    }
    let r1 = literal(s, pos, Token::Type);
    if let Status::Failure(e) = r1.status {
        return Progress::failure(r1.point, e);
    }
    let r2 = whitespace(pm, s, r1.point);
    if let Status::Failure(e) = r2.status {
        return Progress::failure(r2.point, e);
    }
    let r3 = typ(pm, s, r2.point);
    let name = match r3.status {
        Status::Failure(e) => return Progress::failure(r3.point, e),
        Status::Success(v) => v,
    };
    let p4 = opt_ws(pm, s, r3.point);
    let r5 = literal(s, p4, Token::Equals);
    if let Status::Failure(e) = r5.status {
        return Progress::failure(r5.point, e);
    }
    let p6 = opt_ws(pm, s, r5.point);
    let r7 = typ(pm, s, p6);
    let defn = match r7.status {
        Status::Failure(e) => return Progress::failure(r7.point, e),
        Status::Success(v) => v,
    };
    let p8 = opt_ws(pm, s, r7.point);
    let r9 = literal(s, p8, Token::Semicolon);
    if let Status::Failure(e) = r9.status {
        return Progress::failure(r9.point, e);
    }
    Progress::success(r9.point, TopLevel::TypeAlias(TypeAlias { extent: ex(pos, r9.point), name, defn }))
}

/// Whitespace as a top-level item.
#[verifier::opaque]
pub open spec fn spec_whitespace_item(s: Seq<u8>, pos: int, f: Failures) -> (Progress<int, TopLevelModel>, Failures) {
    let (r, g) = spec_whitespace(s, pos, f);
    match r.status {
        Status::Failure(e) => (fail(r.point, e), g),
        Status::Success(v) => (ok(r.point, TopLevelModel::Whitespace(v)), g),
    }
}

pub fn whitespace_item(pm: &mut Master, s: &[u8], pos: usize) -> (r: Progress<usize, TopLevel>)
    requires
        pos <= s@.len(),
    ensures
        (r@, final(pm)@) == spec_whitespace_item(s@, pos as int, old(pm)@),
        pos <= r.point <= s@.len(),
        stays_within(old(pm)@, final(pm)@, s@.len() as int),
        keeps(old(pm)@, final(pm)@),
        r.is_success() ==> r.point > pos,
        spans(r@, pos as int, r.point as int),
        r.is_success() ==> item_ok(r@.value(), s@.len() as int),
{
    proof {
        reveal(spec_whitespace_item);
    }
    let r = whitespace(pm, s, pos);
    match r.status {
        Status::Failure(e) => Progress::failure(r.point, e),
        Status::Success(v) => Progress::success(r.point, TopLevel::Whitespace(v)),
    }
}

/// One top-level item. The kinds are tried in turn: a comment, a function,
/// an enum, a trait, an impl, an attribute, `extern crate`, a type alias and
/// whitespace. Each alternative that fails is noted once the next one has
/// run; the failure of the last is the result.
#[verifier::opaque]
pub open spec fn spec_top_level(s: Seq<u8>, pos: int, f: Failures) -> (Progress<int, TopLevelModel>, Failures) {
    let r1 = spec_comment(s, pos);
    if r1.is_success() {
        (r1, f)
    } else {
        let (r2, g2) = spec_function(s, pos, f);
        let f2 = note(g2, r1);
        if r2.is_success() {
            (r2, f2)
        } else {
            let (r3, g3) = spec_p_enum(s, pos, f2);
            let f3 = note(g3, r2);
            if r3.is_success() {
                (r3, f3)
            } else {
                spec_top_level_rest(s, pos, r3, f3)
            }
        }
    }
}

/// The alternatives of a top-level item after an enum has failed with `r3`.
#[verifier::opaque]
pub open spec fn spec_top_level_rest(s: Seq<u8>, pos: int, r3: Progress<int, TopLevelModel>, f3: Failures) -> (Progress<int, TopLevelModel>, Failures) {
    let (r4, g4) = spec_p_trait(s, pos, f3);
    let f4 = note(g4, r3);
    if r4.is_success() {
        (r4, f4)
    } else {
        let (r5, g5) = spec_p_impl(s, pos, f4);
        let f5 = note(g5, r4);
        if r5.is_success() {
            (r5, f5)
        } else {
            let r6 = spec_attribute(s, pos);
            let f6 = note(f5, r5);
            if r6.is_success() {
                (r6, f6)
            } else {
                let (r7, g7) = spec_extern_crate(s, pos, f6);
                let f7 = note(g7, r6);
                if r7.is_success() {
                    (r7, f7)
                } else {
                    let (r8, g8) = spec_type_alias(s, pos, f7);
                    let f8 = note(g8, r7);
                    if r8.is_success() {
                        (r8, f8)
                    } else {
                        let (r9, g9) = spec_whitespace_item(s, pos, f8);
                        (r9, note(g9, r8))
                    }
                }
            }
        }
    }
}

/// Parses one top-level item at `pos`.
///
/// Where `//` at `pos` is directly followed by a newline or the end of the
/// text, the comment would be empty, which the extents do not allow; such a
/// position is left out.
pub fn top_level(pm: &mut Master, s: &[u8], pos: usize) -> (r: Progress<usize, TopLevel>)
    requires
        pos <= s@.len(),
        !empty_comment_at(s@, pos as int),
    ensures
        (r@, final(pm)@) == spec_top_level(s@, pos as int, old(pm)@),
        pos <= r.point <= s@.len(),
        stays_within(old(pm)@, final(pm)@, s@.len() as int),
        keeps(old(pm)@, final(pm)@),
        r.is_success() ==> r.point > pos,
        spans(r@, pos as int, r.point as int),
        r.is_success() ==> item_ok(r@.value(), s@.len() as int),
{
    proof {
        reveal(spec_top_level);
        reveal(spec_top_level_rest);
    }
    let r1 = comment(s, pos);
    if let Status::Success(_) = r1.status {
        return r1;
    }
    let r2 = function(pm, s, pos);
    pm.consume(&r1);
    if let Status::Success(_) = r2.status {
        return r2;
    }
    let r3 = p_enum(pm, s, pos);
    pm.consume(&r2);
    if let Status::Success(_) = r3.status {
        return r3;
    }
    let r4 = p_trait(pm, s, pos);
    pm.consume(&r3);
    if let Status::Success(_) = r4.status {
        return r4;
    }
    let r5 = p_impl(pm, s, pos);
    pm.consume(&r4);
    if let Status::Success(_) = r5.status {
        return r5;
    }
    let r6 = attribute(s, pos);
    pm.consume(&r5);
    if let Status::Success(_) = r6.status {
        return r6;
    }
    let r7 = extern_crate(pm, s, pos);
    pm.consume(&r6);
    if let Status::Success(_) = r7.status {
        return r7;
    }
    let r8 = type_alias(pm, s, pos);
    pm.consume(&r7);
    if let Status::Success(_) = r8.status {
        return r8;
    }
    let r9 = whitespace_item(pm, s, pos);
    pm.consume(&r8);
    r9
}

} // verus!
