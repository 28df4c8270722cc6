//! The smallest parsers: fixed tokens, scanning to a delimiter, identifiers
//! and whitespace.

use vstd::prelude::*;
use crate::ast::{ex, Extent, span};
use crate::progress::{keeps, stays_within, Progress, Status, Failures, Master, ok, fail, add_failure, note};
use crate::token::{Token, ParseError, token_bytes};

verus! {

/// `s` holds the bytes `b` starting at `pos`.
pub open spec fn starts_with_at(s: Seq<u8>, pos: int, b: Seq<u8>) -> bool {
    &&& 0 <= pos
    &&& pos + b.len() <= s.len()
    &&& s.subrange(pos, pos + b.len()) == b
}

/// A token: succeeds past it where the text holds it, and otherwise fails at
/// `pos` naming the token.
pub open spec fn spec_literal(s: Seq<u8>, pos: int, t: Token) -> Progress<int, ()> {
    if starts_with_at(s, pos, token_bytes(t)) {
        ok(pos + token_bytes(t).len(), ())
    } else {
        fail(pos, ParseError::Literal(t))
    }
}

/// Every token has at least one byte.
pub proof fn lemma_token_nonempty(t: Token)
    ensures
        token_bytes(t).len() > 0,
{
}

/// Matches a token at `pos`.
pub fn literal(s: &[u8], pos: usize, t: Token) -> (r: Progress<usize, ()>)
    requires
        pos <= s@.len(),
    ensures
        r@ == spec_literal(s@, pos as int, t),
        r.is_success() ==> r.point > pos,
{
    let b = t.text().as_bytes();
    let n = b.len();
    if n > s.len() - pos {
        return Progress::failure(pos, ParseError::Literal(t));
    }
    let mut i: usize = 0;
    while i < n
        invariant
            b@ == token_bytes(t),
            n == b@.len(),
            pos + n <= s@.len(),
            s@.len() <= usize::MAX,
            i <= n,
            forall|j: int| 0 <= j < i ==> s@[pos + j] == b@[j],
        decreases n - i,
    {
        if s[pos + i] != b[i] {
            assert(s@.subrange(pos as int, pos + n)[i as int] != b@[i as int]);
            return Progress::failure(pos, ParseError::Literal(t));
        }
        i += 1;
    }
    assert(s@.subrange(pos as int, pos + n) =~= b@);
    proof {
        lemma_token_nonempty(t);
    }
    Progress::success(pos + n, ())
}

/// The bytes at which a scan stops.
#[derive(Debug, Clone, Copy)]
pub enum Stop {
    Newline,
    RightParen,
    RightBracket,
    /// Any byte that ends an identifier.
    IdentEnd,
}

/// The bytes that end an identifier: `! ( ) space < > { } : , ; /`.
pub open spec fn ends_ident(b: u8) -> bool {
    ||| b == '!' as u8
    ||| b == '(' as u8
    ||| b == ')' as u8
    ||| b == ' ' as u8
    ||| b == '<' as u8
    ||| b == '>' as u8
    ||| b == '{' as u8
    ||| b == '}' as u8
    ||| b == ':' as u8
    ||| b == ',' as u8
    ||| b == ';' as u8
    ||| b == '/' as u8
}

pub open spec fn stops_at(stop: Stop, b: u8) -> bool {
    match stop {
        Stop::Newline => b == '\n' as u8,
        Stop::RightParen => b == ')' as u8,
        Stop::RightBracket => b == ']' as u8,
        Stop::IdentEnd => ends_ident(b),
    }
}

/// The first position from `pos` on whose byte stops the scan, or the end
/// of the text if there is none.
pub open spec fn spec_find(s: Seq<u8>, pos: int, stop: Stop) -> int
    decreases s.len() - pos,
{
    if pos < 0 || pos >= s.len() {
        s.len() as int
    } else if stops_at(stop, s[pos]) {
        pos
    } else {
        spec_find(s, pos + 1, stop)
    }
}

/// What the scan finds: no stopping byte before it, and a stopping byte at
/// it unless it is the end of the text.
pub proof fn lemma_find(s: Seq<u8>, pos: int, stop: Stop)
    requires
        0 <= pos <= s.len(),
    ensures
        pos <= spec_find(s, pos, stop) <= s.len(),
        forall|i: int| pos <= i < spec_find(s, pos, stop) ==> !stops_at(stop, #[trigger] s[i]),
        spec_find(s, pos, stop) < s.len() ==> stops_at(stop, s[spec_find(s, pos, stop)]),
    decreases s.len() - pos,
{
    if pos < s.len() && !stops_at(stop, s[pos]) {
        lemma_find(s, pos + 1, stop);
    }
}

fn stops_at_exec(stop: Stop, b: u8) -> (r: bool)
    ensures
        r == stops_at(stop, b),
{
    match stop {
        Stop::Newline => b == 10,
        Stop::RightParen => b == 41,
        Stop::RightBracket => b == 93,
        Stop::IdentEnd => {
            b == 33 || b == 40 || b == 41 || b == 32 || b == 60 || b == 62 || b == 123 || b
                == 125 || b == 58 || b == 44 || b == 59 || b == 47
        },
    }
}

/// Scans from `pos` to the first byte that stops the scan, or to the end.
pub fn parse_until(s: &[u8], pos: usize, stop: Stop) -> (r: usize)
    requires
        pos <= s@.len(),
    ensures
        r == spec_find(s@, pos as int, stop),
        pos <= r <= s@.len(),
{
    let mut i: usize = pos;
    while i < s.len()
        invariant
            pos <= i <= s@.len(),
            spec_find(s@, i as int, stop) == spec_find(s@, pos as int, stop),
        ensures
            spec_find(s@, i as int, stop) == i,
        decreases s@.len() - i,
    {
        if stops_at_exec(stop, s[i]) {
            break;
        }
        i += 1;
    }
    proof {
        lemma_find(s@, pos as int, stop);
    }
    i
}

/// An identifier: everything up to the next byte that ends one, which must
/// be at least one byte.
pub open spec fn spec_ident(s: Seq<u8>, pos: int) -> Progress<int, Extent> {
    let end = spec_find(s, pos, Stop::IdentEnd);
    if end <= pos {
        fail(end, ParseError::IdentNotFound)
    } else {
        ok(end, span(pos, end))
    }
}

pub fn ident(s: &[u8], pos: usize) -> (r: Progress<usize, Extent>)
    requires
        pos <= s@.len(),
    ensures
        r@ == spec_ident(s@, pos as int),
        pos <= r.point <= s@.len(),
        r.is_success() ==> r.point > pos && r.value() == (pos, r.point),
{
    let end = parse_until(s, pos, Stop::IdentEnd);
    if end <= pos {
        Progress::failure(end, ParseError::IdentNotFound)
    } else {
        Progress::success(end, (pos, end))
    }
}

/// A token that may be absent: the position after it, or `pos` where it is
/// not there.
pub open spec fn spec_opt_literal(s: Seq<u8>, pos: int, t: Token) -> int {
    let r = spec_literal(s, pos, t);
    if r.is_success() {
        r.point
    } else {
        pos
    }
}

pub fn opt_literal(s: &[u8], pos: usize, t: Token) -> (r: usize)
    requires
        pos <= s@.len(),
    ensures
        r == spec_opt_literal(s@, pos as int, t),
        pos <= r <= s@.len(),
{
    let l = literal(s, pos, t);
    if let Status::Success(_) = l.status {
        l.point
    } else {
        pos
    }
}

/// One whitespace byte, tried as a space, a tab, a carriage return and a
/// newline in turn; each alternative that fails is noted once the next one
/// has run.
#[verifier::opaque]
pub open spec fn spec_ws_char(s: Seq<u8>, pos: int, f: Failures) -> (Progress<int, ()>, Failures) {
    let r1 = spec_literal(s, pos, Token::Space);
    if r1.is_success() {
        (r1, f)
    } else {
        let r2 = spec_literal(s, pos, Token::Tab);
        let f2 = note(f, r1);
        if r2.is_success() {
            (r2, f2)
        } else {
            let r3 = spec_literal(s, pos, Token::CarriageReturn);
            let f3 = note(f2, r2);
            if r3.is_success() {
                (r3, f3)
            } else {
                let r4 = spec_literal(s, pos, Token::Newline);
                (r4, note(f3, r3))
            }
        }
    }
}

pub fn ws_char(pm: &mut Master, s: &[u8], pos: usize) -> (r: Progress<usize, ()>)
    requires
        pos <= s@.len(),
    ensures
        (r@, final(pm)@) == spec_ws_char(s@, pos as int, old(pm)@),
        pos <= r.point <= s@.len(),
        stays_within(old(pm)@, final(pm)@, s@.len() as int),
        keeps(old(pm)@, final(pm)@),
        r.is_success() ==> r.point > pos,
{
    proof {
        reveal(spec_ws_char);
    }
    let r1 = literal(s, pos, Token::Space);
    if let Status::Success(_) = r1.status {
        return r1;
    }
    let r2 = literal(s, pos, Token::Tab);
    pm.consume(&r1);
    if let Status::Success(_) = r2.status {
        return r2;
    }
    let r3 = literal(s, pos, Token::CarriageReturn);
    pm.consume(&r2);
    if let Status::Success(_) = r3.status {
        return r3;
    }
    let r4 = literal(s, pos, Token::Newline);
    pm.consume(&r3);
    r4
}

/// Whitespace bytes, as many as there are; the failure that ends the run is
/// noted. Gives the position after the run.
pub open spec fn spec_ws_chars(s: Seq<u8>, pos: int, f: Failures) -> (int, Failures)
    decreases s.len() - pos,
{
    let (r, f1) = spec_ws_char(s, pos, f);
    match r.status {
        Status::Success(_) => if pos < r.point <= s.len() {
            spec_ws_chars(s, r.point, f1)
        } else {
            (pos, f1)
        },
        Status::Failure(e) => (pos, add_failure(f1, r.point, e)),
    }
}

pub fn ws_chars(pm: &mut Master, s: &[u8], pos: usize) -> (r: usize)
    requires
        pos <= s@.len(),
    ensures
        (r as int, final(pm)@) == spec_ws_chars(s@, pos as int, old(pm)@),
        pos <= r <= s@.len(),
        stays_within(old(pm)@, final(pm)@, s@.len() as int),
        keeps(old(pm)@, final(pm)@),
{
    let mut cur: usize = pos;
    loop
        invariant
            pos <= cur <= s@.len(),
            stays_within(old(pm)@, pm@, s@.len() as int),
            keeps(old(pm)@, pm@),
            spec_ws_chars(s@, cur as int, pm@) == spec_ws_chars(s@, pos as int, old(pm)@),
        decreases s@.len() - cur,
    {
        let r = ws_char(pm, s, cur);
        match r.status {
            Status::Success(_) => {
                cur = r.point;
            },
            Status::Failure(e) => {
                pm.add(r.point, e);
                return cur;
            },
        }
    }
}

/// Whitespace: at least one whitespace byte, then as many more as follow.
#[verifier::opaque]
pub open spec fn spec_whitespace(s: Seq<u8>, pos: int, f: Failures) -> (Progress<int, Extent>, Failures) {
    let (r1, f1) = spec_ws_char(s, pos, f);
    match r1.status {
        Status::Failure(e) => (fail(r1.point, e), f1),
        Status::Success(_) => {
            let (end, f2) = spec_ws_chars(s, r1.point, f1);
            (ok(end, span(pos, end)), f2)
        },
    }
}

pub fn whitespace(pm: &mut Master, s: &[u8], pos: usize) -> (r: Progress<usize, Extent>)
    requires
        pos <= s@.len(),
    ensures
        (r@, final(pm)@) == spec_whitespace(s@, pos as int, old(pm)@),
        pos <= r.point <= s@.len(),
        stays_within(old(pm)@, final(pm)@, s@.len() as int),
        keeps(old(pm)@, final(pm)@),
        r.is_success() ==> r.point > pos && r.value() == (pos, r.point),
{
    proof {
        reveal(spec_whitespace);
    }
    let r1 = ws_char(pm, s, pos);
    match r1.status {
        Status::Failure(e) => Progress::failure(r1.point, e),
        Status::Success(_) => {
            let end = ws_chars(pm, s, r1.point);
            Progress::success(end, ex(pos, end))
        },
    }
}

/// Whitespace that may be absent: the position after it, or `pos`. A failed
/// attempt is not noted as a whole, though the failures noted inside it stay.
#[verifier::opaque]
pub open spec fn spec_opt_ws(s: Seq<u8>, pos: int, f: Failures) -> (int, Failures) {
    let (r, f1) = spec_whitespace(s, pos, f);
    if r.is_success() {
        (r.point, f1)
    } else {
        (pos, f1)
    }
}

pub fn opt_ws(pm: &mut Master, s: &[u8], pos: usize) -> (r: usize)
    requires
        pos <= s@.len(),
    ensures
        (r as int, final(pm)@) == spec_opt_ws(s@, pos as int, old(pm)@),
        pos <= r <= s@.len(),
        stays_within(old(pm)@, final(pm)@, s@.len() as int),
        keeps(old(pm)@, final(pm)@),
{
    proof {
        reveal(spec_opt_ws);
    }
    let w = whitespace(pm, s, pos);
    if let Status::Success(_) = w.status {
        w.point
    } else {
        pos
    }
}

/// The whitespace bytes: space, tab, carriage return and newline.
pub open spec fn is_ws_byte(b: u8) -> bool {
    b == ' ' as u8 || b == '\t' as u8 || b == '\r' as u8 || b == '\n' as u8
}

/// A single-byte token matches exactly where the text holds its byte.
pub proof fn lemma_single_byte_literal(s: Seq<u8>, pos: int, t: Token)
    requires
        0 <= pos <= s.len(),
        token_bytes(t).len() == 1,
    ensures
        spec_literal(s, pos, t).is_success() <==> (pos < s.len() && s[pos] == token_bytes(t)[0]),
        spec_literal(s, pos, t).is_success() ==> spec_literal(s, pos, t).point == pos + 1,
{
    if pos < s.len() && s[pos] == token_bytes(t)[0] {
        assert(s.subrange(pos, pos + 1) =~= token_bytes(t));
    }
    if spec_literal(s, pos, t).is_success() {
        assert(s.subrange(pos, pos + 1)[0] == s[pos]);
    }
}

/// One whitespace byte is matched exactly where the text holds one, and the
/// match is that byte.
pub proof fn lemma_ws_char(s: Seq<u8>, pos: int, f: Failures)
    requires
        0 <= pos <= s.len(),
    ensures
        spec_ws_char(s, pos, f).0.is_success() <==> (pos < s.len() && is_ws_byte(s[pos])),
        spec_ws_char(s, pos, f).0.is_success() ==> spec_ws_char(s, pos, f).0.point == pos + 1,
{
    reveal(spec_ws_char);
    lemma_single_byte_literal(s, pos, Token::Space);
    lemma_single_byte_literal(s, pos, Token::Tab);
    lemma_single_byte_literal(s, pos, Token::CarriageReturn);
    lemma_single_byte_literal(s, pos, Token::Newline);
}

/// A run of whitespace bytes ends at the first byte that is not whitespace.
pub proof fn lemma_ws_chars(s: Seq<u8>, pos: int, f: Failures)
    requires
        0 <= pos <= s.len(),
    ensures
        pos <= spec_ws_chars(s, pos, f).0 <= s.len(),
        forall|i: int| pos <= i < spec_ws_chars(s, pos, f).0 ==> is_ws_byte(#[trigger] s[i]),
        spec_ws_chars(s, pos, f).0 < s.len() ==> !is_ws_byte(s[spec_ws_chars(s, pos, f).0]),
    decreases s.len() - pos,
{
    lemma_ws_char(s, pos, f);
    let (r, f1) = spec_ws_char(s, pos, f);
    if r.is_success() {
        lemma_ws_chars(s, pos + 1, f1);
    }
}

/// Whitespace succeeds exactly where the text holds a whitespace byte, and
/// then takes every whitespace byte up to the first other one.
pub proof fn lemma_whitespace(s: Seq<u8>, pos: int, f: Failures)
    requires
        0 <= pos <= s.len(),
    ensures
        ({
            let r = spec_whitespace(s, pos, f).0;
            &&& r.is_success() <==> (pos < s.len() && is_ws_byte(s[pos]))
            &&& r.is_success() ==> {
                &&& pos < r.point <= s.len()
                &&& forall|i: int| pos <= i < r.point ==> is_ws_byte(#[trigger] s[i])
                &&& r.point < s.len() ==> !is_ws_byte(s[r.point])
            }
        }),
{
    reveal(spec_whitespace);
    lemma_ws_char(s, pos, f);
    let (r1, f1) = spec_ws_char(s, pos, f);
    if r1.is_success() {
        lemma_ws_chars(s, pos + 1, f1);
    }
}

/// An identifier succeeds exactly where the text holds a byte that does not
/// end one, and then takes every byte up to the first that does.
pub proof fn lemma_ident(s: Seq<u8>, pos: int)
    requires
        0 <= pos <= s.len(),
    ensures
        ({
            let r = spec_ident(s, pos);
            &&& r.is_success() <==> (pos < s.len() && !ends_ident(s[pos]))
            &&& r.is_success() ==> {
                &&& r.value() == span(pos, r.point)
                &&& pos < r.point <= s.len()
                &&& forall|i: int| pos <= i < r.point ==> !ends_ident(#[trigger] s[i])
                &&& r.point < s.len() ==> ends_ident(s[r.point])
            }
            &&& r.is_failure() ==> r.point == pos && r.error() == ParseError::IdentNotFound
        }),
{
    lemma_find(s, pos, Stop::IdentEnd);
}

/// The bytes from `a` to `b` are whitespace, and `b` is where that run of
/// whitespace ends: the end of the text or a byte that is not whitespace.
pub open spec fn blank_run(s: Seq<u8>, a: int, b: int) -> bool {
    &&& 0 <= a <= b <= s.len()
    &&& forall|i: int| a <= i < b ==> is_ws_byte(#[trigger] s[i])
    &&& b < s.len() ==> !is_ws_byte(s[b])
}

/// The bytes from `i` to `j` form one word: at least one byte, none of them
/// ending an identifier, and `j` is the end of the text or a byte that ends
/// one.
pub open spec fn word(s: Seq<u8>, i: int, j: int) -> bool {
    &&& 0 <= i < j <= s.len()
    &&& forall|k: int| i <= k < j ==> !ends_ident(#[trigger] s[k])
    &&& j < s.len() ==> ends_ident(s[j])
}

/// Optional whitespace takes exactly the run of whitespace that starts at
/// `a`.
pub proof fn lemma_opt_ws_run(s: Seq<u8>, a: int, b: int, f: Failures)
    requires
        blank_run(s, a, b),
    ensures
        spec_opt_ws(s, a, f).0 == b,
{
    reveal(spec_opt_ws);
    lemma_whitespace(s, a, f);
    let r = spec_whitespace(s, a, f).0;
    if r.is_success() {
        if r.point < b {
            assert(is_ws_byte(s[r.point]));
        }
        if r.point > b {
            assert(is_ws_byte(s[b]));
        }
    } else {
        if a < b {
            assert(is_ws_byte(s[a]));
        }
    }
}

/// An identifier takes exactly the word that starts at `i`.
pub proof fn lemma_word_ident(s: Seq<u8>, i: int, j: int)
    requires
        word(s, i, j),
    ensures
        spec_ident(s, i) == ok(j, span(i, j)),
{
    lemma_ident(s, i);
    let r = spec_ident(s, i);
    assert(!ends_ident(s[i]));
    if r.point < j {
        assert(!ends_ident(s[r.point]));
    }
    if r.point > j {
        assert(!ends_ident(s[j]));
    }
}

/// One whitespace byte comes out the same whatever failures were noted
/// before.
pub proof fn lemma_ws_char_free(s: Seq<u8>, pos: int, f: Failures, g: Failures)
    ensures
        spec_ws_char(s, pos, f).0 == spec_ws_char(s, pos, g).0,
{
    reveal(spec_ws_char);
}

/// A run of whitespace ends at the same point whatever failures were noted
/// before.
pub proof fn lemma_ws_chars_free(s: Seq<u8>, pos: int, f: Failures, g: Failures)
    ensures
        spec_ws_chars(s, pos, f).0 == spec_ws_chars(s, pos, g).0,
    decreases s.len() - pos,
{
    lemma_ws_char_free(s, pos, f, g);
    let (r, f1) = spec_ws_char(s, pos, f);
    let (_, g1) = spec_ws_char(s, pos, g);
    if r.is_success() && pos < r.point <= s.len() {
        lemma_ws_chars_free(s, r.point, f1, g1);
    }
}

/// Whitespace comes out the same whatever failures were noted before.
pub proof fn lemma_whitespace_free(s: Seq<u8>, pos: int, f: Failures, g: Failures)
    ensures
        spec_whitespace(s, pos, f).0 == spec_whitespace(s, pos, g).0,
{
    reveal(spec_whitespace);
    lemma_ws_char_free(s, pos, f, g);
    let (r1, f1) = spec_ws_char(s, pos, f);
    let (_, g1) = spec_ws_char(s, pos, g);
    if r1.is_success() {
        lemma_ws_chars_free(s, r1.point, f1, g1);
    }
}

/// Optional whitespace ends at the same point whatever failures were noted
/// before.
pub proof fn lemma_opt_ws_free(s: Seq<u8>, pos: int, f: Failures, g: Failures)
    ensures
        spec_opt_ws(s, pos, f).0 == spec_opt_ws(s, pos, g).0,
{
    reveal(spec_opt_ws);
    lemma_whitespace_free(s, pos, f, g);
}

/// A token matches only where the text holds its first byte.
pub proof fn lemma_literal_first_byte(s: Seq<u8>, pos: int, t: Token)
    ensures
        spec_literal(s, pos, t).is_success() ==> 0 <= pos < s.len() && s[pos] == token_bytes(t)[0],
{
    lemma_token_nonempty(t);
    if spec_literal(s, pos, t).is_success() {
        assert(s.subrange(pos, pos + token_bytes(t).len())[0] == s[pos]);
    }
}

/// Optional whitespace ends within the text, at or after where it starts.
pub proof fn lemma_opt_ws_bounds(s: Seq<u8>, pos: int, f: Failures)
    requires
        0 <= pos <= s.len(),
    ensures
        pos <= spec_opt_ws(s, pos, f).0 <= s.len(),
{
    reveal(spec_opt_ws);
    lemma_whitespace(s, pos, f);
}

} // verus!
