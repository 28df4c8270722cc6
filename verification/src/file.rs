//! Parsing a whole source text as a sequence of top-level items.

use vstd::prelude::*;
use vstd::string::StringSliceAdditionalSpecFns;
use crate::ast::{item_ok, TopLevel, TopLevelModel, models, lemma_models_push};
use crate::items::{empty_comment_at, item_end, item_start, spec_top_level, top_level};
use crate::lexical::{Stop, parse_until, literal};
use crate::progress::{add_failure, Failures, Finished, Master, FinishedModel, Status, no_failures, spec_finish};
use crate::token::{ParseError, Token, token_bytes};
use crate::types::advanced;

verus! {

/// How parsing the items of a text ended.
#[derive(Debug)]
pub enum FileEnd {
    /// Every byte was parsed as part of an item.
    Complete,
    /// No item could be parsed at some point; `point` is the furthest point
    /// at which a failure was noted and `errors` are the failures noted there.
    Failed { point: usize, errors: Vec<ParseError> },
    /// An item starts with `//` directly followed by a newline or the end of
    /// the text; such an empty comment has no extent. `offset` is the
    /// position just after the `//`.
    EmptyComment { offset: usize },
}

/// The items of a text and how parsing them ended.
#[derive(Debug)]
pub struct ParsedFile {
    pub items: Vec<TopLevel>,
    pub end: FileEnd,
}

/// How parsing the items of a text ended, in the model. `NoProgress` stands
/// for an item that succeeds without consuming anything, after which the
/// parse could not go on; it never happens.
pub enum FileEndModel {
    Complete,
    Failed { point: int, errors: Seq<ParseError> },
    EmptyComment { offset: int },
    NoProgress { point: int },
}

impl View for FileEnd {
    type V = FileEndModel;

    open spec fn view(&self) -> FileEndModel {
        match self {
            FileEnd::Complete => FileEndModel::Complete,
            FileEnd::Failed { point, errors } => FileEndModel::Failed {
                point: *point as int,
                errors: errors@,
            },
            FileEnd::EmptyComment { offset } => FileEndModel::EmptyComment { offset: *offset as int },
        }
    }
}

/// Where the item after `items` begins: the end of the last one, or the
/// start of the text.
pub open spec fn next_start(items: Seq<TopLevelModel>) -> int {
    if items.len() == 0 {
        0
    } else {
        item_end(items.last())
    }
}

/// The items follow one another from the start of the text without gap or
/// overlap, and none is empty.
pub open spec fn tiles(items: Seq<TopLevelModel>) -> bool {
    &&& items.len() > 0 ==> item_start(items[0]) == 0
    &&& forall|i: int| 0 <= i < items.len() ==> item_start(#[trigger] items[i]) < item_end(items[i])
    &&& forall|i: int|
        #![trigger items[i], items[i + 1]]
        0 <= i < items.len() - 1 ==> item_end(items[i]) == item_start(items[i + 1])
}

/// Adding an item that starts where the others end keeps them tiling.
pub proof fn lemma_tiles_push(items: Seq<TopLevelModel>, t: TopLevelModel)
    requires
        tiles(items),
        item_start(t) == next_start(items),
        item_start(t) < item_end(t),
    ensures
        tiles(items.push(t)),
        next_start(items.push(t)) == item_end(t),
{
    let n = items.push(t);
    assert forall|i: int|
        #![trigger n[i], n[i + 1]]
        0 <= i < n.len() - 1 implies item_end(n[i]) == item_start(n[i + 1]) by {
        if i < items.len() - 1 {
            assert(n[i] == items[i] && n[i + 1] == items[i + 1]);
        } else {
            assert(n[i] == items.last() && n[i + 1] == t);
        }
    }
    assert forall|i: int| 0 <= i < n.len() implies item_start(#[trigger] n[i]) < item_end(n[i]) by {
        if i < items.len() {
            assert(n[i] == items[i]);
        }
    }
}

/// The items from `pos` on, parsed one after the other with the record of
/// failures `f` carried from one to the next: each item is finished on its
/// own, and parsing stops at the end of the text, at the first item that
/// fails, or at an empty comment.
pub open spec fn spec_parse_items(s: Seq<u8>, pos: int, f: Failures) -> (Seq<TopLevelModel>, FileEndModel)
    decreases s.len() - pos,
{
    if empty_comment_at(s, pos) {
        (seq![], FileEndModel::EmptyComment { offset: pos + 2 })
    } else {
        let (r, f1) = spec_top_level(s, pos, f);
        let (done, f2) = spec_finish(f1, r);
        match done {
            FinishedModel::Failed { point, errors } => (seq![], FileEndModel::Failed { point, errors }),
            FinishedModel::Parsed { point, value } => if !advanced(s, pos, point) {
                (seq![value], FileEndModel::NoProgress { point })
            } else if point == s.len() {
                (seq![value], FileEndModel::Complete)
            } else {
                let (items, end) = spec_parse_items(s, point, f2);
                (seq![value] + items, end)
            },
        }
    }
}

/// The position and the record of failures before the `i`-th top-level parse
/// of a chain that starts at `pos` with the record `f`: each parse starts
/// where the one before it ended, with the record it left.
pub open spec fn chain(s: Seq<u8>, pos: int, f: Failures, i: nat) -> (int, Failures)
    decreases i,
{
    if i == 0 {
        (pos, f)
    } else {
        let (p, g) = chain(s, pos, f, (i - 1) as nat);
        let (r, g1) = spec_top_level(s, p, g);
        (r.point, g1)
    }
}

/// A chain seen from its second link is the chain that starts where the
/// first parse ended.
pub proof fn lemma_chain_shift(s: Seq<u8>, pos: int, f: Failures, i: nat)
    ensures
        chain(s, pos, f, i + 1) == ({
            let (r, f1) = spec_top_level(s, pos, f);
            chain(s, r.point, f1, i)
        }),
    decreases i,
{
    let (r, f1) = spec_top_level(s, pos, f);
    assert(((i + 1) - 1) as nat == i);
    if i == 0 {
        assert(chain(s, pos, f, 0) == (pos, f));
        assert(chain(s, pos, f, 1) == (r.point, f1));
        assert(chain(s, r.point, f1, 0) == (r.point, f1));
    } else {
        let j = (i - 1) as nat;
        lemma_chain_shift(s, pos, f, j);
        assert(j + 1 == i);
        assert(chain(s, pos, f, i) == chain(s, r.point, f1, j));
        let (p, g) = chain(s, pos, f, i);
        let (r2, g2) = spec_top_level(s, p, g);
        assert(chain(s, pos, f, i + 1) == (r2.point, g2));
        assert(chain(s, r.point, f1, i) == (r2.point, g2));
    }
}

/// The `i`-th link of a chain: no empty comment starts where it starts, and
/// `top_level` succeeds there with `item`, ending where the next link starts.
pub open spec fn chain_link(s: Seq<u8>, pos: int, f: Failures, i: nat, item: TopLevelModel) -> bool {
    let (p, g) = chain(s, pos, f, i);
    let r = spec_top_level(s, p, g).0;
    &&& !empty_comment_at(s, p)
    &&& r.is_success()
    &&& r.value() == item
    &&& chain(s, pos, f, i + 1).0 == r.point
}

/// How a chain of `n` links ends: the text ends there, an empty comment
/// starts there, or `top_level` fails there, before the end of the text
/// unless no item was parsed, and the record's furthest failures, once that
/// failure is noted, are reported.
pub open spec fn chain_end(s: Seq<u8>, pos: int, f: Failures, n: nat, end: FileEndModel) -> bool {
    let (p, g) = chain(s, pos, f, n);
    let (r, g1) = spec_top_level(s, p, g);
    let h = add_failure(g1, r.point, r.error());
    &&& end is Complete ==> n > 0 && p == s.len()
    &&& end is EmptyComment ==> empty_comment_at(s, p) && end->offset == p + 2
    &&& end is Failed ==> {
        &&& n > 0 ==> p < s.len()
        &&& !empty_comment_at(s, p)
        &&& r.is_failure()
        &&& end->Failed_point == h.point
        &&& end->errors == h.kinds
    }
}

/// The items of a text are the successive successes of `top_level`, each
/// parsed where the one before it ended and with the record it left; every
/// item but the last ends before the end of the text, and the parse then
/// ends as `chain_end` says.
pub proof fn lemma_parse_items_chain(s: Seq<u8>, pos: int, f: Failures)
    requires
        0 <= pos <= s.len(),
    ensures
        forall|i: nat|
            i < spec_parse_items(s, pos, f).0.len() ==> #[trigger] chain_link(
                s,
                pos,
                f,
                i,
                spec_parse_items(s, pos, f).0[i as int],
            ),
        forall|i: nat|
            0 < i < spec_parse_items(s, pos, f).0.len() ==> #[trigger] chain(s, pos, f, i).0 < s.len(),
        chain_end(s, pos, f, spec_parse_items(s, pos, f).0.len(), spec_parse_items(s, pos, f).1),
    decreases s.len() - pos,
{
    let (items, end) = spec_parse_items(s, pos, f);
    assert(chain(s, pos, f, 0) == (pos, f));
    if empty_comment_at(s, pos) {
        assert(items.len() == 0);
    } else {
        let (r, f1) = spec_top_level(s, pos, f);
        assert(chain(s, pos, f, 1) == (r.point, f1));
        if r.is_failure() {
            assert(items.len() == 0);
        } else if !advanced(s, pos, r.point) || r.point == s.len() {
            assert(items =~= seq![r.value()]);
            assert(chain_link(s, pos, f, 0, items[0]));
        } else {
            lemma_parse_items_chain(s, r.point, f1);
            let (rest, end2) = spec_parse_items(s, r.point, f1);
            assert(items =~= seq![r.value()] + rest);
            assert(end == end2);
            assert forall|i: nat| i < items.len() implies #[trigger] chain_link(s, pos, f, i, items[i as int]) by {
                if i == 0 {
                } else {
                    let j = (i - 1) as nat;
                    lemma_chain_shift(s, pos, f, j);
                    lemma_chain_shift(s, pos, f, i);
                    assert(j + 1 == i);
                    assert(items[i as int] == rest[j as int]);
                    assert(chain_link(s, r.point, f1, j, rest[j as int]));
                }
            }
            assert forall|i: nat| 0 < i < items.len() implies #[trigger] chain(s, pos, f, i).0 < s.len() by {
                let j = (i - 1) as nat;
                lemma_chain_shift(s, pos, f, j);
                assert(j + 1 == i);
                if j > 0 {
                    assert(chain(s, r.point, f1, j).0 < s.len());
                }
            }
            lemma_chain_shift(s, pos, f, rest.len());
            assert(items.len() == rest.len() + 1);
        }
    }
}

/// Whether an empty comment starts at `pos`.
pub fn empty_comment_here(s: &[u8], pos: usize) -> (r: bool)
    requires
        pos <= s@.len(),
    ensures
        r == empty_comment_at(s@, pos as int),
{
    let l = literal(s, pos, Token::CommentStart);
    match l.status {
        Status::Failure(_) => false,
        Status::Success(_) => parse_until(s, l.point, Stop::Newline) == l.point,
    }
}

/// Parses the items of a whole text, from its start.
///
/// Every item that is parsed consumes at least one byte, so the parse never
/// stalls; a failure reports at least one error, at a point within the text.
pub fn parse_items(file: &str) -> (r: ParsedFile)
    ensures
        (models(r.items@), r.end@) == spec_parse_items(file.spec_bytes(), 0, no_failures()),
        !(spec_parse_items(file.spec_bytes(), 0, no_failures()).1 is NoProgress),
        r.end is Failed ==> r.end->errors@.len() > 0 && r.end->Failed_point <= file.spec_bytes().len(),
        ({
            let (items, end) = spec_parse_items(file.spec_bytes(), 0, no_failures());
            &&& tiles(items)
            &&& forall|i: int| 0 <= i < items.len() ==> item_ok(#[trigger] items[i], file.spec_bytes().len() as int)
            &&& end is Complete ==> items.len() > 0 && next_start(items) == file.spec_bytes().len()
            &&& end is EmptyComment ==> end->offset == next_start(items) + 2
            &&& end is Failed ==> next_start(items) <= end->Failed_point
        }),
{
    let s = file.as_bytes();
    let n: usize = s.len();
    let mut pm = Master::new();
    let mut pos: usize = 0;
    let mut items: Vec<TopLevel> = Vec::new();
    proof {
        crate::ast::lemma_models_empty::<TopLevel>();
    }
    loop
        invariant
            s@ == file.spec_bytes(),
            n == s@.len(),
            pos <= s@.len(),
            tiles(models(items@)),
            forall|i: int| 0 <= i < items@.len() ==> item_ok(#[trigger] models(items@)[i], s@.len() as int),
            next_start(models(items@)) == pos,
            pm@.point <= s@.len(),
            ({
                let (rest, end) = spec_parse_items(s@, pos as int, pm@);
                (models(items@) + rest, end) == spec_parse_items(s@, 0, no_failures())
            }),
        decreases s@.len() - pos,
    {
        if empty_comment_here(s, pos) {
            assert(token_bytes(Token::CommentStart).len() == 2);
            assert(models(items@) + Seq::<TopLevelModel>::empty() =~= models(items@));
            return ParsedFile { items, end: FileEnd::EmptyComment { offset: pos + 2 } };
        }
        let r = top_level(&mut pm, s, pos);
        match pm.finish(r) {
            Finished::Failed { point, errors } => {
                assert(models(items@) + Seq::<TopLevelModel>::empty() =~= models(items@));
                return ParsedFile { items, end: FileEnd::Failed { point, errors } };
            },
            Finished::Parsed { point, value } => {
                proof {
                    lemma_models_push(items@, value);
                    lemma_tiles_push(models(items@), value@);
                    if point < s@.len() {
                        let (rest, end) = spec_parse_items(s@, point as int, pm@);
                        assert(models(items@).push(value@) + rest =~= models(items@) + (seq![value@] + rest));
                    } else {
                        assert(models(items@).push(value@) =~= models(items@) + seq![value@]);
                    }
                }
                items.push(value);
                pos = point;
                if pos == n {
                    return ParsedFile { items, end: FileEnd::Complete };
                }
            },
        }
    }
}

} // verus!
