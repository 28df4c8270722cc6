use rust_parser::ast::{Argument, ExpressionKind, TopLevel};
use rust_parser::expressions::expression;
use rust_parser::functions::function_header;
use rust_parser::file::{parse_items, FileEnd};
use rust_parser::lexical::{ident, literal, opt_ws, parse_until, whitespace, Stop};
use rust_parser::progress::{Finished, Master, Progress, Status};
use rust_parser::token::{ParseError, Token};

fn item_span(t: &TopLevel) -> (usize, usize) {
    match t {
        TopLevel::Comment(e) => (e.0 - 2, e.1),
        TopLevel::Function(f) => f.extent,
        TopLevel::Enum(e) => e.extent,
        TopLevel::Trait(t) => t.extent,
        TopLevel::Impl(i) => i.extent,
        TopLevel::Attribute(e) => *e,
        TopLevel::ExternCrate(c) => c.extent,
        TopLevel::TypeAlias(t) => t.extent,
        TopLevel::Whitespace(e) => *e,
    }
}

fn assert_tiles(items: &[TopLevel]) {
    let mut next = 0;
    for item in items {
        let (start, end) = item_span(item);
        assert_eq!(start, next);
        assert!(start < end);
        next = end;
    }
}

#[test]
fn literal_matches_only_its_token() {
    let s = "fn main".as_bytes();
    let r = literal(s, 0, Token::Fn);
    assert_eq!(r.point, 2);
    assert!(matches!(r.status, Status::Success(())));
    let r = literal(s, 0, Token::Pub);
    assert_eq!(r.point, 0);
    assert!(matches!(r.status, Status::Failure(ParseError::Literal(Token::Pub))));
    let r = literal("f".as_bytes(), 0, Token::Fn);
    assert!(matches!(r.status, Status::Failure(ParseError::Literal(Token::Fn))));
}

#[test]
fn token_text_is_the_token() {
    assert_eq!(Token::Arrow.text(), "->");
    assert_eq!(Token::EmptyBraces.text(), "{}");
    assert_eq!(Token::Newline.text(), "\n");
}

#[test]
fn ident_runs_to_a_delimiter() {
    let s = "main() {}".as_bytes();
    let r = ident(s, 0);
    assert_eq!(r.point, 4);
    assert!(matches!(r.status, Status::Success((0, 4))));
    let r = ident(s, 4);
    assert_eq!(r.point, 4);
    assert!(matches!(r.status, Status::Failure(ParseError::IdentNotFound)));
}

#[test]
fn ident_does_not_stop_at_a_newline() {
    let r = ident("a\nb c".as_bytes(), 0);
    assert!(matches!(r.status, Status::Success((0, 3))));
}

#[test]
fn parse_until_stops_at_the_byte_or_the_end() {
    let s = "ab)c".as_bytes();
    assert_eq!(parse_until(s, 0, Stop::RightParen), 2);
    assert_eq!(parse_until(s, 3, Stop::RightParen), 4);
    assert_eq!(parse_until(s, 0, Stop::Newline), 4);
}

#[test]
fn whitespace_takes_the_whole_run() {
    let s = " \t\r\nx".as_bytes();
    let mut pm = Master::new();
    let r = whitespace(&mut pm, s, 0);
    assert_eq!(r.point, 4);
    assert!(matches!(r.status, Status::Success((0, 4))));
    let r = whitespace(&mut pm, s, 4);
    assert_eq!(r.point, 4);
    assert!(matches!(r.status, Status::Failure(ParseError::Literal(Token::Newline))));
}

#[test]
fn record_keeps_only_the_furthest_failures() {
    let mut pm = Master::new();
    pm.add(3, ParseError::IdentNotFound);
    pm.add(1, ParseError::Literal(Token::Fn));
    pm.add(3, ParseError::Literal(Token::Pub));
    let done = pm.finish(Progress::<usize, ()>::failure(2, ParseError::Literal(Token::Let)));
    match done {
        Finished::Failed { point, errors } => {
            assert_eq!(point, 3);
            assert_eq!(errors, vec![ParseError::IdentNotFound, ParseError::Literal(Token::Pub)]);
        }
        Finished::Parsed { .. } => panic!("expected a failure"),
    }
    // The record starts afresh after a failure is reported.
    let done = pm.finish(Progress::<usize, ()>::failure(0, ParseError::Literal(Token::Let)));
    match done {
        Finished::Failed { point, errors } => {
            assert_eq!(point, 0);
            assert_eq!(errors, vec![ParseError::Literal(Token::Let)]);
        }
        Finished::Parsed { .. } => panic!("expected a failure"),
    }
}

#[test]
fn success_leaves_the_record_in_place() {
    let mut pm = Master::new();
    pm.add(5, ParseError::IdentNotFound);
    let done = pm.finish(Progress::success(1, 7u8));
    assert!(matches!(done, Finished::Parsed { point: 1, value: 7 }));
    let done = pm.finish(Progress::<usize, ()>::failure(0, ParseError::Literal(Token::Let)));
    match done {
        Finished::Failed { point, errors } => {
            assert_eq!(point, 5);
            assert_eq!(errors, vec![ParseError::IdentNotFound]);
        }
        Finished::Parsed { .. } => panic!("expected a failure"),
    }
}

#[test]
fn absent_whitespace_notes_the_alternatives_tried() {
    let mut pm = Master::new();
    let p = opt_ws(&mut pm, "x".as_bytes(), 0);
    assert_eq!(p, 0);
    let done = pm.finish(Progress::<usize, ()>::failure(0, ParseError::IdentNotFound));
    match done {
        Finished::Failed { point, errors } => {
            assert_eq!(point, 0);
            assert_eq!(
                errors,
                vec![
                    ParseError::Literal(Token::Space),
                    ParseError::Literal(Token::Tab),
                    ParseError::Literal(Token::CarriageReturn),
                    ParseError::IdentNotFound,
                ]
            );
        }
        Finished::Parsed { .. } => panic!("expected a failure"),
    }
}

#[test]
fn macro_call_expression() {
    let mut pm = Master::new();
    let r = expression(&mut pm, "println!(x)".as_bytes(), 0);
    assert_eq!(r.point, 11);
    match r.status {
        Status::Success(e) => {
            assert_eq!(e.extent, (0, 11));
            assert!(matches!(e.kind, ExpressionKind::MacroCall { name: (0, 7), args: (9, 10) }));
        }
        Status::Failure(e) => panic!("unexpected failure {:?}", e),
    }
}

#[test]
fn file_with_a_function() {
    let parsed = parse_items("fn main() {}\n");
    assert!(matches!(parsed.end, FileEnd::Complete));
    assert_eq!(parsed.items.len(), 2);
    match &parsed.items[0] {
        TopLevel::Function(f) => {
            assert_eq!(f.extent, (0, 12));
            assert_eq!(f.header.extent, (0, 10));
            assert_eq!(f.header.name, (3, 7));
            assert!(f.header.arguments.is_empty());
            assert_eq!(f.body.extent, (10, 12));
        }
        other => panic!("unexpected item {:?}", other),
    }
    assert!(matches!(parsed.items[1], TopLevel::Whitespace((12, 13))));
    assert_tiles(&parsed.items);
}

#[test]
fn file_that_fails_reports_the_furthest_failures() {
    let file = "fn (";
    let parsed = parse_items(file);
    assert!(parsed.items.is_empty());
    match parsed.end {
        FileEnd::Failed { point, errors } => {
            assert_eq!(point, 3);
            assert_eq!(
                errors,
                vec![
                    ParseError::Literal(Token::Space),
                    ParseError::Literal(Token::Tab),
                    ParseError::Literal(Token::CarriageReturn),
                    ParseError::Literal(Token::Newline),
                    ParseError::IdentNotFound,
                ]
            );
            assert_eq!(&file[point..], "(");
        }
        other => panic!("unexpected end {:?}", other),
    }
}

#[test]
fn empty_input_fails_at_its_start() {
    let parsed = parse_items("");
    assert!(parsed.items.is_empty());
    match parsed.end {
        FileEnd::Failed { point, errors } => {
            assert_eq!(point, 0);
            assert!(!errors.is_empty());
        }
        other => panic!("unexpected end {:?}", other),
    }
}

#[test]
fn empty_comment_stops_the_parse() {
    let parsed = parse_items("fn a() {}\n//");
    assert_eq!(parsed.items.len(), 2);
    assert!(matches!(parsed.end, FileEnd::EmptyComment { offset: 12 }));
    assert_tiles(&parsed.items);
    let parsed = parse_items("//\nfn a() {}");
    assert!(parsed.items.is_empty());
    assert!(matches!(parsed.end, FileEnd::EmptyComment { offset: 2 }));
}

#[test]
fn comment_extent_leaves_out_the_slashes() {
    let parsed = parse_items("// hi\n");
    assert!(matches!(parsed.end, FileEnd::Complete));
    assert!(matches!(parsed.items[0], TopLevel::Comment((2, 5))));
    assert!(matches!(parsed.items[1], TopLevel::Whitespace((5, 6))));
    assert_tiles(&parsed.items);
}

#[test]
fn impl_with_a_method() {
    let parsed = parse_items("impl Foo for Bar { fn x(&self) -> u8 { loop {} } }");
    assert!(matches!(parsed.end, FileEnd::Complete));
    assert_eq!(parsed.items.len(), 1);
    match &parsed.items[0] {
        TopLevel::Impl(i) => {
            assert_eq!(i.extent, (0, 50));
            assert_eq!(i.trait_name, (5, 8));
            assert_eq!(i.self_type, (13, 16));
            assert_eq!(i.body.len(), 1);
            let m = &i.body[0];
            assert_eq!(m.extent, (19, 48));
            assert_eq!(m.header.extent, (19, 37));
            assert_eq!(m.header.name, (22, 23));
            assert_eq!(m.header.arguments.len(), 1);
            assert!(matches!(m.header.arguments[0], Argument::SelfArgument));
            assert_eq!(m.header.return_type, Some((34, 36)));
            let body = m.body.as_ref().expect("a body");
            assert_eq!(body.extent, (37, 48));
            assert!(body.statements.is_empty());
            let e = body.expression.as_ref().expect("an expression");
            assert_eq!(e.extent, (38, 47));
            match &e.kind {
                ExpressionKind::Loop { body } => {
                    assert_eq!(body.extent, (44, 46));
                    assert!(body.statements.is_empty());
                    assert!(body.expression.is_none());
                }
                other => panic!("unexpected kind {:?}", other),
            }
        }
        other => panic!("unexpected item {:?}", other),
    }
}

#[test]
fn attribute_extern_crate_type_alias_and_trait() {
    let parsed = parse_items("#![feature(x)]\nextern crate mycrate;\ntype A = B;\ntrait T {}\n");
    assert!(matches!(parsed.end, FileEnd::Complete));
    assert_eq!(parsed.items.len(), 8);
    assert!(matches!(parsed.items[0], TopLevel::Attribute((0, 14))));
    match &parsed.items[2] {
        TopLevel::ExternCrate(c) => {
            assert_eq!(c.extent, (15, 36));
            assert_eq!(c.name, (28, 35));
        }
        other => panic!("unexpected item {:?}", other),
    }
    match &parsed.items[4] {
        TopLevel::TypeAlias(t) => {
            assert_eq!(t.extent, (37, 48));
            assert_eq!(t.name, (42, 43));
            assert_eq!(t.defn, (46, 47));
        }
        other => panic!("unexpected item {:?}", other),
    }
    match &parsed.items[6] {
        TopLevel::Trait(t) => {
            assert_eq!(t.extent, (49, 59));
            assert_eq!(t.name, (55, 56));
        }
        other => panic!("unexpected item {:?}", other),
    }
    assert!(matches!(parsed.items[7], TopLevel::Whitespace((59, 60))));
    assert_tiles(&parsed.items);
}

#[test]
fn enum_with_tuple_variants() {
    let parsed = parse_items("enum E { A, B(u8, u16) }");
    assert!(matches!(parsed.end, FileEnd::Complete));
    match &parsed.items[0] {
        TopLevel::Enum(e) => {
            assert_eq!(e.extent, (0, 24));
            assert_eq!(e.name, (5, 6));
            assert_eq!(e.variants.len(), 2);
            assert_eq!(e.variants[0].extent, (9, 10));
            assert!(e.variants[0].body.is_empty());
            assert_eq!(e.variants[1].extent, (12, 22));
            assert_eq!(e.variants[1].name, (12, 13));
            assert_eq!(e.variants[1].body, vec![(14, 16), (18, 21)]);
        }
        other => panic!("unexpected item {:?}", other),
    }
}

#[test]
fn function_with_generics_arguments_and_where() {
    let parsed = parse_items("fn f<T>(x: T) -> T where T: Copy { x }");
    assert!(matches!(parsed.end, FileEnd::Complete));
    match &parsed.items[0] {
        TopLevel::Function(f) => {
            assert_eq!(f.extent, (0, 38));
            assert_eq!(f.header.extent, (0, 32));
            assert_eq!(f.header.generics, vec![(5, 6)]);
            assert_eq!(f.header.arguments.len(), 1);
            assert!(matches!(f.header.arguments[0], Argument::Named { name: (8, 9), typ: (11, 12) }));
            assert_eq!(f.header.return_type, Some((17, 18)));
            assert_eq!(f.header.wheres.len(), 1);
            assert_eq!(f.header.wheres[0].name, (25, 26));
            assert_eq!(f.header.wheres[0].bounds, (28, 32));
            assert_eq!(f.body.extent, (33, 38));
            let e = f.body.expression.as_ref().expect("an expression");
            assert_eq!(e.extent, (34, 37));
            assert!(matches!(e.kind, ExpressionKind::Value { extent: (35, 36) }));
        }
        other => panic!("unexpected item {:?}", other),
    }
}

#[test]
fn failure_after_an_item_lies_past_it() {
    let file = "fn a() {}\nfn (";
    let parsed = parse_items(file);
    assert_tiles(&parsed.items);
    let next = parsed.items.last().map(|t| item_span(t).1).unwrap_or(0);
    assert!(next > 0);
    match parsed.end {
        FileEnd::Failed { point, errors } => {
            assert!(next <= point && point <= file.len());
            assert_eq!(point, 13);
            assert!(!errors.is_empty());
            assert_eq!(&file[point..], "(");
        }
        other => panic!("unexpected end {:?}", other),
    }
}

#[test]
fn header_visibility_and_parts() {
    let s = "pub fn foo(x: u8) -> u8 rest".as_bytes();
    let mut pm = Master::new();
    let p = function_header(&mut pm, s, 0);
    match p.status {
        Status::Success(h) => {
            assert_eq!(h.visibility, Some((0, 3)));
            assert_eq!(h.name, (7, 10));
            assert!(h.extent.1 <= p.point);
            assert_eq!(h.return_type, Some((21, 23)));
        }
        Status::Failure(e) => panic!("unexpected failure {:?}", e),
    }
    let s = "fn foo()".as_bytes();
    let mut pm = Master::new();
    let p = function_header(&mut pm, s, 0);
    match p.status {
        Status::Success(h) => assert_eq!(h.visibility, None),
        Status::Failure(e) => panic!("unexpected failure {:?}", e),
    }
}
