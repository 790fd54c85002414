use regex_syntax::ast as rs;
use tealsed::ast::{AssertionKind, Ast, ClassItem, GroupKind, LiteralKind, RepetitionOp};
use tealsed::equivalent::Equivalent;
use tealsed::regex::parse;
use tealsed::regex::parser::{parse_complete, RegexErrorKind};
use tealsed::render::render;

fn literal_kind(k: &rs::LiteralKind) -> LiteralKind {
    match k {
        rs::LiteralKind::Verbatim => LiteralKind::Verbatim,
        rs::LiteralKind::Special(rs::SpecialLiteralKind::LineFeed) => LiteralKind::LineFeed,
        rs::LiteralKind::Special(rs::SpecialLiteralKind::CarriageReturn) => LiteralKind::CarriageReturn,
        rs::LiteralKind::Special(rs::SpecialLiteralKind::Tab) => LiteralKind::Tab,
        _ => LiteralKind::Punctuation,
    }
}

fn class_items(item: &rs::ClassSetItem, out: &mut Vec<ClassItem>) {
    match item {
        rs::ClassSetItem::Literal(l) => out.push(ClassItem::Literal(l.c)),
        rs::ClassSetItem::Range(r) => out.push(ClassItem::Range(r.start.c, r.end.c)),
        rs::ClassSetItem::Union(u) => {
            for i in &u.items {
                class_items(i, out);
            }
        }
        other => panic!("unexpected class item {:?}", other),
    }
}

/// The reference parser's tree in this library's form, positions left out.
fn convert(a: &rs::Ast) -> Ast {
    match a {
        rs::Ast::Empty(_) => Ast::Empty,
        rs::Ast::Literal(l) => Ast::Literal { c: l.c, kind: literal_kind(&l.kind) },
        rs::Ast::Dot(_) => Ast::Dot,
        rs::Ast::Assertion(x) => match x.kind {
            rs::AssertionKind::StartLine => Ast::Assertion(AssertionKind::StartOfLine),
            rs::AssertionKind::EndLine => Ast::Assertion(AssertionKind::EndOfLine),
            ref k => panic!("unexpected assertion {:?}", k),
        },
        rs::Ast::ClassBracketed(c) => {
            let mut items = Vec::new();
            match &c.kind {
                rs::ClassSet::Item(i) => class_items(i, &mut items),
                other => panic!("unexpected class set {:?}", other),
            }
            Ast::Class { negated: c.negated, items }
        }
        rs::Ast::Repetition(r) => {
            let op = match &r.op.kind {
                rs::RepetitionKind::ZeroOrOne => RepetitionOp::ZeroOrOne,
                rs::RepetitionKind::ZeroOrMore => RepetitionOp::ZeroOrMore,
                rs::RepetitionKind::OneOrMore => RepetitionOp::OneOrMore,
                rs::RepetitionKind::Range(rs::RepetitionRange::Exactly(m)) => RepetitionOp::Exactly(*m),
                rs::RepetitionKind::Range(rs::RepetitionRange::AtLeast(m)) => RepetitionOp::AtLeast(*m),
                rs::RepetitionKind::Range(rs::RepetitionRange::Bounded(m, n)) => RepetitionOp::Bounded(*m, *n),
            };
            Ast::Repetition { op, greedy: r.greedy, body: Box::new(convert(&r.ast)) }
        }
        rs::Ast::Group(g) => {
            let kind = match &g.kind {
                rs::GroupKind::CaptureIndex(i) => GroupKind::Indexed(*i),
                rs::GroupKind::CaptureName { name, .. } => GroupKind::Named(name.name.clone(), name.index),
                rs::GroupKind::NonCapturing(_) => GroupKind::NonCapturing,
            };
            Ast::Group { kind, body: Box::new(convert(&g.ast)) }
        }
        rs::Ast::Alternation(x) => Ast::Alternation(x.asts.iter().map(convert).collect()),
        rs::Ast::Concat(x) => Ast::Concat(x.asts.iter().map(convert).collect()),
        other => panic!("unexpected reference tree {:?}", other),
    }
}

fn match_modern_syntax(pattern: &str) {
    let expected = convert(&rs::parse::Parser::new().parse(pattern).unwrap());
    let actual = parse_complete('/', pattern).unwrap();
    if !actual.equivalent(&expected) {
        assert_eq!(actual, expected);
    }
}

fn matches(pattern: &str, input: &str) {
    let p = parse(pattern).unwrap();
    assert!(p.is_match(input))
}

#[test]
fn parser_literals() {
    let input = "this is a valid regex";
    let ast = parse_complete('/', input).unwrap();
    match &ast {
        Ast::Concat(c) => assert_eq!(c.len(), input.len()),
        _ => panic!("unexpected regex parse: {:?}", ast),
    }
}

#[test]
fn parser_wildcard_dot() {
    let ast = parse_complete('/', ".").unwrap();
    match &ast {
        Ast::Dot => (),
        _ => panic!("unexpected regex parse: {:?}", ast),
    }
}

#[test]
fn parser_star() {
    match_modern_syntax("foo*");
}

#[test]
fn plus() {
    match_modern_syntax("a+");
}

#[test]
fn question() {
    match_modern_syntax("ab?");
}

#[test]
fn exact_count() {
    match_modern_syntax("o{2}")
}

#[test]
fn min_count() {
    match_modern_syntax("x{2,}")
}

#[test]
fn range() {
    match_modern_syntax("x{2,5}")
}

#[test]
fn group() {
    match_modern_syntax("(a*)")
}

#[test]
fn non_capturing_group() {
    match_modern_syntax("(?:a*)")
}

#[test]
fn named_group() {
    match_modern_syntax("(?P<n>a*)")
}

#[test]
fn empty_group() {
    match_modern_syntax("()")
}

#[test]
fn alternation1() {
    match_modern_syntax("a|b")
}

#[test]
fn alternation2() {
    match_modern_syntax("a|b|c")
}

#[test]
fn end() {
    match_modern_syntax("a$")
}

#[test]
fn matches_end() {
    matches("$", "")
}

#[test]
fn class_one() {
    match_modern_syntax("[a]")
}

#[test]
fn class_two() {
    match_modern_syntax("[ab]")
}

#[test]
fn class_negated() {
    match_modern_syntax("[^a]")
}

#[test]
fn class_range() {
    match_modern_syntax("[a-z]")
}

#[test]
fn nested_groups_numbered_left_to_right() {
    match_modern_syntax("((a)(b))|(c)");
}

#[test]
fn single_literals() {
    for c in ['a', 'Z', '0', ' ', '{', '}', ']', '-', '#', 'é'] {
        let s = c.to_string();
        let ast = parse_complete('/', &s).unwrap();
        assert_eq!(ast, Ast::Literal { c, kind: LiteralKind::Verbatim });
    }
}

#[test]
fn escapes() {
    let ast = parse_complete('/', "\\n\\.\\q").unwrap();
    assert_eq!(
        ast,
        Ast::Concat(vec![
            Ast::Literal { c: '\n', kind: LiteralKind::LineFeed },
            Ast::Literal { c: '.', kind: LiteralKind::Punctuation },
            Ast::Literal { c: 'q', kind: LiteralKind::Verbatim },
        ])
    );
}

#[test]
fn delimiter_ends_pattern() {
    let ast = parse_complete(',', "ab,c").unwrap();
    assert_eq!(
        ast,
        Ast::Concat(vec![
            Ast::Literal { c: 'a', kind: LiteralKind::Verbatim },
            Ast::Literal { c: 'b', kind: LiteralKind::Verbatim },
        ])
    );
}

fn error_kind(pattern: &str) -> RegexErrorKind {
    parse_complete('/', pattern).unwrap_err().kind
}

#[test]
fn pattern_errors() {
    assert_eq!(error_kind(""), RegexErrorKind::MissingAtom);
    assert_eq!(error_kind("*a"), RegexErrorKind::MissingAtom);
    assert_eq!(error_kind("a\\"), RegexErrorKind::TrailingBackslash);
    assert_eq!(error_kind("(a"), RegexErrorKind::UnclosedGroup);
    assert_eq!(error_kind("(?x)"), RegexErrorKind::BadGroupPrefix);
    assert_eq!(error_kind("(?P<>a)"), RegexErrorKind::BadGroupPrefix);
    assert_eq!(error_kind("[ab"), RegexErrorKind::UnclosedClass);
    assert_eq!(error_kind("[]"), RegexErrorKind::EmptyClass);
    assert_eq!(error_kind("a{2"), RegexErrorKind::BadBound);
    assert_eq!(error_kind("a{2,x}"), RegexErrorKind::BadBound);
    assert_eq!(error_kind("a{99999999999}"), RegexErrorKind::BadBound);
    assert_eq!(error_kind("a|"), RegexErrorKind::EmptyBranch);
}

#[test]
fn error_location_counts_bytes() {
    let e = parse_complete('/', "é\n(a").unwrap_err();
    assert_eq!(e.kind, RegexErrorKind::UnclosedGroup);
    assert_eq!(e.offset, 5);
    assert_eq!(e.line, 2);
    assert_eq!(e.column, 3);
}

#[test]
fn brace_without_digit_is_literal() {
    let ast = parse_complete('/', "a{").unwrap();
    assert_eq!(render(&ast), "a\\{");
    matches("a{", "xa{y");
}

#[test]
fn dot_matches_newline() {
    matches("a.b", "a\nb");
}

#[test]
fn rendering() {
    for (pattern, text) in [
        ("foo*", "foo*"),
        ("x{2,5}", "x{2,5}"),
        ("x{12,}", "x{12,}"),
        ("o{2}", "o{2}"),
        ("(?P<n>a*)", "(?P<n>a*)"),
        ("(?:a|b)", "(?:a|b)"),
        ("a|b|c", "a|b|c"),
        ("[^a-z-]", "[^a-z\\-]"),
        ("\\.$", "\\.$"),
        ("^.#", "^(?s:.)\\#"),
    ] {
        assert_eq!(render(&parse_complete('/', pattern).unwrap()), text);
    }
}

#[test]
fn delimiter_bar_is_not_alternation() {
    let ast = parse_complete('|', "a|b").unwrap();
    assert_eq!(ast, Ast::Literal { c: 'a', kind: LiteralKind::Verbatim });
    let ast = parse_complete('*', "a*b").unwrap();
    assert_eq!(ast, Ast::Literal { c: 'a', kind: LiteralKind::Verbatim });
}

#[test]
fn stray_quantifiers_are_errors() {
    assert_eq!(error_kind("a**"), RegexErrorKind::NothingToRepeat);
    assert_eq!(error_kind("a{2}{3}"), RegexErrorKind::NothingToRepeat);
    assert_eq!(error_kind("a|+"), RegexErrorKind::EmptyBranch);
}
