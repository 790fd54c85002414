use tealsed::commands::{clean_replacement, match_address, parse_address, parse_command_finish, parse_function, Address, Function, ScriptError};
use tealsed::regex::parser::{new_regex_input, RegexErrorKind, Syntax};
use tealsed::equivalent::Equivalent;
use tealsed::regex::{parse, replace, replace_all, replacen, Pattern};

fn function_parses(input: &str, complete: bool) -> Function {
    let (rest, f) = parse_function(new_regex_input(input)).unwrap();
    if complete {
        assert_eq!(rest.pos, rest.text.len());
    }
    f
}

fn function_equivalent(input: &str, expected: &Function, complete: bool) {
    let f = function_parses(input, complete);
    assert!(f.equivalent(expected), "unexpected function constructor {:?}", f);
}

fn dummy_regex() -> Pattern {
    parse(".").unwrap() // ignored in equivalence
}

#[test]
fn fun_d() {
    function_equivalent("d", &Function::Delete, true);
}

#[test]
fn s_slash() {
    function_equivalent("s/a/b/", &Function::Substitute(dummy_regex(), String::from("b")), true);
}

#[test]
fn s_comma() {
    function_equivalent("s,a,b,", &Function::Substitute(dummy_regex(), String::from("b")), true);
}

fn address_parses(input: &str) -> Address {
    let (rest, addr) = parse_address(new_regex_input(input)).unwrap();
    assert_eq!(rest.pos, rest.text.len());
    addr
}

fn address_equivalent(input: &str, expected: &Address) {
    let addr = address_parses(input);
    assert!(addr.equivalent(expected), "unexpected Address constructor {:?}", addr);
}

#[test]
fn addr_slash() {
    address_equivalent("/foo/", &Address::Context(dummy_regex()))
}

#[test]
fn addr_comma() {
    address_equivalent("\\,foo,", &Address::Context(dummy_regex()))
}

#[test]
fn equivalence_tells_functions_apart() {
    assert!(!function_parses("s/a/c/", true).equivalent(&Function::Substitute(dummy_regex(), String::from("b"))));
    assert!(!function_parses("p", true).equivalent(&Function::Delete));
    assert!(!address_parses("3").equivalent(&Address::LineNumber(4)));
    assert!(address_parses("3").equivalent(&Address::LineNumber(3)));
}

#[test]
fn clean_noop() {
    assert_eq!(clean_replacement(&Syntax::Extended, "foo".to_string()), "foo")
}

#[test]
fn clean_ref() {
    assert_eq!(clean_replacement(&Syntax::Extended, r"foo\1".to_string()), "foo${1}")
}

#[test]
fn clean_dollar() {
    assert_eq!(clean_replacement(&Syntax::Extended, "$foo".to_string()), "$$foo")
}

#[test]
fn clean_mixed_basic() {
    assert_eq!(clean_replacement(&Syntax::Basic, r"a\12b$\x\".to_string()), r"a${12}b$$\x\");
}

#[test]
fn clean_teal_unchanged() {
    for s in ["foo", r"foo\1", "$foo", "${1}x"] {
        assert_eq!(clean_replacement(&Syntax::Teal, s.to_string()), s);
    }
}

#[test]
fn line_number_matches_exactly() {
    let addr = address_parses("3");
    assert!(matches!(addr, Address::LineNumber(3)));
    assert!(!match_address(&addr, "x", 2));
    assert!(match_address(&addr, "x", 3));
    assert!(!match_address(&addr, "x", 4));
}

#[test]
fn context_address_matches_text() {
    let addr = address_parses("/o+/");
    assert!(match_address(&addr, "foo", 1));
    assert!(!match_address(&addr, "bar", 1));
}

#[test]
fn command_with_range() {
    let cmd = parse_command_finish(new_regex_input("2,/x/p")).unwrap();
    assert!(matches!(cmd.start, Some(Address::LineNumber(2))));
    assert!(matches!(cmd.end, Some(Address::Context(_))));
    assert!(matches!(cmd.function, Function::Print));
}

#[test]
fn insert_takes_rest() {
    match function_parses("ihello world", true) {
        Function::Insert(t) => assert_eq!(t, "hello world"),
        f => panic!("unexpected function constructor {:?}", f),
    }
}

#[test]
fn replacement_skips_escaped_delimiter() {
    match function_parses(r"s/a/b\/c/", true) {
        Function::Substitute(_, r) => assert_eq!(r, r"b\/c"),
        f => panic!("unexpected function constructor {:?}", f),
    }
}

#[test]
fn basic_replacement_translated() {
    let mut s = new_regex_input(r"s/(a)/\1$/");
    s.extra.syntax = Syntax::Basic;
    let (_, f) = parse_function(s).unwrap();
    match f {
        Function::Substitute(p, r) => {
            assert_eq!(p.as_str(), "(a)");
            assert_eq!(r, "${1}$$");
        }
        f => panic!("unexpected function constructor {:?}", f),
    }
}

fn script_error(cmd: &str) -> ScriptError {
    parse_command_finish(new_regex_input(cmd)).unwrap_err()
}

#[test]
fn script_errors() {
    assert_eq!(script_error("q"), ScriptError::UnknownFunction { at: 0 });
    assert_eq!(script_error("3"), ScriptError::UnknownFunction { at: 1 });
    assert_eq!(script_error("s/a/b"), ScriptError::MissingDelimiter { at: 5 });
    assert_eq!(script_error("s/a"), ScriptError::MissingDelimiter { at: 3 });
    assert_eq!(script_error("1,p"), ScriptError::MissingAddress { at: 2 });
    assert_eq!(script_error("99999999999999999999p"), ScriptError::LineNumberTooLarge { at: 0 });
    assert_eq!(script_error("/[z-a]/p"), ScriptError::Compile { at: 1 });
    match script_error("/(a/p") {
        ScriptError::Regex(e) => assert_eq!(e.kind, RegexErrorKind::UnclosedGroup),
        e => panic!("unexpected error {:?}", e),
    }
}

#[test]
fn dialect_group_forms() {
    let mut s = new_regex_input("/(?P<n>a)/p");
    s.extra.syntax = Syntax::Extended;
    match parse_command_finish(s).unwrap_err() {
        ScriptError::Regex(e) => assert_eq!(e.kind, RegexErrorKind::BadGroupPrefix),
        e => panic!("unexpected error {:?}", e),
    }
    let mut s = new_regex_input("/(?:a)/p");
    s.extra.syntax = Syntax::Basic;
    match parse_command_finish(s).unwrap_err() {
        ScriptError::Regex(e) => assert_eq!(e.kind, RegexErrorKind::UnclosedGroup),
        e => panic!("unexpected error {:?}", e),
    }
    let mut s = new_regex_input("/(?:a)/p");
    s.extra.syntax = Syntax::Extended;
    assert!(parse_command_finish(s).is_ok());
}

#[test]
fn replacen_limits_matches() {
    let p = parse("a").unwrap();
    let mut dest = String::from(">");
    assert!(replacen(&p, "aaa", &mut dest, 2, "b"));
    assert_eq!(dest, ">bba");
    let mut dest = String::new();
    assert!(replace_all(&p, "aaa", &mut dest, "b"));
    assert_eq!(dest, "bbb");
    let mut dest = String::new();
    assert!(replace(&p, "xax", &mut dest, "[$0]"));
    assert_eq!(dest, "x[a]x");
    let mut dest = String::from("keep");
    assert!(!replace(&p, "xyz", &mut dest, "b"));
    assert_eq!(dest, "keep");
}

#[test]
fn special_delimiters_end_fields() {
    for (cmd, pattern) in [("s|a|b|", "a"), ("s*a*b*", "a"), ("s+a+b+", "a"), ("s?a?b?", "a"), ("s{a{b{", "a")] {
        match function_parses(cmd, true) {
            Function::Substitute(p, r) => {
                assert_eq!(p.as_str(), pattern);
                assert_eq!(r, "b");
            }
            f => panic!("unexpected function constructor {:?}", f),
        }
    }
    match function_parses("s|x+|y|", true) {
        Function::Substitute(p, r) => {
            assert_eq!(p.as_str(), "x+");
            assert_eq!(r, "y");
        }
        f => panic!("unexpected function constructor {:?}", f),
    }
}

#[test]
fn special_delimiter_address() {
    let addr = address_parses("\\|foo|");
    assert!(match_address(&addr, "afoo", 1));
    assert!(!match_address(&addr, "bar", 1));
}
