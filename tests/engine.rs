use tealsed::commands::{parse_command_finish, Command};
use tealsed::engine::{Engine, PassEnd};
use tealsed::regex::parser::new_regex_input;

fn commands(cmd_strs: &[&str]) -> Vec<Command> {
    cmd_strs.iter().map(|c| parse_command_finish(new_regex_input(c)).unwrap()).collect()
}

/// Runs a script over lines the way the command-line program does.
fn run(engine: &mut Engine, cmds: &Vec<Command>, lines: &[&str], no_print: bool) -> Vec<String> {
    let mut out = Vec::new();
    for line in lines {
        engine.start_cycle(line.to_string());
        loop {
            let pass = engine.run_pass(cmds, no_print);
            out.extend(pass.output);
            if pass.end != PassEnd::Restart {
                break;
            }
        }
    }
    out
}

fn test_commands(cmd_strs: &[&str], input: &str, expected: &str) {
    let cmds = commands(cmd_strs);
    let mut engine = Engine::new(cmds.len());
    let out = run(&mut engine, &cmds, &[input], false);
    assert_eq!(out, vec![expected.to_string()]);
}

fn test_one_command(command: &str, input: &str, expected: &str) {
    test_commands(&[command], input, expected)
}

#[test]
fn replace() {
    test_one_command("s/a/b/", "ack", "bck")
}

#[test]
fn replace_end() {
    test_one_command("s/$/d/", "foo", "food")
}

#[test]
fn replace_first_only() {
    test_one_command("s/a/b/", "aaa", "baa")
}

#[test]
fn replace_with_capture() {
    test_one_command("s/(o+)/<$1>/", "foo", "f<oo>")
}

fn run_script(cmd_strs: &[&str], lines: &[&str], no_print: bool) -> Vec<String> {
    let cmds = commands(cmd_strs);
    let mut engine = Engine::new(cmds.len());
    run(&mut engine, &cmds, lines, no_print)
}

const FIVE: [&str; 5] = ["a", "b", "c", "d", "e"];

#[test]
fn range_by_pattern_covers_lines_two_to_four() {
    assert_eq!(run_script(&["/b/,/d/p"], &FIVE, true), vec!["b", "c", "d"]);
}

#[test]
fn range_by_line_number_covers_lines_two_to_four() {
    assert_eq!(run_script(&["2,4p"], &FIVE, true), vec!["b", "c", "d"]);
}

#[test]
fn range_reopens_after_end() {
    assert_eq!(run_script(&["/a|c/,/b|d/p"], &FIVE, true), vec!["a", "b", "c", "d"]);
}

#[test]
fn line_number_selects_one_line() {
    assert_eq!(run_script(&["3p"], &FIVE, true), vec!["c"]);
}

#[test]
fn hold_starts_empty() {
    assert_eq!(run_script(&["x"], &["a", "b"], false), vec!["", "a"]);
    let engine = Engine::new(2);
    assert_eq!(engine.hold_space, "");
}

#[test]
fn hold_kept_across_cycles() {
    let cmds = commands(&["1h", "p"]);
    let mut engine = Engine::new(cmds.len());
    run(&mut engine, &cmds, &["a", "b", "c"], true);
    assert_eq!(engine.hold_space, "a");
    assert_eq!(run_script(&["1h", "3G"], &["a", "b", "c"], false), vec!["a", "b", "c\na"]);
    assert_eq!(run_script(&["H", "x"], &["a"], false), vec!["\na"]);
}

#[test]
fn hold_untouched_without_hold_functions() {
    let cmds = commands(&["s/a/b/", "p", "g"]);
    let mut engine = Engine::new(cmds.len());
    run(&mut engine, &cmds, &["a", "b"], false);
    assert_eq!(engine.hold_space, "");
}

#[test]
fn delete_suppresses_print() {
    assert_eq!(run_script(&["2d"], &["a", "b", "c"], false), vec!["a", "c"]);
    assert_eq!(run_script(&["d", "p"], &["a"], false), Vec::<String>::new());
}

#[test]
fn delete_first_line_restarts() {
    let cmds = commands(&["D"]);
    let mut engine = Engine::new(1);
    engine.start_cycle("x".to_string());
    engine.pattern_space = "x\ny".to_string();
    let pass = engine.run_pass(&cmds, false);
    assert_eq!(pass.end, PassEnd::Restart);
    assert!(pass.output.is_empty());
    assert_eq!(engine.pattern_space, "y");
    let pass = engine.run_pass(&cmds, false);
    assert_eq!(pass.end, PassEnd::Deleted);
    assert_eq!(engine.pattern_space, "");
}

#[test]
fn print_line_number_and_insert() {
    assert_eq!(run_script(&["=", "ihi"], &["a", "b"], false), vec!["1", "hi", "a", "2", "hi", "b"]);
}

#[test]
fn line_numbers_continue_across_inputs() {
    let cmds = commands(&["="]);
    let mut engine = Engine::new(1);
    run(&mut engine, &cmds, &["a"], true);
    let out = run(&mut engine, &cmds, &["b"], true);
    assert_eq!(out, vec!["2"]);
}

#[test]
fn exchange_swaps() {
    assert_eq!(run_script(&["x", "G"], &["a", "b"], false), vec!["\na", "a\nb"]);
}

#[test]
fn later_addresses_see_earlier_edits() {
    assert_eq!(run_script(&["s/a/b/", "/b/p"], &["a"], true), vec!["b"]);
}
