use pipeshell::command::ShellCommand;
use pipeshell::command::tokenize;
use pipeshell::pipeline::ParseError;
use pipeshell::pipeline::parse_line;
use pipeshell::pipeline::split_line;
use pipeshell::pipeline::trim_str;

#[test]
fn single_stage_program_and_arguments() {
    let cmds = parse_line("prog arg1 arg2").unwrap();
    assert_eq!(cmds.len(), 1);
    assert_eq!(cmds[0].command, "prog");
    assert_eq!(cmds[0].args, vec!["arg1".to_string(), "arg2".to_string()]);
}

#[test]
fn pipe_separators_give_one_stage_each_in_order() {
    let cmds = parse_line("a b | c | d e f").unwrap();
    assert_eq!(cmds.len(), 3);
    assert_eq!(cmds[0].command, "a");
    assert_eq!(cmds[0].args, vec!["b".to_string()]);
    assert_eq!(cmds[1].command, "c");
    assert!(cmds[1].args.is_empty());
    assert_eq!(cmds[2].command, "d");
    assert_eq!(cmds[2].args, vec!["e".to_string(), "f".to_string()]);
}

#[test]
fn two_stage_line_parses_left_to_right() {
    let cmds = parse_line("printf foo | cat").unwrap();
    assert_eq!(cmds.len(), 2);
    assert_eq!(cmds[0].command, "printf");
    assert_eq!(cmds[0].args, vec!["foo".to_string()]);
    assert_eq!(cmds[1].command, "cat");
    assert!(cmds[1].args.is_empty());
}

#[test]
fn trailing_newline_is_trimmed() {
    let cmds = parse_line("echo hi\n").unwrap();
    assert_eq!(cmds.len(), 1);
    assert_eq!(cmds[0].command, "echo");
    assert_eq!(cmds[0].args, vec!["hi".to_string()]);
}

#[test]
fn whitespace_runs_separate_tokens() {
    let toks = tokenize("  a\t\tbb   c ");
    assert_eq!(toks, vec!["a".to_string(), "bb".to_string(), "c".to_string()]);
}

#[test]
fn tokenize_of_blank_text_is_empty() {
    assert!(tokenize("").is_empty());
    assert!(tokenize(" \t ").is_empty());
}

#[test]
fn descriptor_reads_first_token_as_program() {
    let c = ShellCommand::new("cat -n file");
    assert_eq!(c.command, "cat");
    assert_eq!(c.args, vec!["-n".to_string(), "file".to_string()]);
}

#[test]
fn stage_without_token_is_not_a_descriptor() {
    assert!(ShellCommand::parse("").is_none());
    assert!(ShellCommand::parse("   ").is_none());
    let c = ShellCommand::parse("ls -l").unwrap();
    assert_eq!(c.command, "ls");
    assert_eq!(c.args, vec!["-l".to_string()]);
}

#[test]
fn empty_line_is_a_parse_error() {
    assert_eq!(parse_line("").unwrap_err(), ParseError::EmptyStage);
    assert_eq!(parse_line("   \t ").unwrap_err(), ParseError::EmptyStage);
}

#[test]
fn doubled_separator_is_a_parse_error() {
    assert_eq!(parse_line("a |  | b").unwrap_err(), ParseError::EmptyStage);
}

#[test]
fn leading_separator_loses_its_space_to_the_trim() {
    // The line is trimmed before it is split, so a separator at the very
    // start is no separator any more: the bar becomes a program name.
    let cmds = parse_line(" | a").unwrap();
    assert_eq!(cmds.len(), 1);
    assert_eq!(cmds[0].command, "|");
    assert_eq!(cmds[0].args, vec!["a".to_string()]);
}

#[test]
fn parse_error_has_a_report() {
    assert_eq!(
        ParseError::EmptyStage.message(),
        "a pipeline stage has no program token"
    );
}

#[test]
fn trim_strips_both_ends_only() {
    assert_eq!(trim_str("  echo hi \n"), "echo hi");
    assert_eq!(trim_str(""), "");
    assert_eq!(trim_str(" \t "), "");
    assert_eq!(trim_str("a  b"), "a  b");
}

#[test]
fn split_keeps_empty_stages() {
    assert_eq!(split_line("a |  | b"), vec!["a".to_string(), "".to_string(), "b".to_string()]);
    assert_eq!(split_line(""), vec!["".to_string()]);
    assert_eq!(split_line("lone"), vec!["lone".to_string()]);
}

#[test]
fn pipe_without_spaces_is_no_separator() {
    let cmds = parse_line("a|b").unwrap();
    assert_eq!(cmds.len(), 1);
    assert_eq!(cmds[0].command, "a|b");
}
