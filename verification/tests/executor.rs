use ciallo::config::Command;
use ciallo::executor::aggregate_result;
use ciallo::executor::final_exit_code;
use ciallo::executor::plan_invocation;
use ciallo::executor::restore_arg_separator;
use ciallo::executor::ExecError;
use ciallo::text::split_whitespace_tokens;

fn command(line: &str, stdout: bool, stderr: bool) -> Command {
    Command { command: line.to_string(), stdout, stderr, hooks: Vec::new() }
}

fn strings(items: &[&str]) -> Vec<String> {
    items.iter().map(|s| s.to_string()).collect()
}

#[test]
fn tokenize_simple() {
    assert_eq!(split_whitespace_tokens("echo hello"), strings(&["echo", "hello"]));
}

#[test]
fn tokenize_collapses_runs_of_whitespace() {
    assert_eq!(
        split_whitespace_tokens("  cargo\t build\n --release  "),
        strings(&["cargo", "build", "--release"])
    );
}

#[test]
fn tokenize_empty_and_blank() {
    assert_eq!(split_whitespace_tokens(""), strings(&[]));
    assert_eq!(split_whitespace_tokens(" \t \n"), strings(&[]));
}

#[test]
fn plan_splits_program_and_args() {
    let cmd = command("cargo build", true, true);
    let inv = plan_invocation(&cmd, &strings(&["--release"])).unwrap();
    assert_eq!(inv.program, "cargo");
    assert_eq!(inv.args, strings(&["build", "--release"]));
}

#[test]
fn plan_rejects_blank_command() {
    let cmd = command("   ", true, true);
    assert_eq!(plan_invocation(&cmd, &strings(&[])), Err(ExecError::MalformedCommand));
    let cmd = command("", true, true);
    assert_eq!(plan_invocation(&cmd, &strings(&[])), Err(ExecError::MalformedCommand));
}

#[test]
fn separator_restored_before_trailing_args() {
    let restored = restore_arg_separator(&strings(&["-x"]), true);
    assert_eq!(restored, strings(&["--", "-x"]));
    let cmd = command("prog", true, true);
    let inv = plan_invocation(&cmd, &restored).unwrap();
    assert_eq!(inv.program, "prog");
    assert_eq!(inv.args, strings(&["--", "-x"]));
}

#[test]
fn separator_not_restored_without_detection_or_args() {
    assert_eq!(restore_arg_separator(&strings(&["-x"]), false), strings(&["-x"]));
    assert_eq!(restore_arg_separator(&strings(&[]), true), strings(&[]));
}

#[test]
fn capture_joins_lines_in_emission_order() {
    let r = aggregate_result(true, true, Some(0), 5, &strings(&["a", "b", "c"]), &strings(&[]));
    assert_eq!(r.stdout, "a\nb\nc");
    assert_eq!(r.stderr, "");
}

#[test]
fn disabled_stream_is_always_empty() {
    let r = aggregate_result(false, false, Some(0), 5, &strings(&["a", "b"]), &strings(&["x"]));
    assert_eq!(r.stdout, "");
    assert_eq!(r.stderr, "");
}

#[test]
fn zero_byte_output_is_empty_string() {
    let r = aggregate_result(true, true, Some(0), 5, &strings(&[]), &strings(&[]));
    assert_eq!(r.stdout, "");
    assert_eq!(r.stderr, "");
}

#[test]
fn success_iff_exit_code_zero() {
    let ok = aggregate_result(true, true, Some(0), 1, &strings(&[]), &strings(&[]));
    assert!(ok.success);
    assert_eq!(ok.exit_code, Some(0));
    let failed = aggregate_result(true, true, Some(2), 1, &strings(&[]), &strings(&[]));
    assert!(!failed.success);
    assert_eq!(failed.exit_code, Some(2));
    let signalled = aggregate_result(true, true, None, 1, &strings(&[]), &strings(&[]));
    assert!(!signalled.success);
    assert_eq!(signalled.exit_code, None);
}

#[test]
fn exit_code_mirrors_child() {
    let ok = aggregate_result(true, true, Some(0), 1, &strings(&[]), &strings(&[]));
    assert_eq!(final_exit_code(&ok), 0);
    let failed = aggregate_result(true, true, Some(3), 1, &strings(&[]), &strings(&[]));
    assert_eq!(final_exit_code(&failed), 3);
    let signalled = aggregate_result(true, true, None, 1, &strings(&[]), &strings(&[]));
    assert_eq!(final_exit_code(&signalled), 1);
}

#[test]
fn scenario_echo_hello() {
    let cmd = command("echo hello", true, true);
    let inv = plan_invocation(&cmd, &strings(&[])).unwrap();
    assert_eq!(inv.program, "echo");
    assert_eq!(inv.args, strings(&["hello"]));
    // the child prints one line "hello" and exits 0
    let r = aggregate_result(cmd.stdout, cmd.stderr, Some(0), 3, &strings(&["hello"]), &strings(&[]));
    assert!(r.success);
    assert_eq!(r.exit_code, Some(0));
    assert_eq!(r.stdout, "hello");
    assert_eq!(r.stderr, "");
    assert_eq!(final_exit_code(&r), 0);
}

#[test]
fn scenario_false_exits_one() {
    let cmd = command("false", true, true);
    let inv = plan_invocation(&cmd, &strings(&[])).unwrap();
    assert_eq!(inv.program, "false");
    assert!(inv.args.is_empty());
    // the child writes nothing and exits 1
    let r = aggregate_result(cmd.stdout, cmd.stderr, Some(1), 2, &strings(&[]), &strings(&[]));
    assert!(!r.success);
    assert_eq!(r.exit_code, Some(1));
    assert_eq!(final_exit_code(&r), 1);
}
