use houston::runner::interpreter_suffix;
use houston::runner::normalize_lines;
use houston::runner::ScriptRunner;
use houston::runner::SimpleScriptRunner;

#[test]
fn test_shell_script_runner_with_args() {
    let args = vec!["hello", "world"];

    let runner = SimpleScriptRunner::new("bash");
    let result = runner.run_script_and_get_stdout("echo $1 $2", &args);

    assert_eq!(result.unwrap().trim(), "hello world");
}

#[test]
fn test_run_script_with_missing_interpreter_is_io_error() {
    let runner = SimpleScriptRunner::new("no-such-interpreter-here");
    let result = runner.run_script("echo hi", &[]);
    assert!(result.is_err());
}

#[test]
fn test_captured_lines_each_end_with_newline() {
    let runner = SimpleScriptRunner::new("bash");
    let result = runner.run_script_and_get_stdout("printf 'a\\nb'", &[]);
    assert_eq!(result.unwrap(), "a\nb\n");
}

#[test]
fn test_interpreter_suffix_powershell() {
    assert_eq!(interpreter_suffix("powershell"), ".ps1");
    assert_eq!(interpreter_suffix("PowerShell"), ".ps1");
    assert_eq!(interpreter_suffix("POWERSHELL.exe"), ".ps1");
    assert_eq!(interpreter_suffix("/usr/bin/powershell"), ".ps1");
}

#[test]
fn test_interpreter_suffix_other_shells() {
    assert_eq!(interpreter_suffix("bash"), "");
    assert_eq!(interpreter_suffix("zsh"), "");
    assert_eq!(interpreter_suffix("power shell"), "");
}

#[test]
fn test_normalize_lines_keeps_order_and_terminators() {
    assert_eq!(normalize_lines(""), "");
    assert_eq!(normalize_lines("a"), "a\n");
    assert_eq!(normalize_lines("a\nb"), "a\nb\n");
    assert_eq!(normalize_lines("a\r\nb\r\n"), "a\nb\n");
    assert_eq!(normalize_lines("a\n\nb"), "a\n\nb\n");
}
