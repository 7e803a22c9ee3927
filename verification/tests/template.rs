use std::collections::HashMap;
use std::io;

use houston::runner::ScriptRunner;
use houston::template::find_closing_bracket;
use houston::template::DefaultTemplateEvaluator;
use houston::template::TemplateEvaluationError::IoError;
use houston::template::TemplateEvaluationError::SyntaxError;
use houston::template::TemplateEvaluator;

struct MockScriptRunner {
    pub input_output_map: HashMap<String, String>,
}

impl MockScriptRunner {
    pub fn new_from_vec(input_output_vec: Vec<(&str, &str)>) -> Self {
        let mut map = HashMap::new();
        for (input, output) in input_output_vec {
            map.insert(input.to_string(), output.to_string());
        }
        MockScriptRunner { input_output_map: map }
    }

    pub fn new_single_command(input: &str, output: &str) -> Self {
        let mut map = HashMap::new();
        map.insert(input.to_string(), output.to_string());
        MockScriptRunner { input_output_map: map }
    }

    pub fn new_no_commands() -> Self {
        MockScriptRunner { input_output_map: HashMap::new() }
    }
}

impl ScriptRunner for MockScriptRunner {
    fn run_script(&self, script: &str, args: &[&str]) -> Result<(), io::Error> {
        self.run_script_and_get_stdout(script, args).map(|_| ())
    }

    fn run_script_and_get_stdout(&self, script: &str, _args: &[&str]) -> Result<String, io::Error> {
        match self.input_output_map.get(script) {
            Some(value) => Ok(value.to_string()),
            None => Err(io::Error::new(io::ErrorKind::NotFound, "not found")),
        }
    }
}

#[test]
fn test_find_closing_bracket() {
    let text = "hello {world}";
    let result = find_closing_bracket(text, 6, '{', '}');
    assert_eq!(result, 12);
}

#[test]
fn test_find_closing_bracket_nested() {
    let text = "hello {world {nested}}";
    let result = find_closing_bracket(text, 6, '{', '}');
    assert_eq!(result, 21);
}

#[test]
fn test_find_closing_bracket_with_multiple_brackets() {
    let text = "hello {world {nested}} {world {nested}}";
    let result = find_closing_bracket(text, 6, '{', '}');
    assert_eq!(result, 21);

    let result = find_closing_bracket(text, 23, '{', '}');
    assert_eq!(result, 38);

    let result = find_closing_bracket(text, 13, '{', '}');
    assert_eq!(result, 20);
}

#[test]
fn test_evaluate() {
    let script_runner = MockScriptRunner::new_single_command("echo world", "world");
    let evaluator = DefaultTemplateEvaluator::new(script_runner);

    let result = evaluator.evaluate("hello ${echo world}", &[]);

    assert_eq!(result.unwrap(), "hello world");
}

#[test]
fn test_evaluate_with_multiple_commands() {
    let script_runner = MockScriptRunner::new_single_command("echo world", "world");

    let evaluator = DefaultTemplateEvaluator::new(script_runner);

    let result = evaluator.evaluate("hello ${echo world} ${echo world}", &[]);

    assert_eq!(result.unwrap(), "hello world world");
}

#[test]
fn test_evaluate_line_with_multiple_commands_and_text() {
    let script_runner = MockScriptRunner::new_single_command("echo world", "world");
    let evaluator = DefaultTemplateEvaluator::new(script_runner);

    let result = evaluator.evaluate("hello ${echo world} ${echo world} world", &[]);
    assert_eq!(result.unwrap(), "hello world world world");
}

#[test]
fn test_evaluate_line_with_nested_commands() {
    let script_runner =
        MockScriptRunner::new_single_command("echo '${echo world}'", "${echo world}");

    let evaluator = DefaultTemplateEvaluator::new(script_runner);

    let result = evaluator.evaluate("hello ${echo '${echo world}'}", &[]);
    assert_eq!(result.unwrap(), "hello ${echo world}");
}

#[test]
fn test_multi_line_template() {
    let script_runner =
        MockScriptRunner::new_from_vec(vec![("echo world", "world"), ("get name", "john")]);
    let evaluator = DefaultTemplateEvaluator::new(script_runner);

    let result = evaluator.evaluate("hello ${echo world}\nmy name is ${get name}", &[]);

    assert_eq!(result.unwrap(), "hello world\nmy name is john");
}

#[test]
fn test_syntax_error() {
    let script_runner = MockScriptRunner::new_single_command("echo world", "world");
    let evaluator = DefaultTemplateEvaluator::new(script_runner);

    let result = evaluator.evaluate("hello ${echo world", &[]);

    assert!(matches!(result, Err(SyntaxError(_))), "Expected SyntaxError, got {:?}", result);
}

#[test]
fn test_commando_error() {
    let script_runner = MockScriptRunner::new_no_commands();
    let evaluator = DefaultTemplateEvaluator::new(script_runner);

    let result = evaluator.evaluate("hello ${echo world} ${echo world} ${echo world}", &[]);

    assert!(matches!(result, Err(IoError(_))), "Expected IoError, got {:?}", result);
}

#[test]
fn test_evaluate_without_markers_is_identity() {
    let evaluator = DefaultTemplateEvaluator::new(MockScriptRunner::new_no_commands());

    let result = evaluator.evaluate("plain text, no commands at all\nsecond line", &[]);

    assert_eq!(result.unwrap(), "plain text, no commands at all\nsecond line");
}

#[test]
fn test_evaluate_two_distinct_commands_left_to_right() {
    let script_runner = MockScriptRunner::new_from_vec(vec![("a", "1"), ("b", "2")]);
    let evaluator = DefaultTemplateEvaluator::new(script_runner);

    let result = evaluator.evaluate("${a} ${b}", &[]);

    assert_eq!(result.unwrap(), "1 2");
}

#[test]
fn test_evaluate_trims_trailing_whitespace_of_output() {
    let script_runner = MockScriptRunner::new_single_command("echo world", "world\n\n  ");
    let evaluator = DefaultTemplateEvaluator::new(script_runner);

    let result = evaluator.evaluate("hello ${echo world}!", &[]);

    assert_eq!(result.unwrap(), "hello world!");
}

#[test]
fn test_evaluate_empty_command() {
    let script_runner = MockScriptRunner::new_single_command("", "out");
    let evaluator = DefaultTemplateEvaluator::new(script_runner);

    let result = evaluator.evaluate("a${}b", &[]);

    assert_eq!(result.unwrap(), "aoutb");
}

#[test]
fn test_unterminated_marker_after_resolved_marker_is_syntax_error() {
    let script_runner = MockScriptRunner::new_single_command("a", "1");
    let evaluator = DefaultTemplateEvaluator::new(script_runner);

    let result = evaluator.evaluate("${a} then ${unterminated", &[]);

    assert!(matches!(result, Err(SyntaxError(_))), "Expected SyntaxError, got {:?}", result);
}
