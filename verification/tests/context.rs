use houston::context::ContextCall;

#[test]
fn test_context_call_parse_multiple_args() {
    let call = ContextCall::parse("foo:bar baz");
    assert_eq!(call.name, "foo");
    assert_eq!(call.args, vec!["bar", "baz"]);
}

#[test]
fn test_context_call_parse_one_arg() {
    let call = ContextCall::parse("foo:bar");
    assert_eq!(call.name, "foo");
    assert_eq!(call.args, vec!["bar"]);
}

#[test]
fn test_context_call_parse_no_args() {
    let call = ContextCall::parse("foo");
    assert_eq!(call.name, "foo");
    assert!(call.args.is_empty());
}

#[test]
fn test_context_call_parse_empty_arg_after_colon() {
    let call = ContextCall::parse("foo:");
    assert_eq!(call.name, "foo");
    assert_eq!(call.args, vec![""]);
}

#[test]
fn test_context_call_parse_second_colon_joins_into_args() {
    let call = ContextCall::parse("foo:bar:baz qux");
    assert_eq!(call.name, "foo");
    assert_eq!(call.args, vec!["bar:baz", "qux"]);
}

#[test]
fn test_context_call_args_as_str_vec() {
    let call = ContextCall::parse("foo:bar baz");
    let args = call.args_as_str_vec();
    assert_eq!(args, vec!["bar", "baz"]);
}
