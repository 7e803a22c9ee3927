use houston::generator::create_chat_prompt;
use houston::generator::ScriptSpecification;

fn expected_system_message(lang: &str) -> String {
    format!(
        "You are a {0} script generator.\nThe user gives you a description/goal for a {0} script and sometimes a list of extra requirements or context.\nYou respond with the {0} script.\nNote that you only respond with the script, not additional explanation, no code block etc.\nYour response must be a valid {0} script. So never use ''' to indicate the script start and end",
        lang
    )
}

#[test]
fn test_create_chat_prompt_without_requirements() {
    let spec = ScriptSpecification {
        lang: "bash".to_string(),
        instruction: "list all files".to_string(),
        requirements: vec![],
    };

    let prompt = create_chat_prompt(&spec);

    assert_eq!(prompt.system_message, expected_system_message("bash"));
    assert_eq!(prompt.user_message, "list all files");
}

#[test]
fn test_create_chat_prompt_with_requirements() {
    let spec = ScriptSpecification {
        lang: "powershell".to_string(),
        instruction: "ping a host".to_string(),
        requirements: vec![
            "use ipv4".to_string(),
            "- already a list item".to_string(),
            "".to_string(),
            "stop after 3 tries".to_string(),
        ],
    };

    let prompt = create_chat_prompt(&spec);

    assert_eq!(prompt.system_message, expected_system_message("powershell"));
    assert_eq!(
        prompt.user_message,
        "ping a host\n\nAdditional Requirements:\n\n- use ipv4\n- already a list item\n- stop after 3 tries"
    );
}

#[test]
fn test_chat_prompt_render() {
    let spec = ScriptSpecification {
        lang: "bash".to_string(),
        instruction: "say hi".to_string(),
        requirements: vec![],
    };

    let prompt = create_chat_prompt(&spec);
    let rendered = prompt.render();

    assert!(rendered.starts_with("[System]\nYou are a bash script generator."));
    assert!(rendered.ends_with("\n[User]\nsay hi"));
}
