use houston::config::get_default_shell_for_system;
use houston::config::ApiKey;
use houston::config::OpenAiConfig;
use houston::config::RunMode;
use houston::config::UserConfig;

fn base_config() -> UserConfig {
    UserConfig {
        default_shell: None,
        default_context_shell: None,
        default_run_mode: RunMode::Ask,
        open_ai: OpenAiConfig { api_key: None, model: "gpt-4".to_string() },
    }
}

#[test]
fn test_to_strict_uses_configured_key_over_env() {
    let mut config = base_config();
    config.open_ai.api_key = Some(ApiKey("config-key".to_string()));

    let strict = config.to_strict(Some("env-key".to_string()), "bash").unwrap();

    assert_eq!(strict.open_ai.api_key.0, "config-key");
    assert_eq!(strict.open_ai.model, "gpt-4");
}

#[test]
fn test_to_strict_falls_back_to_env_key() {
    let config = base_config();

    let strict = config.to_strict(Some("env-key".to_string()), "bash").unwrap();

    assert_eq!(strict.open_ai.api_key.0, "env-key");
}

#[test]
fn test_to_strict_without_any_key_is_an_error() {
    let config = base_config();

    let result = config.to_strict(None, "bash");

    assert_eq!(result.err().unwrap(), "OPENAI_API_KEY is not set");
}

#[test]
fn test_to_strict_resolves_shells_from_system() {
    let config = base_config();

    let strict = config.to_strict(Some("k".to_string()), "zsh").unwrap();

    assert_eq!(strict.default_shell, "zsh");
    assert_eq!(strict.default_context_shell, "zsh");
    assert!(strict.default_run_mode == RunMode::Ask);
}

#[test]
fn test_to_strict_keeps_configured_shells() {
    let mut config = base_config();
    config.default_shell = Some("fish".to_string());
    config.default_context_shell = Some("bash".to_string());
    config.default_run_mode = RunMode::Dry;

    let strict = config.to_strict(Some("k".to_string()), "zsh").unwrap();

    assert_eq!(strict.default_shell, "fish");
    assert_eq!(strict.default_context_shell, "bash");
    assert!(strict.default_run_mode == RunMode::Dry);
}

#[test]
fn test_default_shell_for_system() {
    assert_eq!(get_default_shell_for_system("windows"), "powershell");
    assert_eq!(get_default_shell_for_system("linux"), "bash");
    assert_eq!(get_default_shell_for_system("macos"), "bash");
}

#[test]
fn test_default_for_system_sets_both_shells() {
    let config = UserConfig::default_for_system("bash");
    assert_eq!(config.default_shell.unwrap(), "bash");
    assert_eq!(config.default_context_shell.unwrap(), "bash");
    assert!(config.default_run_mode == RunMode::Ask);
    assert!(config.open_ai.api_key.is_none());
    assert_eq!(config.open_ai.model, "gpt-4");
}

#[test]
fn test_user_config_default() {
    let config = UserConfig::default();
    assert!(config.default_shell.is_none());
    assert!(config.default_context_shell.is_none());
    assert!(config.default_run_mode == RunMode::Ask);
    assert!(config.open_ai.api_key.is_none());
    assert_eq!(config.open_ai.model, "gpt-4");
}

#[test]
fn test_api_key_obfuscated() {
    let key = ApiKey("sk-secret-key".to_string());
    assert_eq!(key.obfuscated(), "sk-sec****");
}
