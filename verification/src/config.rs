//! The user configuration: the interpreters to run scripts and context
//! templates with, the run mode, and the OpenAI settings. A `UserConfig` may
//! leave fields unset; `to_strict` resolves every required field from the
//! values the surrounding program supplies.

use vstd::prelude::*;

verus! {

use vstd::string::StrSliceExecFns;
use vstd::string::StringExecFns;
use crate::text::str_eq;

/// Whether a generated script runs without asking, after asking, or not at
/// all.
#[derive(Debug, Clone, Copy, PartialEq, Eq, Structural)]
pub enum RunMode {
    Force,
    Ask,
    Dry,
}

/// An API key. Display paths go through `obfuscated` so the secret is never
/// printed whole.
#[derive(Clone)]
pub struct ApiKey(pub String);

impl ApiKey {
    /// The key with everything after its first six characters replaced by
    /// `****`.
    pub fn obfuscated(&self) -> (r: String)
        requires
            self.0@.len() >= 6,
        ensures
            r@ == self.0@.subrange(0, 6) + "****"@,
    {
        let prefix = self.0.as_str().substring_char(0, 6);
        let mut s = String::from_str(prefix);
        s.append("****");
        s
    }
}

/// The OpenAI settings as configured: the key may be absent and is then
/// resolved from the environment.
pub struct OpenAiConfig {
    pub api_key: Option<ApiKey>,
    pub model: String,
}

impl Default for OpenAiConfig {
    /// No key configured, the default chat model.
    fn default() -> (r: Self)
        ensures
            r.api_key is None,
            r.model@ == "gpt-4"@,
    {
        OpenAiConfig { api_key: None, model: String::from_str("gpt-4") }
    }
}

/// The OpenAI settings with every required field present.
pub struct StrictOpenAiConfig {
    pub api_key: ApiKey,
    pub model: String,
}

/// The configuration with every required field resolved.
pub struct StrictUserConfig {
    pub default_shell: String,
    pub default_context_shell: String,
    pub default_run_mode: RunMode,
    pub open_ai: StrictOpenAiConfig,
}

/// The configuration as the user wrote it; unset fields fall back to
/// system-derived values when made strict.
pub struct UserConfig {
    pub default_shell: Option<String>,
    pub default_context_shell: Option<String>,
    pub default_run_mode: RunMode,
    pub open_ai: OpenAiConfig,
}

impl Default for UserConfig {
    /// No shells configured, asking before running, default OpenAI settings.
    fn default() -> (r: Self)
        ensures
            r.default_shell is None,
            r.default_context_shell is None,
            r.default_run_mode == RunMode::Ask,
            r.open_ai.api_key is None,
            r.open_ai.model@ == "gpt-4"@,
    {
        UserConfig {
            default_shell: None,
            default_context_shell: None,
            default_run_mode: RunMode::Ask,
            open_ai: OpenAiConfig::default(),
        }
    }
}

impl UserConfig {
    /// Convert the user config into a strict version that can be used by the
    /// rest of the program. Strict means that all the required fields that
    /// are not set in the user config are resolved from the caller-supplied
    /// values: `env_api_key` stands in for an absent key, `system_shell` for
    /// an absent shell.
    pub fn to_strict(&self, env_api_key: Option<String>, system_shell: &str) -> (r: Result<
        StrictUserConfig,
        String,
    >)
        ensures
            r is Err <==> self.open_ai.api_key is None && env_api_key is None,
            match r {
                Ok(strict) => {
                    &&& (self.open_ai.api_key matches Some(k) ==> strict.open_ai.api_key.0@
                        == k.0@)
                    &&& (self.open_ai.api_key is None ==> (env_api_key matches Some(ek)
                        && strict.open_ai.api_key.0@ == ek@))
                    &&& strict.open_ai.model@ == self.open_ai.model@
                    &&& (self.default_shell matches Some(sh) ==> strict.default_shell@ == sh@)
                    &&& (self.default_shell is None ==> strict.default_shell@ == system_shell@)
                    &&& (self.default_context_shell matches Some(sh)
                        ==> strict.default_context_shell@ == sh@)
                    &&& (self.default_context_shell is None ==> strict.default_context_shell@
                        == system_shell@)
                    &&& strict.default_run_mode == self.default_run_mode
                },
                Err(m) => m@ == "OPENAI_API_KEY is not set"@,
            },
    {
        let api_key: String = match &self.open_ai.api_key {
            Some(api_key) => api_key.0.clone(),
            None => {
                match env_api_key {
                    Some(open_ai_key) => open_ai_key,
                    None => {
                        return Err(String::from_str("OPENAI_API_KEY is not set"));
                    },
                }
            },
        };
        let open_ai = StrictOpenAiConfig { api_key: ApiKey(api_key), model: self.open_ai.model.clone() };
        let default_shell = match &self.default_shell {
            Some(shell) => shell.clone(),
            None => String::from_str(system_shell),
        };
        let default_context_shell = match &self.default_context_shell {
            Some(shell) => shell.clone(),
            None => String::from_str(system_shell),
        };
        Ok(
            StrictUserConfig {
                default_shell,
                default_context_shell,
                default_run_mode: self.default_run_mode,
                open_ai,
            },
        )
    }

    /// The configuration assumed for a system whose default interpreter is
    /// `system_shell`: both shells set to it, asking before running.
    pub fn default_for_system(system_shell: &str) -> (r: Self)
        ensures
            r.default_shell matches Some(s) && s@ == system_shell@,
            r.default_context_shell matches Some(s) && s@ == system_shell@,
            r.default_run_mode == RunMode::Ask,
            r.open_ai.api_key is None,
            r.open_ai.model@ == "gpt-4"@,
    {
        let shell = String::from_str(system_shell);
        UserConfig {
            default_shell: Some(shell.clone()),
            default_context_shell: Some(shell),
            default_run_mode: RunMode::Ask,
            open_ai: OpenAiConfig::default(),
        }
    }
}

/// The interpreter assumed for an operating system, named as the platform
/// reports it: PowerShell on Windows, bash everywhere else.
pub fn get_default_shell_for_system(os: &str) -> (r: String)
    ensures
        os@ == "windows"@ ==> r@ == "powershell"@,
        os@ != "windows"@ ==> r@ == "bash"@,
{
    if str_eq(os, "windows") {
        String::from_str("powershell")
    } else {
        String::from_str("bash")
    }
}

} // verus!
