//! The command surface, prompts, configuration, provider decisions, chat
//! messages and command extraction.

use gitai::chat::ChatMessage;
use gitai::cli::Commands;
use gitai::config::{Config, ConfigError, LegacyAiConfig, LegacyConfigFormat};
use gitai::fix::extract_commands_from_response;
use gitai::prompt::{build_commit_prompt, build_segment_prompt, replace_all};
use gitai::provider::{
    classify_provider_error, select_provider, ProviderErrorKind, ProviderKind,
    ProviderSelectError,
};
use gitai::segment::DiffSegment;

#[test]
fn chat_message_constructors_set_the_role() {
    let u = ChatMessage::user("hello".to_string());
    assert_eq!(u.role, "user");
    assert_eq!(u.content, "hello");
    let a = ChatMessage::assistant("hi".to_string());
    assert_eq!(a.role, "assistant");
    assert_eq!(a.content, "hi");
}

#[test]
fn bare_command_words_parse() {
    assert_eq!(Commands::from_str("help"), Some(Commands::Help));
    assert_eq!(Commands::from_str("chat"), Some(Commands::Chat));
    assert_eq!(Commands::from_str("commit"), Some(Commands::Commit { all: false }));
    assert_eq!(Commands::from_str("push"), Some(Commands::Push { force: false }));
    assert_eq!(Commands::from_str("publish"), Some(Commands::Publish));
    // `ask` needs an argument, so the bare word parses to nothing.
    assert_eq!(Commands::from_str("ask"), None);
    assert_eq!(Commands::from_str("frobnicate"), None);
}

#[test]
fn commit_prompt_substitutes_the_diff() {
    let out = build_commit_prompt("Describe:\n{diff}\nDone.", "THE DIFF");
    assert_eq!(out, "Describe:\nTHE DIFF\nDone.");
}

#[test]
fn replace_all_handles_repeats_and_absence() {
    assert_eq!(replace_all("a-b-a", "a", "xy"), "xy-b-xy");
    assert_eq!(replace_all("no placeholder", "{diff}", "D"), "no placeholder");
    assert_eq!(replace_all("", "{diff}", "D"), "");
}

#[test]
fn segment_prompt_wraps_the_segment_content() {
    let s = DiffSegment { content: "SOME DIFF TEXT".to_string(), files: vec![] };
    let p = build_segment_prompt(&s);
    assert!(p.contains("SOME DIFF TEXT"));
    assert!(p.contains("Format:"));
    assert!(p.contains("Example:"));
}

#[test]
fn commands_come_out_of_fenced_blocks() {
    let response = "## Solution\nRun these:\n```bash\n# a comment\nrm -f stale.lock\n\ncargo build\n```\nafter text\n";
    let cmds = extract_commands_from_response(response).unwrap();
    assert_eq!(cmds, vec!["rm -f stale.lock".to_string(), "cargo build".to_string()]);
}

#[test]
fn no_code_block_means_no_commands() {
    assert_eq!(extract_commands_from_response("nothing here"), None);
    assert_eq!(extract_commands_from_response("```bash\n# only comments\n```\n"), None);
}

#[test]
fn plain_fences_toggle_the_block() {
    let cmds = extract_commands_from_response("```\nls\n```\noutside\n").unwrap();
    assert_eq!(cmds, vec!["ls".to_string()]);
}

#[test]
fn default_config_resolves_git_operations() {
    let c = Config::default();
    let (p, cc) = c.get_git_operations_ai_config().unwrap();
    assert_eq!(cc.provider, "ollama");
    assert_eq!(cc.model, "qwen2.5-coder:7b");
    assert_eq!(p.base_url, "http://localhost:11434");
    assert!(p.api_key.is_empty());
    assert!(c.git.commit_prompt.contains("{diff}"));
    assert!(c.history.enabled);
}

#[test]
fn unknown_command_family_is_rejected() {
    let c = Config::default();
    assert_eq!(
        c.get_ai_config_for_command("telepathy").unwrap_err(),
        ConfigError::UnknownCommandType
    );
}

#[test]
fn missing_provider_entry_is_rejected() {
    let mut c = Config::default();
    c.commands.conversation.provider = "nonexistent".to_string();
    assert_eq!(
        c.get_conversation_ai_config().unwrap_err(),
        ConfigError::ProviderNotFound
    );
    // The other families still resolve.
    assert!(c.get_error_analysis_ai_config().is_ok());
}

#[test]
fn legacy_section_migrates_into_defaults() {
    let c = Config::default();
    let legacy = LegacyAiConfig {
        provider: "deepseek".to_string(),
        model: "deepseek-chat".to_string(),
        base_url: "https://api.deepseek.com".to_string(),
    };
    let m = Config::migrate_from_legacy(c, legacy);
    // Commands still on the built-in default follow the legacy choice.
    assert_eq!(m.commands.git_operations.provider, "deepseek");
    assert_eq!(m.commands.git_operations.model, "deepseek-chat");
    // The provider already existed, so the list is unchanged.
    assert_eq!(m.providers.len(), 2);
    assert!(m.ai.is_none());
}

#[test]
fn legacy_migration_registers_an_unknown_provider() {
    let c = Config::default();
    let legacy = LegacyAiConfig {
        provider: "corp-proxy".to_string(),
        model: "m1".to_string(),
        base_url: "http://proxy.internal".to_string(),
    };
    let m = Config::migrate_from_legacy(c, legacy);
    assert_eq!(m.providers.len(), 3);
    assert_eq!(m.providers[2].name, "corp-proxy");
    assert_eq!(m.providers[2].config.base_url, "http://proxy.internal");
    assert!(m.providers[2].config.api_key.is_empty());
}

#[test]
fn whole_legacy_file_migrates() {
    let legacy = LegacyConfigFormat {
        ai: LegacyAiConfig {
            provider: "ollama".to_string(),
            model: "llama3".to_string(),
            base_url: "http://localhost:11434".to_string(),
        },
        git: gitai::config::GitConfig { commit_prompt: "write it: {diff}".to_string() },
        history: gitai::config::HistoryConfig { enabled: false },
    };
    let m = Config::migrate_legacy_config(legacy);
    assert_eq!(m.providers.len(), 1);
    assert_eq!(m.commands.conversation.model, "llama3");
    assert_eq!(m.git.commit_prompt, "write it: {diff}");
    assert!(!m.history.enabled);
    assert!(m.ai.is_none());
}

#[test]
fn provider_selection_follows_the_name_and_key() {
    assert_eq!(select_provider("ollama", ""), Ok(ProviderKind::Ollama));
    assert_eq!(
        select_provider("openai", ""),
        Err(ProviderSelectError::MissingApiKey)
    );
    assert_eq!(
        select_provider("openai", "sk-123"),
        Ok(ProviderKind::OpenAiCompatible)
    );
    assert_eq!(
        select_provider("deepseek", "key"),
        Ok(ProviderKind::OpenAiCompatible)
    );
    assert_eq!(
        select_provider("watson", "key"),
        Err(ProviderSelectError::UnsupportedProvider)
    );
}

#[test]
fn provider_errors_classify_by_their_text() {
    assert_eq!(
        classify_provider_error("model 'x' not found, try pulling it"),
        ProviderErrorKind::MissingModel
    );
    assert_eq!(
        classify_provider_error("connection refused (os error 61)"),
        ProviderErrorKind::ServerMaybeMissing
    );
    assert_eq!(
        classify_provider_error("could not connect to host"),
        ProviderErrorKind::ServerNotRunning
    );
    assert_eq!(classify_provider_error(""), ProviderErrorKind::ServerMaybeMissing);
    assert_eq!(
        classify_provider_error("quota exceeded"),
        ProviderErrorKind::Other
    );
}
