//! The tool's configuration: providers, per-command model choices, git
//! settings, history settings, and migration from the legacy single-model
//! format. Reading and writing the configuration file happens in the
//! surrounding process; everything decided about configuration values is
//! verified here.

use vstd::prelude::*;

use crate::text::str_eq;

verus! {

/// One completion provider's endpoint and credentials.
#[derive(Debug, Clone, PartialEq)]
pub struct ProviderConfig {
    pub api_key: String,
    pub base_url: String,
}

/// A named provider entry. Names are looked up by first match, so earlier
/// entries win.
#[derive(Debug, Clone, PartialEq)]
pub struct ProviderEntry {
    pub name: String,
    pub config: ProviderConfig,
}

/// Which provider and model each command family uses.
#[derive(Debug, Clone, PartialEq)]
pub struct CommandAiConfig {
    pub provider: String,
    pub model: String,
}

/// The per-command model choices.
#[derive(Debug, Clone, PartialEq)]
pub struct CommandsConfig {
    pub git_operations: CommandAiConfig,
    pub conversation: CommandAiConfig,
    pub error_analysis: CommandAiConfig,
}

/// The legacy single-provider configuration kept for migration.
#[derive(Debug, Clone, PartialEq)]
pub struct LegacyAiConfig {
    pub provider: String,
    pub model: String,
    pub base_url: String,
}

/// Git-related settings: the prompt template for small diffs, with its
/// `{diff}` placeholder.
#[derive(Debug, Clone, PartialEq)]
pub struct GitConfig {
    pub commit_prompt: String,
}

/// History-related settings.
#[derive(Debug, Clone, Copy, PartialEq, Eq, Structural)]
pub struct HistoryConfig {
    pub enabled: bool,
}

/// The whole legacy configuration file shape.
#[derive(Debug, Clone, PartialEq)]
pub struct LegacyConfigFormat {
    pub ai: LegacyAiConfig,
    pub git: GitConfig,
    pub history: HistoryConfig,
}

/// The tool's configuration.
#[derive(Debug, Clone, PartialEq)]
pub struct Config {
    pub providers: Vec<ProviderEntry>,
    pub commands: CommandsConfig,
    pub git: GitConfig,
    pub history: HistoryConfig,
    /// The legacy field, kept so old files can still be read; cleared by
    /// migration.
    pub ai: Option<LegacyAiConfig>,
}

/// Why a configuration lookup failed.
#[derive(Debug, Clone, Copy, PartialEq, Eq, Structural)]
pub enum ConfigError {
    /// The command type is not one of the three known families.
    UnknownCommandType,
    /// The command's provider name has no entry under `providers`.
    ProviderNotFound,
}

/// The position of the first provider entry named `name`, or `-1`.
pub open spec fn provider_index(entries: Seq<ProviderEntry>, name: Seq<char>) -> int
    decreases entries.len(),
{
    if entries.len() == 0 {
        -1
    } else if entries[0].name@ == name {
        0
    } else if provider_index(entries.drop_first(), name) == -1 {
        -1
    } else {
        1 + provider_index(entries.drop_first(), name)
    }
}

proof fn lemma_provider_index_at(entries: Seq<ProviderEntry>, name: Seq<char>, i: int)
    requires
        0 <= i < entries.len(),
        entries[i].name@ == name,
        forall|k: int| 0 <= k < i ==> (#[trigger] entries[k]).name@ != name,
    ensures
        provider_index(entries, name) == i,
    decreases entries.len(),
{
    if i > 0 {
        lemma_provider_index_at(entries.drop_first(), name, i - 1);
    }
}

proof fn lemma_provider_index_none(entries: Seq<ProviderEntry>, name: Seq<char>)
    requires
        forall|k: int| 0 <= k < entries.len() ==> (#[trigger] entries[k]).name@ != name,
    ensures
        provider_index(entries, name) == -1,
    decreases entries.len(),
{
    if entries.len() > 0 {
        lemma_provider_index_none(entries.drop_first(), name);
    }
}

/// The command family `t` names, if any.
pub open spec fn spec_command_config(c: Config, t: Seq<char>) -> Option<CommandAiConfig> {
    if t == "git_operations"@ {
        Some(c.commands.git_operations)
    } else if t == "conversation"@ {
        Some(c.commands.conversation)
    } else if t == "error_analysis"@ {
        Some(c.commands.error_analysis)
    } else {
        None
    }
}

/// What looking up the provider and model for command family `t` yields.
pub open spec fn spec_get_ai_config(c: Config, t: Seq<char>) -> Result<
    (ProviderConfig, CommandAiConfig),
    ConfigError,
> {
    match spec_command_config(c, t) {
        None => Err(ConfigError::UnknownCommandType),
        Some(cc) => {
            let i = provider_index(c.providers@, cc.provider@);
            if i == -1 {
                Err(ConfigError::ProviderNotFound)
            } else {
                Ok((c.providers@[i].config, cc))
            }
        },
    }
}

/// Find the first provider entry with the given name.
fn find_provider<'a>(entries: &'a Vec<ProviderEntry>, name: &str) -> (r: Option<&'a ProviderEntry>)
    ensures
        match r {
            Some(e) => provider_index(entries@, name@) >= 0 && *e == entries@[provider_index(
                entries@,
                name@,
            )],
            None => provider_index(entries@, name@) == -1,
        },
{
    let n = entries.len();
    let mut k: usize = 0;
    while k < n
        invariant
            k <= n,
            n == entries@.len(),
            forall|q: int| 0 <= q < k ==> (#[trigger] entries@[q]).name@ != name@,
        decreases n - k,
    {
        if str_eq(entries[k].name.as_str(), name) {
            proof {
                lemma_provider_index_at(entries@, name@, k as int);
            }
            return Some(&entries[k]);
        }
        k = k + 1;
    }
    proof {
        lemma_provider_index_none(entries@, name@);
    }
    None
}

impl Config {
    /// Look up the provider and model configured for command family
    /// `command_type`: `Ok` exactly when the family is known and its
    /// provider has an entry, and otherwise the error naming which of the
    /// two failed.
    pub fn get_ai_config_for_command<'a>(&'a self, command_type: &str) -> (r: Result<
        (&'a ProviderConfig, &'a CommandAiConfig),
        ConfigError,
    >)
        ensures
            match r {
                Ok(pair) => spec_get_ai_config(*self, command_type@) == Ok::<
                    _,
                    ConfigError,
                >((*pair.0, *pair.1)),
                Err(e) => spec_get_ai_config(*self, command_type@) == Err::<
                    (ProviderConfig, CommandAiConfig),
                    _,
                >(e),
            },
    {
        let cc: &CommandAiConfig = if str_eq(command_type, "git_operations") {
            &self.commands.git_operations
        } else if str_eq(command_type, "conversation") {
            &self.commands.conversation
        } else if str_eq(command_type, "error_analysis") {
            &self.commands.error_analysis
        } else {
            return Err(ConfigError::UnknownCommandType);
        };
        match find_provider(&self.providers, cc.provider.as_str()) {
            Some(e) => Ok((&e.config, cc)),
            None => Err(ConfigError::ProviderNotFound),
        }
    }

    /// The provider and model for git operations.
    pub fn get_git_operations_ai_config<'a>(&'a self) -> (r: Result<
        (&'a ProviderConfig, &'a CommandAiConfig),
        ConfigError,
    >)
        ensures
            match r {
                Ok(pair) => spec_get_ai_config(*self, "git_operations"@) == Ok::<
                    _,
                    ConfigError,
                >((*pair.0, *pair.1)),
                Err(e) => spec_get_ai_config(*self, "git_operations"@) == Err::<
                    (ProviderConfig, CommandAiConfig),
                    _,
                >(e),
            },
    {
        self.get_ai_config_for_command("git_operations")
    }

    /// The provider and model for conversation.
    pub fn get_conversation_ai_config<'a>(&'a self) -> (r: Result<
        (&'a ProviderConfig, &'a CommandAiConfig),
        ConfigError,
    >)
        ensures
            match r {
                Ok(pair) => spec_get_ai_config(*self, "conversation"@) == Ok::<
                    _,
                    ConfigError,
                >((*pair.0, *pair.1)),
                Err(e) => spec_get_ai_config(*self, "conversation"@) == Err::<
                    (ProviderConfig, CommandAiConfig),
                    _,
                >(e),
            },
    {
        self.get_ai_config_for_command("conversation")
    }

    /// The provider and model for error analysis.
    pub fn get_error_analysis_ai_config<'a>(&'a self) -> (r: Result<
        (&'a ProviderConfig, &'a CommandAiConfig),
        ConfigError,
    >)
        ensures
            match r {
                Ok(pair) => spec_get_ai_config(*self, "error_analysis"@) == Ok::<
                    _,
                    ConfigError,
                >((*pair.0, *pair.1)),
                Err(e) => spec_get_ai_config(*self, "error_analysis"@) == Err::<
                    (ProviderConfig, CommandAiConfig),
                    _,
                >(e),
            },
    {
        self.get_ai_config_for_command("error_analysis")
    }

    /// Fold a legacy `ai` section into a current configuration: register
    /// its provider when absent (with an empty key, to be supplied from the
    /// environment), point every still-default command at it, and clear the
    /// legacy section. The caller persists the result.
    pub fn migrate_from_legacy(config: Config, legacy: LegacyAiConfig) -> (r: Config)
        ensures
            ({
                let had = provider_index(config.providers@, legacy.provider@) >= 0;
                &&& had ==> r.providers@ == config.providers@
                &&& !had ==> r.providers@.len() == config.providers@.len() + 1
                    && r.providers@.subrange(0, config.providers@.len() as int)
                    == config.providers@ && r.providers@.last().name@ == legacy.provider@
                    && r.providers@.last().config.api_key@ == Seq::<char>::empty()
                    && r.providers@.last().config.base_url@ == legacy.base_url@
            }),
            r.commands.git_operations == spec_migrated_command(
                config.commands.git_operations,
                legacy,
            ),
            r.commands.conversation == spec_migrated_command(
                config.commands.conversation,
                legacy,
            ),
            r.commands.error_analysis == spec_migrated_command(
                config.commands.error_analysis,
                legacy,
            ),
            r.git == config.git,
            r.history == config.history,
            r.ai is None,
    {
        let mut c = config;
        let absent = match find_provider(&c.providers, legacy.provider.as_str()) {
            Some(_) => false,
            None => true,
        };
        if absent {
            let entry = ProviderEntry {
                name: legacy.provider.clone(),
                config: ProviderConfig { api_key: String::new(), base_url: legacy.base_url.clone() },
            };
            proof {
                assert(c.providers@.push(entry).subrange(0, c.providers@.len() as int)
                    =~= c.providers@);
            }
            c.providers.push(entry);
        }
        c.commands.git_operations = migrated_command(&c.commands.git_operations, &legacy);
        c.commands.conversation = migrated_command(&c.commands.conversation, &legacy);
        c.commands.error_analysis = migrated_command(&c.commands.error_analysis, &legacy);
        c.ai = None;
        c
    }

    /// Turn a whole legacy-format file into a current configuration: one
    /// provider entry from the legacy section (with an empty key), every
    /// command pointed at it, and git and history carried over. The caller
    /// persists the result.
    pub fn migrate_legacy_config(legacy: LegacyConfigFormat) -> (r: Config)
        ensures
            r.providers@.len() == 1,
            r.providers@[0].name@ == legacy.ai.provider@,
            r.providers@[0].config.api_key@ == Seq::<char>::empty(),
            r.providers@[0].config.base_url@ == legacy.ai.base_url@,
            r.commands.git_operations.provider@ == legacy.ai.provider@,
            r.commands.git_operations.model@ == legacy.ai.model@,
            r.commands.conversation.provider@ == legacy.ai.provider@,
            r.commands.conversation.model@ == legacy.ai.model@,
            r.commands.error_analysis.provider@ == legacy.ai.provider@,
            r.commands.error_analysis.model@ == legacy.ai.model@,
            r.git == legacy.git,
            r.history == legacy.history,
            r.ai is None,
    {
        let mut providers: Vec<ProviderEntry> = Vec::new();
        providers.push(
            ProviderEntry {
                name: legacy.ai.provider.clone(),
                config: ProviderConfig {
                    api_key: String::new(),
                    base_url: legacy.ai.base_url.clone(),
                },
            },
        );
        Config {
            providers,
            commands: CommandsConfig {
                git_operations: CommandAiConfig {
                    provider: legacy.ai.provider.clone(),
                    model: legacy.ai.model.clone(),
                },
                conversation: CommandAiConfig {
                    provider: legacy.ai.provider.clone(),
                    model: legacy.ai.model.clone(),
                },
                error_analysis: CommandAiConfig {
                    provider: legacy.ai.provider.clone(),
                    model: legacy.ai.model.clone(),
                },
            },
            git: legacy.git,
            history: legacy.history,
            ai: None,
        }
    }
}

/// A command still on the built-in default moves to the legacy provider
/// and model; one the user already changed is kept.
pub open spec fn spec_migrated_command(cc: CommandAiConfig, legacy: LegacyAiConfig) -> CommandAiConfig {
    if cc.provider@ == "ollama"@ && cc.model@ == "qwen2.5-coder:7b"@ {
        CommandAiConfig { provider: legacy.provider, model: legacy.model }
    } else {
        cc
    }
}

fn migrated_command(cc: &CommandAiConfig, legacy: &LegacyAiConfig) -> (r: CommandAiConfig)
    ensures
        r == spec_migrated_command(*cc, *legacy),
{
    if str_eq(cc.provider.as_str(), "ollama") && str_eq(cc.model.as_str(), "qwen2.5-coder:7b") {
        CommandAiConfig { provider: legacy.provider.clone(), model: legacy.model.clone() }
    } else {
        CommandAiConfig { provider: cc.provider.clone(), model: cc.model.clone() }
    }
}

impl Default for Config {
    /// The built-in configuration: a local Ollama entry and a DeepSeek
    /// entry awaiting a key, every command on the default local model,
    /// a commit prompt with the `{diff}` placeholder, and history enabled.
    fn default() -> (c: Config)
        ensures
            c.providers@.len() == 2,
            c.providers@[0].name@ == "ollama"@,
            c.providers@[0].config.api_key@ == Seq::<char>::empty(),
            c.providers@[0].config.base_url@ == "http://localhost:11434"@,
            c.providers@[1].name@ == "deepseek"@,
            c.providers@[1].config.api_key@ == Seq::<char>::empty(),
            c.providers@[1].config.base_url@ == "https://api.deepseek.com"@,
            c.commands.git_operations.provider@ == "ollama"@,
            c.commands.git_operations.model@ == "qwen2.5-coder:7b"@,
            c.commands.conversation.provider@ == "ollama"@,
            c.commands.conversation.model@ == "qwen2.5-coder:7b"@,
            c.commands.error_analysis.provider@ == "ollama"@,
            c.commands.error_analysis.model@ == "qwen2.5-coder:7b"@,
            c.git.commit_prompt@
                == "Generate one commit message line, in the conventional commit style, for the staged changes below. The description must start with a lower-case letter and stay within 72 characters.\n\n{diff}"@,
            c.history.enabled == true,
            c.ai is None,
    {
        let mut providers: Vec<ProviderEntry> = Vec::new();
        providers.push(
            ProviderEntry {
                name: "ollama".to_owned(),
                config: ProviderConfig {
                    api_key: String::new(),
                    base_url: "http://localhost:11434".to_owned(),
                },
            },
        );
        providers.push(
            ProviderEntry {
                name: "deepseek".to_owned(),
                config: ProviderConfig {
                    api_key: String::new(),
                    base_url: "https://api.deepseek.com".to_owned(),
                },
            },
        );
        Config {
            providers,
            commands: CommandsConfig {
                git_operations: CommandAiConfig {
                    provider: "ollama".to_owned(),
                    model: "qwen2.5-coder:7b".to_owned(),
                },
                conversation: CommandAiConfig {
                    provider: "ollama".to_owned(),
                    model: "qwen2.5-coder:7b".to_owned(),
                },
                error_analysis: CommandAiConfig {
                    provider: "ollama".to_owned(),
                    model: "qwen2.5-coder:7b".to_owned(),
                },
            },
            git: GitConfig {
                commit_prompt:
                    "Generate one commit message line, in the conventional commit style, for the staged changes below. The description must start with a lower-case letter and stay within 72 characters.\n\n{diff}".to_owned(),
            },
            history: HistoryConfig { enabled: true },
            ai: None,
        }
    }
}

} // verus!
