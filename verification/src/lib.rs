//! A verified library for an AI-assisted git CLI.
//!
//! The heart of the crate is the large-diff commit-message pipeline: deciding
//! whether a staged diff is too large for a single completion request,
//! splitting it into size-bounded segments along file boundaries, assembling
//! the per-segment summarization outcomes under a fail-fast policy, parsing
//! free-text model responses into structured per-file summaries, and composing
//! the final commit-message request. All of that logic is verified; the
//! surrounding process (git subprocesses, the completion transport, the
//! terminal) lives outside this crate and hands it plain values.

pub mod chat;
pub mod cli;
pub mod compose;
pub mod config;
pub mod diff;
pub mod fix;
pub mod lines;
pub mod prompt;
pub mod provider;
pub mod segment;
pub mod summarize;
pub mod summary;
pub mod text;

pub use chat::ChatMessage;
pub use cli::Cli;
pub use cli::Commands;
pub use compose::CommitMessageComposer;
pub use config::CommandAiConfig;
pub use config::CommandsConfig;
pub use config::Config;
pub use config::ConfigError;
pub use config::GitConfig;
pub use config::HistoryConfig;
pub use config::LegacyAiConfig;
pub use config::LegacyConfigFormat;
pub use config::ProviderConfig;
pub use config::ProviderEntry;
pub use diff::DiffStatAnalyzer;
pub use diff::DiffStats;
pub use fix::extract_commands_from_response;
pub use provider::ProviderErrorKind;
pub use provider::ProviderKind;
pub use provider::ProviderSelectError;
pub use segment::DiffSegment;
pub use segment::DiffSegmenter;
pub use summarize::BoundedSummarizer;
pub use summarize::ConcurrencyGate;
pub use summarize::PipelineError;
pub use summarize::UnitOutcome;
pub use summary::FileSummary;
pub use summary::SummaryResponseParser;
