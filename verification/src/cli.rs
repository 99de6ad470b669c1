//! Command-line arguments, and how they override the settings file.
//!
//! Parsing the command line is the host's part (it fills in [`Cli`]).

use vstd::prelude::*;

use crate::config::{mark_default, AppConfig};

verus! {

/// Command-line arguments.
#[derive(Debug, Clone, PartialEq)]
pub struct Cli {
    /// Settings file path (`config.toml` by default).
    pub config: String,
    /// Default AI provider name.
    pub ai_provider: Option<String>,
    /// Default MCP server name.
    pub mcp_server: Option<String>,
    /// Stream the output.
    pub stream: bool,
    /// Interactive mode.
    pub interactive: bool,
    /// Log level (`info` by default).
    pub log_level: String,
    /// Subcommand.
    pub command: Option<Commands>,
}

/// Subcommands.
#[derive(Debug, Clone, PartialEq)]
pub enum Commands {
    /// Runs the whole plan-and-execute flow on a task.
    TestExecute {
        /// The task as the user describes it.
        input: String,
    },
}

impl Cli {
    /// The settings with the command line's choices applied: a named AI
    /// provider (MCP server) becomes the only default one, and the log level
    /// is the command line's.
    pub fn merge_with_config(&self, config: AppConfig) -> (r: AppConfig)
        ensures
            r.ai_providers@.len() == config.ai_providers@.len(),
            r.mcp_servers@.len() == config.mcp_servers@.len(),
            forall|k: int| 0 <= k < r.ai_providers@.len() ==> #[trigger] r.ai_providers@[k].name == config.ai_providers@[k].name
                && r.ai_providers@[k].is_default == match self.ai_provider {
                    Some(n) => config.ai_providers@[k].name@ == n@,
                    None => config.ai_providers@[k].is_default,
                },
            forall|k: int| 0 <= k < r.mcp_servers@.len() ==> #[trigger] r.mcp_servers@[k].name == config.mcp_servers@[k].name
                && r.mcp_servers@[k].is_default == match self.mcp_server {
                    Some(n) => config.mcp_servers@[k].name@ == n@,
                    None => config.mcp_servers@[k].is_default,
                },
            self.ai_provider is None ==> r.ai_providers@ == config.ai_providers@,
            self.mcp_server is None ==> r.mcp_servers@ == config.mcp_servers@,
            r.trace == config.trace,
            r.logging.level@ == self.log_level@,
            r.logging.format == config.logging.format,
    {
        let ghost before = config;
        let mut config = config;
        match &self.ai_provider {
            Some(name) => mark_default(&mut config.ai_providers, name.as_str()),
            None => {},
        }
        match &self.mcp_server {
            Some(name) => mark_default(&mut config.mcp_servers, name.as_str()),
            None => {},
        }
        config.logging.level = self.log_level.clone();
        proof {
            if self.ai_provider is None {
                assert(config.ai_providers@ =~= before.ai_providers@);
            }
            if self.mcp_server is None {
                assert(config.mcp_servers@ =~= before.mcp_servers@);
            }
        }
        config
    }
}

} // verus!
