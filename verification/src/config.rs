//! Application settings: trace recording, logging, and the default choice
//! among configured AI providers and MCP servers.
//!
//! Reading the settings file is the host's part; the library holds what the
//! logic reads of it.

use vstd::prelude::*;

verus! {

/// Trace recording settings.
#[derive(Debug, Clone, PartialEq)]
pub struct TraceConfig {
    /// Whether recording is on.
    pub enabled: bool,
    /// Storage directory.
    pub storage_dir: String,
    /// Quality bar for keeping a trace (most iterations).
    pub max_iterations_for_record: usize,
    /// Whether to generalise with the model.
    pub use_llm_generalization: bool,
    /// Model used to generalise (empty: the default one).
    pub generalization_model: String,
}

/// Default of a flag that is on unless set.
pub fn default_true() -> (b: bool)
    ensures
        b,
{
    true
}

/// Default trace storage directory.
pub fn default_trace_dir() -> (s: String)
    ensures
        s@ == "./traces"@,
{
    "./traces".to_owned()
}

/// Default quality bar of a kept trace.
pub fn default_max_iter() -> (n: usize)
    ensures
        n == 5,
{
    5
}

impl Default for TraceConfig {
    fn default() -> (c: TraceConfig)
        ensures
            c.enabled,
            c.storage_dir@ == "./traces"@,
            c.max_iterations_for_record == 5,
            c.use_llm_generalization,
            c.generalization_model@.len() == 0,
    {
        TraceConfig {
            enabled: true,
            storage_dir: "./traces".to_owned(),
            max_iterations_for_record: 5,
            use_llm_generalization: true,
            generalization_model: String::new(),
        }
    }
}

/// Logging settings.
#[derive(Debug, Clone, PartialEq)]
pub struct LoggingConfig {
    pub level: String,
    pub format: String,
}

/// What the logic reads of a configured AI provider or MCP server: its name
/// and whether it is the default one.
#[derive(Debug, Clone, PartialEq)]
pub struct ConfigEntry {
    pub name: String,
    pub is_default: bool,
}

/// Application settings.
#[derive(Debug, Clone, PartialEq)]
pub struct AppConfig {
    pub ai_providers: Vec<ConfigEntry>,
    pub mcp_servers: Vec<ConfigEntry>,
    pub trace: TraceConfig,
    pub logging: LoggingConfig,
}

/// Position of the first entry marked default, else of the first entry.
pub open spec fn default_position(entries: Seq<ConfigEntry>) -> Option<int> {
    if exists|k: int| 0 <= k < entries.len() && #[trigger] entries[k].is_default {
        Some(first_default(entries, 0))
    } else if entries.len() > 0 {
        Some(0)
    } else {
        None
    }
}

/// Position of the first entry marked default from `k` on (the length when none).
pub open spec fn first_default(entries: Seq<ConfigEntry>, k: int) -> int
    decreases entries.len() - k,
{
    if k < 0 || k >= entries.len() {
        entries.len() as int
    } else if entries[k].is_default {
        k
    } else {
        first_default(entries, k + 1)
    }
}

/// Position of the first entry named `name` from `k` on (the length when none).
pub open spec fn first_named(entries: Seq<ConfigEntry>, name: Seq<char>, k: int) -> int
    decreases entries.len() - k,
{
    if k < 0 || k >= entries.len() {
        entries.len() as int
    } else if entries[k].name@ == name {
        k
    } else {
        first_named(entries, name, k + 1)
    }
}

fn default_entry(entries: &Vec<ConfigEntry>) -> (r: Option<&ConfigEntry>)
    ensures
        match default_position(entries@) {
            Some(k) => r == Some(&entries@[k]),
            None => r is None,
        },
{
    let mut k: usize = 0;
    while k < entries.len()
        invariant
            k <= entries@.len(),
            forall|q: int| 0 <= q < k ==> !(#[trigger] entries@[q]).is_default,
            first_default(entries@, 0) == first_default(entries@, k as int),
        decreases entries@.len() - k,
    {
        if entries[k].is_default {
            return Some(&entries[k]);
        }
        k = k + 1;
    }
    if entries.len() > 0 {
        Some(&entries[0])
    } else {
        None
    }
}

fn named_entry<'a>(entries: &'a Vec<ConfigEntry>, name: &str) -> (r: Option<&'a ConfigEntry>)
    ensures
        first_named(entries@, name@, 0) < entries@.len() ==> r == Some(&entries@[first_named(entries@, name@, 0)]),
        first_named(entries@, name@, 0) >= entries@.len() ==> r is None,
{
    let wanted = name.to_owned();
    let mut k: usize = 0;
    while k < entries.len()
        invariant
            k <= entries@.len(),
            wanted@ == name@,
            first_named(entries@, name@, 0) == first_named(entries@, name@, k as int),
        decreases entries@.len() - k,
    {
        if entries[k].name == wanted {
            return Some(&entries[k]);
        }
        k = k + 1;
    }
    None
}

fn entry_names(entries: &Vec<ConfigEntry>) -> (r: Vec<String>)
    ensures
        r@.len() == entries@.len(),
        forall|k: int| 0 <= k < r@.len() ==> #[trigger] r@[k]@ == entries@[k].name@,
{
    let mut r: Vec<String> = Vec::new();
    let mut k: usize = 0;
    while k < entries.len()
        invariant
            k <= entries@.len(),
            r@.len() == k,
            forall|q: int| 0 <= q < k ==> #[trigger] r@[q]@ == entries@[q].name@,
        decreases entries@.len() - k,
    {
        r.push(entries[k].name.clone());
        k = k + 1;
    }
    r
}

/// Marks the entry named `name` as the default one and no other.
pub fn mark_default(entries: &mut Vec<ConfigEntry>, name: &str)
    ensures
        final(entries)@.len() == old(entries)@.len(),
        forall|k: int| 0 <= k < final(entries)@.len() ==> #[trigger] final(entries)@[k].name == old(entries)@[k].name
            && final(entries)@[k].is_default == (old(entries)@[k].name@ == name@),
{
    let wanted = name.to_owned();
    let mut k: usize = 0;
    while k < entries.len()
        invariant
            k <= entries@.len(),
            wanted@ == name@,
            entries@.len() == old(entries)@.len(),
            forall|q: int| 0 <= q < k ==> #[trigger] entries@[q].name == old(entries)@[q].name
                && entries@[q].is_default == (old(entries)@[q].name@ == name@),
            forall|q: int| k <= q < entries@.len() ==> #[trigger] entries@[q] == old(entries)@[q],
        decreases entries@.len() - k,
    {
        let flag = entries[k].name == wanted;
        let taken = entries.remove(k);
        let kept = ConfigEntry { name: taken.name, is_default: flag };
        entries.insert(k, kept);
        k = k + 1;
    }
}

impl AppConfig {
    /// The default AI provider: the first marked default, else the first one.
    pub fn get_default_ai_provider(&self) -> (r: Option<&ConfigEntry>)
        ensures
            match default_position(self.ai_providers@) {
                Some(k) => r == Some(&self.ai_providers@[k]),
                None => r is None,
            },
    {
        default_entry(&self.ai_providers)
    }

    /// The AI provider named `name` (the first one so named).
    pub fn get_ai_provider(&self, name: &str) -> (r: Option<&ConfigEntry>)
        ensures
            first_named(self.ai_providers@, name@, 0) < self.ai_providers@.len() ==> r == Some(
                &self.ai_providers@[first_named(self.ai_providers@, name@, 0)],
            ),
            first_named(self.ai_providers@, name@, 0) >= self.ai_providers@.len() ==> r is None,
    {
        named_entry(&self.ai_providers, name)
    }

    /// The default MCP server: the first marked default, else the first one.
    pub fn get_default_mcp_server(&self) -> (r: Option<&ConfigEntry>)
        ensures
            match default_position(self.mcp_servers@) {
                Some(k) => r == Some(&self.mcp_servers@[k]),
                None => r is None,
            },
    {
        default_entry(&self.mcp_servers)
    }

    /// The MCP server named `name` (the first one so named).
    pub fn get_mcp_server(&self, name: &str) -> (r: Option<&ConfigEntry>)
        ensures
            first_named(self.mcp_servers@, name@, 0) < self.mcp_servers@.len() ==> r == Some(
                &self.mcp_servers@[first_named(self.mcp_servers@, name@, 0)],
            ),
            first_named(self.mcp_servers@, name@, 0) >= self.mcp_servers@.len() ==> r is None,
    {
        named_entry(&self.mcp_servers, name)
    }

    /// The names of the AI providers, in order.
    pub fn get_ai_provider_names(&self) -> (r: Vec<String>)
        ensures
            r@.len() == self.ai_providers@.len(),
            forall|k: int| 0 <= k < r@.len() ==> #[trigger] r@[k]@ == self.ai_providers@[k].name@,
    {
        entry_names(&self.ai_providers)
    }

    /// The names of the MCP servers, in order.
    pub fn get_mcp_server_names(&self) -> (r: Vec<String>)
        ensures
            r@.len() == self.mcp_servers@.len(),
            forall|k: int| 0 <= k < r@.len() ==> #[trigger] r@[k]@ == self.mcp_servers@[k].name@,
    {
        entry_names(&self.mcp_servers)
    }
}

} // verus!
