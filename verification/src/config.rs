//! Settings: the chat servers, the defaults, the theme choice, and the
//! configured MCP servers. Reading and decoding the files is the caller's
//! part; these are the decoded values and their defaults.
use vstd::prelude::*;
use crate::text::{chars_eq_str, chars_of};

verus! {

/// One OpenAI-compatible server.
pub struct ServerConfig {
    pub name: String,
    pub url: String,
    pub api_key: Option<String>,
}

/// Which server and model a session starts with, and whether thinking
/// blocks are shown.
pub struct DefaultsConfig {
    pub server: String,
    pub model: String,
    pub show_thinking: bool,
}

/// The long-term memory settings.
pub struct MemoryConfig {
    pub enabled: bool,
    pub embedding_model: String,
    pub embedding_server: String,
    pub top_n: u64,
    pub decay_half_life_days: u64,
    pub extraction_on_clear: bool,
}

/// The theme preset and per-color overrides (`name`, `#rrggbb`).
pub struct ThemeConfig {
    pub preset: String,
    pub colors: Vec<(String, String)>,
}

/// The whole settings file. `servers` maps a key to a server; each key
/// occurs once.
pub struct AppConfig {
    pub servers: Vec<(String, ServerConfig)>,
    pub defaults: DefaultsConfig,
    pub theme: ThemeConfig,
    pub memory: MemoryConfig,
}

/// The keys of a server list.
pub open spec fn server_keys(s: Seq<(String, ServerConfig)>) -> Seq<Seq<char>> {
    s.map_values(|p: (String, ServerConfig)| p.0@)
}

/// Each key occurs at most once.
pub open spec fn keys_unique(ks: Seq<Seq<char>>) -> bool {
    forall|i: int, j: int| 0 <= i < ks.len() && 0 <= j < ks.len() && i != j ==> ks[i] != ks[j]
}

/// The position of `key` among `ks`.
pub open spec fn key_index(ks: Seq<Seq<char>>, key: Seq<char>) -> Option<int> {
    if exists|i: int| 0 <= i < ks.len() && ks[i] == key {
        Some(choose|i: int| 0 <= i < ks.len() && ks[i] == key)
    } else {
        None
    }
}

pub open spec fn default_server_spec() -> Seq<char> {
    "local"@
}

pub open spec fn default_model_spec() -> Seq<char> {
    "llama3:8b"@
}

pub open spec fn default_preset_spec() -> Seq<char> {
    "dark"@
}

/// The server key used when the settings name none.
pub fn default_server() -> (r: String)
    ensures
        r@ == default_server_spec(),
{
    "local".to_owned()
}

/// The model used when the settings name none.
pub fn default_model() -> (r: String)
    ensures
        r@ == default_model_spec(),
{
    "llama3:8b".to_owned()
}

/// The theme preset used when the settings name none.
pub fn default_preset() -> (r: String)
    ensures
        r@ == default_preset_spec(),
{
    "dark".to_owned()
}

impl Default for DefaultsConfig {
    fn default() -> (r: Self)
        ensures
            r.server@ == default_server_spec(),
            r.model@ == default_model_spec(),
            r.show_thinking,
    {
        DefaultsConfig { server: default_server(), model: default_model(), show_thinking: true }
    }
}

impl Default for MemoryConfig {
    /// Memory off; when turned on, `nomic-embed-text` on the `local`
    /// server, eight memories a turn, a ninety-day half-life, and
    /// extraction on `/clear`.
    fn default() -> (r: Self)
        ensures
            !r.enabled,
            r.embedding_model@ == "nomic-embed-text"@,
            r.embedding_server@ == default_server_spec(),
            r.top_n == 8,
            r.decay_half_life_days == 90,
            r.extraction_on_clear,
    {
        MemoryConfig {
            enabled: false,
            embedding_model: "nomic-embed-text".to_owned(),
            embedding_server: default_server(),
            top_n: 8,
            decay_half_life_days: 90,
            extraction_on_clear: true,
        }
    }
}

impl Default for ThemeConfig {
    fn default() -> (r: Self)
        ensures
            r.preset@ == default_preset_spec(),
            r.colors@.len() == 0,
    {
        ThemeConfig { preset: default_preset(), colors: Vec::new() }
    }
}

impl ServerConfig {
    /// A copy of this server.
    pub fn duplicate(&self) -> (r: ServerConfig)
        ensures
            r == *self,
    {
        ServerConfig {
            name: self.name.clone(),
            url: self.url.clone(),
            api_key: match &self.api_key {
                Some(k) => Some(k.clone()),
                None => None,
            },
        }
    }
}

impl AppConfig {
    pub open spec fn wf(&self) -> bool {
        keys_unique(server_keys(self.servers@))
    }

    /// The server stored under `key`.
    pub fn server(&self, key: &str) -> (r: Option<&ServerConfig>)
        requires
            self.wf(),
        ensures
            match key_index(server_keys(self.servers@), key@) {
                Some(i) => r == Some(&self.servers@[i].1),
                None => r is None,
            },
    {
        let k = chars_of(key);
        let mut i: usize = 0;
        while i < self.servers.len()
            invariant
                i <= self.servers.len(),
                k@ == key@,
                self.wf(),
                forall|j: int| 0 <= j < i ==> server_keys(self.servers@)[j] != key@,
            decreases self.servers.len() - i,
        {
            if chars_eq_str(&k, self.servers[i].0.as_str()) {
                let ghost ks = server_keys(self.servers@);
                assert(ks[i as int] == key@);
                proof {
                    let c = choose|j: int| 0 <= j < ks.len() && ks[j] == key@;
                    assert(ks[c] == key@);
                    assert(c == i);
                }
                return Some(&self.servers[i].1);
            }
            i = i + 1;
        }
        None
    }

    /// Whether a server is stored under `key`.
    pub fn contains_server(&self, key: &str) -> (r: bool)
        requires
            self.wf(),
        ensures
            r == key_index(server_keys(self.servers@), key@) is Some,
    {
        self.server(key).is_some()
    }
}

impl Default for AppConfig {
    /// One server, `local`: a local Ollama without a key.
    fn default() -> (r: Self)
        ensures
            r.wf(),
            r.servers@.len() == 1,
            r.servers@[0].0@ == default_server_spec(),
            r.servers@[0].1.name@ == "Local Ollama"@,
            r.servers@[0].1.url@ == "http://localhost:11434/v1"@,
            r.servers@[0].1.api_key is None,
            r.defaults.server@ == default_server_spec(),
            r.defaults.model@ == default_model_spec(),
            r.defaults.show_thinking,
            r.theme.preset@ == default_preset_spec(),
            r.theme.colors@.len() == 0,
            !r.memory.enabled,
            r.memory.extraction_on_clear,
    {
        let mut servers: Vec<(String, ServerConfig)> = Vec::new();
        servers.push((
            "local".to_owned(),
            ServerConfig {
                name: "Local Ollama".to_owned(),
                url: "http://localhost:11434/v1".to_owned(),
                api_key: None,
            },
        ));
        AppConfig {
            servers,
            defaults: DefaultsConfig::default(),
            theme: ThemeConfig::default(),
            memory: MemoryConfig::default(),
        }
    }
}

// ───────────────────────── MCP servers ─────────────────────────

/// One configured MCP server: a command to spawn, or a URL.
pub struct McpServerEntry {
    pub command: Option<String>,
    pub args: Option<Vec<String>>,
    pub url: Option<String>,
    pub transport: Option<String>,
}

/// The configured MCP servers, by name.
pub struct McpConfig {
    pub mcp_servers: Vec<(String, McpServerEntry)>,
}

/// The transport to use: the one named, else `stdio` for a command, else
/// `streamable-http` for a URL, else `unknown`.
pub open spec fn transport_spec(e: McpServerEntry) -> Seq<char> {
    match e.transport {
        Some(t) => t@,
        None => if e.command is Some {
            "stdio"@
        } else if e.url is Some {
            "streamable-http"@
        } else {
            "unknown"@
        },
    }
}

impl McpServerEntry {
    pub fn detected_transport(&self) -> (r: &str)
        ensures
            r@ == transport_spec(*self),
    {
        if let Some(t) = &self.transport {
            return t.as_str();
        }
        if self.command.is_some() {
            return "stdio";
        }
        if self.url.is_some() {
            return "streamable-http";
        }
        "unknown"
    }
}

impl Default for McpConfig {
    fn default() -> (r: Self)
        ensures
            r.mcp_servers@.len() == 0,
    {
        McpConfig { mcp_servers: Vec::new() }
    }
}

} // verus!
