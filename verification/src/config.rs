//! The central configuration shared by several applications.

use vstd::prelude::*;
use crate::id_map::IdMap;
use crate::json::JsonValue;

verus! {

/// For which applications a server is switched on.
#[derive(Clone, Copy, Debug, PartialEq, Eq)]
pub struct McpApps {
    pub claude: bool,
    pub codex: bool,
    pub gemini: bool,
    pub opencode: bool,
    pub antigravity: bool,
}

/// A server of the unified mapping.
#[derive(Debug)]
pub struct McpServer {
    pub id: String,
    pub name: String,
    pub server: JsonValue,
    pub apps: McpApps,
    pub description: Option<String>,
    pub homepage: Option<String>,
    pub docs: Option<String>,
    pub tags: Vec<String>,
}

/// The raw server entries of one application, by id.
#[derive(Debug)]
pub struct McpConfig {
    pub servers: IdMap<JsonValue>,
}

/// The `mcp` section: one namespace per application, and the unified mapping.
#[derive(Debug)]
pub struct McpRoot {
    pub claude: McpConfig,
    pub codex: McpConfig,
    pub gemini: McpConfig,
    pub opencode: McpConfig,
    pub antigravity: McpConfig,
    pub servers: Option<IdMap<McpServer>>,
}

/// The root of the central configuration.
#[derive(Debug)]
pub struct MultiAppConfig {
    pub mcp: McpRoot,
}

impl McpApps {
    /// Only Antigravity is switched on.
    pub open spec fn only_antigravity() -> McpApps {
        McpApps { claude: false, codex: false, gemini: false, opencode: false, antigravity: true }
    }
}

impl McpServer {
    /// The same server, switched on for Antigravity.
    pub open spec fn with_antigravity(self) -> McpServer {
        McpServer { apps: McpApps { antigravity: true, ..self.apps }, ..self }
    }

    /// The server that an import creates for `id` with the connection
    /// specification `spec`: named after its id, switched on for Antigravity
    /// alone, without metadata.
    pub open spec fn is_fresh_import(self, id: Seq<char>, spec: JsonValue) -> bool {
        &&& self.id@ == id
        &&& self.name@ == id
        &&& self.server == spec
        &&& self.apps == McpApps::only_antigravity()
        &&& self.description is None
        &&& self.homepage is None
        &&& self.docs is None
        &&& self.tags@.len() == 0
    }
}

impl McpConfig {
    /// A namespace without entries.
    pub fn new() -> (r: McpConfig)
        ensures
            r.servers@ == Map::<Seq<char>, JsonValue>::empty(),
    {
        McpConfig { servers: IdMap::new() }
    }
}

impl MultiAppConfig {
    /// The unified mapping, empty where the configuration has none.
    pub open spec fn unified(self) -> Map<Seq<char>, McpServer> {
        match self.mcp.servers {
            Some(m) => m@,
            None => Map::empty(),
        }
    }

    /// A configuration without any server: every application's namespace is
    /// empty, and there is no unified mapping yet.
    pub fn new() -> (r: MultiAppConfig)
        ensures
            r.mcp.servers is None,
            r.unified() == Map::<Seq<char>, McpServer>::empty(),
            r.mcp.claude.servers@ == Map::<Seq<char>, JsonValue>::empty(),
            r.mcp.codex.servers@ == Map::<Seq<char>, JsonValue>::empty(),
            r.mcp.gemini.servers@ == Map::<Seq<char>, JsonValue>::empty(),
            r.mcp.opencode.servers@ == Map::<Seq<char>, JsonValue>::empty(),
            r.mcp.antigravity.servers@ == Map::<Seq<char>, JsonValue>::empty(),
    {
        MultiAppConfig {
            mcp: McpRoot {
                claude: McpConfig::new(),
                codex: McpConfig::new(),
                gemini: McpConfig::new(),
                opencode: McpConfig::new(),
                antigravity: McpConfig::new(),
                servers: None,
            },
        }
    }
}

} // verus!
