//! Where Antigravity keeps its configuration.

use vstd::prelude::*;

verus! {

/// A location in the file system: a starting directory and the names to
/// descend through from there.
#[derive(Debug)]
pub struct ConfigPath {
    pub base: String,
    pub segments: Vec<String>,
}

impl ConfigPath {
    /// The names below the base, each as its characters.
    pub open spec fn names(self) -> Seq<Seq<char>> {
        self.segments@.map_values(|s: String| s@)
    }
}

/// The configuration directory: the override where one is set, else
/// `.gemini/antigravity` below the home directory.
pub fn get_antigravity_dir(override_dir: Option<String>, home: String) -> (r: ConfigPath)
    ensures
        match override_dir {
            Some(dir) => r.base == dir && r.names() == Seq::<Seq<char>>::empty(),
            None => r.base == home && r.names() == seq![".gemini"@, "antigravity"@],
        },
{
    match override_dir {
        Some(dir) => {
            let r = ConfigPath { base: dir, segments: Vec::new() };
            assert(r.names() =~= Seq::<Seq<char>>::empty());
            r
        },
        None => {
            let mut segments: Vec<String> = Vec::new();
            segments.push(".gemini".to_owned());
            segments.push("antigravity".to_owned());
            let r = ConfigPath { base: home, segments };
            assert(r.names() =~= seq![".gemini"@, "antigravity"@]);
            r
        },
    }
}

/// The configuration file: `mcp_config.json` in the configuration directory.
pub fn get_antigravity_mcp_path(override_dir: Option<String>, home: String) -> (r: ConfigPath)
    ensures
        match override_dir {
            Some(dir) => r.base == dir && r.names() == seq!["mcp_config.json"@],
            None => r.base == home && r.names() == seq![
                ".gemini"@,
                "antigravity"@,
                "mcp_config.json"@,
            ],
        },
{
    let dir = get_antigravity_dir(override_dir, home);
    let mut segments = dir.segments;
    segments.push("mcp_config.json".to_owned());
    let r = ConfigPath { base: dir.base, segments };
    assert(r.names() =~= dir.names().push("mcp_config.json"@));
    r
}

} // verus!
