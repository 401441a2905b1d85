use antigravity_mcp::config::{McpApps, McpServer, MultiAppConfig};
use antigravity_mcp::id_map::IdMap;
use antigravity_mcp::import::import_from_antigravity;
use antigravity_mcp::json::JsonValue;
use antigravity_mcp::store::{read_mcp_servers_map, set_mcp_servers_map, FileRead, StoreError};
use antigravity_mcp::sync::{
    collect_enabled_servers, entry_enabled, remove_server_from_antigravity,
    should_sync_antigravity_mcp, sync_enabled_to_antigravity, sync_single_server_to_antigravity,
};
use serde_json::Value;

fn from_outside(v: &Value) -> JsonValue {
    match v {
        Value::Null => JsonValue::Null,
        Value::Bool(b) => JsonValue::Bool(*b),
        Value::Number(n) => JsonValue::Number(n.to_string()),
        Value::String(s) => JsonValue::Text(s.clone()),
        Value::Array(items) => JsonValue::Array(items.iter().map(from_outside).collect()),
        Value::Object(fields) => {
            let mut m: IdMap<JsonValue> = IdMap::new();
            for (k, x) in fields.iter() {
                m.insert(k.clone(), from_outside(x));
            }
            JsonValue::Object(m)
        }
    }
}

fn to_outside(v: &JsonValue) -> Value {
    match v {
        JsonValue::Null => Value::Null,
        JsonValue::Bool(b) => Value::Bool(*b),
        JsonValue::Number(t) => serde_json::from_str(t).unwrap(),
        JsonValue::Text(s) => Value::String(s.clone()),
        JsonValue::Array(items) => Value::Array(items.iter().map(to_outside).collect()),
        JsonValue::Object(m) => Value::Object(map_to_outside(m)),
    }
}

fn map_to_outside(m: &IdMap<JsonValue>) -> serde_json::Map<String, Value> {
    let mut out = serde_json::Map::new();
    for i in 0..m.len() {
        out.insert(m.id_at(i).clone(), to_outside(m.value_at(i)));
    }
    out
}

fn parse(text: &str) -> Value {
    serde_json::from_str(text).unwrap()
}

fn json(text: &str) -> JsonValue {
    from_outside(&parse(text))
}

fn servers(text: &str) -> IdMap<JsonValue> {
    match json(text) {
        JsonValue::Object(m) => m,
        _ => panic!("not an object"),
    }
}

/// Stands for the validator's extraction: the `server` field, which must be
/// an object.
fn extract_all(entries: &IdMap<JsonValue>) -> IdMap<Result<JsonValue, String>> {
    let mut out = IdMap::new();
    for i in 0..entries.len() {
        let raw = to_outside(entries.value_at(i));
        let outcome = match raw.get("server") {
            Some(s) if s.is_object() => Ok(from_outside(s)),
            _ => Err("no server object".to_string()),
        };
        out.insert(entries.id_at(i).clone(), outcome);
    }
    out
}

/// Stands for the validator's verdicts: a spec needs a `command` string.
fn reject_all(external: &IdMap<JsonValue>) -> IdMap<String> {
    let mut out = IdMap::new();
    for i in 0..external.len() {
        let raw = to_outside(external.value_at(i));
        if raw.get("command").and_then(|c| c.as_str()).is_none() {
            out.insert(external.id_at(i).clone(), "missing command".to_string());
        }
    }
    out
}

fn config_with_entries(text: &str) -> MultiAppConfig {
    let mut cfg = MultiAppConfig::new();
    cfg.mcp.antigravity.servers = servers(text);
    cfg
}

fn existing_server(id: &str, antigravity: bool) -> McpServer {
    McpServer {
        id: id.to_string(),
        name: "Display".to_string(),
        server: json(r#"{"command":"old"}"#),
        apps: McpApps { claude: true, codex: false, gemini: false, opencode: false, antigravity },
        description: Some("d".to_string()),
        homepage: None,
        docs: None,
        tags: vec!["t".to_string()],
    }
}

fn io_error() -> StoreError {
    StoreError::Io { path: "/x/mcp_config.json".to_string(), message: "denied".to_string() }
}

#[test]
fn new_config_holds_no_server() {
    let cfg = MultiAppConfig::new();
    assert!(cfg.mcp.servers.is_none());
    assert!(cfg.mcp.claude.servers.is_empty());
    assert!(cfg.mcp.codex.servers.is_empty());
    assert!(cfg.mcp.gemini.servers.is_empty());
    assert!(cfg.mcp.opencode.servers.is_empty());
    assert!(cfg.mcp.antigravity.servers.is_empty());
}

#[test]
fn should_sync_follows_directory() {
    assert!(should_sync_antigravity_mcp(true));
    assert!(!should_sync_antigravity_mcp(false));
}

#[test]
fn enabled_needs_boolean_true() {
    assert!(entry_enabled(&json(r#"{"enabled":true}"#)));
    assert!(!entry_enabled(&json(r#"{"enabled":false}"#)));
    assert!(!entry_enabled(&json(r#"{}"#)));
    assert!(!entry_enabled(&json(r#"{"enabled":"true"}"#)));
    assert!(!entry_enabled(&json(r#"{"enabled":1}"#)));
    assert!(!entry_enabled(&json(r#"{"enabled":null}"#)));
    assert!(!entry_enabled(&json(r#"[true]"#)));
    assert!(!entry_enabled(&json(r#"true"#)));
}

#[test]
fn collect_excludes_entries_not_enabled() {
    let cfg = config_with_entries(
        r#"{"a":{"enabled":false,"server":{"command":"x"}},
            "b":{"server":{"command":"y"}},
            "c":{"enabled":"yes","server":{"command":"z"}}}"#,
    );
    let extracted = extract_all(&cfg.mcp.antigravity.servers);
    let got = collect_enabled_servers(&cfg.mcp.antigravity, extracted);
    assert_eq!(got.servers.len(), 0);
    assert!(got.skipped.is_empty());
}

#[test]
fn collect_includes_enabled_entries_with_their_spec() {
    let cfg = config_with_entries(
        r#"{"a":{"enabled":true,"server":{"command":"x","args":["1"]}},
            "b":{"enabled":false,"server":{"command":"y"}},
            "c":{"enabled":true,"server":{"url":"http://h"}}}"#,
    );
    let extracted = extract_all(&cfg.mcp.antigravity.servers);
    let got = collect_enabled_servers(&cfg.mcp.antigravity, extracted);
    assert_eq!(
        Value::Object(map_to_outside(&got.servers)),
        parse(r#"{"a":{"command":"x","args":["1"]},"c":{"url":"http://h"}}"#)
    );
    assert!(got.skipped.is_empty());
}

#[test]
fn collect_skips_and_reports_failed_extraction() {
    let cfg = config_with_entries(
        r#"{"bad":{"enabled":true,"server":"nope"},
            "quiet":{"enabled":false},
            "good":{"enabled":true,"server":{"command":"x"}}}"#,
    );
    let extracted = extract_all(&cfg.mcp.antigravity.servers);
    let got = collect_enabled_servers(&cfg.mcp.antigravity, extracted);
    assert_eq!(Value::Object(map_to_outside(&got.servers)), parse(r#"{"good":{"command":"x"}}"#));
    assert_eq!(got.skipped.len(), 1);
    assert_eq!(got.skipped[0].id, "bad");
    assert_eq!(got.skipped[0].message, "no server object");
}

#[test]
fn collect_reports_enabled_entry_without_outcome() {
    let cfg = config_with_entries(
        r#"{"a":{"enabled":true,"server":{"command":"x"}},"b":{"enabled":false}}"#,
    );
    let got = collect_enabled_servers(&cfg.mcp.antigravity, IdMap::new());
    assert_eq!(got.servers.len(), 0);
    assert_eq!(got.skipped.len(), 1);
    assert_eq!(got.skipped[0].id, "a");
    assert_eq!(got.skipped[0].message, "the validator gave no outcome for this entry");
}

#[test]
fn collect_ignores_outcome_without_entry() {
    let cfg = config_with_entries(r#"{"a":{"enabled":true,"server":{"command":"x"}}}"#);
    let mut extracted = extract_all(&cfg.mcp.antigravity.servers);
    extracted.insert("ghost".to_string(), Ok(json(r#"{"command":"g"}"#)));
    extracted.insert("gone".to_string(), Err("nothing".to_string()));
    let got = collect_enabled_servers(&cfg.mcp.antigravity, extracted);
    assert_eq!(Value::Object(map_to_outside(&got.servers)), parse(r#"{"a":{"command":"x"}}"#));
    assert!(got.skipped.is_empty());
}

#[test]
fn read_missing_file_is_empty() {
    let got = read_mcp_servers_map(FileRead::Missing).unwrap();
    assert!(got.is_empty());
}

#[test]
fn read_failed_file_is_error() {
    match read_mcp_servers_map(FileRead::Failed(io_error())) {
        Err(StoreError::Io { path, message }) => {
            assert_eq!(path, "/x/mcp_config.json");
            assert_eq!(message, "denied");
        }
        _ => panic!("expected the read error"),
    }
    let bad = StoreError::Json { path: "p".to_string(), message: "eof".to_string() };
    match read_mcp_servers_map(FileRead::Failed(bad)) {
        Err(StoreError::Json { path, message }) => {
            assert_eq!(path, "p");
            assert_eq!(message, "eof");
        }
        _ => panic!("expected the decode error"),
    }
}

#[test]
fn read_extracts_servers_field() {
    let doc = json(r#"{"theme":"dark","mcpServers":{"web":{"command":"w"},"fs":{"command":"f"}}}"#);
    let got = read_mcp_servers_map(FileRead::Document(doc)).unwrap();
    assert_eq!(
        Value::Object(map_to_outside(&got)),
        parse(r#"{"web":{"command":"w"},"fs":{"command":"f"}}"#)
    );
}

#[test]
fn read_absent_or_malformed_field_is_empty() {
    assert!(read_mcp_servers_map(FileRead::Document(json(r#"{"theme":"dark"}"#))).unwrap().is_empty());
    assert!(read_mcp_servers_map(FileRead::Document(json(r#"{"mcpServers":[1,2]}"#)))
        .unwrap()
        .is_empty());
    assert!(read_mcp_servers_map(FileRead::Document(json(r#"{"mcpServers":"x"}"#)))
        .unwrap()
        .is_empty());
    assert!(read_mcp_servers_map(FileRead::Document(json(r#"[1]"#))).unwrap().is_empty());
    assert!(read_mcp_servers_map(FileRead::Document(json(r#"null"#))).unwrap().is_empty());
}

#[test]
fn write_preserves_other_fields() {
    let existing = FileRead::Document(json(r#"{"theme":"dark","mcpServers":{"old":{"command":"o"}},"n":3}"#));
    let doc = set_mcp_servers_map(existing, servers(r#"{"new":{"command":"c"}}"#));
    assert_eq!(
        to_outside(&doc),
        parse(r#"{"theme":"dark","n":3,"mcpServers":{"new":{"command":"c"}}}"#)
    );
}

#[test]
fn write_starts_empty_without_readable_document() {
    let want = parse(r#"{"mcpServers":{"a":{"command":"c"}}}"#);
    let doc = set_mcp_servers_map(FileRead::Missing, servers(r#"{"a":{"command":"c"}}"#));
    assert_eq!(to_outside(&doc), want);
    let bad = StoreError::Json { path: "p".to_string(), message: "eof".to_string() };
    let doc = set_mcp_servers_map(FileRead::Failed(bad), servers(r#"{"a":{"command":"c"}}"#));
    assert_eq!(to_outside(&doc), want);
    let doc = set_mcp_servers_map(FileRead::Document(JsonValue::Null), servers(r#"{"a":{"command":"c"}}"#));
    assert_eq!(to_outside(&doc), want);
}

#[test]
fn write_over_document_that_is_no_object_starts_empty() {
    let want = parse(r#"{"mcpServers":{"a":{"command":"c"}}}"#);
    for found in ["[1, 2]", "3", "\"text\"", "true"] {
        let doc = set_mcp_servers_map(
            FileRead::Document(json(found)),
            servers(r#"{"a":{"command":"c"}}"#),
        );
        assert_eq!(to_outside(&doc), want);
        let back = read_mcp_servers_map(FileRead::Document(doc)).unwrap();
        assert_eq!(Value::Object(map_to_outside(&back)), parse(r#"{"a":{"command":"c"}}"#));
    }
}

#[test]
fn single_sync_and_remove_over_document_that_is_no_object() {
    let cfg = MultiAppConfig::new();
    let doc = sync_single_server_to_antigravity(
        &cfg,
        &"web".to_string(),
        json(r#"{"command":"w"}"#),
        true,
        FileRead::Document(json("[1, 2]")),
    )
    .unwrap()
    .unwrap();
    assert_eq!(to_outside(&doc), parse(r#"{"mcpServers":{"web":{"command":"w"}}}"#));
    let doc = remove_server_from_antigravity(&"zz".to_string(), true, FileRead::Document(json("[1, 2]")))
        .unwrap()
        .unwrap();
    assert_eq!(to_outside(&doc), parse(r#"{"mcpServers":{}}"#));
    let before = read_mcp_servers_map(FileRead::Document(json("7"))).unwrap();
    assert!(before.is_empty());
    let doc = remove_server_from_antigravity(&"zz".to_string(), true, FileRead::Document(json("7")))
        .unwrap()
        .unwrap();
    assert!(read_mcp_servers_map(FileRead::Document(doc)).unwrap().is_empty());
}

#[test]
fn sync_out_over_document_that_is_no_object() {
    let cfg = config_with_entries(r#"{"fs":{"enabled":true,"server":{"command":"npx"}}}"#);
    let extracted = extract_all(&cfg.mcp.antigravity.servers);
    let out = sync_enabled_to_antigravity(&cfg, extracted, true, FileRead::Document(json("[]")))
        .unwrap();
    assert_eq!(to_outside(&out.document), parse(r#"{"mcpServers":{"fs":{"command":"npx"}}}"#));
    assert!(out.skipped.is_empty());
}

#[test]
fn sync_out_hands_back_skipped_entries() {
    let cfg = config_with_entries(
        r#"{"bad":{"enabled":true,"server":3},"good":{"enabled":true,"server":{"command":"x"}}}"#,
    );
    let extracted = extract_all(&cfg.mcp.antigravity.servers);
    let out = sync_enabled_to_antigravity(&cfg, extracted, true, FileRead::Missing).unwrap();
    assert_eq!(to_outside(&out.document), parse(r#"{"mcpServers":{"good":{"command":"x"}}}"#));
    assert_eq!(out.skipped.len(), 1);
    assert_eq!(out.skipped[0].id, "bad");
    assert_eq!(out.skipped[0].message, "no server object");
}

#[test]
fn sync_out_is_noop_without_directory() {
    let cfg = config_with_entries(r#"{"fs":{"enabled":true,"server":{"command":"npx"}}}"#);
    let extracted = extract_all(&cfg.mcp.antigravity.servers);
    assert!(sync_enabled_to_antigravity(&cfg, extracted, false, FileRead::Missing).is_none());
}

#[test]
fn sync_out_without_directory_ignores_what_the_file_holds() {
    let cfg = config_with_entries(r#"{"fs":{"enabled":true,"server":{"command":"npx"}}}"#);
    let extracted = extract_all(&cfg.mcp.antigravity.servers);
    let odd = FileRead::Document(json("[1,2]"));
    assert!(sync_enabled_to_antigravity(&cfg, extracted, false, odd).is_none());
    let id = "fs".to_string();
    assert!(remove_server_from_antigravity(&id, false, FileRead::Document(json("3")))
        .unwrap()
        .is_none());
}

#[test]
fn sync_out_writes_enabled_entry() {
    let cfg = config_with_entries(
        r#"{"fs":{"id":"fs","enabled":true,"server":{"command":"npx","args":["-y","server-fs"]}}}"#,
    );
    let extracted = extract_all(&cfg.mcp.antigravity.servers);
    let doc = sync_enabled_to_antigravity(&cfg, extracted, true, FileRead::Missing).unwrap().document;
    assert_eq!(
        to_outside(&doc),
        parse(r#"{"mcpServers":{"fs":{"command":"npx","args":["-y","server-fs"]}}}"#)
    );
}

#[test]
fn sync_out_replaces_servers_wholesale() {
    let cfg = config_with_entries(
        r#"{"fs":{"enabled":true,"server":{"command":"npx"}},"off":{"enabled":false,"server":{"command":"q"}}}"#,
    );
    let extracted = extract_all(&cfg.mcp.antigravity.servers);
    let existing = FileRead::Document(json(r#"{"keep":1,"mcpServers":{"stale":{"command":"s"},"off":{"command":"q"}}}"#));
    let doc = sync_enabled_to_antigravity(&cfg, extracted, true, existing).unwrap().document;
    assert_eq!(to_outside(&doc), parse(r#"{"keep":1,"mcpServers":{"fs":{"command":"npx"}}}"#));
}

#[test]
fn sync_out_twice_gives_same_document() {
    let cfg = config_with_entries(
        r#"{"fs":{"enabled":true,"server":{"command":"npx"}},"db":{"enabled":true,"server":{"command":"pg"}}}"#,
    );
    let existing = FileRead::Document(json(r#"{"keep":[1,2],"mcpServers":{"stale":{}}}"#));
    let first = sync_enabled_to_antigravity(
        &cfg,
        extract_all(&cfg.mcp.antigravity.servers),
        true,
        existing,
    )
    .unwrap()
    .document;
    let first_out = to_outside(&first);
    let second = sync_enabled_to_antigravity(
        &cfg,
        extract_all(&cfg.mcp.antigravity.servers),
        true,
        FileRead::Document(first),
    )
    .unwrap()
    .document;
    assert_eq!(to_outside(&second), first_out);
    assert_eq!(
        first_out,
        parse(r#"{"keep":[1,2],"mcpServers":{"fs":{"command":"npx"},"db":{"command":"pg"}}}"#)
    );
}

#[test]
fn import_creates_missing_entry() {
    let mut cfg = MultiAppConfig::new();
    let external =
        read_mcp_servers_map(FileRead::Document(json(r#"{"mcpServers":{"web":{"command":"w","args":[]}}}"#)))
            .unwrap();
    let rejected = reject_all(&external);
    let changed = import_from_antigravity(&mut cfg, Ok(external), &rejected).unwrap();
    assert_eq!(changed, 1);
    let unified = cfg.mcp.servers.as_ref().unwrap();
    assert_eq!(unified.len(), 1);
    let web = unified.get(&"web".to_string()).unwrap();
    assert_eq!(web.id, "web");
    assert_eq!(web.name, "web");
    assert_eq!(to_outside(&web.server), parse(r#"{"command":"w","args":[]}"#));
    assert_eq!(
        web.apps,
        McpApps { claude: false, codex: false, gemini: false, opencode: false, antigravity: true }
    );
    assert!(web.description.is_none());
    assert!(web.homepage.is_none());
    assert!(web.docs.is_none());
    assert!(web.tags.is_empty());
}

#[test]
fn import_skips_invalid_entry_and_keeps_going() {
    let mut cfg = MultiAppConfig::new();
    let external = servers(r#"{"bad":{"args":["x"]},"good":{"command":"g"},"also":{"command":"a"}}"#);
    let rejected = reject_all(&external);
    assert_eq!(rejected.len(), 1);
    let changed = import_from_antigravity(&mut cfg, Ok(external), &rejected).unwrap();
    assert_eq!(changed, 2);
    let unified = cfg.mcp.servers.as_ref().unwrap();
    assert!(unified.get(&"bad".to_string()).is_none());
    assert!(unified.get(&"good".to_string()).is_some());
    assert!(unified.get(&"also".to_string()).is_some());
}

#[test]
fn import_of_only_invalid_entries_changes_nothing_else() {
    let mut cfg = MultiAppConfig::new();
    let external = servers(r#"{"bad":{"args":["x"]}}"#);
    let rejected = reject_all(&external);
    let changed = import_from_antigravity(&mut cfg, Ok(external), &rejected).unwrap();
    assert_eq!(changed, 0);
    assert_eq!(cfg.mcp.servers.as_ref().map(|m| m.len()), Some(0));
}

#[test]
fn import_flips_flag_of_existing_entry() {
    let mut cfg = MultiAppConfig::new();
    let mut unified = IdMap::new();
    unified.insert("web".to_string(), existing_server("web", false));
    unified.insert("other".to_string(), existing_server("other", false));
    cfg.mcp.servers = Some(unified);
    let external = servers(r#"{"web":{"command":"new"}}"#);
    let changed = import_from_antigravity(&mut cfg, Ok(external), &IdMap::new()).unwrap();
    assert_eq!(changed, 1);
    let unified = cfg.mcp.servers.as_ref().unwrap();
    assert_eq!(unified.len(), 2);
    let web = unified.get(&"web".to_string()).unwrap();
    assert!(web.apps.antigravity);
    assert!(web.apps.claude);
    assert_eq!(web.name, "Display");
    assert_eq!(to_outside(&web.server), parse(r#"{"command":"old"}"#));
    assert_eq!(web.description.as_deref(), Some("d"));
    assert_eq!(web.tags, vec!["t".to_string()]);
    let other = unified.get(&"other".to_string()).unwrap();
    assert!(!other.apps.antigravity);
}

#[test]
fn import_counts_nothing_when_flag_already_set() {
    let mut cfg = MultiAppConfig::new();
    let mut unified = IdMap::new();
    unified.insert("web".to_string(), existing_server("web", true));
    cfg.mcp.servers = Some(unified);
    let changed =
        import_from_antigravity(&mut cfg, Ok(servers(r#"{"web":{"command":"new"}}"#)), &IdMap::new())
            .unwrap();
    assert_eq!(changed, 0);
    assert_eq!(cfg.mcp.servers.as_ref().unwrap().len(), 1);
}

#[test]
fn import_twice_changes_nothing_the_second_time() {
    let mut cfg = MultiAppConfig::new();
    let mut unified = IdMap::new();
    unified.insert("keep".to_string(), existing_server("keep", false));
    unified.insert("web".to_string(), existing_server("web", false));
    cfg.mcp.servers = Some(unified);
    let text = r#"{"web":{"command":"w"},"fs":{"command":"f"},"bad":{}}"#;
    let first = servers(text);
    let rejected = reject_all(&first);
    assert_eq!(import_from_antigravity(&mut cfg, Ok(first), &rejected).unwrap(), 2);
    assert_eq!(import_from_antigravity(&mut cfg, Ok(servers(text)), &rejected).unwrap(), 0);
    let unified = cfg.mcp.servers.as_ref().unwrap();
    assert_eq!(unified.len(), 3);
    assert!(unified.get(&"keep".to_string()).is_some());
    assert!(!unified.get(&"keep".to_string()).unwrap().apps.antigravity);
    assert!(unified.get(&"web".to_string()).unwrap().apps.antigravity);
    assert!(unified.get(&"fs".to_string()).unwrap().apps.antigravity);
}

#[test]
fn import_of_empty_store_leaves_config_alone() {
    let mut cfg = MultiAppConfig::new();
    let external = read_mcp_servers_map(FileRead::Missing).unwrap();
    assert_eq!(import_from_antigravity(&mut cfg, Ok(external), &IdMap::new()).unwrap(), 0);
    assert!(cfg.mcp.servers.is_none());
}

#[test]
fn import_hands_on_read_error() {
    let mut cfg = MultiAppConfig::new();
    let read = read_mcp_servers_map(FileRead::Failed(io_error()));
    match import_from_antigravity(&mut cfg, read, &IdMap::new()) {
        Err(StoreError::Io { path, .. }) => assert_eq!(path, "/x/mcp_config.json"),
        _ => panic!("expected the read error"),
    }
    assert!(cfg.mcp.servers.is_none());
}

#[test]
fn single_sync_then_read_returns_spec() {
    let cfg = MultiAppConfig::new();
    let existing = FileRead::Document(json(r#"{"x":true,"mcpServers":{"a":{"command":"a"}}}"#));
    let doc = sync_single_server_to_antigravity(
        &cfg,
        &"web".to_string(),
        json(r#"{"command":"w","env":{"K":"V"}}"#),
        true,
        existing,
    )
    .unwrap()
    .unwrap();
    assert_eq!(
        to_outside(&doc),
        parse(r#"{"x":true,"mcpServers":{"a":{"command":"a"},"web":{"command":"w","env":{"K":"V"}}}}"#)
    );
    let back = read_mcp_servers_map(FileRead::Document(doc)).unwrap();
    assert_eq!(
        to_outside(back.get(&"web".to_string()).unwrap()),
        parse(r#"{"command":"w","env":{"K":"V"}}"#)
    );
}

#[test]
fn single_sync_replaces_existing_id() {
    let cfg = MultiAppConfig::new();
    let existing = FileRead::Document(json(r#"{"mcpServers":{"web":{"command":"old"}}}"#));
    let doc = sync_single_server_to_antigravity(
        &cfg,
        &"web".to_string(),
        json(r#"{"command":"new"}"#),
        true,
        existing,
    )
    .unwrap()
    .unwrap();
    assert_eq!(to_outside(&doc), parse(r#"{"mcpServers":{"web":{"command":"new"}}}"#));
}

#[test]
fn single_sync_without_directory_or_with_failed_read() {
    let cfg = MultiAppConfig::new();
    let id = "web".to_string();
    assert!(sync_single_server_to_antigravity(&cfg, &id, json("{}"), false, FileRead::Missing)
        .unwrap()
        .is_none());
    assert!(sync_single_server_to_antigravity(&cfg, &id, json("{}"), false, FileRead::Failed(io_error()))
        .unwrap()
        .is_none());
    assert!(matches!(
        sync_single_server_to_antigravity(&cfg, &id, json("{}"), true, FileRead::Failed(io_error())),
        Err(StoreError::Io { .. })
    ));
}

#[test]
fn remove_existing_id() {
    let existing = FileRead::Document(json(r#"{"k":1,"mcpServers":{"a":{"command":"a"},"b":{"command":"b"}}}"#));
    let doc = remove_server_from_antigravity(&"a".to_string(), true, existing).unwrap().unwrap();
    assert_eq!(to_outside(&doc), parse(r#"{"k":1,"mcpServers":{"b":{"command":"b"}}}"#));
}

#[test]
fn remove_missing_id_leaves_store_unchanged() {
    let text = r#"{"k":1,"mcpServers":{"a":{"command":"a"},"b":{"command":"b"}}}"#;
    let doc = remove_server_from_antigravity(&"zz".to_string(), true, FileRead::Document(json(text)))
        .unwrap()
        .unwrap();
    assert_eq!(to_outside(&doc), parse(text));
}

#[test]
fn remove_without_directory_or_with_failed_read() {
    let id = "a".to_string();
    assert!(remove_server_from_antigravity(&id, false, FileRead::Missing).unwrap().is_none());
    let bad = StoreError::Json { path: "p".to_string(), message: "eof".to_string() };
    assert!(matches!(
        remove_server_from_antigravity(&id, true, FileRead::Failed(bad)),
        Err(StoreError::Json { .. })
    ));
    let doc = remove_server_from_antigravity(&id, true, FileRead::Missing).unwrap().unwrap();
    assert_eq!(to_outside(&doc), parse(r#"{"mcpServers":{}}"#));
}
