//! Export of the enabled servers to the external store.

use vstd::prelude::*;
use crate::config::{McpConfig, MultiAppConfig};
use crate::id_map::IdMap;
use crate::json::JsonValue;
use crate::store::{
    is_store_document, other_fields, servers_of, set_mcp_servers_map, split_document,
    join_document, FileRead, StoreError,
};

verus! {

/// An entry that was left out, and why.
#[derive(Debug)]
pub struct Diagnostic {
    pub id: String,
    pub message: String,
}

/// What an export gathers: the servers to write, and the entries it skipped.
#[derive(Debug)]
pub struct Collected {
    pub servers: IdMap<JsonValue>,
    pub skipped: Vec<Diagnostic>,
}

/// An entry is enabled when its `enabled` field is the boolean `true`. A
/// missing field, and any other value, leave it disabled.
pub open spec fn is_enabled(entry: JsonValue) -> bool {
    match entry.field("enabled"@) {
        Some(flag) => flag.bool_value() == Some(true),
        None => false,
    }
}

/// The entry `id` is enabled, and the validator's outcomes hold one for it.
pub open spec fn enabled_with(
    entries: Map<Seq<char>, JsonValue>,
    extracted: Map<Seq<char>, Result<JsonValue, String>>,
    id: Seq<char>,
) -> bool {
    entries.contains_key(id) && is_enabled(entries[id]) && extracted.contains_key(id)
}

/// The servers to export: each enabled entry whose connection specification
/// the validator could extract, under its id, with that specification.
pub open spec fn enabled_servers(
    entries: Map<Seq<char>, JsonValue>,
    extracted: Map<Seq<char>, Result<JsonValue, String>>,
) -> Map<Seq<char>, JsonValue> {
    Map::new(
        |id: Seq<char>| enabled_with(entries, extracted, id) && extracted[id] is Ok,
        |id: Seq<char>| extracted[id]->Ok_0,
    )
}

/// The entry `id` is enabled and has no connection specification: the
/// validator's outcomes hold a failure for it, or nothing at all.
pub open spec fn is_skipped(
    entries: Map<Seq<char>, JsonValue>,
    extracted: Map<Seq<char>, Result<JsonValue, String>>,
    id: Seq<char>,
) -> bool {
    entries.contains_key(id) && is_enabled(entries[id]) && !(extracted.contains_key(id)
        && extracted[id] is Ok)
}

/// What is reported of an enabled entry for which the validator's outcomes
/// hold nothing.
pub open spec fn no_outcome_message() -> Seq<char> {
    "the validator gave no outcome for this entry"@
}

/// `message` is the reason why the entry `id` has no connection
/// specification: the validator's own, where it gave one.
pub open spec fn is_skip_reason(
    extracted: Map<Seq<char>, Result<JsonValue, String>>,
    id: Seq<char>,
    message: String,
) -> bool {
    if extracted.contains_key(id) {
        extracted[id] == Err::<JsonValue, String>(message)
    } else {
        message@ == no_outcome_message()
    }
}

/// `skipped` reports exactly the enabled entries without a connection
/// specification, each once and with its reason.
pub open spec fn reports_skipped(
    skipped: Seq<Diagnostic>,
    entries: Map<Seq<char>, JsonValue>,
    extracted: Map<Seq<char>, Result<JsonValue, String>>,
) -> bool {
    &&& forall|j: int|
        0 <= j < skipped.len() ==> is_skipped(entries, extracted, #[trigger] skipped[j].id@)
            && is_skip_reason(extracted, skipped[j].id@, skipped[j].message)
    &&& forall|id: Seq<char>|
        is_skipped(entries, extracted, id) ==> exists|j: int|
            0 <= j < skipped.len() && #[trigger] skipped[j].id@ == id
    &&& forall|i: int, j: int| 0 <= i < j < skipped.len() ==> skipped[i].id@ != skipped[j].id@
}

/// Whether an entry of the central configuration is enabled.
pub fn entry_enabled(entry: &JsonValue) -> (r: bool)
    ensures
        r == is_enabled(*entry),
{
    let key = "enabled".to_owned();
    match entry.get(&key) {
        Some(flag) => match flag.as_bool() {
            Some(b) => b,
            None => false,
        },
        None => false,
    }
}

/// Whether the external store is synchronised at all: only where the
/// application's directory exists.
pub fn should_sync_antigravity_mcp(dir_exists: bool) -> (r: bool)
    ensures
        r == dir_exists,
{
    dir_exists
}

/// Gathers the servers to export from Antigravity's entries. `extracted` holds,
/// by id, what the validator made of each entry: its connection specification,
/// or the reason why it has none. An entry that is not enabled is left out. An
/// enabled entry without a connection specification is left out and reported,
/// also where `extracted` holds nothing for it.
pub fn collect_enabled_servers(
    cfg: &McpConfig,
    extracted: IdMap<Result<JsonValue, String>>,
) -> (r: Collected)
    ensures
        r.servers@ == enabled_servers(cfg.servers@, extracted@),
        forall|id: Seq<char>|
            cfg.servers@.contains_key(id) && !is_enabled(cfg.servers@[id])
                ==> !r.servers@.contains_key(id),
        forall|id: Seq<char>|
            #![trigger r.servers@.contains_key(id)]
            cfg.servers@.contains_key(id) && is_enabled(cfg.servers@[id])
                && extracted@.contains_key(id) && extracted@[id] is Ok
                ==> r.servers@.contains_key(id) && r.servers@[id] == extracted@[id]->Ok_0,
        reports_skipped(r.skipped@, cfg.servers@, extracted@),
{
    let ghost all = extracted@;
    let ghost entries = cfg.servers@;
    let mut rest = extracted;
    let mut servers: IdMap<JsonValue> = IdMap::new();
    let mut skipped: Vec<Diagnostic> = Vec::new();
    let n = cfg.servers.len();
    cfg.servers.confirm();
    proof {
        cfg.servers.lemma_ids_all();
    }
    let mut i: usize = 0;
    while i < n
        invariant
            i <= n,
            n == cfg.servers.entries().len(),
            cfg.servers.wf(),
            entries == cfg.servers@,
            forall|id: Seq<char>|
                #![trigger rest@.contains_key(id)]
                rest@.contains_key(id) <==> all.contains_key(id) && !cfg.servers.ids_before(
                    i as int,
                ).contains(id),
            forall|id: Seq<char>| #[trigger] rest@.contains_key(id) ==> rest@[id] == all[id],
            forall|id: Seq<char>|
                #![trigger servers@.contains_key(id)]
                servers@.contains_key(id) <==> cfg.servers.ids_before(i as int).contains(id)
                    && enabled_with(entries, all, id) && all[id] is Ok,
            forall|id: Seq<char>| #[trigger]
                servers@.contains_key(id) ==> servers@[id] == all[id]->Ok_0,
            forall|j: int|
                0 <= j < skipped@.len() ==> cfg.servers.ids_before(i as int).contains(
                    #[trigger] skipped@[j].id@,
                ) && is_skipped(entries, all, skipped@[j].id@) && is_skip_reason(
                    all,
                    skipped@[j].id@,
                    skipped@[j].message,
                ),
            forall|id: Seq<char>|
                cfg.servers.ids_before(i as int).contains(id) && is_skipped(entries, all, id)
                    ==> exists|j: int| 0 <= j < skipped@.len() && #[trigger] skipped@[j].id@ == id,
            forall|a: int, b: int|
                0 <= a < b < skipped@.len() ==> skipped@[a].id@ != skipped@[b].id@,
        decreases n - i,
    {
        let ghost done = cfg.servers.ids_before(i as int);
        let ghost rest_before = rest@;
        let ghost servers_before = servers@;
        let ghost skipped_before = skipped@;
        let id = cfg.servers.id_at(i);
        let entry = cfg.servers.value_at(i);
        let ghost key = id@;
        proof {
            cfg.servers.lemma_ids_before_next(i as int);
            assert(!done.contains(key));
            assert(rest_before.contains_key(key) == all.contains_key(key));
            assert(!servers_before.contains_key(key));
            assert(entries.contains_key(key) && entries[key] == *entry);
        }
        let outcome = rest.remove(id);
        assert(outcome == (if all.contains_key(key) {
            Some(all[key])
        } else {
            None
        }));
        let mut reported = false;
        if entry_enabled(entry) {
            match outcome {
                Some(Ok(spec)) => {
                    servers.insert(id.clone(), spec);
                },
                Some(Err(message)) => {
                    skipped.push(Diagnostic { id: id.clone(), message });
                    reported = true;
                },
                None => {
                    let message = "the validator gave no outcome for this entry".to_owned();
                    skipped.push(Diagnostic { id: id.clone(), message });
                    reported = true;
                },
            }
        }
        proof {
            let next = cfg.servers.ids_before(i + 1);
            assert(next == done.insert(key));
            assert forall|k: Seq<char>| #![trigger rest@.contains_key(k)]
                rest@.contains_key(k) <==> all.contains_key(k) && !next.contains(k) by {
                if k != key {
                    assert(rest@.contains_key(k) == rest_before.contains_key(k));
                    assert(next.contains(k) == done.contains(k));
                }
            }
            assert forall|k: Seq<char>| rest@.contains_key(k) implies rest@[k] == all[k] by {
                assert(rest_before.contains_key(k));
            }
            assert forall|k: Seq<char>| #![trigger servers@.contains_key(k)]
                servers@.contains_key(k) <==> next.contains(k) && enabled_with(entries, all, k)
                    && all[k] is Ok by {
                if k != key {
                    assert(servers@.contains_key(k) == servers_before.contains_key(k));
                    assert(next.contains(k) == done.contains(k));
                }
            }
            assert forall|k: Seq<char>| servers@.contains_key(k) implies servers@[k]
                == all[k]->Ok_0 by {
                if k != key {
                    assert(servers_before.contains_key(k));
                }
            }
            if reported {
                let last = skipped_before.len() as int;
                assert(skipped@ == skipped_before.push(skipped@[last]));
                assert(skipped@[last].id@ == key);
                assert forall|j: int| 0 <= j < skipped@.len() implies next.contains(
                    #[trigger] skipped@[j].id@,
                ) && is_skipped(entries, all, skipped@[j].id@) && is_skip_reason(
                    all,
                    skipped@[j].id@,
                    skipped@[j].message,
                ) by {
                    if j < last {
                        assert(skipped@[j] == skipped_before[j]);
                    }
                }
                assert forall|a: int, b: int| 0 <= a < b < skipped@.len() implies skipped@[a].id@
                    != skipped@[b].id@ by {
                    assert(skipped@[a] == skipped_before[a]);
                    assert(done.contains(skipped_before[a].id@));
                    if b < last {
                        assert(skipped@[b] == skipped_before[b]);
                    }
                }
            }
            assert forall|k: Seq<char>| next.contains(k) && is_skipped(entries, all, k) implies (
            exists|j: int| 0 <= j < skipped@.len() && #[trigger] skipped@[j].id@ == k) by {
                if k != key {
                    let j = choose|j: int|
                        0 <= j < skipped_before.len() && #[trigger] skipped_before[j].id@ == k;
                    assert(skipped@[j].id@ == k);
                } else {
                    assert(reported);
                    assert(skipped@[skipped_before.len() as int].id@ == k);
                }
            }
        }
        i += 1;
    }
    assert(servers@ =~= enabled_servers(cfg.servers@, extracted@));
    Collected { servers, skipped }
}

/// What an export hands back: the document to write, and the entries that it
/// skipped.
#[derive(Debug)]
pub struct Export {
    pub document: JsonValue,
    pub skipped: Vec<Diagnostic>,
}

/// The document to write on an export of the enabled servers, with the
/// entries that were skipped, or `None` where the application's directory
/// does not exist and nothing is to be written. The servers of the document
/// found are replaced, not merged: one that is no longer enabled is gone from
/// the result.
pub fn sync_enabled_to_antigravity(
    config: &MultiAppConfig,
    extracted: IdMap<Result<JsonValue, String>>,
    dir_exists: bool,
    existing: FileRead,
) -> (r: Option<Export>)
    ensures
        !dir_exists ==> r is None,
        dir_exists ==> r is Some && is_store_document(
            r->Some_0.document,
            other_fields(existing.root()),
            enabled_servers(config.mcp.antigravity.servers@, extracted@),
        ) && reports_skipped(
            r->Some_0.skipped@,
            config.mcp.antigravity.servers@,
            extracted@,
        ),
{
    if !should_sync_antigravity_mcp(dir_exists) {
        return None;
    }
    let collected = collect_enabled_servers(&config.mcp.antigravity, extracted);
    let document = set_mcp_servers_map(existing, collected.servers);
    Some(Export { document, skipped: collected.skipped })
}

/// What the external file held, taken apart for an update of its servers.
fn open_store(file: FileRead) -> (r: Result<(IdMap<JsonValue>, IdMap<JsonValue>), StoreError>)
    ensures
        match file {
            FileRead::Failed(e) => r == Err::<(IdMap<JsonValue>, IdMap<JsonValue>), StoreError>(e),
            _ => r is Ok && r->Ok_0.0@ == servers_of(file.root()) && r->Ok_0.1@ == other_fields(
                file.root(),
            ),
        },
{
    match file {
        FileRead::Failed(e) => Err(e),
        FileRead::Missing => {
            let parts = split_document(JsonValue::Null);
            Ok(parts)
        },
        FileRead::Document(doc) => Ok(split_document(doc)),
    }
}

/// The document to write so that the external store holds `server_spec` under
/// `id`, beside the servers it held before. `Ok(None)` where the
/// application's directory does not exist; the error of the read where the
/// file could not be read.
pub fn sync_single_server_to_antigravity(
    _config: &MultiAppConfig,
    id: &String,
    server_spec: JsonValue,
    dir_exists: bool,
    file: FileRead,
) -> (r: Result<Option<JsonValue>, StoreError>)
    ensures
        !dir_exists ==> r == Ok::<Option<JsonValue>, StoreError>(None),
        dir_exists ==> match file {
            FileRead::Failed(e) => r == Err::<Option<JsonValue>, StoreError>(e),
            _ => r is Ok && r->Ok_0 is Some && is_store_document(
                r->Ok_0->Some_0,
                other_fields(file.root()),
                servers_of(file.root()).insert(id@, server_spec),
            ) && servers_of(r->Ok_0->Some_0).contains_key(id@) && servers_of(
                r->Ok_0->Some_0,
            )[id@] == server_spec,
        },
{
    if !should_sync_antigravity_mcp(dir_exists) {
        return Ok(None);
    }
    let (mut current, others) = match open_store(file) {
        Ok(parts) => parts,
        Err(e) => {
            return Err(e);
        },
    };
    current.insert(id.clone(), server_spec);
    let doc = join_document(others, current);
    assert(other_fields(file.root()).remove(crate::store::servers_key()) =~= other_fields(
        file.root(),
    ));
    Ok(Some(doc))
}

/// The document to write so that the external store no longer holds `id`.
/// `Ok(None)` where the application's directory does not exist; the error of
/// the read where the file could not be read. An id that the store does not
/// hold leaves its servers as they were.
pub fn remove_server_from_antigravity(id: &String, dir_exists: bool, file: FileRead) -> (r: Result<
    Option<JsonValue>,
    StoreError,
>)
    ensures
        !dir_exists ==> r == Ok::<Option<JsonValue>, StoreError>(None),
        dir_exists ==> match file {
            FileRead::Failed(e) => r == Err::<Option<JsonValue>, StoreError>(e),
            _ => r is Ok && r->Ok_0 is Some && is_store_document(
                r->Ok_0->Some_0,
                other_fields(file.root()),
                servers_of(file.root()).remove(id@),
            ) && (!servers_of(file.root()).contains_key(id@) ==> servers_of(r->Ok_0->Some_0)
                == servers_of(file.root())),
        },
{
    if !should_sync_antigravity_mcp(dir_exists) {
        return Ok(None);
    }
    let (mut current, others) = match open_store(file) {
        Ok(parts) => parts,
        Err(e) => {
            return Err(e);
        },
    };
    let _ = current.remove(id);
    let doc = join_document(others, current);
    proof {
        assert(other_fields(file.root()).remove(crate::store::servers_key()) =~= other_fields(
            file.root(),
        ));
        if !servers_of(file.root()).contains_key(id@) {
            assert(servers_of(file.root()).remove(id@) =~= servers_of(file.root()));
        }
    }
    Ok(Some(doc))
}

/// Exporting the same servers onto the document that an export produced gives
/// a document with the same servers and the same other fields.
pub proof fn lemma_export_idempotent(
    root: JsonValue,
    first: JsonValue,
    second: JsonValue,
    servers: Map<Seq<char>, JsonValue>,
)
    requires
        is_store_document(first, other_fields(root), servers),
        is_store_document(second, other_fields(first), servers),
    ensures
        servers_of(second) == servers_of(first),
        other_fields(second) == other_fields(first),
        other_fields(second) == other_fields(root),
{
}

/// After a single server was written into the store found in `root`, the
/// servers read back from the written document hold it under its id, and every
/// other server as `root` had it.
pub proof fn lemma_single_sync_round_trip(
    root: JsonValue,
    written: JsonValue,
    id: Seq<char>,
    spec: JsonValue,
)
    requires
        is_store_document(written, other_fields(root), servers_of(root).insert(id, spec)),
    ensures
        servers_of(written).contains_key(id),
        servers_of(written)[id] == spec,
        forall|other: Seq<char>|
            other != id && servers_of(root).contains_key(other) ==> servers_of(
                written,
            ).contains_key(other) && servers_of(written)[other] == servers_of(root)[other],
{
}

/// Removing an id that the store found in `root` does not hold writes a
/// document with the servers and the other fields of `root`.
pub proof fn lemma_remove_absent_keeps_store(root: JsonValue, written: JsonValue, id: Seq<char>)
    requires
        !servers_of(root).contains_key(id),
        is_store_document(written, other_fields(root), servers_of(root).remove(id)),
    ensures
        servers_of(written) == servers_of(root),
        other_fields(written) == other_fields(root),
{
    assert(servers_of(root).remove(id) =~= servers_of(root));
}

} // verus!
