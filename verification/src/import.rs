//! Import of the external store into the unified mapping.

use vstd::prelude::*;
use crate::config::{McpApps, McpRoot, McpServer, MultiAppConfig};
use crate::id_map::IdMap;
use crate::json::JsonValue;
use crate::store::StoreError;

verus! {

/// The ids that an import takes over: those of the external store whose
/// connection specification the validator did not reject.
pub open spec fn accepted(
    external: Map<Seq<char>, JsonValue>,
    rejected: Map<Seq<char>, String>,
) -> Set<Seq<char>> {
    Set::new(|id: Seq<char>| external.contains_key(id) && !rejected.contains_key(id))
}

/// What an import of the ids `chosen` does to the entry `id`: one that exists
/// and is chosen is switched on for Antigravity, one that exists and is not
/// chosen stays as it is, one that is chosen and does not exist is created,
/// and nothing else appears.
pub open spec fn import_rule(
    before: Map<Seq<char>, McpServer>,
    after: Map<Seq<char>, McpServer>,
    external: Map<Seq<char>, JsonValue>,
    chosen: Set<Seq<char>>,
    id: Seq<char>,
) -> bool {
    &&& after.contains_key(id) <==> before.contains_key(id) || chosen.contains(id)
    &&& before.contains_key(id) && !chosen.contains(id) ==> after[id] == before[id]
    &&& before.contains_key(id) && chosen.contains(id) ==> after[id]
        == before[id].with_antigravity()
    &&& !before.contains_key(id) && chosen.contains(id) ==> after[id].is_fresh_import(
        id,
        external[id],
    )
}

/// `after` is the unified mapping `before` with the ids `chosen` imported.
pub open spec fn imports(
    before: Map<Seq<char>, McpServer>,
    after: Map<Seq<char>, McpServer>,
    external: Map<Seq<char>, JsonValue>,
    chosen: Set<Seq<char>>,
) -> bool {
    forall|id: Seq<char>| #[trigger] import_rule(before, after, external, chosen, id)
}

/// The ids among `chosen` that an import changes something for: those without
/// an entry, and those whose entry is not yet switched on for Antigravity.
pub open spec fn pending(before: Map<Seq<char>, McpServer>, chosen: Set<Seq<char>>) -> Set<
    Seq<char>,
> {
    Set::new(
        |id: Seq<char>|
            chosen.contains(id) && !(before.contains_key(id) && before[id].apps.antigravity),
    )
}

/// Merges the servers of the external store into the unified mapping and
/// returns how many entries it created or switched on. `read` is what reading
/// the store gave; `rejected` holds, by id, the servers whose connection
/// specification the validator refused, each with the reason. A rejected
/// server is passed over. An empty store changes nothing, and neither does a
/// failed read, whose error is handed on.
pub fn import_from_antigravity(
    config: &mut MultiAppConfig,
    read: Result<IdMap<JsonValue>, StoreError>,
    rejected: &IdMap<String>,
) -> (r: Result<usize, StoreError>)
    ensures
        final(config).mcp == (McpRoot { servers: final(config).mcp.servers, ..old(config).mcp }),
        match read {
            Err(e) => r == Err::<usize, StoreError>(e) && *final(config) == *old(config),
            Ok(external) => {
                &&& r is Ok
                &&& r->Ok_0 == pending(old(config).unified(), accepted(external@, rejected@)).len()
                &&& imports(
                    old(config).unified(),
                    final(config).unified(),
                    external@,
                    accepted(external@, rejected@),
                )
                &&& external.entries().len() == 0 ==> *final(config) == *old(config)
                &&& external.entries().len() > 0 ==> final(config).mcp.servers is Some
            },
        },
{
    let mut rest = match read {
        Err(e) => {
            return Err(e);
        },
        Ok(external) => external,
    };
    let ghost start = config.unified();
    let ghost all = rest@;
    let ghost refused = rejected@;
    if rest.is_empty() {
        proof {
            assert(accepted(all, refused) =~= Set::<Seq<char>>::empty());
            assert(pending(start, accepted(all, refused)) =~= Set::<Seq<char>>::empty());
            assert forall|id: Seq<char>| #[trigger]
                import_rule(start, start, all, accepted(all, refused), id) by {}
        }
        return Ok(0);
    }
    let mut servers = match config.mcp.servers.take() {
        Some(existing) => existing,
        None => IdMap::new(),
    };
    let total = rest.len();
    let mut changed: usize = 0;
    let ghost mut counted: Set<Seq<char>> = Set::empty();
    let ghost mut chosen: Set<Seq<char>> = Set::empty();
    assert(counted =~= pending(start, chosen));
    while rest.len() > 0
        invariant
            refused == rejected@,
            forall|id: Seq<char>| #[trigger]
                rest@.contains_key(id) ==> all.contains_key(id) && all[id] == rest@[id],
            forall|id: Seq<char>|
                chosen.contains(id) <==> accepted(all, refused).contains(id) && !rest@.contains_key(
                    id,
                ),
            imports(start, servers@, all, chosen),
            counted.finite(),
            counted == pending(start, chosen),
            changed == counted.len(),
            changed + rest.entries().len() <= total,
        decreases rest.entries().len(),
    {
        let ghost servers_before = servers@;
        let ghost chosen_before = chosen;
        let ghost rest_before = rest@;
        let (id, spec) = rest.pop().unwrap();
        let ghost key = id@;
        assert(rest_before.contains_key(key) && all[key] == spec);
        assert(import_rule(start, servers_before, all, chosen_before, key));
        let skip = rejected.get(&id).is_some();
        assert(skip == refused.contains_key(key));
        assert(!chosen_before.contains(key));
        if !skip {
            proof {
                chosen = chosen_before.insert(key);
            }
            match servers.remove(&id) {
                Some(existing) => {
                    let mut entry = existing;
                    if !entry.apps.antigravity {
                        entry.apps.antigravity = true;
                        changed += 1;
                        proof {
                            counted = counted.insert(key);
                        }
                    }
                    assert(entry == start[key].with_antigravity());
                    servers.insert(id, entry);
                },
                None => {
                    let fresh = McpServer {
                        id: id.clone(),
                        name: id.clone(),
                        server: spec,
                        apps: McpApps {
                            claude: false,
                            codex: false,
                            gemini: false,
                            opencode: false,
                            antigravity: true,
                        },
                        description: None,
                        homepage: None,
                        docs: None,
                        tags: Vec::new(),
                    };
                    assert(fresh.is_fresh_import(key, all[key]));
                    servers.insert(id, fresh);
                    changed += 1;
                    proof {
                        counted = counted.insert(key);
                    }
                },
            }
            proof {
                assert(counted =~= pending(start, chosen));
            }
        }
        proof {
            assert forall|k: Seq<char>| #[trigger]
                import_rule(start, servers@, all, chosen, k) by {
                assert(import_rule(start, servers_before, all, chosen_before, k));
            }
            assert forall|k: Seq<char>|
                chosen.contains(k) <==> accepted(all, refused).contains(k) && !rest@.contains_key(
                    k,
                ) by {
                assert(chosen_before.contains(k) <==> accepted(all, refused).contains(k)
                    && !rest_before.contains_key(k));
                if k != key {
                    assert(rest@.contains_key(k) == rest_before.contains_key(k));
                    assert(chosen.contains(k) == chosen_before.contains(k));
                }
            }
        }
    }
    proof {
        assert(rest@ =~= Map::<Seq<char>, JsonValue>::empty());
        assert(chosen =~= accepted(all, refused));
    }
    config.mcp.servers = Some(servers);
    Ok(changed)
}

/// An import never removes an entry of the unified mapping.
pub proof fn lemma_import_keeps_entries(
    before: Map<Seq<char>, McpServer>,
    after: Map<Seq<char>, McpServer>,
    external: Map<Seq<char>, JsonValue>,
    rejected: Map<Seq<char>, String>,
)
    requires
        imports(before, after, external, accepted(external, rejected)),
    ensures
        forall|id: Seq<char>| before.contains_key(id) ==> after.contains_key(id),
{
    assert forall|id: Seq<char>| before.contains_key(id) implies after.contains_key(id) by {
        assert(import_rule(before, after, external, accepted(external, rejected), id));
    }
}

/// Importing the same external store a second time changes nothing: the
/// count of changes is zero and the unified mapping stays as the first import
/// left it.
pub proof fn lemma_import_idempotent(
    before: Map<Seq<char>, McpServer>,
    once: Map<Seq<char>, McpServer>,
    twice: Map<Seq<char>, McpServer>,
    external: Map<Seq<char>, JsonValue>,
    rejected: Map<Seq<char>, String>,
)
    requires
        imports(before, once, external, accepted(external, rejected)),
        imports(once, twice, external, accepted(external, rejected)),
    ensures
        pending(once, accepted(external, rejected)).len() == 0,
        twice == once,
{
    let chosen = accepted(external, rejected);
    assert forall|id: Seq<char>| !pending(once, chosen).contains(id) by {
        assert(import_rule(before, once, external, chosen, id));
    }
    assert(pending(once, chosen) =~= Set::<Seq<char>>::empty());
    assert forall|id: Seq<char>| twice.dom().contains(id) == once.dom().contains(id) by {
        assert(import_rule(before, once, external, chosen, id));
        assert(import_rule(once, twice, external, chosen, id));
    }
    assert forall|id: Seq<char>| twice.dom().contains(id) implies twice[id] == once[id] by {
        assert(import_rule(before, once, external, chosen, id));
        assert(import_rule(once, twice, external, chosen, id));
    }
    assert(twice =~= once);
}

} // verus!
