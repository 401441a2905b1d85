//! The external store document: `{ "mcpServers": { id: spec, .. }, .. }`.

use vstd::prelude::*;
use crate::id_map::IdMap;
use crate::json::JsonValue;

verus! {

/// Why the external file could not be read.
#[derive(Debug)]
pub enum StoreError {
    /// The file could not be opened or read.
    Io { path: String, message: String },
    /// The file does not hold JSON.
    Json { path: String, message: String },
}

/// What was found at the place of the external file.
#[derive(Debug)]
pub enum FileRead {
    /// There is no file.
    Missing,
    /// There is a file, and reading or decoding it failed.
    Failed(StoreError),
    /// The file held this document.
    Document(JsonValue),
}

/// The name of the field that holds the servers.
pub open spec fn servers_key() -> Seq<char> {
    "mcpServers"@
}

/// The servers of a document: the fields of its `mcpServers` object. A
/// document without that field, or with another kind of value in it, has none.
pub open spec fn servers_of(doc: JsonValue) -> Map<Seq<char>, JsonValue> {
    match doc.field(servers_key()) {
        Some(inner) => inner.fields(),
        None => Map::empty(),
    }
}

/// The top-level fields of a document besides `mcpServers`.
pub open spec fn other_fields(doc: JsonValue) -> Map<Seq<char>, JsonValue> {
    doc.fields().remove(servers_key())
}

/// `doc` is an object whose `mcpServers` field is an object that holds exactly
/// `servers`, and whose other fields are exactly `others`.
pub open spec fn is_store_document(
    doc: JsonValue,
    others: Map<Seq<char>, JsonValue>,
    servers: Map<Seq<char>, JsonValue>,
) -> bool {
    &&& doc is Object
    &&& doc.fields().contains_key(servers_key())
    &&& doc.fields()[servers_key()] is Object
    &&& servers_of(doc) == servers
    &&& other_fields(doc) == others
}

impl FileRead {
    /// The document that a write starts from: the one that was read, or
    /// nothing where there was none.
    pub open spec fn root(self) -> JsonValue {
        match self {
            FileRead::Document(doc) => doc,
            _ => JsonValue::Null,
        }
    }
}

/// Takes a document apart into its servers and its other top-level fields.
pub fn split_document(doc: JsonValue) -> (r: (IdMap<JsonValue>, IdMap<JsonValue>))
    ensures
        r.0@ == servers_of(doc),
        r.1@ == other_fields(doc),
{
    match doc {
        JsonValue::Object(fields) => {
            let mut fields = fields;
            let key = "mcpServers".to_owned();
            match fields.remove(&key) {
                Some(JsonValue::Object(servers)) => (servers, fields),
                _ => (IdMap::new(), fields),
            }
        },
        _ => {
            let rest: IdMap<JsonValue> = IdMap::new();
            assert(rest@ =~= other_fields(doc));
            (IdMap::new(), rest)
        },
    }
}

/// Puts a document together from its other top-level fields and its servers.
pub fn join_document(others: IdMap<JsonValue>, servers: IdMap<JsonValue>) -> (r: JsonValue)
    ensures
        r is Object,
        r.fields() == others@.insert(servers_key(), JsonValue::Object(servers)),
        is_store_document(r, others@.remove(servers_key()), servers@),
{
    let mut fields = others;
    fields.insert("mcpServers".to_owned(), JsonValue::Object(servers));
    let r = JsonValue::Object(fields);
    assert(other_fields(r) =~= others@.remove(servers_key()));
    r
}

/// The servers that the external file holds. No file means no servers; a file
/// that could not be read or decoded is an error; a document without a
/// `mcpServers` object has no servers.
pub fn read_mcp_servers_map(file: FileRead) -> (r: Result<IdMap<JsonValue>, StoreError>)
    ensures
        match file {
            FileRead::Missing => r is Ok && r->Ok_0@ == Map::<Seq<char>, JsonValue>::empty(),
            FileRead::Failed(e) => r == Err::<IdMap<JsonValue>, StoreError>(e),
            FileRead::Document(doc) => r is Ok && r->Ok_0@ == servers_of(doc),
        },
{
    match file {
        FileRead::Missing => Ok(IdMap::new()),
        FileRead::Failed(e) => Err(e),
        FileRead::Document(doc) => {
            let parts = split_document(doc);
            Ok(parts.0)
        },
    }
}

/// The document to write so that the external file holds `map` as its
/// servers. Every other top-level field of the document found is kept; where
/// no document could be read, or the document is no object, the new one holds
/// the servers alone.
pub fn set_mcp_servers_map(existing: FileRead, map: IdMap<JsonValue>) -> (r: JsonValue)
    ensures
        r is Object,
        r.fields() == existing.root().fields().insert(servers_key(), JsonValue::Object(map)),
        is_store_document(r, other_fields(existing.root()), map@),
{
    let others = match existing {
        FileRead::Document(JsonValue::Object(fields)) => fields,
        // A file that is missing, unreadable or not JSON does not stop the
        // write, and neither does a document that is no object (`null`, an
        // array, a number, a string, a boolean): the new document starts
        // empty, and what the file held is overwritten. This fallback is for
        // the read before a write only.
        _ => IdMap::new(),
    };
    let r = join_document(others, map);
    assert(other_fields(r) =~= other_fields(existing.root()));
    r
}

} // verus!
