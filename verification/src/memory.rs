//! Long-term memory records: facts, entities and the counts reported about them. The
//! records are kept in a database outside the library; here they are made and read back.

use vstd::prelude::*;
use crate::clock::{new_uuid, now_timestamp, MAX_TIMESTAMP};
use crate::json::{json_null, json_value_of, parse_json};
use crate::text::{concat3, str_to_string};

verus! {

/// The number of dimensions the memory's embeddings have.
pub const EMBEDDING_DIMENSIONS: usize = 384;

/// The category a fact gets when none is given.
pub const DEFAULT_CATEGORY: &'static str = "general";

/// A remembered fact.
#[derive(Debug)]
pub struct MemoryFact {
    pub id: String,
    pub content: String,
    pub category: String,
    pub created_at: i64,
    pub updated_at: i64,
}

/// A remembered entity, with attributes held as JSON.
#[derive(Debug)]
pub struct MemoryEntity {
    pub id: String,
    pub name: String,
    pub entity_type: String,
    pub attributes: serde_json::Value,
    pub created_at: i64,
}

/// How much the memory holds.
#[derive(Debug, Clone, Copy, PartialEq, Eq, Structural)]
pub struct MemoryStats {
    pub facts: usize,
    pub entities: usize,
    pub dimensions: usize,
}

/// The category a fact is filed under: the one given, else the default.
pub open spec fn category_of(category: Option<Seq<char>>) -> Seq<char> {
    match category {
        Some(c) => c,
        None => DEFAULT_CATEGORY@,
    }
}

/// The fact with the given id, content and category, made at `now`.
pub fn fact_record(id: String, content: &str, category: Option<&str>, now: i64) -> (r: MemoryFact)
    ensures
        r.id@ == id@,
        r.content@ == content@,
        r.category@ == category_of(
            match category {
                Some(c) => Some(c@),
                None => None,
            },
        ),
        r.created_at == now,
        r.updated_at == now,
{
    let category = match category {
        Some(c) => str_to_string(c),
        None => str_to_string(DEFAULT_CATEGORY),
    };
    MemoryFact { id, content: str_to_string(content), category, created_at: now, updated_at: now }
}

/// A new fact with a fresh id, made now; the caller stores it.
pub fn new_fact(content: &str, category: Option<&str>) -> (r: MemoryFact)
    ensures
        r.content@ == content@,
        r.category@ == category_of(
            match category {
                Some(c) => Some(c@),
                None => None,
            },
        ),
        r.created_at == r.updated_at,
        0 <= r.created_at < MAX_TIMESTAMP,
{
    let now = now_timestamp();
    fact_record(new_uuid(), content, category, now)
}

/// A new entity with a fresh id, made now; the caller stores it.
pub fn new_entity(name: &str, entity_type: &str, attributes: serde_json::Value) -> (r: MemoryEntity)
    ensures
        r.name@ == name@,
        r.entity_type@ == entity_type@,
        r.attributes == attributes,
        0 <= r.created_at < MAX_TIMESTAMP,
{
    let now = now_timestamp();
    MemoryEntity {
        id: new_uuid(),
        name: str_to_string(name),
        entity_type: str_to_string(entity_type),
        attributes,
        created_at: now,
    }
}

/// The attributes stored for an entity, read back: the JSON the text holds, or null when
/// it holds none.
pub fn entity_attributes(text: &str) -> (r: serde_json::Value)
    ensures
        json_value_of(text@) matches Some(v) ==> r == v,
{
    match parse_json(text) {
        Some(v) => v,
        None => json_null(),
    }
}

/// The pattern that finds facts whose content holds `query`: `%`, the query, `%`.
pub fn like_pattern(query: &str) -> (r: String)
    ensures
        r@ == "%"@ + query@ + "%"@,
{
    concat3("%", query, "%")
}

/// The memory's counts: the facts and entities held, and the embeddings' dimensions.
pub fn memory_stats(facts: usize, entities: usize) -> (r: MemoryStats)
    ensures
        r == (MemoryStats { facts, entities, dimensions: EMBEDDING_DIMENSIONS }),
{
    MemoryStats { facts, entities, dimensions: EMBEDDING_DIMENSIONS }
}

} // verus!
