//! Laws of the engine, stated over the abstract contents of the two
//! collections: the registry mapping (`ModelService::schemas`) and the
//! record mapping (`ModelService::records`) that the CRUD contracts are
//! written against.

use vstd::prelude::*;

verus! {

/// Idempotence of replacement: registering the same schema under the same
/// name twice leaves the registry exactly as registering it once does, and
/// with it every later validation, which consults nothing but the name's
/// current entry.
pub proof fn lemma_replacement_idempotent(
    schemas: Map<Seq<char>, serde_json::Value>,
    name: Seq<char>,
    schema: serde_json::Value,
)
    ensures
        schemas.insert(name, schema).insert(name, schema) == schemas.insert(name, schema),
{
    assert(schemas.insert(name, schema).insert(name, schema) =~= schemas.insert(name, schema));
}

/// Round trip: once a create has stored `payload` for `model` under the
/// fresh identifier `id`, a read of that identifier finds exactly `payload`,
/// whatever the store held before. The record mapping does not mention the
/// registry, so a later replacement of the model's schema cannot disturb
/// this: stored records are never re-validated.
pub proof fn lemma_create_then_get(
    records: Map<(Seq<char>, Seq<char>), serde_json::Value>,
    model: Seq<char>,
    id: Seq<char>,
    payload: serde_json::Value,
)
    ensures
        records.insert((model, id), payload).contains_key((model, id)),
        records.insert((model, id), payload)[(model, id)] == payload,
{
}

/// Isolation: a record created under one model is invisible under every
/// other model name: whatever identifier it got, it neither appears in nor
/// displaces any record of the other model.
pub proof fn lemma_model_isolation(
    records: Map<(Seq<char>, Seq<char>), serde_json::Value>,
    model_a: Seq<char>,
    model_b: Seq<char>,
    id_a: Seq<char>,
    id_b: Seq<char>,
    payload: serde_json::Value,
)
    requires
        model_a != model_b,
    ensures
        records.insert((model_b, id_b), payload).contains_key((model_a, id_a))
            == records.contains_key((model_a, id_a)),
        records.contains_key((model_a, id_a)) ==> records.insert((model_b, id_b), payload)[
            (model_a, id_a)
        ] == records[(model_a, id_a)],
{
}

/// Deletion finality: once a delete has removed `id` from `model`'s records,
/// a read of that identifier misses, and a second delete finds nothing to
/// remove: both report the record as not found.
pub proof fn lemma_deletion_final(
    records: Map<(Seq<char>, Seq<char>), serde_json::Value>,
    model: Seq<char>,
    id: Seq<char>,
)
    ensures
        !records.remove((model, id)).contains_key((model, id)),
        records.remove((model, id)).remove((model, id)) == records.remove((model, id)),
{
    assert(records.remove((model, id)).remove((model, id)) =~= records.remove((model, id)));
}

} // verus!
