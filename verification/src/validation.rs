//! The validation gate: every payload headed for the store passes here first.
//!
//! Compiling a schema document and checking an instance against it are the
//! work of the `jsonschema` crate, reached through the trusted declarations
//! below. What this module owns is the rule: compile, collect the reasons,
//! and refuse the write unless there are none.

use vstd::prelude::*;

verus! {

/// The compiled form of a JSON Schema document. Holds a
/// `jsonschema::Validator`, whose generic bound Verus does not take as a
/// declared outside type, so the whole struct is opaque.
#[verifier::external_body]
pub struct CompiledSchema {
    inner: jsonschema::Validator,
}

/// Whether a JSON Schema document compiles under the crate's configuration.
/// Names the success of `jsonschema::validator_for`: with reference
/// retrieval compiled out, compilation reads nothing but the document, so
/// its success is a function of the document alone.
pub uninterp spec fn schema_compiles(schema: serde_json::Value) -> bool;

/// The schema document a compiled validator was built from.
pub uninterp spec fn schema_of(compiled: CompiledSchema) -> serde_json::Value;

/// Whether an instance satisfies a compiled schema document. Names the
/// verdict of `jsonschema::Validator::iter_errors`: no violation is
/// collected exactly when the instance conforms, and with reference
/// retrieval compiled out the verdict is a function of the two documents
/// alone.
pub uninterp spec fn satisfies(schema: serde_json::Value, instance: serde_json::Value) -> bool;

/// Relies on `jsonschema::validator_for`: compiles a JSON Schema document
/// into a validator, or reports why the document is not itself a valid
/// schema, the report rendered as text. The `jsonschema` crate is built
/// with its resolution features switched off, so no external `$ref` is ever
/// fetched from network or disk: a document referring outside itself fails
/// to compile, the call never blocks or panics, and success depends on the
/// document alone, which `schema_compiles` names.
#[verifier::external_body]
fn compile_schema(schema: &serde_json::Value) -> (r: Result<CompiledSchema, String>)
    ensures
        r is Ok <==> schema_compiles(*schema),
        r matches Ok(c) ==> schema_of(c) == *schema,
{
    match jsonschema::validator_for(schema) {
        Ok(v) => Ok(CompiledSchema { inner: v }),
        Err(e) => Err(e.to_string()),
    }
}

/// Relies on `jsonschema::Validator::iter_errors`: one entry for each way the
/// instance fails the compiled schema, each rendered as descriptive text, and
/// no entry exactly when the instance conforms, which `satisfies` names.
#[verifier::external_body]
fn collect_errors(compiled: &CompiledSchema, instance: &serde_json::Value) -> (r: Vec<String>)
    ensures
        r@.len() == 0 <==> satisfies(schema_of(*compiled), *instance),
{
    compiled.inner.iter_errors(instance).map(|e| e.to_string()).collect()
}

/// Wrap the report of a schema document that failed to compile as the error
/// list of a request-level failure: exactly one entry, carrying the report
/// itself. A schema-authoring error is surfaced the same way as a payload
/// error, never as a server fault.
pub fn compile_failure_errors(msg: String) -> (r: Vec<String>)
    ensures
        r@.len() == 1,
        r@[0] == msg,
{
    let mut es: Vec<String> = Vec::new();
    es.push(msg);
    es
}

/// The acceptance rule of the validation gate, verified for every collected
/// list: accept exactly when no reason to refuse was found, and on refusal
/// hand back every found reason unchanged.
pub fn decide_validity(errors: Vec<String>) -> (r: Result<(), Vec<String>>)
    ensures
        errors@.len() == 0 <==> r is Ok,
        r matches Err(es) ==> es == errors,
{
    if errors.len() == 0 {
        Ok(())
    } else {
        Err(errors)
    }
}

/// Compile `schema` and check `instance` against it. `Ok` exactly when the
/// schema document compiles and the instance satisfies it; `Err` carries at
/// least one reason why not: the single reason the schema document failed to
/// compile, wrapped by `compile_failure_errors`, or every reason the
/// instance fails the compiled schema. Both paths pass the collected list to
/// `decide_validity`, whose contract fixes the answer for every list the
/// collaborator can produce.
pub fn validate_payload(schema: &serde_json::Value, instance: &serde_json::Value) -> (r: Result<
    (),
    Vec<String>,
>)
    ensures
        r is Ok <==> schema_compiles(*schema) && satisfies(*schema, *instance),
        r matches Err(es) ==> es@.len() > 0,
        !schema_compiles(*schema) ==> (r matches Err(es) && es@.len() == 1),
{
    let compiled = match compile_schema(schema) {
        Ok(c) => c,
        Err(msg) => {
            return decide_validity(compile_failure_errors(msg));
        },
    };
    decide_validity(collect_errors(&compiled, instance))
}

} // verus!
