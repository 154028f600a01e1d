//! The model service: schema registry, record store and validation gate
//! orchestrated into the CRUD contract.
//!
//! Every create or update fetches the named model's current schema, runs the
//! payload through the validation gate, and only on success touches the
//! store. Reads and deletes go straight to the store, gated only by
//! existence.

use crate::ids::fresh_id;
use crate::registry::SchemaRegistry;
use crate::store::RecordStore;
use crate::validation::{satisfies, schema_compiles, validate_payload};
use vstd::prelude::*;

verus! {

/// Why a request failed. Every failure is request-scoped: the caller may
/// retry with corrected input, and nothing here is fatal to the process.
#[derive(Debug)]
pub enum CrudError {
    /// The named model has no registered schema (write paths only).
    NoSuchModel,
    /// The named model has no record with the given identifier.
    NotFound,
    /// The payload does not satisfy the model's current schema, or that
    /// schema does not itself compile, reported as the single entry. The
    /// list is never empty.
    ValidationFailed(Vec<String>),
}

/// A single service instance owning the two collections: the schema registry
/// and the record store. Fresh instances start empty; nothing persists.
pub struct ModelService {
    registry: SchemaRegistry,
    store: RecordStore,
}

impl ModelService {
    /// The service's internal invariant: both collections are well-formed.
    pub closed spec fn wf(&self) -> bool {
        &&& self.registry.wf()
        &&& self.store.wf()
    }

    /// Abstract registry contents: each model name mapped to its current
    /// schema document.
    pub closed spec fn schemas(&self) -> Map<Seq<char>, serde_json::Value> {
        self.registry@
    }

    /// Abstract store contents: each (model name, identifier) pair mapped to
    /// the stored document.
    pub closed spec fn records(&self) -> Map<(Seq<char>, Seq<char>), serde_json::Value> {
        self.store@
    }

    /// A fresh service: no schemas, no records.
    pub fn new() -> (r: ModelService)
        ensures
            r.wf(),
            r.schemas() == Map::<Seq<char>, serde_json::Value>::empty(),
            r.records() == Map::<(Seq<char>, Seq<char>), serde_json::Value>::empty(),
    {
        ModelService { registry: SchemaRegistry::new(), store: RecordStore::new() }
    }

    /// Register `schema` as the current schema for `name`, replacing any
    /// earlier one. Always succeeds; the document is not inspected: a
    /// malformed schema surfaces later, at the first validated write.
    pub fn upload_schema(&mut self, name: String, schema: serde_json::Value)
        requires
            old(self).wf(),
        ensures
            final(self).wf(),
            final(self).schemas() == old(self).schemas().insert(name@, schema),
            final(self).records() == old(self).records(),
    {
        self.registry.register(name, schema);
    }

    /// Create a record of model `model_name` from `payload`: look up the
    /// model's schema, pass the payload through the validation gate, and
    /// only on success store it under a freshly generated identifier. On
    /// success the identifier and the stored document come back; on any
    /// failure the store is left untouched.
    pub fn create_item(&mut self, model_name: &String, payload: serde_json::Value) -> (r: Result<
        (String, serde_json::Value),
        CrudError,
    >)
        requires
            old(self).wf(),
        ensures
            final(self).wf(),
            final(self).schemas() == old(self).schemas(),
            r matches Err(_) ==> final(self).records() == old(self).records(),
            (r matches Err(e) && e is NoSuchModel) <==> !old(self).schemas().contains_key(
                model_name@,
            ),
            r matches Err(CrudError::ValidationFailed(es)) ==> es@.len() > 0 && old(
                self,
            ).schemas().contains_key(model_name@),
            !(r matches Err(e) && e is NotFound),
            r matches Ok(created) ==> created.1 == payload && final(self).records() == old(
                self,
            ).records().insert((model_name@, created.0@), payload),
            old(self).schemas().contains_key(model_name@) && schema_compiles(
                old(self).schemas()[model_name@],
            ) && satisfies(old(self).schemas()[model_name@], payload) ==> r matches Ok(_),
            old(self).schemas().contains_key(model_name@) && !(schema_compiles(
                old(self).schemas()[model_name@],
            ) && satisfies(old(self).schemas()[model_name@], payload)) ==> (r matches Err(e)
                && e matches CrudError::ValidationFailed(_)),
    {
        let schema = match self.registry.lookup(model_name) {
            Some(s) => s,
            None => { return Err(CrudError::NoSuchModel) },
        };
        let outcome = validate_payload(schema, &payload);
        self.commit_create(model_name, outcome, payload)
    }

    /// The commit step of a create, verified for every validation outcome:
    /// an accepted payload is stored under a freshly generated identifier
    /// and returned; a refused one is answered `ValidationFailed` carrying
    /// exactly the collected reasons, with the store left untouched.
    fn commit_create(
        &mut self,
        model_name: &String,
        outcome: Result<(), Vec<String>>,
        payload: serde_json::Value,
    ) -> (r: Result<(String, serde_json::Value), CrudError>)
        requires
            old(self).wf(),
        ensures
            final(self).wf(),
            final(self).schemas() == old(self).schemas(),
            outcome matches Ok(_) ==> r matches Ok(created) && created.1 == payload
                && final(self).records() == old(self).records().insert(
                (model_name@, created.0@),
                payload,
            ),
            outcome matches Err(es) ==> r matches Err(e) && e == CrudError::ValidationFailed(es)
                && final(self).records() == old(self).records(),
    {
        match outcome {
            Ok(_) => {
                let id = fresh_id();
                let returned_id = id.clone();
                let stored = payload.clone();
                self.store.insert(model_name.clone(), id, payload);
                Ok((returned_id, stored))
            },
            Err(es) => Err(CrudError::ValidationFailed(es)),
        }
    }

    /// The document stored for `model_name` under `id`. Reads are never
    /// subject to schema checks and change nothing.
    pub fn get_item(&self, model_name: &String, id: &String) -> (r: Result<
        serde_json::Value,
        CrudError,
    >)
        requires
            self.wf(),
        ensures
            r matches Ok(v) <==> self.records().contains_key((model_name@, id@)),
            r matches Ok(v) ==> v == self.records()[(model_name@, id@)],
            r matches Err(e) ==> e is NotFound,
    {
        match self.store.get(model_name, id) {
            Some(v) => Ok(v.clone()),
            None => Err(CrudError::NotFound),
        }
    }

    /// Replace the document stored for `model_name` under `id` with
    /// `payload`, wholesale: same validation as a create, then the
    /// swap. Validation runs even when the target does not exist: an invalid
    /// payload against a missing identifier reports the validation failure,
    /// not the missing record. On success the stored document comes back; on
    /// any failure the store is left untouched.
    pub fn update_item(&mut self, model_name: &String, id: &String, payload: serde_json::Value)
        -> (r: Result<serde_json::Value, CrudError>)
        requires
            old(self).wf(),
        ensures
            final(self).wf(),
            final(self).schemas() == old(self).schemas(),
            r matches Err(_) ==> final(self).records() == old(self).records(),
            (r matches Err(e) && e is NoSuchModel) <==> !old(self).schemas().contains_key(
                model_name@,
            ),
            r matches Err(CrudError::ValidationFailed(es)) ==> es@.len() > 0 && old(
                self,
            ).schemas().contains_key(model_name@),
            r matches Err(CrudError::NotFound) ==> old(self).schemas().contains_key(model_name@)
                && !old(self).records().contains_key((model_name@, id@)),
            r matches Ok(v) ==> v == payload && old(self).records().contains_key((
                model_name@,
                id@,
            )) && final(self).records() == old(self).records().insert((model_name@, id@), payload),
            old(self).schemas().contains_key(model_name@) && !old(self).records().contains_key(
                (model_name@, id@),
            ) ==> !(r matches Ok(_)) && !(r matches Err(e) && e is NoSuchModel),
            old(self).schemas().contains_key(model_name@) && schema_compiles(
                old(self).schemas()[model_name@],
            ) && satisfies(old(self).schemas()[model_name@], payload) && old(
                self,
            ).records().contains_key((model_name@, id@)) ==> r matches Ok(_),
            old(self).schemas().contains_key(model_name@) && schema_compiles(
                old(self).schemas()[model_name@],
            ) && satisfies(old(self).schemas()[model_name@], payload) && !old(
                self,
            ).records().contains_key((model_name@, id@)) ==> (r matches Err(e) && e is NotFound),
            old(self).schemas().contains_key(model_name@) && !(schema_compiles(
                old(self).schemas()[model_name@],
            ) && satisfies(old(self).schemas()[model_name@], payload)) ==> (r matches Err(e)
                && e matches CrudError::ValidationFailed(_)),
    {
        let schema = match self.registry.lookup(model_name) {
            Some(s) => s,
            None => { return Err(CrudError::NoSuchModel) },
        };
        let outcome = validate_payload(schema, &payload);
        self.commit_update(model_name, id, outcome, payload)
    }

    /// The commit step of an update, verified for every validation outcome:
    /// a refused payload is answered `ValidationFailed` carrying exactly the
    /// collected reasons, whether or not the record exists (validation takes
    /// precedence over the existence check); an accepted one replaces the
    /// stored document wholesale when the record exists, and is answered
    /// `NotFound` when it does not. On anything but success the store is
    /// left untouched.
    fn commit_update(
        &mut self,
        model_name: &String,
        id: &String,
        outcome: Result<(), Vec<String>>,
        payload: serde_json::Value,
    ) -> (r: Result<serde_json::Value, CrudError>)
        requires
            old(self).wf(),
        ensures
            final(self).wf(),
            final(self).schemas() == old(self).schemas(),
            outcome matches Err(es) ==> r matches Err(e) && e == CrudError::ValidationFailed(es)
                && final(self).records() == old(self).records(),
            (outcome matches Ok(_) && old(self).records().contains_key((model_name@, id@))) ==> (
            r matches Ok(v) && v == payload && final(self).records() == old(
                self,
            ).records().insert((model_name@, id@), payload)),
            (outcome matches Ok(_) && !old(self).records().contains_key((model_name@, id@))) ==> (
            r matches Err(e) && e == CrudError::NotFound && final(self).records() == old(
                self,
            ).records()),
    {
        match outcome {
            Ok(_) => {
                let updated = payload.clone();
                if self.store.update(model_name, id, payload) {
                    Ok(updated)
                } else {
                    Err(CrudError::NotFound)
                }
            },
            Err(es) => Err(CrudError::ValidationFailed(es)),
        }
    }

    /// Remove the record stored for `model_name` under `id`. No validation:
    /// a delete never inspects a payload.
    pub fn delete_item(&mut self, model_name: &String, id: &String) -> (r: Result<(), CrudError>)
        requires
            old(self).wf(),
        ensures
            final(self).wf(),
            final(self).schemas() == old(self).schemas(),
            r matches Ok(_) <==> old(self).records().contains_key((model_name@, id@)),
            final(self).records() == old(self).records().remove((model_name@, id@)),
            r matches Err(e) ==> e is NotFound && final(self).records() == old(self).records(),
    {
        let present = self.store.remove(model_name, id);
        proof {
            if !old(self).records().contains_key((model_name@, id@)) {
                assert(old(self).records().remove((model_name@, id@)) =~= old(self).records());
            }
        }
        if present {
            Ok(())
        } else {
            Err(CrudError::NotFound)
        }
    }
}

} // verus!
