//! Assembling a response into one JSON value for the transport layer that
//! answers the debug request.

use vstd::prelude::*;
use crate::snap::{Snapshot, SubUnifyInfo};
use crate::state::{Meta, Response};

verus! {

#[verifier::external_type_specification]
#[verifier::external_body]
pub struct ExValue(serde_json::Value);

#[verifier::external_type_specification]
#[verifier::external_body]
#[verifier::reject_recursive_types(K)]
#[verifier::reject_recursive_types(V)]
pub struct ExMap<K, V>(serde_json::Map<K, V>);

/// Relies on serde_json::Value::Null: the JSON null value.
#[verifier::external_body]
fn js_null() -> serde_json::Value {
    serde_json::Value::Null
}

/// Relies on serde_json::Value::String: wraps the string as a JSON string.
#[verifier::external_body]
fn js_string(s: String) -> serde_json::Value {
    serde_json::Value::String(s)
}

/// Relies on serde_json's `From<u64> for Value`: wraps the number as a JSON
/// number.
#[verifier::external_body]
fn js_u64(n: u64) -> serde_json::Value {
    serde_json::Value::from(n)
}

/// Relies on serde_json::Value::Array: wraps the values as a JSON array.
#[verifier::external_body]
fn js_array(items: Vec<serde_json::Value>) -> serde_json::Value {
    serde_json::Value::Array(items)
}

/// Relies on serde_json::Map::new: an empty JSON object.
#[verifier::external_body]
fn js_map_new() -> serde_json::Map<String, serde_json::Value> {
    serde_json::Map::new()
}

/// Relies on serde_json::Map::insert: binds `k` to `v` in the object.
#[verifier::external_body]
fn js_map_insert(m: &mut serde_json::Map<String, serde_json::Value>, k: &str, v: serde_json::Value) {
    let _ = m.insert(k.to_owned(), v);
}

/// Relies on serde_json::Value::Object: wraps the object as a JSON value.
#[verifier::external_body]
fn js_object(m: serde_json::Map<String, serde_json::Value>) -> serde_json::Value {
    serde_json::Value::Object(m)
}

/// The JSON object of one sub-unification detail.
fn subunify_to_json(s: &SubUnifyInfo) -> serde_json::Value {
    let mut m = js_map_new();
    js_map_insert(&mut m, "subnum", js_u64(s.subnum as u64));
    js_map_insert(&mut m, "subof", js_u64(s.subof as u64));
    js_map_insert(&mut m, "tgt", js_string(s.tgt.clone()));
    js_map_insert(&mut m, "finish", js_string(s.finish.clone()));
    js_object(m)
}

/// The JSON object of one snapshot, in the schema the UI reads.
fn snapshot_to_json(s: &Snapshot) -> serde_json::Value {
    let mut m = js_map_new();
    js_map_insert(&mut m, "num", js_u64(s.num as u64));
    js_map_insert(&mut m, "mode", js_string(s.mode.clone()));
    js_map_insert(&mut m, "stack", js_string(s.stack.clone()));
    js_map_insert(&mut m, "heap", js_string(s.heap.clone()));
    js_map_insert(&mut m, "ustack", js_string(s.ustack.clone()));
    js_map_insert(&mut m, "uheap", js_string(s.uheap.clone()));
    js_map_insert(&mut m, "hstack", js_string(s.hstack.clone()));
    js_map_insert(&mut m, "cmd", js_string(s.cmd.clone()));
    match &s.tgt {
        Some(t) => js_map_insert(&mut m, "tgt", js_string(t.clone())),
        None => {},
    }
    match &s.subunify {
        Some(su) => js_map_insert(&mut m, "subunify", subunify_to_json(su)),
        None => {},
    }
    js_object(m)
}

/// The JSON object of the response metadata.
fn meta_to_json(meta: &Meta) -> serde_json::Value {
    let mut m = js_map_new();
    js_map_insert(&mut m, "decl_kind", js_string(meta.decl_kind.clone()));
    js_map_insert(&mut m, "decl_num", js_u64(meta.decl_num as u64));
    js_map_insert(&mut m, "decl_ident", js_string(meta.decl_ident.clone()));
    js_map_insert(&mut m, "styled_decl_ident", js_string(meta.styled_decl_ident.clone()));
    js_map_insert(&mut m, "total_proof_steps", js_u64(meta.total_proof_steps as u64));
    js_map_insert(&mut m, "total_unify_steps", js_u64(meta.total_unify_steps as u64));
    js_map_insert(&mut m, "vars", js_string(meta.vars.clone()));
    js_object(m)
}

/// The JSON object of one response: its metadata, its snapshot array, its
/// table rows or null, and its error or null.
pub fn response_to_json(r: &Response) -> serde_json::Value {
    let mut states: Vec<serde_json::Value> = Vec::new();
    let n = r.states.len();
    let mut i: usize = 0;
    while i < n
        invariant
            n == r.states@.len(),
            i <= n,
        decreases n - i,
    {
        let s = snapshot_to_json(&r.states[i]);
        states.push(s);
        i += 1;
    }
    let mut m = js_map_new();
    js_map_insert(&mut m, "meta", meta_to_json(&r.meta));
    js_map_insert(&mut m, "states", js_array(states));
    match &r.table {
        Some(rows) => js_map_insert(&mut m, "table", js_string(rows.clone())),
        None => js_map_insert(&mut m, "table", js_null()),
    }
    match &r.error {
        Some(e) => js_map_insert(&mut m, "error", js_string(e.clone())),
        None => js_map_insert(&mut m, "error", js_null()),
    }
    js_object(m)
}

} // verus!
