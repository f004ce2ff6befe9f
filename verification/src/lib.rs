//! A step-by-step checker for compiled Metamath Zero proof objects.
//!
//! Given one declaration of an MMB file (a term, definition, axiom or
//! theorem), the engine executes the declaration's proof stream and
//! unification stream on a stack machine of typed expressions, records a
//! snapshot of the machine around a user-selected step, and packages the
//! snapshots, metadata and any verification error into one response.

pub mod binder;
pub mod elab;
pub mod env;
pub mod item;
pub mod json;
pub mod laws;
pub mod mmb;
pub mod numfmt;
pub mod print;
pub mod proof_stream;
pub mod snap;
pub mod state;
pub mod types;
pub mod unify;
pub mod util;

use vstd::prelude::*;
use crate::env::Environment;
use crate::mmb::{MmbFile, NumdStmtCmd, ProofIter};
use crate::state::{MmbDebugParams, MmbState, Response};
use crate::util::{Res, VerifErr};

verus! {

/// Serves one debug request: locate the declaration in the file, run its
/// verification on a fresh engine state, and package the recorded
/// snapshots, the metadata and any verification error into one response.
/// An error is returned from here only when the request itself is wrong:
/// the declaration is missing, a statement that must carry no proof stream
/// carries one, or the response cannot be assembled.
pub fn verify1_extern_aux(
    mmb: &MmbFile,
    mm1_env: &Environment,
    stmt: NumdStmtCmd,
    proof: &ProofIter,
    params: MmbDebugParams,
) -> (r: Res<Response>)
    requires
        proof.wf(),
    ensures
        stmt is Sort && !proof.null ==> (r matches Res::<Response>::Err(e) && (e
            matches VerifErr::Msg(m) && m@ == "mmb sorts must have null proof iterators"@)),
        stmt is Sort && proof.null ==> (r matches Res::<Response>::Err(e) && (e
            matches VerifErr::Msg(m) && m@ == "unrecognized StmtCmd"@)),
        stmt matches NumdStmtCmd::TermDef { term_id } && term_id >= mmb.terms@.len() ==> (r
            matches Res::<Response>::Err(e) && e is NoneErr),
        (stmt matches NumdStmtCmd::TermDef { term_id } && term_id < mmb.terms@.len()
            && !mmb.terms@[term_id as int].is_def && !proof.null) ==> (r
            matches Res::<Response>::Err(e) && (e matches VerifErr::Msg(m) && m@
            == "mmb terms must have null proof iterators"@)),
        stmt matches NumdStmtCmd::Axiom { thm_id } && thm_id >= mmb.thms@.len() ==> (r
            matches Res::<Response>::Err(e) && e is NoneErr),
        stmt matches NumdStmtCmd::Thm { thm_id } && thm_id >= mmb.thms@.len() ==> (r
            matches Res::<Response>::Err(e) && e is NoneErr),
{
    match stmt {
        NumdStmtCmd::Sort => {
            if !proof.is_null() {
                return Err(
                    VerifErr::Msg("mmb sorts must have null proof iterators".to_owned()),
                );
            }
            Err(VerifErr::Msg("unrecognized StmtCmd".to_owned()))
        },
        NumdStmtCmd::TermDef { term_id } => {
            let term = match mmb.term(term_id) {
                Some(t) => t,
                None => {
                    return Err(VerifErr::NoneErr("verify1_extern"));
                },
            };
            if !term.def() && !proof.is_null() {
                return Err(
                    VerifErr::Msg("mmb terms must have null proof iterators".to_owned()),
                );
            }
            let mut state = MmbState::new_from(stmt, mmb, mm1_env, params);
            let verif_result = state.verify_termdef(stmt, term, proof);
            let err = match verif_result {
                Ok(()) => None,
                Err(e) => Some(e),
            };
            state.mk_response(err)
        },
        NumdStmtCmd::Axiom { thm_id } | NumdStmtCmd::Thm { thm_id } => {
            let assertion = match mmb.thm(thm_id) {
                Some(t) => t,
                None => {
                    return Err(VerifErr::NoneErr("verify1_extern"));
                },
            };
            let mut state = MmbState::new_from(stmt, mmb, mm1_env, params);
            let verif_result = state.verify_assert(stmt, assertion, proof);
            let err = match verif_result {
                Ok(()) => None,
                Err(e) => Some(e),
            };
            state.mk_response(err)
        },
    }
}

/// Serves one debug request and renders the outcome for the transport
/// layer: the response as one JSON value, or the outer error as text.
pub fn verify1_extern(
    mmb: &MmbFile,
    mm1_env: &Environment,
    stmt: NumdStmtCmd,
    proof: &ProofIter,
    params: MmbDebugParams,
) -> (r: Result<serde_json::Value, String>)
    requires
        proof.wf(),
    ensures
        stmt is Sort ==> r is Err,
        stmt matches NumdStmtCmd::TermDef { term_id } && term_id >= mmb.terms@.len() ==> r is Err,
        stmt matches NumdStmtCmd::Axiom { thm_id } && thm_id >= mmb.thms@.len() ==> r is Err,
        stmt matches NumdStmtCmd::Thm { thm_id } && thm_id >= mmb.thms@.len() ==> r is Err,
{
    match verify1_extern_aux(mmb, mm1_env, stmt, proof, params) {
        Ok(resp) => Ok(crate::json::response_to_json(&resp)),
        Err(e) => Err(e.render()),
    }
}

} // verus!
