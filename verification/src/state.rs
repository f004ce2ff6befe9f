//! The engine state of one verification request: the node pool, the five
//! stacks and heaps, the bound-variable counter, the step counters and the
//! recorded snapshots.

use vstd::prelude::*;
use crate::binder::StmtBinders;
use crate::env::Environment;
use crate::item::{item_bounded, ptrs_bounded, store_wf, MmbExpr, MmbItem};
use crate::mmb::{
    spec_stmt_name, spec_stmt_vars, stmt_ok, MmbFile, NumdStmtCmd, ProofIter, Term, Thm,
};
use crate::snap::Snapshot;
use crate::types::{Type, SORT_STRICT};
use crate::util::{err_chars, Res, VerifErr};

verus! {

/// One debug request: the declaration to verify and the formatting knobs.
#[derive(Debug, Clone, PartialEq, Eq)]
pub struct MmbDebugParams {
    /// The source file, opaque to the engine.
    pub file_uri: String,
    /// The declaration to verify, as the user names it.
    pub decl_ident: String,
    /// Pretty-printing level: 0 raw indices, 1 named variables, 2 notation.
    pub elab_level: u8,
    /// 0 suppresses all added parentheses.
    pub bracket_level: u8,
    /// The step to center the snapshot window on, if any.
    pub stepnum: Option<usize>,
    /// Whether the response carries the unify stream's snapshots rather
    /// than the proof stream's.
    pub unify_req: bool,
    /// Whether the response carries the HTML table rows.
    pub table: bool,
}

/// The lower edge of the snapshot window around target step `t`.
pub open spec fn win_lo(t: usize) -> int {
    if t >= 50 {
        t - 50
    } else {
        0
    }
}

/// The upper edge (exclusive) of the snapshot window around target `t`.
pub open spec fn win_hi(t: usize) -> int {
    if t + 50 <= usize::MAX {
        t + 50
    } else {
        t as int
    }
}

/// Whether step `n` falls inside the requested snapshot window.
pub open spec fn spec_targets(params: MmbDebugParams, n: int) -> bool {
    match params.stepnum {
        None => false,
        Some(t) => win_lo(t) <= n < win_hi(t),
    }
}

/// How many of the steps `0, 1, .., s-1` fall inside the window.
pub open spec fn win_count(params: MmbDebugParams, s: int) -> int {
    match params.stepnum {
        None => 0,
        Some(t) => {
            let m = if s < win_hi(t) {
                s
            } else {
                win_hi(t)
            };
            if m > win_lo(t) {
                m - win_lo(t)
            } else {
                0
            }
        },
    }
}

/// Law: stepping from `s` to `s + 1` grows the window count by one exactly
/// when step `s` is inside the window.
pub proof fn lemma_win_count_step(params: MmbDebugParams, s: int)
    requires
        s >= 0,
    ensures
        win_count(params, s + 1) == win_count(params, s) + if spec_targets(params, s) {
            1int
        } else {
            0int
        },
{
}

/// Law: the snapshot window around target `t` holds
/// `min(s, t + 50) - max(0, t - 50)` of the steps `0, .., s-1`, and never
/// fewer than zero.
pub proof fn lemma_win_count_closed_form(params: MmbDebugParams, s: int, t: usize)
    requires
        s >= 0,
        params.stepnum == Some(t),
        t + 50 <= usize::MAX,
    ensures
        win_count(params, s) == {
            let hi = if s < t + 50 {
                s
            } else {
                t + 50
            };
            let lo = if t >= 50 {
                t - 50
            } else {
                0
            };
            if hi > lo {
                hi - lo
            } else {
                0int
            }
        },
{
}

/// The engine state of one request.
#[derive(Debug)]
pub struct MmbState<'a> {
    /// The statement being verified.
    pub stmt: NumdStmtCmd,
    /// The source-level notation tables, for pretty-printing.
    pub mm1_env: &'a Environment,
    /// The declaration's binder table.
    pub stmt_binders: StmtBinders,
    /// The parsed MMB file.
    pub mmb_file: &'a MmbFile,
    /// The node pool; all stacks and heaps hold indices into it.
    pub store: Vec<MmbItem>,
    /// Results produced by proof commands.
    pub stack: Vec<usize>,
    /// Saved intermediates, addressable by `Ref i`.
    pub heap: Vec<usize>,
    /// Obligations during unification.
    pub ustack: Vec<usize>,
    /// Saved matched sub-expressions.
    pub uheap: Vec<usize>,
    /// Hypotheses introduced by theorem statements.
    pub hstack: Vec<usize>,
    /// The next one-hot bound-variable digit; always a power of two.
    pub next_bv: u64,
    /// The request being served.
    pub debug_params: MmbDebugParams,
    pub cur_proof_step: usize,
    pub cur_unify_step: usize,
    pub cur_subunify_step: usize,
    /// The pre-counted length of the proof stream, plus the steps of every
    /// sub-unification it triggered.
    pub proof_step_checksum: Option<usize>,
    /// The pre-counted length of the terminal unification stream.
    pub unify_step_checksum: Option<usize>,
    /// The recorded snapshots of the proof stream.
    pub proof_states: Vec<Snapshot>,
    /// The recorded snapshots of the terminal unification.
    pub unify_states: Vec<Snapshot>,
    /// The aggregated table rows of the proof stream.
    pub proof_rows: String,
    /// The aggregated table rows of the terminal unification.
    pub unify_rows: String,
}

impl<'a> MmbState<'a> {
    /// Whether the declaration is an axiom or a theorem.
    pub open spec fn spec_is_thm(self) -> bool {
        self.stmt is Axiom || self.stmt is Thm
    }

    /// Well-formedness: every stack and heap points into the pool, every
    /// node's children point at earlier nodes, the bound-variable counter is
    /// a power of two within the 56-variable limit, and the recorded
    /// snapshots of the requested stream are exactly the steps so far that
    /// fall inside the window.
    pub open spec fn wf(self) -> bool {
        &&& store_wf(self.store@)
        &&& ptrs_bounded(self.stack@, self.store@.len() as int)
        &&& ptrs_bounded(self.heap@, self.store@.len() as int)
        &&& ptrs_bounded(self.ustack@, self.store@.len() as int)
        &&& ptrs_bounded(self.uheap@, self.store@.len() as int)
        &&& ptrs_bounded(self.hstack@, self.store@.len() as int)
        &&& self.next_bv != 0
        &&& self.next_bv & ((self.next_bv - 1) as u64) == 0
        &&& self.next_bv <= 0x0100_0000_0000_0000u64
        &&& stmt_ok(*self.mmb_file, self.stmt)
        &&& (!self.debug_params.unify_req ==> self.proof_states@.len() == win_count(
            self.debug_params,
            self.cur_proof_step as int,
        ))
        &&& (self.debug_params.unify_req ==> self.unify_states@.len() == win_count(
            self.debug_params,
            self.cur_unify_step as int,
        ))
    }

    /// A fresh state for one request: empty pool, empty stacks and heaps,
    /// counters at their start values, nothing recorded yet.
    pub fn new_from(
        stmt: NumdStmtCmd,
        mmb_file: &'a MmbFile,
        mm1_env: &'a Environment,
        debug_params: MmbDebugParams,
    ) -> (r: MmbState<'a>)
        requires
            stmt_ok(*mmb_file, stmt),
        ensures
            r.wf(),
            r.stmt == stmt,
            r.mmb_file == mmb_file,
            r.mm1_env == mm1_env,
            r.debug_params == debug_params,
            r.store@.len() == 0,
            r.stack@.len() == 0,
            r.heap@.len() == 0,
            r.ustack@.len() == 0,
            r.uheap@.len() == 0,
            r.hstack@.len() == 0,
            r.next_bv == 1,
            r.cur_proof_step == 0,
            r.cur_unify_step == 0,
            r.cur_subunify_step == 0,
            r.proof_step_checksum is None,
            r.unify_step_checksum is None,
            r.proof_states@.len() == 0,
            r.unify_states@.len() == 0,
            r.proof_rows@.len() == 0,
            r.unify_rows@.len() == 0,
            r.stmt_binders.binder_names@ == spec_stmt_vars(*mmb_file, stmt),
            r.stmt_binders.stmt_vars@.len() == spec_stmt_vars(*mmb_file, stmt).len(),
    {
        let r = MmbState {
            stmt,
            mm1_env,
            stmt_binders: StmtBinders::new(mmb_file, stmt),
            mmb_file,
            store: Vec::new(),
            stack: Vec::new(),
            heap: Vec::new(),
            ustack: Vec::new(),
            uheap: Vec::new(),
            hstack: Vec::new(),
            next_bv: 1u64,
            cur_proof_step: 0usize,
            cur_unify_step: 0usize,
            cur_subunify_step: 0usize,
            proof_step_checksum: None,
            unify_step_checksum: None,
            debug_params,
            proof_states: Vec::new(),
            unify_states: Vec::new(),
            proof_rows: String::new(),
            unify_rows: String::new(),
        };
        proof {
            assert(1u64 & ((1u64 - 1) as u64) == 0) by (bit_vector);
        }
        r
    }

    /// Allocates a node into the pool and returns its index.
    pub fn alloc_item(&mut self, item: MmbItem) -> (ix: usize)
        requires
            item_bounded(item, old(self).store@.len() as int),
        ensures
            ix == old(self).store@.len(),
            *final(self) == (MmbState { store: final(self).store, ..*old(self) }),
            final(self).store@ == old(self).store@.push(item),
            old(self).wf() ==> final(self).wf(),
    {
        let ix = self.store.len();
        self.store.push(item);
        ix
    }

    /// Whether the declaration is an axiom or a theorem.
    pub fn is_thm(&self) -> (r: bool)
        ensures
            r == self.spec_is_thm(),
    {
        match self.stmt {
            NumdStmtCmd::Axiom { .. } | NumdStmtCmd::Thm { .. } => true,
            _ => false,
        }
    }

    /// Whether step `n` falls inside the requested snapshot window.
    pub fn targets_step(&self, n: usize) -> (r: bool)
        ensures
            r == spec_targets(self.debug_params, n as int),
    {
        match self.debug_params.stepnum {
            Some(tgt) => {
                let lo = if tgt >= 50 {
                    tgt - 50
                } else {
                    0
                };
                let hi = if tgt <= usize::MAX - 50 {
                    tgt + 50
                } else {
                    tgt
                };
                lo <= n && n < hi
            },
            None => false,
        }
    }

    /// Hands out the current bound-variable digit and shifts the counter
    /// left by one.  The counter must still be under the limit of 56 bound
    /// variables.
    pub fn take_next_bv(&mut self) -> (r: u64)
        requires
            old(self).wf(),
            old(self).next_bv >> 56 == 0,
        ensures
            r == old(self).next_bv,
            final(self).next_bv == old(self).next_bv * 2,
            *final(self) == (MmbState { next_bv: final(self).next_bv, ..*old(self) }),
            final(self).wf(),
    {
        let outgoing = self.next_bv;
        proof {
            let x = self.next_bv;
            assert(x != 0 && x & ((x - 1) as u64) == 0 && x >> 56 == 0 ==> x * 2
                <= 0x0100_0000_0000_0000u64 && ((x * 2) as u64) != 0 && ((x * 2) as u64) & ((((x
                * 2) as u64) - 1) as u64) == 0) by (bit_vector);
        }
        self.next_bv = outgoing * 2;
        outgoing
    }
}

/// The bound-variable counter after loading the first `i` declaration
/// arguments, threading the checks each argument must pass: a bound argument
/// must be of a non-strict sort, stay under the 56-variable limit and carry
/// the next sequential one-hot digit; any other argument may depend only on
/// bound variables already seen.  Nothing when some check fails.
pub open spec fn load_args_nbv(f: MmbFile, args: Seq<Type>, i: int) -> Option<u64>
    decreases i,
{
    if i <= 0 {
        Some(1u64)
    } else {
        match load_args_nbv(f, args, i - 1) {
            None => None,
            Some(bv) => {
                let arg = args[i - 1];
                if arg.spec_bound() {
                    if arg.spec_sort() < f.sorts@.len() && f.sorts@[arg.spec_sort() as int]
                        & SORT_STRICT == 0 && bv >> 56 == 0 && arg.spec_bound_digit() == Some(bv) {
                        Some((bv * 2) as u64)
                    } else {
                        None
                    }
                } else {
                    if arg.spec_low_bits() & !((bv - 1) as u64) == 0 {
                        Some(bv)
                    } else {
                        None
                    }
                }
            },
        }
    }
}

/// Law: once an argument fails to load, every longer prefix fails too.
pub proof fn lemma_load_args_nbv_none(f: MmbFile, args: Seq<Type>, i: int, i2: int)
    requires
        0 <= i <= i2,
        load_args_nbv(f, args, i) is None,
    ensures
        load_args_nbv(f, args, i2) is None,
    decreases i2 - i,
{
    if i < i2 {
        lemma_load_args_nbv_none(f, args, i, i2 - 1);
    }
}

/// The metadata of a response: what kind of declaration was verified, its
/// number and name, the step totals and the rendered binder table.
#[derive(Debug, Clone, PartialEq, Eq)]
pub struct Meta {
    pub decl_kind: String,
    pub decl_num: u32,
    pub decl_ident: String,
    pub styled_decl_ident: String,
    pub total_proof_steps: usize,
    pub total_unify_steps: usize,
    pub vars: String,
}

/// One response: the metadata, the recorded snapshots of the requested
/// stream, the aggregated table rows when asked for, and the verification
/// error, if one stopped the run.
#[derive(Debug, Clone, PartialEq, Eq)]
pub struct Response {
    pub meta: Meta,
    pub states: Vec<Snapshot>,
    pub table: Option<String>,
    pub error: Option<String>,
}

/// Whether `m` is the metadata of state `st`: the declaration's kind and
/// styled name by statement type, the step totals (one less than the
/// counters, which stand one past the terminal step), and the rendered
/// binder table.
pub open spec fn meta_matches(st: MmbState, m: Meta) -> bool {
    let ident = spec_stmt_name(*st.mmb_file, st.stmt)->Some_0;
    &&& m.decl_ident@ == ident
    &&& m.total_proof_steps == if st.cur_proof_step > 0 {
        (st.cur_proof_step - 1) as usize
    } else {
        st.cur_proof_step
    }
    &&& m.total_unify_steps == if st.cur_unify_step > 0 {
        (st.cur_unify_step - 1) as usize
    } else {
        st.cur_unify_step
    }
    &&& m.vars@ == crate::snap::spec_json_vars(st, 0)->Some_0
    &&& match st.stmt {
        NumdStmtCmd::Sort => false,
        NumdStmtCmd::TermDef { term_id } => m.decl_num == term_id && if st.mmb_file.terms@[term_id as int].is_def {
            m.decl_kind@ == "def"@ && m.styled_decl_ident@ == "def <span class=\"def\">"@ + ident
                + "</span>"@
        } else {
            m.decl_kind@ == "term"@ && m.styled_decl_ident@ == "term <span class=\"term\">"@
                + ident + "</span>"@
        },
        NumdStmtCmd::Axiom { thm_id } => m.decl_num == thm_id && m.decl_kind@ == "axiom"@
            && m.styled_decl_ident@ == "axiom <span class=\"ax\">"@ + ident + "</span>"@,
        NumdStmtCmd::Thm { thm_id } => m.decl_num == thm_id && m.decl_kind@ == "theorem"@
            && m.styled_decl_ident@ == "theorem <span class=\"thm\">"@ + ident + "</span>"@,
    }
}

impl<'a> MmbState<'a> {
    /// A state that has run nothing yet, as `new_from` hands it out.
    pub open spec fn fresh(self) -> bool {
        &&& self.store@.len() == 0
        &&& self.stack@.len() == 0
        &&& self.heap@.len() == 0
        &&& self.ustack@.len() == 0
        &&& self.uheap@.len() == 0
        &&& self.hstack@.len() == 0
        &&& self.next_bv == 1
        &&& self.cur_proof_step == 0
        &&& self.cur_unify_step == 0
        &&& self.cur_subunify_step == 0
        &&& self.proof_step_checksum is None
        &&& self.unify_step_checksum is None
    }

    /// Loads the declaration's arguments into the main heap, one variable
    /// node per argument, checking the bound-variable discipline; for a term
    /// or definition the last slot (the return) is popped off again.
    pub fn load_args(&mut self, args: &Vec<Type>, stmt: NumdStmtCmd) -> (r: Res<()>)
        requires
            old(self).wf(),
        ensures
            final(self).wf(),
            *final(self) == (MmbState {
                store: final(self).store,
                heap: final(self).heap,
                next_bv: final(self).next_bv,
                ..*old(self)
            }),
            r is Ok <==> (old(self).heap@.len() == 0 && old(self).next_bv == 1 && load_args_nbv(
                *old(self).mmb_file,
                args@,
                args@.len() as int,
            ) is Some),
            r matches Res::<()>::Err(e) ==> ((e is MakeSure || e is NoneErr) && ((forall|j: int|
                0 <= j < args@.len() && (#[trigger] args@[j]).spec_bound() ==> args@[j].spec_sort()
                    < old(self).mmb_file.sorts@.len()) ==> e is MakeSure)),
            r is Ok ==> {
                &&& final(self).store@ == old(self).store@ + Seq::new(
                    args@.len(),
                    |i: int| MmbItem::Expr(MmbExpr::Var { idx: i as usize, ty: args@[i] }),
                )
                &&& final(self).heap@ == Seq::new(
                    if stmt is TermDef && args@.len() > 0 {
                        (args@.len() - 1) as nat
                    } else {
                        args@.len()
                    },
                    |i: int| (old(self).store@.len() + i) as usize,
                )
                &&& final(self).next_bv == load_args_nbv(
                    *old(self).mmb_file,
                    args@,
                    args@.len() as int,
                )->Some_0
            },
    {
        if self.heap.len() != 0 {
            return Err(VerifErr::MakeSure("load_args"));
        }
        if self.next_bv != 1 {
            return Err(VerifErr::MakeSure("load_args"));
        }
        let n = args.len();
        let mut idx: usize = 0;
        while idx < n
            invariant
                self.wf(),
                idx <= n,
                n == args@.len(),
                *self == (MmbState {
                    store: self.store,
                    heap: self.heap,
                    next_bv: self.next_bv,
                    ..*old(self)
                }),
                load_args_nbv(*old(self).mmb_file, args@, idx as int) == Some(self.next_bv),
                self.store@ == old(self).store@ + Seq::new(
                    idx as nat,
                    |i: int| MmbItem::Expr(MmbExpr::Var { idx: i as usize, ty: args@[i] }),
                ),
                self.heap@ == Seq::new(idx as nat, |i: int| (old(self).store@.len() + i) as usize),
            decreases n - idx,
        {
            let arg = args[idx];
            if arg.bound() {
                let flags = match self.mmb_file.sort(arg.sort()) {
                    Some(f) => f,
                    None => {
                        proof {
                            lemma_load_args_nbv_none(
                                *old(self).mmb_file,
                                args@,
                                idx as int + 1,
                                n as int,
                            );
                        }
                        return Err(VerifErr::NoneErr("load_args"));
                    },
                };
                if flags & SORT_STRICT != 0 {
                    proof {
                        lemma_load_args_nbv_none(
                            *old(self).mmb_file,
                            args@,
                            idx as int + 1,
                            n as int,
                        );
                    }
                    return Err(VerifErr::MakeSure("load_args"));
                }
                if self.next_bv >> 56 != 0 {
                    proof {
                        lemma_load_args_nbv_none(
                            *old(self).mmb_file,
                            args@,
                            idx as int + 1,
                            n as int,
                        );
                    }
                    return Err(VerifErr::MakeSure("load_args"));
                }
                let this_bv = self.take_next_bv();
                let digit = match arg.bound_digit() {
                    Some(d) => d,
                    None => {
                        proof {
                            assert(false);
                        }
                        0
                    },
                };
                if digit != this_bv {
                    proof {
                        lemma_load_args_nbv_none(
                            *old(self).mmb_file,
                            args@,
                            idx as int + 1,
                            n as int,
                        );
                    }
                    return Err(VerifErr::MakeSure("load_args"));
                }
            } else {
                let deps = match arg.deps() {
                    Some(d) => d,
                    None => {
                        proof {
                            assert(false);
                        }
                        0
                    },
                };
                if deps & !((self.next_bv - 1) as u64) != 0 {
                    proof {
                        lemma_load_args_nbv_none(
                            *old(self).mmb_file,
                            args@,
                            idx as int + 1,
                            n as int,
                        );
                    }
                    return Err(VerifErr::MakeSure("load_args"));
                }
            }
            let ix = self.alloc_item(MmbItem::Expr(MmbExpr::Var { idx, ty: arg }));
            self.heap.push(ix);
            proof {
                assert(self.store@ =~= old(self).store@ + Seq::new(
                    idx as nat + 1,
                    |i: int| MmbItem::Expr(MmbExpr::Var { idx: i as usize, ty: args@[i] }),
                ));
                assert(self.heap@ =~= Seq::new(
                    idx as nat + 1,
                    |i: int| (old(self).store@.len() + i) as usize,
                ));
            }
            idx += 1;
        }
        if let NumdStmtCmd::TermDef { .. } = stmt {
            if self.heap.len() > 0 {
                let _ = self.heap.pop();
                proof {
                    assert(self.heap@ =~= Seq::new(
                        (n - 1) as nat,
                        |i: int| (old(self).store@.len() + i) as usize,
                    ));
                }
            }
        }
        Ok(())
    }

    /// Verifies a term or definition: load the arguments and the return
    /// slot, and for a definition run the proof stream, check the final
    /// value against the declared return type, and run the terminal
    /// unification with the arguments in the unify heap.
    pub fn verify_termdef(&mut self, stmt: NumdStmtCmd, term: &Term, proof: &ProofIter) -> (r: Res<
        (),
    >)
        requires
            old(self).wf(),
            old(self).fresh(),
        ensures
            final(self).wf(),
            final(self).stmt == old(self).stmt,
            final(self).debug_params == old(self).debug_params,
            final(self).mmb_file == old(self).mmb_file,
            final(self).mm1_env == old(self).mm1_env,
            r is Ok ==> final(self).stack@.len() == 0 && final(self).ustack@.len() == 0 && final(self).uheap@.len() == 0,
            r is Ok ==> load_args_nbv(
                *old(self).mmb_file,
                term.args@.push(term.ret),
                term.args@.len() as int + 1,
            ) is Some,
            final(self).proof_states@.len() >= old(self).proof_states@.len() && final(self).proof_states@.subrange(0, old(self).proof_states@.len() as int) == old(self).proof_states@,
            final(self).unify_states@.len() >= old(self).unify_states@.len() && final(self).unify_states@.subrange(0, old(self).unify_states@.len() as int) == old(self).unify_states@,
            !term.is_def ==> (r is Ok <==> load_args_nbv(
                *old(self).mmb_file,
                term.args@.push(term.ret),
                term.args@.len() as int + 1,
            ) is Some),
            !term.is_def && r is Ok ==> {
                &&& final(self).store@ == old(self).store@ + Seq::new(
                    term.args@.len() + 1,
                    |i: int| MmbItem::Expr(
                        MmbExpr::Var { idx: i as usize, ty: term.args@.push(term.ret)[i] },
                    ),
                )
                &&& (stmt is TermDef ==> final(self).heap@ == Seq::new(
                    term.args@.len(),
                    |i: int| (old(self).store@.len() + i) as usize,
                ))
                &&& final(self).next_bv == load_args_nbv(
                    *old(self).mmb_file,
                    term.args@.push(term.ret),
                    term.args@.len() as int + 1,
                )->Some_0
                &&& final(self).cur_proof_step == 0
                &&& final(self).cur_unify_step == 0
                &&& final(self).proof_states == old(self).proof_states
                &&& final(self).unify_states == old(self).unify_states
            },
            term.is_def && r is Ok ==> {
                &&& final(self).proof_step_checksum matches Some(c) && final(self).cur_proof_step
                    == c + 1
                &&& final(self).cur_unify_step == term.unify@.len() + 1
                &&& final(self).unify_step_checksum matches Some(u) && u == term.unify@.len()
            },
            r matches Res::<()>::Err(e) ==> (if load_args_nbv(
                *old(self).mmb_file,
                term.args@.push(term.ret),
                term.args@.len() as int + 1,
            ) is None {
                e is MakeSure || e is NoneErr
            } else {
                true
            }),
    {
        let args_and_ret = term.args_and_ret();
        match self.load_args(&args_and_ret, stmt) {
            Ok(()) => {},
            Err(e) => {
                return Err(e);
            },
        }
        if term.def() {
            match self.run_proof(crate::proof_stream::Mode::Def, proof) {
                Ok(()) => {},
                Err(e) => {
                    return Err(e);
                },
            }
            let final_val = match self.stack.pop() {
                Some(x) => x,
                None => {
                    return Err(VerifErr::NoneErr("verify_termdef"));
                },
            };
            let ty = match self.store[final_val].get_ty() {
                Ok(t) => t,
                Err(e) => {
                    return Err(e);
                },
            };
            if self.stack.len() != 0 {
                return Err(VerifErr::MakeSure("verify_termdef"));
            }
            if !crate::types::sorts_compatible(ty, term.ret()) {
                return Err(VerifErr::MakeSure("verify_termdef"));
            }
            if self.uheap.len() != 0 {
                return Err(VerifErr::MakeSure("verify_termdef"));
            }
            let take = if term.args.len() <= self.heap.len() {
                term.args.len()
            } else {
                self.heap.len()
            };
            let ghost pre = *self;
            proof {
                assert(self.uheap@ =~= self.heap@.subrange(0, 0));
            }
            let mut q: usize = 0;
            while q < take
                invariant
                    self.wf(),
                    q <= take,
                    take <= self.heap@.len(),
                    final_val < self.store@.len(),
                    self.uheap@ == self.heap@.subrange(0, q as int),
                    *self == (MmbState { uheap: self.uheap, ..pre }),
                decreases take - q,
            {
                let elem = self.heap[q];
                self.uheap.push(elem);
                proof {
                    assert(self.uheap@ =~= self.heap@.subrange(0, q as int + 1));
                }
                q += 1;
            }
            match self.run_unify(crate::unify::UMode::UDef, &term.unify, final_val, None) {
                Ok(()) => Ok(()),
                Err(e) => Err(e),
            }
        } else {
            proof {
                assert(self.stack@.len() == 0);
            }
            Ok(())
        }
    }

    /// Verifies an axiom or theorem: load the arguments, run the proof
    /// stream, take the final proof (for a theorem) or statement (for an
    /// axiom) off the stack, and run the terminal unification against it,
    /// consuming the hypothesis stack.
    pub fn verify_assert(&mut self, stmt: NumdStmtCmd, assertion: &Thm, proof: &ProofIter) -> (r: Res<
        (),
    >)
        requires
            old(self).wf(),
            old(self).fresh(),
        ensures
            final(self).wf(),
            final(self).stmt == old(self).stmt,
            final(self).debug_params == old(self).debug_params,
            final(self).mmb_file == old(self).mmb_file,
            final(self).mm1_env == old(self).mm1_env,
            r is Ok ==> final(self).stack@.len() == 0 && final(self).ustack@.len() == 0 && final(self).uheap@.len() == 0 && final(self).hstack@.len() == 0,
            final(self).proof_states@.len() >= old(self).proof_states@.len() && final(self).proof_states@.subrange(0, old(self).proof_states@.len() as int) == old(self).proof_states@,
            final(self).unify_states@.len() >= old(self).unify_states@.len() && final(self).unify_states@.subrange(0, old(self).unify_states@.len() as int) == old(self).unify_states@,
            r is Ok ==> {
                &&& final(self).proof_step_checksum matches Some(c) && final(self).cur_proof_step
                    == c + 1
                &&& final(self).cur_unify_step == assertion.unify@.len() + 1
                &&& final(self).unify_step_checksum matches Some(u) && u == assertion.unify@.len()
            },
            r matches Res::<()>::Err(e) ==> (if load_args_nbv(
                *old(self).mmb_file,
                assertion.args@,
                assertion.args@.len() as int,
            ) is None {
                e is MakeSure || e is NoneErr
            } else {
                true
            }),
    {
        match self.load_args(&assertion.args, stmt) {
            Ok(()) => {},
            Err(e) => {
                return Err(e);
            },
        }
        match self.run_proof(crate::proof_stream::Mode::Thm, proof) {
            Ok(()) => {},
            Err(e) => {
                return Err(e);
            },
        }
        let top = match self.stack.pop() {
            Some(x) => x,
            None => {
                return Err(VerifErr::NoneErr("verify_assert"));
            },
        };
        let is_thm_stmt = match stmt {
            NumdStmtCmd::Thm { .. } => true,
            _ => false,
        };
        let is_axiom_stmt = match stmt {
            NumdStmtCmd::Axiom { .. } => true,
            _ => false,
        };
        proof {
            assert(crate::item::item_bounded(self.store@[top as int], top as int));
        }
        let final_val = match &self.store[top] {
            MmbItem::Proof(p) if is_thm_stmt => *p,
            _ => {
                if is_axiom_stmt {
                    top
                } else {
                    return Err(VerifErr::Msg("Expected a proof".to_owned()));
                }
            },
        };
        if self.stack.len() != 0 {
            return Err(VerifErr::MakeSure("verify_assert"));
        }
        if self.uheap.len() != 0 {
            return Err(VerifErr::MakeSure("verify_assert"));
        }
        let take = if assertion.args.len() <= self.heap.len() {
            assertion.args.len()
        } else {
            self.heap.len()
        };
        let ghost pre = *self;
        proof {
            assert(self.uheap@ =~= self.heap@.subrange(0, 0));
        }
        let mut q: usize = 0;
        while q < take
            invariant
                self.wf(),
                q <= take,
                take <= self.heap@.len(),
                final_val < self.store@.len(),
                self.uheap@ == self.heap@.subrange(0, q as int),
                *self == (MmbState { uheap: self.uheap, ..pre }),
            decreases take - q,
        {
            let elem = self.heap[q];
            self.uheap.push(elem);
            proof {
                assert(self.uheap@ =~= self.heap@.subrange(0, q as int + 1));
            }
            q += 1;
        }
        match self.run_unify(crate::unify::UMode::UThmEnd, &assertion.unify, final_val, None) {
            Ok(()) => Ok(()),
            Err(e) => Err(e),
        }
    }

    /// The metadata of the declaration: its kind, number, plain and styled
    /// name, the step totals and the rendered binder table.
    pub fn get_metadata(&self) -> (r: Res<Meta>)
        requires
            self.wf(),
        ensures
            r is Ok <==> (spec_stmt_name(*self.mmb_file, self.stmt) is Some
                && crate::snap::spec_json_vars(*self, 0) is Some),
            r matches Res::<Meta>::Ok(m) ==> meta_matches(*self, m),
    {
        let decl_ident = match self.mmb_file.stmt_index(self.stmt) {
            Some(s) => s,
            None => {
                return Err(
                    VerifErr::LocalMsg("get_metadata", "No statement found in index".to_owned()),
                );
            },
        };
        let (kind, declar_num, styled): (&'static str, u32, String) = match self.stmt {
            NumdStmtCmd::Sort => {
                proof {
                    assert(false);
                }
                ("term", 0, String::new())
            },
            NumdStmtCmd::TermDef { term_id } => {
                let is_def = self.mmb_file.terms[term_id as usize].is_def;
                if is_def {
                    let mut s = "def <span class=\"def\">".to_owned();
                    s.append(decl_ident.as_str());
                    s.append("</span>");
                    ("def", term_id, s)
                } else {
                    let mut s = "term <span class=\"term\">".to_owned();
                    s.append(decl_ident.as_str());
                    s.append("</span>");
                    ("term", term_id, s)
                }
            },
            NumdStmtCmd::Axiom { thm_id } => {
                let mut s = "axiom <span class=\"ax\">".to_owned();
                s.append(decl_ident.as_str());
                s.append("</span>");
                ("axiom", thm_id, s)
            },
            NumdStmtCmd::Thm { thm_id } => {
                let mut s = "theorem <span class=\"thm\">".to_owned();
                s.append(decl_ident.as_str());
                s.append("</span>");
                ("theorem", thm_id, s)
            },
        };
        let vars = match self.json_vars() {
            Ok(v) => v,
            Err(e) => {
                return Err(e);
            },
        };
        let total_proof_steps = if self.cur_proof_step > 0 {
            self.cur_proof_step - 1
        } else {
            self.cur_proof_step
        };
        let total_unify_steps = if self.cur_unify_step > 0 {
            self.cur_unify_step - 1
        } else {
            self.cur_unify_step
        };
        Ok(
            Meta {
                decl_kind: kind.to_owned(),
                decl_num: declar_num,
                decl_ident,
                styled_decl_ident: styled,
                total_proof_steps,
                total_unify_steps,
                vars,
            },
        )
    }

    /// Packages the run into one response: the metadata, the snapshots of
    /// the requested stream, the table rows when asked for, and the
    /// rendered verification error, if any.
    pub fn mk_response(&mut self, error: Option<VerifErr>) -> (r: Res<Response>)
        requires
            old(self).wf(),
        ensures
            r is Ok <==> (spec_stmt_name(*old(self).mmb_file, old(self).stmt) is Some
                && crate::snap::spec_json_vars(*old(self), 0) is Some),
            r matches Res::<Response>::Ok(resp) ==> {
                &&& meta_matches(*old(self), resp.meta)
                &&& resp.states@ == if old(self).debug_params.unify_req {
                    old(self).unify_states@
                } else {
                    old(self).proof_states@
                }
                &&& (old(self).debug_params.table ==> (resp.table matches Some(rows) && rows@
                    == if old(self).debug_params.unify_req {
                    old(self).unify_rows@
                } else {
                    old(self).proof_rows@
                }))
                &&& (!old(self).debug_params.table ==> resp.table is None)
                &&& match error {
                    None => resp.error is None,
                    Some(e) => resp.error matches Some(s) && s@ == err_chars(e),
                }
            },
    {
        let meta = match self.get_metadata() {
            Ok(m) => m,
            Err(e) => {
                return Err(e);
            },
        };
        let mut states: Vec<Snapshot> = Vec::new();
        if self.debug_params.unify_req {
            core::mem::swap(&mut states, &mut self.unify_states);
        } else {
            core::mem::swap(&mut states, &mut self.proof_states);
        }
        let table: Option<String> = if self.debug_params.table {
            let mut rows = String::new();
            if self.debug_params.unify_req {
                core::mem::swap(&mut rows, &mut self.unify_rows);
            } else {
                core::mem::swap(&mut rows, &mut self.proof_rows);
            }
            Some(rows)
        } else {
            None
        };
        let error_s: Option<String> = match error {
            None => None,
            Some(e) => Some(e.render()),
        };
        Ok(Response { meta, states, table, error: error_s })
    }
}

} // verus!
