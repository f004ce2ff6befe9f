use mmb_debugger::env::{Environment, NotaInfo, NotaLit, Prec};
use mmb_debugger::item::{MmbExpr, MmbItem};
use mmb_debugger::mmb::{MmbFile, NumdStmtCmd, ProofCmd, ProofIter, Term, Thm, UnifyCmd};
use mmb_debugger::state::{MmbDebugParams, MmbState};
use mmb_debugger::types::{Type, TYPE_BOUND_MASK};
use mmb_debugger::util::VerifErr;
use mmb_debugger::verify1_extern_aux;

fn bty(sort: u8, digit: u64) -> Type {
    Type::new(TYPE_BOUND_MASK | ((sort as u64) << 56) | digit)
}

fn pty(sort: u8, deps: u64) -> Type {
    Type::new(((sort as u64) << 56) | deps)
}

fn mk_params(stepnum: Option<usize>, unify_req: bool, table: bool) -> MmbDebugParams {
    MmbDebugParams {
        file_uri: "file:///t.mmb".to_string(),
        decl_ident: "d".to_string(),
        elab_level: 0,
        bracket_level: 1,
        stepnum,
        unify_req,
        table,
    }
}

fn empty_env() -> Environment {
    Environment { decl_nota: Vec::new(), prefixes: Vec::new(), infixes: Vec::new() }
}

fn sort_only_file() -> MmbFile {
    MmbFile {
        sorts: vec![0],
        sort_names: vec!["foo".to_string()],
        terms: Vec::new(),
        term_names: Vec::new(),
        term_vars: Vec::new(),
        thms: Vec::new(),
        thm_names: Vec::new(),
        thm_vars: Vec::new(),
    }
}

/// A file with a definition `d` whose body is `f z` for one dummy `z`.
fn def_file(unify: Vec<UnifyCmd>) -> MmbFile {
    MmbFile {
        sorts: vec![0],
        sort_names: vec!["s".to_string()],
        terms: vec![
            Term { args: vec![], ret: pty(0, 0), unify, is_def: true },
            Term { args: vec![bty(0, 1)], ret: pty(0, 0), unify: vec![], is_def: false },
        ],
        term_names: vec!["d".to_string(), "f".to_string()],
        term_vars: vec![vec![], vec!["x".to_string()]],
        thms: Vec::new(),
        thm_names: Vec::new(),
        thm_vars: Vec::new(),
    }
}

fn def_proof() -> ProofIter {
    ProofIter::new(vec![ProofCmd::Dummy(0), ProofCmd::Term { tid: 1, save: false }])
}

fn def_unify() -> Vec<UnifyCmd> {
    vec![UnifyCmd::Term { tid: 1, save: false }, UnifyCmd::Dummy(0)]
}

#[test]
fn sort_with_null_proof_gives_outer_unrecognized_error() {
    let file = sort_only_file();
    let env = empty_env();
    let r = verify1_extern_aux(
        &file,
        &env,
        NumdStmtCmd::Sort,
        &ProofIter::null(),
        mk_params(Some(0), false, false),
    );
    match r {
        Err(VerifErr::Msg(m)) => {
            assert_eq!(m, "unrecognized StmtCmd");
            assert_ne!(m, "mmb sorts must have null proof iterators");
        },
        _ => panic!("expected the outer unrecognized-statement error"),
    }
}

#[test]
fn sort_with_nonnull_proof_is_rejected() {
    let file = sort_only_file();
    let env = empty_env();
    let r = verify1_extern_aux(
        &file,
        &env,
        NumdStmtCmd::Sort,
        &ProofIter::new(vec![ProofCmd::Sorry]),
        mk_params(Some(0), false, false),
    );
    match r {
        Err(VerifErr::Msg(m)) => assert_eq!(m, "mmb sorts must have null proof iterators"),
        _ => panic!("expected the null-proof error"),
    }
}

#[test]
fn plain_term_with_nonnull_proof_is_rejected() {
    let file = MmbFile {
        sorts: vec![0],
        sort_names: vec!["wff".to_string()],
        terms: vec![Term { args: vec![], ret: pty(0, 0), unify: vec![], is_def: false }],
        term_names: vec!["t".to_string()],
        term_vars: vec![vec![]],
        thms: Vec::new(),
        thm_names: Vec::new(),
        thm_vars: Vec::new(),
    };
    let env = empty_env();
    let r = verify1_extern_aux(
        &file,
        &env,
        NumdStmtCmd::TermDef { term_id: 0 },
        &ProofIter::new(vec![ProofCmd::Sorry]),
        mk_params(None, false, false),
    );
    match r {
        Err(VerifErr::Msg(m)) => assert_eq!(m, "mmb terms must have null proof iterators"),
        _ => panic!("expected the null-proof error"),
    }
}

#[test]
fn term_with_two_bound_args_loads_sequential_digits() {
    let file = MmbFile {
        sorts: vec![0],
        sort_names: vec!["wff".to_string()],
        terms: vec![
            Term { args: vec![bty(0, 1), bty(0, 2)], ret: pty(0, 0), unify: vec![], is_def: false },
        ],
        term_names: vec!["t".to_string()],
        term_vars: vec![vec!["a".to_string(), "b".to_string()]],
        thms: Vec::new(),
        thm_names: Vec::new(),
        thm_vars: Vec::new(),
    };
    let env = empty_env();
    let stmt = NumdStmtCmd::TermDef { term_id: 0 };
    let mut st = MmbState::new_from(stmt, &file, &env, mk_params(Some(0), false, false));
    let proof = ProofIter::null();
    let term = &file.terms[0];
    assert!(st.verify_termdef(stmt, term, &proof).is_ok());
    assert_eq!(st.heap.len(), 2);
    assert_eq!(
        st.store[st.heap[0]],
        MmbItem::Expr(MmbExpr::Var { idx: 0, ty: bty(0, 1) })
    );
    assert_eq!(
        st.store[st.heap[1]],
        MmbItem::Expr(MmbExpr::Var { idx: 1, ty: bty(0, 2) })
    );
    // No proof was run.
    assert_eq!(st.cur_proof_step, 0);
    let resp = st.mk_response(None).unwrap();
    assert!(resp.error.is_none());
    assert_eq!(resp.states.len(), 0);
    assert_eq!(resp.meta.decl_kind, "term");
    assert_eq!(resp.meta.decl_num, 0);
    assert_eq!(resp.meta.decl_ident, "t");
}

#[test]
fn definition_records_three_proof_and_three_unify_snapshots() {
    let file = def_file(def_unify());
    let env = empty_env();
    let stmt = NumdStmtCmd::TermDef { term_id: 0 };
    // The proof stream's snapshots.
    let r = verify1_extern_aux(&file, &env, stmt, &def_proof(), mk_params(Some(0), false, false))
        .unwrap();
    assert!(r.error.is_none(), "error: {:?}", r.error);
    assert_eq!(r.meta.total_proof_steps, 2);
    assert_eq!(r.meta.total_unify_steps, 2);
    assert_eq!(r.states.len(), 3);
    assert_eq!(r.states[0].num, 0);
    assert_eq!(r.states[1].num, 1);
    assert_eq!(r.states[2].num, 2);
    assert_eq!(r.states[2].cmd, "Done!");
    assert_eq!(r.states[0].mode, "Proof Def");
    // The dummy binder was learned during unification and shows in `vars`.
    assert!(r.meta.vars.contains(".v0"), "vars: {}", r.meta.vars);
    assert!(r.meta.vars.contains("bvar"), "vars: {}", r.meta.vars);
    // The unify stream's snapshots.
    let r2 = verify1_extern_aux(&file, &env, stmt, &def_proof(), mk_params(Some(0), true, false))
        .unwrap();
    assert!(r2.error.is_none());
    assert_eq!(r2.states.len(), 3);
    assert_eq!(r2.states[0].mode, "Unify Def");
    assert!(r2.states[0].tgt.is_some());
}

#[test]
fn snapshot_window_clamps_to_the_target() {
    let file = def_file(def_unify());
    let env = empty_env();
    let stmt = NumdStmtCmd::TermDef { term_id: 0 };
    // Without a target step nothing is recorded.
    let r = verify1_extern_aux(&file, &env, stmt, &def_proof(), mk_params(None, false, false))
        .unwrap();
    assert_eq!(r.states.len(), 0);
    // A target inside the run records min(len + 1, t + 50) - max(0, t - 50).
    let r1 = verify1_extern_aux(&file, &env, stmt, &def_proof(), mk_params(Some(2), false, false))
        .unwrap();
    assert_eq!(r1.states.len(), 3);
    // A target far beyond the run records nothing.
    let r2 = verify1_extern_aux(&file, &env, stmt, &def_proof(), mk_params(Some(60), false, false))
        .unwrap();
    assert_eq!(r2.states.len(), 0);
    // A target of 52 leaves a window of [2, 102), which catches only the
    // terminal step: min(2 + 1, 52 + 50) - max(0, 52 - 50) = 1.
    let r3 = verify1_extern_aux(&file, &env, stmt, &def_proof(), mk_params(Some(52), false, false))
        .unwrap();
    assert_eq!(r3.states.len(), 1);
    assert_eq!(r3.states[0].num, 2);
}

#[test]
fn stacks_are_empty_after_successful_verification() {
    let file = def_file(def_unify());
    let env = empty_env();
    let stmt = NumdStmtCmd::TermDef { term_id: 0 };
    let mut st = MmbState::new_from(stmt, &file, &env, mk_params(None, false, false));
    let proof = def_proof();
    st.verify_termdef(stmt, &file.terms[0], &proof).unwrap();
    assert_eq!(st.stack.len(), 0);
    assert_eq!(st.ustack.len(), 0);
    assert_eq!(st.uheap.len(), 0);
    assert_eq!(st.hstack.len(), 0);
}

#[test]
fn table_rows_are_aggregated_when_requested() {
    let file = def_file(def_unify());
    let env = empty_env();
    let stmt = NumdStmtCmd::TermDef { term_id: 0 };
    let r = verify1_extern_aux(&file, &env, stmt, &def_proof(), mk_params(Some(0), false, true))
        .unwrap();
    let rows = r.table.expect("table rows were requested");
    assert!(rows.starts_with(
        "<tr class=\"proof_row\" id=\"r0\"><td id=\"n0\">0</td>\
         <td>ProofCmd::Dummy(0) (<span class=\"sort\">s</span>)</td>\
         <td>Proof Def</td><td>--</td></tr>"
    ), "rows: {}", rows);
    assert!(rows.contains("ProofCmd::Dummy(0)"), "rows: {}", rows);
    let r2 = verify1_extern_aux(&file, &env, stmt, &def_proof(), mk_params(Some(0), false, false))
        .unwrap();
    assert!(r2.table.is_none());
}

#[test]
fn theorem_application_with_mismatched_arity_fails_with_make_sure() {
    let file = MmbFile {
        sorts: vec![0],
        sort_names: vec!["wff".to_string()],
        terms: Vec::new(),
        term_names: Vec::new(),
        term_vars: Vec::new(),
        thms: vec![
            Thm { args: vec![bty(0, 1)], unify: vec![] },
            Thm { args: vec![], unify: vec![] },
        ],
        thm_names: vec!["h".to_string(), "T".to_string()],
        thm_vars: vec![vec!["a".to_string()], vec![]],
    };
    let env = empty_env();
    let stmt = NumdStmtCmd::Thm { thm_id: 1 };
    let proof = ProofIter::new(vec![ProofCmd::Dummy(0), ProofCmd::Thm { tid: 0, save: true }]);
    let r = verify1_extern_aux(&file, &env, stmt, &proof, mk_params(Some(0), false, false))
        .unwrap();
    let err = r.error.expect("the theorem application must fail");
    assert_eq!(err, "VerifErr::MakeSure { site: proof_thm }");
    // Snapshots up to and including the failing step are present.
    assert_eq!(r.states.len(), 2);
    assert!(r.states[1].cmd.contains("ProofCmd::Thm"));
}

#[test]
fn cong_with_differing_term_ids_fails_with_make_sure() {
    let file = MmbFile {
        sorts: vec![0],
        sort_names: vec!["wff".to_string()],
        terms: vec![
            Term { args: vec![], ret: pty(0, 0), unify: vec![], is_def: false },
            Term { args: vec![], ret: pty(0, 0), unify: vec![], is_def: false },
        ],
        term_names: vec!["t0".to_string(), "t1".to_string()],
        term_vars: vec![vec![], vec![]],
        thms: vec![Thm { args: vec![], unify: vec![] }],
        thm_names: vec!["T".to_string()],
        thm_vars: vec![vec![]],
    };
    let env = empty_env();
    let stmt = NumdStmtCmd::Thm { thm_id: 0 };
    let proof = ProofIter::new(vec![
        ProofCmd::Term { tid: 1, save: false },
        ProofCmd::Term { tid: 0, save: false },
        ProofCmd::Sorry,
        ProofCmd::Conv,
        ProofCmd::Cong,
    ]);
    let r = verify1_extern_aux(&file, &env, stmt, &proof, mk_params(Some(0), false, false))
        .unwrap();
    let err = r.error.expect("the congruence must fail");
    assert_eq!(err, "VerifErr::MakeSure { site: proof_cong }");
}

#[test]
fn dummy_disjointness_violation_fails_inside_unify_dummy() {
    // The definition's unify stream saves the whole application to the
    // unify heap, so the second dummy's ordinal is no longer disjoint from
    // the heap and `unify_dummy` must reject it.
    let file = MmbFile {
        sorts: vec![0],
        sort_names: vec!["s".to_string()],
        terms: vec![
            Term {
                args: vec![],
                ret: pty(0, 0),
                unify: vec![
                    UnifyCmd::Term { tid: 1, save: true },
                    UnifyCmd::Dummy(0),
                    UnifyCmd::Dummy(0),
                ],
                is_def: true,
            },
            Term { args: vec![bty(0, 1), pty(0, 1)], ret: pty(0, 0), unify: vec![], is_def: false },
        ],
        term_names: vec!["d".to_string(), "f".to_string()],
        term_vars: vec![vec![], vec!["x".to_string(), "y".to_string()]],
        thms: Vec::new(),
        thm_names: Vec::new(),
        thm_vars: Vec::new(),
    };
    let env = empty_env();
    let stmt = NumdStmtCmd::TermDef { term_id: 0 };
    let proof = ProofIter::new(vec![
        ProofCmd::Dummy(0),
        ProofCmd::Dummy(0),
        ProofCmd::Term { tid: 1, save: false },
    ]);
    let r = verify1_extern_aux(&file, &env, stmt, &proof, mk_params(Some(0), false, false))
        .unwrap();
    let err = r.error.expect("the dummy disjointness check must fail");
    assert_eq!(err, "VerifErr::MakeSure { site: unify_dummy }");
}

#[test]
fn sym_twice_restores_the_original_coconv() {
    let file = def_file(def_unify());
    let env = empty_env();
    let stmt = NumdStmtCmd::TermDef { term_id: 0 };
    let mut st = MmbState::new_from(stmt, &file, &env, mk_params(None, false, false));
    let a = st.alloc_item(MmbItem::Expr(MmbExpr::Var { idx: 0, ty: bty(0, 1) }));
    let b = st.alloc_item(MmbItem::Expr(MmbExpr::Var { idx: 1, ty: bty(0, 2) }));
    let cc = st.alloc_item(MmbItem::CoConv(a, b));
    st.stack.push(cc);
    st.proof_sym().unwrap();
    let mid = *st.stack.last().unwrap();
    assert_eq!(st.store[mid], MmbItem::CoConv(b, a));
    st.proof_sym().unwrap();
    let top = *st.stack.last().unwrap();
    // A fresh node, but with exactly the original content.
    assert_ne!(top, cc);
    assert_eq!(st.store[top], st.store[cc]);
    assert_eq!(st.store[top], MmbItem::CoConv(a, b));
}

#[test]
fn cong_then_refl_succeeds_exactly_for_identical_children() {
    let file = def_file(def_unify());
    let env = empty_env();
    let stmt = NumdStmtCmd::TermDef { term_id: 0 };
    // Identical argument lists: every Refl succeeds.
    let mut st = MmbState::new_from(stmt, &file, &env, mk_params(None, false, false));
    let a = st.alloc_item(MmbItem::Expr(MmbExpr::Var { idx: 0, ty: bty(0, 1) }));
    let b = st.alloc_item(MmbItem::Expr(MmbExpr::Var { idx: 1, ty: bty(0, 2) }));
    let app1 = st.alloc_item(MmbItem::Expr(MmbExpr::App {
        term_num: 7,
        args: vec![a, b],
        ty: pty(0, 0),
    }));
    let app2 = st.alloc_item(MmbItem::Expr(MmbExpr::App {
        term_num: 7,
        args: vec![a, b],
        ty: pty(0, 0),
    }));
    let cc = st.alloc_item(MmbItem::CoConv(app1, app2));
    st.stack.push(cc);
    st.proof_cong().unwrap();
    assert_eq!(st.stack.len(), 2);
    st.proof_refl().unwrap();
    st.proof_refl().unwrap();
    assert_eq!(st.stack.len(), 0);
    // Differing argument lists: Cong succeeds, Refl rejects the pair.
    let mut st2 = MmbState::new_from(stmt, &file, &env, mk_params(None, false, false));
    let x = st2.alloc_item(MmbItem::Expr(MmbExpr::Var { idx: 0, ty: bty(0, 1) }));
    let y = st2.alloc_item(MmbItem::Expr(MmbExpr::Var { idx: 1, ty: bty(0, 2) }));
    let app3 = st2.alloc_item(MmbItem::Expr(MmbExpr::App {
        term_num: 7,
        args: vec![x],
        ty: pty(0, 0),
    }));
    let app4 = st2.alloc_item(MmbItem::Expr(MmbExpr::App {
        term_num: 7,
        args: vec![y],
        ty: pty(0, 0),
    }));
    let cc2 = st2.alloc_item(MmbItem::CoConv(app3, app4));
    st2.stack.push(cc2);
    st2.proof_cong().unwrap();
    match st2.proof_refl() {
        Err(VerifErr::MakeSure(site)) => assert_eq!(site, "proof_refl"),
        other => panic!("expected the reflexivity check to fail, got {:?}", other),
    }
}

#[test]
fn level_one_rendering_names_the_binders() {
    let file = MmbFile {
        sorts: vec![0],
        sort_names: vec!["wff".to_string()],
        terms: Vec::new(),
        term_names: Vec::new(),
        term_vars: Vec::new(),
        thms: vec![Thm { args: vec![bty(0, 1)], unify: vec![UnifyCmd::Ref(0)] }],
        thm_names: vec!["T".to_string()],
        thm_vars: vec![vec!["x".to_string()]],
    };
    let env = empty_env();
    let stmt = NumdStmtCmd::Thm { thm_id: 0 };
    let proof = ProofIter::new(vec![ProofCmd::Ref(0), ProofCmd::Sorry]);
    let mut params = mk_params(Some(0), false, false);
    params.elab_level = 1;
    let r = verify1_extern_aux(&file, &env, stmt, &proof, params).unwrap();
    assert!(r.error.is_none(), "error: {:?}", r.error);
    assert!(r.states[1].stack.contains("<span class=\"bvar\">x</span>"),
        "stack: {}", r.states[1].stack);
}

#[test]
fn level_two_rendering_uses_declared_infix_notation() {
    let file = MmbFile {
        sorts: vec![0],
        sort_names: vec!["wff".to_string()],
        terms: vec![
            Term { args: vec![pty(0, 0), pty(0, 0)], ret: pty(0, 0), unify: vec![], is_def: false },
        ],
        term_names: vec!["g".to_string()],
        term_vars: vec![vec![]],
        thms: vec![
            Thm {
                args: vec![pty(0, 0), pty(0, 0)],
                unify: vec![UnifyCmd::Term { tid: 0, save: false }, UnifyCmd::Ref(0), UnifyCmd::Ref(1)],
            },
        ],
        thm_names: vec!["T".to_string()],
        thm_vars: vec![vec!["x".to_string(), "y".to_string()]],
    };
    let env = Environment {
        decl_nota: vec![(0, vec![("+".to_string(), true)])],
        prefixes: Vec::new(),
        infixes: vec![
            (
                "+".to_string(),
                NotaInfo {
                    lits: vec![
                        NotaLit::Var(0, Prec::Prec(11)),
                        NotaLit::Const("+".to_string()),
                        NotaLit::Var(1, Prec::Prec(10)),
                    ],
                },
            ),
        ],
    };
    let stmt = NumdStmtCmd::Thm { thm_id: 0 };
    let proof = ProofIter::new(vec![
        ProofCmd::Ref(0),
        ProofCmd::Ref(1),
        ProofCmd::Term { tid: 0, save: false },
        ProofCmd::Sorry,
    ]);
    let mut params = mk_params(Some(3), false, false);
    params.elab_level = 2;
    let r = verify1_extern_aux(&file, &env, stmt, &proof, params).unwrap();
    assert!(r.error.is_none(), "error: {:?}", r.error);
    let snap = &r.states[3];
    assert!(snap.stack.contains("<span class=\"var\">x</span> + <span class=\"var\">y</span>"),
        "stack: {}", snap.stack);
}

#[test]
fn new_from_starts_from_nothing() {
    let file = def_file(def_unify());
    let env = empty_env();
    let st = MmbState::new_from(
        NumdStmtCmd::TermDef { term_id: 0 },
        &file,
        &env,
        mk_params(None, false, false),
    );
    assert_eq!(st.store.len(), 0);
    assert_eq!(st.stack.len(), 0);
    assert_eq!(st.heap.len(), 0);
    assert_eq!(st.ustack.len(), 0);
    assert_eq!(st.uheap.len(), 0);
    assert_eq!(st.hstack.len(), 0);
    assert_eq!(st.next_bv, 1);
    assert_eq!(st.cur_proof_step, 0);
    assert_eq!(st.cur_unify_step, 0);
}

#[test]
fn missing_declaration_is_an_outer_error() {
    let file = sort_only_file();
    let env = empty_env();
    let r = verify1_extern_aux(
        &file,
        &env,
        NumdStmtCmd::TermDef { term_id: 3 },
        &ProofIter::null(),
        mk_params(None, false, false),
    );
    assert!(r.is_err());
    let r2 = verify1_extern_aux(
        &file,
        &env,
        NumdStmtCmd::Axiom { thm_id: 0 },
        &ProofIter::null(),
        mk_params(None, false, false),
    );
    assert!(r2.is_err());
}

#[test]
fn theorem_application_runs_a_sub_unification() {
    // An axiom `h` proving the constant `c`, applied inside the proof of a
    // theorem with the same statement.
    let file = MmbFile {
        sorts: vec![4],
        sort_names: vec!["wff".to_string()],
        terms: vec![Term { args: vec![], ret: pty(0, 0), unify: vec![], is_def: false }],
        term_names: vec!["c".to_string()],
        term_vars: vec![vec![]],
        thms: vec![
            Thm { args: vec![], unify: vec![UnifyCmd::Term { tid: 0, save: false }] },
            Thm { args: vec![], unify: vec![UnifyCmd::Term { tid: 0, save: false }] },
        ],
        thm_names: vec!["h".to_string(), "T".to_string()],
        thm_vars: vec![vec![], vec![]],
    };
    let env = empty_env();
    let stmt = NumdStmtCmd::Thm { thm_id: 1 };
    let proof = ProofIter::new(vec![
        ProofCmd::Term { tid: 0, save: false },
        ProofCmd::Thm { tid: 0, save: false },
    ]);
    let r = verify1_extern_aux(&file, &env, stmt, &proof, mk_params(Some(0), false, false))
        .unwrap();
    assert!(r.error.is_none(), "error: {:?}", r.error);
    // Two proof commands, a sub-unification of one command plus its
    // terminal step, and the proof stream's terminal step.
    assert_eq!(r.meta.total_proof_steps, 4);
    assert_eq!(r.states.len(), 5);
    let sub = &r.states[2];
    assert_eq!(sub.mode, "Unify Thm");
    let info = sub.subunify.as_ref().expect("a sub-unification snapshot");
    assert_eq!(info.subnum, 0);
    assert_eq!(info.subof, 1);
    assert!(info.finish.contains("Thm"), "finish: {}", info.finish);
    assert!(r.states[4].subunify.is_none());
}

#[test]
fn hypotheses_move_through_the_hypothesis_stack() {
    // A theorem that introduces the hypothesis `c` and concludes `c`; at
    // theorem end the unifier feeds the hypothesis back and the hypothesis
    // stack must come out empty.
    let file = MmbFile {
        sorts: vec![4],
        sort_names: vec!["wff".to_string()],
        terms: vec![Term { args: vec![], ret: pty(0, 0), unify: vec![], is_def: false }],
        term_names: vec!["c".to_string()],
        term_vars: vec![vec![]],
        thms: vec![
            Thm {
                args: vec![],
                unify: vec![
                    UnifyCmd::Term { tid: 0, save: false },
                    UnifyCmd::Hyp,
                    UnifyCmd::Term { tid: 0, save: false },
                ],
            },
        ],
        thm_names: vec!["T".to_string()],
        thm_vars: vec![vec![]],
    };
    let env = empty_env();
    let stmt = NumdStmtCmd::Thm { thm_id: 0 };
    let proof = ProofIter::new(vec![
        ProofCmd::Term { tid: 0, save: false },
        ProofCmd::Hyp,
        ProofCmd::Ref(0),
    ]);
    let mut st = MmbState::new_from(stmt, &file, &env, mk_params(None, false, false));
    st.verify_assert(stmt, &file.thms[0], &proof).unwrap();
    assert_eq!(st.hstack.len(), 0);
    assert_eq!(st.stack.len(), 0);
    assert_eq!(st.ustack.len(), 0);
}
