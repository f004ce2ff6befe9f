use mmb_debugger::env::Environment;
use mmb_debugger::item::{MmbExpr, MmbItem};
use mmb_debugger::mmb::{MmbFile, NumdStmtCmd, ProofCmd, ProofIter, Term, UnifyCmd};
use mmb_debugger::state::{MmbDebugParams, MmbState};
use mmb_debugger::types::{Type, TYPE_BOUND_MASK};
use mmb_debugger::util::VerifErr;
use mmb_debugger::verify1_extern_aux;

fn ebty(sort: u8, digit: u64) -> Type {
    Type::new(TYPE_BOUND_MASK | ((sort as u64) << 56) | digit)
}

fn epty(sort: u8, deps: u64) -> Type {
    Type::new(((sort as u64) << 56) | deps)
}

fn eparams(stepnum: Option<usize>, elab_level: u8) -> MmbDebugParams {
    MmbDebugParams {
        file_uri: "file:///t.mmb".to_string(),
        decl_ident: "d".to_string(),
        elab_level,
        bracket_level: 1,
        stepnum,
        unify_req: false,
        table: false,
    }
}

fn eenv() -> Environment {
    Environment { decl_nota: Vec::new(), prefixes: Vec::new(), infixes: Vec::new() }
}

/// A definition `d y := f2 y` whose unify stream asks for `Ref(0)` where
/// the unify heap holds `y` but the target is the whole application.
fn mismatch_file() -> MmbFile {
    MmbFile {
        sorts: vec![0],
        sort_names: vec!["s".to_string()],
        terms: vec![
            Term {
                args: vec![epty(0, 0)],
                ret: epty(0, 0),
                unify: vec![UnifyCmd::Ref(0)],
                is_def: true,
            },
            Term { args: vec![epty(0, 0)], ret: epty(0, 0), unify: vec![], is_def: false },
        ],
        term_names: vec!["d".to_string(), "f2".to_string()],
        term_vars: vec![vec!["y".to_string()], vec!["a".to_string()]],
        thms: Vec::new(),
        thm_names: Vec::new(),
        thm_vars: Vec::new(),
    }
}

fn empty_state_file() -> MmbFile {
    MmbFile {
        sorts: vec![0],
        sort_names: vec!["s".to_string()],
        terms: vec![Term { args: vec![], ret: epty(0, 0), unify: vec![], is_def: false }],
        term_names: vec!["t".to_string()],
        term_vars: vec![vec![]],
        thms: Vec::new(),
        thm_names: Vec::new(),
        thm_vars: Vec::new(),
    }
}

#[test]
fn bad_unify_ref_reports_a_message_error() {
    let file = mismatch_file();
    let env = eenv();
    let stmt = NumdStmtCmd::TermDef { term_id: 0 };
    let proof = ProofIter::new(vec![ProofCmd::Ref(0), ProofCmd::Term { tid: 1, save: false }]);
    let r = verify1_extern_aux(&file, &env, stmt, &proof, eparams(None, 0)).unwrap();
    assert_eq!(r.error.as_deref(), Some("VerifErr::Msg { msg: Bad unify ref }"));
}

#[test]
fn missing_heap_slot_reports_a_lookup_error() {
    let file = empty_state_file();
    let env = eenv();
    let stmt = NumdStmtCmd::TermDef { term_id: 0 };
    let mut st = MmbState::new_from(stmt, &file, &env, eparams(None, 0));
    match st.proof_ref(3) {
        Err(VerifErr::NoneErr(site)) => assert_eq!(site, "proof_ref"),
        other => panic!("expected a lookup error, got {:?}", other),
    }
}

#[test]
fn conv_save_on_empty_stack_reports_a_local_error() {
    let file = empty_state_file();
    let env = eenv();
    let stmt = NumdStmtCmd::TermDef { term_id: 0 };
    let mut st = MmbState::new_from(stmt, &file, &env, eparams(None, 0));
    let e = st.proof_conv_save().unwrap_err();
    assert_eq!(
        e.render(),
        "VerifErr::Local { site: proof_conv_save, msg: VerifErr::NoneErr { site: proof_conv_save } }"
    );
}

#[test]
fn saving_a_pending_conversion_is_rejected() {
    let file = empty_state_file();
    let env = eenv();
    let stmt = NumdStmtCmd::TermDef { term_id: 0 };
    let mut st = MmbState::new_from(stmt, &file, &env, eparams(None, 0));
    let a = st.alloc_item(MmbItem::Expr(MmbExpr::Var { idx: 0, ty: ebty(0, 1) }));
    let cc = st.alloc_item(MmbItem::CoConv(a, a));
    st.stack.push(cc);
    match st.proof_save() {
        Err(VerifErr::Msg(m)) => assert_eq!(m, "Can't save co-conv"),
        other => panic!("expected the co-conv rejection, got {:?}", other),
    }
}

#[test]
fn unify_term_against_a_variable_is_unreachable() {
    let file = empty_state_file();
    let env = eenv();
    let stmt = NumdStmtCmd::TermDef { term_id: 0 };
    let mut st = MmbState::new_from(stmt, &file, &env, eparams(None, 0));
    let v = st.alloc_item(MmbItem::Expr(MmbExpr::Var { idx: 0, ty: ebty(0, 1) }));
    st.ustack.push(v);
    match st.unify_term(0, false) {
        Err(VerifErr::Unreachable(site)) => assert_eq!(site, "unify_term"),
        other => panic!("expected the unreachable-branch error, got {:?}", other),
    }
}

#[test]
fn level_one_snapshot_of_an_unregistered_dummy_fails() {
    // In a definition the binder table learns a dummy only during the
    // terminal unification, so rendering the proof snapshots by binder name
    // fails on the freshly allocated variable.
    let file = MmbFile {
        sorts: vec![0],
        sort_names: vec!["s".to_string()],
        terms: vec![
            Term {
                args: vec![],
                ret: epty(0, 0),
                unify: vec![UnifyCmd::Term { tid: 1, save: false }, UnifyCmd::Dummy(0)],
                is_def: true,
            },
            Term { args: vec![ebty(0, 1)], ret: epty(0, 0), unify: vec![], is_def: false },
        ],
        term_names: vec!["d".to_string(), "f".to_string()],
        term_vars: vec![vec![], vec!["x".to_string()]],
        thms: Vec::new(),
        thm_names: Vec::new(),
        thm_vars: Vec::new(),
    };
    let env = eenv();
    let stmt = NumdStmtCmd::TermDef { term_id: 0 };
    let proof = ProofIter::new(vec![ProofCmd::Dummy(0), ProofCmd::Term { tid: 1, save: false }]);
    let r = verify1_extern_aux(&file, &env, stmt, &proof, eparams(Some(1), 1)).unwrap();
    let err = r.error.expect("rendering the unnamed dummy must fail");
    assert!(err.starts_with("VerifErr::LocalMsg { site: as_sexpr"), "error: {}", err);
}

#[test]
fn index_names_fall_back_to_numbered_forms() {
    let file = MmbFile {
        sorts: vec![0],
        sort_names: Vec::new(),
        terms: Vec::new(),
        term_names: Vec::new(),
        term_vars: Vec::new(),
        thms: Vec::new(),
        thm_names: Vec::new(),
        thm_vars: Vec::new(),
    };
    assert_eq!(file.sort_name(3), "s3");
    assert_eq!(file.term_name(17), "t17");
    assert_eq!(file.thm_name(2), "T2");
}

#[test]
fn the_fifty_seventh_bound_variable_is_rejected() {
    // 56 bound arguments load fine; a 57th pushes the counter past bit 55
    // and must be rejected rather than introduce an ordinal at or above 56.
    let mut ok_args: Vec<Type> = Vec::new();
    for k in 0..56u64 {
        ok_args.push(ebty(0, 1u64 << k));
    }
    // The 57th one-hot digit spills into the sort field, so the file needs
    // that sort to exist for the counter check itself to be reached.
    let file = MmbFile {
        sorts: vec![0, 0],
        sort_names: vec!["s".to_string(), "u".to_string()],
        terms: vec![Term { args: vec![], ret: epty(0, 0), unify: vec![], is_def: false }],
        term_names: vec!["t".to_string()],
        term_vars: vec![vec![]],
        thms: Vec::new(),
        thm_names: Vec::new(),
        thm_vars: Vec::new(),
    };
    let env = eenv();
    let stmt = NumdStmtCmd::TermDef { term_id: 0 };
    let mut st = MmbState::new_from(stmt, &file, &env, eparams(None, 0));
    assert!(st.load_args(&ok_args, NumdStmtCmd::Axiom { thm_id: 0 }).is_ok());
    assert_eq!(st.next_bv, 1u64 << 56);
    let mut too_many = ok_args.clone();
    too_many.push(ebty(0, 1u64 << 56));
    let mut st2 = MmbState::new_from(stmt, &file, &env, eparams(None, 0));
    match st2.load_args(&too_many, NumdStmtCmd::Axiom { thm_id: 0 }) {
        Err(VerifErr::MakeSure(site)) => assert_eq!(site, "load_args"),
        other => panic!("expected the bound-variable limit to fire, got {:?}", other),
    }
}
