use mmb_debugger::env::Environment;
use mmb_debugger::json::response_to_json;
use mmb_debugger::mmb::{MmbFile, NumdStmtCmd, ProofCmd, ProofIter, Term, UnifyCmd};
use mmb_debugger::state::MmbDebugParams;
use mmb_debugger::types::{Type, TYPE_BOUND_MASK};
use mmb_debugger::{verify1_extern, verify1_extern_aux};

fn jbty(sort: u8, digit: u64) -> Type {
    Type::new(TYPE_BOUND_MASK | ((sort as u64) << 56) | digit)
}

fn jpty(sort: u8, deps: u64) -> Type {
    Type::new(((sort as u64) << 56) | deps)
}

fn jfile() -> MmbFile {
    MmbFile {
        sorts: vec![0],
        sort_names: vec!["s".to_string()],
        terms: vec![
            Term {
                args: vec![],
                ret: jpty(0, 0),
                unify: vec![UnifyCmd::Term { tid: 1, save: false }, UnifyCmd::Dummy(0)],
                is_def: true,
            },
            Term { args: vec![jbty(0, 1)], ret: jpty(0, 0), unify: vec![], is_def: false },
        ],
        term_names: vec!["d".to_string(), "f".to_string()],
        term_vars: vec![vec![], vec!["x".to_string()]],
        thms: Vec::new(),
        thm_names: Vec::new(),
        thm_vars: Vec::new(),
    }
}

fn jparams(stepnum: Option<usize>) -> MmbDebugParams {
    MmbDebugParams {
        file_uri: "file:///t.mmb".to_string(),
        decl_ident: "d".to_string(),
        elab_level: 0,
        bracket_level: 1,
        stepnum,
        unify_req: false,
        table: true,
    }
}

#[test]
fn response_converts_to_the_documented_json_shape() {
    let file = jfile();
    let env = Environment { decl_nota: Vec::new(), prefixes: Vec::new(), infixes: Vec::new() };
    let stmt = NumdStmtCmd::TermDef { term_id: 0 };
    let proof = ProofIter::new(vec![ProofCmd::Dummy(0), ProofCmd::Term { tid: 1, save: false }]);
    let resp = verify1_extern_aux(&file, &env, stmt, &proof, jparams(Some(0))).unwrap();
    let v = response_to_json(&resp);
    assert_eq!(v["meta"]["decl_kind"].as_str(), Some("def"));
    assert_eq!(v["meta"]["decl_num"].as_u64(), Some(0));
    assert_eq!(v["meta"]["decl_ident"].as_str(), Some("d"));
    assert_eq!(
        v["meta"]["styled_decl_ident"].as_str(),
        Some("def <span class=\"def\">d</span>")
    );
    assert_eq!(v["meta"]["total_proof_steps"].as_u64(), Some(2));
    assert_eq!(v["meta"]["total_unify_steps"].as_u64(), Some(2));
    assert!(v["error"].is_null());
    let states = v["states"].as_array().expect("states is an array");
    assert_eq!(states.len(), 3);
    assert_eq!(states[0]["num"].as_u64(), Some(0));
    assert_eq!(states[0]["mode"].as_str(), Some("Proof Def"));
    assert_eq!(states[0]["cmd"].as_str(), Some("ProofCmd::Dummy(0) (<span class=\"sort\">s</span>)"));
    assert_eq!(states[2]["cmd"].as_str(), Some("Done!"));
    // The first snapshot was taken before anything ran.
    assert_eq!(states[0]["stack"].as_str(), Some(""));
    // The second shows the freshly allocated bound variable.
    assert_eq!(
        states[1]["stack"].as_str(),
        Some("<li class=\"stack_item\"><span class=\"bvar\">0</span></li>")
    );
    let table = v["table"].as_str().expect("table rows were requested");
    assert!(table.contains("<tr class=\"proof_row\" id=\"r0\">"), "table: {}", table);
    assert!(table.contains("unify_row") == false);
}

#[test]
fn outer_error_renders_as_text() {
    let file = jfile();
    let env = Environment { decl_nota: Vec::new(), prefixes: Vec::new(), infixes: Vec::new() };
    let r = verify1_extern(&file, &env, NumdStmtCmd::Sort, &ProofIter::null(), jparams(None));
    match r {
        Err(s) => assert_eq!(s, "VerifErr::Msg { msg: unrecognized StmtCmd }"),
        Ok(_) => panic!("a sort request must surface an outer error"),
    }
}
