//! Snapshots of the machine state and the HTML table rows, one per executed
//! instruction.

use vstd::prelude::*;
use crate::mmb::{spec_sort_name, spec_term_name, spec_thm_name, MmbFile, ProofCmd, UnifyCmd};
use crate::numfmt::{dec_chars, usize_to_dec, u64_to_dec};
use crate::print::{spec_as_sexpr, spec_print_type};
use crate::proof_stream::{finish_bounded, Finish, Mode};
use crate::state::{lemma_win_count_step, spec_targets, MmbState};
use crate::unify::UMode;
use crate::util::{Either, Res, VerifErr};

verus! {

/// The sub-unification detail of a snapshot taken while a theorem
/// application or an unfold runs its unification stream.
#[derive(Debug, Clone, PartialEq, Eq)]
pub struct SubUnifyInfo {
    /// The position inside the sub-unification.
    pub subnum: usize,
    /// The pre-counted length of the sub-unification stream.
    pub subof: usize,
    /// The unification target, rendered.
    pub tgt: String,
    /// What the surrounding command will do when unification ends.
    pub finish: String,
}

/// One recorded machine state: the step number, the mode, the five stores
/// rendered as HTML list items, and the command about to execute.
#[derive(Debug, Clone, PartialEq, Eq)]
pub struct Snapshot {
    pub num: usize,
    pub mode: String,
    pub stack: String,
    pub heap: String,
    pub ustack: String,
    pub uheap: String,
    pub hstack: String,
    pub cmd: String,
    /// The unification target of a terminal unification snapshot.
    pub tgt: Option<String>,
    /// The detail of a sub-unification snapshot.
    pub subunify: Option<SubUnifyInfo>,
}

/// The rendering of a boolean.
pub open spec fn bool_chars(b: bool) -> Seq<char> {
    if b {
        "true"@
    } else {
        "false"@
    }
}

/// Renders a boolean.
pub fn bool_str(b: bool) -> (r: &'static str)
    ensures
        r@ == bool_chars(b),
{
    if b {
        "true"
    } else {
        "false"
    }
}

/// The display string of a proof command (`Done!` for the terminal step),
/// with the name of the sort, term or theorem it touches.  Nothing when the
/// command names a term or theorem the file does not hold.
pub open spec fn spec_proof_cmd_str(f: MmbFile, cmd: Option<ProofCmd>) -> Option<Seq<char>> {
    match cmd {
        None => Some("Done!"@),
        Some(c) => match c {
            ProofCmd::Ref(i) => Some("ProofCmd::Ref("@ + dec_chars(i as nat) + ")"@),
            ProofCmd::Dummy(s) => Some(
                "ProofCmd::Dummy("@ + dec_chars(s as nat) + ") (<span class=\"sort\">"@
                    + spec_sort_name(f, s) + "</span>)"@,
            ),
            ProofCmd::Term { tid, save } => if tid < f.terms@.len() {
                Some(
                    "ProofCmd::Term { tid: "@ + dec_chars(tid as nat) + ", save: "@ + bool_chars(
                        save,
                    ) + " } (<span class=\"term\">"@ + spec_term_name(f, tid) + "</span>, "@
                        + dec_chars(f.terms@[tid as int].args@.len()) + " args)"@,
                )
            } else {
                None
            },
            ProofCmd::Thm { tid, save } => if tid < f.thms@.len() {
                Some(
                    "ProofCmd::Thm { tid: "@ + dec_chars(tid as nat) + ", save: "@ + bool_chars(
                        save,
                    ) + " } (<span class=\"thm\">"@ + spec_thm_name(f, tid) + "</span>, "@
                        + dec_chars(f.thms@[tid as int].args@.len()) + " args)"@,
                )
            } else {
                None
            },
            ProofCmd::Hyp => Some("ProofCmd::Hyp"@),
            ProofCmd::Conv => Some("ProofCmd::Conv"@),
            ProofCmd::Refl => Some("ProofCmd::Refl"@),
            ProofCmd::Sym => Some("ProofCmd::Sym"@),
            ProofCmd::Cong => Some("ProofCmd::Cong"@),
            ProofCmd::Unfold => Some("ProofCmd::Unfold"@),
            ProofCmd::ConvCut => Some("ProofCmd::ConvCut"@),
            ProofCmd::ConvRef(i) => Some("ProofCmd::ConvRef("@ + dec_chars(i as nat) + ")"@),
            ProofCmd::ConvSave => Some("ProofCmd::ConvSave"@),
            ProofCmd::Save => Some("ProofCmd::Save"@),
            ProofCmd::Sorry => Some("ProofCmd::Sorry"@),
        },
    }
}

/// The display string of a unification command, or of the terminal step of
/// a sub-unification or a terminal unification.
pub open spec fn spec_unify_cmd_str(f: MmbFile, cmd: Option<UnifyCmd>, sub: bool) -> Option<
    Seq<char>,
> {
    match cmd {
        None => if sub {
            Some("Done (unify)!"@)
        } else {
            Some("Done!"@)
        },
        Some(c) => match c {
            UnifyCmd::Term { tid, save } => if tid < f.terms@.len() {
                Some(
                    "UnifyCmd::Term { tid: "@ + dec_chars(tid as nat) + ", save: "@ + bool_chars(
                        save,
                    ) + " } (<span class=\"term\">"@ + spec_term_name(f, tid) + "</span> "@
                        + dec_chars(f.terms@[tid as int].args@.len()) + " args)"@,
                )
            } else {
                None
            },
            UnifyCmd::Dummy(s) => Some(
                "UnifyCmd::Dummy("@ + dec_chars(s as nat) + ") (<span class=\"sort\">"@
                    + spec_sort_name(f, s) + "</span>)"@,
            ),
            UnifyCmd::Ref(i) => Some("UnifyCmd::Ref("@ + dec_chars(i as nat) + ")"@),
            UnifyCmd::Hyp => Some("UnifyCmd::Hyp"@),
        },
    }
}

/// The description of a finish token: the proof step it belongs to and what
/// it will do, with its expressions rendered.
pub open spec fn spec_finish_str(st: MmbState, finish: Finish) -> Option<Seq<char>> {
    match finish {
        Finish::Thm { proof_step, thm_id, save, proof } => match spec_as_sexpr(st, proof as int) {
            None => None,
            Some(p) => Some(
                dec_chars(proof_step as nat) + " { Thm <span class=\"thm\">"@ + spec_thm_name(
                    *st.mmb_file,
                    thm_id,
                ) + "</span>, save: "@ + bool_chars(save) + " } | "@ + p,
            ),
        },
        Finish::Unfold { proof_step, e1, e2 } => match (
            spec_as_sexpr(st, e1 as int),
            spec_as_sexpr(st, e2 as int),
        ) {
            (Some(s1), Some(s2)) => Some(
                dec_chars(proof_step as nat) + " Unfold | "@ + s1 + " == "@ + s2,
            ),
            _ => None,
        },
    }
}

/// The rendering of a stack, one `stack_item` list item per element.
pub open spec fn spec_json_stack(st: MmbState, stack: Seq<usize>, k: int) -> Option<Seq<char>>
    decreases stack.len() - k,
{
    if k < 0 || k >= stack.len() {
        Some(Seq::empty())
    } else {
        match spec_as_sexpr(st, stack[k] as int) {
            None => None,
            Some(s) => match spec_json_stack(st, stack, k + 1) {
                None => None,
                Some(rest) => Some("<li class=\"stack_item\">"@ + s + "</li>"@ + rest),
            },
        }
    }
}

/// The rendering of a heap, one `heap_item` list item per slot, each slot
/// numbered.
pub open spec fn spec_json_heap(st: MmbState, heap: Seq<usize>, k: int) -> Option<Seq<char>>
    decreases heap.len() - k,
{
    if k < 0 || k >= heap.len() {
        Some(Seq::empty())
    } else {
        match spec_as_sexpr(st, heap[k] as int) {
            None => None,
            Some(s) => match spec_json_heap(st, heap, k + 1) {
                None => None,
                Some(rest) => Some(
                    "<li class=\"heap_item\">"@ + dec_chars(k as nat) + " | "@ + s + "</li>"@
                        + rest,
                ),
            },
        }
    }
}

/// The rendering of the binder table from entry `k` on: each variable with
/// its ordinal, its name (dummies prefixed by a dot) and its type.  Nothing
/// when some variable's type is still unknown.
pub open spec fn spec_json_vars(st: MmbState, k: int) -> Option<Seq<char>>
    decreases st.stmt_binders.stmt_vars@.len() - k,
{
    if k < 0 || k >= st.stmt_binders.stmt_vars@.len() {
        Some(Seq::empty())
    } else {
        let (idx, binder) = st.stmt_binders.stmt_vars@[k];
        match binder.ty {
            None => None,
            Some(t) => match spec_print_type(st, t) {
                None => None,
                Some(ty_s) => match spec_json_vars(st, k + 1) {
                    None => None,
                    Some(rest) => Some(
                        "<li class=\"heap_item\">"@ + dec_chars(idx as nat) + " | "@ + (if t.spec_bound() {
                            "{<span class=\"bvar\">"@
                        } else {
                            "(<span class=\"var\">"@
                        }) + (if binder.dummy {
                            "."@
                        } else {
                            Seq::<char>::empty()
                        }) + binder.name@ + ": "@ + ty_s + (if t.spec_bound() {
                            "</span>}"@
                        } else {
                            "</span>)"@
                        }) + "</li>"@ + rest,
                    ),
                },
            },
        }
    }
}

/// Whether all five stores of the state render without error.
pub open spec fn spec_stores_ok(st: MmbState) -> bool {
    &&& spec_json_stack(st, st.stack@, 0) is Some
    &&& spec_json_heap(st, st.heap@, 0) is Some
    &&& spec_json_stack(st, st.ustack@, 0) is Some
    &&& spec_json_heap(st, st.uheap@, 0) is Some
    &&& spec_json_stack(st, st.hstack@, 0) is Some
}

/// One table row: the step number, the command, the mode and the data cell,
/// tagged with the row's class and id.
pub open spec fn spec_row(
    class: Seq<char>,
    n: nat,
    cmd: Seq<char>,
    mode: Seq<char>,
    data: Seq<char>,
) -> Seq<char> {
    "<tr class=\""@ + class + "\" id=\"r"@ + dec_chars(n) + "\"><td id=\"n"@ + dec_chars(n)
        + "\">"@ + dec_chars(n) + "</td><td>"@ + cmd + "</td><td>"@ + mode + "</td><td>"@ + data
        + "</td></tr>"@
}

/// Appends one table row to the aggregate of a table's rows.
pub fn write_row(
    table: &mut String,
    class: &str,
    n: usize,
    cmd: String,
    mode: Either<Mode, UMode>,
    data: &str,
) -> (r: ())
    ensures
        final(table)@ == old(table)@ + spec_row(
            class@,
            n as nat,
            cmd@,
            match mode {
                Either::L(m) => m.spec_str(),
                Either::R(u) => u.spec_str(),
            },
            data@,
        ),
{
    let num = usize_to_dec(n);
    table.append("<tr class=\"");
    table.append(class);
    table.append("\" id=\"r");
    table.append(num.as_str());
    table.append("\"><td id=\"n");
    table.append(num.as_str());
    table.append("\">");
    table.append(num.as_str());
    table.append("</td><td>");
    table.append(cmd.as_str());
    table.append("</td><td>");
    match mode {
        Either::L(m) => table.append(m.as_str()),
        Either::R(u) => table.append(u.as_str()),
    }
    table.append("</td><td>");
    table.append(data);
    table.append("</td></tr>");
}

/// Whether the two states agree on everything but the step counters, the
/// recorded snapshots and the table rows.
pub open spec fn machine_unchanged(a: MmbState, b: MmbState) -> bool {
    &&& a.stmt == b.stmt
    &&& a.mm1_env == b.mm1_env
    &&& a.stmt_binders == b.stmt_binders
    &&& a.mmb_file == b.mmb_file
    &&& a.store == b.store
    &&& a.stack == b.stack
    &&& a.heap == b.heap
    &&& a.ustack == b.ustack
    &&& a.uheap == b.uheap
    &&& a.hstack == b.hstack
    &&& a.next_bv == b.next_bv
    &&& a.debug_params == b.debug_params
    &&& a.proof_step_checksum == b.proof_step_checksum
    &&& a.unify_step_checksum == b.unify_step_checksum
}

impl<'a> MmbState<'a> {
    /// The display string of a proof command, naming what it touches.
    pub fn json_proof_cmd(&self, cmd: Option<ProofCmd>) -> (r: Res<String>)
        ensures
            match spec_proof_cmd_str(*self.mmb_file, cmd) {
                Some(s) => r matches Res::<String>::Ok(out) && out@ == s,
                None => r is Err,
            },
    {
        match cmd {
            None => Ok("Done!".to_owned()),
            Some(ProofCmd::Ref(i)) => {
                let mut r = "ProofCmd::Ref(".to_owned();
                let num = u64_to_dec(i as u64);
                r.append(num.as_str());
                r.append(")");
                Ok(r)
            },
            Some(ProofCmd::Dummy(s)) => {
                let mut r = "ProofCmd::Dummy(".to_owned();
                let num = u64_to_dec(s as u64);
                r.append(num.as_str());
                r.append(") (<span class=\"sort\">");
                let name = self.mmb_file.sort_name(s);
                r.append(name.as_str());
                r.append("</span>)");
                Ok(r)
            },
            Some(ProofCmd::Term { tid, save }) => {
                match self.mmb_file.term(tid) {
                    None => Err(VerifErr::LocalMsg("json_proof_cmd", "no term found".to_owned())),
                    Some(term) => {
                        let nargs = term.args.len();
                        let mut r = "ProofCmd::Term { tid: ".to_owned();
                        let num = u64_to_dec(tid as u64);
                        r.append(num.as_str());
                        r.append(", save: ");
                        r.append(bool_str(save));
                        r.append(" } (<span class=\"term\">");
                        let name = self.mmb_file.term_name(tid);
                        r.append(name.as_str());
                        r.append("</span>, ");
                        let an = usize_to_dec(nargs);
                        r.append(an.as_str());
                        r.append(" args)");
                        Ok(r)
                    },
                }
            },
            Some(ProofCmd::Thm { tid, save }) => {
                match self.mmb_file.thm(tid) {
                    None => Err(VerifErr::LocalMsg("json_proof_cmd", "no thm found".to_owned())),
                    Some(thm) => {
                        let nargs = thm.args.len();
                        let mut r = "ProofCmd::Thm { tid: ".to_owned();
                        let num = u64_to_dec(tid as u64);
                        r.append(num.as_str());
                        r.append(", save: ");
                        r.append(bool_str(save));
                        r.append(" } (<span class=\"thm\">");
                        let name = self.mmb_file.thm_name(tid);
                        r.append(name.as_str());
                        r.append("</span>, ");
                        let an = usize_to_dec(nargs);
                        r.append(an.as_str());
                        r.append(" args)");
                        Ok(r)
                    },
                }
            },
            Some(ProofCmd::Hyp) => Ok("ProofCmd::Hyp".to_owned()),
            Some(ProofCmd::Conv) => Ok("ProofCmd::Conv".to_owned()),
            Some(ProofCmd::Refl) => Ok("ProofCmd::Refl".to_owned()),
            Some(ProofCmd::Sym) => Ok("ProofCmd::Sym".to_owned()),
            Some(ProofCmd::Cong) => Ok("ProofCmd::Cong".to_owned()),
            Some(ProofCmd::Unfold) => Ok("ProofCmd::Unfold".to_owned()),
            Some(ProofCmd::ConvCut) => Ok("ProofCmd::ConvCut".to_owned()),
            Some(ProofCmd::ConvRef(i)) => {
                let mut r = "ProofCmd::ConvRef(".to_owned();
                let num = u64_to_dec(i as u64);
                r.append(num.as_str());
                r.append(")");
                Ok(r)
            },
            Some(ProofCmd::ConvSave) => Ok("ProofCmd::ConvSave".to_owned()),
            Some(ProofCmd::Save) => Ok("ProofCmd::Save".to_owned()),
            Some(ProofCmd::Sorry) => Ok("ProofCmd::Sorry".to_owned()),
        }
    }

    /// The display string of a unification command, naming what it touches.
    pub fn json_unify_cmd(&self, cmd: Option<UnifyCmd>, sub: bool) -> (r: Res<String>)
        ensures
            match spec_unify_cmd_str(*self.mmb_file, cmd, sub) {
                Some(s) => r matches Res::<String>::Ok(out) && out@ == s,
                None => r is Err,
            },
    {
        match cmd {
            None => if sub {
                Ok("Done (unify)!".to_owned())
            } else {
                Ok("Done!".to_owned())
            },
            Some(UnifyCmd::Term { tid, save }) => {
                match self.mmb_file.term(tid) {
                    None => Err(VerifErr::LocalMsg("json_unify_cmd", "no term found".to_owned())),
                    Some(term) => {
                        let nargs = term.args.len();
                        let mut r = "UnifyCmd::Term { tid: ".to_owned();
                        let num = u64_to_dec(tid as u64);
                        r.append(num.as_str());
                        r.append(", save: ");
                        r.append(bool_str(save));
                        r.append(" } (<span class=\"term\">");
                        let name = self.mmb_file.term_name(tid);
                        r.append(name.as_str());
                        r.append("</span> ");
                        let an = usize_to_dec(nargs);
                        r.append(an.as_str());
                        r.append(" args)");
                        Ok(r)
                    },
                }
            },
            Some(UnifyCmd::Dummy(s)) => {
                let mut r = "UnifyCmd::Dummy(".to_owned();
                let num = u64_to_dec(s as u64);
                r.append(num.as_str());
                r.append(") (<span class=\"sort\">");
                let name = self.mmb_file.sort_name(s);
                r.append(name.as_str());
                r.append("</span>)");
                Ok(r)
            },
            Some(UnifyCmd::Ref(i)) => {
                let mut r = "UnifyCmd::Ref(".to_owned();
                let num = u64_to_dec(i as u64);
                r.append(num.as_str());
                r.append(")");
                Ok(r)
            },
            Some(UnifyCmd::Hyp) => Ok("UnifyCmd::Hyp".to_owned()),
        }
    }

    /// The description of a finish token for a sub-unification snapshot.
    pub fn json_finish(&self, finish: Finish) -> (r: Res<String>)
        requires
            self.wf(),
            finish_bounded(finish, self.store@.len() as int),
        ensures
            match spec_finish_str(*self, finish) {
                Some(s) => r matches Res::<String>::Ok(out) && out@ == s,
                None => r is Err,
            },
    {
        match finish {
            Finish::Thm { proof_step, thm_id, save, proof } => {
                let p = match self.as_sexpr(proof) {
                    Ok(p) => p,
                    Err(e) => {
                        return Err(e);
                    },
                };
                let mut r = usize_to_dec(proof_step);
                r.append(" { Thm <span class=\"thm\">");
                let name = self.mmb_file.thm_name(thm_id);
                r.append(name.as_str());
                r.append("</span>, save: ");
                r.append(bool_str(save));
                r.append(" } | ");
                r.append(p.as_str());
                Ok(r)
            },
            Finish::Unfold { proof_step, e1, e2 } => {
                let s1 = match self.as_sexpr(e1) {
                    Ok(s) => s,
                    Err(e) => {
                        return Err(e);
                    },
                };
                let s2 = match self.as_sexpr(e2) {
                    Ok(s) => s,
                    Err(e) => {
                        return Err(e);
                    },
                };
                let mut r = usize_to_dec(proof_step);
                r.append(" Unfold | ");
                r.append(s1.as_str());
                r.append(" == ");
                r.append(s2.as_str());
                Ok(r)
            },
        }
    }

    /// Renders a stack as HTML list items.
    pub fn json_stack(&self, stack: &Vec<usize>) -> (r: Res<String>)
        requires
            self.wf(),
            crate::item::ptrs_bounded(stack@, self.store@.len() as int),
        ensures
            match spec_json_stack(*self, stack@, 0) {
                Some(s) => r matches Res::<String>::Ok(out) && out@ == s,
                None => r is Err,
            },
    {
        let mut acc = String::new();
        let n = stack.len();
        let mut k: usize = 0;
        while k < n
            invariant
                self.wf(),
                crate::item::ptrs_bounded(stack@, self.store@.len() as int),
                k <= n,
                n == stack@.len(),
                spec_json_stack(*self, stack@, k as int) is None ==> spec_json_stack(
                    *self,
                    stack@,
                    0,
                ) is None,
                spec_json_stack(*self, stack@, k as int) matches Some(rest) ==> (spec_json_stack(
                    *self,
                    stack@,
                    0,
                ) matches Some(full) && acc@ + rest == full),
            decreases n - k,
        {
            let s = match self.as_sexpr(stack[k]) {
                Ok(s) => s,
                Err(e) => {
                    return Err(e);
                },
            };
            let ghost acc0 = acc@;
            acc.append("<li class=\"stack_item\">");
            acc.append(s.as_str());
            acc.append("</li>");
            proof {
                if spec_json_stack(*self, stack@, k as int + 1) is Some {
                    let rest2 = spec_json_stack(*self, stack@, k as int + 1)->Some_0;
                    assert(spec_json_stack(*self, stack@, k as int) == Some(
                        "<li class=\"stack_item\">"@ + s@ + "</li>"@ + rest2,
                    ));
                    assert(acc@ + rest2 =~= acc0 + ("<li class=\"stack_item\">"@ + s@ + "</li>"@
                        + rest2));
                }
            }
            k += 1;
        }
        proof {
            assert(spec_json_stack(*self, stack@, n as int) == Some(Seq::<char>::empty()));
            assert(acc@ =~= acc@ + Seq::<char>::empty());
        }
        Ok(acc)
    }

    /// Renders a heap as HTML list items, each slot numbered.
    pub fn json_heap(&self, heap: &Vec<usize>) -> (r: Res<String>)
        requires
            self.wf(),
            crate::item::ptrs_bounded(heap@, self.store@.len() as int),
        ensures
            match spec_json_heap(*self, heap@, 0) {
                Some(s) => r matches Res::<String>::Ok(out) && out@ == s,
                None => r is Err,
            },
    {
        let mut acc = String::new();
        let n = heap.len();
        let mut k: usize = 0;
        while k < n
            invariant
                self.wf(),
                crate::item::ptrs_bounded(heap@, self.store@.len() as int),
                k <= n,
                n == heap@.len(),
                spec_json_heap(*self, heap@, k as int) is None ==> spec_json_heap(
                    *self,
                    heap@,
                    0,
                ) is None,
                spec_json_heap(*self, heap@, k as int) matches Some(rest) ==> (spec_json_heap(
                    *self,
                    heap@,
                    0,
                ) matches Some(full) && acc@ + rest == full),
            decreases n - k,
        {
            let s = match self.as_sexpr(heap[k]) {
                Ok(s) => s,
                Err(e) => {
                    return Err(e);
                },
            };
            let ghost acc0 = acc@;
            let num = usize_to_dec(k);
            acc.append("<li class=\"heap_item\">");
            acc.append(num.as_str());
            acc.append(" | ");
            acc.append(s.as_str());
            acc.append("</li>");
            proof {
                if spec_json_heap(*self, heap@, k as int + 1) is Some {
                    let rest2 = spec_json_heap(*self, heap@, k as int + 1)->Some_0;
                    assert(spec_json_heap(*self, heap@, k as int) == Some(
                        "<li class=\"heap_item\">"@ + dec_chars(k as nat) + " | "@ + s@ + "</li>"@
                            + rest2,
                    ));
                    assert(acc@ + rest2 =~= acc0 + ("<li class=\"heap_item\">"@ + dec_chars(
                        k as nat,
                    ) + " | "@ + s@ + "</li>"@ + rest2));
                }
            }
            k += 1;
        }
        proof {
            assert(spec_json_heap(*self, heap@, n as int) == Some(Seq::<char>::empty()));
            assert(acc@ =~= acc@ + Seq::<char>::empty());
        }
        Ok(acc)
    }

    /// Renders the binder table: every variable with its ordinal, name and
    /// type.  An error while some variable's type is still unknown.
    #[verifier::rlimit(100)]
    pub fn json_vars(&self) -> (r: Res<String>)
        requires
            self.wf(),
        ensures
            match spec_json_vars(*self, 0) {
                Some(s) => r matches Res::<String>::Ok(out) && out@ == s,
                None => r is Err,
            },
    {
        let mut acc = String::new();
        let n = self.stmt_binders.stmt_vars.len();
        let mut k: usize = 0;
        while k < n
            invariant
                self.wf(),
                k <= n,
                n == self.stmt_binders.stmt_vars@.len(),
                spec_json_vars(*self, k as int) is None ==> spec_json_vars(*self, 0) is None,
                spec_json_vars(*self, k as int) matches Some(rest) ==> (spec_json_vars(
                    *self,
                    0,
                ) matches Some(full) && acc@ + rest == full),
            decreases n - k,
        {
            let idx = self.stmt_binders.stmt_vars[k].0;
            let dummy = self.stmt_binders.stmt_vars[k].1.dummy;
            let ty = match self.stmt_binders.stmt_vars[k].1.ty {
                None => {
                    return Err(
                        VerifErr::LocalMsg("json_vars", "binder with unknown type".to_owned()),
                    );
                },
                Some(t) => t,
            };
            let ty_s = match self.print_type(ty) {
                Ok(s) => s,
                Err(e) => {
                    return Err(e);
                },
            };
            let ghost acc0 = acc@;
            let num = usize_to_dec(idx);
            acc.append("<li class=\"heap_item\">");
            acc.append(num.as_str());
            acc.append(" | ");
            if ty.bound() {
                acc.append("{<span class=\"bvar\">");
            } else {
                acc.append("(<span class=\"var\">");
            }
            if dummy {
                acc.append(".");
            }
            acc.append(self.stmt_binders.stmt_vars[k].1.name.as_str());
            acc.append(": ");
            acc.append(ty_s.as_str());
            if ty.bound() {
                acc.append("</span>}");
            } else {
                acc.append("</span>)");
            }
            acc.append("</li>");
            proof {
                if spec_json_vars(*self, k as int + 1) is Some {
                    let rest2 = spec_json_vars(*self, k as int + 1)->Some_0;
                    let piece = "<li class=\"heap_item\">"@ + dec_chars(idx as nat) + " | "@ + (
                    if ty.spec_bound() {
                        "{<span class=\"bvar\">"@
                    } else {
                        "(<span class=\"var\">"@
                    }) + (if dummy {
                        "."@
                    } else {
                        Seq::<char>::empty()
                    }) + self.stmt_binders.stmt_vars@[k as int].1.name@ + ": "@ + ty_s@ + (
                    if ty.spec_bound() {
                        "</span>}"@
                    } else {
                        "</span>)"@
                    }) + "</li>"@;
                    assert(spec_json_vars(*self, k as int) == Some(piece + rest2));
                    assert(acc@ + rest2 =~= acc0 + (piece + rest2));
                }
            }
            k += 1;
        }
        proof {
            assert(spec_json_vars(*self, n as int) == Some(Seq::<char>::empty()));
            assert(acc@ =~= acc@ + Seq::<char>::empty());
        }
        Ok(acc)
    }

    /// Records the proof-stream step about to execute (or, for no command,
    /// the terminal step): always a table row when tables were requested,
    /// and a snapshot when the step falls inside the window.  At the
    /// terminal step the counter must equal the pre-counted checksum.
    pub fn snap_proof(&mut self, mode: Mode, cmd: Option<ProofCmd>) -> (r: Res<()>)
        requires
            old(self).wf(),
            cmd is None ==> old(self).proof_step_checksum == Some(old(self).cur_proof_step),
        ensures
            final(self).wf(),
            machine_unchanged(*old(self), *final(self)),
            final(self).cur_unify_step == old(self).cur_unify_step,
            final(self).cur_subunify_step == old(self).cur_subunify_step,
            final(self).unify_states == old(self).unify_states,
            final(self).unify_rows == old(self).unify_rows,
            !old(self).debug_params.table ==> final(self).proof_rows == old(self).proof_rows,
            r is Ok && old(self).debug_params.table ==> final(self).proof_rows@ == old(
                self,
            ).proof_rows@ + spec_row(
                "proof_row"@,
                old(self).cur_proof_step as nat,
                spec_proof_cmd_str(*old(self).mmb_file, cmd)->Some_0,
                mode.spec_str(),
                "--"@,
            ),
            r is Ok <==> (old(self).cur_proof_step < usize::MAX && (old(self).debug_params.table
                ==> spec_proof_cmd_str(*old(self).mmb_file, cmd) is Some) && (spec_targets(
                old(self).debug_params,
                old(self).cur_proof_step as int,
            ) ==> (spec_stores_ok(*old(self)) && spec_proof_cmd_str(*old(self).mmb_file, cmd)
                is Some))),
            r is Ok ==> final(self).cur_proof_step == old(self).cur_proof_step + 1,
            r is Err ==> final(self).cur_proof_step == old(self).cur_proof_step && final(self).proof_states == old(self).proof_states,
            r is Ok && !spec_targets(old(self).debug_params, old(self).cur_proof_step as int)
                ==> final(self).proof_states == old(self).proof_states,
            r is Ok && spec_targets(old(self).debug_params, old(self).cur_proof_step as int) ==> {
                &&& final(self).proof_states@.len() == old(self).proof_states@.len() + 1
                &&& final(self).proof_states@.drop_last() == old(self).proof_states@
                &&& final(self).proof_states@.last().num == old(self).cur_proof_step
                &&& final(self).proof_states@.last().mode@ == mode.spec_str()
                &&& final(self).proof_states@.last().cmd@ == spec_proof_cmd_str(
                    *old(self).mmb_file,
                    cmd,
                )->Some_0
                &&& final(self).proof_states@.last().stack@ == spec_json_stack(
                    *old(self),
                    old(self).stack@,
                    0,
                )->Some_0
                &&& final(self).proof_states@.last().heap@ == spec_json_heap(
                    *old(self),
                    old(self).heap@,
                    0,
                )->Some_0
                &&& final(self).proof_states@.last().ustack@ == spec_json_stack(
                    *old(self),
                    old(self).ustack@,
                    0,
                )->Some_0
                &&& final(self).proof_states@.last().uheap@ == spec_json_heap(
                    *old(self),
                    old(self).uheap@,
                    0,
                )->Some_0
                &&& final(self).proof_states@.last().hstack@ == spec_json_stack(
                    *old(self),
                    old(self).hstack@,
                    0,
                )->Some_0
                &&& final(self).proof_states@.last().tgt is None
                &&& final(self).proof_states@.last().subunify is None
            },
    {
        if self.cur_proof_step == usize::MAX {
            return Err(VerifErr::MakeSure("snap_proof step limit"));
        }
        let row_cmd: Option<String> = if self.debug_params.table {
            match self.json_proof_cmd(cmd) {
                Ok(c) => Some(c),
                Err(e) => {
                    return Err(e);
                },
            }
        } else {
            None
        };
        let snapshot: Option<Snapshot> = if self.targets_step(self.cur_proof_step) {
            let (stack, heap, ustack, uheap, hstack) = match self.json_stores() {
                Ok(t) => t,
                Err(e) => {
                    return Err(e);
                },
            };
            let c = match self.json_proof_cmd(cmd) {
                Ok(c) => c,
                Err(e) => {
                    return Err(e);
                },
            };
            Some(
                Snapshot {
                    num: self.cur_proof_step,
                    mode: mode.as_str().to_owned(),
                    stack,
                    heap,
                    ustack,
                    uheap,
                    hstack,
                    cmd: c,
                    tgt: None,
                    subunify: None,
                },
            )
        } else {
            None
        };
        if let Some(c) = row_cmd {
            write_row(&mut self.proof_rows, "proof_row", self.cur_proof_step, c, Either::L(mode), "--");
        }
        if let Some(s) = snapshot {
            self.proof_states.push(s);
        }
        proof {
            lemma_win_count_step(self.debug_params, self.cur_proof_step as int);
        }
        self.cur_proof_step = self.cur_proof_step + 1;
        Ok(())
    }

    /// Records one step of the terminal unification of a definition or
    /// theorem: a table row when requested, and a snapshot when the step
    /// falls inside the window and the unify stream was the one requested.
    pub fn snap_proper_unify(&mut self, mode: UMode, cmd: Option<UnifyCmd>, tgt: usize) -> (r: Res<
        (),
    >)
        requires
            old(self).wf(),
            tgt < old(self).store@.len(),
            cmd is None ==> old(self).unify_step_checksum == Some(old(self).cur_unify_step),
        ensures
            final(self).wf(),
            machine_unchanged(*old(self), *final(self)),
            final(self).cur_proof_step == old(self).cur_proof_step,
            final(self).cur_subunify_step == old(self).cur_subunify_step,
            final(self).proof_states == old(self).proof_states,
            final(self).proof_rows == old(self).proof_rows,
            !old(self).debug_params.table ==> final(self).unify_rows == old(self).unify_rows,
            r is Ok && old(self).debug_params.table ==> final(self).unify_rows@ == old(
                self,
            ).unify_rows@ + spec_row(
                "unify_row"@,
                old(self).cur_unify_step as nat,
                spec_unify_cmd_str(*old(self).mmb_file, cmd, false)->Some_0,
                mode.spec_str(),
                "--"@,
            ),
            r is Ok <==> (old(self).cur_unify_step < usize::MAX && (old(self).debug_params.table
                ==> spec_unify_cmd_str(*old(self).mmb_file, cmd, false) is Some) && ((spec_targets(
                old(self).debug_params,
                old(self).cur_unify_step as int,
            ) && old(self).debug_params.unify_req) ==> (spec_stores_ok(*old(self))
                && spec_unify_cmd_str(*old(self).mmb_file, cmd, false) is Some && spec_as_sexpr(
                *old(self),
                tgt as int,
            ) is Some))),
            r is Ok ==> final(self).cur_unify_step == old(self).cur_unify_step + 1,
            r is Err ==> final(self).cur_unify_step == old(self).cur_unify_step && final(self).unify_states == old(self).unify_states,
            r is Ok && !(spec_targets(old(self).debug_params, old(self).cur_unify_step as int)
                && old(self).debug_params.unify_req) ==> final(self).unify_states == old(self).unify_states,
            r is Ok && (spec_targets(old(self).debug_params, old(self).cur_unify_step as int)
                && old(self).debug_params.unify_req) ==> {
                &&& final(self).unify_states@.len() == old(self).unify_states@.len() + 1
                &&& final(self).unify_states@.drop_last() == old(self).unify_states@
                &&& final(self).unify_states@.last().num == old(self).cur_unify_step
                &&& final(self).unify_states@.last().mode@ == mode.spec_str()
                &&& final(self).unify_states@.last().cmd@ == spec_unify_cmd_str(
                    *old(self).mmb_file,
                    cmd,
                    false,
                )->Some_0
                &&& final(self).unify_states@.last().tgt matches Some(t) && t@ == spec_as_sexpr(
                    *old(self),
                    tgt as int,
                )->Some_0
                &&& final(self).unify_states@.last().subunify is None
            },
    {
        if self.cur_unify_step == usize::MAX {
            return Err(VerifErr::MakeSure("snap_unify step limit"));
        }
        let row_cmd: Option<String> = if self.debug_params.table {
            match self.json_unify_cmd(cmd, false) {
                Ok(c) => Some(c),
                Err(e) => {
                    return Err(e);
                },
            }
        } else {
            None
        };
        let snapshot: Option<Snapshot> = if self.targets_step(self.cur_unify_step)
            && self.debug_params.unify_req {
            let (stack, heap, ustack, uheap, hstack) = match self.json_stores() {
                Ok(t) => t,
                Err(e) => {
                    return Err(e);
                },
            };
            let c = match self.json_unify_cmd(cmd, false) {
                Ok(c) => c,
                Err(e) => {
                    return Err(e);
                },
            };
            let tgt_s = match self.as_sexpr(tgt) {
                Ok(t) => t,
                Err(e) => {
                    return Err(e);
                },
            };
            Some(
                Snapshot {
                    num: self.cur_unify_step,
                    mode: mode.as_str().to_owned(),
                    stack,
                    heap,
                    ustack,
                    uheap,
                    hstack,
                    cmd: c,
                    tgt: Some(tgt_s),
                    subunify: None,
                },
            )
        } else {
            None
        };
        if let Some(c) = row_cmd {
            write_row(&mut self.unify_rows, "unify_row", self.cur_unify_step, c, Either::R(mode), "--");
        }
        if let Some(s) = snapshot {
            self.unify_states.push(s);
        }
        proof {
            lemma_win_count_step(self.debug_params, self.cur_unify_step as int);
        }
        self.cur_unify_step = self.cur_unify_step + 1;
        Ok(())
    }

    /// Records one step of a sub-unification run from inside a theorem
    /// application or an unfold: the step counts on the proof stream, and
    /// the snapshot carries the sub-step, the stream length, the target and
    /// the finish description.
    pub fn snap_subunify(
        &mut self,
        unify_len: usize,
        mode: UMode,
        cmd: Option<UnifyCmd>,
        tgt: usize,
        finish: Finish,
    ) -> (r: Res<()>)
        requires
            old(self).wf(),
            tgt < old(self).store@.len(),
            finish_bounded(finish, old(self).store@.len() as int),
            old(self).cur_subunify_step <= unify_len,
            cmd is Some ==> old(self).cur_subunify_step < unify_len,
        ensures
            final(self).wf(),
            machine_unchanged(*old(self), *final(self)),
            final(self).cur_unify_step == old(self).cur_unify_step,
            final(self).unify_states == old(self).unify_states,
            final(self).unify_rows == old(self).unify_rows,
            !old(self).debug_params.table ==> final(self).proof_rows == old(self).proof_rows,
            r is Ok && old(self).debug_params.table ==> final(self).proof_rows@ == old(
                self,
            ).proof_rows@ + spec_row(
                "subunify_row"@,
                old(self).cur_proof_step as nat,
                spec_unify_cmd_str(*old(self).mmb_file, cmd, true)->Some_0,
                mode.spec_str(),
                "--"@,
            ),
            r is Ok <==> (old(self).cur_proof_step < usize::MAX && (old(self).debug_params.table
                ==> spec_unify_cmd_str(*old(self).mmb_file, cmd, true) is Some) && ((spec_targets(
                old(self).debug_params,
                old(self).cur_proof_step as int,
            ) && !old(self).debug_params.unify_req) ==> (spec_stores_ok(*old(self))
                && spec_unify_cmd_str(*old(self).mmb_file, cmd, true) is Some && spec_as_sexpr(
                *old(self),
                tgt as int,
            ) is Some && spec_finish_str(*old(self), finish) is Some))),
            r is Ok ==> final(self).cur_proof_step == old(self).cur_proof_step + 1,
            r is Ok ==> final(self).cur_subunify_step == (if cmd is Some {
                old(self).cur_subunify_step + 1
            } else {
                0int
            }),
            r is Err ==> final(self).cur_proof_step == old(self).cur_proof_step && final(self).proof_states == old(self).proof_states && final(self).cur_subunify_step == old(self).cur_subunify_step,
            r is Ok && !(spec_targets(old(self).debug_params, old(self).cur_proof_step as int)
                && !old(self).debug_params.unify_req) ==> final(self).proof_states == old(self).proof_states,
            r is Ok && (spec_targets(old(self).debug_params, old(self).cur_proof_step as int)
                && !old(self).debug_params.unify_req) ==> {
                &&& final(self).proof_states@.len() == old(self).proof_states@.len() + 1
                &&& final(self).proof_states@.drop_last() == old(self).proof_states@
                &&& final(self).proof_states@.last().num == old(self).cur_proof_step
                &&& final(self).proof_states@.last().mode@ == mode.spec_str()
                &&& final(self).proof_states@.last().cmd@ == spec_unify_cmd_str(
                    *old(self).mmb_file,
                    cmd,
                    true,
                )->Some_0
                &&& final(self).proof_states@.last().tgt is None
                &&& final(self).proof_states@.last().subunify matches Some(su) && (su.subnum == old(self).cur_subunify_step && su.subof == unify_len && su.tgt@ == spec_as_sexpr(
                    *old(self),
                    tgt as int,
                )->Some_0 && su.finish@ == spec_finish_str(*old(self), finish)->Some_0)
            },
    {
        if self.cur_proof_step == usize::MAX {
            return Err(VerifErr::MakeSure("snap_subunify step limit"));
        }
        let row_cmd: Option<String> = if self.debug_params.table {
            match self.json_unify_cmd(cmd, true) {
                Ok(c) => Some(c),
                Err(e) => {
                    return Err(e);
                },
            }
        } else {
            None
        };
        let snapshot: Option<Snapshot> = if self.targets_step(self.cur_proof_step)
            && !self.debug_params.unify_req {
            let (stack, heap, ustack, uheap, hstack) = match self.json_stores() {
                Ok(t) => t,
                Err(e) => {
                    return Err(e);
                },
            };
            let c = match self.json_unify_cmd(cmd, true) {
                Ok(c) => c,
                Err(e) => {
                    return Err(e);
                },
            };
            let tgt_s = match self.as_sexpr(tgt) {
                Ok(t) => t,
                Err(e) => {
                    return Err(e);
                },
            };
            let fin_s = match self.json_finish(finish) {
                Ok(f) => f,
                Err(e) => {
                    return Err(e);
                },
            };
            Some(
                Snapshot {
                    num: self.cur_proof_step,
                    mode: mode.as_str().to_owned(),
                    stack,
                    heap,
                    ustack,
                    uheap,
                    hstack,
                    cmd: c,
                    tgt: None,
                    subunify: Some(
                        SubUnifyInfo {
                            subnum: self.cur_subunify_step,
                            subof: unify_len,
                            tgt: tgt_s,
                            finish: fin_s,
                        },
                    ),
                },
            )
        } else {
            None
        };
        if let Some(c) = row_cmd {
            write_row(
                &mut self.proof_rows,
                "subunify_row",
                self.cur_proof_step,
                c,
                Either::R(mode),
                "--",
            );
        }
        if let Some(s) = snapshot {
            self.proof_states.push(s);
        }
        proof {
            lemma_win_count_step(self.debug_params, self.cur_proof_step as int);
        }
        self.cur_proof_step = self.cur_proof_step + 1;
        if cmd.is_some() {
            self.cur_subunify_step = self.cur_subunify_step + 1;
        } else {
            self.cur_subunify_step = 0;
        }
        Ok(())
    }

    /// Renders all five stores.
    pub fn json_stores(&self) -> (r: Res<(String, String, String, String, String)>)
        requires
            self.wf(),
        ensures
            spec_stores_ok(*self) ==> (r matches Res::<(String, String, String, String, String)>::Ok(t)
                && (t.0@ == spec_json_stack(*self, self.stack@, 0)->Some_0 && t.1@
                == spec_json_heap(*self, self.heap@, 0)->Some_0 && t.2@ == spec_json_stack(
                *self,
                self.ustack@,
                0,
            )->Some_0 && t.3@ == spec_json_heap(*self, self.uheap@, 0)->Some_0 && t.4@
                == spec_json_stack(*self, self.hstack@, 0)->Some_0)),
            !spec_stores_ok(*self) ==> r is Err,
    {
        let stack = match self.json_stack(&self.stack) {
            Ok(s) => s,
            Err(e) => {
                return Err(e);
            },
        };
        let heap = match self.json_heap(&self.heap) {
            Ok(s) => s,
            Err(e) => {
                return Err(e);
            },
        };
        let ustack = match self.json_stack(&self.ustack) {
            Ok(s) => s,
            Err(e) => {
                return Err(e);
            },
        };
        let uheap = match self.json_heap(&self.uheap) {
            Ok(s) => s,
            Err(e) => {
                return Err(e);
            },
        };
        let hstack = match self.json_stack(&self.hstack) {
            Ok(s) => s,
            Err(e) => {
                return Err(e);
            },
        };
        Ok((stack, heap, ustack, uheap, hstack))
    }
}

} // verus!
