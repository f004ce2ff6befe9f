//! The unification-stream interpreter and its command handlers.

use vstd::prelude::*;
use crate::binder::{var_pos_from, Binder};
use crate::item::{MmbExpr, MmbItem};
use crate::mmb::UnifyCmd;
use crate::proof_stream::{finish_bounded, Finish};
use crate::state::MmbState;
use crate::types::{SortId, TermId, Type};
use crate::util::{Res, VerifErr};

verus! {

/// The three unification modes: inside a theorem application, against a
/// definition, and the terminal unification of a theorem.
#[derive(Debug, Clone, Copy, PartialEq, Eq, Structural)]
pub enum UMode {
    UThm,
    UDef,
    UThmEnd,
}

impl UMode {
    /// The display name of the mode.
    pub fn as_str(&self) -> (r: &'static str)
        ensures
            r@ == self.spec_str(),
    {
        match self {
            UMode::UThm => "Unify Thm",
            UMode::UDef => "Unify Def",
            UMode::UThmEnd => "Finish Unify Thm",
        }
    }

    /// The display name of the mode.
    pub open spec fn spec_str(self) -> Seq<char> {
        match self {
            UMode::UThm => "Unify Thm"@,
            UMode::UDef => "Unify Def"@,
            UMode::UThmEnd => "Finish Unify Thm"@,
        }
    }
}

/// The pre-counted length of a unification stream.
pub fn unify_len(u: &Vec<UnifyCmd>) -> (r: usize)
    ensures
        r == u@.len(),
{
    u.len()
}

/// Whether every unify-heap entry is an expression whose type has no bit in
/// common with the one-hot digit of a dummy about to be admitted.
pub open spec fn uheap_ok_for_dummy(store: Seq<MmbItem>, uheap: Seq<usize>, digit: u64) -> bool {
    forall|j: int|
        0 <= j < uheap.len() ==> (#[trigger] store[uheap[j] as int]).is_expr() && store[uheap[j] as int].spec_ty().raw
            & digit == 0
}

/// Whether `set_dummy` would accept ordinal `idx`: the ordinal is new, or
/// its entry is a dummy whose type is still unknown.
pub open spec fn set_dummy_ok(vars: Seq<(usize, Binder)>, idx: usize) -> bool {
    match var_pos_from(vars, 0, idx) {
        Some(p) => vars[p].1.dummy && vars[p].1.ty is None,
        None => true,
    }
}

/// The four stores a unification run moves indices between.
pub struct UModel {
    pub stack: Seq<usize>,
    pub ustack: Seq<usize>,
    pub uheap: Seq<usize>,
    pub hstack: Seq<usize>,
}

/// One spec-level unification step over the stores, for the dummy-free
/// commands (a `Dummy` also touches the binder table, which this model
/// leaves out; no legal theorem stream carries one).
pub open spec fn unify_step_spec(
    store: Seq<MmbItem>,
    mode: UMode,
    m: UModel,
    cmd: UnifyCmd,
) -> Option<UModel> {
    match cmd {
        UnifyCmd::Ref(i) => if i < m.uheap.len() && m.ustack.len() > 0 && m.uheap[i as int]
            == m.ustack.last() {
            Some(UModel { ustack: m.ustack.drop_last(), ..m })
        } else {
            None
        },
        UnifyCmd::Term { tid, save } => if m.ustack.len() > 0 && m.ustack.last() < store.len() && (
        store[m.ustack.last() as int] matches MmbItem::Expr(MmbExpr::App { term_num: id2, args, .. })
            && id2 == tid) {
            Some(
                UModel {
                    ustack: m.ustack.drop_last() + store[
                        m.ustack.last() as int
                    ]->Expr_0->App_args@.reverse(),
                    uheap: if save {
                        m.uheap.push(m.ustack.last())
                    } else {
                        m.uheap
                    },
                    ..m
                },
            )
        } else {
            None
        },
        UnifyCmd::Dummy(_) => None,
        UnifyCmd::Hyp => match mode {
            UMode::UThm => if m.stack.len() > 0 && m.stack.last() < store.len() && store[
                m.stack.last() as int
            ] matches MmbItem::Proof(_) {
                Some(
                    UModel {
                        stack: m.stack.drop_last(),
                        ustack: m.ustack.push(store[m.stack.last() as int]->Proof_0),
                        ..m
                    },
                )
            } else {
                None
            },
            UMode::UThmEnd => if m.ustack.len() == 0 && m.hstack.len() > 0 {
                Some(
                    UModel {
                        hstack: m.hstack.drop_last(),
                        ustack: m.ustack.push(m.hstack.last()),
                        ..m
                    },
                )
            } else {
                None
            },
            UMode::UDef => None,
        },
    }
}

/// The spec-level run of a unification stream from command `k` on.
pub open spec fn run_unify_spec(
    store: Seq<MmbItem>,
    mode: UMode,
    m: UModel,
    cmds: Seq<UnifyCmd>,
    k: int,
) -> Option<UModel>
    decreases cmds.len() - k,
{
    if k < 0 || k >= cmds.len() {
        Some(m)
    } else {
        match unify_step_spec(store, mode, m, cmds[k]) {
            None => None,
            Some(m2) => run_unify_spec(store, mode, m2, cmds, k + 1),
        }
    }
}

/// Success is owed: when nothing is recorded (no table, no target window)
/// and the step counters stay in range, a dummy-free stream whose
/// spec-level run consumes all its obligations must be accepted.
pub open spec fn quiet_run_ok(
    st: MmbState,
    mode: UMode,
    unify: Seq<UnifyCmd>,
    tgt: usize,
    finish: Option<Finish>,
) -> bool {
    let init = UModel {
        stack: st.stack@,
        ustack: st.ustack@.push(tgt),
        uheap: st.uheap@,
        hstack: st.hstack@,
    };
    &&& !st.debug_params.table
    &&& st.debug_params.stepnum is None
    &&& unify.len() < usize::MAX
    &&& (finish is Some ==> st.cur_proof_step + unify.len() + 1 <= usize::MAX
        && st.proof_step_checksum->Some_0 + unify.len() + 1 <= usize::MAX)
    &&& (run_unify_spec(st.store@, mode, init, unify, 0) matches Some(fin) && (fin.ustack.len()
        == 0 && (mode == UMode::UThmEnd ==> fin.hstack.len() == 0)))
}

impl<'a> MmbState<'a> {
    /// `Ref(i)`: the top unification obligation must be exactly unify-heap
    /// slot `i`.
    pub fn unify_ref(&mut self, i: u32) -> (r: Res<()>)
        requires
            old(self).wf(),
        ensures
            final(self).wf(),
            r is Ok <==> (i < old(self).uheap@.len() && old(self).ustack@.len() > 0 && old(self).uheap@[i as int] == old(self).ustack@.last()),
            *final(self) == (MmbState { ustack: final(self).ustack, ..*old(self) }),
            r is Ok ==> final(self).ustack@ == old(self).ustack@.drop_last(),
            r is Err ==> final(self).ustack@ == old(self).ustack@ || final(self).ustack@ == old(self).ustack@.drop_last(),
            r matches Res::<()>::Err(e) ==> (if !(i < old(self).uheap@.len()) || old(self).ustack@.len() == 0 {
                e is NoneErr
            } else {
                e is Msg
            }),
    {
        let heap_elem = if (i as usize) < self.uheap.len() {
            self.uheap[i as usize]
        } else {
            return Err(VerifErr::NoneErr("unify_ref"));
        };
        let ustack_elem = match self.ustack.pop() {
            Some(x) => x,
            None => {
                return Err(VerifErr::NoneErr("unify_ref"));
            },
        };
        if heap_elem != ustack_elem {
            Err(VerifErr::Msg("Bad unify ref".to_owned()))
        } else {
            Ok(())
        }
    }

    /// `Term { tid, save }`: the top obligation must be an application of
    /// term `tid`; its children become obligations, first child on top, and
    /// the application is saved to the unify heap when asked.
    pub fn unify_term(&mut self, term_num: TermId, save: bool) -> (r: Res<()>)
        requires
            old(self).wf(),
        ensures
            final(self).wf(),
            r is Ok <==> (old(self).ustack@.len() > 0 && (old(self).store@[old(self).ustack@.last() as int] matches MmbItem::Expr(MmbExpr::App { term_num: id2, .. })
                && id2 == term_num)),
            *final(self) == (MmbState {
                ustack: final(self).ustack,
                uheap: final(self).uheap,
                ..*old(self)
            }),
            r is Ok ==> (old(self).store@[old(self).ustack@.last() as int] matches MmbItem::Expr(
                MmbExpr::App { args, .. },
            ) && final(self).ustack@ == old(self).ustack@.drop_last() + args@.reverse()),
            r is Ok ==> final(self).uheap@ == if save {
                old(self).uheap@.push(old(self).ustack@.last())
            } else {
                old(self).uheap@
            },
            r is Err ==> final(self).uheap@ == old(self).uheap@ && (final(self).ustack@ == old(self).ustack@ || final(self).ustack@ == old(self).ustack@.drop_last()),
            r matches Res::<()>::Err(e) ==> (if old(self).ustack@.len() == 0 {
                e is NoneErr
            } else if old(self).store@[old(self).ustack@.last() as int] matches MmbItem::Expr(
                MmbExpr::App { .. },
            ) {
                e is MakeSure
            } else {
                e is Unreachable
            }),
    {
        let p = match self.ustack.pop() {
            Some(x) => x,
            None => {
                return Err(VerifErr::NoneErr("unify_term"));
            },
        };
        proof {
            assert(crate::item::item_bounded(self.store@[p as int], p as int));
        }
        let args: Vec<usize> = match &self.store[p] {
            MmbItem::Expr(MmbExpr::App { term_num: id2, args, .. }) => {
                if term_num != *id2 {
                    return Err(VerifErr::MakeSure("unify_term"));
                }
                let a = args.clone();
                proof {
                    assert(a@ =~= args@);
                }
                a
            },
            _ => {
                return Err(VerifErr::Unreachable("unify_term"));
            },
        };
        let n = args.len();
        let ghost base = self.ustack@;
        let mut j: usize = 0;
        while j < n
            invariant
                self.wf(),
                j <= n,
                n == args@.len(),
                forall|k: int| 0 <= k < args@.len() ==> args@[k] < self.store@.len(),
                self.ustack@ == base + args@.subrange(n - j, n as int).reverse(),
                *self == (MmbState { ustack: self.ustack, ..*old(self) }),
            decreases n - j,
        {
            proof {
                assert(args@.subrange(n - j - 1, n as int).reverse() =~= args@.subrange(
                    n - j,
                    n as int,
                ).reverse().push(args@[n - j - 1]));
            }
            self.ustack.push(args[n - 1 - j]);
            j += 1;
        }
        proof {
            assert(args@.subrange(0, n as int) =~= args@);
        }
        if save {
            self.uheap.push(p);
        }
        Ok(())
    }

    /// `Dummy(sort)`: legal only against a definition; the top obligation
    /// must be a bound variable of the given sort whose ordinal no
    /// unify-heap entry depends on.  The variable joins the unify heap, and
    /// outside a theorem the binder table learns its type.
    pub fn unify_dummy(&mut self, mode: UMode, sort_id: SortId) -> (r: Res<()>)
        requires
            old(self).wf(),
        ensures
            final(self).wf(),
            r is Ok <==> (mode == UMode::UDef && old(self).ustack@.len() > 0 && (old(self).store@[old(self).ustack@.last() as int] matches MmbItem::Expr(MmbExpr::Var { idx, ty })
                && ty.spec_sort() == sort_id && ty.spec_bound() && uheap_ok_for_dummy(
                old(self).store@,
                old(self).uheap@,
                ty.spec_low_bits(),
            ) && (!old(self).spec_is_thm() ==> set_dummy_ok(
                old(self).stmt_binders.stmt_vars@,
                idx,
            )))),
            *final(self) == (MmbState {
                ustack: final(self).ustack,
                uheap: final(self).uheap,
                stmt_binders: final(self).stmt_binders,
                ..*old(self)
            }),
            final(self).stmt_binders.binder_names == old(self).stmt_binders.binder_names,
            r is Ok ==> final(self).ustack@ == old(self).ustack@.drop_last() && final(self).uheap@
                == old(self).uheap@.push(old(self).ustack@.last()),
            r is Ok && old(self).spec_is_thm() ==> final(self).stmt_binders == old(self).stmt_binders,
            r is Ok && !old(self).spec_is_thm() ==> (old(self).store@[old(self).ustack@.last() as int] matches MmbItem::Expr(MmbExpr::Var { idx, ty }) && {
                match var_pos_from(old(self).stmt_binders.stmt_vars@, 0, idx) {
                    Some(p) => final(self).stmt_binders.stmt_vars@ == old(self).stmt_binders.stmt_vars@.update(
                        p,
                        (
                            idx,
                            Binder {
                                name: old(self).stmt_binders.stmt_vars@[p].1.name,
                                ty: Some(ty),
                                dummy: old(self).stmt_binders.stmt_vars@[p].1.dummy,
                            },
                        ),
                    ),
                    None => {
                        &&& final(self).stmt_binders.stmt_vars@.drop_last() == old(self).stmt_binders.stmt_vars@
                        &&& final(self).stmt_binders.stmt_vars@.last().0 == idx
                        &&& final(self).stmt_binders.stmt_vars@.last().1.ty == Some(ty)
                        &&& final(self).stmt_binders.stmt_vars@.last().1.dummy
                    },
                }
            }),
            r is Err ==> final(self).uheap@ == old(self).uheap@ && final(self).stmt_binders == old(self).stmt_binders && (final(self).ustack@ == old(self).ustack@ || final(self).ustack@
                == old(self).ustack@.drop_last()),
            r matches Res::<()>::Err(e) ==> (if mode != UMode::UDef {
                e is MakeSure
            } else if old(self).ustack@.len() == 0 {
                e is NoneErr
            } else if (old(self).store@[old(self).ustack@.last() as int] matches MmbItem::Expr(
                MmbExpr::Var { ty, .. },
            ) && ty.spec_sort() != sort_id) {
                e is MakeSure
            } else if (old(self).store@[old(self).ustack@.last() as int] matches MmbItem::Expr(
                MmbExpr::Var { ty, .. },
            ) && !ty.spec_bound()) {
                e is NoneErr
            } else if old(self).store@[old(self).ustack@.last() as int] matches MmbItem::Expr(
                MmbExpr::Var { .. },
            ) {
                if (forall|j: int|
                    0 <= j < old(self).uheap@.len() ==> (#[trigger] old(self).store@[old(self).uheap@[j] as int]).is_expr()) {
                    e is MakeSure
                } else {
                    e is Msg || e is MakeSure
                }
            } else {
                e is Unreachable
            }),
    {
        if mode != UMode::UDef {
            return Err(VerifErr::MakeSure("unify_dummy"));
        }
        let p = match self.ustack.pop() {
            Some(x) => x,
            None => {
                return Err(VerifErr::NoneErr("unify_dummy"));
            },
        };
        let (idx, ty): (usize, Type) = match &self.store[p] {
            MmbItem::Expr(MmbExpr::Var { idx, ty }) => (*idx, *ty),
            _ => {
                return Err(VerifErr::Unreachable("unify_dummy"));
            },
        };
        if sort_id != ty.sort() {
            return Err(VerifErr::MakeSure("unify_dummy"));
        }
        let bound_idx = match ty.bound_digit() {
            Some(d) => d,
            None => {
                return Err(VerifErr::NoneErr("unify_dummy"));
            },
        };
        let n = self.uheap.len();
        let mut j: usize = 0;
        while j < n
            invariant
                self.wf(),
                j <= n,
                n == self.uheap@.len(),
                p < self.store@.len(),
                mode == UMode::UDef,
                old(self).ustack@.len() > 0,
                p == old(self).ustack@.last(),
                self.store@[p as int] == MmbItem::Expr(MmbExpr::Var { idx, ty }),
                ty.spec_sort() == sort_id,
                ty.spec_bound(),
                bound_idx == ty.spec_low_bits(),
                self.ustack@ == old(self).ustack@.drop_last(),
                *self == (MmbState { ustack: self.ustack, ..*old(self) }),
                forall|k: int|
                    0 <= k < j ==> (#[trigger] self.store@[self.uheap@[k] as int]).is_expr()
                        && self.store@[self.uheap@[k] as int].spec_ty().raw & bound_idx == 0,
            decreases n - j,
        {
            let elem = self.uheap[j];
            let t = match self.store[elem].get_ty() {
                Ok(t) => t,
                Err(e) => {
                    return Err(e);
                },
            };
            if t.raw & bound_idx != 0 {
                return Err(VerifErr::MakeSure("unify_dummy"));
            }
            j += 1;
        }
        if !self.is_thm() {
            match self.stmt_binders.set_dummy(idx, ty) {
                Ok(()) => {},
                Err(e) => {
                    proof {
                        assert(self.stmt_binders == old(self).stmt_binders);
                        assert(self.uheap@ == old(self).uheap@);
                        assert(self.ustack@ == old(self).ustack@.drop_last());
                    }
                    return Err(e);
                },
            }
        }
        self.uheap.push(p);
        Ok(())
    }

    /// `Hyp`: inside a theorem application, move a proof from the main
    /// stack to the obligations; at theorem end, with no obligation left,
    /// feed the next saved hypothesis back.
    pub fn unify_hyp(&mut self, mode: UMode) -> (r: Res<()>)
        requires
            old(self).wf(),
        ensures
            final(self).wf(),
            r is Ok <==> (match mode {
                UMode::UThm => old(self).stack@.len() > 0 && old(self).store@[old(self).stack@.last() as int] is Proof,
                UMode::UThmEnd => old(self).ustack@.len() == 0 && old(self).hstack@.len() > 0,
                UMode::UDef => false,
            }),
            *final(self) == (MmbState {
                stack: final(self).stack,
                ustack: final(self).ustack,
                hstack: final(self).hstack,
                ..*old(self)
            }),
            r is Ok && mode == UMode::UThm ==> (old(self).store@[old(self).stack@.last() as int] matches MmbItem::Proof(e) && (final(self).stack@ == old(self).stack@.drop_last() && final(self).ustack@ == old(self).ustack@.push(e) && final(self).hstack@ == old(self).hstack@)),
            r is Ok && mode == UMode::UThmEnd ==> (final(self).hstack@ == old(self).hstack@.drop_last() && final(self).ustack@ == old(self).ustack@.push(
                old(self).hstack@.last(),
            ) && final(self).stack@ == old(self).stack@),
            r is Err ==> final(self).ustack@ == old(self).ustack@ && final(self).hstack@ == old(self).hstack@ && (final(self).stack@ == old(self).stack@ || (old(self).stack@.len() > 0 && final(self).stack@ == old(self).stack@.drop_last())),
            r is Err && mode != UMode::UThm ==> final(self).stack@ == old(self).stack@,
            r matches Res::<()>::Err(e) ==> (match mode {
                UMode::UThm => if old(self).stack@.len() == 0 {
                    e is NoneErr
                } else {
                    e is Unreachable
                },
                UMode::UThmEnd => if old(self).ustack@.len() != 0 {
                    e is MakeSure
                } else {
                    e is NoneErr
                },
                UMode::UDef => e is Unreachable,
            }),
    {
        match mode {
            UMode::UThm => {
                let p = match self.stack.pop() {
                    Some(x) => x,
                    None => {
                        return Err(VerifErr::NoneErr("unify_hyp"));
                    },
                };
                match &self.store[p] {
                    MmbItem::Proof(e) => {
                        let e = *e;
                        proof {
                            assert(crate::item::item_bounded(self.store@[p as int], p as int));
                        }
                        self.ustack.push(e);
                        Ok(())
                    },
                    _ => Err(VerifErr::Unreachable("unify_hyp")),
                }
            },
            UMode::UThmEnd => {
                if self.ustack.len() != 0 {
                    return Err(VerifErr::MakeSure("unify_hyp"));
                }
                let elem = match self.hstack.pop() {
                    Some(x) => x,
                    None => {
                        return Err(VerifErr::NoneErr("unify_hyp"));
                    },
                };
                self.ustack.push(elem);
                Ok(())
            },
            UMode::UDef => Err(VerifErr::Unreachable("unify_hyp")),
        }
    }

    /// Runs one unification stream against target `tgt`: a sub-unification
    /// when a finish token is given (the unifier was invoked from inside a
    /// theorem application or an unfold), the terminal unification of the
    /// declaration otherwise.  On success the unify stack is empty, the
    /// hypothesis stack too at theorem end, and the unify heap is cleared;
    /// the number of executed commands is exactly the stream's pre-counted
    /// length, plus one terminal step.
    pub fn run_unify(
        &mut self,
        mode: UMode,
        unify: &Vec<UnifyCmd>,
        tgt: usize,
        finish: Option<Finish>,
    ) -> (r: Res<()>)
        requires
            old(self).wf(),
            tgt < old(self).store@.len(),
            finish is None ==> old(self).unify_step_checksum is None && old(self).cur_unify_step
                == 0,
            finish matches Some(f) ==> (finish_bounded(f, old(self).store@.len() as int) && old(self).proof_step_checksum is Some && old(self).cur_subunify_step == 0),
        ensures
            final(self).wf(),
            final(self).store == old(self).store,
            final(self).heap == old(self).heap,
            final(self).next_bv == old(self).next_bv,
            final(self).stmt == old(self).stmt,
            final(self).debug_params == old(self).debug_params,
            final(self).mmb_file == old(self).mmb_file,
            final(self).mm1_env == old(self).mm1_env,
            mode != UMode::UDef ==> final(self).stmt_binders == old(self).stmt_binders,
            mode != UMode::UThm ==> final(self).stack@ == old(self).stack@,
            mode != UMode::UThmEnd ==> final(self).hstack@ == old(self).hstack@,
            final(self).stack@.len() <= old(self).stack@.len() && final(self).stack@ == old(self).stack@.subrange(0, final(self).stack@.len() as int),
            final(self).proof_states@.len() >= old(self).proof_states@.len() && final(self).proof_states@.subrange(0, old(self).proof_states@.len() as int) == old(self).proof_states@,
            final(self).unify_states@.len() >= old(self).unify_states@.len() && final(self).unify_states@.subrange(0, old(self).unify_states@.len() as int) == old(self).unify_states@,
            r is Ok ==> final(self).ustack@.len() == 0 && final(self).uheap@.len() == 0,
            r is Ok && mode == UMode::UThmEnd ==> final(self).hstack@.len() == 0,
            r is Ok && finish is None ==> (final(self).cur_unify_step == unify@.len() + 1 && final(self).unify_step_checksum == Some(unify.len()) && final(self).cur_proof_step == old(self).cur_proof_step && final(self).proof_step_checksum == old(self).proof_step_checksum
                && final(self).cur_subunify_step == old(self).cur_subunify_step && final(self).proof_states == old(self).proof_states),
            r is Ok && finish is Some ==> (final(self).cur_proof_step == old(self).cur_proof_step
                + unify@.len() + 1 && old(self).proof_step_checksum->Some_0 + unify@.len() + 1
                <= usize::MAX && final(self).proof_step_checksum == Some(
                (old(self).proof_step_checksum->Some_0 + unify@.len() + 1) as usize,
            ) && final(self).cur_subunify_step == 0 && final(self).cur_unify_step == old(self).cur_unify_step && final(self).unify_step_checksum == old(self).unify_step_checksum
                && final(self).unify_states == old(self).unify_states),
            quiet_run_ok(*old(self), mode, unify@, tgt, finish) ==> r is Ok,
    {
        self.ustack.push(tgt);
        proof {
            assert(self.stack@ =~= old(self).stack@.subrange(0, self.stack@.len() as int));
        }
        let ulen = unify_len(unify);
        match finish {
            None => {
                self.unify_step_checksum = Some(ulen);
            },
            Some(_) => {
                let c = match self.proof_step_checksum {
                    Some(c) => c,
                    None => {
                        proof {
                            assert(false);
                        }
                        0
                    },
                };
                if ulen == usize::MAX {
                    proof {
                        assert(!quiet_run_ok(*old(self), mode, unify@, tgt, finish));
                    }
                    return Err(VerifErr::MakeSure("run_unify step limit"));
                }
                if c > usize::MAX - (ulen + 1) {
                    proof {
                        assert(!quiet_run_ok(*old(self), mode, unify@, tgt, finish));
                    }
                    return Err(VerifErr::MakeSure("run_unify step limit"));
                }
                self.proof_step_checksum = Some(c + ulen + 1);
            },
        }
        let mut k: usize = 0;
        while k < ulen
            invariant
                self.wf(),
                k <= ulen,
                ulen == unify@.len(),
                tgt < self.store@.len(),
                self.store == old(self).store,
                self.heap == old(self).heap,
                self.next_bv == old(self).next_bv,
                self.stmt == old(self).stmt,
                self.debug_params == old(self).debug_params,
                self.mmb_file == old(self).mmb_file,
                self.mm1_env == old(self).mm1_env,
                mode != UMode::UDef ==> self.stmt_binders == old(self).stmt_binders,
                mode != UMode::UThm ==> self.stack@ == old(self).stack@,
                mode != UMode::UThmEnd ==> self.hstack@ == old(self).hstack@,
                self.stack@.len() <= old(self).stack@.len() && self.stack@ == old(self).stack@.subrange(0, self.stack@.len() as int),
                self.proof_states@.len() >= old(self).proof_states@.len() && self.proof_states@.subrange(0, old(self).proof_states@.len() as int) == old(self).proof_states@,
                self.unify_states@.len() >= old(self).unify_states@.len() && self.unify_states@.subrange(0, old(self).unify_states@.len() as int) == old(self).unify_states@,
                match finish {
                    Some(f) => finish_bounded(f, self.store@.len() as int),
                    None => true,
                },
                finish is None ==> (self.cur_unify_step == k && self.unify_step_checksum == Some(
                    ulen,
                ) && self.cur_proof_step == old(self).cur_proof_step && self.proof_step_checksum
                    == old(self).proof_step_checksum && self.cur_subunify_step == old(self).cur_subunify_step && self.proof_states == old(self).proof_states),
                finish is Some ==> (self.cur_proof_step == old(self).cur_proof_step + k && (old(self).proof_step_checksum matches Some(c0) && (c0 + ulen + 1 <= usize::MAX
                    && self.proof_step_checksum == Some(((c0 + ulen + 1) as int) as usize)))
                    && self.cur_subunify_step == k && self.cur_unify_step == old(self).cur_unify_step && self.unify_step_checksum == old(self).unify_step_checksum
                    && self.unify_states == old(self).unify_states),
                quiet_run_ok(*old(self), mode, unify@, tgt, finish) ==> run_unify_spec(
                    old(self).store@,
                    mode,
                    UModel {
                        stack: self.stack@,
                        ustack: self.ustack@,
                        uheap: self.uheap@,
                        hstack: self.hstack@,
                    },
                    unify@,
                    k as int,
                ) == run_unify_spec(
                    old(self).store@,
                    mode,
                    UModel {
                        stack: old(self).stack@,
                        ustack: old(self).ustack@.push(tgt),
                        uheap: old(self).uheap@,
                        hstack: old(self).hstack@,
                    },
                    unify@,
                    0,
                ),
            decreases ulen - k,
        {
            let cmd = unify[k];
            let snapped = match finish {
                Some(f) => self.snap_subunify(ulen, mode, Some(cmd), tgt, f),
                None => self.snap_proper_unify(mode, Some(cmd), tgt),
            };
            proof {
                assert(self.proof_states@.subrange(0, old(self).proof_states@.len() as int)
                    =~= old(self).proof_states@);
                assert(self.unify_states@.subrange(0, old(self).unify_states@.len() as int)
                    =~= old(self).unify_states@);
            }
            match snapped {
                Ok(()) => {},
                Err(e) => {
                    proof {
                        if quiet_run_ok(*old(self), mode, unify@, tgt, finish) {
                            assert(false);
                        }
                    }
                    return Err(e);
                },
            }
            let ghost pre_model = UModel {
                stack: self.stack@,
                ustack: self.ustack@,
                uheap: self.uheap@,
                hstack: self.hstack@,
            };
            let ghost stack_before = self.stack@;
            let step = match cmd {
                UnifyCmd::Ref(i) => self.unify_ref(i),
                UnifyCmd::Term { tid, save } => self.unify_term(tid, save),
                UnifyCmd::Dummy(s) => self.unify_dummy(mode, s),
                UnifyCmd::Hyp => self.unify_hyp(mode),
            };
            proof {
                if self.stack@ != stack_before {
                    assert(stack_before.len() > 0 && self.stack@ == stack_before.drop_last());
                    assert(self.stack@ =~= old(self).stack@.subrange(
                        0,
                        self.stack@.len() as int,
                    ));
                }
                if quiet_run_ok(*old(self), mode, unify@, tgt, finish) {
                    assert(run_unify_spec(old(self).store@, mode, pre_model, unify@, k as int)
                        is Some);
                    assert(unify_step_spec(old(self).store@, mode, pre_model, unify@[k as int])
                        is Some);
                }
            }
            match step {
                Ok(()) => {},
                Err(e) => {
                    proof {
                        if quiet_run_ok(*old(self), mode, unify@, tgt, finish) {
                            assert(false);
                        }
                    }
                    return Err(e);
                },
            }
            proof {
                if quiet_run_ok(*old(self), mode, unify@, tgt, finish) {
                    assert(unify_step_spec(old(self).store@, mode, pre_model, unify@[k as int])
                        == Some(
                        UModel {
                            stack: self.stack@,
                            ustack: self.ustack@,
                            uheap: self.uheap@,
                            hstack: self.hstack@,
                        },
                    ));
                }
            }
            k += 1;
        }
        let snapped = match finish {
            Some(f) => self.snap_subunify(ulen, mode, None, tgt, f),
            None => self.snap_proper_unify(mode, None, tgt),
        };
        proof {
            assert(self.proof_states@.subrange(0, old(self).proof_states@.len() as int) =~= old(self).proof_states@);
            assert(self.unify_states@.subrange(0, old(self).unify_states@.len() as int) =~= old(self).unify_states@);
        }
        proof {
            if quiet_run_ok(*old(self), mode, unify@, tgt, finish) {
                assert(run_unify_spec(
                    old(self).store@,
                    mode,
                    UModel {
                        stack: self.stack@,
                        ustack: self.ustack@,
                        uheap: self.uheap@,
                        hstack: self.hstack@,
                    },
                    unify@,
                    ulen as int,
                ) == Some(
                    UModel {
                        stack: self.stack@,
                        ustack: self.ustack@,
                        uheap: self.uheap@,
                        hstack: self.hstack@,
                    },
                ));
                assert(self.ustack@.len() == 0);
                assert(mode == UMode::UThmEnd ==> self.hstack@.len() == 0);
            }
        }
        match snapped {
            Ok(()) => {},
            Err(e) => {
                proof {
                    if quiet_run_ok(*old(self), mode, unify@, tgt, finish) {
                        assert(false);
                    }
                }
                return Err(e);
            },
        }
        if self.ustack.len() != 0 {
            return Err(VerifErr::MakeSure("run_unify"));
        }
        if mode == UMode::UThmEnd && self.hstack.len() != 0 {
            return Err(VerifErr::MakeSure("run_unify"));
        }
        self.uheap.clear();
        Ok(())
    }
}

} // verus!
