//! The proof-stream interpreter and its command handlers.

use vstd::prelude::*;
use crate::item::{item_bounded, MmbExpr, MmbItem};
use crate::mmb::{ProofCmd, ProofIter};
use crate::state::MmbState;
use crate::types::{
    spec_sorts_compatible, SortId, TermId, ThmId, Type, SORT_PROVABLE, SORT_STRICT,
    TYPE_BOUND_MASK, TYPE_DEPS_MASK,
};
use crate::unify::{quiet_run_ok, run_unify_spec, set_dummy_ok, UMode, UModel};
use crate::util::{Res, VerifErr};

verus! {

/// The two proof-stream modes: the body of a definition, or the proof of an
/// axiom or theorem.
#[derive(Debug, Clone, Copy, PartialEq, Eq, Structural)]
pub enum Mode {
    Def,
    Thm,
}

impl Mode {
    /// The display name of the mode.
    pub fn as_str(&self) -> (r: &'static str)
        ensures
            r@ == self.spec_str(),
    {
        match self {
            Mode::Def => "Proof Def",
            Mode::Thm => "Proof Thm",
        }
    }

    /// The display name of the mode.
    pub open spec fn spec_str(self) -> Seq<char> {
        match self {
            Mode::Def => "Proof Def"@,
            Mode::Thm => "Proof Thm"@,
        }
    }
}

/// What the surrounding proof command will do when a sub-unification ends:
/// the token is carried so that each sub-unification snapshot can describe
/// it.
#[derive(Debug, Clone, Copy, PartialEq, Eq)]
pub enum Finish {
    /// A theorem application: wrap the proved conclusion and push it.
    Thm { proof_step: usize, thm_id: crate::types::ThmId, save: bool, proof: usize },
    /// An unfold: recombine the unfolded form with the application.
    Unfold { proof_step: usize, e1: usize, e2: usize },
}

/// Whether the node indices a finish token carries point into a pool of
/// length `bound`.
pub open spec fn finish_bounded(f: Finish, bound: int) -> bool {
    match f {
        Finish::Thm { proof, .. } => proof < bound,
        Finish::Unfold { e1, e2, .. } => e1 < bound && e2 < bound,
    }
}

/// The pre-counted length of a proof stream.
pub fn proof_len(p: &ProofIter) -> (r: usize)
    ensures
        r == p.cmds@.len(),
{
    p.cmds.len()
}

/// The positions of the bound arguments among the first `j` of a signature,
/// in order.
pub open spec fn bsig_upto(sig: Seq<Type>, j: int) -> Seq<usize>
    decreases j,
{
    if j <= 0 {
        Seq::empty()
    } else {
        let r = bsig_upto(sig, j - 1);
        if sig[j - 1].spec_bound() {
            r.push((j - 1) as usize)
        } else {
            r
        }
    }
}

/// The one-hot digit of the stack argument standing under the `k`-th bound
/// signature slot, when that argument's type is bound.
pub open spec fn digit_at(store: Seq<MmbItem>, sa: Seq<usize>, bpos: Seq<usize>, k: int) -> Option<
    u64,
> {
    if 0 <= k < bpos.len() && bpos[k] < sa.len() && sa[bpos[k] as int] < store.len() {
        match store[sa[bpos[k] as int] as int].spec_get_bound_digit() {
            Some(t) => Some(t.raw),
            None => None,
        }
    } else {
        None
    }
}

/// The low bits of one non-bound stack argument after walking the bound
/// slots up to `k` and masking out, for each slot its signature argument
/// depends on, that slot's one-hot digit, as definition mode prescribes.
pub open spec fn lb_after(
    store: Seq<MmbItem>,
    sa: Seq<usize>,
    bpos: Seq<usize>,
    sig_j: Type,
    lb0: u64,
    k: int,
) -> Option<u64>
    decreases k,
{
    if k <= 0 {
        Some(lb0)
    } else {
        match lb_after(store, sa, bpos, sig_j, lb0, k - 1) {
            None => None,
            Some(lb) => if sig_j.spec_depends_on((k - 1) as u64) {
                match digit_at(store, sa, bpos, k - 1) {
                    None => None,
                    Some(d) => Some(lb & !d),
                }
            } else {
                Some(lb)
            },
        }
    }
}

/// The return-type accumulator after the first `j` signature arguments:
/// starting from `acc0`, union in the (in definition mode, masked) low bits
/// of every non-bound argument.
pub open spec fn accum_after(
    store: Seq<MmbItem>,
    sig: Seq<Type>,
    sa: Seq<usize>,
    bpos: Seq<usize>,
    mode: Mode,
    acc0: u64,
    j: int,
) -> Option<u64>
    decreases j,
{
    if j <= 0 {
        Some(acc0)
    } else {
        match accum_after(store, sig, sa, bpos, mode, acc0, j - 1) {
            None => None,
            Some(a) => if sig[j - 1].spec_bound() {
                Some(a)
            } else if !(0 <= j - 1 < sa.len() && sa[j - 1] < store.len()) {
                None
            } else {
                let lb0 = store[sa[j - 1] as int].spec_ty().raw & TYPE_DEPS_MASK;
                match (if mode == Mode::Def {
                    lb_after(store, sa, bpos, sig[j - 1], lb0, bpos.len() as int)
                } else {
                    Some(lb0)
                }) {
                    None => None,
                    Some(lb) => Some(a | lb),
                }
            },
        }
    }
}

/// The return-type accumulator after also unioning in, for a definition
/// with a dependent return type, the digits of the first `k` bound slots
/// the declared return depends on.
pub open spec fn ret_after(
    store: Seq<MmbItem>,
    sa: Seq<usize>,
    bpos: Seq<usize>,
    ret: Type,
    acc0: u64,
    k: int,
) -> Option<u64>
    decreases k,
{
    if k <= 0 {
        Some(acc0)
    } else {
        match ret_after(store, sa, bpos, ret, acc0, k - 1) {
            None => None,
            Some(a) => if ret.spec_depends_on((k - 1) as u64) {
                match digit_at(store, sa, bpos, k - 1) {
                    None => None,
                    Some(d) => Some(a | d),
                }
            } else {
                Some(a)
            },
        }
    }
}

/// The computed type of a term application: the declared return sort, the
/// propagated dependencies of the non-bound arguments, and for a dependent
/// definition return the digits of the bound arguments it depends on.
pub open spec fn term_app_ty(
    store: Seq<MmbItem>,
    sig: Seq<Type>,
    ret: Type,
    sa: Seq<usize>,
    mode: Mode,
) -> Option<u64> {
    let bpos = bsig_upto(sig, sig.len() as int);
    match accum_after(
        store,
        sig,
        sa,
        bpos,
        mode,
        (ret.spec_sort() as u64) << 56,
        sig.len() as int,
    ) {
        None => None,
        Some(a) => if mode == Mode::Def && ret.spec_has_deps() {
            ret_after(store, sa, bpos, ret, a, bpos.len() as int)
        } else {
            Some(a)
        },
    }
}

/// Whether every stack argument is an expression whose sort is castable to
/// its signature argument.
pub open spec fn args_compat(store: Seq<MmbItem>, sig: Seq<Type>, sa: Seq<usize>) -> bool {
    forall|j: int|
        0 <= j < sig.len() ==> (sa[j] < store.len() && (#[trigger] store[sa[j] as int]).is_expr()
            && spec_sorts_compatible(store[sa[j] as int].spec_ty(), sig[j]))
}

/// The congruence obligations of two applications, one pending conversion
/// per argument pair, last pair first so that the first pair ends on top.
pub open spec fn cong_nodes(as1: Seq<usize>, as2: Seq<usize>) -> Seq<MmbItem> {
    Seq::new(as1.len(), |i: int| MmbItem::CoConv(as1[as1.len() - 1 - i], as2[as2.len() - 1 - i]))
}

/// One disjointness obligation of a theorem application: the `j`-th
/// unify-heap entry and the bound argument at signature slot `i` are both
/// expressions whose dependency sets share no member.
pub open spec fn thm_pair_disjoint(
    store: Seq<MmbItem>,
    uheapx: Seq<usize>,
    sa: Seq<usize>,
    i: int,
    j: int,
) -> bool {
    &&& 0 <= i < sa.len() && sa[i] < store.len() && store[sa[i] as int].is_expr()
    &&& 0 <= j < uheapx.len() && uheapx[j] < store.len() && store[uheapx[j] as int].is_expr()
    &&& store[uheapx[j] as int].spec_ty().raw & (store[sa[i] as int].spec_ty().raw
        & TYPE_DEPS_MASK) & TYPE_DEPS_MASK == 0
}

/// Every bound argument of the signature is pairwise disjoint from all
/// earlier unify-heap entries.
pub open spec fn thm_bound_disjoint_ok(
    store: Seq<MmbItem>,
    uheapx: Seq<usize>,
    sig: Seq<Type>,
    sa: Seq<usize>,
) -> bool {
    forall|i: int, j: int|
        0 <= i < sig.len() && sig[i].spec_bound() && 0 <= j < i ==> thm_pair_disjoint(
            store,
            uheapx,
            sa,
            i,
            j,
        )
}

/// One dependency obligation of a non-bound argument at signature slot `i`
/// against the `j`-th bound slot: either the signature lists ordinal `j` as
/// a dependency, or the two arguments' dependency sets share no member.
pub open spec fn thm_dep_ok(
    store: Seq<MmbItem>,
    sig: Seq<Type>,
    sa: Seq<usize>,
    bpos: Seq<usize>,
    i: int,
    j: int,
) -> bool {
    &&& 0 <= i < sa.len() && sa[i] < store.len() && store[sa[i] as int].is_expr()
    &&& 0 <= j < bpos.len() && j < 64 && bpos[j] < sa.len() && sa[bpos[j] as int] < store.len()
    &&& (sig[i].raw & (1u64 << (j as u64)) & TYPE_DEPS_MASK == 0 ==> (store[sa[bpos[j] as int] as int].is_expr()
        && store[sa[bpos[j] as int] as int].spec_ty().raw & TYPE_DEPS_MASK & (
        store[sa[i] as int].spec_ty().raw & TYPE_DEPS_MASK)
        & TYPE_DEPS_MASK == 0))
}

/// Every non-bound argument satisfies the dependency obligation against
/// every bound slot of the signature.
pub open spec fn thm_unbound_deps_ok(store: Seq<MmbItem>, sig: Seq<Type>, sa: Seq<usize>) -> bool {
    forall|i: int, j: int|
        0 <= i < sig.len() && !sig[i].spec_bound() && 0 <= j < bsig_upto(sig, sig.len() as int).len()
            ==> thm_dep_ok(store, sig, sa, bsig_upto(sig, sig.len() as int), i, j)
}

/// Success is owed to a theorem application: the theorem exists, the stack
/// holds the conclusion over expression arguments that pass both
/// disjointness disciplines, the unify heap holds only expressions,
/// nothing is being recorded, the step counters stay in range, and the
/// spec-level run of the theorem's unification stream consumes all its
/// obligations.
pub open spec fn thm_quiet_ok(st: MmbState, thm_num: ThmId) -> bool {
    let sig = st.mmb_file.thms@[thm_num as int].args@;
    let arity = sig.len();
    let a = st.stack@.last();
    let sa = st.stack@.subrange(st.stack@.len() - 1 - arity, st.stack@.len() - 1);
    let ustream = st.mmb_file.thms@[thm_num as int].unify@;
    &&& thm_num < st.mmb_file.thms@.len()
    &&& st.stack@.len() >= arity + 1
    &&& (forall|x: int|
        0 <= x < arity ==> sa[x] < st.store@.len() && (#[trigger] st.store@[sa[x] as int]).is_expr())
    &&& (forall|y: int|
        0 <= y < st.uheap@.len() ==> st.uheap@[y] < st.store@.len() && (#[trigger] st.store@[st.uheap@[y] as int]).is_expr())
    &&& thm_bound_disjoint_ok(st.store@, st.uheap@ + sa, sig, sa)
    &&& thm_unbound_deps_ok(st.store@, sig, sa)
    &&& !st.debug_params.table
    &&& st.debug_params.stepnum is None
    &&& ustream.len() < usize::MAX
    &&& st.cur_proof_step + ustream.len() + 1 <= usize::MAX
    &&& st.proof_step_checksum->Some_0 + ustream.len() + 1 <= usize::MAX
    &&& (run_unify_spec(
        st.store@,
        UMode::UThm,
        UModel {
            stack: st.stack@.subrange(0, st.stack@.len() - 1 - arity),
            ustack: st.ustack@.push(a),
            uheap: st.uheap@ + sa,
            hstack: st.hstack@,
        },
        ustream,
        0,
    ) matches Some(fin) && fin.ustack.len() == 0)
}

/// Success is owed to an unfold: the stack holds the unfolded form over an
/// application of a known definition over a matching pending conversion,
/// the unify heap is empty, nothing is being recorded, the step counters
/// stay in range, and the spec-level run of the definition's unification
/// stream consumes all its obligations.
pub open spec fn unfold_quiet_ok(st: MmbState) -> bool {
    let e_prime = st.stack@.last();
    let f_ebar = st.stack@[st.stack@.len() - 2];
    let tid = st.store@[f_ebar as int]->Expr_0->App_term_num;
    let ebar = st.store@[f_ebar as int]->Expr_0->App_args@;
    let ustream = st.mmb_file.terms@[tid as int].unify@;
    &&& st.stack@.len() >= 3
    &&& f_ebar < st.store@.len()
    &&& (st.store@[f_ebar as int] matches MmbItem::Expr(MmbExpr::App { .. }))
    &&& tid < st.mmb_file.terms@.len()
    &&& st.uheap@.len() == 0
    &&& (st.store@[st.stack@[st.stack@.len() - 3] as int] matches MmbItem::CoConv(x, _) && x
        == f_ebar)
    &&& !st.debug_params.table
    &&& st.debug_params.stepnum is None
    &&& ustream.len() < usize::MAX
    &&& st.cur_proof_step + ustream.len() + 1 <= usize::MAX
    &&& st.proof_step_checksum->Some_0 + ustream.len() + 1 <= usize::MAX
    &&& (run_unify_spec(
        st.store@,
        UMode::UDef,
        UModel {
            stack: st.stack@.subrange(0, st.stack@.len() - 2),
            ustack: st.ustack@.push(e_prime),
            uheap: ebar,
            hstack: st.hstack@,
        },
        ustream,
        0,
    ) matches Some(fin) && fin.ustack.len() == 0)
}

/// Law: the bound positions collected among the first `j` signature
/// arguments all lie below `j`.
pub proof fn lemma_bsig_upto_range(sig: Seq<Type>, j: int)
    ensures
        forall|k: int|
            0 <= k < bsig_upto(sig, j).len() ==> #[trigger] bsig_upto(sig, j)[k] < j,
    decreases j,
{
    if j > 0 {
        lemma_bsig_upto_range(sig, j - 1);
        let prev = bsig_upto(sig, j - 1);
        if sig[j - 1].spec_bound() {
            assert forall|k: int|
                0 <= k < bsig_upto(sig, j).len() implies #[trigger] bsig_upto(sig, j)[k]
                < j by {
                if k < prev.len() {
                    assert(bsig_upto(sig, j)[k] == prev[k]);
                } else {
                    assert(bsig_upto(sig, j)[k] == (j - 1) as usize);
                }
            }
        }
    }
}

/// Law: once the masking chain fails it stays failed.
pub proof fn lemma_lb_after_none(
    store: Seq<MmbItem>,
    sa: Seq<usize>,
    bpos: Seq<usize>,
    sig_j: Type,
    lb0: u64,
    k: int,
    k2: int,
)
    requires
        0 <= k <= k2,
        lb_after(store, sa, bpos, sig_j, lb0, k) is None,
    ensures
        lb_after(store, sa, bpos, sig_j, lb0, k2) is None,
    decreases k2 - k,
{
    if k < k2 {
        lemma_lb_after_none(store, sa, bpos, sig_j, lb0, k, k2 - 1);
    }
}

/// Law: once the accumulator chain fails it stays failed.
pub proof fn lemma_accum_after_none(
    store: Seq<MmbItem>,
    sig: Seq<Type>,
    sa: Seq<usize>,
    bpos: Seq<usize>,
    mode: Mode,
    acc0: u64,
    j: int,
    j2: int,
)
    requires
        0 <= j <= j2,
        accum_after(store, sig, sa, bpos, mode, acc0, j) is None,
    ensures
        accum_after(store, sig, sa, bpos, mode, acc0, j2) is None,
    decreases j2 - j,
{
    if j < j2 {
        lemma_accum_after_none(store, sig, sa, bpos, mode, acc0, j, j2 - 1);
    }
}

/// Law: once the dependent-return chain fails it stays failed.
pub proof fn lemma_ret_after_none(
    store: Seq<MmbItem>,
    sa: Seq<usize>,
    bpos: Seq<usize>,
    ret: Type,
    acc0: u64,
    k: int,
    k2: int,
)
    requires
        0 <= k <= k2,
        ret_after(store, sa, bpos, ret, acc0, k) is None,
    ensures
        ret_after(store, sa, bpos, ret, acc0, k2) is None,
    decreases k2 - k,
{
    if k < k2 {
        lemma_ret_after_none(store, sa, bpos, ret, acc0, k, k2 - 1);
    }
}

impl<'a> MmbState<'a> {
    /// `Ref(i)`: push main heap slot `i` onto the main stack.
    pub fn proof_ref(&mut self, i: u32) -> (r: Res<()>)
        requires
            old(self).wf(),
        ensures
            final(self).wf(),
            *final(self) == (MmbState { stack: final(self).stack, ..*old(self) }),
            r is Ok <==> i < old(self).heap@.len(),
            r is Ok ==> final(self).stack@ == old(self).stack@.push(old(self).heap@[i as int]),
            r is Err ==> *final(self) == *old(self),
            r matches Res::<()>::Err(e) ==> e is NoneErr,
    {
        if (i as usize) >= self.heap.len() {
            return Err(VerifErr::NoneErr("proof_ref"));
        }
        let heap_elem = self.heap[i as usize];
        self.stack.push(heap_elem);
        Ok(())
    }

    /// `Dummy(sort)`: the sort must exist and not be strict, and the bound
    /// counter must still be under the limit; a fresh bound variable of the
    /// sort is allocated, pushed to stack and heap, and registered as a
    /// dummy binder when the declaration is a theorem or axiom.
    pub fn proof_dummy(&mut self, sort_num: SortId) -> (r: Res<()>)
        requires
            old(self).wf(),
        ensures
            final(self).wf(),
            *final(self) == (MmbState {
                store: final(self).store,
                stack: final(self).stack,
                heap: final(self).heap,
                next_bv: final(self).next_bv,
                stmt_binders: final(self).stmt_binders,
                ..*old(self)
            }),
            r is Ok <==> (sort_num < old(self).mmb_file.sorts@.len() && old(self).mmb_file.sorts@[sort_num as int] & SORT_STRICT == 0 && old(self).next_bv >> 56 == 0
                && (old(self).spec_is_thm() ==> set_dummy_ok(
                old(self).stmt_binders.stmt_vars@,
                old(self).heap@.len() as usize,
            ))),
            r is Ok ==> {
                let ty = Type {
                    raw: TYPE_BOUND_MASK | ((sort_num as u64) << 56) | old(self).next_bv,
                };
                &&& final(self).store@ == old(self).store@.push(
                    MmbItem::Expr(MmbExpr::Var { idx: old(self).heap@.len() as usize, ty }),
                )
                &&& final(self).stack@ == old(self).stack@.push(old(self).store@.len() as usize)
                &&& final(self).heap@ == old(self).heap@.push(old(self).store@.len() as usize)
                &&& final(self).next_bv == old(self).next_bv * 2
                &&& !old(self).spec_is_thm() ==> final(self).stmt_binders == old(self).stmt_binders
            },
            r is Err ==> final(self).stack@ == old(self).stack@ && final(self).heap@ == old(self).heap@ && final(self).stmt_binders == old(self).stmt_binders,
            r matches Res::<()>::Err(e) ==> e is MakeSure,
    {
        let flags = match self.mmb_file.sort(sort_num) {
            Some(f) => f,
            None => {
                return Err(VerifErr::MakeSure("proof_dummy"));
            },
        };
        if flags & SORT_STRICT != 0 {
            return Err(VerifErr::MakeSure("proof_dummy"));
        }
        if self.next_bv >> 56 != 0 {
            return Err(VerifErr::MakeSure("proof_dummy"));
        }
        let digit = self.take_next_bv();
        let ty = Type::new(TYPE_BOUND_MASK | ((sort_num as u64) << 56) | digit);
        let idx = self.heap.len();
        let e = self.alloc_item(MmbItem::Expr(MmbExpr::Var { idx, ty }));
        if self.is_thm() {
            match self.stmt_binders.set_dummy(idx, ty) {
                Ok(()) => {},
                Err(e) => {
                    return Err(e);
                },
            }
        }
        self.stack.push(e);
        self.heap.push(e);
        Ok(())
    }

    /// `Hyp`: valid only in a theorem proof; the popped expression must be
    /// of a provable sort, joins the hypothesis stack, and its proof is
    /// saved to the main heap.
    pub fn proof_hyp(&mut self, mode: Mode) -> (r: Res<()>)
        requires
            old(self).wf(),
        ensures
            final(self).wf(),
            *final(self) == (MmbState {
                store: final(self).store,
                stack: final(self).stack,
                heap: final(self).heap,
                hstack: final(self).hstack,
                ..*old(self)
            }),
            r is Ok <==> (mode != Mode::Def && old(self).stack@.len() > 0 && (old(self).store@[old(self).stack@.last() as int]).is_expr() && {
                let s = old(self).store@[old(self).stack@.last() as int].spec_ty().spec_sort();
                s < old(self).mmb_file.sorts@.len() && old(self).mmb_file.sorts@[s as int]
                    & SORT_PROVABLE != 0
            }),
            r is Ok ==> {
                let e = old(self).stack@.last();
                &&& final(self).stack@ == old(self).stack@.drop_last()
                &&& final(self).hstack@ == old(self).hstack@.push(e)
                &&& final(self).store@ == old(self).store@.push(MmbItem::Proof(e))
                &&& final(self).heap@ == old(self).heap@.push(old(self).store@.len() as usize)
            },
            r is Err ==> final(self).store@ == old(self).store@ && final(self).heap@ == old(self).heap@ && final(self).hstack@ == old(self).hstack@ && (final(self).stack@ == old(self).stack@ || final(self).stack@ == old(self).stack@.drop_last()),
            r matches Res::<()>::Err(e) ==> (if mode == Mode::Def {
                e is MakeSure
            } else if old(self).stack@.len() == 0 {
                e is NoneErr
            } else if !(old(self).store@[old(self).stack@.last() as int]).is_expr() {
                e is Msg
            } else if !(old(self).store@[old(self).stack@.last() as int].spec_ty().spec_sort()
                < old(self).mmb_file.sorts@.len()) {
                e is NoneErr
            } else {
                e is MakeSure
            }),
    {
        if mode == Mode::Def {
            return Err(VerifErr::MakeSure("proof_hyp"));
        }
        let e = match self.stack.pop() {
            Some(x) => x,
            None => {
                return Err(VerifErr::NoneErr("proof_hyp"));
            },
        };
        let ty = match self.store[e].get_ty() {
            Ok(t) => t,
            Err(err) => {
                return Err(err);
            },
        };
        let mods = match self.mmb_file.sort(ty.sort()) {
            Some(f) => f,
            None => {
                return Err(VerifErr::NoneErr("proof_hyp"));
            },
        };
        if mods & SORT_PROVABLE == 0 {
            return Err(VerifErr::MakeSure("proof_hyp"));
        }
        self.hstack.push(e);
        let p = self.alloc_item(MmbItem::Proof(e));
        self.heap.push(p);
        Ok(())
    }

    /// `Conv`: pop a proof of the right-hand side and the left-hand
    /// expression; push the proof of the left side and the pending equality
    /// obligation between the left side and the proved conclusion.
    pub fn proof_conv(&mut self) -> (r: Res<()>)
        requires
            old(self).wf(),
        ensures
            final(self).wf(),
            *final(self) == (MmbState {
                store: final(self).store,
                stack: final(self).stack,
                ..*old(self)
            }),
            r is Ok <==> (old(self).stack@.len() >= 2 && old(self).store@[old(self).stack@.last() as int] is Proof),
            r is Ok ==> {
                let e1 = old(self).stack@[old(self).stack@.len() - 2];
                let conc = old(self).store@[old(self).stack@.last() as int]->Proof_0;
                &&& final(self).store@ == old(self).store@.push(MmbItem::Proof(e1)).push(
                    MmbItem::CoConv(e1, conc),
                )
                &&& final(self).stack@ == old(self).stack@.drop_last().drop_last().push(
                    old(self).store@.len() as usize,
                ).push((old(self).store@.len() + 1) as usize)
            },
            r is Err ==> final(self).store@ == old(self).store@ && (final(self).stack@ == old(self).stack@ || final(self).stack@ == old(self).stack@.drop_last() || final(self).stack@
                == old(self).stack@.drop_last().drop_last()),
            r matches Res::<()>::Err(e) ==> (if old(self).stack@.len() < 2 {
                e is NoneErr
            } else {
                e is Unreachable
            }),
    {
        let e2proof = match self.stack.pop() {
            Some(x) => x,
            None => {
                return Err(VerifErr::NoneErr("proof_conv"));
            },
        };
        let e1 = match self.stack.pop() {
            Some(x) => x,
            None => {
                return Err(VerifErr::NoneErr("proof_conv"));
            },
        };
        let conc = match &self.store[e2proof] {
            MmbItem::Proof(conc) => *conc,
            _ => {
                return Err(VerifErr::Unreachable("proof_conv"));
            },
        };
        proof {
            assert(item_bounded(self.store@[e2proof as int], e2proof as int));
        }
        let e1proof = self.alloc_item(MmbItem::Proof(e1));
        self.stack.push(e1proof);
        let coconv = self.alloc_item(MmbItem::CoConv(e1, conc));
        self.stack.push(coconv);
        Ok(())
    }

    /// `Refl`: pop a pending conversion whose two sides must be the same
    /// node.
    pub fn proof_refl(&mut self) -> (r: Res<()>)
        requires
            old(self).wf(),
        ensures
            final(self).wf(),
            *final(self) == (MmbState { stack: final(self).stack, ..*old(self) }),
            r is Ok <==> (old(self).stack@.len() > 0 && (old(self).store@[old(self).stack@.last() as int] matches MmbItem::CoConv(a, b) && a == b)),
            r is Ok ==> final(self).stack@ == old(self).stack@.drop_last(),
            r is Err ==> final(self).stack@ == old(self).stack@ || final(self).stack@ == old(self).stack@.drop_last(),
            r matches Res::<()>::Err(e) ==> (if old(self).stack@.len() == 0 {
                e is NoneErr
            } else if old(self).store@[old(self).stack@.last() as int] is CoConv {
                e is MakeSure
            } else {
                e is Unreachable
            }),
    {
        let e = match self.stack.pop() {
            Some(x) => x,
            None => {
                return Err(VerifErr::NoneErr("proof_refl"));
            },
        };
        match &self.store[e] {
            MmbItem::CoConv(cc1, cc2) => {
                if *cc1 == *cc2 {
                    Ok(())
                } else {
                    Err(VerifErr::MakeSure("proof_refl"))
                }
            },
            _ => Err(VerifErr::Unreachable("proof_refl")),
        }
    }

    /// `Sym`: pop a pending conversion and push it with its sides swapped.
    pub fn proof_sym(&mut self) -> (r: Res<()>)
        requires
            old(self).wf(),
        ensures
            final(self).wf(),
            *final(self) == (MmbState {
                store: final(self).store,
                stack: final(self).stack,
                ..*old(self)
            }),
            r is Ok <==> (old(self).stack@.len() > 0 && old(self).store@[old(self).stack@.last() as int] is CoConv),
            r is Ok ==> {
                let a = old(self).store@[old(self).stack@.last() as int]->CoConv_0;
                let b = old(self).store@[old(self).stack@.last() as int]->CoConv_1;
                &&& final(self).store@ == old(self).store@.push(MmbItem::CoConv(b, a))
                &&& final(self).stack@ == old(self).stack@.drop_last().push(
                    old(self).store@.len() as usize,
                )
            },
            r is Err ==> final(self).store@ == old(self).store@ && (final(self).stack@ == old(self).stack@ || final(self).stack@ == old(self).stack@.drop_last()),
            r matches Res::<()>::Err(e) ==> (if old(self).stack@.len() == 0 {
                e is NoneErr
            } else {
                e is Unreachable
            }),
    {
        let e = match self.stack.pop() {
            Some(x) => x,
            None => {
                return Err(VerifErr::NoneErr("proof_sym"));
            },
        };
        match &self.store[e] {
            MmbItem::CoConv(cc1, cc2) => {
                let (a, b) = (*cc1, *cc2);
                proof {
                    assert(item_bounded(self.store@[e as int], e as int));
                }
                let swapped = self.alloc_item(MmbItem::CoConv(b, a));
                self.stack.push(swapped);
                Ok(())
            },
            _ => Err(VerifErr::Unreachable("proof_sym")),
        }
    }

    /// `Cong`: pop a pending conversion of two applications of the same
    /// term; push one pending conversion per argument pair, in reverse, so
    /// that the first pair is processed first.
    pub fn proof_cong(&mut self) -> (r: Res<()>)
        requires
            old(self).wf(),
        ensures
            final(self).wf(),
            *final(self) == (MmbState {
                store: final(self).store,
                stack: final(self).stack,
                ..*old(self)
            }),
            r is Ok <==> (old(self).stack@.len() > 0 && (old(self).store@[old(self).stack@.last() as int] matches MmbItem::CoConv(c1, c2) && (old(self).store@[c1 as int] matches MmbItem::Expr(MmbExpr::App { term_num: n1, args: as1, .. })
                && (old(self).store@[c2 as int] matches MmbItem::Expr(MmbExpr::App {
                term_num: n2,
                args: as2,
                ..
            }) && n1 == n2 && as1@.len() == as2@.len())))),
            r is Ok ==> (old(self).store@[old(self).stack@.last() as int] matches MmbItem::CoConv(
                c1,
                c2,
            ) && (old(self).store@[c1 as int] matches MmbItem::Expr(MmbExpr::App {
                args: as1,
                ..
            }) && (old(self).store@[c2 as int] matches MmbItem::Expr(MmbExpr::App {
                args: as2,
                ..
            }) && final(self).store@ == old(self).store@ + cong_nodes(as1@, as2@) && final(self).stack@ == old(self).stack@.drop_last() + Seq::new(
                as1@.len(),
                |i: int| (old(self).store@.len() + i) as usize,
            )))),
            r is Err ==> final(self).store@ == old(self).store@ && (final(self).stack@ == old(self).stack@ || final(self).stack@ == old(self).stack@.drop_last()),
            r matches Res::<()>::Err(e) ==> (if old(self).stack@.len() == 0 {
                e is NoneErr
            } else if (old(self).store@[old(self).stack@.last() as int] matches MmbItem::CoConv(
                c1,
                c2,
            ) && old(self).store@[c1 as int] matches MmbItem::Expr(MmbExpr::App { .. }) && old(self).store@[c2 as int] matches MmbItem::Expr(MmbExpr::App { .. })) {
                e is MakeSure
            } else {
                e is Unreachable
            }),
    {
        let e = match self.stack.pop() {
            Some(x) => x,
            None => {
                return Err(VerifErr::NoneErr("proof_cong"));
            },
        };
        let (c1, c2) = match &self.store[e] {
            MmbItem::CoConv(cc1, cc2) => (*cc1, *cc2),
            _ => {
                return Err(VerifErr::Unreachable("proof_cong"));
            },
        };
        proof {
            assert(item_bounded(self.store@[e as int], e as int));
        }
        let as1: Vec<usize> = match &self.store[c1] {
            MmbItem::Expr(MmbExpr::App { args, .. }) => {
                let a = args.clone();
                proof {
                    assert(a@ =~= args@);
                }
                a
            },
            _ => {
                return Err(VerifErr::Unreachable("proof_cong"));
            },
        };
        let n1 = match &self.store[c1] {
            MmbItem::Expr(MmbExpr::App { term_num, .. }) => *term_num,
            _ => {
                return Err(VerifErr::Unreachable("proof_cong"));
            },
        };
        let (n2, as2): (TermId, Vec<usize>) = match &self.store[c2] {
            MmbItem::Expr(MmbExpr::App { term_num, args, .. }) => {
                let a = args.clone();
                proof {
                    assert(a@ =~= args@);
                }
                (*term_num, a)
            },
            _ => {
                return Err(VerifErr::Unreachable("proof_cong"));
            },
        };
        if n1 != n2 {
            return Err(VerifErr::MakeSure("proof_cong"));
        }
        if as1.len() != as2.len() {
            return Err(VerifErr::MakeSure("proof_cong"));
        }
        proof {
            assert(item_bounded(self.store@[c1 as int], c1 as int));
            assert(item_bounded(self.store@[c2 as int], c2 as int));
        }
        let n = as1.len();
        let ghost store0 = self.store@;
        let ghost stack0 = self.stack@;
        let mut i: usize = 0;
        while i < n
            invariant
                self.wf(),
                i <= n,
                n == as1@.len(),
                n == as2@.len(),
                forall|k: int| 0 <= k < n ==> as1@[k] < store0.len() && as2@[k] < store0.len(),
                self.store@ == store0 + cong_nodes(as1@, as2@).subrange(0, i as int),
                self.stack@ == stack0 + Seq::new(i as nat, |k: int| (store0.len() + k) as usize),
                *self == (MmbState {
                    store: self.store,
                    stack: self.stack,
                    ..*old(self)
                }),
            decreases n - i,
        {
            let lhs = as1[n - 1 - i];
            let rhs = as2[n - 1 - i];
            proof {
                assert(cong_nodes(as1@, as2@)[i as int] == MmbItem::CoConv(lhs, rhs));
            }
            let cc = self.alloc_item(MmbItem::CoConv(lhs, rhs));
            self.stack.push(cc);
            proof {
                assert(self.store@ =~= store0 + cong_nodes(as1@, as2@).subrange(0, i + 1));
                assert(self.stack@ =~= stack0 + Seq::new(
                    (i + 1) as nat,
                    |k: int| (store0.len() + k) as usize,
                ));
            }
            i += 1;
        }
        proof {
            assert(self.store@ =~= store0 + cong_nodes(as1@, as2@));
        }
        Ok(())
    }

    /// `ConvCut`: pop a pending conversion; record it as established and
    /// re-push the obligation.
    pub fn proof_conv_cut(&mut self) -> (r: Res<()>)
        requires
            old(self).wf(),
        ensures
            final(self).wf(),
            *final(self) == (MmbState {
                store: final(self).store,
                stack: final(self).stack,
                ..*old(self)
            }),
            r is Ok <==> (old(self).stack@.len() > 0 && old(self).store@[old(self).stack@.last() as int] is CoConv),
            r is Ok ==> {
                let a = old(self).store@[old(self).stack@.last() as int]->CoConv_0;
                let b = old(self).store@[old(self).stack@.last() as int]->CoConv_1;
                &&& final(self).store@ == old(self).store@.push(MmbItem::Conv(a, b))
                &&& final(self).stack@ == old(self).stack@.drop_last().push(
                    old(self).store@.len() as usize,
                ).push(old(self).stack@.last())
            },
            r is Err ==> final(self).store@ == old(self).store@ && (final(self).stack@ == old(self).stack@ || final(self).stack@ == old(self).stack@.drop_last()),
            r matches Res::<()>::Err(e) ==> (if old(self).stack@.len() == 0 {
                e is NoneErr
            } else {
                e is Unreachable
            }),
    {
        let p = match self.stack.pop() {
            Some(x) => x,
            None => {
                return Err(VerifErr::NoneErr("proof_conv_cut"));
            },
        };
        match &self.store[p] {
            MmbItem::CoConv(cc1, cc2) => {
                let (a, b) = (*cc1, *cc2);
                proof {
                    assert(item_bounded(self.store@[p as int], p as int));
                }
                let p1 = self.alloc_item(MmbItem::Conv(a, b));
                self.stack.push(p1);
                self.stack.push(p);
                Ok(())
            },
            _ => Err(VerifErr::Unreachable("proof_conv_cut")),
        }
    }

    /// `ConvRef(i)`: pop a pending conversion; main heap slot `i` must hold
    /// exactly that conversion, established.
    pub fn proof_conv_ref(&mut self, i: u32) -> (r: Res<()>)
        requires
            old(self).wf(),
        ensures
            final(self).wf(),
            *final(self) == (MmbState { stack: final(self).stack, ..*old(self) }),
            r is Ok <==> (i < old(self).heap@.len() && old(self).stack@.len() > 0 && (old(self).store@[old(self).heap@[i as int] as int] matches MmbItem::Conv(c1, c2) && (old(self).store@[old(self).stack@.last() as int] matches MmbItem::CoConv(cc1, cc2) && c1 == cc1
                && c2 == cc2))),
            r is Ok ==> final(self).stack@ == old(self).stack@.drop_last(),
            r is Err ==> final(self).stack@ == old(self).stack@ || final(self).stack@ == old(self).stack@.drop_last(),
            r matches Res::<()>::Err(e) ==> (if !(i < old(self).heap@.len()) || old(self).stack@.len() == 0 {
                e is NoneErr
            } else if (old(self).store@[old(self).heap@[i as int] as int] matches MmbItem::Conv(
                ..,
            ) && old(self).store@[old(self).stack@.last() as int] matches MmbItem::CoConv(..)) {
                e is MakeSure
            } else {
                e is Unreachable
            }),
    {
        let heap_conv = if (i as usize) < self.heap.len() {
            self.heap[i as usize]
        } else {
            return Err(VerifErr::NoneErr("proof_conv_ref"));
        };
        let stack_coconv = match self.stack.pop() {
            Some(x) => x,
            None => {
                return Err(VerifErr::NoneErr("proof_conv_ref"));
            },
        };
        let (c1, c2) = match &self.store[heap_conv] {
            MmbItem::Conv(c1, c2) => (*c1, *c2),
            _ => {
                return Err(VerifErr::Unreachable("proof_conv_ref"));
            },
        };
        let (cc1, cc2) = match &self.store[stack_coconv] {
            MmbItem::CoConv(cc1, cc2) => (*cc1, *cc2),
            _ => {
                return Err(VerifErr::Unreachable("proof_conv_ref"));
            },
        };
        if c1 != cc1 {
            return Err(VerifErr::MakeSure("proof_conv_ref"));
        }
        if c2 != cc2 {
            return Err(VerifErr::MakeSure("proof_conv_ref"));
        }
        Ok(())
    }

    /// `ConvSave`: pop an established conversion and save it to the main
    /// heap.
    pub fn proof_conv_save(&mut self) -> (r: Res<()>)
        requires
            old(self).wf(),
        ensures
            final(self).wf(),
            *final(self) == (MmbState {
                stack: final(self).stack,
                heap: final(self).heap,
                ..*old(self)
            }),
            r is Ok <==> (old(self).stack@.len() > 0 && old(self).store@[old(self).stack@.last() as int] is Conv),
            r is Ok ==> final(self).stack@ == old(self).stack@.drop_last() && final(self).heap@
                == old(self).heap@.push(old(self).stack@.last()),
            r is Err ==> final(self).heap@ == old(self).heap@ && (final(self).stack@ == old(self).stack@ || final(self).stack@ == old(self).stack@.drop_last()),
            r matches Res::<()>::Err(e) ==> (if old(self).stack@.len() == 0 {
                e is Local
            } else {
                e is MakeSure
            }),
    {
        let p = match self.stack.pop() {
            Some(x) => x,
            None => {
                return Err(
                    VerifErr::Local(
                        "proof_conv_save",
                        Box::new(VerifErr::NoneErr("proof_conv_save")),
                    ),
                );
            },
        };
        match &self.store[p] {
            MmbItem::Conv(..) => {
                self.heap.push(p);
                Ok(())
            },
            _ => Err(VerifErr::MakeSure("proof_conv_save")),
        }
    }

    /// `Save`: the top of the main stack, which must not be a pending
    /// conversion, is copied to the main heap.
    pub fn proof_save(&mut self) -> (r: Res<()>)
        requires
            old(self).wf(),
        ensures
            final(self).wf(),
            *final(self) == (MmbState { heap: final(self).heap, ..*old(self) }),
            r is Ok <==> (old(self).stack@.len() > 0 && !(old(self).store@[old(self).stack@.last() as int] is CoConv)),
            r is Ok ==> final(self).heap@ == old(self).heap@.push(old(self).stack@.last()),
            r is Err ==> *final(self) == *old(self),
            r matches Res::<()>::Err(e) ==> (if old(self).stack@.len() == 0 {
                e is NoneErr
            } else {
                e is Msg
            }),
    {
        if self.stack.len() == 0 {
            return Err(VerifErr::NoneErr("proof_save"));
        }
        let last = self.stack[self.stack.len() - 1];
        match &self.store[last] {
            MmbItem::CoConv(..) => Err(VerifErr::Msg("Can't save co-conv".to_owned())),
            _ => {
                self.heap.push(last);
                Ok(())
            },
        }
    }

    /// `Sorry`: accept the top of the stack without proof; an expression is
    /// wrapped into a proof, an established conversion is discarded.
    pub fn proof_sorry(&mut self) -> (r: Res<()>)
        requires
            old(self).wf(),
        ensures
            final(self).wf(),
            *final(self) == (MmbState {
                store: final(self).store,
                stack: final(self).stack,
                ..*old(self)
            }),
            r is Ok <==> (old(self).stack@.len() > 0 && (old(self).store@[old(self).stack@.last() as int] is Expr || old(self).store@[old(self).stack@.last() as int] is Conv)),
            r is Ok && old(self).store@[old(self).stack@.last() as int] is Expr ==> (final(self).store@ == old(self).store@.push(MmbItem::Proof(old(self).stack@.last())) && final(self).stack@ == old(self).stack@.drop_last().push(old(self).store@.len() as usize)),
            r is Ok && old(self).store@[old(self).stack@.last() as int] is Conv ==> (final(self).store@ == old(self).store@ && final(self).stack@ == old(self).stack@.drop_last()),
            r is Err ==> final(self).store@ == old(self).store@ && (final(self).stack@ == old(self).stack@ || final(self).stack@ == old(self).stack@.drop_last()),
            r matches Res::<()>::Err(e) ==> (if old(self).stack@.len() == 0 {
                e is NoneErr
            } else {
                e is Msg
            }),
    {
        let e = match self.stack.pop() {
            Some(x) => x,
            None => {
                return Err(VerifErr::NoneErr("proof_sorry"));
            },
        };
        match &self.store[e] {
            MmbItem::Expr(_) => {
                let p = self.alloc_item(MmbItem::Proof(e));
                self.stack.push(p);
                Ok(())
            },
            MmbItem::Conv(..) => Ok(()),
            _ => Err(
                VerifErr::Msg("Sorry is only valid when an Expr or Conv is on top".to_owned()),
            ),
        }
    }

    /// `Term { tid, save }`: pop the term's arguments, check each against
    /// the signature, compute the return type with propagated dependencies,
    /// and push the new application, saving it to the heap when asked.
    pub fn proof_term(&mut self, mode: Mode, term_num: TermId, save: bool) -> (r: Res<()>)
        requires
            old(self).wf(),
        ensures
            final(self).wf(),
            *final(self) == (MmbState {
                store: final(self).store,
                stack: final(self).stack,
                heap: final(self).heap,
                ..*old(self)
            }),
            r is Ok <==> (term_num < old(self).mmb_file.terms@.len() && old(self).stack@.len()
                >= old(self).mmb_file.terms@[term_num as int].args@.len() && args_compat(
                old(self).store@,
                old(self).mmb_file.terms@[term_num as int].args@,
                old(self).stack@.subrange(
                    old(self).stack@.len() - old(self).mmb_file.terms@[term_num as int].args@.len(),
                    old(self).stack@.len() as int,
                ),
            ) && term_app_ty(
                old(self).store@,
                old(self).mmb_file.terms@[term_num as int].args@,
                old(self).mmb_file.terms@[term_num as int].ret,
                old(self).stack@.subrange(
                    old(self).stack@.len() - old(self).mmb_file.terms@[term_num as int].args@.len(),
                    old(self).stack@.len() as int,
                ),
                mode,
            ) is Some),
            r is Ok ==> {
                let arity = old(self).mmb_file.terms@[term_num as int].args@.len();
                let sa = old(self).stack@.subrange(
                    old(self).stack@.len() - arity,
                    old(self).stack@.len() as int,
                );
                &&& final(self).store@.len() == old(self).store@.len() + 1
                &&& final(self).store@.subrange(0, old(self).store@.len() as int) == old(self).store@
                &&& final(self).store@.last() matches MmbItem::Expr(MmbExpr::App {
                    term_num: tn,
                    args,
                    ty,
                }) && (tn == term_num && args@ == sa && ty.raw == term_app_ty(
                    old(self).store@,
                    old(self).mmb_file.terms@[term_num as int].args@,
                    old(self).mmb_file.terms@[term_num as int].ret,
                    sa,
                    mode,
                )->Some_0)
                &&& final(self).stack@ == old(self).stack@.subrange(
                    0,
                    old(self).stack@.len() - arity,
                ).push(old(self).store@.len() as usize)
                &&& final(self).heap@ == if save {
                    old(self).heap@.push(old(self).store@.len() as usize)
                } else {
                    old(self).heap@
                }
            },
            r is Err ==> *final(self) == *old(self),
            r matches Res::<()>::Err(e) ==> ({
                let sig = old(self).mmb_file.terms@[term_num as int].args@;
                let sa = old(self).stack@.subrange(
                    old(self).stack@.len() - sig.len(),
                    old(self).stack@.len() as int,
                );
                if !(term_num < old(self).mmb_file.terms@.len()) {
                    e is MakeSure
                } else if old(self).stack@.len() < sig.len() {
                    e is MakeSure
                } else if args_compat(old(self).store@, sig, sa) {
                    e is NoneErr
                } else if (forall|j: int|
                    0 <= j < sig.len() ==> sa[j] < old(self).store@.len() && (#[trigger] old(self).store@[sa[j] as int]).is_expr()) {
                    e is MakeSure
                } else {
                    e is Msg || e is MakeSure
                }
            }),
    {
        let file = self.mmb_file;
        let term = match file.term(term_num) {
            Some(t) => t,
            None => {
                return Err(VerifErr::MakeSure("proof_term"));
            },
        };
        let arity = term.args.len();
        if self.stack.len() < arity {
            return Err(VerifErr::MakeSure("proof_term"));
        }
        let drain_from = self.stack.len() - arity;
        let ghost sa = self.stack@.subrange(drain_from as int, self.stack@.len() as int);
        let ghost sig = term.args@;
        let mut j: usize = 0;
        while j < arity
            invariant
                self.wf(),
                *self == *old(self),
                file == old(self).mmb_file,
                term_num < file.terms@.len(),
                *term == file.terms@[term_num as int],
                sig == term.args@,
                arity == sig.len(),
                self.stack@.len() >= arity,
                self.stack@.len() <= usize::MAX,
                drain_from == self.stack@.len() - arity,
                sa == self.stack@.subrange(drain_from as int, self.stack@.len() as int),
                j <= arity,
                forall|k: int|
                    0 <= k < j ==> (sa[k] < self.store@.len() && (#[trigger] self.store@[sa[k] as int]).is_expr()
                        && spec_sorts_compatible(self.store@[sa[k] as int].spec_ty(), sig[k])),
            decreases arity - j,
        {
            let arg_ix = self.stack[drain_from + j];
            proof {
                assert(sa[j as int] == arg_ix);
            }
            let ty = match self.store[arg_ix].get_ty() {
                Ok(t) => t,
                Err(e) => {
                    return Err(e);
                },
            };
            if !crate::types::sorts_compatible(ty, term.args[j]) {
                return Err(VerifErr::MakeSure("proof_term"));
            }
            j += 1;
        }
        let mut bpos: Vec<usize> = Vec::new();
        let mut j2: usize = 0;
        while j2 < arity
            invariant
                sig == term.args@,
                arity == sig.len(),
                j2 <= arity,
                bpos@ == bsig_upto(sig, j2 as int),
            decreases arity - j2,
        {
            if term.args[j2].bound() {
                bpos.push(j2);
            }
            j2 += 1;
        }
        let ghost bposg = bsig_upto(sig, arity as int);
        proof {
            lemma_bsig_upto_range(sig, arity as int);
        }
        let nb = bpos.len();
        let ghost ret = term.ret;
        let sort_hi: u64 = (term.ret().sort() as u64) << 56;
        let mut accum: u64 = sort_hi;
        let mut j3: usize = 0;
        while j3 < arity
            invariant
                self.wf(),
                *self == *old(self),
                file == old(self).mmb_file,
                term_num < file.terms@.len(),
                *term == file.terms@[term_num as int],
                sig == term.args@,
                ret == term.ret,
                arity == sig.len(),
                self.stack@.len() >= arity,
                self.stack@.len() <= usize::MAX,
                drain_from == self.stack@.len() - arity,
                sa == self.stack@.subrange(drain_from as int, self.stack@.len() as int),
                args_compat(self.store@, sig, sa),
                bpos@ == bposg,
                bposg == bsig_upto(sig, arity as int),
                nb == bpos@.len(),
                forall|k: int| 0 <= k < bposg.len() ==> #[trigger] bposg[k] < arity,
                sort_hi == (ret.spec_sort() as u64) << 56,
                j3 <= arity,
                accum_after(self.store@, sig, sa, bposg, mode, sort_hi, j3 as int) == Some(accum),
            decreases arity - j3,
        {
            if !term.args[j3].bound() {
                let arg_ix = self.stack[drain_from + j3];
                proof {
                    assert(sa[j3 as int] == arg_ix);
                    assert(self.store@[arg_ix as int].is_expr());
                }
                let lb0 = self.store[arg_ix].low_bits();
                let mut lb: u64 = lb0.raw;
                if mode == Mode::Def {
                    let mut k: usize = 0;
                    while k < nb
                        invariant
                            self.wf(),
                            *self == *old(self),
                            file == old(self).mmb_file,
                            term_num < file.terms@.len(),
                            *term == file.terms@[term_num as int],
                            sig == term.args@,
                            arity == sig.len(),
                            self.stack@.len() >= arity,
                            self.stack@.len() <= usize::MAX,
                            drain_from == self.stack@.len() - arity,
                            sa == self.stack@.subrange(drain_from as int, self.stack@.len() as int),
                            bpos@ == bposg,
                            nb == bpos@.len(),
                            forall|k2: int| 0 <= k2 < bposg.len() ==> #[trigger] bposg[k2] < arity,
                            j3 < arity,
                            !sig[j3 as int].spec_bound(),
                            lb0.raw == self.store@[sa[j3 as int] as int].spec_ty().raw
                                & TYPE_DEPS_MASK,
                            mode == Mode::Def,
                            ret == term.ret,
                            args_compat(self.store@, sig, sa),
                            sort_hi == (ret.spec_sort() as u64) << 56,
                            bposg == bsig_upto(sig, arity as int),
                            accum_after(self.store@, sig, sa, bposg, mode, sort_hi, j3 as int)
                                == Some(accum),
                            k <= nb,
                            lb_after(self.store@, sa, bposg, sig[j3 as int], lb0.raw, k as int)
                                == Some(lb),
                        decreases nb - k,
                    {
                        if term.args[j3].depends_on(k as u64) {
                            let b_ix = self.stack[drain_from + bpos[k]];
                            proof {
                                assert(sa[bposg[k as int] as int] == b_ix);
                            }
                            let d = match self.store[b_ix].get_bound_digit() {
                                Ok(d) => d,
                                Err(e) => {
                                    proof {
                                        assert(lb_after(
                                            self.store@,
                                            sa,
                                            bposg,
                                            sig[j3 as int],
                                            lb0.raw,
                                            k as int + 1,
                                        ) is None);
                                        lemma_lb_after_none(
                                            self.store@,
                                            sa,
                                            bposg,
                                            sig[j3 as int],
                                            lb0.raw,
                                            k as int + 1,
                                            nb as int,
                                        );
                                        assert(accum_after(
                                            self.store@,
                                            sig,
                                            sa,
                                            bposg,
                                            mode,
                                            sort_hi,
                                            j3 as int + 1,
                                        ) is None);
                                        lemma_accum_after_none(
                                            self.store@,
                                            sig,
                                            sa,
                                            bposg,
                                            mode,
                                            sort_hi,
                                            j3 as int + 1,
                                            arity as int,
                                        );
                                    }
                                    return Err(e);
                                },
                            };
                            lb = lb & !d.raw;
                        }
                        k += 1;
                    }
                }
                accum = accum | lb;
            }
            j3 += 1;
        }
        if mode == Mode::Def && term.ret().has_deps() {
            let ghost acc_base = accum;
            let mut k: usize = 0;
            while k < nb
                invariant
                    self.wf(),
                    *self == *old(self),
                    file == old(self).mmb_file,
                    term_num < file.terms@.len(),
                    *term == file.terms@[term_num as int],
                    sig == term.args@,
                    ret == term.ret,
                    arity == sig.len(),
                    self.stack@.len() >= arity,
                    self.stack@.len() <= usize::MAX,
                    drain_from == self.stack@.len() - arity,
                    sa == self.stack@.subrange(drain_from as int, self.stack@.len() as int),
                    bpos@ == bposg,
                    bposg == bsig_upto(sig, arity as int),
                    nb == bpos@.len(),
                    forall|k2: int| 0 <= k2 < bposg.len() ==> #[trigger] bposg[k2] < arity,
                    sort_hi == (ret.spec_sort() as u64) << 56,
                    mode == Mode::Def,
                    args_compat(self.store@, sig, sa),
                    ret.spec_has_deps(),
                    accum_after(self.store@, sig, sa, bposg, mode, sort_hi, arity as int) == Some(
                        acc_base,
                    ),
                    k <= nb,
                    ret_after(self.store@, sa, bposg, ret, acc_base, k as int) == Some(accum),
                decreases nb - k,
            {
                if term.ret().depends_on(k as u64) {
                    let b_ix = self.stack[drain_from + bpos[k]];
                    proof {
                        assert(sa[bposg[k as int] as int] == b_ix);
                    }
                    let d = match self.store[b_ix].get_bound_digit() {
                        Ok(d) => d,
                        Err(e) => {
                            proof {
                                assert(ret_after(
                                    self.store@,
                                    sa,
                                    bposg,
                                    ret,
                                    acc_base,
                                    k as int + 1,
                                ) is None);
                                lemma_ret_after_none(
                                    self.store@,
                                    sa,
                                    bposg,
                                    ret,
                                    acc_base,
                                    k as int + 1,
                                    nb as int,
                                );
                            }
                            return Err(e);
                        },
                    };
                    accum = accum | d.raw;
                }
                k += 1;
            }
        }
        proof {
            assert(term_app_ty(self.store@, sig, ret, sa, mode) == Some(accum));
        }
        let mut args_out: Vec<usize> = Vec::new();
        let mut j4: usize = 0;
        while j4 < arity
            invariant
                self.wf(),
                *self == *old(self),
                arity <= self.stack@.len(),
                self.stack@.len() <= usize::MAX,
                drain_from == self.stack@.len() - arity,
                sa == self.stack@.subrange(drain_from as int, self.stack@.len() as int),
                j4 <= arity,
                args_out@ == sa.subrange(0, j4 as int),
            decreases arity - j4,
        {
            args_out.push(self.stack[drain_from + j4]);
            proof {
                assert(args_out@ =~= sa.subrange(0, j4 as int + 1));
            }
            j4 += 1;
        }
        proof {
            assert(args_out@ =~= sa);
        }
        self.stack.truncate(drain_from);
        let ix = self.alloc_item(
            MmbItem::Expr(MmbExpr::App { term_num, args: args_out, ty: Type::new(accum) }),
        );
        if save {
            self.heap.push(ix);
        }
        self.stack.push(ix);
        proof {
            assert(self.store@.subrange(0, old(self).store@.len() as int) =~= old(self).store@);
        }
        Ok(())
    }

    /// `Thm { tid, save }`: pop the alleged conclusion, copy the theorem's
    /// arguments into the unify heap, enforce the disjointness discipline on
    /// bound arguments and the dependency discipline on the others, run the
    /// theorem's unification stream against the conclusion, and push the
    /// proof, saving it when asked.
    pub fn proof_thm(&mut self, thm_num: ThmId, save: bool) -> (r: Res<()>)
        requires
            old(self).wf(),
            old(self).proof_step_checksum is Some,
            old(self).cur_subunify_step == 0,
        ensures
            final(self).wf(),
            final(self).next_bv == old(self).next_bv,
            final(self).stmt == old(self).stmt,
            final(self).debug_params == old(self).debug_params,
            final(self).mmb_file == old(self).mmb_file,
            final(self).mm1_env == old(self).mm1_env,
            final(self).stmt_binders == old(self).stmt_binders,
            final(self).hstack@ == old(self).hstack@,
            final(self).proof_states@.len() >= old(self).proof_states@.len() && final(self).proof_states@.subrange(0, old(self).proof_states@.len() as int) == old(self).proof_states@,
            final(self).unify_states@.len() >= old(self).unify_states@.len() && final(self).unify_states@.subrange(0, old(self).unify_states@.len() as int) == old(self).unify_states@,
            r matches Res::<()>::Err(e) ==> ({
                let sig = old(self).mmb_file.thms@[thm_num as int].args@;
                let sa = old(self).stack@.subrange(
                    old(self).stack@.len() - 1 - sig.len(),
                    old(self).stack@.len() - 1,
                );
                if !(thm_num < old(self).mmb_file.thms@.len()) {
                    e is MakeSure
                } else if old(self).stack@.len() == 0 {
                    e is NoneErr
                } else if old(self).stack@.len() < sig.len() + 1 {
                    e is MakeSure
                } else if ((forall|x: int|
                    0 <= x < sig.len() ==> sa[x] < old(self).store@.len() && (#[trigger] old(self).store@[sa[x] as int]).is_expr()) && (forall|y: int|
                    0 <= y < old(self).uheap@.len() ==> old(self).uheap@[y] < old(self).store@.len() && (#[trigger] old(self).store@[old(self).uheap@[y] as int]).is_expr()) && !(thm_bound_disjoint_ok(
                    old(self).store@,
                    old(self).uheap@ + sa,
                    sig,
                    sa,
                ) && thm_unbound_deps_ok(old(self).store@, sig, sa))) {
                    e is MakeSure
                } else {
                    true
                }
            }),
            r is Ok ==> (thm_num < old(self).mmb_file.thms@.len() && old(self).stack@.len() >= 1
                + old(self).mmb_file.thms@[thm_num as int].args@.len()),
            thm_quiet_ok(*old(self), thm_num) ==> r is Ok,
            r is Ok ==> {
                let arity = old(self).mmb_file.thms@[thm_num as int].args@.len();
                let a = old(self).stack@.last();
                let sa = old(self).stack@.subrange(
                    old(self).stack@.len() - 1 - arity,
                    old(self).stack@.len() - 1,
                );
                &&& thm_bound_disjoint_ok(
                    old(self).store@,
                    old(self).uheap@ + sa,
                    old(self).mmb_file.thms@[thm_num as int].args@,
                    sa,
                )
                &&& thm_unbound_deps_ok(
                    old(self).store@,
                    old(self).mmb_file.thms@[thm_num as int].args@,
                    sa,
                )
                &&& final(self).store@ == old(self).store@.push(MmbItem::Proof(a))
                &&& final(self).heap@ == if save {
                    old(self).heap@.push(old(self).store@.len() as usize)
                } else {
                    old(self).heap@
                }
                &&& final(self).ustack@.len() == 0
                &&& final(self).uheap@.len() == 0
                &&& final(self).stack@.len() >= 1
                &&& final(self).stack@.last() == old(self).store@.len()
                &&& final(self).stack@.drop_last().len() <= old(self).stack@.len() - 1 - arity
                &&& final(self).stack@.drop_last() == old(self).stack@.subrange(
                    0,
                    final(self).stack@.len() - 1,
                )
                &&& final(self).cur_proof_step == old(self).cur_proof_step + old(self).mmb_file.thms@[thm_num as int].unify@.len() + 1
                &&& old(self).proof_step_checksum->Some_0 + old(self).mmb_file.thms@[thm_num as int].unify@.len() + 1 <= usize::MAX
                &&& final(self).proof_step_checksum == Some(
                    (old(self).proof_step_checksum->Some_0 + old(self).mmb_file.thms@[thm_num as int].unify@.len() + 1) as usize,
                )
                &&& final(self).cur_subunify_step == 0
                &&& final(self).cur_unify_step == old(self).cur_unify_step
                &&& final(self).unify_step_checksum == old(self).unify_step_checksum
                &&& final(self).unify_states == old(self).unify_states
            },
    {
        let file = self.mmb_file;
        let thm = match file.thm(thm_num) {
            Some(t) => t,
            None => {
                return Err(VerifErr::MakeSure("proof_thm"));
            },
        };
        let arity = thm.args.len();
        let a = match self.stack.pop() {
            Some(x) => x,
            None => {
                return Err(VerifErr::NoneErr("proof_thm"));
            },
        };
        if self.stack.len() < arity {
            return Err(VerifErr::MakeSure("proof_thm"));
        }
        let drain_from = self.stack.len() - arity;
        let ghost sa = self.stack@.subrange(drain_from as int, self.stack@.len() as int);
        let ghost sig = thm.args@;
        let ghost uheap0 = self.uheap@;
        proof {
            assert(sa =~= old(self).stack@.subrange(
                old(self).stack@.len() - 1 - arity,
                old(self).stack@.len() - 1,
            ));
        }
        let mut q: usize = 0;
        while q < arity
            invariant
                self.wf(),
                q <= arity,
                arity <= self.stack@.len(),
                self.stack@.len() <= usize::MAX,
                drain_from == self.stack@.len() - arity,
                sa == self.stack@.subrange(drain_from as int, self.stack@.len() as int),
                self.uheap@ == uheap0 + sa.subrange(0, q as int),
                *self == (MmbState { uheap: self.uheap, stack: self.stack, ..*old(self) }),
                self.stack@ == old(self).stack@.drop_last(),
                old(self).stack@.len() > 0,
            decreases arity - q,
        {
            let elem = self.stack[drain_from + q];
            self.uheap.push(elem);
            proof {
                assert(self.uheap@ =~= uheap0 + sa.subrange(0, q as int + 1));
            }
            q += 1;
        }
        proof {
            assert(self.uheap@ =~= uheap0 + sa);
        }
        let ghost uheapx = self.uheap@;
        let mut i: usize = 0;
        while i < arity
            invariant
                self.wf(),
                i <= arity,
                arity == sig.len(),
                arity <= self.stack@.len(),
                self.stack@.len() <= usize::MAX,
                drain_from == self.stack@.len() - arity,
                sa == self.stack@.subrange(drain_from as int, self.stack@.len() as int),
                sig == old(self).mmb_file.thms@[thm_num as int].args@,
                thm_num < old(self).mmb_file.thms@.len(),
                self.uheap@ == uheapx,
                uheapx.len() >= arity,
                uheapx == old(self).uheap@ + sa,
                self.stack@ == old(self).stack@.drop_last(),
                old(self).stack@.len() > 0,
                *self == (MmbState { uheap: self.uheap, stack: self.stack, ..*old(self) }),
                forall|i2: int, j2: int|
                    0 <= i2 < i && sig[i2].spec_bound() && 0 <= j2 < i2 ==> thm_pair_disjoint(
                        self.store@,
                        uheapx,
                        sa,
                        i2,
                        j2,
                    ),
            decreases arity - i,
        {
            if self.mmb_file.thms[thm_num as usize].args[i].bound() {
                let arg_ix = self.stack[drain_from + i];
                proof {
                    assert(sa[i as int] == arg_ix);
                }
                let ty_i = match self.store[arg_ix].get_ty() {
                    Ok(t) => t,
                    Err(e) => {
                        proof {
                            assert(sa =~= old(self).stack@.subrange(
                                old(self).stack@.len() - 1 - sig.len(),
                                old(self).stack@.len() - 1,
                            ));
                            assert(!(old(self).store@[sa[i as int] as int]).is_expr());
                        }
                        return Err(e);
                    },
                };
                let low_i = ty_i.raw & TYPE_DEPS_MASK;
                let mut j: usize = 0;
                while j < i
                    invariant
                        self.wf(),
                        j <= i,
                        i < arity,
                        arity == sig.len(),
                        sig == old(self).mmb_file.thms@[thm_num as int].args@,
                        thm_num < old(self).mmb_file.thms@.len(),
                        arity <= self.stack@.len(),
                        self.stack@.len() <= usize::MAX,
                        drain_from == self.stack@.len() - arity,
                        sa == self.stack@.subrange(drain_from as int, self.stack@.len() as int),
                        self.uheap@ == uheapx,
                        uheapx.len() >= arity,
                        uheapx == old(self).uheap@ + sa,
                        self.stack@ == old(self).stack@.drop_last(),
                        old(self).stack@.len() > 0,
                        sig[i as int].spec_bound(),
                        sa[i as int] == arg_ix,
                        arg_ix < self.store@.len(),
                        self.store@[arg_ix as int].is_expr(),
                        low_i == self.store@[arg_ix as int].spec_ty().raw
                            & TYPE_DEPS_MASK,
                        *self == (MmbState {
                            uheap: self.uheap,
                            stack: self.stack,
                            ..*old(self)
                        }),
                        forall|j2: int|
                            0 <= j2 < j ==> thm_pair_disjoint(self.store@, uheapx, sa, i as int, j2),
                    decreases i - j,
                {
                    let h_ix = self.uheap[j];
                    let ty_j = match self.store[h_ix].get_ty() {
                        Ok(t) => t,
                        Err(e) => {
                            proof {
                                assert(sa =~= old(self).stack@.subrange(
                                old(self).stack@.len() - 1 - sig.len(),
                                old(self).stack@.len() - 1,
                            ));
                                if j < old(self).uheap@.len() {
                                    assert(!(old(self).store@[old(
                                        self,
                                    ).uheap@[j as int] as int]).is_expr());
                                } else {
                                    assert(!(old(self).store@[sa[j - old(
                                        self,
                                    ).uheap@.len()] as int]).is_expr());
                                }
                            }
                            return Err(e);
                        },
                    };
                    if ty_j.raw & low_i & TYPE_DEPS_MASK != 0 {
                        proof {
                            if thm_quiet_ok(*old(self), thm_num) {
                                assert(sa =~= old(self).stack@.subrange(
                                old(self).stack@.len() - 1 - sig.len(),
                                old(self).stack@.len() - 1,
                            ));
                                assert(!thm_pair_disjoint(self.store@, uheapx, sa, i as int, j as int));
                                assert(false);
                            }
                        }
                        return Err(VerifErr::MakeSure("proof_thm"));
                    }
                    j += 1;
                }
            }
            i += 1;
        }
        let mut bpos: Vec<usize> = Vec::new();
        let mut j2: usize = 0;
        while j2 < arity
            invariant
                sig == old(self).mmb_file.thms@[thm_num as int].args@,
                thm_num < old(self).mmb_file.thms@.len(),
                *self == (MmbState { uheap: self.uheap, stack: self.stack, ..*old(self) }),
                arity == sig.len(),
                j2 <= arity,
                bpos@ == bsig_upto(sig, j2 as int),
            decreases arity - j2,
        {
            if self.mmb_file.thms[thm_num as usize].args[j2].bound() {
                bpos.push(j2);
            }
            j2 += 1;
        }
        let ghost bposg = bsig_upto(sig, arity as int);
        proof {
            lemma_bsig_upto_range(sig, arity as int);
        }
        let nb = bpos.len();
        let mut i: usize = 0;
        while i < arity
            invariant
                self.wf(),
                i <= arity,
                arity == sig.len(),
                arity <= self.stack@.len(),
                self.stack@.len() <= usize::MAX,
                drain_from == self.stack@.len() - arity,
                sa == self.stack@.subrange(drain_from as int, self.stack@.len() as int),
                sig == old(self).mmb_file.thms@[thm_num as int].args@,
                thm_num < old(self).mmb_file.thms@.len(),
                bpos@ == bposg,
                bposg == bsig_upto(sig, arity as int),
                nb == bpos@.len(),
                forall|k2: int| 0 <= k2 < bposg.len() ==> #[trigger] bposg[k2] < arity,
                self.stack@ == old(self).stack@.drop_last(),
                old(self).stack@.len() > 0,
                *self == (MmbState { uheap: self.uheap, stack: self.stack, ..*old(self) }),
                forall|i2: int, j2: int|
                    0 <= i2 < i && !sig[i2].spec_bound() && 0 <= j2 < bposg.len()
                        ==> thm_dep_ok(self.store@, sig, sa, bposg, i2, j2),
            decreases arity - i,
        {
            if !self.mmb_file.thms[thm_num as usize].args[i].bound() {
                let arg_ix = self.stack[drain_from + i];
                proof {
                    assert(sa[i as int] == arg_ix);
                }
                let ty_i = match self.store[arg_ix].get_ty() {
                    Ok(t) => t,
                    Err(e) => {
                        proof {
                            assert(sa =~= old(self).stack@.subrange(
                                old(self).stack@.len() - 1 - sig.len(),
                                old(self).stack@.len() - 1,
                            ));
                            assert(!(old(self).store@[sa[i as int] as int]).is_expr());
                        }
                        return Err(e);
                    },
                };
                let low_i = ty_i.raw & TYPE_DEPS_MASK;
                let sig_i = self.mmb_file.thms[thm_num as usize].args[i];
                let mut j: usize = 0;
                while j < nb
                    invariant
                        self.wf(),
                        j <= nb,
                        i < arity,
                        arity == sig.len(),
                        sig == old(self).mmb_file.thms@[thm_num as int].args@,
                        thm_num < old(self).mmb_file.thms@.len(),
                        arity <= self.stack@.len(),
                        self.stack@.len() <= usize::MAX,
                        drain_from == self.stack@.len() - arity,
                        sa == self.stack@.subrange(drain_from as int, self.stack@.len() as int),
                        bpos@ == bposg,
                        nb == bpos@.len(),
                        bposg == bsig_upto(sig, arity as int),
                        forall|k2: int| 0 <= k2 < bposg.len() ==> #[trigger] bposg[k2] < arity,
                        self.stack@ == old(self).stack@.drop_last(),
                        old(self).stack@.len() > 0,
                        sa[i as int] == arg_ix,
                        arg_ix < self.store@.len(),
                        self.store@[arg_ix as int].is_expr(),
                        !sig[i as int].spec_bound(),
                        sig_i == sig[i as int],
                        low_i == self.store@[arg_ix as int].spec_ty().raw
                            & TYPE_DEPS_MASK,
                        *self == (MmbState {
                            uheap: self.uheap,
                            stack: self.stack,
                            ..*old(self)
                        }),
                        forall|j2: int|
                            0 <= j2 < j ==> thm_dep_ok(self.store@, sig, sa, bposg, i as int, j2),
                    decreases nb - j,
                {
                    if j >= 64 {
                        proof {
                            assert(bposg == bsig_upto(sig, sig.len() as int));
                            assert(!thm_dep_ok(self.store@, sig, sa, bposg, i as int, j as int));
                            if thm_quiet_ok(*old(self), thm_num) {
                                assert(sa =~= old(self).stack@.subrange(
                                old(self).stack@.len() - 1 - sig.len(),
                                old(self).stack@.len() - 1,
                            ));
                                assert(false);
                            }
                        }
                        return Err(VerifErr::MakeSure("proof_thm"));
                    }
                    let sig_disj = sig_i.raw & (1u64 << (j as u64)) & TYPE_DEPS_MASK
                        == 0;
                    if sig_disj {
                        let b_ix = self.stack[drain_from + bpos[j]];
                        proof {
                            assert(sa[bposg[j as int] as int] == b_ix);
                        }
                        let ty_j = match self.store[b_ix].get_ty() {
                            Ok(t) => t,
                            Err(e) => {
                                proof {
                                    assert(sa =~= old(self).stack@.subrange(
                                old(self).stack@.len() - 1 - sig.len(),
                                old(self).stack@.len() - 1,
                            ));
                                    assert(!(old(self).store@[sa[bposg[j as int] as int] as int]).is_expr());
                                }
                                return Err(e);
                            },
                        };
                        let low_j = ty_j.raw & TYPE_DEPS_MASK;
                        if low_j & low_i & TYPE_DEPS_MASK != 0 {
                            proof {
                                if thm_quiet_ok(*old(self), thm_num) {
                                    assert(sa =~= old(self).stack@.subrange(
                                old(self).stack@.len() - 1 - sig.len(),
                                old(self).stack@.len() - 1,
                            ));
                                    assert(bposg == bsig_upto(sig, sig.len() as int));
                                    assert(!thm_dep_ok(self.store@, sig, sa, bposg, i as int, j as int));
                                    assert(false);
                                }
                            }
                            return Err(VerifErr::MakeSure("proof_thm"));
                        }
                    }
                    j += 1;
                }
            }
            i += 1;
        }
        self.stack.truncate(drain_from);
        let finish = Finish::Thm { proof_step: self.cur_proof_step, thm_id: thm_num, save, proof: a };
        proof {
            if thm_quiet_ok(*old(self), thm_num) {
                assert(self.stack@ =~= old(self).stack@.subrange(
                    0,
                    old(self).stack@.len() - 1 - sig.len(),
                ));
                assert(sa =~= old(self).stack@.subrange(
                    old(self).stack@.len() - 1 - sig.len(),
                    old(self).stack@.len() - 1,
                ));
                assert(quiet_run_ok(
                    *self,
                    UMode::UThm,
                    file.thms@[thm_num as int].unify@,
                    a,
                    Some(finish),
                ));
            }
        }
        match self.run_unify(UMode::UThm, &file.thms[thm_num as usize].unify, a, Some(finish)) {
            Ok(()) => {},
            Err(e) => {
                proof {
                    if thm_quiet_ok(*old(self), thm_num) {
                        assert(false);
                    }
                }
                return Err(e);
            },
        }
        let p = self.alloc_item(MmbItem::Proof(a));
        if save {
            self.heap.push(p);
        }
        self.stack.push(p);
        proof {
            assert(self.stack@.drop_last() =~= old(self).stack@.subrange(
                0,
                self.stack@.len() - 1,
            ));
            assert(sa =~= old(self).stack@.subrange(
                old(self).stack@.len() - 1 - arity,
                old(self).stack@.len() - 1,
            ));
            assert(uheap0 + sa =~= old(self).uheap@ + sa);
        }
        Ok(())
    }

    /// `Unfold`: pop the unfolded form and the application of a definition;
    /// with the unify heap holding exactly the application's arguments, run
    /// the definition's unification stream against the unfolded form, then
    /// recombine what it left into one pending conversion.
    pub fn proof_unfold(&mut self) -> (r: Res<()>)
        requires
            old(self).wf(),
            old(self).proof_step_checksum is Some,
            old(self).cur_subunify_step == 0,
        ensures
            final(self).wf(),
            final(self).next_bv == old(self).next_bv,
            final(self).stmt == old(self).stmt,
            final(self).debug_params == old(self).debug_params,
            final(self).mmb_file == old(self).mmb_file,
            final(self).mm1_env == old(self).mm1_env,
            final(self).heap@ == old(self).heap@,
            final(self).hstack@ == old(self).hstack@,
            final(self).proof_states@.len() >= old(self).proof_states@.len() && final(self).proof_states@.subrange(0, old(self).proof_states@.len() as int) == old(self).proof_states@,
            final(self).unify_states@.len() >= old(self).unify_states@.len() && final(self).unify_states@.subrange(0, old(self).unify_states@.len() as int) == old(self).unify_states@,
            r matches Res::<()>::Err(e) ==> (if old(self).stack@.len() < 2 {
                e is NoneErr
            } else if old(self).store@[old(self).stack@[old(self).stack@.len() - 2] as int] matches MmbItem::Expr(MmbExpr::App { .. }) {
                if old(self).uheap@.len() != 0 {
                    e is MakeSure
                } else if !(old(self).store@[old(self).stack@[old(self).stack@.len()
                    - 2] as int]->Expr_0->App_term_num < old(self).mmb_file.terms@.len()) {
                    e is NoneErr
                } else {
                    true
                }
            } else {
                e is Unreachable
            }),
            r is Ok ==> (old(self).stack@.len() >= 2 && old(self).uheap@.len() == 0 && (old(self).store@[old(self).stack@[old(self).stack@.len() - 2] as int] matches MmbItem::Expr(
                MmbExpr::App { term_num, .. },
            ) && term_num < old(self).mmb_file.terms@.len())),
            unfold_quiet_ok(*old(self)) ==> r is Ok,
            r is Ok ==> {
                let e_prime = old(self).stack@.last();
                let f_ebar = old(self).stack@[old(self).stack@.len() - 2];
                let tid = old(self).store@[f_ebar as int]->Expr_0->App_term_num;
                &&& final(self).store@.len() == old(self).store@.len() + 1
                &&& final(self).store@.subrange(0, old(self).store@.len() as int) == old(self).store@
                &&& final(self).store@.last() matches MmbItem::CoConv(x, _) && x == e_prime
                &&& final(self).stack@.len() >= 1
                &&& final(self).stack@.last() == old(self).store@.len()
                &&& final(self).ustack@.len() == 0
                &&& final(self).uheap@.len() == 0
                &&& final(self).cur_proof_step == old(self).cur_proof_step + old(self).mmb_file.terms@[tid as int].unify@.len() + 1
                &&& old(self).proof_step_checksum->Some_0 + old(self).mmb_file.terms@[tid as int].unify@.len() + 1 <= usize::MAX
                &&& final(self).proof_step_checksum == Some(
                    (old(self).proof_step_checksum->Some_0 + old(self).mmb_file.terms@[tid as int].unify@.len() + 1) as usize,
                )
                &&& final(self).cur_subunify_step == 0
                &&& final(self).cur_unify_step == old(self).cur_unify_step
                &&& final(self).unify_step_checksum == old(self).unify_step_checksum
                &&& final(self).unify_states == old(self).unify_states
            },
    {
        let e_prime = match self.stack.pop() {
            Some(x) => x,
            None => {
                return Err(VerifErr::NoneErr("proof_unfold"));
            },
        };
        let f_ebar = match self.stack.pop() {
            Some(x) => x,
            None => {
                return Err(VerifErr::NoneErr("proof_unfold"));
            },
        };
        proof {
            assert(crate::item::item_bounded(self.store@[f_ebar as int], f_ebar as int));
        }
        let (term_num, ebar): (TermId, Vec<usize>) = match &self.store[f_ebar] {
            MmbItem::Expr(MmbExpr::App { term_num, args, .. }) => {
                let a = args.clone();
                proof {
                    assert(a@ =~= args@);
                }
                (*term_num, a)
            },
            _ => {
                return Err(VerifErr::Unreachable("proof_unfold"));
            },
        };
        if self.uheap.len() != 0 {
            return Err(VerifErr::MakeSure("proof_unfold"));
        }
        let n = ebar.len();
        let mut q: usize = 0;
        while q < n
            invariant
                self.wf(),
                q <= n,
                n == ebar@.len(),
                forall|k: int| 0 <= k < n ==> ebar@[k] < self.store@.len(),
                self.uheap@ == ebar@.subrange(0, q as int),
                *self == (MmbState { uheap: self.uheap, stack: self.stack, ..*old(self) }),
                self.stack@ == old(self).stack@.drop_last().drop_last(),
                old(self).stack@.len() >= 2,
            decreases n - q,
        {
            self.uheap.push(ebar[q]);
            proof {
                assert(self.uheap@ =~= ebar@.subrange(0, q as int + 1));
            }
            q += 1;
        }
        let file = self.mmb_file;
        let term = match file.term(term_num) {
            Some(t) => t,
            None => {
                return Err(VerifErr::NoneErr("proof_unfold"));
            },
        };
        let finish = Finish::Unfold { proof_step: self.cur_proof_step, e1: f_ebar, e2: e_prime };
        proof {
            if unfold_quiet_ok(*old(self)) {
                assert(self.stack@ =~= old(self).stack@.subrange(
                    0,
                    old(self).stack@.len() - 2,
                ));
                assert(self.uheap@ =~= old(self).store@[f_ebar as int]->Expr_0->App_args@);
                assert(quiet_run_ok(
                    *self,
                    UMode::UDef,
                    file.terms@[term_num as int].unify@,
                    e_prime,
                    Some(finish),
                ));
            }
        }
        match self.run_unify(UMode::UDef, &term.unify, e_prime, Some(finish)) {
            Ok(()) => {},
            Err(e) => {
                proof {
                    if unfold_quiet_ok(*old(self)) {
                        assert(false);
                    }
                }
                return Err(e);
            },
        }
        let cc = match self.stack.pop() {
            Some(x) => x,
            None => {
                proof {
                    if unfold_quiet_ok(*old(self)) {
                        assert(false);
                    }
                }
                return Err(VerifErr::NoneErr("proof_unfold"));
            },
        };
        let (f_ebar2, e_doubleprime) = match &self.store[cc] {
            MmbItem::CoConv(a, b) => (*a, *b),
            _ => {
                proof {
                    if unfold_quiet_ok(*old(self)) {
                        assert(cc == old(self).stack@[old(self).stack@.len() - 3]);
                        assert(false);
                    }
                }
                return Err(VerifErr::Unreachable("proof_unfold"));
            },
        };
        if f_ebar != f_ebar2 {
            proof {
                if unfold_quiet_ok(*old(self)) {
                    assert(cc == old(self).stack@[old(self).stack@.len() - 3]);
                    assert(false);
                }
            }
            return Err(VerifErr::MakeSure("proof_unfold"));
        }
        proof {
            assert(crate::item::item_bounded(self.store@[cc as int], cc as int));
        }
        let coconv = self.alloc_item(MmbItem::CoConv(e_prime, e_doubleprime));
        self.stack.push(coconv);
        proof {
            assert(self.store@.subrange(0, old(self).store@.len() as int) =~= old(self).store@);
        }
        Ok(())
    }

    /// Runs the proof stream of one declaration: before each command the
    /// recorder fires, then the command executes; after the stream the
    /// terminal step is recorded, where the executed count must equal the
    /// pre-counted checksum.
    pub fn run_proof(&mut self, mode: Mode, proof: &ProofIter) -> (r: Res<()>)
        requires
            old(self).wf(),
            old(self).proof_step_checksum is None,
            old(self).cur_proof_step == 0,
            old(self).cur_subunify_step == 0,
        ensures
            final(self).wf(),
            final(self).stmt == old(self).stmt,
            final(self).debug_params == old(self).debug_params,
            final(self).mmb_file == old(self).mmb_file,
            final(self).mm1_env == old(self).mm1_env,
            final(self).proof_states@.len() >= old(self).proof_states@.len() && final(self).proof_states@.subrange(0, old(self).proof_states@.len() as int) == old(self).proof_states@,
            final(self).unify_states@.len() >= old(self).unify_states@.len() && final(self).unify_states@.subrange(0, old(self).unify_states@.len() as int) == old(self).unify_states@,
            proof.cmds@.len() == 0 && old(self).debug_params.stepnum is None ==> r is Ok,
            r is Ok ==> {
                &&& final(self).proof_step_checksum matches Some(c) && final(self).cur_proof_step
                    == c + 1
                &&& final(self).cur_subunify_step == 0
                &&& final(self).cur_unify_step == old(self).cur_unify_step
                &&& final(self).unify_step_checksum == old(self).unify_step_checksum
                &&& final(self).unify_states == old(self).unify_states
                &&& (mode == Mode::Def ==> final(self).hstack@ == old(self).hstack@)
            },
    {
        let plen = proof_len(proof);
        self.proof_step_checksum = Some(plen);
        let n = plen;
        let mut k: usize = 0;
        while k < n
            invariant
                self.wf(),
                k <= n,
                n == proof.cmds@.len(),
                self.stmt == old(self).stmt,
                self.debug_params == old(self).debug_params,
                self.mmb_file == old(self).mmb_file,
                self.mm1_env == old(self).mm1_env,
                self.proof_step_checksum matches Some(c) && c >= n && self.cur_proof_step == k + c
                    - n,
                k == 0 ==> self.proof_step_checksum == Some(n) && self.cur_proof_step == 0,
                self.cur_subunify_step == 0,
                self.cur_unify_step == old(self).cur_unify_step,
                self.unify_step_checksum == old(self).unify_step_checksum,
                self.unify_states == old(self).unify_states,
                self.proof_states@.len() >= old(self).proof_states@.len() && self.proof_states@.subrange(0, old(self).proof_states@.len() as int) == old(self).proof_states@,
                mode == Mode::Def ==> self.hstack@ == old(self).hstack@,
            decreases n - k,
        {
            let cmd = proof.cmds[k];
            match self.snap_proof(mode, Some(cmd)) {
                Ok(()) => {},
                Err(e) => {
                    return Err(e);
                },
            }
            proof {
                assert(self.proof_states@.subrange(0, old(self).proof_states@.len() as int)
                    =~= old(self).proof_states@);
            }
            let step = match cmd {
                ProofCmd::Ref(i) => self.proof_ref(i),
                ProofCmd::Dummy(sort_num) => self.proof_dummy(sort_num),
                ProofCmd::Term { tid, save } => self.proof_term(mode, tid, save),
                ProofCmd::Thm { tid, save } => self.proof_thm(tid, save),
                ProofCmd::Hyp => self.proof_hyp(mode),
                ProofCmd::Conv => self.proof_conv(),
                ProofCmd::Refl => self.proof_refl(),
                ProofCmd::Sym => self.proof_sym(),
                ProofCmd::Cong => self.proof_cong(),
                ProofCmd::Unfold => self.proof_unfold(),
                ProofCmd::ConvCut => self.proof_conv_cut(),
                ProofCmd::ConvRef(i) => self.proof_conv_ref(i),
                ProofCmd::ConvSave => self.proof_conv_save(),
                ProofCmd::Save => self.proof_save(),
                ProofCmd::Sorry => self.proof_sorry(),
            };
            proof {
                let ghost mid = self.proof_states@;
                if step is Ok {
                    assert(self.proof_states@.subrange(0, old(self).proof_states@.len() as int)
                        =~= old(self).proof_states@);
                }
            }
            match step {
                Ok(()) => {},
                Err(e) => {
                    proof {
                        assert(self.proof_states@.subrange(
                            0,
                            old(self).proof_states@.len() as int,
                        ) =~= old(self).proof_states@);
                        assert(self.unify_states@.subrange(
                            0,
                            old(self).unify_states@.len() as int,
                        ) =~= old(self).unify_states@);
                    }
                    return Err(e);
                },
            }
            k += 1;
        }
        match self.snap_proof(mode, None) {
            Ok(()) => {},
            Err(e) => {
                proof {
                    if proof.cmds@.len() == 0 && old(self).debug_params.stepnum is None {
                        assert(crate::snap::spec_proof_cmd_str(
                            *self.mmb_file,
                            None::<ProofCmd>,
                        ) is Some);
                        assert(!crate::state::spec_targets(
                            self.debug_params,
                            self.cur_proof_step as int,
                        ));
                        assert(false);
                    }
                }
                return Err(e);
            },
        }
        Ok(())
    }
}

} // verus!
