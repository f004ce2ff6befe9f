//! The per-declaration binder table: the named variables of the statement,
//! and the dummy variables whose types are learned while the streams run.

use vstd::prelude::*;
use crate::mmb::{spec_stmt_args, spec_stmt_vars, stmt_ok, MmbFile, NumdStmtCmd};
use crate::numfmt::{dec_chars, usize_to_dec};
use crate::types::Type;
use crate::util::{Res, VerifErr};

verus! {

/// One binder: its display name, its type when known, and whether it is a
/// dummy (a variable with no slot in the declaration's argument list).
#[derive(Debug, Clone, PartialEq, Eq)]
pub struct Binder {
    pub name: String,
    pub ty: Option<Type>,
    pub dummy: bool,
}

impl Binder {
    pub fn new(name: String, ty: Option<Type>, dummy: bool) -> (r: Binder)
        ensures
            r == (Binder { name, ty, dummy }),
    {
        Binder { name, ty, dummy }
    }
}

/// The binder registry of one declaration: the name list of the debug index
/// and the variables seen so far, keyed by heap ordinal.
#[derive(Debug, Clone, PartialEq, Eq)]
pub struct StmtBinders {
    pub binder_names: Vec<String>,
    pub stmt_vars: Vec<(usize, Binder)>,
}

/// The first position at or after `i` whose entry has ordinal `idx`.
pub open spec fn var_pos_from(s: Seq<(usize, Binder)>, i: int, idx: usize) -> Option<int>
    decreases s.len() - i,
{
    if i < 0 || i >= s.len() {
        None
    } else if s[i].0 == idx {
        Some(i)
    } else {
        var_pos_from(s, i + 1, idx)
    }
}

/// Whether the entry holds a variable known to be bound.
pub open spec fn is_bound_entry(e: (usize, Binder)) -> bool {
    match e.1.ty {
        Some(t) => t.spec_bound(),
        None => false,
    }
}

/// The positions, in order, of the entries at or after `i` that hold bound
/// variables.
pub open spec fn bound_pos_from(s: Seq<(usize, Binder)>, i: int) -> Seq<usize>
    decreases s.len() - i,
{
    if i < 0 || i >= s.len() {
        Seq::empty()
    } else if is_bound_entry(s[i]) {
        seq![i as usize] + bound_pos_from(s, i + 1)
    } else {
        bound_pos_from(s, i + 1)
    }
}

/// The fallback display name `v<num>` of an unnamed variable.
pub open spec fn spec_fallback_name(names: Seq<String>, idx: usize) -> Seq<char> {
    if idx < names.len() {
        names[idx as int]@
    } else {
        "v"@ + dec_chars(idx as nat)
    }
}

impl StmtBinders {
    /// The initial table of a declaration: one entry per named variable of
    /// the debug index, typed from the argument list where it reaches, and
    /// flagged dummy where it does not.
    pub fn new(mmb_file: &MmbFile, stmt: NumdStmtCmd) -> (r: StmtBinders)
        requires
            stmt_ok(*mmb_file, stmt),
        ensures
            r.binder_names@ == spec_stmt_vars(*mmb_file, stmt),
            r.stmt_vars@.len() == r.binder_names@.len(),
            forall|i: int|
                0 <= i < r.stmt_vars@.len() ==> #[trigger] r.stmt_vars@[i] == (
                i as usize,
                Binder {
                    name: spec_stmt_vars(*mmb_file, stmt)[i],
                    ty: if i < spec_stmt_args(*mmb_file, stmt).len() {
                        Some(spec_stmt_args(*mmb_file, stmt)[i])
                    } else {
                        None
                    },
                    dummy: i >= spec_stmt_args(*mmb_file, stmt).len(),
                },
            ),
    {
        let binder_names = mmb_file.stmt_vars(stmt);
        let mut stmt_vars: Vec<(usize, Binder)> = Vec::new();
        let n = binder_names.len();
        let mut i: usize = 0;
        while i < n
            invariant
                stmt_ok(*mmb_file, stmt),
                i <= n,
                n == binder_names@.len(),
                binder_names@ == spec_stmt_vars(*mmb_file, stmt),
                stmt_vars@.len() == i,
                forall|j: int|
                    0 <= j < i ==> #[trigger] stmt_vars@[j] == (
                    j as usize,
                    Binder {
                        name: spec_stmt_vars(*mmb_file, stmt)[j],
                        ty: if j < spec_stmt_args(*mmb_file, stmt).len() {
                            Some(spec_stmt_args(*mmb_file, stmt)[j])
                        } else {
                            None
                        },
                        dummy: j >= spec_stmt_args(*mmb_file, stmt).len(),
                    },
                ),
            decreases n - i,
        {
            let ty: Option<Type> = match stmt {
                NumdStmtCmd::Sort => None,
                NumdStmtCmd::TermDef { term_id } => {
                    let term = &mmb_file.terms[term_id as usize];
                    if i < term.args.len() {
                        Some(term.args[i])
                    } else {
                        None
                    }
                },
                NumdStmtCmd::Axiom { thm_id } | NumdStmtCmd::Thm { thm_id } => {
                    let thm = &mmb_file.thms[thm_id as usize];
                    if i < thm.args.len() {
                        Some(thm.args[i])
                    } else {
                        None
                    }
                },
            };
            let name = binder_names[i].clone();
            stmt_vars.push((i, Binder::new(name, ty, ty.is_none())));
            i += 1;
        }
        StmtBinders { binder_names, stmt_vars }
    }

    /// The entry of ordinal `idx`, if the table has one.
    pub fn get(&self, idx: usize) -> (r: Option<&(usize, Binder)>)
        ensures
            match r {
                Some(e) => {
                    &&& var_pos_from(self.stmt_vars@, 0, idx) matches Some(p)
                    &&& 0 <= p < self.stmt_vars@.len()
                    &&& *e == self.stmt_vars@[var_pos_from(self.stmt_vars@, 0, idx).unwrap()]
                },
                None => var_pos_from(self.stmt_vars@, 0, idx) is None,
            },
    {
        let n = self.stmt_vars.len();
        let mut i: usize = 0;
        while i < n
            invariant
                i <= n,
                n == self.stmt_vars@.len(),
                var_pos_from(self.stmt_vars@, 0, idx) == var_pos_from(self.stmt_vars@, i as int, idx),
            decreases n - i,
        {
            if self.stmt_vars[i].0 == idx {
                return Some(&self.stmt_vars[i]);
            }
            i += 1;
        }
        None
    }

    /// The positions of the entries that hold bound variables, in table
    /// order.
    pub fn bound_vars(&self) -> (r: Vec<usize>)
        ensures
            r@ == bound_pos_from(self.stmt_vars@, 0),
    {
        let n = self.stmt_vars.len();
        let mut out: Vec<usize> = Vec::new();
        let mut i: usize = 0;
        while i < n
            invariant
                i <= n,
                n == self.stmt_vars@.len(),
                out@ + bound_pos_from(self.stmt_vars@, i as int) == bound_pos_from(
                    self.stmt_vars@,
                    0,
                ),
            decreases n - i,
        {
            let is_bound = match &self.stmt_vars[i].1.ty {
                Some(t) => t.bound(),
                None => false,
            };
            if is_bound {
                proof {
                    assert(out@.push(i) + bound_pos_from(self.stmt_vars@, i + 1) =~= out@ + (seq![
                        i,
                    ] + bound_pos_from(self.stmt_vars@, i + 1)));
                }
                out.push(i);
            }
            i += 1;
        }
        proof {
            assert(out@ =~= out@ + bound_pos_from(self.stmt_vars@, n as int));
        }
        out
    }

    /// Learns the type of a dummy variable at ordinal `idx`.  An existing
    /// entry must be an untyped dummy and is filled in; an unknown ordinal
    /// is appended as a fresh dummy, named from the name list when it
    /// reaches that far and `v<num>` otherwise.
    pub fn set_dummy(&mut self, idx: usize, ty: Type) -> (r: Res<()>)
        ensures
            match var_pos_from(old(self).stmt_vars@, 0, idx) {
                Some(p) => {
                    if old(self).stmt_vars@[p].1.dummy && old(self).stmt_vars@[p].1.ty is None {
                        &&& r is Ok
                        &&& final(self).binder_names == old(self).binder_names
                        &&& final(self).stmt_vars@ == old(self).stmt_vars@.update(
                            p,
                            (
                                idx,
                                Binder {
                                    name: old(self).stmt_vars@[p].1.name,
                                    ty: Some(ty),
                                    dummy: old(self).stmt_vars@[p].1.dummy,
                                },
                            ),
                        )
                    } else {
                        &&& r matches Res::<()>::Err(e) && e is MakeSure
                        &&& *final(self) == *old(self)
                    }
                },
                None => {
                    &&& r is Ok
                    &&& final(self).binder_names == old(self).binder_names
                    &&& final(self).stmt_vars@.len() == old(self).stmt_vars@.len() + 1
                    &&& final(self).stmt_vars@.drop_last() == old(self).stmt_vars@
                    &&& final(self).stmt_vars@.last().0 == idx
                    &&& final(self).stmt_vars@.last().1.name@ == spec_fallback_name(
                        old(self).binder_names@,
                        idx,
                    )
                    &&& final(self).stmt_vars@.last().1.ty == Some(ty)
                    &&& final(self).stmt_vars@.last().1.dummy
                },
            },
    {
        let n = self.stmt_vars.len();
        let mut i: usize = 0;
        while i < n
            invariant
                i <= n,
                n == self.stmt_vars@.len(),
                *self == *old(self),
                var_pos_from(self.stmt_vars@, 0, idx) == var_pos_from(self.stmt_vars@, i as int, idx),
            decreases n - i,
        {
            if self.stmt_vars[i].0 == idx {
                if !(self.stmt_vars[i].1.dummy && self.stmt_vars[i].1.ty.is_none()) {
                    return Err(VerifErr::MakeSure("set_dummy"));
                }
                let name = self.stmt_vars[i].1.name.clone();
                let dummy = self.stmt_vars[i].1.dummy;
                self.stmt_vars.set(i, (idx, Binder::new(name, Some(ty), dummy)));
                return Ok(());
            }
            i += 1;
        }
        let name = if idx < self.binder_names.len() {
            self.binder_names[idx].clone()
        } else {
            let mut s = "v".to_owned();
            let num = usize_to_dec(idx);
            s.append(num.as_str());
            s
        };
        self.stmt_vars.push((idx, Binder::new(name, Some(ty), true)));
        proof {
            assert(self.stmt_vars@.drop_last() =~= old(self).stmt_vars@);
        }
        Ok(())
    }
}

} // verus!
