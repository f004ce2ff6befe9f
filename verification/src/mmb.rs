//! The interface the engine consumes from a parsed MMB file: the statement
//! commands, the two instruction streams, and indexed lookup of sorts, terms
//! and theorems together with the user-facing names of the debug index.
//!
//! The binary format itself is parsed by a collaborator; the engine sees
//! declarations only through the plain values below.

use vstd::prelude::*;
use crate::numfmt::{dec_chars, u64_to_dec};
use crate::types::{SortId, TermId, ThmId, Type};

verus! {

/// One instruction of a proof stream.
#[derive(Debug, Clone, Copy, PartialEq, Eq, Structural)]
pub enum ProofCmd {
    /// Push main heap slot `i` onto the main stack.
    Ref(u32),
    /// Allocate a fresh bound variable of the given sort.
    Dummy(SortId),
    /// Apply term `tid` to the top of the main stack.
    Term { tid: TermId, save: bool },
    /// Apply theorem `tid`, unifying against its statement.
    Thm { tid: ThmId, save: bool },
    /// Move the top expression to the hypothesis stack.
    Hyp,
    /// Turn a proof into a pending conversion obligation.
    Conv,
    /// Discharge a pending conversion whose sides are identical.
    Refl,
    /// Swap the sides of a pending conversion.
    Sym,
    /// Split a pending conversion of two applications argumentwise.
    Cong,
    /// Unfold a definition inside a pending conversion.
    Unfold,
    /// Record an established conversion while keeping the obligation.
    ConvCut,
    /// Discharge a pending conversion against main heap slot `i`.
    ConvRef(u32),
    /// Save an established conversion to the main heap.
    ConvSave,
    /// Save the top of the main stack to the main heap.
    Save,
    /// Accept the top expression without proof.
    Sorry,
}

/// One instruction of a unification stream.
#[derive(Debug, Clone, Copy, PartialEq, Eq, Structural)]
pub enum UnifyCmd {
    /// Match an application of term `tid` and descend into its arguments.
    Term { tid: TermId, save: bool },
    /// Match unify heap slot `i` exactly.
    Ref(u32),
    /// Match a fresh bound variable of the given sort.
    Dummy(SortId),
    /// Feed the next hypothesis to the unifier.
    Hyp,
}

/// The proof stream of one declaration.  A null stream (a declaration that
/// carries no proof) is distinguished from an empty one.
#[derive(Debug, Clone, PartialEq, Eq)]
pub struct ProofIter {
    pub null: bool,
    pub cmds: Vec<ProofCmd>,
}

impl ProofIter {
    /// A null stream holds no commands.
    pub open spec fn wf(self) -> bool {
        self.null ==> self.cmds@.len() == 0
    }

    /// The stream of a declaration that carries no proof.
    pub fn null() -> (r: ProofIter)
        ensures
            r.null,
            r.wf(),
    {
        ProofIter { null: true, cmds: Vec::new() }
    }

    /// The stream holding the given commands.
    pub fn new(cmds: Vec<ProofCmd>) -> (r: ProofIter)
        ensures
            !r.null,
            r.cmds == cmds,
            r.wf(),
    {
        ProofIter { null: false, cmds }
    }

    /// Whether this declaration carries no proof at all.
    pub fn is_null(&self) -> (r: bool)
        ensures
            r == self.null,
    {
        self.null
    }
}

/// A term or definition as the MMB file declares it: its argument types,
/// its return type, and its unification stream.
#[derive(Debug, Clone, PartialEq, Eq)]
pub struct Term {
    pub args: Vec<Type>,
    pub ret: Type,
    pub unify: Vec<UnifyCmd>,
    pub is_def: bool,
}

impl Term {
    /// Whether the term is a definition (it carries a proof stream).
    pub fn def(&self) -> (r: bool)
        ensures
            r == self.is_def,
    {
        self.is_def
    }

    /// The declared return type.
    pub fn ret(&self) -> (r: Type)
        ensures
            r == self.ret,
    {
        self.ret
    }

    /// The argument types followed by the return type, as the binder list
    /// of the file stores them.
    pub fn args_and_ret(&self) -> (r: Vec<Type>)
        ensures
            r@ == self.args@.push(self.ret),
    {
        let mut r = self.args.clone();
        r.push(self.ret);
        proof {
            assert(r@ =~= self.args@.push(self.ret));
        }
        r
    }
}

/// An axiom or theorem as the MMB file declares it: its argument types and
/// its unification stream.
#[derive(Debug, Clone, PartialEq, Eq)]
pub struct Thm {
    pub args: Vec<Type>,
    pub unify: Vec<UnifyCmd>,
}

/// A numbered statement command of the MMB file.
#[derive(Debug, Clone, Copy, PartialEq, Eq, Structural)]
pub enum NumdStmtCmd {
    Sort,
    TermDef { term_id: TermId },
    Axiom { thm_id: ThmId },
    Thm { thm_id: ThmId },
}

/// The parts of a parsed MMB file that one verification request reads: the
/// sort table, the term and theorem tables, and the debug index of names.
#[derive(Debug, Clone, PartialEq, Eq)]
pub struct MmbFile {
    /// One modifier-flag byte per sort.
    pub sorts: Vec<u8>,
    /// Declared sort names from the debug index.
    pub sort_names: Vec<String>,
    pub terms: Vec<Term>,
    /// Declared term names from the debug index.
    pub term_names: Vec<String>,
    /// Per-term variable-name lists from the debug index.
    pub term_vars: Vec<Vec<String>>,
    pub thms: Vec<Thm>,
    /// Declared theorem and axiom names from the debug index.
    pub thm_names: Vec<String>,
    /// Per-theorem variable-name lists from the debug index.
    pub thm_vars: Vec<Vec<String>>,
}

/// The display name of sort `s`: the index name, or `s<num>` when the index
/// has none.
pub open spec fn spec_sort_name(f: MmbFile, s: SortId) -> Seq<char> {
    if s < f.sort_names@.len() {
        f.sort_names@[s as int]@
    } else {
        "s"@ + dec_chars(s as nat)
    }
}

/// The display name of term `t`: the index name, or `t<num>` when the index
/// has none.
pub open spec fn spec_term_name(f: MmbFile, t: TermId) -> Seq<char> {
    if t < f.term_names@.len() {
        f.term_names@[t as int]@
    } else {
        "t"@ + dec_chars(t as nat)
    }
}

/// The display name of theorem `t`: the index name, or `T<num>` when the
/// index has none.
pub open spec fn spec_thm_name(f: MmbFile, t: ThmId) -> Seq<char> {
    if t < f.thm_names@.len() {
        f.thm_names@[t as int]@
    } else {
        "T"@ + dec_chars(t as nat)
    }
}

/// The name the debug index gives the declaration of `stmt`, if any.
pub open spec fn spec_stmt_name(f: MmbFile, stmt: NumdStmtCmd) -> Option<Seq<char>> {
    match stmt {
        NumdStmtCmd::Sort => None,
        NumdStmtCmd::TermDef { term_id } => if term_id < f.term_names@.len() {
            Some(f.term_names@[term_id as int]@)
        } else {
            None
        },
        NumdStmtCmd::Axiom { thm_id } | NumdStmtCmd::Thm { thm_id } => if thm_id
            < f.thm_names@.len() {
            Some(f.thm_names@[thm_id as int]@)
        } else {
            None
        },
    }
}

/// The variable-name list the debug index gives the declaration of `stmt`.
pub open spec fn spec_stmt_vars(f: MmbFile, stmt: NumdStmtCmd) -> Seq<String> {
    match stmt {
        NumdStmtCmd::Sort => Seq::empty(),
        NumdStmtCmd::TermDef { term_id } => if term_id < f.term_vars@.len() {
            f.term_vars@[term_id as int]@
        } else {
            Seq::empty()
        },
        NumdStmtCmd::Axiom { thm_id } | NumdStmtCmd::Thm { thm_id } => if thm_id
            < f.thm_vars@.len() {
            f.thm_vars@[thm_id as int]@
        } else {
            Seq::empty()
        },
    }
}

/// Whether `stmt` names a term or theorem that the file holds, so that its
/// argument list can be read.
pub open spec fn stmt_ok(f: MmbFile, stmt: NumdStmtCmd) -> bool {
    match stmt {
        NumdStmtCmd::Sort => false,
        NumdStmtCmd::TermDef { term_id } => term_id < f.terms@.len(),
        NumdStmtCmd::Axiom { thm_id } | NumdStmtCmd::Thm { thm_id } => thm_id < f.thms@.len(),
    }
}

/// The argument types of the declaration of `stmt` (for a term, without the
/// return type).
pub open spec fn spec_stmt_args(f: MmbFile, stmt: NumdStmtCmd) -> Seq<Type> {
    match stmt {
        NumdStmtCmd::Sort => Seq::empty(),
        NumdStmtCmd::TermDef { term_id } => f.terms@[term_id as int].args@,
        NumdStmtCmd::Axiom { thm_id } | NumdStmtCmd::Thm { thm_id } => f.thms@[thm_id as int].args@,
    }
}

impl MmbFile {
    /// The modifier flags of sort `s`, when the file has such a sort.
    pub fn sort(&self, s: SortId) -> (r: Option<u8>)
        ensures
            r == if s < self.sorts@.len() {
                Some(self.sorts@[s as int])
            } else {
                None::<u8>
            },
    {
        if (s as usize) < self.sorts.len() {
            Some(self.sorts[s as usize])
        } else {
            None
        }
    }

    /// The declaration of term `t`, when the file has such a term.
    pub fn term(&self, t: TermId) -> (r: Option<&Term>)
        ensures
            match r {
                Some(term) => t < self.terms@.len() && *term == self.terms@[t as int],
                None => t >= self.terms@.len(),
            },
    {
        if (t as usize) < self.terms.len() {
            Some(&self.terms[t as usize])
        } else {
            None
        }
    }

    /// The declaration of theorem `t`, when the file has such a theorem.
    pub fn thm(&self, t: ThmId) -> (r: Option<&Thm>)
        ensures
            match r {
                Some(thm) => t < self.thms@.len() && *thm == self.thms@[t as int],
                None => t >= self.thms@.len(),
            },
    {
        if (t as usize) < self.thms.len() {
            Some(&self.thms[t as usize])
        } else {
            None
        }
    }

    /// The display name of sort `s`.
    pub fn sort_name(&self, s: SortId) -> (r: String)
        ensures
            r@ == spec_sort_name(*self, s),
    {
        if (s as usize) < self.sort_names.len() {
            self.sort_names[s as usize].clone()
        } else {
            let mut r = "s".to_owned();
            let num = u64_to_dec(s as u64);
            r.append(num.as_str());
            r
        }
    }

    /// The display name of term `t`.
    pub fn term_name(&self, t: TermId) -> (r: String)
        ensures
            r@ == spec_term_name(*self, t),
    {
        if (t as usize) < self.term_names.len() {
            self.term_names[t as usize].clone()
        } else {
            let mut r = "t".to_owned();
            let num = u64_to_dec(t as u64);
            r.append(num.as_str());
            r
        }
    }

    /// The display name of theorem `t`.
    pub fn thm_name(&self, t: ThmId) -> (r: String)
        ensures
            r@ == spec_thm_name(*self, t),
    {
        if (t as usize) < self.thm_names.len() {
            self.thm_names[t as usize].clone()
        } else {
            let mut r = "T".to_owned();
            let num = u64_to_dec(t as u64);
            r.append(num.as_str());
            r
        }
    }

    /// The name the debug index gives the declaration of `stmt`, if any.
    pub fn stmt_index(&self, stmt: NumdStmtCmd) -> (r: Option<String>)
        ensures
            match r {
                Some(name) => spec_stmt_name(*self, stmt) == Some(name@),
                None => spec_stmt_name(*self, stmt) is None,
            },
    {
        match stmt {
            NumdStmtCmd::Sort => None,
            NumdStmtCmd::TermDef { term_id } => {
                if (term_id as usize) < self.term_names.len() {
                    Some(self.term_names[term_id as usize].clone())
                } else {
                    None
                }
            },
            NumdStmtCmd::Axiom { thm_id } | NumdStmtCmd::Thm { thm_id } => {
                if (thm_id as usize) < self.thm_names.len() {
                    Some(self.thm_names[thm_id as usize].clone())
                } else {
                    None
                }
            },
        }
    }

    /// The variable-name list the debug index gives the declaration.
    pub fn stmt_vars(&self, stmt: NumdStmtCmd) -> (r: Vec<String>)
        ensures
            r@ == spec_stmt_vars(*self, stmt),
    {
        let src: Option<&Vec<String>> = match stmt {
            NumdStmtCmd::Sort => None,
            NumdStmtCmd::TermDef { term_id } => {
                if (term_id as usize) < self.term_vars.len() {
                    Some(&self.term_vars[term_id as usize])
                } else {
                    None
                }
            },
            NumdStmtCmd::Axiom { thm_id } | NumdStmtCmd::Thm { thm_id } => {
                if (thm_id as usize) < self.thm_vars.len() {
                    Some(&self.thm_vars[thm_id as usize])
                } else {
                    None
                }
            },
        };
        match src {
            None => Vec::new(),
            Some(v) => {
                let r = v.clone();
                proof {
                    assert(r@ =~= v@);
                }
                r
            },
        }
    }
}

} // verus!
