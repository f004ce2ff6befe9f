//! The notation tables the engine consumes from the source-level
//! environment, used only for pretty-printing at the highest elaboration
//! level: per-term notation entries, and the prefix and infix tables giving
//! each token its literal list.

use vstd::prelude::*;
use crate::types::TermId;

verus! {

/// A parse precedence.
#[derive(Debug, Clone, Copy, PartialEq, Eq, Structural)]
pub enum Prec {
    Prec(u32),
    Max,
}

/// One literal of a notation: an argument position with the precedence to
/// render it at, or a constant token.
#[derive(Debug, Clone, PartialEq, Eq)]
pub enum NotaLit {
    Var(usize, Prec),
    Const(String),
}

/// The literal list of one declared notation.
#[derive(Debug, Clone, PartialEq, Eq)]
pub struct NotaInfo {
    pub lits: Vec<NotaLit>,
}

/// The notation tables of the source-level environment.
#[derive(Debug, Clone, PartialEq, Eq)]
pub struct Environment {
    /// For each term with declared notation, its ordered `(token, is_infix)`
    /// entries.
    pub decl_nota: Vec<(TermId, Vec<(String, bool)>)>,
    /// Prefix token to literal list.
    pub prefixes: Vec<(String, NotaInfo)>,
    /// Infix token to literal list.
    pub infixes: Vec<(String, NotaInfo)>,
}

/// The first notation-table entry for term `t`, searching from position `i`.
pub open spec fn decl_nota_from(
    s: Seq<(TermId, Vec<(String, bool)>)>,
    i: int,
    t: TermId,
) -> Option<Seq<(String, bool)>>
    decreases s.len() - i,
{
    if i < 0 || i >= s.len() {
        None
    } else if s[i].0 == t {
        Some(s[i].1@)
    } else {
        decl_nota_from(s, i + 1, t)
    }
}

/// The first literal list under `tok`, searching from position `i`.
pub open spec fn nota_from(s: Seq<(String, NotaInfo)>, i: int, tok: Seq<char>) -> Option<NotaInfo>
    decreases s.len() - i,
{
    if i < 0 || i >= s.len() {
        None
    } else if s[i].0@ == tok {
        Some(s[i].1)
    } else {
        nota_from(s, i + 1, tok)
    }
}

impl Environment {
    /// The notation entries declared for term `t`, if any.
    pub fn decl_nota(&self, t: TermId) -> (r: Option<&Vec<(String, bool)>>)
        ensures
            match r {
                Some(v) => decl_nota_from(self.decl_nota@, 0, t) == Some(v@),
                None => decl_nota_from(self.decl_nota@, 0, t) is None,
            },
    {
        let n = self.decl_nota.len();
        let mut i: usize = 0;
        while i < n
            invariant
                i <= n,
                n == self.decl_nota@.len(),
                decl_nota_from(self.decl_nota@, 0, t) == decl_nota_from(self.decl_nota@, i as int, t),
            decreases n - i,
        {
            if self.decl_nota[i].0 == t {
                return Some(&self.decl_nota[i].1);
            }
            i += 1;
        }
        None
    }

    /// The literal list of the prefix notation under `tok`, if any.
    pub fn prefix(&self, tok: &String) -> (r: Option<&NotaInfo>)
        ensures
            match r {
                Some(n) => nota_from(self.prefixes@, 0, tok@) == Some(*n),
                None => nota_from(self.prefixes@, 0, tok@) is None,
            },
    {
        lookup_nota(&self.prefixes, tok)
    }

    /// The literal list of the infix notation under `tok`, if any.
    pub fn infix(&self, tok: &String) -> (r: Option<&NotaInfo>)
        ensures
            match r {
                Some(n) => nota_from(self.infixes@, 0, tok@) == Some(*n),
                None => nota_from(self.infixes@, 0, tok@) is None,
            },
    {
        lookup_nota(&self.infixes, tok)
    }
}

/// First-match lookup in a token-keyed notation table.
fn lookup_nota<'a>(table: &'a Vec<(String, NotaInfo)>, tok: &String) -> (r: Option<&'a NotaInfo>)
    ensures
        match r {
            Some(n) => nota_from(table@, 0, tok@) == Some(*n),
            None => nota_from(table@, 0, tok@) is None,
        },
{
    let n = table.len();
    let mut i: usize = 0;
    while i < n
        invariant
            i <= n,
            n == table@.len(),
            nota_from(table@, 0, tok@) == nota_from(table@, i as int, tok@),
        decreases n - i,
    {
        if table[i].0.eq(tok) {
            return Some(&table[i].1);
        }
        i += 1;
    }
    None
}

} // verus!
