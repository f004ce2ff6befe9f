//! The typed-expression DAG and the stack items built over it.
//!
//! Nodes live in a per-request pool (the `store` of the engine state) and
//! refer to one another by index; an index plays the role the shared
//! reference plays in an arena.  Sharing arises when the proof stream saves
//! and re-references intermediate results, so two equal indices are the same
//! node, and node equality is index equality.  A node's children always have
//! strictly smaller indices.

use vstd::prelude::*;
use crate::types::{TermId, Type, TYPE_DEPS_MASK};
use crate::util::{Res, VerifErr};

verus! {

/// An expression node: a variable or a term application.
#[derive(Debug, Clone, PartialEq, Eq)]
pub enum MmbExpr {
    /// A reference to heap slot `idx`, carrying its type.
    Var { idx: usize, ty: Type },
    /// An application of a declared term to child expression nodes, with the
    /// computed return type.
    App { term_num: TermId, args: Vec<usize>, ty: Type },
}

/// A stack item: an expression, a proof of an expression, an established
/// conversion, or a pending conversion obligation.
#[derive(Debug, Clone, PartialEq, Eq)]
pub enum MmbItem {
    Expr(MmbExpr),
    Proof(usize),
    Conv(usize, usize),
    CoConv(usize, usize),
}

/// Whether every child index of `item` is below `bound`.
pub open spec fn item_bounded(item: MmbItem, bound: int) -> bool {
    match item {
        MmbItem::Expr(MmbExpr::Var { .. }) => true,
        MmbItem::Expr(MmbExpr::App { args, .. }) => forall|k: int|
            0 <= k < args@.len() ==> args@[k] < bound,
        MmbItem::Proof(p) => p < bound,
        MmbItem::Conv(a, b) => a < bound && b < bound,
        MmbItem::CoConv(a, b) => a < bound && b < bound,
    }
}

/// Whether every node of the pool points only at earlier nodes.
pub open spec fn store_wf(store: Seq<MmbItem>) -> bool {
    forall|i: int| 0 <= i < store.len() ==> item_bounded(#[trigger] store[i], i)
}

/// Whether every index of `ixs` points into a pool of length `bound`.
pub open spec fn ptrs_bounded(ixs: Seq<usize>, bound: int) -> bool {
    forall|k: int| 0 <= k < ixs.len() ==> ixs[k] < bound
}

impl MmbItem {
    /// Whether this item is an expression node.
    pub open spec fn is_expr(self) -> bool {
        self is Expr
    }

    /// The type of an expression node.
    pub open spec fn spec_get_ty(self) -> Option<Type> {
        match self {
            MmbItem::Expr(MmbExpr::Var { ty, .. }) => Some(ty),
            MmbItem::Expr(MmbExpr::App { ty, .. }) => Some(ty),
            _ => None,
        }
    }

    /// The type of an expression node; meaningful only when `is_expr`.
    pub open spec fn spec_ty(self) -> Type {
        match self {
            MmbItem::Expr(MmbExpr::Var { ty, .. }) => ty,
            MmbItem::Expr(MmbExpr::App { ty, .. }) => ty,
            _ => Type { raw: 0 },
        }
    }

    /// The type carried by an expression node; an error on any other item.
    pub fn get_ty(&self) -> (r: Res<Type>)
        ensures
            self.is_expr() ==> r == Res::<Type>::Ok(self.spec_ty()),
            !self.is_expr() ==> (r matches Res::<Type>::Err(e) && (e matches VerifErr::Msg(m)
                && m@ == "Can't get type from a non-expr MmbItem"@)),
    {
        match self {
            MmbItem::Expr(MmbExpr::Var { ty, .. }) => Ok(*ty),
            MmbItem::Expr(MmbExpr::App { ty, .. }) => Ok(*ty),
            _ => Err(VerifErr::Msg("Can't get type from a non-expr MmbItem".to_owned())),
        }
    }

    /// The dependency set of an expression's type, as low bits of a `Type`.
    pub open spec fn spec_get_deps(self) -> Option<Type> {
        match self.spec_get_ty() {
            Some(ty) => match ty.spec_deps() {
                Some(d) => Some(Type { raw: d }),
                None => None,
            },
            None => None,
        }
    }

    /// The dependency set of an expression's type; an error when the item is
    /// no expression or its type is bound.
    pub fn get_deps(&self) -> (r: Res<Type>)
        ensures
            match self.spec_get_deps() {
                Some(t) => r == Res::<Type>::Ok(t),
                None => r is Err,
            },
            self.spec_get_deps() is None ==> (r matches Res::<Type>::Err(e) && (if self.is_expr() {
                e is NoneErr
            } else {
                e is Msg
            })),
    {
        match self.get_ty() {
            Ok(ty) => match ty.deps() {
                Some(d) => Ok(Type::new(d)),
                None => Err(VerifErr::NoneErr("MmbItem::get_deps")),
            },
            Err(e) => Err(e),
        }
    }

    /// The one-hot bound digit of an expression's type, as a `Type`.
    pub open spec fn spec_get_bound_digit(self) -> Option<Type> {
        match self.spec_get_ty() {
            Some(ty) => match ty.spec_bound_digit() {
                Some(d) => Some(Type { raw: d }),
                None => None,
            },
            None => None,
        }
    }

    /// The one-hot bound digit of an expression's type; an error when the
    /// item is no expression or its type is not bound.
    pub fn get_bound_digit(&self) -> (r: Res<Type>)
        ensures
            match self.spec_get_bound_digit() {
                Some(t) => r == Res::<Type>::Ok(t),
                None => r is Err,
            },
            self.spec_get_bound_digit() is None ==> (r matches Res::<Type>::Err(e) && (
            if self.is_expr() {
                e is NoneErr
            } else {
                e is Msg
            })),
    {
        match self.get_ty() {
            Ok(ty) => match ty.bound_digit() {
                Some(d) => Ok(Type::new(d)),
                None => Err(VerifErr::NoneErr("MmbItem::get_bound_digit")),
            },
            Err(e) => Err(e),
        }
    }

    /// The low 56 bits of an expression's type: its dependency set when the
    /// type is not bound, its one-hot digit when it is.
    pub open spec fn spec_low_bits(self) -> Type {
        Type { raw: self.spec_ty().raw & TYPE_DEPS_MASK }
    }

    /// The low 56 bits of an expression's type.
    pub fn low_bits(&self) -> (r: Type)
        requires
            self.is_expr(),
        ensures
            r == self.spec_low_bits(),
    {
        match self.get_deps() {
            Ok(t) => t,
            Err(_) => match self.get_bound_digit() {
                Ok(t) => t,
                Err(_) => {
                    proof {
                        assert(false);
                    }
                    Type::new(0)
                },
            },
        }
    }
}

} // verus!
