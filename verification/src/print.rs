//! The pretty-printer.  Three elaboration levels: raw indices, named
//! variables, and named variables with user notation and priority-driven
//! parenthesization.

use vstd::prelude::*;
use crate::binder::{bound_pos_from, is_bound_entry, var_pos_from};
use crate::env::{decl_nota_from, nota_from, NotaInfo, NotaLit};
use crate::item::{item_bounded, MmbExpr, MmbItem};
use crate::mmb::spec_term_name;
use crate::numfmt::{dec_chars, u64_to_dec, usize_to_dec};
use crate::state::MmbState;
use crate::types::{TermId, Type};
use crate::util::{Res, VerifErr};

verus! {

/// A rendering priority: parenthesize never, at or below a value, or always.
#[derive(Debug, Clone, Copy, PartialEq, Eq, Structural)]
pub enum Prio {
    Never,
    Val(u16),
    Always,
}

/// A rendered fragment together with the priority it binds at.
#[derive(Debug, Clone, PartialEq, Eq)]
pub struct Paren {
    pub s: String,
    pub prio: Prio,
}

/// `s` wrapped in parentheses when its priority asks for them inside a
/// context of upper priority `upto`: always when either side is `Always`,
/// never when either side (after that) is `Never`, and for two values when
/// the fragment's value is at most the context's.
pub open spec fn spec_paren_le(s: Seq<char>, prio: Prio, upto: Prio) -> Seq<char> {
    if prio is Always || upto is Always {
        "("@ + s + ")"@
    } else if prio is Never || upto is Never {
        s
    } else if prio->Val_0 <= upto->Val_0 {
        "("@ + s + ")"@
    } else {
        s
    }
}

impl Paren {
    pub fn new(s: String, prio: u16) -> (r: Paren)
        ensures
            r.s == s,
            r.prio == Prio::Val(prio),
    {
        Paren { s, prio: Prio::Val(prio) }
    }

    pub fn never(s: String) -> (r: Paren)
        ensures
            r.s == s,
            r.prio == Prio::Never,
    {
        Paren { s, prio: Prio::Never }
    }

    pub fn always(s: String) -> (r: Paren)
        ensures
            r.s == s,
            r.prio == Prio::Always,
    {
        Paren { s, prio: Prio::Always }
    }

    /// The fragment, parenthesized when a context of upper priority `upto`
    /// asks for it.
    pub fn paren_le(self, upto: Prio) -> (r: String)
        ensures
            r@ == spec_paren_le(self.s@, self.prio, upto),
    {
        let wrap = match (&self.prio, &upto) {
            (Prio::Always, _) | (_, Prio::Always) => true,
            (Prio::Never, _) | (_, Prio::Never) => false,
            (Prio::Val(x), Prio::Val(y)) => *x <= *y,
        };
        if wrap {
            let mut r = "(".to_owned();
            r.append(self.s.as_str());
            r.append(")");
            r
        } else {
            self.s
        }
    }
}

/// The opening span of a variable: `bvar` class when bound, `var` otherwise.
pub open spec fn span_var_open(bound: bool) -> Seq<char> {
    if bound {
        "<span class=\"bvar\">"@
    } else {
        "<span class=\"var\">"@
    }
}

/// The level-0 rendering of node `ix`: numeric variable indices, bare term
/// names, no notation.
pub open spec fn sexpr0(st: MmbState, ix: int) -> Seq<char>
    decreases ix, 1int, 0int,
{
    if 0 <= ix < st.store@.len() {
        match st.store@[ix] {
            MmbItem::Expr(MmbExpr::Var { idx, ty }) => span_var_open(ty.spec_bound()) + dec_chars(
                idx as nat,
            ) + "</span>"@,
            MmbItem::Expr(MmbExpr::App { term_num, args, .. }) => "(<span class=\"term\">"@
                + spec_term_name(*st.mmb_file, term_num) + "</span>"@ + sexpr0_args(
                st,
                args@,
                0,
                ix,
            ) + ")"@,
            MmbItem::Proof(p) => if p < ix {
                "<span class=\"mmb\">|-</mmb> "@ + sexpr0(st, p as int)
            } else {
                Seq::empty()
            },
            MmbItem::Conv(a, b) => if a < ix && b < ix {
                sexpr0(st, a as int) + "<span class=\"mmb\"> = </span>"@ + sexpr0(st, b as int)
            } else {
                Seq::empty()
            },
            MmbItem::CoConv(a, b) => if a < ix && b < ix {
                sexpr0(st, a as int) + "<span class=\"mmb\"> =?= </span>"@ + sexpr0(st, b as int)
            } else {
                Seq::empty()
            },
        }
    } else {
        Seq::empty()
    }
}

/// The level-0 renderings of the arguments from position `k` on, each
/// preceded by one space.
pub open spec fn sexpr0_args(st: MmbState, args: Seq<usize>, k: int, ix: int) -> Seq<char>
    decreases ix, 0int, args.len() - k,
{
    if k < 0 || k >= args.len() {
        Seq::empty()
    } else {
        (if args[k] < ix {
            " "@ + sexpr0(st, args[k] as int)
        } else {
            Seq::empty()
        }) + sexpr0_args(st, args, k + 1, ix)
    }
}

/// The level-1 rendering of node `ix`: variables by binder name, term
/// applications as parenthesized prefix with the term name, no notation.
/// Nothing when some variable has no binder entry.
pub open spec fn sexpr1(st: MmbState, ix: int) -> Option<Seq<char>>
    decreases ix, 1int, 0int,
{
    if 0 <= ix < st.store@.len() {
        match st.store@[ix] {
            MmbItem::Expr(MmbExpr::Var { idx, ty }) => match var_pos_from(
                st.stmt_binders.stmt_vars@,
                0,
                idx,
            ) {
                None => None,
                Some(p) => Some(
                    span_var_open(ty.spec_bound()) + st.stmt_binders.stmt_vars@[p].1.name@
                        + "</span>"@,
                ),
            },
            MmbItem::Expr(MmbExpr::App { term_num, args, .. }) => match sexpr1_args(
                st,
                args@,
                0,
                ix,
            ) {
                None => None,
                Some(tail) => Some(
                    "(<span class=\"term\">"@ + spec_term_name(*st.mmb_file, term_num)
                        + "</span>"@ + tail + ")"@,
                ),
            },
            MmbItem::Proof(p) => if p < ix {
                match sexpr1(st, p as int) {
                    None => None,
                    Some(s) => Some("<span class=\"mmb\">|-</mmb> "@ + s),
                }
            } else {
                None
            },
            MmbItem::Conv(a, b) => if a < ix && b < ix {
                match (sexpr1(st, a as int), sexpr1(st, b as int)) {
                    (Some(sa), Some(sb)) => Some(sa + "<span class=\"mmb\"> = </span>"@ + sb),
                    _ => None,
                }
            } else {
                None
            },
            MmbItem::CoConv(a, b) => if a < ix && b < ix {
                match (sexpr1(st, a as int), sexpr1(st, b as int)) {
                    (Some(sa), Some(sb)) => Some(sa + "<span class=\"mmb\"> =?= </span>"@ + sb),
                    _ => None,
                }
            } else {
                None
            },
        }
    } else {
        None
    }
}

/// The level-1 renderings of the arguments from position `k` on, each
/// preceded by one space.
pub open spec fn sexpr1_args(st: MmbState, args: Seq<usize>, k: int, ix: int) -> Option<Seq<char>>
    decreases ix, 0int, args.len() - k,
{
    if k < 0 || k >= args.len() {
        Some(Seq::empty())
    } else if !(args[k] < ix) {
        None
    } else {
        match sexpr1(st, args[k] as int) {
            None => None,
            Some(cs) => match sexpr1_args(st, args, k + 1, ix) {
                None => None,
                Some(rest) => Some(" "@ + cs + rest),
            },
        }
    }
}

/// A fragment at the priority bracketing assigns: the bracket level of the
/// request suppresses all added parentheses when zero.
pub open spec fn spec_bracket(st: MmbState, s: Seq<char>, prio: u16) -> (Seq<char>, Prio) {
    if st.debug_params.bracket_level == 0 {
        (s, Prio::Never)
    } else {
        (s, Prio::Val(prio))
    }
}

/// The level-2 rendering of node `ix`: binder names and user notation, with
/// the priority the fragment binds at.  Nothing when a variable has no
/// binder entry or a notation token has no table entry.
pub open spec fn sexpr2(st: MmbState, ix: int) -> Option<(Seq<char>, Prio)>
    decreases ix, 3int, 0int,
{
    if 0 <= ix < st.store@.len() {
        match st.store@[ix] {
            MmbItem::Expr(MmbExpr::Var { idx, ty }) => match var_pos_from(
                st.stmt_binders.stmt_vars@,
                0,
                idx,
            ) {
                None => None,
                Some(p) => Some(
                    (
                        span_var_open(ty.spec_bound()) + st.stmt_binders.stmt_vars@[p].1.name@
                            + "</span>"@,
                        Prio::Never,
                    ),
                ),
            },
            MmbItem::Expr(MmbExpr::App { term_num, args, .. }) => spec_print_app(
                st,
                term_num,
                args@,
                ix,
            ),
            MmbItem::Proof(p) => if p < ix {
                match sexpr2(st, p as int) {
                    None => None,
                    Some(pr) => Some(
                        (
                            "<span class=\"mmb\">|-</mmb> "@ + spec_paren_le(
                                pr.0,
                                pr.1,
                                Prio::Never,
                            ),
                            Prio::Never,
                        ),
                    ),
                }
            } else {
                None
            },
            MmbItem::Conv(a, b) => if a < ix && b < ix {
                match (sexpr2(st, a as int), sexpr2(st, b as int)) {
                    (Some(pa), Some(pb)) => Some(
                        (
                            spec_paren_le(pa.0, pa.1, Prio::Never)
                                + "<span class=\"mmb\"> == </mmb>"@ + spec_paren_le(
                                pb.0,
                                pb.1,
                                Prio::Never,
                            ),
                            Prio::Never,
                        ),
                    ),
                    _ => None,
                }
            } else {
                None
            },
            MmbItem::CoConv(a, b) => if a < ix && b < ix {
                match (sexpr2(st, a as int), sexpr2(st, b as int)) {
                    (Some(pa), Some(pb)) => Some(
                        (
                            spec_paren_le(pa.0, pa.1, Prio::Never)
                                + "<span class=\"mmb\"> =?= </mmb>"@ + spec_paren_le(
                                pb.0,
                                pb.1,
                                Prio::Never,
                            ),
                            Prio::Never,
                        ),
                    ),
                    _ => None,
                }
            } else {
                None
            },
        }
    } else {
        None
    }
}

/// The level-2 rendering of an application: by declared notation where the
/// term has one, and bare prefix form where it does not.
pub open spec fn spec_print_app(st: MmbState, term_num: TermId, args: Seq<usize>, ix: int) -> Option<
    (Seq<char>, Prio),
>
    decreases ix, 2int, 0int,
{
    match decl_nota_from(st.mm1_env.decl_nota@, 0, term_num) {
        None => spec_print_bare(st, term_num, args, ix),
        Some(v) => if v.len() == 0 {
            spec_print_bare(st, term_num, args, ix)
        } else if v[0].1 {
            match nota_from(st.mm1_env.infixes@, 0, v[0].0@) {
                None => None,
                Some(info) => match spec_app_aux(st, args, info.lits@, 0, ix) {
                    None => None,
                    Some(body) => Some(spec_bracket(st, body, 10)),
                },
            }
        } else {
            match nota_from(st.mm1_env.prefixes@, 0, v[0].0@) {
                None => None,
                Some(info) => if info.lits@.len() == 0 {
                    Some((v[0].0@, Prio::Never))
                } else if info.lits@.len() == 1 {
                    match spec_app_aux(st, args, info.lits@, 0, ix) {
                        None => None,
                        Some(body) => Some(spec_bracket(st, v[0].0@ + body, 20)),
                    }
                } else {
                    match spec_app_aux(st, args, info.lits@, 0, ix) {
                        None => None,
                        Some(body) => Some(spec_bracket(st, v[0].0@ + " "@ + body, 15)),
                    }
                },
            }
        },
    }
}

/// The renderings of the notation literals from position `k` on, separated
/// by single spaces: argument positions at priority 10, constant tokens
/// verbatim.
pub open spec fn spec_app_aux(
    st: MmbState,
    args: Seq<usize>,
    lits: Seq<NotaLit>,
    k: int,
    ix: int,
) -> Option<Seq<char>>
    decreases ix, 0int, lits.len() - k,
{
    if k < 0 || k >= lits.len() {
        Some(Seq::empty())
    } else {
        let piece = match lits[k] {
            NotaLit::Var(pos, _) => if pos < args.len() && args[pos as int] < ix {
                match sexpr2(st, args[pos as int] as int) {
                    None => None,
                    Some(pr) => Some(spec_paren_le(pr.0, pr.1, Prio::Val(10))),
                }
            } else {
                None
            },
            NotaLit::Const(s) => Some(s@),
        };
        match piece {
            None => None,
            Some(p) => match spec_app_aux(st, args, lits, k + 1, ix) {
                None => None,
                Some(rest) => Some(
                    p + (if k + 1 == lits.len() {
                        Seq::<char>::empty()
                    } else {
                        " "@
                    }) + rest,
                ),
            },
        }
    }
}

/// The bare renderings of the arguments from position `k` on, each preceded
/// by one space and parenthesized at priority 10.
pub open spec fn spec_bare_args(st: MmbState, args: Seq<usize>, k: int, ix: int) -> Option<
    Seq<char>,
>
    decreases ix, 0int, args.len() - k,
{
    if k < 0 || k >= args.len() {
        Some(Seq::empty())
    } else if !(args[k] < ix) {
        None
    } else {
        match sexpr2(st, args[k] as int) {
            None => None,
            Some(pr) => match spec_bare_args(st, args, k + 1, ix) {
                None => None,
                Some(rest) => Some(" "@ + spec_paren_le(pr.0, pr.1, Prio::Val(10)) + rest),
            },
        }
    }
}

/// The bare prefix rendering of an application without declared notation:
/// the term name followed by its arguments, always parenthesized.
pub open spec fn spec_print_bare(st: MmbState, term_num: TermId, args: Seq<usize>, ix: int) -> Option<
    (Seq<char>, Prio),
>
    decreases ix, 1int, 0int,
{
    match spec_bare_args(st, args, 0, ix) {
        None => None,
        Some(tail) => Some(
            (
                "<span class=\"term\">"@ + spec_term_name(*st.mmb_file, term_num) + "</span>"@
                    + tail,
                Prio::Always,
            ),
        ),
    }
}

/// Law: the positions that `bound_pos_from` collects all lie between `k`
/// and the table's length.
pub proof fn lemma_bound_pos_in_range(s: Seq<(usize, crate::binder::Binder)>, k: int)
    requires
        0 <= k,
        s.len() <= usize::MAX,
    ensures
        forall|j: int|
            0 <= j < bound_pos_from(s, k).len() ==> k <= #[trigger] bound_pos_from(s, k)[j]
                < s.len(),
    decreases s.len() - k,
{
    if k < s.len() {
        lemma_bound_pos_in_range(s, k + 1);
        let rest = bound_pos_from(s, k + 1);
        if is_bound_entry(s[k]) {
            assert(bound_pos_from(s, k) == seq![k as usize] + rest);
            assert forall|j: int|
                0 <= j < bound_pos_from(s, k).len() implies k <= #[trigger] bound_pos_from(s, k)[j]
                < s.len() by {
                if j == 0 {
                    assert(bound_pos_from(s, k)[0] == k as usize);
                } else {
                    assert(bound_pos_from(s, k)[j] == rest[j - 1]);
                }
            }
        }
    }
}

/// The dependency names of a type's dependency set, from bit `i` on: one
/// `bvar` span per set bit, naming the bound variable of that ordinal.
/// Nothing when some set bit has no bound variable.
pub open spec fn deps_names(st: MmbState, deps: u64, i: u64) -> Option<Seq<char>>
    decreases 56 - i,
{
    if i >= 56 {
        Some(Seq::empty())
    } else {
        let rest = deps_names(st, deps, (i + 1) as u64);
        if deps & (1u64 << i) != 0 {
            let bp = bound_pos_from(st.stmt_binders.stmt_vars@, 0);
            if i < bp.len() {
                match rest {
                    None => None,
                    Some(tail) => Some(
                        " <span class=\"bvar\">"@
                            + st.stmt_binders.stmt_vars@[bp[i as int] as int].1.name@ + "</span>"@
                            + tail,
                    ),
                }
            } else {
                None
            }
        } else {
            rest
        }
    }
}

/// The rendering of a type: its sort name, then the names of the bound
/// variables its dependency set lists.
pub open spec fn spec_print_type(st: MmbState, ty: Type) -> Option<Seq<char>> {
    let head = "<span class=\"sort\">"@ + crate::mmb::spec_sort_name(*st.mmb_file, ty.spec_sort())
        + "</span>"@;
    match ty.spec_deps() {
        None => Some(head),
        Some(deps) => match deps_names(st, deps, 0) {
            None => None,
            Some(tail) => Some(head + tail),
        },
    }
}

/// The rendering of node `ix` at the requested elaboration level.
pub open spec fn spec_as_sexpr(st: MmbState, ix: int) -> Option<Seq<char>> {
    if st.debug_params.elab_level == 0 {
        Some(sexpr0(st, ix))
    } else if st.debug_params.elab_level == 1 {
        sexpr1(st, ix)
    } else {
        match sexpr2(st, ix) {
            None => None,
            Some(pr) => Some(spec_paren_le(pr.0, pr.1, Prio::Never)),
        }
    }
}

impl<'a> MmbState<'a> {
    /// Renders node `ix` with numeric variable indices, bare term names and
    /// no notation, depending on nothing but the streams themselves.
    pub fn as_sexpr_level0(&self, ix: usize) -> (r: String)
        requires
            self.wf(),
            ix < self.store@.len(),
        ensures
            r@ == sexpr0(*self, ix as int),
        decreases ix,
    {
        proof {
            assert(item_bounded(self.store@[ix as int], ix as int));
        }
        match &self.store[ix] {
            MmbItem::Expr(MmbExpr::Var { idx, ty }) => {
                let mut r = if ty.bound() {
                    "<span class=\"bvar\">".to_owned()
                } else {
                    "<span class=\"var\">".to_owned()
                };
                let num = usize_to_dec(*idx);
                r.append(num.as_str());
                r.append("</span>");
                r
            },
            MmbItem::Expr(MmbExpr::App { term_num, args, .. }) => {
                let mut r = "(<span class=\"term\">".to_owned();
                let name = self.mmb_file.term_name(*term_num);
                r.append(name.as_str());
                r.append("</span>");
                let n = args.len();
                let mut k: usize = 0;
                while k < n
                    invariant
                        self.wf(),
                        ix < self.store@.len(),
                        self.store@[ix as int] matches MmbItem::Expr(MmbExpr::App {
                            term_num: tn,
                            args: a,
                            ..
                        }) && a@ == args@ && tn == *term_num,
                        k <= n,
                        n == args@.len(),
                        forall|j: int| 0 <= j < args@.len() ==> args@[j] < ix,
                        r@ + sexpr0_args(*self, args@, k as int, ix as int) == "(<span class=\"term\">"@
                            + spec_term_name(*self.mmb_file, *term_num) + "</span>"@ + sexpr0_args(
                            *self,
                            args@,
                            0,
                            ix as int,
                        ),
                    decreases n - k,
                {
                    r.append(" ");
                    let sub = self.as_sexpr_level0(args[k]);
                    r.append(sub.as_str());
                    k += 1;
                }
                r.append(")");
                proof {
                    assert(sexpr0_args(*self, args@, n as int, ix as int) == Seq::<char>::empty());
                    assert(r@ =~= "(<span class=\"term\">"@ + spec_term_name(
                        *self.mmb_file,
                        *term_num,
                    ) + "</span>"@ + sexpr0_args(*self, args@, 0, ix as int) + ")"@);
                }
                r
            },
            MmbItem::Proof(p) => {
                let mut r = "<span class=\"mmb\">|-</mmb> ".to_owned();
                let sub = self.as_sexpr_level0(*p);
                r.append(sub.as_str());
                r
            },
            MmbItem::Conv(c1, c2) => {
                let mut r = self.as_sexpr_level0(*c1);
                r.append("<span class=\"mmb\"> = </span>");
                let sub = self.as_sexpr_level0(*c2);
                r.append(sub.as_str());
                r
            },
            MmbItem::CoConv(k1, k2) => {
                let mut r = self.as_sexpr_level0(*k1);
                r.append("<span class=\"mmb\"> =?= </span>");
                let sub = self.as_sexpr_level0(*k2);
                r.append(sub.as_str());
                r
            },
        }
    }

    /// Renders node `ix` with variables elaborated to their binder names,
    /// without notation.
    pub fn as_sexpr_level1(&self, ix: usize) -> (r: Res<String>)
        requires
            self.wf(),
            ix < self.store@.len(),
        ensures
            match sexpr1(*self, ix as int) {
                Some(s) => r matches Res::<String>::Ok(out) && out@ == s,
                None => r is Err,
            },
        decreases ix,
    {
        proof {
            assert(item_bounded(self.store@[ix as int], ix as int));
        }
        match &self.store[ix] {
            MmbItem::Expr(MmbExpr::Var { idx, ty }) => {
                match self.stmt_binders.get(*idx) {
                    None => Err(self.no_binder_err(*idx)),
                    Some(entry) => {
                        let mut r = if ty.bound() {
                            "<span class=\"bvar\">".to_owned()
                        } else {
                            "<span class=\"var\">".to_owned()
                        };
                        r.append(entry.1.name.as_str());
                        r.append("</span>");
                        Ok(r)
                    },
                }
            },
            MmbItem::Expr(MmbExpr::App { term_num, args, .. }) => {
                let mut r = "(<span class=\"term\">".to_owned();
                let name = self.mmb_file.term_name(*term_num);
                r.append(name.as_str());
                r.append("</span>");
                let ghost head = "(<span class=\"term\">"@ + spec_term_name(
                    *self.mmb_file,
                    *term_num,
                ) + "</span>"@;
                let n = args.len();
                let mut k: usize = 0;
                while k < n
                    invariant
                        self.wf(),
                        ix < self.store@.len(),
                        self.store@[ix as int] matches MmbItem::Expr(MmbExpr::App {
                            term_num: tn,
                            args: a,
                            ..
                        }) && a@ == args@ && tn == *term_num,
                        k <= n,
                        n == args@.len(),
                        forall|j: int| 0 <= j < args@.len() ==> args@[j] < ix,
                        head == "(<span class=\"term\">"@ + spec_term_name(
                            *self.mmb_file,
                            *term_num,
                        ) + "</span>"@,
                        sexpr1_args(*self, args@, k as int, ix as int) is None ==> sexpr1_args(
                            *self,
                            args@,
                            0,
                            ix as int,
                        ) is None,
                        sexpr1_args(*self, args@, k as int, ix as int) matches Some(rest) ==> (
                        sexpr1_args(*self, args@, 0, ix as int) matches Some(full) && r@ + rest
                            == head + full),
                    decreases n - k,
                {
                    let sub = match self.as_sexpr_level1(args[k]) {
                        Ok(s) => s,
                        Err(e) => {
                            return Err(e);
                        },
                    };
                    let ghost r_old = r@;
                    r.append(" ");
                    r.append(sub.as_str());
                    proof {
                        if sexpr1_args(*self, args@, k as int + 1, ix as int) is Some {
                            let rest2 = sexpr1_args(*self, args@, k as int + 1, ix as int)->Some_0;
                            assert(sexpr1_args(*self, args@, k as int, ix as int) == Some(
                                " "@ + sub@ + rest2,
                            ));
                            assert(r@ + rest2 =~= r_old + (" "@ + sub@ + rest2));
                        }
                    }
                    k += 1;
                }
                proof {
                    assert(sexpr1_args(*self, args@, n as int, ix as int) == Some(
                        Seq::<char>::empty(),
                    ));
                    let full = sexpr1_args(*self, args@, 0, ix as int)->Some_0;
                    assert(r@ =~= r@ + Seq::<char>::empty());
                    assert(r@ =~= head + full);
                }
                r.append(")");
                proof {
                    assert(sexpr1(*self, ix as int) is Some);
                    assert(r@ =~= sexpr1(*self, ix as int)->Some_0);
                }
                Ok(r)
            },
            MmbItem::Proof(p) => {
                let mut r = "<span class=\"mmb\">|-</mmb> ".to_owned();
                match self.as_sexpr_level1(*p) {
                    Ok(sub) => {
                        r.append(sub.as_str());
                        Ok(r)
                    },
                    Err(e) => Err(e),
                }
            },
            MmbItem::Conv(c1, c2) => {
                let mut r = match self.as_sexpr_level1(*c1) {
                    Ok(s) => s,
                    Err(e) => {
                        return Err(e);
                    },
                };
                r.append("<span class=\"mmb\"> = </span>");
                match self.as_sexpr_level1(*c2) {
                    Ok(sub) => {
                        r.append(sub.as_str());
                        Ok(r)
                    },
                    Err(e) => Err(e),
                }
            },
            MmbItem::CoConv(k1, k2) => {
                let mut r = match self.as_sexpr_level1(*k1) {
                    Ok(s) => s,
                    Err(e) => {
                        return Err(e);
                    },
                };
                r.append("<span class=\"mmb\"> =?= </span>");
                match self.as_sexpr_level1(*k2) {
                    Ok(sub) => {
                        r.append(sub.as_str());
                        Ok(r)
                    },
                    Err(e) => Err(e),
                }
            },
        }
    }

    /// Renders node `ix` with binder names and user notation, carrying the
    /// priority the fragment binds at.
    pub fn as_sexpr_level2(&self, ix: usize) -> (r: Res<Paren>)
        requires
            self.wf(),
            ix < self.store@.len(),
        ensures
            match sexpr2(*self, ix as int) {
                Some(pr) => r matches Res::<Paren>::Ok(p) && (p.s@ == pr.0 && p.prio == pr.1),
                None => r is Err,
            },
        decreases ix, 3int,
    {
        proof {
            assert(item_bounded(self.store@[ix as int], ix as int));
        }
        match &self.store[ix] {
            MmbItem::Expr(MmbExpr::Var { idx, ty }) => {
                match self.stmt_binders.get(*idx) {
                    None => Err(self.no_binder_err(*idx)),
                    Some(entry) => {
                        let mut r = if ty.bound() {
                            "<span class=\"bvar\">".to_owned()
                        } else {
                            "<span class=\"var\">".to_owned()
                        };
                        r.append(entry.1.name.as_str());
                        r.append("</span>");
                        Ok(Paren::never(r))
                    },
                }
            },
            MmbItem::Expr(MmbExpr::App { term_num, args, .. }) => {
                self.print_app(*term_num, args, Ghost(ix as int))
            },
            MmbItem::Proof(p) => {
                match self.as_sexpr_level2(*p) {
                    Err(e) => Err(e),
                    Ok(sub) => {
                        let mut r = "<span class=\"mmb\">|-</mmb> ".to_owned();
                        let body = sub.paren_le(Prio::Never);
                        r.append(body.as_str());
                        Ok(Paren::never(r))
                    },
                }
            },
            MmbItem::Conv(c1, c2) => {
                match (self.as_sexpr_level2(*c1), self.as_sexpr_level2(*c2)) {
                    (Ok(pa), Ok(pb)) => {
                        let mut r = pa.paren_le(Prio::Never);
                        r.append("<span class=\"mmb\"> == </mmb>");
                        let right = pb.paren_le(Prio::Never);
                        r.append(right.as_str());
                        Ok(Paren::never(r))
                    },
                    (Err(e), _) => Err(e),
                    (_, Err(e)) => Err(e),
                }
            },
            MmbItem::CoConv(k1, k2) => {
                match (self.as_sexpr_level2(*k1), self.as_sexpr_level2(*k2)) {
                    (Ok(pa), Ok(pb)) => {
                        let mut r = pa.paren_le(Prio::Never);
                        r.append("<span class=\"mmb\"> =?= </mmb>");
                        let right = pb.paren_le(Prio::Never);
                        r.append(right.as_str());
                        Ok(Paren::never(r))
                    },
                    (Err(e), _) => Err(e),
                    (_, Err(e)) => Err(e),
                }
            },
        }
    }

    /// Renders an application by its declared notation, or bare where it
    /// has none.
    fn print_app(&self, term_num: TermId, args: &Vec<usize>, bound: Ghost<int>) -> (r: Res<Paren>)
        requires
            self.wf(),
            0 <= bound@ <= self.store@.len(),
            forall|j: int| 0 <= j < args@.len() ==> args@[j] < bound@,
        ensures
            match spec_print_app(*self, term_num, args@, bound@) {
                Some(pr) => r matches Res::<Paren>::Ok(p) && (p.s@ == pr.0 && p.prio == pr.1),
                None => r is Err,
            },
        decreases bound@, 2int,
    {
        match self.mm1_env.decl_nota(term_num) {
            None => self.print_bare(term_num, args, bound),
            Some(v) => {
                if v.len() == 0 {
                    self.print_bare(term_num, args, bound)
                } else if v[0].1 {
                    match self.mm1_env.infix(&v[0].0) {
                        None => Err(VerifErr::LocalMsg("print_app", "no infix found".to_owned())),
                        Some(info) => {
                            let mut acc = String::new();
                            match self.print_app_aux(args, info, &mut acc, bound) {
                                Ok(()) => Ok(self.bracket(acc, 10)),
                                Err(e) => Err(e),
                            }
                        },
                    }
                } else {
                    match self.mm1_env.prefix(&v[0].0) {
                        None => Err(VerifErr::LocalMsg("print_app", "no prefix found".to_owned())),
                        Some(info) => {
                            let mut acc = v[0].0.clone();
                            if info.lits.len() == 0 {
                                Ok(Paren::never(acc))
                            } else if info.lits.len() == 1 {
                                match self.print_app_aux(args, info, &mut acc, bound) {
                                    Ok(()) => Ok(self.bracket(acc, 20)),
                                    Err(e) => Err(e),
                                }
                            } else {
                                acc.append(" ");
                                match self.print_app_aux(args, info, &mut acc, bound) {
                                    Ok(()) => Ok(self.bracket(acc, 15)),
                                    Err(e) => Err(e),
                                }
                            }
                        },
                    }
                }
            },
        }
    }

    /// Renders the literal list of one notation, appending to `acc`.
    fn print_app_aux(
        &self,
        args: &Vec<usize>,
        nota_info: &NotaInfo,
        acc: &mut String,
        bound: Ghost<int>,
    ) -> (r: Res<()>)
        requires
            self.wf(),
            0 <= bound@ <= self.store@.len(),
            forall|j: int| 0 <= j < args@.len() ==> args@[j] < bound@,
        ensures
            match spec_app_aux(*self, args@, nota_info.lits@, 0, bound@) {
                Some(b) => r is Ok && final(acc)@ == old(acc)@ + b,
                None => r is Err,
            },
        decreases bound@, 0int,
    {
        let n = nota_info.lits.len();
        let mut k: usize = 0;
        while k < n
            invariant
                self.wf(),
                0 <= bound@ <= self.store@.len(),
                forall|j: int| 0 <= j < args@.len() ==> args@[j] < bound@,
                k <= n,
                n == nota_info.lits@.len(),
                spec_app_aux(*self, args@, nota_info.lits@, k as int, bound@) is None
                    ==> spec_app_aux(*self, args@, nota_info.lits@, 0, bound@) is None,
                spec_app_aux(*self, args@, nota_info.lits@, k as int, bound@) matches Some(rest)
                    ==> (spec_app_aux(*self, args@, nota_info.lits@, 0, bound@) matches Some(full)
                    && acc@ + rest == old(acc)@ + full),
            decreases n - k,
        {
            let ghost acc0 = acc@;
            let piece_str: String = match &nota_info.lits[k] {
                NotaLit::Var(pos, _) => {
                    if *pos >= args.len() {
                        return Err(
                            VerifErr::LocalMsg(
                                "print_app_aux",
                                "no mmb item found in args".to_owned(),
                            ),
                        );
                    }
                    match self.as_sexpr_level2(args[*pos]) {
                        Err(e) => {
                            return Err(e);
                        },
                        Ok(p) => p.paren_le(Prio::Val(10)),
                    }
                },
                NotaLit::Const(s) => s.clone(),
            };
            acc.append(piece_str.as_str());
            if k + 1 != n {
                acc.append(" ");
            }
            proof {
                let sep: Seq<char> = if k + 1 == n {
                    Seq::empty()
                } else {
                    " "@
                };
                if spec_app_aux(*self, args@, nota_info.lits@, k as int + 1, bound@) is Some {
                    let rest2 = spec_app_aux(
                        *self,
                        args@,
                        nota_info.lits@,
                        k as int + 1,
                        bound@,
                    )->Some_0;
                    assert(spec_app_aux(*self, args@, nota_info.lits@, k as int, bound@) == Some(
                        piece_str@ + sep + rest2,
                    ));
                    assert(acc@ + rest2 =~= acc0 + (piece_str@ + sep + rest2));
                }
            }
            k += 1;
        }
        proof {
            assert(spec_app_aux(*self, args@, nota_info.lits@, n as int, bound@) == Some(
                Seq::<char>::empty(),
            ));
            assert(acc@ =~= acc@ + Seq::<char>::empty());
        }
        Ok(())
    }

    /// Renders an application without notation: the term name and its
    /// arguments, always parenthesized.
    fn print_bare(&self, term_num: TermId, args: &Vec<usize>, bound: Ghost<int>) -> (r: Res<Paren>)
        requires
            self.wf(),
            0 <= bound@ <= self.store@.len(),
            forall|j: int| 0 <= j < args@.len() ==> args@[j] < bound@,
        ensures
            match spec_print_bare(*self, term_num, args@, bound@) {
                Some(pr) => r matches Res::<Paren>::Ok(p) && (p.s@ == pr.0 && p.prio == pr.1),
                None => r is Err,
            },
        decreases bound@, 1int,
    {
        let mut acc = "<span class=\"term\">".to_owned();
        let name = self.mmb_file.term_name(term_num);
        acc.append(name.as_str());
        acc.append("</span>");
        let ghost head = "<span class=\"term\">"@ + spec_term_name(*self.mmb_file, term_num)
            + "</span>"@;
        let n = args.len();
        let mut k: usize = 0;
        while k < n
            invariant
                self.wf(),
                0 <= bound@ <= self.store@.len(),
                forall|j: int| 0 <= j < args@.len() ==> args@[j] < bound@,
                k <= n,
                n == args@.len(),
                head == "<span class=\"term\">"@ + spec_term_name(*self.mmb_file, term_num)
                    + "</span>"@,
                spec_bare_args(*self, args@, k as int, bound@) is None ==> spec_bare_args(
                    *self,
                    args@,
                    0,
                    bound@,
                ) is None,
                spec_bare_args(*self, args@, k as int, bound@) matches Some(rest) ==> (
                spec_bare_args(*self, args@, 0, bound@) matches Some(full) && acc@ + rest == head
                    + full),
            decreases n - k,
        {
            match self.as_sexpr_level2(args[k]) {
                Err(e) => {
                    return Err(e);
                },
                Ok(p) => {
                    let ghost acc0 = acc@;
                    let s = p.paren_le(Prio::Val(10));
                    acc.append(" ");
                    acc.append(s.as_str());
                    proof {
                        if spec_bare_args(*self, args@, k as int + 1, bound@) is Some {
                            let rest2 = spec_bare_args(*self, args@, k as int + 1, bound@)->Some_0;
                            assert(spec_bare_args(*self, args@, k as int, bound@) == Some(
                                " "@ + s@ + rest2,
                            ));
                            assert(acc@ + rest2 =~= acc0 + (" "@ + s@ + rest2));
                        }
                    }
                },
            }
            k += 1;
        }
        proof {
            assert(spec_bare_args(*self, args@, n as int, bound@) == Some(Seq::<char>::empty()));
            if spec_bare_args(*self, args@, 0, bound@) is Some {
                let full = spec_bare_args(*self, args@, 0, bound@)->Some_0;
                assert(acc@ =~= acc@ + Seq::<char>::empty());
            }
        }
        Ok(Paren::always(acc))
    }

    /// The fragment at the priority bracketing assigns, honoring bracket
    /// level 0.
    fn bracket(&self, s: String, prio: u16) -> (r: Paren)
        ensures
            r.s@ == spec_bracket(*self, s@, prio).0,
            r.prio == spec_bracket(*self, s@, prio).1,
    {
        if self.debug_params.bracket_level == 0 {
            Paren::never(s)
        } else {
            Paren::new(s, prio)
        }
    }

    /// Renders node `ix` at the requested elaboration level.
    pub fn as_sexpr(&self, ix: usize) -> (r: Res<String>)
        requires
            self.wf(),
            ix < self.store@.len(),
        ensures
            match spec_as_sexpr(*self, ix as int) {
                Some(s) => r matches Res::<String>::Ok(out) && out@ == s,
                None => r is Err,
            },
    {
        if self.debug_params.elab_level == 0 {
            Ok(self.as_sexpr_level0(ix))
        } else if self.debug_params.elab_level == 1 {
            self.as_sexpr_level1(ix)
        } else {
            match self.as_sexpr_level2(ix) {
                Err(e) => Err(e),
                Ok(p) => Ok(p.paren_le(Prio::Never)),
            }
        }
    }

    /// Renders a type: its sort name, then the names of the bound variables
    /// its dependency set lists.
    pub fn print_type(&self, ty: Type) -> (r: Res<String>)
        ensures
            match spec_print_type(*self, ty) {
                Some(s) => r matches Res::<String>::Ok(out) && out@ == s,
                None => r is Err,
            },
    {
        let mut acc = "<span class=\"sort\">".to_owned();
        let name = self.mmb_file.sort_name(ty.sort());
        acc.append(name.as_str());
        acc.append("</span>");
        let ghost head = "<span class=\"sort\">"@ + crate::mmb::spec_sort_name(
            *self.mmb_file,
            ty.spec_sort(),
        ) + "</span>"@;
        match ty.deps() {
            None => Ok(acc),
            Some(deps) => {
                let bound = self.stmt_binders.bound_vars();
                let nvars = self.stmt_binders.stmt_vars.len();
                proof {
                    assert(self.stmt_binders.stmt_vars@.len() == nvars);
                    lemma_bound_pos_in_range(self.stmt_binders.stmt_vars@, 0);
                }
                let mut i: u64 = 0;
                while i < 56
                    invariant
                        i <= 56,
                        ty.spec_deps() == Some(deps),
                        bound@ == bound_pos_from(self.stmt_binders.stmt_vars@, 0),
                        forall|j: int| 0 <= j < bound@.len() ==> bound@[j] < self.stmt_binders.stmt_vars@.len(),
                        head == "<span class=\"sort\">"@ + crate::mmb::spec_sort_name(
                            *self.mmb_file,
                            ty.spec_sort(),
                        ) + "</span>"@,
                        deps_names(*self, deps, i) is None ==> deps_names(*self, deps, 0) is None,
                        deps_names(*self, deps, i) matches Some(rest) ==> (deps_names(
                            *self,
                            deps,
                            0,
                        ) matches Some(full) && acc@ + rest == head + full),
                    decreases 56 - i,
                {
                    if deps & (1u64 << i) != 0 {
                        if (i as usize) < bound.len() {
                            let p = bound[i as usize];
                            let ghost acc0 = acc@;
                            acc.append(" <span class=\"bvar\">");
                            acc.append(self.stmt_binders.stmt_vars[p].1.name.as_str());
                            acc.append("</span>");
                            proof {
                                if deps_names(*self, deps, (i + 1) as u64) is Some {
                                    let tail = deps_names(*self, deps, (i + 1) as u64)->Some_0;
                                    assert(acc@ + tail =~= acc0 + (" <span class=\"bvar\">"@
                                        + self.stmt_binders.stmt_vars@[bound@[i as int] as int].1.name@
                                        + "</span>"@ + tail));
                                }
                            }
                        } else {
                            proof {
                                assert(deps_names(*self, deps, i) is None);
                                assert(spec_print_type(*self, ty) is None);
                            }
                            return Err(
                                VerifErr::LocalMsg("print_type", "No bvar found for idx".to_owned()),
                            );
                        }
                    }
                    i += 1;
                }
                proof {
                    assert(deps_names(*self, deps, 56) == Some(Seq::<char>::empty()));
                    assert(acc@ =~= acc@ + Seq::<char>::empty());
                }
                Ok(acc)
            },
        }
    }

    /// The error raised when a variable has no entry in the binder table.
    fn no_binder_err(&self, idx: usize) -> (r: VerifErr)
        ensures
            r is LocalMsg,
    {
        let mut msg = "No binder found for index ".to_owned();
        let num = usize_to_dec(idx);
        msg.append(num.as_str());
        VerifErr::LocalMsg("as_sexpr", msg)
    }
}

} // verus!
