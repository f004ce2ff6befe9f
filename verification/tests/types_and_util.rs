use mmb_debugger::elab::{ElabError, ElabErrorKind, ErrorLevel, ReportMode, Span};
use mmb_debugger::numfmt::{u64_to_dec, usize_to_dec};
use mmb_debugger::print::{Paren, Prio};
use mmb_debugger::types::{sorts_compatible, Type, TYPE_BOUND_MASK, TYPE_DEPS_MASK};
use mmb_debugger::util::VerifErr;

fn bound_ty(sort: u8, digit: u64) -> Type {
    Type::new(TYPE_BOUND_MASK | ((sort as u64) << 56) | digit)
}

fn plain_ty(sort: u8, deps: u64) -> Type {
    Type::new(((sort as u64) << 56) | deps)
}

#[test]
fn sorts_compatible_is_reflexive() {
    let cases = [
        Type::new(0),
        bound_ty(3, 4),
        plain_ty(7, 0b1011),
        Type::new(u64::MAX),
    ];
    for t in cases {
        assert!(sorts_compatible(t, t));
    }
}

#[test]
fn sorts_compatible_bound_asymmetry() {
    // Same sort, differing only in the bound flag: the bound type casts to
    // the unbound one and never the other way.
    let t1 = bound_ty(5, 2);
    let t2 = Type::new(t1.into_inner() ^ TYPE_BOUND_MASK);
    assert!(sorts_compatible(t1, t2));
    assert!(!sorts_compatible(t2, t1));
}

#[test]
fn sorts_compatible_needs_same_sort() {
    let a = plain_ty(1, 0);
    let b = plain_ty(2, 0);
    assert!(!sorts_compatible(a, b));
    // Only dependency bits differ: compatible either way.
    let c = plain_ty(1, 0b01);
    let d = plain_ty(1, 0b10);
    assert!(sorts_compatible(c, d));
    assert!(sorts_compatible(d, c));
}

#[test]
fn type_accessors() {
    let t = bound_ty(9, 8);
    assert!(t.bound());
    assert_eq!(t.sort(), 9);
    assert_eq!(t.bound_digit(), Some(8));
    assert_eq!(t.deps(), None);
    let u = plain_ty(9, 0b101);
    assert!(!u.bound());
    assert_eq!(u.deps(), Some(0b101));
    assert_eq!(u.bound_digit(), None);
    assert!(u.depends_on(0));
    assert!(!u.depends_on(1));
    assert!(u.depends_on(2));
    assert!(u.has_deps());
    assert!(!t.has_deps());
    assert!(t.disjoint(plain_ty(9, 0b10)));
    assert!(!t.disjoint(plain_ty(9, 0b1000)));
    let n = Type::new_of_sort(4);
    assert_eq!(n.into_inner(), 4u64 << 56);
}

#[test]
fn decimal_rendering() {
    assert_eq!(u64_to_dec(0), "0");
    assert_eq!(u64_to_dec(7), "7");
    assert_eq!(u64_to_dec(10), "10");
    assert_eq!(u64_to_dec(56), "56");
    assert_eq!(u64_to_dec(1844674407370955161), "1844674407370955161");
    assert_eq!(usize_to_dec(12345), "12345");
}

#[test]
fn verif_err_rendering() {
    let e = VerifErr::MakeSure("proof_cong");
    assert_eq!(e.render(), "VerifErr::MakeSure { site: proof_cong }");
    let m = VerifErr::Msg("Bad unify ref".to_string());
    assert_eq!(m.render(), "VerifErr::Msg { msg: Bad unify ref }");
    let l = VerifErr::Local("run_proof", Box::new(VerifErr::NoneErr("proof_ref")));
    assert_eq!(
        l.render(),
        "VerifErr::Local { site: run_proof, msg: VerifErr::NoneErr { site: proof_ref } }"
    );
}

#[test]
fn paren_priorities() {
    // Always wraps under any context.
    assert_eq!(Paren::always("x".to_string()).paren_le(Prio::Never), "(x)");
    // Never stays bare.
    assert_eq!(Paren::never("x".to_string()).paren_le(Prio::Val(10)), "x");
    // A value wraps when the context's value is at least as high.
    assert_eq!(Paren::new("x".to_string(), 10).paren_le(Prio::Val(10)), "(x)");
    assert_eq!(Paren::new("x".to_string(), 15).paren_le(Prio::Val(10)), "x");
    // An Always context wraps even a Never fragment.
    assert_eq!(Paren::never("x".to_string()).paren_le(Prio::Always), "(x)");
}

#[test]
fn elab_error_family() {
    let pos = Span { start: 3, end: 9 };
    let e = ElabError::new_e(pos, "term not declared".to_string());
    assert_eq!(e.level, ErrorLevel::Error);
    assert_eq!(e.pos, pos);
    assert_eq!(e.kind.msg(), "term not declared");
    let i = ElabError::info(pos, "fyi".to_string());
    assert_eq!(i.level, ErrorLevel::Info);
    let w = ElabError::with_info(pos, "outer".to_string(), vec![]);
    match &w.kind {
        ElabErrorKind::Boxed(m, rel) => {
            assert_eq!(m, "outer");
            assert!(rel.is_some());
        },
    }
    let rm = ReportMode::new();
    assert!(rm.active(ErrorLevel::Error));
    assert!(rm.active(ErrorLevel::Warning));
    assert!(rm.active(ErrorLevel::Info));
}
