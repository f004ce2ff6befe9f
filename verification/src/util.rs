//! Verification errors and small helpers shared by the whole engine.

use vstd::prelude::*;

verus! {

/// A value of one of two shapes.
#[derive(Debug, Clone, PartialEq, Eq, Hash)]
pub enum Either<A, B> {
    L(A),
    R(B),
}

/// The failure of one check of the verifier.  Every command of the proof and
/// unification streams rejects an ill-formed proof with one of these kinds;
/// the site label names the check that fired.
#[derive(Debug)]
pub enum VerifErr {
    /// An invariant of the proof format was violated at the named check.
    MakeSure(&'static str),
    /// A required lookup returned nothing at the named check.
    NoneErr(&'static str),
    /// A conversion failed at the named check.
    ConvErr(&'static str),
    /// A failure described in free text.
    Msg(String),
    /// A failure described in free text, tied to the named check.
    LocalMsg(&'static str, String),
    /// A wrapper recording the site through which an inner error surfaced.
    Local(&'static str, Box<VerifErr>),
    /// A branch that earlier checks should have made impossible.
    Unreachable(&'static str),
    /// A failure of the surrounding input machinery; never emitted here.
    IoErr(&'static str, String),
}

pub type Res<A> = Result<A, VerifErr>;

/// The rendering of a verification error, one line naming its kind, its
/// site, and its message.
pub open spec fn err_chars(e: VerifErr) -> Seq<char>
    decreases e,
{
    match e {
        VerifErr::MakeSure(site) => "VerifErr::MakeSure { site: "@ + site@ + " }"@,
        VerifErr::NoneErr(site) => "VerifErr::NoneErr { site: "@ + site@ + " }"@,
        VerifErr::ConvErr(site) => "VerifErr::ConvErr { site: "@ + site@ + " }"@,
        VerifErr::Msg(s) => "VerifErr::Msg { msg: "@ + s@ + " }"@,
        VerifErr::LocalMsg(site, s) => "VerifErr::LocalMsg { site: "@ + site@ + ", msg: "@
            + s@ + " }"@,
        VerifErr::Local(site, inner) => "VerifErr::Local { site: "@ + site@ + ", msg: "@
            + err_chars(*inner) + " }"@,
        VerifErr::Unreachable(site) => "VerifErr::Unreachable { site: "@ + site@ + " }"@,
        VerifErr::IoErr(site, s) => "VerifErr::IoErr { site: "@ + site@ + ", err: "@ + s@
            + " }"@,
    }
}

impl VerifErr {
    /// The error as text, for the `error` field of a response.
    pub fn render(&self) -> (r: String)
        ensures
            r@ == err_chars(*self),
        decreases *self,
    {
        match self {
            VerifErr::MakeSure(site) => {
                let mut r = "VerifErr::MakeSure { site: ".to_owned();
                r.append(site);
                r.append(" }");
                r
            },
            VerifErr::NoneErr(site) => {
                let mut r = "VerifErr::NoneErr { site: ".to_owned();
                r.append(site);
                r.append(" }");
                r
            },
            VerifErr::ConvErr(site) => {
                let mut r = "VerifErr::ConvErr { site: ".to_owned();
                r.append(site);
                r.append(" }");
                r
            },
            VerifErr::Msg(s) => {
                let mut r = "VerifErr::Msg { msg: ".to_owned();
                r.append(s.as_str());
                r.append(" }");
                r
            },
            VerifErr::LocalMsg(site, s) => {
                let mut r = "VerifErr::LocalMsg { site: ".to_owned();
                r.append(site);
                r.append(", msg: ");
                r.append(s.as_str());
                r.append(" }");
                r
            },
            VerifErr::Local(site, inner) => {
                let mut r = "VerifErr::Local { site: ".to_owned();
                r.append(site);
                r.append(", msg: ");
                let irend = inner.render();
                r.append(irend.as_str());
                r.append(" }");
                r
            },
            VerifErr::Unreachable(site) => {
                let mut r = "VerifErr::Unreachable { site: ".to_owned();
                r.append(site);
                r.append(" }");
                r
            },
            VerifErr::IoErr(site, s) => {
                let mut r = "VerifErr::IoErr { site: ".to_owned();
                r.append(site);
                r.append(", err: ");
                r.append(s.as_str());
                r.append(" }");
                r
            },
        }
    }
}

} // verus!
