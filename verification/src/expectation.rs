//! Boolean predicates with a description, for stating expectations.
//!
//! A predicate wraps a function from a value to `bool`. Predicates form a
//! boolean algebra: they can be combined with `and`, `or` and `not`, and the
//! description of the combination is built from the descriptions of its
//! parts.

use vstd::prelude::*;
use vstd::std_specs::cmp::PartialEqSpec;
use vstd::std_specs::convert::IntoSpec;
use vstd::string::StringExecFns;
use std::fmt::Debug;
use std::marker::PhantomData;

verus! {

/// A text that explains which expectation was not met.
#[derive(Debug, Clone, PartialEq, Eq)]
pub struct AssertionText(pub String);

impl View for AssertionText {
    type V = Seq<char>;

    open spec fn view(&self) -> Seq<char> {
        self.0@
    }
}

/// The description of a predicate that was given none.
pub open spec fn unlabelled() -> Seq<char> {
    "<Unrepresentable Predicate>"@
}

/// The description of the disjunction of two predicates.
pub open spec fn or_description(lhs: Seq<char>, rhs: Seq<char>) -> Seq<char> {
    "("@ + lhs + ") OR ("@ + rhs + ")"@
}

/// The description of the conjunction of two predicates.
pub open spec fn and_description(lhs: Seq<char>, rhs: Seq<char>) -> Seq<char> {
    "("@ + lhs + ") AND ("@ + rhs + ")"@
}

/// The description of the negation of a predicate.
pub open spec fn not_description(inner: Seq<char>) -> Seq<char> {
    "NOT ("@ + inner + ")"@
}

/// The description of a predicate seen through a projection named `path`.
pub open spec fn over_description(path: Seq<char>, inner: Seq<char>) -> Seq<char> {
    "OVER\n\t"@ + path + "\nEXPECTED\n\t"@ + inner
}

/// The description of a predicate that compares with a value whose debug
/// text is `text`.
pub open spec fn equal_description(text: Seq<char>) -> Seq<char> {
    "Equal to "@ + text
}

/// The debug text of a value, as `std::fmt::Debug` formats it. Nothing is
/// claimed of the text.
#[verifier::external_body]
fn debug_text<T: Debug>(value: &T) -> (text: String) {
    format!("{:?}", value)
}

/// A boolean predicate on values of type `T`, with a description.
pub struct Predicate<T, F: Fn(&T) -> bool> {
    inner: F,
    description: String,
    marker: PhantomData<T>,
}

impl<T: 'static, F: Fn(&T) -> bool> Predicate<T, F> {
    /// Whether the predicate may be asked about `t`.
    pub closed spec fn defined_on(&self, t: &T) -> bool {
        self.inner.requires((t,))
    }

    /// Whether `b` is an answer that the predicate may give about `t`.
    pub closed spec fn answers(&self, t: &T, b: bool) -> bool {
        self.inner.ensures((t,), b)
    }

    /// The description of the predicate.
    pub closed spec fn description(&self) -> Seq<char> {
        self.description@
    }

    /// The predicate that answers as `f` does, described by `label` if there
    /// is one.
    pub fn new(f: F, label: Option<&str>) -> (p: Predicate<T, F>)
        ensures
            forall|t: &T| f.requires((t,)) ==> #[trigger] p.defined_on(t),
            forall|t: &T, b: bool| #[trigger] p.answers(t, b) ==> f.ensures((t,), b),
            p.description() == (match label {
                Some(l) => l@,
                None => unlabelled(),
            }),
    {
        let description = match label {
            Some(l) => String::from_str(l),
            None => String::from_str("<Unrepresentable Predicate>"),
        };
        Predicate { inner: f, description, marker: PhantomData }
    }

    /// The answer of the predicate about `t`.
    pub fn satisfied(&self, t: &T) -> (b: bool)
        requires
            self.defined_on(t),
        ensures
            self.answers(t, b),
    {
        (self.inner)(t)
    }

    /// `Ok` when the predicate holds of `t`, else the description of the
    /// predicate as the text of the failure.
    pub fn satisfied_(&self, t: &T) -> (r: Result<(), AssertionText>)
        requires
            self.defined_on(t),
        ensures
            self.answers(t, r is Ok),
            r is Err ==> r->Err_0@ == self.description(),
    {
        if (self.inner)(t) {
            Ok(())
        } else {
            Err(AssertionText(self.describe()))
        }
    }

    /// The description of the predicate.
    pub fn describe(&self) -> (s: String)
        ensures
            s@ == self.description(),
    {
        self.description.clone()
    }

    /// The negation: it answers the opposite of what this predicate answers.
    pub fn not(self) -> (r: Predicate<T, impl Fn(&T) -> bool>)
        ensures
            forall|t: &T| self.defined_on(t) ==> #[trigger] r.defined_on(t),
            forall|t: &T, b: bool| #[trigger] r.answers(t, b) ==> self.answers(t, !b),
            r.description() == not_description(self.description()),
    {
        let description = String::from_str("NOT (").concat(self.description.as_str()).concat(")");
        let f = self.inner;
        let ghost pre = |t: &T| f.requires((t,));
        let ghost post = |t: &T, b: bool| f.ensures((t,), b);
        let g = move |t: &T| -> (b: bool)
            requires
                pre(t),
            ensures
                post(t, !b),
            { !f(t) };
        Predicate { inner: g, description, marker: PhantomData }
    }

    /// The disjunction: it holds when this predicate holds, and else answers
    /// as `rhs` does.
    pub fn or<G: Fn(&T) -> bool>(self, rhs: Predicate<T, G>) -> (r: Predicate<T, impl Fn(&T) -> bool>)
        ensures
            forall|t: &T| self.defined_on(t) && rhs.defined_on(t) ==> #[trigger] r.defined_on(t),
            forall|t: &T, b: bool| #[trigger]
                r.answers(t, b) ==> (b && self.answers(t, true)) || (self.answers(t, false)
                    && rhs.answers(t, b)),
            r.description() == or_description(self.description(), rhs.description()),
    {
        let description = String::from_str("(").concat(self.description.as_str()).concat(
            ") OR (",
        ).concat(rhs.description.as_str()).concat(")");
        let f = self.inner;
        let g = rhs.inner;
        let ghost pre = |t: &T| f.requires((t,)) && g.requires((t,));
        let ghost post = |t: &T, b: bool|
            (b && f.ensures((t,), true)) || (f.ensures((t,), false) && g.ensures((t,), b));
        let h = move |t: &T| -> (b: bool)
            requires
                pre(t),
            ensures
                post(t, b),
            { f(t) || g(t) };
        Predicate { inner: h, description, marker: PhantomData }
    }

    /// The conjunction: it fails when this predicate fails, and else answers
    /// as `rhs` does.
    pub fn and<G: Fn(&T) -> bool>(self, rhs: Predicate<T, G>) -> (r: Predicate<T, impl Fn(&T) -> bool>)
        ensures
            forall|t: &T| self.defined_on(t) && rhs.defined_on(t) ==> #[trigger] r.defined_on(t),
            forall|t: &T, b: bool| #[trigger]
                r.answers(t, b) ==> (!b && self.answers(t, false)) || (self.answers(t, true)
                    && rhs.answers(t, b)),
            r.description() == and_description(self.description(), rhs.description()),
    {
        let description = String::from_str("(").concat(self.description.as_str()).concat(
            ") AND (",
        ).concat(rhs.description.as_str()).concat(")");
        let f = self.inner;
        let g = rhs.inner;
        let ghost pre = |t: &T| f.requires((t,)) && g.requires((t,));
        let ghost post = |t: &T, b: bool|
            (!b && f.ensures((t,), false)) || (f.ensures((t,), true) && g.ensures((t,), b));
        let h = move |t: &T| -> (b: bool)
            requires
                pre(t),
            ensures
                post(t, b),
            { f(t) && g(t) };
        Predicate { inner: h, description, marker: PhantomData }
    }
}

impl<B: 'static, F: Fn(&B) -> bool> Predicate<B, F> {
    /// This predicate, asked about what `project` makes of a value. `path`
    /// names the projection in the description.
    pub fn over<P, A: 'static, S>(self, project: P, path: S) -> (r: Predicate<A, impl Fn(&A) -> bool>) where
        P: Fn(&A) -> B,
        S: Into<String>,

        ensures
            forall|a: &A|
                project.requires((a,)) && (forall|b: B| #[trigger]
                    project.ensures((a,), b) ==> self.defined_on(&b)) ==> #[trigger] r.defined_on(a),
            forall|a: &A, answer: bool| #[trigger]
                r.answers(a, answer) ==> exists|b: B| #[trigger]
                    project.ensures((a,), b) && self.answers(&b, answer),
            S::obeys_into_spec() ==> r.description() == over_description(
                path.into_spec()@,
                self.description(),
            ),
    {
        let name: String = path.into();
        let description = String::from_str("OVER\n\t").concat(name.as_str()).concat(
            "\nEXPECTED\n\t",
        ).concat(self.description.as_str());
        let f = self.inner;
        let ghost pre = |a: &A|
            project.requires((a,)) && forall|b: B| #[trigger]
                project.ensures((a,), b) ==> f.requires((&b,));
        let ghost post = |a: &A, answer: bool|
            exists|b: B| #[trigger] project.ensures((a,), b) && f.ensures((&b,), answer);
        let h = move |a: &A| -> (answer: bool)
            requires
                pre(a),
            ensures
                post(a, answer),
            {
                let b = project(a);
                f(&b)
            };
        let r = Predicate { inner: h, description, marker: PhantomData };
        proof {
            assert forall|a: &A|
                project.requires((a,)) && (forall|b: B| #[trigger]
                    project.ensures((a,), b) ==> self.defined_on(&b)) implies #[trigger] r.defined_on(
                a,
            ) by {
                assert forall|b: B| #[trigger] project.ensures((a,), b) implies f.requires((&b,)) by {
                    assert(self.defined_on(&b));
                }
                assert(pre(a));
            }
            assert forall|a: &A, answer: bool| #[trigger] r.answers(a, answer) implies exists|b: B| #[trigger]
                project.ensures((a,), b) && self.answers(&b, answer) by {
                assert(post(a, answer));
                let b = choose|b: B| #[trigger] project.ensures((a,), b) && f.ensures((&b,), answer);
                assert(project.ensures((a,), b) && self.answers(&b, answer));
            }
        }
        r
    }
}

impl<T: PartialEq + Debug + 'static> Predicate<T, fn(&T) -> bool> {
    /// The predicate that holds of the values equal to `expected`, described
    /// by the given text.
    pub fn equal_described(expected: T, text: String) -> (r: Predicate<T, impl Fn(&T) -> bool>)
        ensures
            forall|t: &T| #[trigger] r.defined_on(t),
            forall|t: &T, b: bool| #[trigger]
                r.answers(t, b) ==> (T::obeys_eq_spec() ==> b == t.eq_spec(&expected)),
            r.description() == equal_description(text@),
    {
        let description = String::from_str("Equal to ").concat(text.as_str());
        let ghost post = |t: &T, b: bool| T::obeys_eq_spec() ==> b == t.eq_spec(&expected);
        let h = move |t: &T| -> (b: bool)
            ensures
                post(t, b),
            { *t == expected };
        Predicate { inner: h, description, marker: PhantomData }
    }

    /// The predicate that holds of the values equal to `expected`. Its
    /// description names the value by its debug text.
    pub fn equal(expected: T) -> (r: Predicate<T, impl Fn(&T) -> bool>)
        ensures
            forall|t: &T| #[trigger] r.defined_on(t),
            forall|t: &T, b: bool| #[trigger]
                r.answers(t, b) ==> (T::obeys_eq_spec() ==> b == t.eq_spec(&expected)),
            exists|text: Seq<char>| r.description() == equal_description(text),
    {
        let text = debug_text(&expected);
        Self::equal_described(expected, text)
    }
}

} // verus!
