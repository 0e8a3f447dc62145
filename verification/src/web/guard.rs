//! Route match guards.
//!
//! A guard is a pure test on a request head. A route carries a list of
//! guards and matches only if every one of them passes.
use crate::http::message::{first_value, Method, RequestHead};
use crate::util::bytes_eq;
use vstd::prelude::*;

verus! {

/// A test on a request head. What `check` answers is a function of the
/// guard and the head alone, so that the answer may be cached and the guard
/// reused across requests.
pub trait Guard {
    /// Whether a request with this head passes.
    spec fn passes(&self, head: RequestHead) -> bool;

    /// Tests a request head.
    fn check(&self, head: &RequestHead) -> (b: bool)
        ensures
            b == self.passes(*head),
    ;
}

/// The guards built into the framework.
#[derive(Debug)]
pub enum Predicate {
    /// The request has this method.
    Method(Method),
    /// The first header of this name has this value.
    Header(Vec<u8>, Vec<u8>),
    /// The inner guard fails.
    Not(Box<Predicate>),
    /// Every inner guard passes.
    All(Vec<Predicate>),
    /// Some inner guard passes.
    Any(Vec<Predicate>),
}

impl Guard for Predicate {
    open spec fn passes(&self, head: RequestHead) -> bool
        decreases self,
    {
        match self {
            Predicate::Method(m) => head.method == *m,
            Predicate::Header(name, value) => first_value(head.headers@, name@) == Some(value@),
            Predicate::Not(inner) => !inner.passes(head),
            Predicate::All(inner) => forall|i: int|
                0 <= i < inner@.len() ==> (#[trigger] inner@[i]).passes(head),
            Predicate::Any(inner) => exists|i: int|
                0 <= i < inner@.len() && (#[trigger] inner@[i]).passes(head),
        }
    }

    fn check(&self, head: &RequestHead) -> (b: bool)
        decreases self,
    {
        match self {
            Predicate::Method(m) => head.method == *m,
            Predicate::Header(name, value) => match head.header(name.as_slice()) {
                Some(found) => bytes_eq(found.as_slice(), value.as_slice()),
                None => false,
            },
            Predicate::Not(inner) => !inner.check(head),
            Predicate::All(inner) => Self::check_every(inner, head),
            Predicate::Any(inner) => Self::check_some(inner, head),
        }
    }
}

impl Predicate {
    /// Whether every guard of `list` passes; stops at the first that fails.
    fn check_every(list: &Vec<Predicate>, head: &RequestHead) -> (b: bool)
        ensures
            b == (forall|i: int| 0 <= i < list@.len() ==> (#[trigger] list@[i]).passes(*head)),
        decreases list@,
    {
        let mut i: usize = 0;
        while i < list.len()
            invariant
                i <= list@.len(),
                forall|j: int| 0 <= j < i ==> (#[trigger] list@[j]).passes(*head),
            decreases list@.len() - i,
        {
            if !list[i].check(head) {
                return false;
            }
            i += 1;
        }
        true
    }

    /// Whether some guard of `list` passes; stops at the first that does.
    fn check_some(list: &Vec<Predicate>, head: &RequestHead) -> (b: bool)
        ensures
            b == (exists|i: int| 0 <= i < list@.len() && (#[trigger] list@[i]).passes(*head)),
        decreases list@,
    {
        let mut i: usize = 0;
        while i < list.len()
            invariant
                i <= list@.len(),
                forall|j: int| 0 <= j < i ==> !(#[trigger] list@[j]).passes(*head),
            decreases list@.len() - i,
        {
            if list[i].check(head) {
                return true;
            }
            i += 1;
        }
        false
    }
}

/// Whether every guard of the list passes.
pub open spec fn all_pass<G: Guard>(guards: Seq<G>, head: RequestHead) -> bool {
    forall|i: int| 0 <= i < guards.len() ==> (#[trigger] guards[i]).passes(head)
}

/// Whether `at` is the position of the first guard of the list that fails.
pub open spec fn fails_first_at<G: Guard>(guards: Seq<G>, head: RequestHead, at: int) -> bool {
    &&& 0 <= at < guards.len()
    &&& !guards[at].passes(head)
    &&& forall|i: int| 0 <= i < at ==> (#[trigger] guards[i]).passes(head)
}

/// Evaluates the guards from the left and stops at the first that fails.
/// Gives the position of that guard, or `None` if every guard passes.
pub fn first_failing<G: Guard>(guards: &Vec<G>, head: &RequestHead) -> (r: Option<usize>)
    ensures
        match r {
            Some(at) => fails_first_at(guards@, *head, at as int),
            None => all_pass(guards@, *head),
        },
{
    let mut i: usize = 0;
    while i < guards.len()
        invariant
            i <= guards@.len(),
            forall|j: int| 0 <= j < i ==> (#[trigger] guards@[j]).passes(*head),
        decreases guards@.len() - i,
    {
        if !guards[i].check(head) {
            return Some(i);
        }
        i += 1;
    }
    None
}

/// Whether every guard of the list passes. Guards after the first failing
/// one are not evaluated.
pub fn check_all<G: Guard>(guards: &Vec<G>, head: &RequestHead) -> (b: bool)
    ensures
        b == all_pass(guards@, *head),
{
    first_failing(guards, head).is_none()
}

/// The empty guard list passes on every request.
pub proof fn lemma_empty_guards_pass<G: Guard>(head: RequestHead)
    ensures
        all_pass(Seq::<G>::empty(), head),
{
}

/// The first failing guard decides: whatever guards follow it, the list
/// fails, and the guards before it pass on their own.
pub proof fn lemma_first_failure_decides<G: Guard>(
    guards: Seq<G>,
    more: Seq<G>,
    head: RequestHead,
    at: int,
)
    requires
        fails_first_at(guards, head, at),
    ensures
        !all_pass(guards, head),
        !all_pass(guards.take(at + 1) + more, head),
        fails_first_at(guards.take(at + 1) + more, head, at),
        all_pass(guards.take(at), head),
{
    let cut = guards.take(at + 1) + more;
    assert(cut[at] == guards[at]);
    assert forall|i: int| 0 <= i < at implies (#[trigger] cut[i]).passes(head) by {}
}

} // verus!
