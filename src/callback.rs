//! Host implementations given as a function of the capability, the method
//! name and the arguments.
use vstd::prelude::*;
use crate::runtime::{LocalImpl, Value};

verus! {

/// A host implementation whose methods are all answered by one function of
/// the capability, the method's name and the arguments. The function must
/// accept every input.
pub struct Callback<F: Fn(usize, String, Vec<Value>) -> Value + Copy> {
    f: F,
}

impl<F: Fn(usize, String, Vec<Value>) -> Value + Copy> Callback<F> {
    #[verifier::type_invariant]
    spec fn total(&self) -> bool {
        forall|c: usize, m: String, a: Vec<Value>| #[trigger] call_requires(self.f, (c, m, a))
    }

    /// The function that answers the methods.
    pub closed spec fn function(&self) -> F {
        self.f
    }

    /// Wraps `f`, which accepts every input.
    pub fn new(f: F) -> (r: Self)
        requires
            forall|c: usize, m: String, a: Vec<Value>| #[trigger] call_requires(f, (c, m, a)),
        ensures
            r.function() == f,
    {
        Callback { f }
    }
}

impl<F: Fn(usize, String, Vec<Value>) -> Value + Copy> LocalImpl for Callback<F> {
    /// The function gives `r` for the capability, the method's name and
    /// `args`.
    open spec fn answers(&self, cap: usize, method: Seq<char>, args: Seq<Value>, r: Value) -> bool {
        exists|m: String, a: Vec<Value>|
            m@ == method && a@ == args && #[trigger] call_ensures(self.function(), (cap, m, a), r)
    }

    fn invoke(&self, cap: usize, method: &String, args: Vec<Value>) -> (r: Value) {
        proof {
            use_type_invariant(self);
        }
        let m = method.clone();
        let ghost a = args;
        let r = (self.f)(cap, m, args);
        assert(call_ensures(self.function(), (cap, m, a), r));
        r
    }

    fn duplicate(&self) -> (r: Self) {
        proof {
            use_type_invariant(self);
        }
        Callback { f: self.f }
    }
}

} // verus!
