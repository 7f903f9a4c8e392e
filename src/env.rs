//! Bindings of variable names to multivectors.
use vstd::prelude::*;
use crate::multivector::R300;

verus! {

/// The value bound to `name` by the first `n` bindings: a later binding
/// shadows an earlier one of the same name.
pub open spec fn spec_lookup(bindings: Seq<(String, R300)>, n: nat, name: Seq<char>) -> Option<
    R300,
>
    decreases n,
{
    if n == 0 {
        None
    } else if bindings[n - 1].0@ == name {
        Some(bindings[n - 1].1)
    } else {
        spec_lookup(bindings, (n - 1) as nat, name)
    }
}

/// Variable names bound to multivectors.
pub struct Environment {
    bindings: Vec<(String, R300)>,
}

impl View for Environment {
    type V = Map<Seq<char>, R300>;

    closed spec fn view(&self) -> Map<Seq<char>, R300> {
        Map::new(
            |name: Seq<char>| spec_lookup(self.bindings@, self.bindings@.len(), name) is Some,
            |name: Seq<char>| spec_lookup(self.bindings@, self.bindings@.len(), name)->Some_0,
        )
    }
}

impl Environment {
    /// The environment with no binding.
    pub fn new() -> (r: Environment)
        ensures
            r@ == Map::<Seq<char>, R300>::empty(),
    {
        let r = Environment { bindings: Vec::new() };
        assert(r@ =~= Map::<Seq<char>, R300>::empty());
        r
    }

    /// Binds `name` to `value`, replacing any earlier binding of `name`.
    pub fn insert(&mut self, name: String, value: R300)
        ensures
            final(self)@ == old(self)@.insert(name@, value),
    {
        self.bindings.push((name, value));
        proof {
            let b = self.bindings@;
            assert(b.len() == old(self).bindings@.len() + 1);
            assert forall|k: Seq<char>| k != name@ implies spec_lookup(b, b.len(), k) == spec_lookup(
                old(self).bindings@,
                old(self).bindings@.len(),
                k,
            ) by {
                lemma_lookup_prefix(old(self).bindings@, b, old(self).bindings@.len(), k);
            }
            assert(final(self)@ =~= old(self)@.insert(name@, value));
        }
    }

    /// The value bound to `name`, if any.
    pub fn get(&self, name: &String) -> (r: Option<R300>)
        ensures
            r == (if self@.contains_key(name@) {
                Some(self@[name@])
            } else {
                None
            }),
    {
        let mut i: usize = self.bindings.len();
        while i > 0
            invariant
                i <= self.bindings@.len(),
                spec_lookup(self.bindings@, self.bindings@.len(), name@) == spec_lookup(
                    self.bindings@,
                    i as nat,
                    name@,
                ),
            decreases i,
        {
            if self.bindings[i - 1].0 == *name {
                return Some(self.bindings[i - 1].1);
            }
            i = i - 1;
        }
        None
    }
}

proof fn lemma_lookup_prefix(a: Seq<(String, R300)>, b: Seq<(String, R300)>, n: nat, name: Seq<char>)
    requires
        n <= a.len(),
        n <= b.len(),
        forall|i: int| 0 <= i < n ==> a[i] == b[i],
    ensures
        spec_lookup(a, n, name) == spec_lookup(b, n, name),
    decreases n,
{
    if n > 0 {
        lemma_lookup_prefix(a, b, (n - 1) as nat, name);
    }
}

} // verus!
