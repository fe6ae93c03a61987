//! A one-shot signal that can be checked at any time.

use vstd::prelude::*;

verus! {

/// A mechanism to record a single signal.
///
/// A fuze starts out unburnt and shows up as burnt once it has been burnt.
/// Nothing unburns it: the only way to change a fuze is to burn it.
///
/// There is one fuze for one signal. It cannot be copied or cloned, so that
/// no copy can miss the burn: all who are to see the signal look at the one
/// fuze.
#[derive(Debug, PartialEq, Eq, Structural)]
pub struct Fuze {
    lit: bool,
}

impl Fuze {
    /// Whether the fuze is burnt, as contracts see it.
    pub closed spec fn spec_burnt(&self) -> bool {
        self.lit
    }

    /// The burnt fuze.
    pub closed spec fn spec_burnt_out() -> Fuze {
        Fuze { lit: true }
    }

    /// Creates a new unburnt fuze.
    pub fn new() -> (fuze: Self)
        ensures
            !fuze.spec_burnt(),
    {
        Fuze { lit: false }
    }

    /// Burns the fuze. Burning a burnt fuze changes nothing.
    pub fn burn(&mut self)
        ensures
            *final(self) == Fuze::spec_burnt_out(),
            final(self).spec_burnt(),
            old(self).spec_burnt() ==> *final(self) == *old(self),
    {
        self.lit = true;
    }

    /// Checks whether the fuze is burnt or not.
    #[verifier::when_used_as_spec(spec_burnt)]
    pub fn burnt(&self) -> (b: bool)
        ensures
            b == self.spec_burnt(),
    {
        self.lit
    }
}

impl Default for Fuze {
    fn default() -> (fuze: Self)
        ensures
            !fuze.spec_burnt(),
    {
        Fuze::new()
    }
}

/// A fuze is what it shows: two fuzes that are both burnt, or both unburnt,
/// are the same, and the burnt fuze is burnt.
pub proof fn lemma_fuze_same(a: Fuze, b: Fuze)
    ensures
        a.spec_burnt() == b.spec_burnt() ==> a == b,
        Fuze::spec_burnt_out().spec_burnt(),
{
}

} // verus!
