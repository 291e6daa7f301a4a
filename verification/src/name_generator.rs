//! Fresh-name generation: a textual prefix plus a counter, paired with
//! a token space so tokens from different generators never collide.

use vstd::prelude::*;

verus! {

use vstd::string::StringExecFns;
use crate::name_resolution::NameIdentifier;
use crate::name_resolution::ResolvedIdent;
use crate::name_resolution::sat_inc;
use crate::text::dec_of;
use crate::text::u64_to_string;

/// The token space of the generator that names hoisted values during
/// K-normalization.
pub const KNF_GEN_SPACE: u64 = 1;

/// The token space of the generator that names lifted functions during
/// closure conversion.
pub const CLOSURE_GEN_SPACE: u64 = 2;

/// A generator of fresh identifiers `<prefix><n>`.
pub struct NameGenerator {
    pub prefix: String,
    pub space: u64,
    pub counter: u64,
}

impl NameGenerator {
    /// A generator over its own token space, starting at zero.
    pub fn new(prefix: &str, space: u64) -> (r: NameGenerator)
        ensures
            r.prefix@ == prefix@,
            r.space == space,
            r.counter == 0,
    {
        NameGenerator { prefix: String::from_str(prefix), space, counter: 0 }
    }

    /// The next name, advancing the counter.
    pub fn next_name(&mut self) -> (r: String)
        ensures
            r@ == old(self).prefix@ + dec_of(old(self).counter as nat),
            final(self).prefix == old(self).prefix,
            final(self).space == old(self).space,
            final(self).counter == sat_inc(old(self).counter),
    {
        let mut name = self.prefix.clone();
        name.append(u64_to_string(self.counter).as_str());
        if self.counter < u64::MAX {
            self.counter = self.counter + 1;
        }
        name
    }

    /// A fresh identifier: the next name, with a token in this
    /// generator's space.
    pub fn fresh_ident(&mut self) -> (r: ResolvedIdent)
        ensures
            r.name@ == old(self).prefix@ + dec_of(old(self).counter as nat),
            r.id == NameIdentifier::Gen(old(self).space, old(self).counter),
            final(self).prefix == old(self).prefix,
            final(self).space == old(self).space,
            final(self).counter == sat_inc(old(self).counter),
    {
        let id = self.counter;
        let name = self.next_name();
        ResolvedIdent { name, id: NameIdentifier::Gen(self.space, id) }
    }
}

} // verus!
