//! Values bound to the parameters of a statement.

use crate::text;
use crate::value::{DbValue, ValueV};
use vstd::prelude::*;
use vstd::string::*;

verus! {

/// The values bound to parameters, by name.
#[derive(Debug)]
pub struct Params {
    entries: Vec<(String, DbValue)>,
}

/// The map of a list of bindings, later ones first.
pub closed spec fn bindings(s: Seq<(String, DbValue)>) -> Map<Seq<char>, ValueV>
    decreases s.len(),
{
    if s.len() == 0 {
        Map::empty()
    } else {
        bindings(s.drop_last()).insert(s.last().0@, s.last().1@)
    }
}

impl View for Params {
    type V = Map<Seq<char>, ValueV>;

    closed spec fn view(&self) -> Map<Seq<char>, ValueV> {
        bindings(self.entries@)
    }
}

impl Params {
    /// No bindings.
    pub fn new() -> (out: Params)
        ensures
            out@ == Map::<Seq<char>, ValueV>::empty(),
    {
        Params { entries: Vec::new() }
    }

    /// Binds a parameter to a value, in place of an earlier binding.
    pub fn insert(&mut self, name: &str, v: DbValue)
        ensures
            final(self)@ == old(self)@.insert(name@, v@),
    {
        self.entries.push((name.to_owned(), v));
        assert(self.entries@.drop_last() =~= old(self).entries@);
    }

    /// The value bound to a parameter.
    pub fn get(&self, name: &str) -> (out: Option<&DbValue>)
        ensures
            match out {
                Some(v) => self@.contains_key(name@) && self@[name@] == v@,
                None => !self@.contains_key(name@),
            },
    {
        let mut i: usize = self.entries.len();
        assert(self.entries@.take(i as int) =~= self.entries@);
        while i > 0
            invariant
                i <= self.entries@.len(),
                self@.contains_key(name@) == bindings(self.entries@.take(i as int)).contains_key(name@),
                self@.contains_key(name@) ==> self@[name@] == bindings(self.entries@.take(i as int))[name@],
            decreases i,
        {
            i = i - 1;
            assert(self.entries@.take(i + 1).drop_last() =~= self.entries@.take(i as int));
            if text::same_text(self.entries[i].0.as_str(), name) {
                return Some(&self.entries[i].1);
            }
        }
        None
    }
}

} // verus!
