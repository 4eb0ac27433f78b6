//! A table of values addressed by name.

use crate::text::same_text;
use vstd::prelude::*;

verus! {

/// A name and its value.
pub struct Named<V: Copy> {
    pub name: &'static str,
    pub value: V,
}

/// Values by name.
pub struct NameTable<V: Copy> {
    entries: Vec<Named<V>>,
}

/// The map that a list of named values stands for; the last entry of a name counts.
pub open spec fn named_map<V: Copy>(entries: Seq<Named<V>>) -> Map<Seq<char>, V>
    decreases entries.len(),
{
    if entries.len() == 0 {
        Map::empty()
    } else {
        named_map(entries.drop_last()).insert(entries.last().name@, entries.last().value)
    }
}

impl<V: Copy> View for NameTable<V> {
    type V = Map<Seq<char>, V>;

    closed spec fn view(&self) -> Map<Seq<char>, V> {
        named_map(self.entries@)
    }
}

impl<V: Copy> Clone for NameTable<V> {
    fn clone(&self) -> (r: Self)
        ensures
            r@ == self@,
    {
        let mut entries: Vec<Named<V>> = Vec::new();
        let mut i: usize = 0;
        while i < self.entries.len()
            invariant
                i <= self.entries@.len(),
                entries@ == self.entries@.take(i as int),
            decreases self.entries@.len() - i,
        {
            entries.push(Named { name: self.entries[i].name, value: self.entries[i].value });
            i += 1;
            assert(self.entries@.take(i as int).drop_last() =~= self.entries@.take(i - 1));
        }
        assert(self.entries@.take(i as int) =~= self.entries@);
        NameTable { entries }
    }
}

impl<V: Copy> NameTable<V> {
    pub fn new() -> (r: Self)
        ensures
            r@ == Map::<Seq<char>, V>::empty(),
    {
        NameTable { entries: Vec::new() }
    }

    /// The value of a name.
    pub fn get(&self, name: &str) -> (r: Option<V>)
        ensures
            match r {
                Some(value) => self@.contains_key(name@) && value == self@[name@],
                None => !self@.contains_key(name@),
            },
    {
        let mut i: usize = self.entries.len();
        assert(self.entries@.take(i as int) =~= self.entries@);
        while i > 0
            invariant
                i <= self.entries@.len(),
                self@.contains_key(name@) == named_map(self.entries@.take(i as int)).contains_key(
                    name@,
                ),
                self@[name@] == named_map(self.entries@.take(i as int))[name@],
            decreases i,
        {
            i -= 1;
            assert(self.entries@.take(i + 1).drop_last() =~= self.entries@.take(i as int));
            assert(self.entries@.take(i + 1).last() == self.entries@[i as int]);
            if same_text(self.entries[i].name, name) {
                return Some(self.entries[i].value);
            }
        }
        None
    }

    /// Binds a name to a value.
    pub fn bind(&mut self, name: &'static str, value: V)
        ensures
            final(self)@ == old(self)@.insert(name@, value),
    {
        self.entries.push(Named { name, value });
        assert(self.entries@.drop_last() =~= old(self).entries@);
    }
}

} // verus!
