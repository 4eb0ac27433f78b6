//! [`PluginKey`]: identity of plugins.

use crate::text::same_text;
use vstd::prelude::*;

verus! {

/// The stable name of a plugin.
#[derive(Clone, Copy, PartialEq, Eq, Hash, PartialOrd, Ord, Debug)]
pub struct PluginKey(&'static str);

impl View for PluginKey {
    type V = Seq<char>;

    closed spec fn view(&self) -> Seq<char> {
        self.0@
    }
}

impl PluginKey {
    pub fn new(id: &'static str) -> (r: Self)
        ensures
            r@ == id@,
    {
        PluginKey(id)
    }

    pub fn as_str(self) -> (r: &'static str)
        ensures
            r@ == self@,
    {
        self.0
    }

    pub(crate) fn same(self, other: PluginKey) -> (r: bool)
        ensures
            r == (self@ == other@),
    {
        same_text(self.0, other.0)
    }
}

} // verus!
