//! Result slots that are filled once.

use vstd::prelude::*;

verus! {

/// A result that many callers wait for. The first result stays.
pub struct Completion<R> {
    result: Option<R>,
}

impl<R> View for Completion<R> {
    type V = Option<R>;

    closed spec fn view(&self) -> Option<R> {
        self.result
    }
}

impl<R> Completion<R> {
    /// A slot without a result.
    pub fn new() -> (r: Self)
        ensures
            r@ is None,
    {
        Completion { result: None }
    }

    /// Stores the result unless there is one already.
    pub fn finish(&mut self, result: R) -> (first: bool)
        ensures
            first == (old(self)@ is None),
            final(self)@ == (if first {
                Some(result)
            } else {
                old(self)@
            }),
    {
        if self.result.is_some() {
            return false;
        }
        self.result = Some(result);
        true
    }

    /// The result, once there is one.
    pub fn peek(&self) -> (r: Option<&R>)
        ensures
            match r {
                Some(result) => self@ == Some(*result),
                None => self@ is None,
            },
    {
        match &self.result {
            Some(result) => Some(result),
            None => None,
        }
    }
}

} // verus!
