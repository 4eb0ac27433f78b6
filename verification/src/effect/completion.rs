//! The shared result of one release.

use crate::error::CoreError;
use crate::text::copy_texts;
use crate::text;
use vstd::prelude::*;

verus! {

/// The result slot of one release. The first result stays.
pub struct DisposeCompletion {
    result: Option<Vec<String>>,
}

impl View for DisposeCompletion {
    type V = Option<Seq<Seq<char>>>;

    closed spec fn view(&self) -> Option<Seq<Seq<char>>> {
        match self.result {
            Some(errors) => Some(text::texts(errors@)),
            None => None,
        }
    }
}

/// What a waiter is told once a release ended with these errors.
pub open spec fn release_result(errors: Seq<Seq<char>>, r: Result<(), CoreError>) -> bool {
    match r {
        Ok(()) => errors.len() == 0,
        Err(CoreError::DisposeFailed { errors: list }) => errors.len() > 0 && text::texts(list@)
            == errors,
        Err(_) => false,
    }
}

impl DisposeCompletion {
    pub fn new() -> (r: Self)
        ensures
            r@ is None,
    {
        DisposeCompletion { result: None }
    }

    /// A release that ended without errors.
    pub fn finished() -> (r: Self)
        ensures
            r@ == Some(Seq::<Seq<char>>::empty()),
    {
        let r = DisposeCompletion { result: Some(Vec::new()) };
        assert(r@->0 =~= Seq::<Seq<char>>::empty());
        r
    }

    /// Stores the errors of the release unless a result is there already.
    pub fn finish(&mut self, errors: Vec<String>) -> (first: bool)
        ensures
            first == (old(self)@ is None),
            final(self)@ == (if first {
                Some(text::texts(errors@))
            } else {
                old(self)@
            }),
    {
        if self.result.is_some() {
            return false;
        }
        self.result = Some(errors);
        true
    }

    /// What a waiter sees: nothing while the release runs, then the same result for
    /// every waiter.
    pub fn outcome(&self) -> (r: Option<Result<(), CoreError>>)
        ensures
            match r {
                None => self@ is None,
                Some(result) => self@ is Some && release_result(self@->0, result),
            },
    {
        match &self.result {
            None => None,
            Some(errors) => {
                if errors.len() == 0 {
                    Some(Ok(()))
                } else {
                    Some(Err(CoreError::DisposeFailed { errors: copy_texts(errors) }))
                }
            },
        }
    }
}

} // verus!
