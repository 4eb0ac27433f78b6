//! [`IsolationLabel`]: labels that belong to one runtime.

use crate::error::CoreError;
use vstd::prelude::*;

verus! {

/// The identity of a runtime and its source of labels.
pub struct RuntimeToken {
    identity: u64,
    next_label: u64,
}

/// An isolation label; it is good for the runtime that allocated it and no other.
#[derive(Clone, Copy, Debug, PartialEq, Eq, Hash, Structural)]
pub struct IsolationLabel {
    token: u64,
    id: u64,
}

impl RuntimeToken {
    pub closed spec fn identity_spec(&self) -> u64 {
        self.identity
    }

    pub closed spec fn next_spec(&self) -> u64 {
        self.next_label
    }

    /// The token of the runtime with this identity.
    pub fn new(identity: u64) -> (r: Self)
        ensures
            r.identity_spec() == identity,
            r.next_spec() == 1,
    {
        RuntimeToken { identity, next_label: 1 }
    }

    /// There are labels left to give out.
    pub(crate) fn has_room(&self) -> (r: bool)
        ensures
            r == (self.next_spec() < u64::MAX),
    {
        self.next_label < u64::MAX
    }

    /// A label that was not allocated before.
    pub fn allocate_label(&mut self) -> (r: IsolationLabel)
        requires
            old(self).next_spec() < u64::MAX,
        ensures
            r.id_spec() == old(self).next_spec(),
            r.token_spec() == old(self).identity_spec(),
            final(self).next_spec() == old(self).next_spec() + 1,
            final(self).identity_spec() == old(self).identity_spec(),
    {
        let id: u64 = self.next_label;
        self.next_label = id + 1;
        IsolationLabel { token: self.identity, id }
    }
}

impl IsolationLabel {
    pub closed spec fn id_spec(self) -> u64 {
        self.id
    }

    /// The identity of the runtime that allocated the label.
    pub closed spec fn token_spec(self) -> u64 {
        self.token
    }

    pub fn id(&self) -> (r: u64)
        ensures
            r == self.id_spec(),
    {
        self.id
    }

    /// Rejects a label of another runtime.
    pub fn ensure_runtime(&self, token: &RuntimeToken) -> (r: Result<(), CoreError>)
        ensures
            r == (if self.token_spec() == token.identity_spec() {
                Ok(())
            } else {
                Err(CoreError::IsolationRuntimeMismatch)
            }),
    {
        if self.token == token.identity {
            Ok(())
        } else {
            Err(CoreError::IsolationRuntimeMismatch)
        }
    }
}

} // verus!
