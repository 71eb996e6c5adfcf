//! The shared backend cell: the one slot of a process that holds its backend.
//!
//! The cell starts empty. It is filled once, and what it holds is then neither
//! taken out nor exchanged. The lock that guards it belongs to whoever owns
//! the cell; every operation here takes the cell by reference, so a caller
//! has to hold that lock to make it.
//!
//! A construction that fails leaves the cell empty and is not remembered: the
//! cell holds a backend or nothing, never an error.

use vstd::prelude::*;
use crate::registry::{BackendKind, Features};

verus! {

/// A backend that was constructed, with its kind.
#[derive(Debug, PartialEq, Eq)]
pub struct Installed<B> {
    pub kind: BackendKind,
    pub backend: B,
}

/// The slot for the backend, and the capabilities of the build.
pub struct SharedBackendCell<B> {
    features: Features,
    slot: Option<Installed<B>>,
}

/// What a cell holds after a backend was offered to it: what it held before,
/// if anything, and else the backend offered.
pub open spec fn after_offer<B>(before: Option<Installed<B>>, offered: Installed<B>) -> Option<
    Installed<B>,
> {
    match before {
        Some(held) => Some(held),
        None => Some(offered),
    }
}

impl<B> SharedBackendCell<B> {
    /// What the cell holds.
    pub closed spec fn contents(&self) -> Option<Installed<B>> {
        self.slot
    }

    /// The capabilities that the cell was made with.
    pub closed spec fn features_spec(&self) -> Features {
        self.features
    }

    /// An empty cell for a build with `features`.
    pub fn new(features: Features) -> (cell: Self)
        ensures
            cell.contents() is None,
            cell.features_spec() == features,
    {
        SharedBackendCell { features, slot: None }
    }

    /// The capabilities that the cell was made with.
    pub fn features(&self) -> (features: Features)
        ensures
            features == self.features_spec(),
    {
        self.features
    }

    /// Whether the cell holds a backend.
    pub fn is_populated(&self) -> (r: bool)
        ensures
            r == self.contents() is Some,
    {
        self.slot.is_some()
    }

    /// The kind of the backend in the cell.
    pub fn kind(&self) -> (r: Option<BackendKind>)
        ensures
            r == match self.contents() {
                Some(held) => Some(held.kind),
                None => None,
            },
    {
        match &self.slot {
            Some(held) => Some(held.kind),
            None => None,
        }
    }

    /// Offers a backend to the cell. An empty cell takes it; a cell that
    /// holds one keeps its own, and the offered one is dropped. Tells whether
    /// the cell took it.
    pub fn install(&mut self, kind: BackendKind, backend: B) -> (taken: bool)
        ensures
            taken == old(self).contents() is None,
            final(self).contents() == after_offer(
                old(self).contents(),
                Installed { kind, backend },
            ),
            final(self).features_spec() == old(self).features_spec(),
    {
        if self.slot.is_none() {
            self.slot = Some(Installed { kind, backend });
            true
        } else {
            false
        }
    }

    /// The backend in the cell, to send it a request. Its kind stays.
    pub fn backend_mut(&mut self) -> (r: Option<&mut B>)
        ensures
            final(self).features_spec() == old(self).features_spec(),
            match old(self).contents() {
                None => r is None && final(self).contents() is None,
                Some(held) => r matches Some(b) && *b == held.backend && final(self).contents()
                    == Some(Installed { kind: held.kind, backend: *final(b) }),
            },
    {
        match self.slot.as_mut() {
            Some(held) => Some(&mut held.backend),
            None => None,
        }
    }
}

} // verus!
