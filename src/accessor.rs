//! The operation surface that each backend and each layer presents, and the
//! layer that wraps one accessor into another.

use vstd::prelude::*;
use crate::metadata::{caps_within, AccessorInfo, AccessorMetadata};

verus! {

/// A backend, or a layer over one.
pub trait Accessor {
    /// What `metadata` returns.
    spec fn spec_metadata(&self) -> AccessorInfo;

    /// The accessor's description of itself.
    fn metadata(&self) -> (r: AccessorMetadata)
        ensures
            r@ == self.spec_metadata();
}

/// Wraps an accessor with a cross-cutting concern.
pub trait Layer<A: Accessor> {
    /// The accessor that wrapping gives.
    type LayeredAccessor: Accessor;

    /// Wraps `inner`. A layer may add capabilities, never take one away.
    fn layer(&self, inner: A) -> (r: Self::LayeredAccessor)
        ensures
            caps_within(inner.spec_metadata().capabilities, r.spec_metadata().capabilities);
}

} // verus!
