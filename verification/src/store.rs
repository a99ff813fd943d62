use vstd::prelude::*;

verus! {

/// A heterogeneous store keyed by value type: each Rust type used as a key
/// has exactly one slot, and inserting a value of type `T` overwrites the
/// previous `T`, if any.
///
/// Type identity is outside what the verifier can reason about, so the
/// collection is held opaquely and its operations are trusted: they rely on
/// `std::any` (`TypeId` as the key, `downcast_ref` for typed retrieval).
/// Values sit behind `Arc`, so duplicating a store shares the values; a
/// later `set` on either copy replaces a whole slot and is never visible
/// through the other copy.
#[verifier::external_body]
pub struct Store {
    map: std::collections::HashMap<core::any::TypeId, std::sync::Arc<dyn core::any::Any>>,
}

impl Store {
    /// Relies on `HashMap::new`: the fresh map holds no slot of any type.
    #[verifier::external_body]
    pub(crate) fn empty() -> Store {
        Store { map: std::collections::HashMap::new() }
    }

    /// Relies on `std::any`: `TypeId::of::<T>` names the slot for `T` and
    /// `<dyn Any>::downcast_ref::<T>` returns the held value exactly when
    /// the slot was filled with a `T`.
    #[verifier::external_body]
    pub fn get<T: 'static + Clone + Send + Sync>(&self) -> Option<&T> {
        match self.map.get(&core::any::TypeId::of::<T>()) {
            Some(slot) => slot.downcast_ref::<T>(),
            None => None,
        }
    }

    /// Relies on `HashMap::insert`: the slot named by `TypeId::of::<T>` now
    /// holds `value` and every other slot is untouched.
    #[verifier::external_body]
    pub(crate) fn set<T: 'static + Clone + Send + Sync>(&mut self, value: T) {
        let slot: std::sync::Arc<dyn core::any::Any> = std::sync::Arc::new(value);
        self.map.insert(core::any::TypeId::of::<T>(), slot);
    }

    /// Relies on `HashMap::clone`: the copy holds the same slots, and later
    /// insertions on either side stay invisible to the other.
    #[verifier::external_body]
    pub(crate) fn duplicate(&self) -> Store {
        Store { map: self.map.clone() }
    }
}

} // verus!
