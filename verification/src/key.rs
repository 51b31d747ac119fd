//! The identity under which a type is registered.

use std::any::TypeId;
use vstd::prelude::*;

verus! {

/// std's identifier of a type. Nothing of its contents is known here.
#[verifier::external_type_specification]
#[verifier::external_body]
pub struct ExTypeId(TypeId);

/// The key of a type in a registry.
#[derive(Clone, Copy, Debug, PartialEq, Eq)]
pub struct TypeKey {
    pub(crate) id: TypeId,
}

/// The key that stands for `T`. It is fixed by the type alone; which value
/// it is stays unknown. std gives different types different identifiers,
/// but that two types are different cannot be said in a contract: whether
/// two keys differ is learnt by comparing them, with [`TypeKey::is`].
pub closed spec fn key_for<T>() -> TypeKey {
    vstd::pervasive::arbitrary::<(TypeKey, Ghost<T>)>().0
}

/// What `Debug` prints for std's identifier of a type.
pub uninterp spec fn debug_text(id: TypeId) -> Seq<char>;

impl TypeKey {
    /// The text by which messages name the type.
    pub closed spec fn text(self) -> Seq<char> {
        debug_text(self.id)
    }

    /// Calls `TypeId::of::<T>()`. Trusted: the identifier depends on `T`
    /// alone, so every call for one type gives the same key.
    #[verifier::external_body]
    pub(crate) fn identify<T: 'static>() -> (key: TypeKey)
        ensures
            key == key_for::<T>(),
    {
        TypeKey { id: TypeId::of::<T>() }
    }

    /// The key of `T`.
    pub fn of<T: 'static>() -> (key: TypeKey)
        ensures
            key == key_for::<T>(),
    {
        TypeKey::identify::<T>()
    }

    /// Whether this key and `other` are one key. Keys of two types can be
    /// told apart only by asking.
    pub fn is(&self, other: &TypeKey) -> (r: bool)
        ensures
            r == (*self == *other),
    {
        self.same(other)
    }

    /// Calls `==` of `TypeId`. Trusted: it answers `true` exactly for two
    /// identifiers that are the same value.
    #[verifier::external_body]
    pub(crate) fn same(&self, other: &TypeKey) -> (r: bool)
        ensures
            r == (*self == *other),
    {
        self.id == other.id
    }

    /// Formats the identifier with `{:?}`. Trusted: the text depends on the
    /// identifier alone.
    #[verifier::external_body]
    pub(crate) fn describe(&self) -> (r: String)
        ensures
            r@ == debug_text(self.id),
            r@ == self.text(),
    {
        format!("{:?}", self.id)
    }
}

} // verus!
