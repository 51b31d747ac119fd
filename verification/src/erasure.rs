//! Values and constructors of any type behind one representation.
//!
//! The verifier sees nothing inside the four types of this module and does
//! not read the functions on them: each one makes a single call into std
//! or into the caller's closure, and its contract is taken on trust. What
//! a handle holds is spoken of through `payload_key` and `payload_code`,
//! what a constructor holds through `product_key` and `called_once`; only
//! those contracts say anything of them.

use crate::container::evolves;
use crate::container::keeps;
use crate::container::Scope;
use crate::key::key_for;
use crate::key::TypeKey;
use std::any::Any;
use std::rc::Rc;
use vstd::prelude::*;

verus! {

/// A shared value whose type has been forgotten: an `Rc<dyn Any>`.
#[verifier::external_body]
pub struct Erased {
    inner: Rc<dyn Any>,
}

/// A constructor whose result type has been forgotten: a `Box<dyn Any>`
/// around a boxed closure that takes a scope.
#[verifier::external_body]
pub struct Constructor {
    inner: Box<dyn Any>,
}

/// A closure that makes a `T` from a scope and is called once.
#[verifier::external_body]
#[verifier::reject_recursive_types(T)]
pub struct Builder<T> {
    inner: Box<dyn FnOnce(&mut Scope) -> T>,
}

/// A closure that makes a `T` from a scope each time it is called.
#[verifier::external_body]
#[verifier::reject_recursive_types(T)]
pub struct Factory<T> {
    inner: Box<dyn FnMut(&mut Scope) -> T>,
}

/// The key of the type of the value behind a handle: what `Any::type_id`
/// gives for that value.
pub uninterp spec fn payload_key(handle: Erased) -> TypeKey;

/// The value behind a handle, as the code of its type writes it down.
pub uninterp spec fn payload_code(handle: Erased) -> Seq<int>;

/// `f` gives different values different codes.
pub open spec fn injective<T>(f: spec_fn(T) -> Seq<int>) -> bool {
    forall|a: T, b: T| #[trigger] f(a) == #[trigger] f(b) ==> a == b
}

/// The values of `T` can be written down as sequences of integers, each
/// in its own way. Integers, `bool` and what is made of them can; a type
/// that holds functions on handles, as ghost values may, cannot. Only
/// where the type is encodable is the value behind a handle known to be
/// the one that went in.
pub open spec fn encodable<T>() -> bool {
    exists|f: spec_fn(T) -> Seq<int>| injective(f)
}

/// The code of `item`: one fixed way of writing the values of `T` down,
/// which tells them apart where `T` is [`encodable`].
pub open spec fn code_of<T>(item: T) -> Seq<int> {
    (choose|f: spec_fn(T) -> Seq<int>| injective(f))(item)
}

impl Erased {
    /// The value behind the handle is a `T`.
    pub open spec fn holds<T>(self) -> bool {
        payload_key(self) == key_for::<T>()
    }

    /// The value behind the handle is a `T` and has the code of `item`.
    pub open spec fn carries<T>(self, item: T) -> bool {
        self.holds::<T>() && payload_code(self) == code_of(item)
    }

    /// Calls `Rc::clone` and forgets the type. Trusted: the new handle
    /// refers to the value of `handle`, a `T`.
    #[verifier::external_body]
    pub(crate) fn erase<T: 'static>(handle: &Rc<T>) -> (e: Erased)
        ensures
            payload_key(e) == key_for::<T>(),
            payload_code(e) == code_of::<T>(**handle),
    {
        Erased { inner: handle.clone() }
    }

    /// Calls `Rc::clone`. Trusted: the new handle refers to the same value.
    #[verifier::external_body]
    pub(crate) fn share(&self) -> (e: Erased)
        ensures
            e == *self,
    {
        Erased { inner: Rc::clone(&self.inner) }
    }

    /// Calls `Rc::downcast::<T>`. Trusted: it succeeds exactly where the
    /// value is a `T` and then hands out that value; otherwise it gives the
    /// handle back.
    #[verifier::external_body]
    pub(crate) fn recover<T: 'static>(self) -> (r: Result<Rc<T>, Erased>)
        ensures
            match r {
                Ok(handle) => payload_key(self) == key_for::<T>() && payload_code(self) == code_of::<T>(
                    *handle,
                ),
                Err(back) => payload_key(self) != key_for::<T>() && back == self,
            },
    {
        match self.inner.downcast::<T>() {
            Ok(handle) => Ok(handle),
            Err(inner) => Err(Erased { inner }),
        }
    }
}

impl<T: 'static> Builder<T> {
    /// Boxes the caller's closure. Trusted: nothing is claimed.
    #[verifier::external_body]
    pub(crate) fn new<B: FnOnce(&mut Scope) -> T + 'static>(builder: B) -> (b: Builder<T>) {
        Builder { inner: Box::new(builder) }
    }

    /// Calls the closure on `scope`. Trusted: nothing is claimed of what
    /// the caller's closure returns. Of the registry it is claimed that it
    /// [`evolves`], and that it [`keeps`] its keys unless the scope comes
    /// back interrupted: a scope offers nothing but `has` and `get`, no
    /// scope can be made or copied by a caller, and both keep to that. A
    /// closure that panics does not return at all; one that holds up the
    /// panic of a resolution inside it returns with the scope interrupted.
    #[verifier::external_body]
    pub(crate) fn call(self, scope: &mut Scope) -> (item: T)
        ensures
            evolves(old(scope)@, final(scope)@),
            !final(scope).interrupted() ==> keeps(old(scope)@, final(scope)@),
    {
        (self.inner)(scope)
    }
}

impl<T: 'static> Factory<T> {
    /// Boxes the caller's closure. Trusted: nothing is claimed.
    #[verifier::external_body]
    pub(crate) fn new<F: FnMut(&mut Scope) -> T + 'static>(factory: F) -> (f: Factory<T>) {
        Factory { inner: Box::new(factory) }
    }
}

/// The key of the type of which a constructor makes values: the `T` in
/// the type of the closure that `Any::type_id` identifies behind it.
pub uninterp spec fn product_key(constructor: Constructor) -> TypeKey;

/// Whether the closure behind a constructor is one that is called once, as
/// `Any::type_id` identifies it.
pub uninterp spec fn called_once(constructor: Constructor) -> bool;

/// How often the closure behind a constructor has been called.
pub uninterp spec fn calls(constructor: Constructor) -> nat;

impl Constructor {
    /// This is a builder of `T`.
    pub open spec fn builds<T>(self) -> bool {
        product_key(self) == key_for::<T>() && called_once(self)
    }

    /// This is a factory of `T`.
    pub open spec fn makes<T>(self) -> bool {
        product_key(self) == key_for::<T>() && !called_once(self)
    }

    /// Calls `Box::new` and forgets the type. Trusted: the constructor is
    /// a builder of `T`.
    #[verifier::external_body]
    pub(crate) fn of_builder<T: 'static>(builder: Builder<T>) -> (c: Constructor)
        ensures
            product_key(c) == key_for::<T>(),
            called_once(c),
    {
        Constructor { inner: Box::new(builder.inner) }
    }

    /// Calls `Box::new` and forgets the type. Trusted: the constructor is
    /// a factory of `T` that has not been called.
    #[verifier::external_body]
    pub(crate) fn of_factory<T: 'static>(factory: Factory<T>) -> (c: Constructor)
        ensures
            product_key(c) == key_for::<T>(),
            !called_once(c),
            calls(c) == 0,
    {
        Constructor { inner: Box::new(factory.inner) }
    }

    /// Calls `Box::downcast`. Trusted: it succeeds exactly where this is a
    /// builder of `T`; otherwise it gives the constructor back.
    #[verifier::external_body]
    pub(crate) fn into_builder<T: 'static>(self) -> (r: Result<Builder<T>, Constructor>)
        ensures
            match r {
                Ok(_) => product_key(self) == key_for::<T>() && called_once(self),
                Err(back) => !(product_key(self) == key_for::<T>() && called_once(self)) && back == self,
            },
    {
        match self.inner.downcast::<Box<dyn FnOnce(&mut Scope) -> T>>() {
            Ok(boxed) => Ok(Builder { inner: *boxed }),
            Err(inner) => Err(Constructor { inner }),
        }
    }

    /// Calls `downcast_mut` of `dyn Any` and, where this is a factory of
    /// `T`, the closure behind it, once, on `scope`; the closure keeps
    /// what it captured. Trusted: a value comes back exactly where this is
    /// a factory of `T`; it is a factory of `T` afterwards too, called once
    /// more than before. Nothing is claimed of the value. Of the registry
    /// the same is claimed as for a builder. Where this is no factory of
    /// `T`, nothing is called and nothing changes.
    #[verifier::external_body]
    pub(crate) fn produce<T: 'static>(&mut self, scope: &mut Scope) -> (made: Option<T>)
        ensures
            made is Some <==> old(self).makes::<T>(),
            made is Some ==> final(self).makes::<T>() && calls(*final(self)) == calls(*old(self)) + 1,
            made is None ==> *final(self) == *old(self) && final(scope)@ == old(scope)@,
            made is None ==> final(scope).interrupted() == old(scope).interrupted(),
            evolves(old(scope)@, final(scope)@),
            !final(scope).interrupted() ==> keeps(old(scope)@, final(scope)@),
    {
        match self.inner.downcast_mut::<Box<dyn FnMut(&mut Scope) -> T>>() {
            Some(factory) => Some(factory(scope)),
            None => None,
        }
    }
}

} // verus!
