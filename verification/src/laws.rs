//! What holds of every registry, whatever was registered in it.
//!
//! Each law speaks of registries as the contracts of [`Container`] do: of
//! the map before a call, the map after it, and the call's result.

use crate::container::gives;
use crate::container::kind_at;
use crate::container::makes;
use crate::container::registration;
use crate::container::resolution;
use crate::container::builds;
use crate::container::evolves;
use crate::container::holds_shared;
use crate::container::keeps;
use crate::container::shares;
use crate::container::Container;
use crate::container::Registry;
use crate::container::ResolverType;
use crate::erasure::calls;
use crate::erasure::encodable;
use crate::erasure::Erased;
use crate::erasure::injective;
use crate::error::DiError;
use crate::key::key_for;
use crate::key::TypeKey;
use std::rc::Rc;
use vstd::prelude::*;

verus! {

/// A registration under a free key succeeds, whatever the entry's shape.
pub proof fn law_free_key_is_accepted(
    before: Registry,
    after: Registry,
    key: TypeKey,
    kind: ResolverType,
    r: Result<(), DiError>,
)
    requires
        registration(before, after, key, kind, r),
        !before.contains_key(key),
    ensures
        r == Ok::<(), DiError>(()),
        kind_at(after, key) == Some(kind),
{
}

/// After a registration under a key, whether it succeeded or not, a second
/// one under the same key fails with `DuplicateRegistration` and leaves
/// the registry as the first left it.
pub proof fn law_second_registration_is_refused(
    before: Registry,
    between: Registry,
    after: Registry,
    key: TypeKey,
    first_kind: ResolverType,
    second_kind: ResolverType,
    first: Result<(), DiError>,
    second: Result<(), DiError>,
)
    requires
        registration(before, between, key, first_kind, first),
        registration(between, after, key, second_kind, second),
    ensures
        second == Err::<(), DiError>(DiError::DuplicateRegistration(key)),
        after == between,
{
}

/// A registration that fails changes nothing, and one that succeeds
/// changes no entry but its own.
pub proof fn law_registration_keeps_other_entries(
    before: Registry,
    after: Registry,
    key: TypeKey,
    kind: ResolverType,
    r: Result<(), DiError>,
    other: TypeKey,
)
    requires
        registration(before, after, key, kind, r),
        other != key,
    ensures
        after.contains_key(other) == before.contains_key(other),
        before.contains_key(other) ==> after[other] == before[other],
        r is Err ==> after == before,
{
}

/// A type without an entry resolves to `NotRegistered`, and the attempt
/// changes nothing.
pub proof fn law_unregistered_is_not_resolved<T>(before: Registry, after: Registry, r: Result<Rc<T>, DiError>)
    requires
        resolution::<T>(before, after, r),
        !before.contains_key(key_for::<T>()),
    ensures
        r == Err::<Rc<T>, DiError>(DiError::NotRegistered(key_for::<T>())),
        after == before,
{
}

/// Putting back what was taken out restores the registry: the swap of a
/// constructor for its successor touches no other entry.
pub proof fn law_take_then_put_back(before: Registry, key: TypeKey)
    requires
        before.contains_key(key),
    ensures
        !before.remove(key).contains_key(key),
        before.remove(key).insert(key, before[key]) == before,
{
    assert(before.remove(key).insert(key, before[key]) =~= before);
}

/// A new container has no entry: asked for any key, `has` says no.
pub proof fn law_new_container_has_nothing(container: Container, key: TypeKey)
    requires
        container@ == Registry::empty(),
    ensures
        !container@.contains_key(key),
{
}

/// What `has` answers around a registration: for the registered key `true`
/// right after it, whatever it answered before; for every other key what
/// it answered before.
pub proof fn law_has_follows_registration(
    before: Registry,
    after: Registry,
    key: TypeKey,
    kind: ResolverType,
    r: Result<(), DiError>,
    asked: TypeKey,
)
    requires
        registration(before, after, key, kind, r),
    ensures
        after.contains_key(asked) == (asked == key || before.contains_key(asked)),
        r is Ok <==> !before.contains_key(key),
{
}

/// A type whose values can be told apart by a code of integers is
/// encodable.
pub proof fn law_coded_type_is_encodable<T>(f: spec_fn(T) -> Seq<int>)
    requires
        injective(f),
    ensures
        encodable::<T>(),
{
}

/// The unsigned and signed integers of 32 and 64 bits and `bool` are
/// encodable.
pub proof fn law_plain_values_are_encodable()
    ensures
        encodable::<u32>(),
        encodable::<u64>(),
        encodable::<i32>(),
        encodable::<i64>(),
        encodable::<bool>(),
{
    let a = |x: u32| seq![x as int];
    assert forall|x: u32, y: u32| #[trigger] a(x) == #[trigger] a(y) implies x == y by {
        assert(a(x)[0] == a(y)[0]);
    }
    assert(injective(a));
    let b = |x: u64| seq![x as int];
    assert forall|x: u64, y: u64| #[trigger] b(x) == #[trigger] b(y) implies x == y by {
        assert(b(x)[0] == b(y)[0]);
    }
    assert(injective(b));
    let c = |x: i32| seq![x as int];
    assert forall|x: i32, y: i32| #[trigger] c(x) == #[trigger] c(y) implies x == y by {
        assert(c(x)[0] == c(y)[0]);
    }
    assert(injective(c));
    let d = |x: i64| seq![x as int];
    assert forall|x: i64, y: i64| #[trigger] d(x) == #[trigger] d(y) implies x == y by {
        assert(d(x)[0] == d(y)[0]);
    }
    assert(injective(d));
    let e = |x: bool| seq![if x { 1int } else { 0int }];
    assert forall|x: bool, y: bool| #[trigger] e(x) == #[trigger] e(y) implies x == y by {
        assert(e(x)[0] == e(y)[0]);
    }
    assert(injective(e));
}

/// Where `T` is encodable, a handle carries one value only.
pub proof fn law_handle_carries_one_value<T>(handle: Erased, a: T, b: T)
    requires
        encodable::<T>(),
        handle.carries(a),
        handle.carries(b),
    ensures
        a == b,
{
    let f = choose|f: spec_fn(T) -> Seq<int>| injective(f);
    assert(injective(f));
    assert(f(a) == f(b));
}

/// A value that was registered is resolved, and resolving it changes
/// nothing; where the type is encodable, the handle holds that very value.
pub proof fn law_registered_value_is_resolved<T>(
    registered: Registry,
    after: Registry,
    item: T,
    r: Result<Rc<T>, DiError>,
)
    requires
        shares(registered, key_for::<T>(), item),
        resolution::<T>(registered, after, r),
    ensures
        r is Ok,
        after == registered,
        encodable::<T>() ==> *r->Ok_0 == item,
{
    if encodable::<T>() {
        let f = choose|f: spec_fn(T) -> Seq<int>| injective(f);
        assert(injective(f));
        assert(f(item) == f(*r->Ok_0));
    }
}

/// Once a builder has given a value, its type resolves again from then on
/// without a change to the registry: the builder is gone and does not run
/// twice. Where the type is encodable, the second value is the first.
pub proof fn law_built_value_is_kept<T>(
    before: Registry,
    between: Registry,
    after: Registry,
    first: Result<Rc<T>, DiError>,
    second: Result<Rc<T>, DiError>,
)
    requires
        builds::<T>(before, key_for::<T>()),
        resolution::<T>(before, between, first),
        first is Ok,
        resolution::<T>(between, after, second),
    ensures
        kind_at(between, key_for::<T>()) == Some(ResolverType::Shared),
        second is Ok,
        after == between,
        encodable::<T>() ==> *second->Ok_0 == *first->Ok_0,
{
    if encodable::<T>() {
        let f = choose|f: spec_fn(T) -> Seq<int>| injective(f);
        assert(injective(f));
        assert(f(*first->Ok_0) == f(*second->Ok_0));
    }
}

/// A resolution leaves the registry as resolutions may: it adds no key,
/// a shared value stays, a builder stays or gives way to a shared value, a
/// factory stays a factory. Unless it was interrupted it removes no key
/// either, so that `has` answers for every type as it did before.
pub proof fn law_resolution_evolves<T>(before: Registry, after: Registry, r: Result<Rc<T>, DiError>)
    requires
        resolution::<T>(before, after, r),
    ensures
        evolves(before, after),
        r != Err::<Rc<T>, DiError>(DiError::Interrupted(key_for::<T>())) ==> keeps(before, after),
        r != Err::<Rc<T>, DiError>(DiError::Interrupted(key_for::<T>())) ==> forall|key: TypeKey|
            after.contains_key(key) == before.contains_key(key),
{
    let key = key_for::<T>();
    if before.contains_key(key) && gives::<T>(before, key) && r is Ok {
        assert forall|other: TypeKey| #[trigger] after.contains_key(other) implies {
            &&& before.contains_key(other)
            &&& before[other] is Shared ==> after[other] == before[other]
            &&& before[other] is Builder ==> after[other] == before[other] || after[other] is Shared
            &&& before[other] is Factory ==> after[other] is Factory
        } by {
            if other != key {
                assert(after.remove(key).contains_key(other));
            }
        }
    }
}

/// What a constructor resolved stays resolved: a builder of `D` that was
/// called while `T` was resolved is a shared value of type `D` afterwards,
/// and a shared value that `T`'s constructor found is found again.
pub proof fn law_dependency_is_found_again<T>(
    before: Registry,
    after: Registry,
    r: Result<Rc<T>, DiError>,
    dependency: TypeKey,
)
    requires
        resolution::<T>(before, after, r),
        r is Ok,
        dependency != key_for::<T>(),
        before.contains_key(dependency),
    ensures
        after.contains_key(dependency),
        before[dependency] is Shared ==> after[dependency] == before[dependency],
        before[dependency] is Builder ==> after[dependency] == before[dependency] || after[dependency] is Shared,
        before[dependency] is Factory ==> after[dependency] is Factory,
{
    let key = key_for::<T>();
    if gives::<T>(before, key) {
        assert(before.remove(key).contains_key(dependency));
        assert(after.remove(key).contains_key(dependency));
    }
}

/// A builder of `A` that resolves `B` inside its own construction finds
/// it: `handed` is the registry that the builder gets, without the
/// builder's own entry, and `B`'s entry is in it as it was. The resolution
/// inside gives a handle, and at once where `B` is a shared value; the
/// resolution of `A` gives a handle to what was built, which is shared
/// from then on, and `B` is still registered. The one other outcome of
/// either is `Interrupted`.
pub proof fn law_builder_resolves_its_dependency<A, B>(
    before: Registry,
    handed: Registry,
    inside: Registry,
    after: Registry,
    inner: Result<Rc<B>, DiError>,
    outer: Result<Rc<A>, DiError>,
)
    requires
        builds::<A>(before, key_for::<A>()),
        gives::<B>(before, key_for::<B>()),
        key_for::<B>() != key_for::<A>(),
        handed == before.remove(key_for::<A>()),
        resolution::<B>(handed, inside, inner),
        resolution::<A>(before, after, outer),
    ensures
        !handed.contains_key(key_for::<A>()),
        gives::<B>(handed, key_for::<B>()),
        inner is Ok || inner == Err::<Rc<B>, DiError>(DiError::Interrupted(key_for::<B>())),
        holds_shared::<B>(before, key_for::<B>()) ==> inner is Ok && inside == handed,
        outer is Ok || outer == Err::<Rc<A>, DiError>(DiError::Interrupted(key_for::<A>())),
        outer is Ok ==> shares(after, key_for::<A>(), *outer->Ok_0),
        outer is Ok ==> after.contains_key(key_for::<B>()),
        outer is Ok && holds_shared::<B>(before, key_for::<B>()) ==> after[key_for::<B>()] == before[key_for::<
            B,
        >()],
{
    let a = key_for::<A>();
    let b = key_for::<B>();
    assert(handed.contains_key(b) && handed[b] == before[b]);
    if outer is Ok {
        assert(before.remove(a).contains_key(b));
        assert(after.remove(a).contains_key(b));
    }
}

/// A factory is called once for each resolution: after one that gave a
/// value, the factory under the key has been called once more than the
/// factory that was there before.
pub proof fn law_factory_is_called_once<T>(before: Registry, after: Registry, r: Result<Rc<T>, DiError>)
    requires
        makes::<T>(before, key_for::<T>()),
        resolution::<T>(before, after, r),
        r is Ok,
    ensures
        makes::<T>(after, key_for::<T>()),
        calls(after[key_for::<T>()]->Factory_0) == calls(before[key_for::<T>()]->Factory_0) + 1,
{
}

/// One evolution after another is an evolution, and so is no change at
/// all: what holds of one resolution holds of any number of them.
pub proof fn law_evolutions_compose(first: Registry, second: Registry, third: Registry)
    requires
        evolves(first, second),
        evolves(second, third),
    ensures
        evolves(first, third),
        evolves(first, first),
{
}

/// A factory that has given a value is still registered as a factory of
/// its type, so that the next resolution calls it again.
pub proof fn law_factory_stays<T>(before: Registry, after: Registry, r: Result<Rc<T>, DiError>)
    requires
        kind_at(before, key_for::<T>()) == Some(ResolverType::Factory),
        resolution::<T>(before, after, r),
        r is Ok,
    ensures
        makes::<T>(after, key_for::<T>()),
        kind_at(after, key_for::<T>()) == Some(ResolverType::Factory),
{
}

/// An entry that can give a `T` is resolved, unless its constructor
/// returned without the registry: a handle comes only from such an entry,
/// a shared value always gives one, and the one error of a constructor is
/// `Interrupted`.
pub proof fn law_matching_entry_is_resolved<T>(before: Registry, after: Registry, r: Result<Rc<T>, DiError>)
    requires
        resolution::<T>(before, after, r),
    ensures
        r is Ok ==> gives::<T>(before, key_for::<T>()) && after.contains_key(key_for::<T>()),
        holds_shared::<T>(before, key_for::<T>()) ==> r is Ok,
        gives::<T>(before, key_for::<T>()) ==> r is Ok || r == Err::<Rc<T>, DiError>(
            DiError::Interrupted(key_for::<T>()),
        ),
{
}

/// An entry that cannot give a `T` resolves to `TypeMismatch`, and the
/// attempt changes nothing.
pub proof fn law_foreign_entry_is_a_mismatch<T>(before: Registry, after: Registry, r: Result<Rc<T>, DiError>)
    requires
        before.contains_key(key_for::<T>()),
        !gives::<T>(before, key_for::<T>()),
        resolution::<T>(before, after, r),
    ensures
        r == Err::<Rc<T>, DiError>(DiError::TypeMismatch(key_for::<T>())),
        after == before,
{
}

/// A type that had an entry before it was asked for has an entry after
/// it, unless the resolution was interrupted.
pub proof fn law_resolved_key_stays<T>(before: Registry, after: Registry, r: Result<Rc<T>, DiError>)
    requires
        before.contains_key(key_for::<T>()),
        resolution::<T>(before, after, r),
        r != Err::<Rc<T>, DiError>(DiError::Interrupted(key_for::<T>())),
    ensures
        after.contains_key(key_for::<T>()),
{
}

} // verus!
