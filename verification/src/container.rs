//! The registry and how it resolves.

use crate::erasure::calls;
use crate::erasure::Builder;
use crate::erasure::Constructor;
use crate::erasure::Erased;
use crate::erasure::Factory;
use crate::error::DiError;
use crate::key::key_for;
use crate::key::TypeKey;
use std::rc::Rc;
use vstd::prelude::*;

verus! {

/// How the value of a registered type is produced.
pub enum Resolver {
    /// Called on every resolution; keeps what it captured between calls.
    Factory(Constructor),
    /// Called on the first resolution, which puts its result in its place.
    Builder(Constructor),
    /// A value that exists already and is handed to everyone who asks.
    Shared(Erased),
}

/// The three shapes of a [`Resolver`], without what they hold.
#[derive(Clone, Copy, Debug, PartialEq, Eq, Structural)]
pub enum ResolverType {
    Factory,
    Builder,
    Shared,
}

impl Resolver {
    /// The shape of this entry.
    pub open spec fn kind(self) -> ResolverType {
        match self {
            Resolver::Factory(_) => ResolverType::Factory,
            Resolver::Builder(_) => ResolverType::Builder,
            Resolver::Shared(_) => ResolverType::Shared,
        }
    }

    /// The entry that shares `item`.
    pub fn shared<T: 'static>(item: T) -> (r: Resolver)
        ensures
            r is Shared,
            r->Shared_0.carries(item),
    {
        let handle = Rc::new(item);
        Resolver::Shared(Erased::erase(&handle))
    }

    /// The entry that calls `builder` the first time its type is resolved.
    pub fn builder<T: 'static, B: FnOnce(&mut Scope) -> T + 'static>(builder: B) -> (r: Resolver)
        ensures
            r is Builder,
            r->Builder_0.builds::<T>(),
    {
        Resolver::Builder(Constructor::of_builder::<T>(Builder::<T>::new(builder)))
    }

    /// The entry that calls `factory` each time its type is resolved.
    pub fn factory<T: 'static, F: FnMut(&mut Scope) -> T + 'static>(factory: F) -> (r: Resolver)
        ensures
            r is Factory,
            r->Factory_0.makes::<T>(),
    {
        Resolver::Factory(Constructor::of_factory::<T>(Factory::<T>::new(factory)))
    }
}

impl<'a> From<&'a Resolver> for ResolverType {
    /// Reads the shape off an entry.
    fn from(other: &'a Resolver) -> (r: ResolverType) {
        match other {
            Resolver::Factory(_) => ResolverType::Factory,
            Resolver::Builder(_) => ResolverType::Builder,
            Resolver::Shared(_) => ResolverType::Shared,
        }
    }
}

impl<'a> vstd::std_specs::convert::FromSpecImpl<&'a Resolver> for ResolverType {
    open spec fn obeys_from_spec() -> bool {
        true
    }

    open spec fn from_spec(other: &'a Resolver) -> ResolverType {
        other.kind()
    }
}

/// What a registry is: for each registered key, its entry.
pub type Registry = Map<TypeKey, Resolver>;

/// `after` is `before` with one more key, `key`, whose entry has the shape
/// `kind`; every other entry is untouched.
pub open spec fn installs(before: Registry, after: Registry, key: TypeKey, kind: ResolverType) -> bool {
    &&& !before.contains_key(key)
    &&& after.dom() == before.dom().insert(key)
    &&& after[key].kind() == kind
    &&& forall|other: TypeKey| #[trigger] before.contains_key(other) ==> after[other] == before[other]
}

/// The outcome `r` of registering an entry of shape `kind` under `key`, in a
/// registry that was `before` and is `after`: a key that is taken is refused
/// and nothing changes; a free key gets the entry.
pub open spec fn registration(
    before: Registry,
    after: Registry,
    key: TypeKey,
    kind: ResolverType,
    r: Result<(), DiError>,
) -> bool {
    if before.contains_key(key) {
        r == Err::<(), DiError>(DiError::DuplicateRegistration(key)) && after == before
    } else {
        r == Ok::<(), DiError>(()) && installs(before, after, key, kind)
    }
}

/// The shape of the entry under `key`, where there is one.
pub open spec fn kind_at(registry: Registry, key: TypeKey) -> Option<ResolverType> {
    if registry.contains_key(key) {
        Some(registry[key].kind())
    } else {
        None
    }
}

/// The entry under `key` is a shared value of type `T`.
pub open spec fn holds_shared<T>(registry: Registry, key: TypeKey) -> bool {
    &&& registry.contains_key(key)
    &&& registry[key] is Shared
    &&& registry[key]->Shared_0.holds::<T>()
}

/// The entry under `key` is the shared value `item`.
pub open spec fn shares<T>(registry: Registry, key: TypeKey, item: T) -> bool {
    &&& registry.contains_key(key)
    &&& registry[key] is Shared
    &&& registry[key]->Shared_0.carries(item)
}

/// The entry under `key` is a builder of `T`.
pub open spec fn builds<T>(registry: Registry, key: TypeKey) -> bool {
    &&& registry.contains_key(key)
    &&& registry[key] is Builder
    &&& registry[key]->Builder_0.builds::<T>()
}

/// The entry under `key` is a factory of `T`.
pub open spec fn makes<T>(registry: Registry, key: TypeKey) -> bool {
    &&& registry.contains_key(key)
    &&& registry[key] is Factory
    &&& registry[key]->Factory_0.makes::<T>()
}

/// The entry under `key` can give a `T`: a value, a builder or a factory
/// of that type.
pub open spec fn gives<T>(registry: Registry, key: TypeKey) -> bool {
    ||| holds_shared::<T>(registry, key)
    ||| builds::<T>(registry, key)
    ||| makes::<T>(registry, key)
}

/// What resolutions can do to a registry, however many there were and
/// whatever their constructors resolved in turn: no key is added; a
/// shared value stays as it is; a builder stays as it is until it is
/// called, and then a shared value stands in its place; a factory stays a
/// factory.
pub open spec fn evolves(before: Registry, after: Registry) -> bool {
    forall|key: TypeKey| #[trigger]
        after.contains_key(key) ==> {
            &&& before.contains_key(key)
            &&& before[key] is Shared ==> after[key] == before[key]
            &&& before[key] is Builder ==> after[key] == before[key] || after[key] is Shared
            &&& before[key] is Factory ==> after[key] is Factory
        }
}

/// Every key of `before` is a key of `after`.
pub open spec fn keeps(before: Registry, after: Registry) -> bool {
    forall|key: TypeKey| #[trigger] before.contains_key(key) ==> after.contains_key(key)
}

/// The outcome `r` of resolving `T` in a registry that was `before` and is
/// `after`.
///
/// Without an entry the answer is `NotRegistered`. With an entry that
/// cannot give a `T` it is `TypeMismatch`. Neither changes anything. A
/// shared value is handed out and nothing changes. A builder is taken out
/// and called on the registry without it, and what it built is shared
/// under the key from then on. A factory is taken out, called once on the
/// registry without it, and put back. The registry then has the keys it
/// had, and what the constructor resolved in turn has left the other
/// entries as [`evolves`] says. The one way in which a registered type is
/// not resolved is `Interrupted`: the constructor returned without the
/// registry, and no entry is left.
pub open spec fn resolution<T>(before: Registry, after: Registry, r: Result<Rc<T>, DiError>) -> bool {
    let key = key_for::<T>();
    if !before.contains_key(key) {
        r == Err::<Rc<T>, DiError>(DiError::NotRegistered(key)) && after == before
    } else if !gives::<T>(before, key) {
        r == Err::<Rc<T>, DiError>(DiError::TypeMismatch(key)) && after == before
    } else {
        match r {
            Ok(handle) => {
                &&& keeps(before, after)
                &&& evolves(before.remove(key), after.remove(key))
                &&& match before[key] {
                    Resolver::Shared(item) => after == before && item.carries(*handle),
                    Resolver::Builder(_) => shares(after, key, *handle),
                    Resolver::Factory(factory) => called_again::<T>(factory, after, key),
                }
            },
            Err(e) => {
                &&& !(before[key] is Shared)
                &&& e == DiError::Interrupted(key)
                &&& after == Registry::empty()
            },
        }
    }
}

/// The entry under `key` is a factory of `T` that has been called once
/// more than `factory`.
pub open spec fn called_again<T>(factory: Constructor, after: Registry, key: TypeKey) -> bool {
    &&& makes::<T>(after, key)
    &&& calls(after[key]->Factory_0) == calls(factory) + 1
}

/// As [`resolution`], before the handle has its type back.
pub open spec fn erased_resolution<T>(before: Registry, after: Registry, r: Result<Erased, DiError>) -> bool {
    let key = key_for::<T>();
    if !before.contains_key(key) {
        r == Err::<Erased, DiError>(DiError::NotRegistered(key)) && after == before
    } else {
        match before[key] {
            Resolver::Shared(item) => after == before && r == Ok::<Erased, DiError>(item),
            Resolver::Builder(_) => constructed::<T>(before, after, r) && (r is Ok ==> after[key]
                == Resolver::Shared(r->Ok_0)),
            Resolver::Factory(factory) => constructed::<T>(before, after, r) && (r is Ok ==> called_again::<T>(
                factory,
                after,
                key,
            )),
        }
    }
}

/// What a resolution that goes through a constructor leaves: where the
/// entry held no constructor of `T`, `TypeMismatch` and the registry as it
/// was; where the constructor came back without the registry,
/// `Interrupted` and no entry; otherwise a value of type `T` behind the
/// handle, the keys as they were, and the other entries as [`evolves`]
/// says.
pub open spec fn constructed<T>(before: Registry, after: Registry, r: Result<Erased, DiError>) -> bool {
    let key = key_for::<T>();
    if !gives::<T>(before, key) {
        r == Err::<Erased, DiError>(DiError::TypeMismatch(key)) && after == before
    } else {
        match r {
            Ok(item) => {
                &&& item.holds::<T>()
                &&& keeps(before, after)
                &&& evolves(before.remove(key), after.remove(key))
            },
            Err(e) => e == DiError::Interrupted(key) && after == Registry::empty(),
        }
    }
}

/// One entry with its key.
struct Slot {
    key: TypeKey,
    resolver: Resolver,
}

/// No key stands in two slots.
spec fn distinct_keys(slots: Seq<Slot>) -> bool {
    forall|i: int, j: int| 0 <= i < j < slots.len() ==> slots[i].key != slots[j].key
}

/// Some slot holds `key`.
spec fn holds_key(slots: Seq<Slot>, key: TypeKey) -> bool {
    exists|i: int| 0 <= i < slots.len() && #[trigger] slots[i].key == key
}

/// The slot that holds `key`.
spec fn slot_of(slots: Seq<Slot>, key: TypeKey) -> int {
    choose|i: int| 0 <= i < slots.len() && #[trigger] slots[i].key == key
}

/// The registry that a sequence of slots stands for.
spec fn registry_of(slots: Seq<Slot>) -> Registry {
    Map::new(|key: TypeKey| holds_key(slots, key), |key: TypeKey| slots[slot_of(slots, key)].resolver)
}

/// Where keys are distinct, the slot at `i` is the registry's entry for its key.
proof fn lemma_slot_is_entry(slots: Seq<Slot>, i: int)
    requires
        distinct_keys(slots),
        0 <= i < slots.len(),
    ensures
        registry_of(slots).contains_key(slots[i].key),
        registry_of(slots)[slots[i].key] == slots[i].resolver,
{
    let key = slots[i].key;
    assert(holds_key(slots, key));
    let j = slot_of(slots, key);
    assert(0 <= j < slots.len() && slots[j].key == key);
    assert(j == i);
}

/// A key that no slot holds is not in the registry.
proof fn lemma_absent(slots: Seq<Slot>, key: TypeKey)
    requires
        forall|i: int| 0 <= i < slots.len() ==> slots[i].key != key,
    ensures
        !registry_of(slots).contains_key(key),
{
}

/// Appending a slot with a new key installs its entry.
proof fn lemma_push(slots: Seq<Slot>, slot: Slot)
    requires
        distinct_keys(slots),
        !registry_of(slots).contains_key(slot.key),
    ensures
        distinct_keys(slots.push(slot)),
        installs(registry_of(slots), registry_of(slots.push(slot)), slot.key, slot.resolver.kind()),
        registry_of(slots.push(slot)) == registry_of(slots).insert(slot.key, slot.resolver),
{
    let grown = slots.push(slot);
    assert forall|i: int| 0 <= i < slots.len() implies slots[i].key != slot.key by {
        if slots[i].key == slot.key {
            assert(holds_key(slots, slot.key));
        }
    }
    assert(distinct_keys(grown));
    assert(grown[slots.len() as int] == slot);
    lemma_slot_is_entry(grown, slots.len() as int);
    assert(registry_of(grown).contains_key(slot.key));
    assert forall|key: TypeKey|
        registry_of(grown).dom().contains(key) == registry_of(slots).dom().insert(slot.key).contains(
            key,
        ) by {
        if holds_key(slots, key) {
            let i = slot_of(slots, key);
            assert(grown[i] == slots[i]);
            assert(holds_key(grown, key));
        }
        if holds_key(grown, key) && key != slot.key {
            let i = slot_of(grown, key);
            assert(grown[i] == slots[i]);
            assert(holds_key(slots, key));
        }
    }
    assert forall|key: TypeKey| #[trigger] registry_of(slots).contains_key(key) implies registry_of(
        grown,
    )[key] == registry_of(slots)[key] by {
        let i = slot_of(slots, key);
        assert(grown[i] == slots[i]);
        lemma_slot_is_entry(slots, i);
        lemma_slot_is_entry(grown, i);
    }
    assert(registry_of(grown).dom() =~= registry_of(slots).dom().insert(slot.key));
    assert(registry_of(grown) =~= registry_of(slots).insert(slot.key, slot.resolver));
}

/// Taking a slot out removes its key and leaves every other entry.
proof fn lemma_remove(slots: Seq<Slot>, i: int)
    requires
        distinct_keys(slots),
        0 <= i < slots.len(),
    ensures
        distinct_keys(slots.remove(i)),
        registry_of(slots.remove(i)) == registry_of(slots).remove(slots[i].key),
{
    let rest = slots.remove(i);
    let gone = slots[i].key;
    assert(distinct_keys(rest));
    assert forall|key: TypeKey| registry_of(rest).contains_key(key) implies key != gone
        && registry_of(slots).contains_key(key) && registry_of(rest)[key] == registry_of(slots)[key] by {
        let j = slot_of(rest, key);
        let k = if j < i { j } else { j + 1 };
        assert(rest[j] == slots[k]);
        lemma_slot_is_entry(rest, j);
        lemma_slot_is_entry(slots, k);
    }
    assert forall|key: TypeKey| key != gone && registry_of(slots).contains_key(key) implies registry_of(
        rest,
    ).contains_key(key) by {
        let k = slot_of(slots, key);
        let j = if k < i { k } else { k - 1 };
        assert(rest[j] == slots[k]);
        assert(holds_key(rest, key));
    }
    assert(registry_of(rest) =~= registry_of(slots).remove(gone));
}

/// A registry of dependencies: at most one entry for each type.
///
/// The entries stand in a vector that is searched in order. Keys can be
/// compared with each other, but they offer no hash and no order that is
/// known here, so no map of std is specified for them.
pub struct Container {
    slots: Vec<Slot>,
    lent: bool,
}

impl View for Container {
    type V = Registry;

    closed spec fn view(&self) -> Registry {
        registry_of(self.slots@)
    }
}

impl Container {
    #[verifier::type_invariant]
    spec fn keys_are_distinct(self) -> bool {
        distinct_keys(self.slots@)
    }

    /// Whether this is what a resolution left behind when its constructor
    /// did not give the registry back.
    pub closed spec fn interrupted(&self) -> bool {
        self.lent
    }

    /// A registry with no entry.
    pub fn new() -> (container: Container)
        ensures
            container@ == Registry::empty(),
            !container.interrupted(),
    {
        let container = Container { slots: Vec::new(), lent: false };
        assert(container@ =~= Registry::empty());
        container
    }

    /// The place of `key` among the slots.
    fn position(&self, key: &TypeKey) -> (found: Option<usize>)
        ensures
            match found {
                Some(i) => i < self.slots@.len() && self.slots@[i as int].key == *key,
                None => !self@.contains_key(*key),
            },
    {
        let mut i: usize = 0;
        while i < self.slots.len()
            invariant
                i <= self.slots@.len(),
                forall|j: int| 0 <= j < i ==> self.slots@[j].key != *key,
            decreases self.slots@.len() - i,
        {
            if self.slots[i].key.same(key) {
                return Some(i);
            }
            i += 1;
        }
        proof {
            lemma_absent(self.slots@, *key);
        }
        None
    }

    /// Whether `T` has an entry.
    ///
    /// The answer is about the key of `T`. That another type has another
    /// key is not known before the two keys are compared, so after a
    /// registration of one type the answer for another is settled here
    /// only for a key that differs from the registered one.
    pub fn has<T: 'static>(&self) -> (r: bool)
        ensures
            r == self@.contains_key(key_for::<T>()),
    {
        let key = TypeKey::of::<T>();
        proof {
            use_type_invariant(self);
        }
        match self.position(&key) {
            Some(i) => {
                proof {
                    lemma_slot_is_entry(self.slots@, i as int);
                }
                true
            },
            None => false,
        }
    }

    /// Puts `resolver` under the key of `T`, unless that key is taken.
    pub fn insert<T: 'static>(&mut self, resolver: Resolver) -> (r: Result<(), DiError>)
        ensures
            registration(old(self)@, final(self)@, key_for::<T>(), resolver.kind(), r),
            r is Ok ==> final(self)@ == old(self)@.insert(key_for::<T>(), resolver),
    {
        let key = TypeKey::of::<T>();
        if self.has::<T>() {
            return Err(DiError::DuplicateRegistration(key));
        }
        proof {
            use_type_invariant(&*self);
            lemma_push(self.slots@, Slot { key, resolver });
        }
        let mut slots: Vec<Slot> = Vec::new();
        std::mem::swap(&mut slots, &mut self.slots);
        slots.push(Slot { key, resolver });
        self.slots = slots;
        Ok(())
    }

    /// Registers `item` as the value that every resolution of `T` shares.
    pub fn register<T: 'static>(&mut self, item: T) -> (r: Result<(), DiError>)
        ensures
            registration(old(self)@, final(self)@, key_for::<T>(), ResolverType::Shared, r),
            r is Ok ==> shares(final(self)@, key_for::<T>(), item),
    {
        let resolver = Resolver::shared(item);
        self.insert::<T>(resolver)
    }

    /// Registers `factory`, which is called on every resolution of `T` and
    /// keeps what it captured from one call to the next.
    pub fn register_factory<T: 'static, F: FnMut(&mut Scope) -> T + 'static>(&mut self, factory: F) -> (r:
        Result<(), DiError>)
        ensures
            registration(old(self)@, final(self)@, key_for::<T>(), ResolverType::Factory, r),
            r is Ok ==> makes::<T>(final(self)@, key_for::<T>()),
    {
        let resolver = Resolver::factory::<T, F>(factory);
        self.insert::<T>(resolver)
    }

    /// Registers `builder`, which is called on the first resolution of `T`;
    /// what it returns is shared from then on.
    pub fn register_builder<T: 'static, B: FnOnce(&mut Scope) -> T + 'static>(&mut self, builder: B) -> (r:
        Result<(), DiError>)
        ensures
            registration(old(self)@, final(self)@, key_for::<T>(), ResolverType::Builder, r),
            r is Ok ==> builds::<T>(final(self)@, key_for::<T>()),
    {
        let resolver = Resolver::builder::<T, B>(builder);
        self.insert::<T>(resolver)
    }

    /// Takes the entry of `T` out of the registry, where there is one.
    ///
    /// This is the first half of the swap of a constructor for its
    /// successor, and the only way in which an entry leaves a registry. A
    /// caller who takes an entry and does not put one back has unregistered
    /// the type.
    pub fn take<T: 'static>(&mut self) -> (r: Option<Resolver>)
        ensures
            r == old(self)@.get(key_for::<T>()),
            final(self)@ == old(self)@.remove(key_for::<T>()),
    {
        let key = TypeKey::of::<T>();
        match self.position(&key) {
            Some(i) => Some(self.take_at(i).resolver),
            None => {
                assert(final(self)@ =~= old(self)@.remove(key));
                None
            },
        }
    }

    /// Takes the slot at `i` out of the registry.
    fn take_at(&mut self, i: usize) -> (slot: Slot)
        requires
            i < old(self).slots@.len(),
        ensures
            slot == old(self).slots@[i as int],
            old(self)@.contains_key(slot.key),
            old(self)@[slot.key] == slot.resolver,
            final(self)@ == old(self)@.remove(slot.key),
    {
        proof {
            use_type_invariant(&*self);
            lemma_slot_is_entry(self.slots@, i as int);
            lemma_remove(self.slots@, i as int);
        }
        let mut slots: Vec<Slot> = Vec::new();
        std::mem::swap(&mut slots, &mut self.slots);
        let slot = slots.remove(i);
        self.slots = slots;
        slot
    }

    /// The shape of the entry under `key`, where there is one.
    fn get_resolver_type(&self, key: &TypeKey) -> (r: Option<ResolverType>)
        ensures
            r == kind_at(self@, *key),
    {
        proof {
            use_type_invariant(self);
        }
        match self.position(key) {
            Some(i) => {
                proof {
                    lemma_slot_is_entry(self.slots@, i as int);
                }
                Some(ResolverType::from(&self.slots[i].resolver))
            },
            None => None,
        }
    }

    /// Another handle to the value shared under `key`.
    fn get_shared(&self, key: &TypeKey) -> (item: Erased)
        requires
            kind_at(self@, *key) == Some(ResolverType::Shared),
        ensures
            item == self@[*key]->Shared_0,
    {
        proof {
            use_type_invariant(self);
        }
        match self.position(key) {
            Some(i) => {
                proof {
                    lemma_slot_is_entry(self.slots@, i as int);
                }
                match &self.slots[i].resolver {
                    Resolver::Shared(item) => item.share(),
                    _ => vstd::pervasive::unreached(),
                }
            },
            None => vstd::pervasive::unreached(),
        }
    }

    /// Finishes the resolution of a builder of `T` that was taken out and
    /// called: `item` is what the call gave.
    ///
    /// The value is registered as shared and the answer is a handle to
    /// it, unless the key is taken: then that entry stands and the answer
    /// is `DuplicateRegistration`.
    pub fn settle_builder<T: 'static>(&mut self, item: T) -> (r: Result<Rc<T>, DiError>)
        ensures
            registration(
                old(self)@,
                final(self)@,
                key_for::<T>(),
                ResolverType::Shared,
                match r {
                    Ok(_) => Ok(()),
                    Err(e) => Err(e),
                },
            ),
            r is Ok ==> *r->Ok_0 == item,
            r is Ok ==> shares(final(self)@, key_for::<T>(), item),
    {
        let handle = Rc::new(item);
        match self.insert::<T>(Resolver::Shared(Erased::erase(&handle))) {
            Ok(()) => Ok(handle),
            Err(e) => Err(e),
        }
    }

    /// Finishes the resolution of a factory of `T` that was taken out and
    /// called: `factory` returns to its place, and `made` is what the call
    /// gave.
    ///
    /// The factory is put back and the answer is a handle to the new
    /// value, unless the key is taken: then that entry stands and the
    /// answer is `DuplicateRegistration`.
    pub fn settle_factory<T: 'static>(&mut self, factory: Constructor, made: T) -> (r: Result<Erased, DiError>)
        ensures
            registration(
                old(self)@,
                final(self)@,
                key_for::<T>(),
                ResolverType::Factory,
                match r {
                    Ok(_) => Ok(()),
                    Err(e) => Err(e),
                },
            ),
            r is Ok ==> final(self)@ == old(self)@.insert(key_for::<T>(), Resolver::Factory(factory)),
            r is Ok ==> r->Ok_0.carries(made),
    {
        match self.insert::<T>(Resolver::Factory(factory)) {
            Ok(()) => {
                let handle = Rc::new(made);
                Ok(Erased::erase(&handle))
            },
            Err(e) => Err(e),
        }
    }

    /// Hands the registry to a scope, for a constructor to resolve from.
    /// What stays behind is empty and marked, until the registry is back.
    fn lend(&mut self) -> (scope: Scope)
        ensures
            scope@ == old(self)@,
            !scope.interrupted(),
            final(self)@ == Registry::empty(),
            final(self).interrupted(),
    {
        let mut held = Container { slots: Vec::new(), lent: true };
        assert(held@ =~= Registry::empty());
        std::mem::swap(self, &mut held);
        proof {
            use_type_invariant(&held);
        }
        held.lent = false;
        Scope { container: held }
    }

    /// Takes the registry back from the scope that a constructor had,
    /// where the scope still holds it. An interrupted scope holds none:
    /// then this container stays as it is.
    pub fn reclaim(&mut self, scope: Scope) -> (whole: bool)
        ensures
            whole == !scope.interrupted(),
            whole ==> final(self)@ == scope@ && !final(self).interrupted(),
            !whole ==> final(self)@ == old(self)@ && final(self).interrupted() == old(self).interrupted(),
    {
        if scope.container.lent {
            false
        } else {
            *self = scope.container;
            true
        }
    }

    /// Calls the factory registered for `T` and hands out what it made.
    /// While the factory runs, its own entry is out of the registry.
    fn call_factory<T: 'static>(&mut self, key: &TypeKey) -> (r: Result<Erased, DiError>)
        requires
            *key == key_for::<T>(),
            kind_at(old(self)@, *key) == Some(ResolverType::Factory),
        ensures
            erased_resolution::<T>(old(self)@, final(self)@, r),
    {
        match self.take::<T>() {
            Some(Resolver::Factory(factory)) => {
                let mut factory = factory;
                let mut scope = self.lend();
                let made = factory.produce::<T>(&mut scope);
                let ghost came_back = scope@;
                let whole = self.reclaim(scope);
                match made {
                    Some(item) => {
                        if whole {
                            let r = self.settle_factory::<T>(factory, item);
                            assert(final(self)@.remove(*key) =~= came_back);
                            r
                        } else {
                            Err(DiError::Interrupted(*key))
                        }
                    },
                    None => {
                        let _ = self.insert::<T>(Resolver::Factory(factory));
                        assert(final(self)@ =~= old(self)@);
                        Err(DiError::TypeMismatch(*key))
                    },
                }
            },
            _ => vstd::pervasive::unreached(),
        }
    }

    /// Calls the builder registered for `T` and registers what it built as
    /// the shared value. While the builder runs, its own entry is out of
    /// the registry.
    fn consume_builder<T: 'static>(&mut self) -> (r: Result<(), DiError>)
        requires
            kind_at(old(self)@, key_for::<T>()) == Some(ResolverType::Builder),
        ensures
            if builds::<T>(old(self)@, key_for::<T>()) {
                match r {
                    Ok(()) => {
                        &&& holds_shared::<T>(final(self)@, key_for::<T>())
                        &&& keeps(old(self)@, final(self)@)
                        &&& evolves(old(self)@.remove(key_for::<T>()), final(self)@.remove(key_for::<T>()))
                    },
                    Err(e) => e == DiError::Interrupted(key_for::<T>()) && final(self)@ == Registry::empty(),
                }
            } else {
                r == Err::<(), DiError>(DiError::TypeMismatch(key_for::<T>())) && final(self)@ == old(self)@
            },
    {
        match self.take::<T>() {
            Some(Resolver::Builder(constructor)) => match constructor.into_builder::<T>() {
                Ok(builder) => {
                    let mut scope = self.lend();
                    let item = builder.call(&mut scope);
                    let ghost came_back = scope@;
                    if self.reclaim(scope) {
                        let r = self.settle_builder::<T>(item);
                        assert(final(self)@.remove(key_for::<T>()) =~= came_back);
                        assert(keeps(old(self)@, final(self)@)) by {
                            let ghost now = final(self)@;
                            assert forall|k: TypeKey| #[trigger] old(self)@.contains_key(k) implies now.contains_key(
                                k,
                            ) by {
                                if k != key_for::<T>() {
                                    assert(old(self)@.remove(key_for::<T>()).contains_key(k));
                                    assert(came_back.contains_key(k));
                                }
                            }
                        }
                        match r {
                            Ok(_) => Ok(()),
                            Err(e) => Err(e),
                        }
                    } else {
                        Err(DiError::Interrupted(TypeKey::of::<T>()))
                    }
                },
                Err(back) => {
                    let _ = self.insert::<T>(Resolver::Builder(back));
                    assert(final(self)@ =~= old(self)@);
                    Err(DiError::TypeMismatch(TypeKey::of::<T>()))
                },
            },
            _ => vstd::pervasive::unreached(),
        }
    }

    /// Resolves `T` to a handle that has not its type back yet.
    fn resolve_as_any<T: 'static>(&mut self) -> (r: Result<Erased, DiError>)
        ensures
            erased_resolution::<T>(old(self)@, final(self)@, r),
    {
        let key = TypeKey::of::<T>();
        match self.get_resolver_type(&key) {
            Some(ResolverType::Factory) => self.call_factory::<T>(&key),
            Some(ResolverType::Builder) => {
                match self.consume_builder::<T>() {
                    Ok(()) => Ok(self.get_shared(&key)),
                    Err(e) => Err(e),
                }
            },
            Some(ResolverType::Shared) => Ok(self.get_shared(&key)),
            None => Err(DiError::NotRegistered(key)),
        }
    }

    /// Gives a handle its type back, where the value behind it is a `T`.
    fn downcast<T: 'static>(item: Erased) -> (r: Result<Rc<T>, DiError>)
        ensures
            match r {
                Ok(handle) => item.carries(*handle),
                Err(e) => !item.holds::<T>() && e == DiError::TypeMismatch(key_for::<T>()),
            },
    {
        match item.recover::<T>() {
            Ok(handle) => Ok(handle),
            Err(_) => Err(DiError::TypeMismatch(TypeKey::of::<T>())),
        }
    }

    /// Resolves `T`: a handle to the shared value, to what the builder
    /// builds now and shares from now on, or to what the factory makes this
    /// time.
    ///
    /// A constructor is the caller's code. It gets a [`Scope`] that holds
    /// the registry without the constructor's own entry, and the registry
    /// comes back when the constructor returns. One that panics does not
    /// return: the call unwinds, and a caller who catches the panic finds
    /// the registry without the entries that the scope held. Where the
    /// caller is itself a constructor and returns all the same, the
    /// resolution that called it answers `Interrupted`.
    pub fn get<T: 'static>(&mut self) -> (r: Result<Rc<T>, DiError>)
        ensures
            resolution::<T>(old(self)@, final(self)@, r),
    {
        match self.resolve_as_any::<T>() {
            Ok(item) => Self::downcast::<T>(item),
            Err(e) => Err(e),
        }
    }

    /// Would register a factory that builds `T` from its parts by itself.
    /// No such factory exists: the call is refused and changes nothing.
    pub fn register_automatic_factory<T: 'static>(&mut self) -> (r: Result<(), DiError>)
        ensures
            r == Err::<(), DiError>(DiError::NotImplemented),
            final(self)@ == old(self)@,
    {
        Err(DiError::NotImplemented)
    }
}

/// What a constructor gets of the registry while it runs: it can ask
/// whether a type has an entry and resolve one, and nothing else. No
/// scope is made but by a resolution, for the constructor it calls.
pub struct Scope {
    container: Container,
}

impl View for Scope {
    type V = Registry;

    closed spec fn view(&self) -> Registry {
        self.container@
    }
}

impl Scope {
    /// Whether this scope has lost the registry: a resolution inside the
    /// constructor did not come to its end.
    pub closed spec fn interrupted(&self) -> bool {
        self.container.interrupted()
    }

    /// Whether `T` has an entry.
    pub fn has<T: 'static>(&self) -> (r: bool)
        ensures
            r == self@.contains_key(key_for::<T>()),
    {
        self.container.has::<T>()
    }

    /// Resolves `T`, as [`Container::get`] does.
    pub fn get<T: 'static>(&mut self) -> (r: Result<Rc<T>, DiError>)
        ensures
            resolution::<T>(old(self)@, final(self)@, r),
    {
        self.container.get::<T>()
    }
}

impl<T: 'static> DependencyResolver<T> for Scope {
    fn resolve(&mut self) -> (r: Result<Rc<T>, DiError>)
        ensures
            resolution::<T>(old(self)@, final(self)@, r),
    {
        self.get::<T>()
    }
}

/// Something that dependencies of type `T` can be resolved from.
pub trait DependencyResolver<T: 'static> {
    /// A handle to the dependency, or why there is none.
    fn resolve(&mut self) -> (r: Result<Rc<T>, DiError>);
}

impl<T: 'static> DependencyResolver<T> for Container {
    fn resolve(&mut self) -> (r: Result<Rc<T>, DiError>)
        ensures
            resolution::<T>(old(self)@, final(self)@, r),
    {
        self.get::<T>()
    }
}

/// Would build a `T` from what `container` holds. Nothing can do that yet,
/// so the answer is always the same refusal.
pub fn auto_factory<T>(container: &Container) -> (r: Result<Box<T>, DiError>)
    ensures
        r is Err,
        r->Err_0 == DiError::NotImplemented,
{
    Err(DiError::NotImplemented)
}

} // verus!
