use kamikaze_di::Container;
use kamikaze_di::DependencyResolver;
use kamikaze_di::DiError;
use kamikaze_di::Resolver;
use kamikaze_di::TypeKey;
use std::any::TypeId;
use std::cell::Cell;
use std::rc::Rc;

#[test]
fn resolve_unregistered_fails() {
    let mut container = Container::new();
    let result: Result<Rc<u32>, DiError> = container.resolve();
    let error = result.unwrap_err();
    assert!(matches!(error, DiError::NotRegistered(_)));
    assert_eq!(error.message(), format!("Type not registered: {:?}", TypeId::of::<u32>()));
    assert!(!container.has::<u32>());
}

#[test]
fn resolve_unregistered_beside_registered_fails() {
    let mut container = Container::new();
    container.register::<u32>(42).unwrap();
    assert!(matches!(container.get::<u64>(), Err(DiError::NotRegistered(_))));
    assert!(container.has::<u32>());
    assert!(!container.has::<u64>());
}

#[test]
fn resolve_registered_value() {
    let mut container = Container::new();
    container.register::<u32>(42).unwrap();
    let resolved: Rc<u32> = container.resolve().unwrap();
    assert_eq!(*resolved, 42);
}

#[test]
fn shared_value_is_one_instance() {
    let mut container = Container::new();
    container.register::<String>(String::from("one")).unwrap();
    let first: Rc<String> = container.resolve().unwrap();
    let second: Rc<String> = container.resolve().unwrap();
    assert_eq!(*first, "one");
    assert!(Rc::ptr_eq(&first, &second));
}

#[test]
fn factory_keeps_its_counter() {
    let mut container = Container::new();
    let mut counter: i32 = 0;
    container
        .register_factory::<i32, _>(move |_| {
            counter += 1;
            43 - counter
        })
        .unwrap();
    let forty_two: Rc<i32> = container.resolve().unwrap();
    let forty_one: Rc<i32> = container.resolve().unwrap();
    assert_eq!(*forty_two, 42);
    assert_eq!(*forty_one, 41);
    assert!(!Rc::ptr_eq(&forty_two, &forty_one));
    assert!(container.has::<i32>());
}

#[test]
fn factory_resolves_its_dependency() {
    let mut container = Container::new();
    container.register::<i16>(43).unwrap();
    let mut i: i32 = 0;
    container
        .register_factory::<i32, _>(move |container| {
            i += 1;
            let base: i16 = *container.get::<i16>().unwrap();
            let base: i32 = base.into();
            base - i
        })
        .unwrap();
    let forty_two: Rc<i32> = container.resolve().unwrap();
    let forty_one: Rc<i32> = container.resolve().unwrap();
    assert_eq!(*forty_two, 42);
    assert_eq!(*forty_one, 41);
}

#[test]
fn builder_runs_once() {
    let mut container = Container::new();
    container.register::<i16>(43).unwrap();
    let calls = Rc::new(Cell::new(0u32));
    let seen = Rc::clone(&calls);
    container
        .register_builder::<i32, _>(move |container| {
            seen.set(seen.get() + 1);
            let base: i16 = *container.get::<i16>().unwrap();
            i32::from(base) - 1
        })
        .unwrap();
    assert_eq!(calls.get(), 0);
    let first: Rc<i32> = container.resolve().unwrap();
    assert_eq!(*first, 42);
    assert_eq!(calls.get(), 1);
    for _ in 0..5 {
        let next: Rc<i32> = container.resolve().unwrap();
        assert_eq!(*next, 42);
        assert!(Rc::ptr_eq(&first, &next));
    }
    assert_eq!(calls.get(), 1);
    assert!(container.has::<i32>());
}

#[test]
fn builders_resolve_each_other() {
    let mut container = Container::new();
    container.register::<i16>(43).unwrap();
    container
        .register_builder::<i32, _>(|container| {
            let base: i16 = *container.get::<i16>().unwrap();
            let base: i32 = base.into();
            base - 1
        })
        .unwrap();
    container
        .register_builder::<i64, _>(|container| {
            let base: i32 = *container.get::<i32>().unwrap();
            let base: i64 = base.into();
            base - 1
        })
        .unwrap();
    let forty_one: Rc<i64> = container.resolve().unwrap();
    let forty_two: Rc<i32> = container.resolve().unwrap();
    assert_eq!(*forty_one, 41);
    assert_eq!(*forty_two, 42);
}

#[test]
fn builder_that_asks_for_itself_sees_no_entry() {
    let mut container = Container::new();
    container
        .register_builder::<u8, _>(|container| {
            let absent = !container.has::<u8>();
            match container.get::<u8>() {
                Err(DiError::NotRegistered(_)) if absent => 1,
                _ => 0,
            }
        })
        .unwrap();
    assert_eq!(*container.get::<u8>().unwrap(), 1);
    assert_eq!(*container.get::<u8>().unwrap(), 1);
}

#[test]
fn factory_that_asks_for_itself_sees_no_entry() {
    let mut container = Container::new();
    container
        .register_factory::<u8, _>(|container| match container.get::<u8>() {
            Err(DiError::NotRegistered(_)) => 1,
            _ => 0,
        })
        .unwrap();
    assert_eq!(*container.get::<u8>().unwrap(), 1);
    assert_eq!(*container.get::<u8>().unwrap(), 1);
    assert!(container.has::<u8>());
}

#[test]
fn constructor_sees_the_other_entries() {
    let mut container = Container::new();
    container.register::<i16>(43).unwrap();
    container.register_factory::<u64, _>(|_| 7).unwrap();
    container
        .register_builder::<(bool, bool, bool), _>(|scope| {
            (scope.has::<i16>(), scope.has::<u64>(), scope.has::<(bool, bool, bool)>())
        })
        .unwrap();
    assert_eq!(*container.get::<(bool, bool, bool)>().unwrap(), (true, true, false));
    assert!(container.has::<i16>());
    assert!(container.has::<u64>());
    assert!(container.has::<(bool, bool, bool)>());
}

#[test]
fn resolution_keeps_the_keys() {
    let mut container = Container::new();
    container.register::<u8>(1).unwrap();
    container.register_builder::<u16, _>(|scope| u16::from(*scope.get::<u8>().unwrap()) + 1).unwrap();
    container.register_factory::<u32, _>(|scope| u32::from(*scope.get::<u16>().unwrap()) + 1).unwrap();
    assert_eq!(*container.get::<u32>().unwrap(), 3);
    assert_eq!(*container.get::<u32>().unwrap(), 3);
    assert_eq!(*container.get::<u16>().unwrap(), 2);
    assert_eq!(*container.get::<u8>().unwrap(), 1);
    assert!(container.has::<u8>() && container.has::<u16>() && container.has::<u32>());
    assert!(!container.has::<u64>());
    assert!(matches!(container.register::<u16>(9), Err(DiError::DuplicateRegistration(_))));
}

#[test]
fn unrelated_builder_is_not_called() {
    let calls = Rc::new(Cell::new(0u32));
    let seen = Rc::clone(&calls);
    let mut container = Container::new();
    container
        .register_builder::<i32, _>(move |_| {
            seen.set(seen.get() + 1);
            1
        })
        .unwrap();
    container.register::<u32>(42).unwrap();
    assert_eq!(*container.get::<u32>().unwrap(), 42);
    assert_eq!(calls.get(), 0);
}

#[test]
fn factory_resolves_a_builder_that_was_not_called_yet() {
    let mut container = Container::new();
    container.register_builder::<i16, _>(|_| 43).unwrap();
    let mut i: i32 = 0;
    container
        .register_factory::<i32, _>(move |scope| {
            i += 1;
            i32::from(*scope.get::<i16>().unwrap()) - i
        })
        .unwrap();
    assert_eq!(*container.get::<i32>().unwrap(), 42);
    assert_eq!(*container.get::<i32>().unwrap(), 41);
}

#[test]
fn scope_resolves_through_the_trait() {
    let mut container = Container::new();
    container.register::<i16>(43).unwrap();
    container
        .register_builder::<i32, _>(|scope| {
            let base: Rc<i16> = scope.resolve().unwrap();
            i32::from(*base) - 1
        })
        .unwrap();
    let built: Rc<i32> = container.resolve().unwrap();
    assert_eq!(*built, 42);
}

#[test]
fn settle_builder_registers_the_value() {
    let mut container = Container::new();
    let handle = container.settle_builder::<u32>(7).unwrap();
    assert_eq!(*handle, 7);
    let again = container.get::<u32>().unwrap();
    assert!(Rc::ptr_eq(&handle, &again));
    assert_eq!(
        container.settle_builder::<u32>(8).err(),
        Some(DiError::DuplicateRegistration(TypeKey::of::<u32>()))
    );
    assert_eq!(*container.get::<u32>().unwrap(), 7);
}

#[test]
fn shared_value_of_another_type_is_a_mismatch() {
    let mut container = Container::new();
    container.insert::<u32>(Resolver::shared(5u64)).unwrap();
    let error = container.get::<u32>().unwrap_err();
    assert!(matches!(error, DiError::TypeMismatch(_)));
    assert_eq!(error.message(), format!("Type mismatch: {:?}", TypeId::of::<u32>()));
    assert!(container.has::<u32>());
    assert!(!container.has::<u64>());
}

#[test]
fn builder_of_another_type_is_a_mismatch() {
    let mut container = Container::new();
    container.insert::<u32>(Resolver::builder(|_| 5u64)).unwrap();
    assert!(matches!(container.get::<u32>(), Err(DiError::TypeMismatch(_))));
    assert!(container.has::<u32>());
    assert!(matches!(container.get::<u32>(), Err(DiError::TypeMismatch(_))));
}

#[test]
fn factory_of_another_type_is_a_mismatch() {
    let mut container = Container::new();
    container.insert::<u32>(Resolver::factory(|_| 5u64)).unwrap();
    assert!(matches!(container.get::<u32>(), Err(DiError::TypeMismatch(_))));
    assert!(container.has::<u32>());
}

#[test]
fn factory_is_not_a_builder() {
    let mut container = Container::new();
    container.insert::<u32>(Resolver::Builder(constructor_of(Resolver::factory(|_| 5u32)))).unwrap();
    assert!(matches!(container.get::<u32>(), Err(DiError::TypeMismatch(_))));
}

fn constructor_of(resolver: Resolver) -> kamikaze_di::Constructor {
    match resolver {
        Resolver::Factory(constructor) => constructor,
        Resolver::Builder(constructor) => constructor,
        Resolver::Shared(_) => panic!("a shared entry holds no constructor"),
    }
}

#[test]
fn settle_factory_puts_the_factory_back() {
    let mut container = Container::new();
    let factory = constructor_of(Resolver::factory(|_| 3u32));
    let made = container.settle_factory::<u32>(factory, 10);
    assert!(made.is_ok());
    assert!(container.has::<u32>());
    assert_eq!(*container.get::<u32>().unwrap(), 3);
    assert_eq!(*container.get::<u32>().unwrap(), 3);
}

#[test]
fn settle_factory_reports_a_taken_key() {
    let mut container = Container::new();
    container.register::<u32>(1).unwrap();
    let factory = constructor_of(Resolver::factory(|_| 3u32));
    assert_eq!(
        container.settle_factory::<u32>(factory, 10).err(),
        Some(DiError::DuplicateRegistration(TypeKey::of::<u32>()))
    );
    assert_eq!(*container.get::<u32>().unwrap(), 1);
}

#[test]
fn mismatch_leaves_the_entry_in_place() {
    let mut container = Container::new();
    container.register::<i8>(1).unwrap();
    container.insert::<u32>(Resolver::builder(|_| 5u64)).unwrap();
    container.insert::<u16>(Resolver::factory(|_| 5u64)).unwrap();
    for _ in 0..3 {
        assert_eq!(container.get::<u32>().err(), Some(DiError::TypeMismatch(TypeKey::of::<u32>())));
        assert_eq!(container.get::<u16>().err(), Some(DiError::TypeMismatch(TypeKey::of::<u16>())));
    }
    assert!(container.has::<u32>());
    assert!(container.has::<u16>());
    assert_eq!(*container.get::<i8>().unwrap(), 1);
}

#[test]
fn errors_carry_the_key_of_the_type() {
    let mut container = Container::new();
    assert_eq!(container.get::<u32>().err(), Some(DiError::NotRegistered(TypeKey::of::<u32>())));
    container.register::<u32>(1).unwrap();
    assert_eq!(container.register::<u32>(2), Err(DiError::DuplicateRegistration(TypeKey::of::<u32>())));
    assert_ne!(container.register::<u32>(3), Err(DiError::DuplicateRegistration(TypeKey::of::<i32>())));
}

#[test]
fn keys_tell_types_apart() {
    assert!(TypeKey::of::<u32>().is(&TypeKey::of::<u32>()));
    assert!(!TypeKey::of::<u32>().is(&TypeKey::of::<i32>()));
    assert!(!TypeKey::of::<u32>().is(&TypeKey::of::<Box<u32>>()));
    assert_eq!(TypeKey::of::<String>(), TypeKey::of::<String>());
    assert_ne!(TypeKey::of::<String>(), TypeKey::of::<&'static str>());
}

#[test]
fn factory_is_called_once_for_each_resolution() {
    let calls = Rc::new(Cell::new(0u32));
    let seen = Rc::clone(&calls);
    let mut container = Container::new();
    container
        .register_factory::<u32, _>(move |_| {
            seen.set(seen.get() + 1);
            seen.get()
        })
        .unwrap();
    let a = container.get::<u32>().unwrap();
    let b = container.get::<u32>().unwrap();
    let d = container.get::<u32>().unwrap();
    assert_eq!((*a, *b, *d), (1, 2, 3));
    assert_eq!(calls.get(), 3);
    assert!(!Rc::ptr_eq(&d, &a) && !Rc::ptr_eq(&d, &b));
    assert!(container.has::<u32>());
}

#[test]
fn dependency_built_inside_a_factory_is_kept() {
    let built = Rc::new(Cell::new(0u32));
    let seen = Rc::clone(&built);
    let mut container = Container::new();
    container
        .register_builder::<i16, _>(move |_| {
            seen.set(seen.get() + 1);
            43
        })
        .unwrap();
    container.register_factory::<i32, _>(|scope| i32::from(*scope.get::<i16>().unwrap()) - 1).unwrap();
    assert_eq!(*container.get::<i32>().unwrap(), 42);
    assert_eq!(*container.get::<i32>().unwrap(), 42);
    assert_eq!(*container.get::<i16>().unwrap(), 43);
    assert_eq!(built.get(), 1);
}

#[test]
fn interrupted_names_the_type() {
    let error = DiError::Interrupted(TypeKey::of::<u32>());
    assert_eq!(error.message(), format!("Construction interrupted: {:?}", TypeId::of::<u32>()));
    assert_ne!(error, DiError::TypeMismatch(TypeKey::of::<u32>()));
}
