use kamikaze_di::auto_factory;
use kamikaze_di::Container;
use kamikaze_di::DiError;
use kamikaze_di::Resolver;
use kamikaze_di::ResolverType;
use std::any::TypeId;

#[test]
fn new_container_has_nothing() {
    let container = Container::new();
    assert!(!container.has::<u32>());
    assert!(!container.has::<String>());
    assert!(!container.has::<()>());
}

#[test]
fn register_succeeds_once() {
    let mut container = Container::new();
    let result = container.register::<u32>(42);
    assert!(result.is_ok());
}

#[test]
fn register_twice_fails_the_second_time() {
    let mut container = Container::new();
    let result_1 = container.register::<u32>(42);
    let result_2 = container.register::<u32>(43);
    assert_eq!(result_1, Ok(()));
    assert!(matches!(result_2, Err(DiError::DuplicateRegistration(_))));
    assert_eq!(*container.get::<u32>().unwrap(), 42);
}

#[test]
fn duplicate_is_refused_across_shapes() {
    let mut container = Container::new();
    assert_eq!(container.register_builder::<u8, _>(|_| 1), Ok(()));
    assert!(matches!(container.register::<u8>(2), Err(DiError::DuplicateRegistration(_))));
    assert!(matches!(
        container.register_factory::<u8, _>(|_| 3),
        Err(DiError::DuplicateRegistration(_))
    ));
    assert!(matches!(
        container.register_builder::<u8, _>(|_| 4),
        Err(DiError::DuplicateRegistration(_))
    ));
    assert_eq!(*container.get::<u8>().unwrap(), 1);

    assert_eq!(container.register_factory::<u16, _>(|_| 5), Ok(()));
    assert!(matches!(container.register::<u16>(6), Err(DiError::DuplicateRegistration(_))));
    assert_eq!(*container.get::<u16>().unwrap(), 5);
}

#[test]
fn duplicate_error_names_the_type() {
    let mut container = Container::new();
    container.register::<u32>(1).unwrap();
    container.register::<u64>(1).unwrap();
    let first = container.register::<u32>(2).unwrap_err();
    let again = container.register::<u32>(3).unwrap_err();
    let other = container.register::<u64>(2).unwrap_err();
    assert_eq!(first, again);
    assert_ne!(first, other);
    assert_eq!(first.message(), format!("Container already has {:?}", TypeId::of::<u32>()));
    assert_eq!(other.message(), format!("Container already has {:?}", TypeId::of::<u64>()));
}

#[test]
fn has_follows_registration() {
    let mut container = Container::new();
    assert!(!container.has::<i16>());
    container.register::<i16>(43).unwrap();
    assert!(container.has::<i16>());
    assert!(!container.has::<i32>());

    assert!(!container.has::<String>());
    container.register_builder::<String, _>(|_| String::from("built")).unwrap();
    assert!(container.has::<String>());

    assert!(!container.has::<Vec<u8>>());
    container.register_factory::<Vec<u8>, _>(|_| vec![1, 2]).unwrap();
    assert!(container.has::<Vec<u8>>());
    assert!(!container.has::<i32>());
}

#[test]
fn has_stays_true_after_failed_registration() {
    let mut container = Container::new();
    container.register::<i16>(43).unwrap();
    assert!(container.register::<i16>(44).is_err());
    assert!(container.has::<i16>());
}

#[test]
fn types_that_look_alike_have_their_own_entries() {
    let mut container = Container::new();
    container.register::<u32>(1).unwrap();
    container.register::<i32>(2).unwrap();
    container.register::<Box<u32>>(Box::new(3)).unwrap();
    container.register::<Option<u32>>(Some(4)).unwrap();
    assert_eq!(*container.get::<u32>().unwrap(), 1);
    assert_eq!(*container.get::<i32>().unwrap(), 2);
    assert_eq!(**container.get::<Box<u32>>().unwrap(), 3);
    assert_eq!(*container.get::<Option<u32>>().unwrap(), Some(4));
}

#[test]
fn automatic_factory_is_not_implemented() {
    let mut container = Container::new();
    let result = container.register_automatic_factory::<u32>();
    assert_eq!(result, Err(DiError::NotImplemented));
    assert!(!container.has::<u32>());
    assert_eq!(container.register::<u32>(7), Ok(()));
    assert_eq!(container.register_automatic_factory::<u32>(), Err(DiError::NotImplemented));
    assert_eq!(*container.get::<u32>().unwrap(), 7);
    assert_eq!(DiError::NotImplemented.message(), "Not implemented");
}

#[test]
fn auto_factory_is_not_implemented() {
    let container = Container::new();
    let result = auto_factory::<u32>(&container);
    assert_eq!(result, Err(DiError::NotImplemented));
}

#[test]
fn insert_refuses_a_taken_key() {
    let mut container = Container::new();
    assert_eq!(container.insert::<u32>(Resolver::shared(5u32)), Ok(()));
    assert!(matches!(
        container.insert::<u32>(Resolver::shared(6u32)),
        Err(DiError::DuplicateRegistration(_))
    ));
    assert_eq!(*container.get::<u32>().unwrap(), 5);
}

#[test]
fn resolver_type_reads_the_shape() {
    assert_eq!(ResolverType::from(&Resolver::shared(1u8)), ResolverType::Shared);
    assert_eq!(ResolverType::from(&Resolver::builder(|_| 1u8)), ResolverType::Builder);
    assert_eq!(ResolverType::from(&Resolver::factory(|_| 1u8)), ResolverType::Factory);
}

#[test]
fn take_removes_the_entry() {
    let mut container = Container::new();
    assert!(container.take::<u32>().is_none());
    container.register::<u32>(5).unwrap();
    container.register::<u64>(6).unwrap();
    let taken = container.take::<u32>();
    assert!(matches!(taken, Some(Resolver::Shared(_))));
    assert!(!container.has::<u32>());
    assert!(container.has::<u64>());
    assert!(container.take::<u32>().is_none());
    container.insert::<u32>(taken.unwrap()).unwrap();
    assert_eq!(*container.get::<u32>().unwrap(), 5);
    assert_eq!(*container.get::<u64>().unwrap(), 6);
}

#[test]
fn many_types_keep_their_values() {
    let mut container = Container::new();
    container.register::<u8>(1).unwrap();
    container.register::<u16>(2).unwrap();
    container.register::<u32>(3).unwrap();
    container.register::<u64>(4).unwrap();
    container.register::<String>(String::from("five")).unwrap();
    let _ = container.take::<u16>();
    assert_eq!(*container.get::<u8>().unwrap(), 1);
    assert!(matches!(container.get::<u16>(), Err(DiError::NotRegistered(_))));
    assert_eq!(*container.get::<u32>().unwrap(), 3);
    assert_eq!(*container.get::<u64>().unwrap(), 4);
    assert_eq!(*container.get::<String>().unwrap(), "five");
}
