//! A registry of dependencies, keyed by type.
//!
//! A [`Container`] holds at most one entry for each type: a value that is
//! shared by everyone who asks for it, a builder that makes such a value the
//! first time it is asked for, or a factory that makes a fresh value on every
//! request. Constructors receive a scope of the container and may resolve
//! what they depend on from it.

pub mod container;
pub mod erasure;
pub mod error;
pub mod key;
pub mod laws;

pub use container::auto_factory;
pub use container::Container;
pub use container::DependencyResolver;
pub use container::Resolver;
pub use container::ResolverType;
pub use container::Scope;
pub use erasure::Builder;
pub use erasure::Constructor;
pub use erasure::Erased;
pub use erasure::Factory;
pub use error::DiError;
pub use key::TypeKey;
