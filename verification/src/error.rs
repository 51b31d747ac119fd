//! What can go wrong when registering or resolving.

use crate::key::TypeKey;
use vstd::prelude::*;

verus! {

/// The ways in which a registration or a resolution fails.
#[derive(Clone, Copy, Debug, PartialEq, Eq)]
pub enum DiError {
    /// The type already has an entry; that entry stays as it was.
    DuplicateRegistration(TypeKey),
    /// The type has no entry.
    NotRegistered(TypeKey),
    /// The operation is not supported.
    NotImplemented,
    /// The entry stored for the type does not hold what its key promises.
    TypeMismatch(TypeKey),
    /// The constructor of the type returned without the registry: a
    /// resolution inside it did not come to its end, and the entries are
    /// lost.
    Interrupted(TypeKey),
}

/// Calls `String::push_str`. Trusted: the text grows by `tail` at its end.
#[verifier::external_body]
fn append(text: &mut String, tail: &str)
    ensures
        final(text)@ == old(text)@ + tail@,
{
    text.push_str(tail)
}

impl DiError {
    /// The message of this error, character by character: what went wrong
    /// and, where a type is at fault, the text that stands for it.
    pub open spec fn text(self) -> Seq<char> {
        match self {
            DiError::DuplicateRegistration(key) => "Container already has "@ + key.text(),
            DiError::NotRegistered(key) => "Type not registered: "@ + key.text(),
            DiError::NotImplemented => "Not implemented"@,
            DiError::TypeMismatch(key) => "Type mismatch: "@ + key.text(),
            DiError::Interrupted(key) => "Construction interrupted: "@ + key.text(),
        }
    }

    /// The message of this error, for people to read.
    pub fn message(&self) -> (r: String)
        ensures
            r@ == self.text(),
    {
        match self {
            DiError::DuplicateRegistration(key) => {
                let mut text = "Container already has ".to_owned();
                append(&mut text, key.describe().as_str());
                text
            },
            DiError::NotRegistered(key) => {
                let mut text = "Type not registered: ".to_owned();
                append(&mut text, key.describe().as_str());
                text
            },
            DiError::NotImplemented => "Not implemented".to_owned(),
            DiError::TypeMismatch(key) => {
                let mut text = "Type mismatch: ".to_owned();
                append(&mut text, key.describe().as_str());
                text
            },
            DiError::Interrupted(key) => {
                let mut text = "Construction interrupted: ".to_owned();
                append(&mut text, key.describe().as_str());
                text
            },
        }
    }
}

} // verus!
