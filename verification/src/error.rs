//! Error taxonomy of the service.  Input-shape errors (`InvalidName`,
//! `DocumentParse`, `FieldNotFound`, `ValueParse`, `QueryParse`) are
//! recoverable at the API boundary; `Engine` failures are server faults and
//! propagate as they came, tagged with enough text for diagnostics.

use vstd::prelude::*;

verus! {

#[derive(Debug, Clone)]
pub enum Error {
    /// A collection name with a character outside `[A-Za-z0-9_]`.
    InvalidName { name: String },
    /// `create` on a collection name that is already live or already present
    /// on disk; also a user name that is already taken.
    AlreadyExists { name: String },
    /// An operation on a collection that is neither registered nor on disk.
    NotFound { name: String },
    /// The engine rejected a document against the collection's schema.
    DocumentParse { detail: String },
    /// `delete_by_term` on a field the schema does not declare.
    FieldNotFound { field: String },
    /// A term value that cannot be converted to the field's declared type.
    ValueParse { detail: String },
    /// Malformed query syntax.
    QueryParse { detail: String },
    /// An I/O or internal failure of the engine; a server fault.
    Engine { detail: String },
    /// An internal synchronization failure; fatal for the affected handle.
    /// The verified lock used by this library cannot fail this way, but the
    /// surrounding application maps poisoned std locks onto it.
    Poisoned,
    /// The principal lacks the privileges the operation demands.
    Forbidden { detail: String },
}

impl Error {
    /// A human-readable description, for the API boundary.
    pub fn message(&self) -> String {
        match self {
            Error::InvalidName { name } => String::from_str("invalid collection name: ").concat(
                name.as_str(),
            ),
            Error::AlreadyExists { name } => String::from_str("already exists: ").concat(
                name.as_str(),
            ),
            Error::NotFound { name } => String::from_str("collection not found: ").concat(
                name.as_str(),
            ),
            Error::DocumentParse { detail } => String::from_str("document rejected: ").concat(
                detail.as_str(),
            ),
            Error::FieldNotFound { field } => String::from_str("field not found: ").concat(
                field.as_str(),
            ),
            Error::ValueParse { detail } => String::from_str("value rejected: ").concat(
                detail.as_str(),
            ),
            Error::QueryParse { detail } => String::from_str("query rejected: ").concat(
                detail.as_str(),
            ),
            Error::Engine { detail } => String::from_str("engine failure: ").concat(
                detail.as_str(),
            ),
            Error::Poisoned => String::from_str("lock poisoned"),
            Error::Forbidden { detail } => String::from_str("forbidden: ").concat(detail.as_str()),
        }
    }
}

pub fn invalid_index_name(name: String) -> (r: Error)
    ensures
        r == (Error::InvalidName { name }),
{
    Error::InvalidName { name }
}

pub fn index_not_exist(index: String) -> (r: Error)
    ensures
        r == (Error::NotFound { name: index }),
{
    Error::NotFound { name: index }
}

pub fn field_not_exist(field: String) -> (r: Error)
    ensures
        r == (Error::FieldNotFound { field }),
{
    Error::FieldNotFound { field }
}

pub fn value_parsing_err(detail: String) -> (r: Error)
    ensures
        r == (Error::ValueParse { detail }),
{
    Error::ValueParse { detail }
}

pub fn lock_poisoned() -> (r: Error)
    ensures
        r == Error::Poisoned,
{
    Error::Poisoned
}

} // verus!
