//! Errors of the application layer.
use vstd::prelude::*;

verus! {

/// A violated domain rule.
#[derive(Clone, Debug, PartialEq, Eq)]
pub enum DomainError {
    /// No `entity` with identifier `id` is visible to the caller.
    NotFound { entity: String, id: String },
    /// `field` holds a value that the rules refuse.
    Validation { field: String, message: String },
}

/// An error of an application use case.
#[derive(Clone, Debug, PartialEq, Eq)]
pub enum AppError {
    /// A domain rule refused the request.
    Domain(DomainError),
    /// An outside service failed or could not be reached.
    ExternalService { service: String, message: String },
    /// The store failed; the text describes the failure.
    Repository(String),
}

/// The error for a missing entity, as a spec value over its texts.
pub open spec fn is_not_found(e: AppError, entity: Seq<char>, id: Seq<char>) -> bool {
    e matches AppError::Domain(DomainError::NotFound { entity: en, id: i }) && en@ == entity
        && i@ == id
}

/// The error for a refused field, as a spec value over its texts.
pub open spec fn is_validation(e: AppError, field: Seq<char>, message: Seq<char>) -> bool {
    e matches AppError::Domain(DomainError::Validation { field: f, message: m }) && f@ == field
        && m@ == message
}

/// The error for a failing outside service, as a spec value over its texts.
pub open spec fn is_external(e: AppError, service: Seq<char>, message: Seq<char>) -> bool {
    e matches AppError::ExternalService { service: s, message: m } && s@ == service && m@ == message
}

/// A `NotFound` domain error.
pub fn not_found(entity: &str, id: String) -> (e: AppError)
    ensures
        is_not_found(e, entity@, id@),
{
    AppError::Domain(DomainError::NotFound { entity: entity.to_owned(), id })
}

/// A `Validation` domain error.
pub fn validation(field: &str, message: &str) -> (e: AppError)
    ensures
        is_validation(e, field@, message@),
{
    AppError::Domain(DomainError::Validation { field: field.to_owned(), message: message.to_owned() })
}

/// An `ExternalService` error.
pub fn external(service: &str, message: String) -> (e: AppError)
    ensures
        is_external(e, service@, message@),
{
    AppError::ExternalService { service: service.to_owned(), message }
}

} // verus!
