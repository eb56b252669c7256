use vstd::prelude::*;

verus! {

/// Why a request was refused or could not be carried out.
#[derive(Debug, PartialEq, Eq)]
pub enum Error {
    /// What was asked for does not exist
    NotFound,
    /// Bots may not do this
    IsBot,
    /// The request does not hold what it has to
    FailedValidation { error: String },
    /// The role is not one of the server's
    InvalidRole,
    /// The shared secret is missing or wrong
    InvalidCredentials,
    /// The session token belongs to no session
    InvalidSession,
    /// The caller lacks a permission
    MissingPermission { permission: String },
    /// Nobody may report themselves or what is theirs
    CannotReportYourself,
    /// The database refused an operation on a collection
    DatabaseError { operation: String, collection: String },
    /// The preview proxy gave no usable answer
    ProxyError,
    /// The file is of a kind that is not kept
    FileTypeNotAllowed,
    /// The file is empty or larger than `max` bytes
    FileTooLarge { max: usize },
    /// Nothing was found to work on
    LabelMe,
    /// Something inside failed
    InternalError,
}

/// The outcome of a request.
pub type Result<T> = std::result::Result<T, Error>;

/// The refusal of a request for the reason given.
pub fn failed_validation(reason: &str) -> (error: Error)
    ensures
        error matches Error::FailedValidation { error: text } && text@ == reason@,
{
    Error::FailedValidation { error: reason.to_owned() }
}

/// The failure of a database operation on a collection.
pub fn database_error(operation: &str, collection: &str) -> (error: Error)
    ensures
        is_database_error(error, operation@, collection@),
{
    Error::DatabaseError { operation: operation.to_owned(), collection: collection.to_owned() }
}

/// Whether an error is the failure of `operation` on `collection`.
pub open spec fn is_database_error(
    error: Error,
    operation: Seq<char>,
    collection: Seq<char>,
) -> bool {
    error matches Error::DatabaseError { operation: o, collection: c } && o@ == operation && c@
        == collection
}

/// Whether an error refuses a request for the reason given.
pub open spec fn is_failed_validation(error: Error, reason: Seq<char>) -> bool {
    error matches Error::FailedValidation { error: text } && text@ == reason
}

/// A refusal gives its reason, and the failure of a database operation names the operation and
/// the collection.
pub proof fn law_errors_say_what_happened(
    reason: &str,
    refusal: Error,
    operation: &str,
    collection: &str,
    failure: Error,
)
    requires
        call_ensures(failed_validation, (reason,), refusal),
        call_ensures(database_error, (operation, collection), failure),
    ensures
        refusal is FailedValidation,
        refusal->error@ == reason@,
        failure is DatabaseError,
        failure->operation@ == operation@,
        failure->collection@ == collection@,
{
}

} // verus!
