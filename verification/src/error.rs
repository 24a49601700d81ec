//! The error taxonomy: the fatal startup classes — a missing environment
//! parameter, a refused connection — and the per-request resolution class.

use vstd::prelude::*;

verus! {

/// Relies on `tokio_postgres::Error` being an ordinary (non-generic) struct:
/// declared here so a driver failure can be carried through the crate's own
/// error types opaquely.
#[verifier::external_type_specification]
#[verifier::external_body]
pub struct ExPostgresError(tokio_postgres::Error);

/// A required connection parameter was absent from the environment.
#[derive(Debug, Clone, PartialEq, Eq)]
pub enum EnvironmentError<'a> {
    MissingEnvironmentVariable(&'a str),
}

/// The database could not be reached or rejected the credentials.
#[derive(Debug)]
pub enum ConnectionError {
    PostgresError(tokio_postgres::Error),
}

/// A fatal startup failure: either the environment or the connection.
#[derive(Debug)]
pub enum DriverError<'a> {
    ConnectionError(ConnectionError),
    EnvironmentError(EnvironmentError<'a>),
}

/// A per-request resolution failure: never fatal to the process.
#[derive(Debug, Clone, PartialEq, Eq)]
pub enum ResolutionError {
    /// A requested field was not in the row bag: a contract violation
    /// between the synthesized schema and the root resolver's projection.
    MissingField(String),
    /// A stored text did not parse under the field's declared scalar kind.
    MalformedValue(String),
    /// A requested name matched the relation-field pattern but no
    /// foreign-key edge of the table synthesizes it.
    UnknownRelationField(String),
}

/// Relies on the `Display` rendering of `tokio_postgres::Error`, for the
/// descriptive message of a fatal connection failure; nothing is assumed of
/// the text.
#[verifier::external_body]
fn pg_error_text(e: &tokio_postgres::Error) -> String {
    format!("{}", e)
}

impl<'a> EnvironmentError<'a> {
    /// The descriptive message this failure aborts startup with.
    pub fn message(&self) -> (r: String)
        ensures
            (match self {
                EnvironmentError::MissingEnvironmentVariable(m) => r@ == "EnvironmentError: "@
                    + m@,
            }),
    {
        match self {
            EnvironmentError::MissingEnvironmentVariable(m) => {
                let mut s = String::from_str("EnvironmentError: ");
                s.append(m);
                s
            },
        }
    }
}

impl ConnectionError {
    /// The descriptive message this failure aborts startup with; the text
    /// comes from the driver and nothing is claimed of it.
    pub fn message(&self) -> String {
        match self {
            ConnectionError::PostgresError(e) => pg_error_text(e),
        }
    }
}

impl<'a> DriverError<'a> {
    /// The descriptive message this failure aborts startup with: exactly the
    /// carried failure's own message.
    pub fn message(&self) -> (r: String)
        ensures
            (match self {
                DriverError::EnvironmentError(EnvironmentError::MissingEnvironmentVariable(m)) => {
                    r@ == "EnvironmentError: "@ + m@
                },
                DriverError::ConnectionError(_) => true,
            }),
    {
        match self {
            DriverError::ConnectionError(e) => e.message(),
            DriverError::EnvironmentError(e) => e.message(),
        }
    }
}

impl ResolutionError {
    /// The descriptive message reported to the requesting client.
    pub fn message(&self) -> (r: String)
        ensures
            (match self {
                ResolutionError::MissingField(c) => r@ == "field not present in the fetched row: "@
                    + c@,
                ResolutionError::MalformedValue(v) => r@
                    == "value does not parse under the declared scalar kind: "@ + v@,
                ResolutionError::UnknownRelationField(f) => r@
                    == "no foreign key synthesizes the relation field: "@ + f@,
            }),
    {
        match self {
            ResolutionError::MissingField(c) => {
                let mut s = String::from_str("field not present in the fetched row: ");
                s.append(c.as_str());
                s
            },
            ResolutionError::MalformedValue(v) => {
                let mut s = String::from_str("value does not parse under the declared scalar kind: ");
                s.append(v.as_str());
                s
            },
            ResolutionError::UnknownRelationField(f) => {
                let mut s = String::from_str("no foreign key synthesizes the relation field: ");
                s.append(f.as_str());
                s
            },
        }
    }
}

} // verus!
