//! The startup configuration rule: all four connection parameters are
//! required, and the first absent one is the fatal error — no partial
//! connection string is ever produced.

use vstd::prelude::*;

use crate::error::DriverError;
use crate::error::EnvironmentError;

verus! {

/// The connection string for the given parameters.
pub open spec fn spec_connection_string(
    host: Seq<char>,
    user: Seq<char>,
    password: Seq<char>,
    port: Seq<char>,
) -> Seq<char> {
    "host="@ + host + " user="@ + user + " password="@ + password + " port="@ + port
}

/// Builds the connection string out of the four required environment
/// parameters, or fails with the first missing one — checked in the fixed
/// order host, user, password, port. Startup must not proceed on `Err`.
pub fn connection_config(
    host: Option<String>,
    user: Option<String>,
    password: Option<String>,
    port: Option<String>,
) -> (r: Result<String, DriverError<'static>>)
    ensures
        host is None ==> (r matches Err(
            DriverError::EnvironmentError(EnvironmentError::MissingEnvironmentVariable(m)),
        ) && m@ == "Missing environment variable DB_HOST"@),
        host is Some && user is None ==> (r matches Err(
            DriverError::EnvironmentError(EnvironmentError::MissingEnvironmentVariable(m)),
        ) && m@ == "Missing environment variable DB_USER"@),
        host is Some && user is Some && password is None ==> (r matches Err(
            DriverError::EnvironmentError(EnvironmentError::MissingEnvironmentVariable(m)),
        ) && m@ == "Missing environment variable DB_PASSWORD"@),
        host is Some && user is Some && password is Some && port is None ==> (r matches Err(
            DriverError::EnvironmentError(EnvironmentError::MissingEnvironmentVariable(m)),
        ) && m@ == "Missing environment variable DB_PORT"@),
        host is Some && user is Some && password is Some && port is Some ==> (r matches Ok(s) && s@
            == spec_connection_string(host->0@, user->0@, password->0@, port->0@)),
{
    let host = match host {
        Some(h) => h,
        None => {
            return Err(
                DriverError::EnvironmentError(
                    EnvironmentError::MissingEnvironmentVariable(
                        "Missing environment variable DB_HOST",
                    ),
                ),
            );
        },
    };
    let user = match user {
        Some(u) => u,
        None => {
            return Err(
                DriverError::EnvironmentError(
                    EnvironmentError::MissingEnvironmentVariable(
                        "Missing environment variable DB_USER",
                    ),
                ),
            );
        },
    };
    let password = match password {
        Some(p) => p,
        None => {
            return Err(
                DriverError::EnvironmentError(
                    EnvironmentError::MissingEnvironmentVariable(
                        "Missing environment variable DB_PASSWORD",
                    ),
                ),
            );
        },
    };
    let port = match port {
        Some(p) => p,
        None => {
            return Err(
                DriverError::EnvironmentError(
                    EnvironmentError::MissingEnvironmentVariable(
                        "Missing environment variable DB_PORT",
                    ),
                ),
            );
        },
    };
    let mut s = String::from_str("host=");
    s.append(host.as_str());
    s.append(" user=");
    s.append(user.as_str());
    s.append(" password=");
    s.append(password.as_str());
    s.append(" port=");
    s.append(port.as_str());
    proof {
        assert(s@ =~= spec_connection_string(host@, user@, password@, port@));
    }
    Ok(s)
}

} // verus!
