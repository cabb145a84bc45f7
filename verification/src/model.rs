pub mod app;
pub mod menu;
pub mod oauth2session;
pub mod page_context;
pub mod scopes;
pub mod session;
pub mod user;

use vstd::prelude::*;

verus! {

/// The error taxonomy of the library.
#[derive(Clone, Debug)]
pub enum WartIDError {
    /// Unknown or misconfigured client, bad redirect URI: safe to show.
    OAuth2Error(String),
    /// The datastore could not be reached.
    DatabaseConnection,
    /// The datastore failed while serving a query.
    Database(String),
    /// Bad password or invalid signed token.
    InvalidCredentials(String),
    /// Malformed form fields.
    InvalidForm(String),
}

pub type WartIDResult<T> = Result<T, WartIDError>;

impl WartIDError {
    /// A short description, safe to show to the caller.
    pub fn message(&self) -> (r: String)
        ensures
            r@ == self.message_spec(),
    {
        match self {
            WartIDError::OAuth2Error(m) => {
                let mut s = String::new();
                s.append("oauth2 error: ");
                s.append(m.as_str());
                s
            },
            WartIDError::DatabaseConnection => {
                let mut s = String::new();
                s.append("database connection error");
                s
            },
            WartIDError::Database(m) => {
                let mut s = String::new();
                s.append("database error: ");
                s.append(m.as_str());
                s
            },
            WartIDError::InvalidCredentials(m) => {
                let mut s = String::new();
                s.append("invalid credentials: ");
                s.append(m.as_str());
                s
            },
            WartIDError::InvalidForm(m) => {
                let mut s = String::new();
                s.append("invalid form fields: ");
                s.append(m.as_str());
                s
            },
        }
    }

    pub open spec fn message_spec(&self) -> Seq<char> {
        match self {
            WartIDError::OAuth2Error(m) => "oauth2 error: "@ + m@,
            WartIDError::DatabaseConnection => "database connection error"@,
            WartIDError::Database(m) => "database error: "@ + m@,
            WartIDError::InvalidCredentials(m) => "invalid credentials: "@ + m@,
            WartIDError::InvalidForm(m) => "invalid form fields: "@ + m@,
        }
    }
}

} // verus!
