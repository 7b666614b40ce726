//! Credentials for upstream APIs, and how they are attached to a request.
use vstd::prelude::*;
use crate::manifest::{AuthConfig, HttpMethod};
use crate::namemap::NameMap;
use crate::text::{owned, push_str};

verus! {

/// Authentication credentials for a single API.
#[derive(Clone, Debug, PartialEq, Eq)]
pub enum AuthCredentials {
    BearerToken(String),
    ApiKey(String),
    Basic { username: String, password: String },
    NoAuth,
}

/// Credentials by API name.
pub type AuthCredentialsMap = NameMap<AuthCredentials>;

impl AuthCredentials {
    /// An owned copy.
    pub fn copy(&self) -> (r: AuthCredentials)
        ensures
            r == *self,
    {
        match self {
            AuthCredentials::BearerToken(t) => AuthCredentials::BearerToken(t.clone()),
            AuthCredentials::ApiKey(k) => AuthCredentials::ApiKey(k.clone()),
            AuthCredentials::Basic { username, password } => AuthCredentials::Basic {
                username: username.clone(),
                password: password.clone(),
            },
            AuthCredentials::NoAuth => AuthCredentials::NoAuth,
        }
    }
}

/// What authentication adds to a request.
#[derive(Clone, Debug, PartialEq, Eq)]
pub enum AuthInjection {
    /// A header with this name and value.
    Header { name: String, value: String },
    /// HTTP basic authentication with these credentials.
    Basic { username: String, password: String },
    /// Nothing.
    Nothing,
}

/// What authentication adds to a request, as a value of the model.
pub enum Attached {
    Header { name: Seq<char>, value: Seq<char> },
    Basic { username: Seq<char>, password: Seq<char> },
    Nothing,
}

impl View for AuthInjection {
    type V = Attached;

    open spec fn view(&self) -> Attached {
        match self {
            AuthInjection::Header { name, value } => Attached::Header { name: name@, value: value@ },
            AuthInjection::Basic { username, password } => Attached::Basic {
                username: username@,
                password: password@,
            },
            AuthInjection::Nothing => Attached::Nothing,
        }
    }
}

/// The authentication a request carries: a bearer header (`prefix` then the
/// token) or an API key header when the API's scheme and the credentials
/// agree, basic authentication likewise, and nothing otherwise.
pub open spec fn injection(auth_config: Option<AuthConfig>, credentials: AuthCredentials) -> Attached {
    match (auth_config, credentials) {
        (Some(AuthConfig::Bearer { header, prefix }), AuthCredentials::BearerToken(token)) => {
            Attached::Header { name: header@, value: prefix@ + token@ }
        },
        (Some(AuthConfig::ApiKey { header }), AuthCredentials::ApiKey(key)) => Attached::Header {
            name: header@,
            value: key@,
        },
        (Some(AuthConfig::Basic), AuthCredentials::Basic { username, password }) => {
            Attached::Basic { username: username@, password: password@ }
        },
        _ => Attached::Nothing,
    }
}

/// An optional reference as an optional value.
pub open spec fn deref_opt<T>(o: Option<&T>) -> Option<T> {
    match o {
        Some(a) => Some(*a),
        None => None,
    }
}

/// Decides the authentication a request carries (see `injection`).
pub fn auth_injection(auth_config: Option<&AuthConfig>, credentials: &AuthCredentials) -> (r:
    AuthInjection)
    ensures
        r@ == injection(deref_opt(auth_config), *credentials),
{
    match (auth_config, credentials) {
        (Some(AuthConfig::Bearer { header, prefix }), AuthCredentials::BearerToken(token)) => {
            let mut value = prefix.clone();
            push_str(&mut value, token.as_str());
            AuthInjection::Header { name: header.clone(), value }
        },
        (Some(AuthConfig::ApiKey { header }), AuthCredentials::ApiKey(key)) => {
            AuthInjection::Header { name: header.clone(), value: key.clone() }
        },
        (Some(AuthConfig::Basic), AuthCredentials::Basic { username, password }) => {
            AuthInjection::Basic { username: username.clone(), password: password.clone() }
        },
        _ => AuthInjection::Nothing,
    }
}

/// The request method's name.
pub open spec fn method_name(m: HttpMethod) -> Seq<char> {
    match m {
        HttpMethod::Get => "GET"@,
        HttpMethod::Post => "POST"@,
        HttpMethod::Put => "PUT"@,
        HttpMethod::Patch => "PATCH"@,
        HttpMethod::Delete => "DELETE"@,
    }
}

/// The request method's name, as sent.
pub fn method_str(m: HttpMethod) -> (r: String)
    ensures
        r@ == method_name(m),
{
    match m {
        HttpMethod::Get => owned("GET"),
        HttpMethod::Post => owned("POST"),
        HttpMethod::Put => owned("PUT"),
        HttpMethod::Patch => owned("PATCH"),
        HttpMethod::Delete => owned("DELETE"),
    }
}

} // verus!
