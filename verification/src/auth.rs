//! Authentication of MCP clients, and per-request upstream credentials.
use vstd::prelude::*;
use crate::http::{AuthCredentials, AuthCredentialsMap};
use crate::json::{get, JsonValue};
use crate::namemap::{keys_distinct, map_of, NameMap};
use crate::text::{owned, strip_prefix, strip_prefix_of};

verus! {

broadcast use vstd::seq_lib::group_seq_properties;

/// Configuration for MCP-level JWT authentication on the HTTP transport.
#[derive(Clone, Debug, PartialEq, Eq)]
pub struct McpAuthConfig {
    pub authority: String,
    pub audience: String,
    pub jwks_uri_override: Option<String>,
}

impl McpAuthConfig {
    /// The configuration named by the values of `MCP_AUTH_AUTHORITY`,
    /// `MCP_AUTH_AUDIENCE` and `MCP_AUTH_JWKS_URI`: present when the first
    /// two are set.
    pub fn from_env(authority: Option<String>, audience: Option<String>, jwks_uri: Option<String>)
        -> (r: Option<McpAuthConfig>)
        ensures
            match (authority, audience) {
                (Some(a), Some(b)) => r == Some(
                    McpAuthConfig { authority: a, audience: b, jwks_uri_override: jwks_uri },
                ),
                _ => r is None,
            },
    {
        match (authority, audience) {
            (Some(a), Some(b)) => Some(
                McpAuthConfig { authority: a, audience: b, jwks_uri_override: jwks_uri },
            ),
            _ => None,
        }
    }

    /// The configuration of the `--auth-authority`, `--auth-audience` and
    /// `--auth-jwks-uri` flags: the first two must be given together.
    pub fn from_flags(authority: Option<String>, audience: Option<String>, jwks_uri: Option<String>)
        -> (r: Result<Option<McpAuthConfig>, String>)
        ensures
            match (authority, audience) {
                (Some(a), Some(b)) => r == Ok::<Option<McpAuthConfig>, String>(
                    Some(McpAuthConfig { authority: a, audience: b, jwks_uri_override: jwks_uri }),
                ),
                (None, None) => r == Ok::<Option<McpAuthConfig>, String>(None),
                _ => r matches Err(m) && m@
                    == "--auth-authority and --auth-audience must both be set (or both omitted)"@,
            },
    {
        match (authority, audience) {
            (Some(a), Some(b)) => Ok(
                Some(McpAuthConfig { authority: a, audience: b, jwks_uri_override: jwks_uri }),
            ),
            (None, None) => Ok(None),
            _ => Err(
                owned("--auth-authority and --auth-audience must both be set (or both omitted)"),
            ),
        }
    }
}

/// Who an authenticated request comes from.
#[derive(Clone, Debug, PartialEq, Eq)]
pub struct AuthContext {
    pub subject: String,
}

/// One entry of a request's `_meta.auth` object.
#[derive(Debug, Clone, PartialEq, Eq)]
pub enum MetaAuthEntry {
    Bearer { token: String },
    ApiKey { key: String },
    Basic { username: String, password: String },
}

/// The credentials an entry stands for.
pub open spec fn entry_credentials(entry: MetaAuthEntry) -> AuthCredentials {
    match entry {
        MetaAuthEntry::Bearer { token } => AuthCredentials::BearerToken(token),
        MetaAuthEntry::ApiKey { key } => AuthCredentials::ApiKey(key),
        MetaAuthEntry::Basic { username, password } => AuthCredentials::Basic { username, password },
    }
}

impl From<MetaAuthEntry> for AuthCredentials {
    fn from(entry: MetaAuthEntry) -> (r: AuthCredentials) {
        match entry {
            MetaAuthEntry::Bearer { token } => AuthCredentials::BearerToken(token),
            MetaAuthEntry::ApiKey { key } => AuthCredentials::ApiKey(key),
            MetaAuthEntry::Basic { username, password } => AuthCredentials::Basic {
                username,
                password,
            },
        }
    }
}

impl vstd::std_specs::convert::FromSpecImpl<MetaAuthEntry> for AuthCredentials {
    open spec fn obeys_from_spec() -> bool {
        true
    }

    open spec fn from_spec(entry: MetaAuthEntry) -> AuthCredentials {
        entry_credentials(entry)
    }
}

/// A string member of a JSON object.
pub open spec fn str_member(v: JsonValue, key: Seq<char>) -> Option<String> {
    match get(v, key) {
        Some(JsonValue::String(s)) => Some(s),
        _ => None,
    }
}

/// Reads an entry tagged by its `type` member (`bearer`, `api_key` or
/// `basic`) with its string members; other members are ignored, and
/// anything else is no entry.
pub open spec fn meta_entry(v: JsonValue) -> Option<MetaAuthEntry> {
    match str_member(v, "type"@) {
        Some(t) => if t@ == "bearer"@ {
            match str_member(v, "token"@) {
                Some(token) => Some(MetaAuthEntry::Bearer { token }),
                None => None,
            }
        } else if t@ == "api_key"@ {
            match str_member(v, "key"@) {
                Some(key) => Some(MetaAuthEntry::ApiKey { key }),
                None => None,
            }
        } else if t@ == "basic"@ {
            match (str_member(v, "username"@), str_member(v, "password"@)) {
                (Some(username), Some(password)) => Some(MetaAuthEntry::Basic { username, password }),
                _ => None,
            }
        } else {
            None
        },
        None => None,
    }
}

fn str_member_of(v: &JsonValue, key: &str) -> (r: Option<String>)
    ensures
        r == str_member(*v, key@),
{
    match v.get(key) {
        Some(JsonValue::String(s)) => Some(s.clone()),
        _ => None,
    }
}

/// Reads one entry of `_meta.auth` (see `meta_entry`).
pub fn parse_meta_entry(v: &JsonValue) -> (r: Option<MetaAuthEntry>)
    ensures
        r == meta_entry(*v),
{
    let t = match str_member_of(v, "type") {
        Some(t) => t,
        None => {
            return None;
        },
    };
    if crate::text::str_eq(t.as_str(), "bearer") {
        match str_member_of(v, "token") {
            Some(token) => Some(MetaAuthEntry::Bearer { token }),
            None => None,
        }
    } else if crate::text::str_eq(t.as_str(), "api_key") {
        match str_member_of(v, "key") {
            Some(key) => Some(MetaAuthEntry::ApiKey { key }),
            None => None,
        }
    } else if crate::text::str_eq(t.as_str(), "basic") {
        match (str_member_of(v, "username"), str_member_of(v, "password")) {
            (Some(username), Some(password)) => Some(MetaAuthEntry::Basic { username, password }),
            _ => None,
        }
    } else {
        None
    }
}

/// The credentials of the members of a `_meta.auth` object, in order;
/// members that are no valid entry are skipped.
pub open spec fn meta_auth(members: Seq<(String, JsonValue)>) -> Map<Seq<char>, AuthCredentials>
    decreases members.len(),
{
    if members.len() == 0 {
        Map::empty()
    } else {
        match meta_entry(members.last().1) {
            Some(e) => meta_auth(members.drop_last()).insert(
                members.last().0@,
                entry_credentials(e),
            ),
            None => meta_auth(members.drop_last()),
        }
    }
}

/// No member after the `k`-th has the same name.
pub open spec fn last_of_its_name(members: Seq<(String, JsonValue)>, k: int) -> bool {
    forall|j: int| k < j < members.len() ==> (#[trigger] members[j]).0@ != members[k].0@
}

proof fn lemma_meta_auth_member(members: Seq<(String, JsonValue)>, k: int, e: MetaAuthEntry)
    requires
        0 <= k < members.len(),
        last_of_its_name(members, k),
        meta_entry(members[k].1) == Some(e),
    ensures
        meta_auth(members).dom().contains(members[k].0@),
        meta_auth(members)[members[k].0@] == entry_credentials(e),
    decreases members.len(),
{
    let n = members.len() - 1;
    if k < n {
        let init = members.drop_last();
        assert(init[k] == members[k]);
        assert(last_of_its_name(init, k)) by {
            assert forall|j: int| k < j < init.len() implies (#[trigger] init[j]).0@ != init[k].0@ by {
                assert(init[j] == members[j]);
            }
        }
        lemma_meta_auth_member(init, k, e);
        assert(members[n].0@ != members[k].0@);
    }
}

/// A `basic` entry of `_meta.auth` gives, for its API, credentials whose
/// username is the entry's `username` and whose password is its `password`
/// (for the last member of that name).
pub proof fn law_meta_auth_basic(
    members: Seq<(String, JsonValue)>,
    k: int,
    username: String,
    password: String,
)
    requires
        0 <= k < members.len(),
        last_of_its_name(members, k),
        str_member(members[k].1, "type"@) matches Some(t) && t@ == "basic"@,
        str_member(members[k].1, "username"@) == Some(username),
        str_member(members[k].1, "password"@) == Some(password),
    ensures
        meta_auth(members).dom().contains(members[k].0@),
        meta_auth(members)[members[k].0@] == (AuthCredentials::Basic { username, password }),
{
    reveal_strlit("bearer");
    reveal_strlit("api_key");
    reveal_strlit("basic");
    assert("basic"@[1] != "bearer"@[1]);
    assert("basic"@[0] != "api_key"@[0]);
    assert(meta_entry(members[k].1) == Some(MetaAuthEntry::Basic { username, password }));
    lemma_meta_auth_member(members, k, MetaAuthEntry::Basic { username, password });
}

/// A `bearer` entry of `_meta.auth` gives, for its API, its `token` as the
/// bearer token (for the last member of that name).
pub proof fn law_meta_auth_bearer(members: Seq<(String, JsonValue)>, k: int, token: String)
    requires
        0 <= k < members.len(),
        last_of_its_name(members, k),
        str_member(members[k].1, "type"@) matches Some(t) && t@ == "bearer"@,
        str_member(members[k].1, "token"@) == Some(token),
    ensures
        meta_auth(members).dom().contains(members[k].0@),
        meta_auth(members)[members[k].0@] == AuthCredentials::BearerToken(token),
{
    reveal_strlit("bearer");
    assert(meta_entry(members[k].1) == Some(MetaAuthEntry::Bearer { token }));
    lemma_meta_auth_member(members, k, MetaAuthEntry::Bearer { token });
}

/// An `api_key` entry of `_meta.auth` gives, for its API, its `key` as the
/// API key (for the last member of that name).
pub proof fn law_meta_auth_api_key(members: Seq<(String, JsonValue)>, k: int, key: String)
    requires
        0 <= k < members.len(),
        last_of_its_name(members, k),
        str_member(members[k].1, "type"@) matches Some(t) && t@ == "api_key"@,
        str_member(members[k].1, "key"@) == Some(key),
    ensures
        meta_auth(members).dom().contains(members[k].0@),
        meta_auth(members)[members[k].0@] == AuthCredentials::ApiKey(key),
{
    reveal_strlit("bearer");
    reveal_strlit("api_key");
    assert("api_key"@[0] != "bearer"@[0]);
    assert(meta_entry(members[k].1) == Some(MetaAuthEntry::ApiKey { key }));
    lemma_meta_auth_member(members, k, MetaAuthEntry::ApiKey { key });
}

/// An entry whose `type` is none of `bearer`, `api_key` and `basic`.
pub open spec fn unknown_auth_type(v: JsonValue) -> bool {
    match str_member(v, "type"@) {
        Some(t) => t@ != "bearer"@ && t@ != "api_key"@ && t@ != "basic"@,
        None => true,
    }
}

/// An API none of whose `_meta.auth` members has a known `type` gets no
/// credentials from `_meta.auth`.
pub proof fn law_meta_auth_skips_unknown_types(members: Seq<(String, JsonValue)>, name: Seq<char>)
    requires
        forall|i: int|
            0 <= i < members.len() && (#[trigger] members[i]).0@ == name ==> unknown_auth_type(members[i].1),
    ensures
        !meta_auth(members).dom().contains(name),
    decreases members.len(),
{
    if members.len() > 0 {
        let init = members.drop_last();
        assert forall|i: int|
            0 <= i < init.len() && (#[trigger] init[i]).0@ == name implies unknown_auth_type(init[i].1) by {
            assert(init[i] == members[i]);
        }
        law_meta_auth_skips_unknown_types(init, name);
        let n = members.len() - 1;
        if members[n].0@ == name {
            assert(unknown_auth_type(members[n].1));
            assert(meta_entry(members.last().1) is None);
        }
    }
}

/// Parses the `_meta.auth` value of a request into credentials by API name:
/// each member of the object is an API name and its entry; entries that
/// cannot be read are skipped, and a value that is not an object gives none.
pub fn parse_meta_auth(auth_value: &JsonValue) -> (r: AuthCredentialsMap)
    ensures
        r@ == match *auth_value {
            JsonValue::Object(members) => meta_auth(members@),
            _ => Map::<Seq<char>, AuthCredentials>::empty(),
        },
{
    let mut map: AuthCredentialsMap = NameMap::new();
    match auth_value {
        JsonValue::Object(members) => {
            let mut i: usize = 0;
            proof {
                assert(members@.take(0) =~= Seq::<(String, JsonValue)>::empty());
            }
            while i < members.len()
                invariant
                    i <= members@.len(),
                    map@ == meta_auth(members@.take(i as int)),
                decreases members@.len() - i,
            {
                proof {
                    assert(members@.take(i + 1).drop_last() =~= members@.take(i as int));
                    assert(members@.take(i + 1).last() == members@[i as int]);
                }
                let (name, value) = &members[i];
                if let Some(entry) = parse_meta_entry(value) {
                    let c = AuthCredentials::from(entry);
                    map.insert(name.clone(), c);
                }
                i = i + 1;
            }
            proof {
                assert(members@.take(members@.len() as int) =~= members@);
            }
            map
        },
        _ => map,
    }
}

/// An owned copy of a credentials map.
pub fn copy_credentials(m: &AuthCredentialsMap) -> (r: AuthCredentialsMap)
    ensures
        r@ == m@,
{
    let es = m.entries();
    let mut r: AuthCredentialsMap = NameMap::new();
    let mut i: usize = 0;
    proof {
        assert(es@.take(0) =~= Seq::<(String, AuthCredentials)>::empty());
    }
    while i < es.len()
        invariant
            i <= es@.len(),
            m@ == map_of(es@),
            r@ == map_of(es@.take(i as int)),
        decreases es@.len() - i,
    {
        proof {
            assert(es@.take(i + 1).drop_last() =~= es@.take(i as int));
            assert(es@.take(i + 1).last() == es@[i as int]);
        }
        r.insert(es[i].0.clone(), es[i].1.copy());
        i = i + 1;
    }
    proof {
        assert(es@.take(es@.len() as int) =~= es@);
    }
    r
}

/// Merges the credentials loaded at start-up with those of a request; the
/// request's credentials win for an API named in both.
pub fn merge_credentials(env_creds: &AuthCredentialsMap, meta_creds: &AuthCredentialsMap) -> (r:
    AuthCredentialsMap)
    ensures
        r@ == env_creds@.union_prefer_right(meta_creds@),
{
    let mut merged = copy_credentials(env_creds);
    merged.extend(copy_credentials(meta_creds));
    merged
}

/// The token of an `Authorization` header value: what follows `Bearer `,
/// when that is not empty.
pub open spec fn bearer_token(header: Seq<char>) -> Option<Seq<char>> {
    match strip_prefix(header, "Bearer "@) {
        Some(t) => if t.len() > 0 {
            Some(t)
        } else {
            None
        },
        None => None,
    }
}

/// Takes the bearer token out of an `Authorization` header value; a missing
/// header (empty), another scheme or an empty token is refused.
pub fn extract_bearer_token(header: &str) -> (r: Result<String, String>)
    ensures
        match bearer_token(header@) {
            Some(t) => r matches Ok(x) && x@ == t,
            None => r matches Err(m) && m@ == "missing or malformed bearer token"@,
        },
{
    match strip_prefix_of(header, "Bearer ") {
        Some(t) => {
            if t.as_str().is_empty() {
                Err(owned("missing or malformed bearer token"))
            } else {
                Ok(t)
            }
        },
        None => Err(owned("missing or malformed bearer token")),
    }
}

} // verus!
