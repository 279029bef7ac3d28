//! Configuration from environment variables, taken as plain key/value
//! pairs.

use vstd::prelude::*;
use crate::text::{concat2, str_eq};

verus! {

#[derive(Debug, Clone)]
pub struct Config {
    /// Public base URL of this app, no trailing slash, e.g. https://conlang.example.com
    pub base_url: String,
    pub bind_addr: String,
    pub database_url: String,
    /// Pocket ID base URL (it is its own OIDC issuer), e.g. https://id.example.com
    pub oidc_issuer_url: String,
    pub oidc_client_id: String,
    pub oidc_client_secret: String,
    /// Set true behind TLS (reverse proxy). Controls the session cookie's Secure flag.
    pub cookie_secure: bool,
    /// Local development escape hatch: skip OIDC entirely, log in as a dev user.
    /// Never enable in a deployed environment.
    pub auth_disabled: bool,
}

/// A required variable that is not set.
#[derive(Debug)]
pub struct ConfigError {
    pub key: String,
}

impl ConfigError {
    /// The error's message, for people.
    pub fn message(&self) -> (r: String)
        ensures
            r@ == "missing required env var "@ + self.key@,
    {
        concat2("missing required env var ", self.key.as_str())
    }
}

/// The value of the first entry for `key`, from entry `i` on.
pub open spec fn lookup(vars: Seq<(Seq<char>, Seq<char>)>, key: Seq<char>, i: int) -> Option<Seq<char>>
    decreases vars.len() - i,
{
    if i >= vars.len() {
        None
    } else if vars[i].0 == key {
        Some(vars[i].1)
    } else {
        lookup(vars, key, i + 1)
    }
}

/// A variable's value, or a default when it is not set.
pub open spec fn var_or_spec(vars: Seq<(Seq<char>, Seq<char>)>, key: Seq<char>, default: Seq<char>) -> Seq<char> {
    match lookup(vars, key, 0) {
        Some(v) => v,
        None => default,
    }
}

/// A text without its trailing slashes.
pub open spec fn trim_slashes(s: Seq<char>) -> Seq<char>
    decreases s.len(),
{
    if s.len() > 0 && s.last() == '/' {
        trim_slashes(s.drop_last())
    } else {
        s
    }
}

pub open spec fn vars_view(vars: Seq<(String, String)>) -> Seq<(Seq<char>, Seq<char>)> {
    Seq::new(vars.len(), |i: int| (vars[i].0@, vars[i].1@))
}

fn var(vars: &[(String, String)], key: &str) -> (r: Option<String>)
    ensures
        match r {
            Some(v) => lookup(vars_view(vars@), key@, 0) == Some(v@),
            None => lookup(vars_view(vars@), key@, 0) is None,
        },
{
    let ghost vv = vars_view(vars@);
    let mut i: usize = 0;
    while i < vars.len()
        invariant
            vv == vars_view(vars@),
            i <= vars@.len(),
            lookup(vv, key@, 0) == lookup(vv, key@, i as int),
        decreases vars@.len() - i,
    {
        if str_eq(vars[i].0.as_str(), key) {
            return Some(vars[i].1.clone());
        }
        i += 1;
    }
    None
}

fn var_or(vars: &[(String, String)], key: &str, default: &str) -> (r: String)
    ensures
        r@ == var_or_spec(vars_view(vars@), key@, default@),
{
    match var(vars, key) {
        Some(v) => v,
        None => String::from_str(default),
    }
}

fn without_trailing_slashes(s: &str) -> (r: String)
    ensures
        r@ == trim_slashes(s@),
{
    let cs = crate::text::chars_of(s);
    let mut n: usize = cs.len();
    assert(cs@.take(n as int) =~= cs@);
    while n > 0 && cs[n - 1] == '/'
        invariant
            cs@ == s@,
            n <= cs@.len(),
            trim_slashes(cs@) == trim_slashes(cs@.take(n as int)),
        decreases n,
    {
        assert(cs@.take(n as int).drop_last() =~= cs@.take(n - 1));
        n -= 1;
    }
    assert(cs@.take(n as int) =~= cs@.subrange(0, n as int));
    crate::text::string_of_range(cs.as_slice(), 0, n)
}

/// The configuration the environment describes; `Err` names the first
/// missing required variable.
pub open spec fn config_spec(vars: Seq<(Seq<char>, Seq<char>)>) -> Result<
    (Seq<char>, Seq<char>, Seq<char>, Seq<char>, Seq<char>, Seq<char>, bool, bool),
    Seq<char>,
> {
    let auth_disabled = var_or_spec(vars, "AUTH_DISABLED"@, "false"@) == "true"@;
    let base = trim_slashes(var_or_spec(vars, "BASE_URL"@, "http://localhost:8080"@));
    let bind = var_or_spec(vars, "BIND_ADDR"@, "0.0.0.0:8080"@);
    let db = var_or_spec(vars, "DATABASE_URL"@, "sqlite://data/conlang.db"@);
    let secure = var_or_spec(vars, "COOKIE_SECURE"@, "true"@) == "true"@;
    if auth_disabled {
        Ok((base, bind, db, Seq::empty(), Seq::empty(), Seq::empty(), secure, true))
    } else {
        match (lookup(vars, "OIDC_ISSUER_URL"@, 0), lookup(vars, "OIDC_CLIENT_ID"@, 0), lookup(vars, "OIDC_CLIENT_SECRET"@, 0)) {
            (None, _, _) => Err("OIDC_ISSUER_URL"@),
            (Some(_), None, _) => Err("OIDC_CLIENT_ID"@),
            (Some(_), Some(_), None) => Err("OIDC_CLIENT_SECRET"@),
            (Some(i), Some(c), Some(s)) => Ok((base, bind, db, trim_slashes(i), c, s, secure, false)),
        }
    }
}

impl Config {
    /// The configuration from the environment's variables: defaults for
    /// optional ones, an error naming the first missing OIDC variable
    /// unless authentication is disabled.
    pub fn from_env(vars: &[(String, String)]) -> (r: Result<Config, ConfigError>)
        ensures
            match config_spec(vars_view(vars@)) {
                Ok((base, bind, db, issuer, id, secret, secure, disabled)) => r matches Ok(c) && c.base_url@ == base
                    && c.bind_addr@ == bind && c.database_url@ == db && c.oidc_issuer_url@ == issuer
                    && c.oidc_client_id@ == id && c.oidc_client_secret@ == secret && c.cookie_secure == secure
                    && c.auth_disabled == disabled,
                Err(key) => r matches Err(e) && e.key@ == key,
            },
    {
        let flag = var_or(vars, "AUTH_DISABLED", "false");
        let auth_disabled = str_eq(flag.as_str(), "true");
        let (issuer, client_id, client_secret) = if auth_disabled {
            (String::new(), String::new(), String::new())
        } else {
            let i = match var(vars, "OIDC_ISSUER_URL") {
                Some(v) => v,
                None => {
                    return Err(ConfigError { key: String::from_str("OIDC_ISSUER_URL") });
                },
            };
            let c = match var(vars, "OIDC_CLIENT_ID") {
                Some(v) => v,
                None => {
                    return Err(ConfigError { key: String::from_str("OIDC_CLIENT_ID") });
                },
            };
            let s = match var(vars, "OIDC_CLIENT_SECRET") {
                Some(v) => v,
                None => {
                    return Err(ConfigError { key: String::from_str("OIDC_CLIENT_SECRET") });
                },
            };
            (without_trailing_slashes(i.as_str()), c, s)
        };
        let base = var_or(vars, "BASE_URL", "http://localhost:8080");
        let secure = var_or(vars, "COOKIE_SECURE", "true");
        Ok(Config {
            base_url: without_trailing_slashes(base.as_str()),
            bind_addr: var_or(vars, "BIND_ADDR", "0.0.0.0:8080"),
            database_url: var_or(vars, "DATABASE_URL", "sqlite://data/conlang.db"),
            oidc_issuer_url: issuer,
            oidc_client_id: client_id,
            oidc_client_secret: client_secret,
            cookie_secure: str_eq(secure.as_str(), "true"),
            auth_disabled,
        })
    }

    /// Where the identity provider sends the user back.
    pub fn redirect_url(&self) -> (r: String)
        ensures
            r@ == self.base_url@ + "/auth/callback"@,
    {
        concat2(self.base_url.as_str(), "/auth/callback")
    }
}

/// Law: a configured base URL never ends in a slash, so the redirect URL
/// has exactly one slash before `auth/callback`.
pub proof fn law_base_url_trimmed(s: Seq<char>)
    ensures
        trim_slashes(s).len() == 0 || trim_slashes(s).last() != '/',
    decreases s.len(),
{
    if s.len() > 0 && s.last() == '/' {
        law_base_url_trimmed(s.drop_last());
    }
}

} // verus!
