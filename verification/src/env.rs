//! Environment lookups shared by every service's configuration.
//!
//! The process environment is handed in as a list of `(name, value)` pairs;
//! the lookups below decide what each service makes of it.

use vstd::prelude::*;
use crate::text::{owned, str_eq};

verus! {

/// The first value bound to `key` in `env`.
pub open spec fn env_get(env: Seq<(String, String)>, key: Seq<char>) -> Option<Seq<char>>
    decreases env.len(),
{
    if env.len() == 0 {
        None
    } else if env[0].0@ == key {
        Some(env[0].1@)
    } else {
        env_get(env.drop_first(), key)
    }
}

/// An optional variable: absent and empty values both read as absent.
pub open spec fn optional_spec(env: Seq<(String, String)>, key: Seq<char>) -> Option<Seq<char>> {
    match env_get(env, key) {
        Some(v) => if v.len() == 0 {
            None
        } else {
            Some(v)
        },
        None => None,
    }
}

/// An optional variable with a fallback.
pub open spec fn optional_or_spec(env: Seq<(String, String)>, key: Seq<char>, default: Seq<char>) -> Seq<
    char,
> {
    match optional_spec(env, key) {
        Some(v) => v,
        None => default,
    }
}

/// The views of an optional string.
pub open spec fn opt_view(o: Option<String>) -> Option<Seq<char>> {
    match o {
        Some(s) => Some(s@),
        None => None,
    }
}

/// A required variable is missing.
#[derive(Debug)]
pub struct MissingVar {
    /// The variable's name.
    pub key: String,
}

impl MissingVar {
    /// `missing required environment variable: {key}`.
    pub fn message(&self) -> (r: String)
        ensures
            r@ == "missing required environment variable: "@ + self.key@,
    {
        let mut out = owned("missing required environment variable: ");
        out.append(self.key.as_str());
        out
    }
}

/// The value bound to `key` in `env`, if any (`std::env::var`).
pub fn env_var(env: &Vec<(String, String)>, key: &str) -> (r: Option<String>)
    ensures
        opt_view(r) == env_get(env@, key@),
{
    let n = env.len();
    let mut i: usize = 0;
    assert(env@.subrange(0, n as int) =~= env@);
    while i < n
        invariant
            n == env@.len(),
            i <= n,
            env_get(env@, key@) == env_get(env@.subrange(i as int, n as int), key@),
        decreases n - i,
    {
        let ghost rest = env@.subrange(i as int, n as int);
        assert(rest[0] == env@[i as int]);
        if str_eq(env[i].0.as_str(), key) {
            return Some(env[i].1.clone());
        }
        assert(rest.drop_first() =~= env@.subrange(i + 1, n as int));
        i = i + 1;
    }
    None
}

/// An optional variable, treating empty strings as absent.
pub fn optional(env: &Vec<(String, String)>, key: &str) -> (r: Option<String>)
    ensures
        opt_view(r) == optional_spec(env@, key@),
{
    match env_var(env, key) {
        Some(v) => {
            if v.as_str().unicode_len() == 0 {
                None
            } else {
                Some(v)
            }
        },
        None => None,
    }
}

/// An optional variable or `default`.
pub fn optional_or(env: &Vec<(String, String)>, key: &str, default: &str) -> (r: String)
    ensures
        r@ == optional_or_spec(env@, key@, default@),
{
    match optional(env, key) {
        Some(v) => v,
        None => owned(default),
    }
}

/// A required variable; a missing one is an error naming it. An empty value
/// still counts as present.
pub fn require(env: &Vec<(String, String)>, key: &str) -> (r: Result<String, MissingVar>)
    ensures
        match env_get(env@, key@) {
            Some(v) => r matches Ok(s) && s@ == v,
            None => r matches Err(e) && e.key@ == key@,
        },
{
    match env_var(env, key) {
        Some(v) => Ok(v),
        None => Err(MissingVar { key: owned(key) }),
    }
}

} // verus!
