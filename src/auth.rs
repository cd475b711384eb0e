//! Which endpoint and access token are in force.
use vstd::prelude::*;

verus! {

/// Credentials as stored between sessions.
#[derive(Debug, Clone)]
pub struct CodyCredentials {
    pub endpoint: Option<String>,
    pub token: Option<String>,
}

/// A setting from the environment wins when it is non-empty; else the stored
/// one applies.
pub open spec fn chosen_setting(from_env: Option<Seq<char>>, stored: Option<Seq<char>>) -> Option<Seq<char>> {
    match from_env {
        Some(e) => if e.len() > 0 {
            Some(e)
        } else {
            stored
        },
        None => stored,
    }
}

pub open spec fn opt_view(s: Option<String>) -> Option<Seq<char>> {
    match s {
        Some(t) => Some(t@),
        None => None,
    }
}

pub open spec fn stored_token(c: Option<CodyCredentials>) -> Option<Seq<char>> {
    match c {
        Some(c) => opt_view(c.token),
        None => None,
    }
}

pub open spec fn stored_endpoint(c: Option<CodyCredentials>) -> Option<Seq<char>> {
    match c {
        Some(c) => opt_view(c.endpoint),
        None => None,
    }
}

pub open spec fn trim_trailing_slashes(s: Seq<char>) -> Seq<char>
    decreases s.len(),
{
    if s.len() > 0 && s.last() == '/' {
        trim_trailing_slashes(s.drop_last())
    } else {
        s
    }
}

/// The endpoint in force, without trailing slashes; the public instance when
/// none is configured.
pub open spec fn endpoint_spec(from_env: Option<Seq<char>>, stored: Option<CodyCredentials>) -> Seq<char> {
    match chosen_setting(from_env, stored_endpoint(stored)) {
        Some(e) => trim_trailing_slashes(e),
        None => trim_trailing_slashes("https://sourcegraph.com/"@),
    }
}

fn choose_setting(from_env: Option<String>, stored: Option<String>) -> (r: Option<String>)
    ensures
        opt_view(r) == chosen_setting(opt_view(from_env), opt_view(stored)),
{
    match from_env {
        Some(e) => if e.as_str().unicode_len() > 0 {
            Some(e)
        } else {
            stored
        },
        None => stored,
    }
}

/// The access token in force.
pub fn get_access_token(from_env: Option<String>, stored: Option<CodyCredentials>) -> (r: Option<String>)
    ensures
        opt_view(r) == chosen_setting(opt_view(from_env), stored_token(stored)),
{
    let token = match stored {
        Some(c) => c.token,
        None => None,
    };
    choose_setting(from_env, token)
}

fn trim_slashes(s: &str) -> (r: String)
    ensures
        r@ == trim_trailing_slashes(s@),
{
    let mut end = s.unicode_len();
    assert(s@.subrange(0, end as int) =~= s@);
    while end > 0 && s.get_char(end - 1) == '/'
        invariant
            end <= s@.len(),
            trim_trailing_slashes(s@) == trim_trailing_slashes(s@.subrange(0, end as int)),
        decreases end,
    {
        assert(s@.subrange(0, end as int).drop_last() =~= s@.subrange(0, end as int - 1));
        end = end - 1;
    }
    String::from_str(s.substring_char(0, end))
}

/// The endpoint in force.
pub fn get_endpoint(from_env: Option<String>, stored: Option<CodyCredentials>) -> (r: String)
    ensures
        r@ == endpoint_spec(opt_view(from_env), stored),
{
    let endpoint = match stored {
        Some(c) => c.endpoint,
        None => None,
    };
    match choose_setting(from_env, endpoint) {
        Some(e) => trim_slashes(e.as_str()),
        None => trim_slashes("https://sourcegraph.com/"),
    }
}

} // verus!
