//! Cookies as the session persists them, and the cookies it sets from them
//! when a later session starts.

use vstd::prelude::*;

verus! {

/// A cookie's same-site policy.
#[derive(Clone, Copy, PartialEq, Eq, Structural, Debug)]
pub enum SameSite {
    Strict,
    Lax,
    /// Sent with cross-site requests too.
    Unrestricted,
}

/// A cookie's priority, as the browser reports it.
#[derive(Clone, Copy, PartialEq, Eq, Structural, Debug)]
pub enum CookiePriority {
    Low,
    Medium,
    High,
}

/// The scheme of the origin that set a cookie.
#[derive(Clone, Copy, PartialEq, Eq, Structural, Debug)]
pub enum SourceScheme {
    Unset,
    NonSecure,
    Secure,
}

/// The partition a cookie belongs to.
pub struct PartitionKey {
    pub top_level_site: String,
    pub has_cross_site_ancestor: bool,
}

/// A cookie as the browser reports it and the session persists it.
pub struct CookieRecord {
    pub name: String,
    pub value: String,
    pub domain: String,
    pub path: String,
    /// When the cookie expires, in milliseconds since the Unix epoch; none for a session cookie.
    pub expires_millis: Option<i64>,
    pub http_only: bool,
    pub secure: bool,
    pub same_site: Option<SameSite>,
    pub priority: CookiePriority,
    pub same_party: bool,
    pub source_scheme: SourceScheme,
    pub source_port: u32,
    pub partition_key: Option<PartitionKey>,
}

/// A cookie to set in the browser; a field left out takes the browser's default.
pub struct CookieToSet {
    pub name: String,
    pub value: String,
    pub url: Option<String>,
    pub domain: Option<String>,
    pub path: Option<String>,
    pub secure: Option<bool>,
    pub http_only: Option<bool>,
    pub same_site: Option<SameSite>,
    pub expires_millis: Option<i64>,
    pub priority: Option<CookiePriority>,
    pub same_party: Option<bool>,
    pub source_scheme: Option<SourceScheme>,
    pub source_port: Option<u32>,
    pub partition_key: Option<PartitionKey>,
}

/// The cookie set back from a persisted one: every field carried over as it
/// was, with no URL, so that the domain and path decide where it applies.
pub open spec fn restored(c: CookieRecord) -> CookieToSet {
    CookieToSet {
        name: c.name,
        value: c.value,
        url: None,
        domain: Some(c.domain),
        path: Some(c.path),
        secure: Some(c.secure),
        http_only: Some(c.http_only),
        same_site: c.same_site,
        expires_millis: c.expires_millis,
        priority: Some(c.priority),
        same_party: Some(c.same_party),
        source_scheme: Some(c.source_scheme),
        source_port: Some(c.source_port),
        partition_key: c.partition_key,
    }
}

fn copy_partition_key(k: &Option<PartitionKey>) -> (r: Option<PartitionKey>)
    ensures
        r == *k,
{
    match k {
        Some(p) => Some(
            PartitionKey {
                top_level_site: p.top_level_site.clone(),
                has_cross_site_ancestor: p.has_cross_site_ancestor,
            },
        ),
        None => None,
    }
}

/// The cookie to set back from the persisted cookie `c`.
pub fn restore_cookie(c: &CookieRecord) -> (r: CookieToSet)
    ensures
        r == restored(*c),
{
    CookieToSet {
        name: c.name.clone(),
        value: c.value.clone(),
        url: None,
        domain: Some(c.domain.clone()),
        path: Some(c.path.clone()),
        secure: Some(c.secure),
        http_only: Some(c.http_only),
        same_site: c.same_site,
        expires_millis: c.expires_millis,
        priority: Some(c.priority),
        same_party: Some(c.same_party),
        source_scheme: Some(c.source_scheme),
        source_port: Some(c.source_port),
        partition_key: copy_partition_key(&c.partition_key),
    }
}

/// The cookies to set back from the persisted `cookies`, one for each, in order.
pub fn restore_cookies(cookies: &Vec<CookieRecord>) -> (r: Vec<CookieToSet>)
    ensures
        r@ == cookies@.map_values(|c: CookieRecord| restored(c)),
{
    let mut r: Vec<CookieToSet> = Vec::new();
    let mut i: usize = 0;
    while i < cookies.len()
        invariant
            i <= cookies.len(),
            r@ == cookies@.take(i as int).map_values(|c: CookieRecord| restored(c)),
        decreases cookies.len() - i,
    {
        r.push(restore_cookie(&cookies[i]));
        i += 1;
        assert(r@ =~= cookies@.take(i as int).map_values(|c: CookieRecord| restored(c)));
    }
    assert(cookies@.take(cookies.len() as int) =~= cookies@);
    r
}

/// The name, value, domain and path of a persisted cookie.
pub open spec fn stored_identity(c: CookieRecord) -> (Seq<char>, Seq<char>, Seq<char>, Seq<char>) {
    (c.name@, c.value@, c.domain@, c.path@)
}

/// The name, value, domain and path of a cookie to set.
pub open spec fn set_identity(c: CookieToSet) -> (Seq<char>, Seq<char>, Seq<char>, Seq<char>) {
    (
        c.name@,
        c.value@,
        match c.domain {
            Some(d) => d@,
            None => Seq::empty(),
        },
        match c.path {
            Some(p) => p@,
            None => Seq::empty(),
        },
    )
}

/// The cookies set back from persisted ones carry the same set of names,
/// values, domains and paths.
pub proof fn lemma_restored_cookies_keep_identity(saved: Seq<CookieRecord>, set: Seq<CookieToSet>)
    requires
        set == saved.map_values(|c: CookieRecord| restored(c)),
    ensures
        set.map_values(|c: CookieToSet| set_identity(c)).to_set() == saved.map_values(
            |c: CookieRecord| stored_identity(c),
        ).to_set(),
{
    let a = set.map_values(|c: CookieToSet| set_identity(c));
    let b = saved.map_values(|c: CookieRecord| stored_identity(c));
    assert(a =~= b);
}

} // verus!
