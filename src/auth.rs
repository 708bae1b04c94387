//! Bearer tokens, scopes and which paths need authentication.
use vstd::prelude::*;

verus! {

/// What a token says about its holder.
pub struct Claims {
    pub sub: String,
    pub name: String,
    pub email: String,
    pub exp: usize,
    pub iat: usize,
    pub iss: String,
    pub scope: Vec<String>,
}

/// Settings for issuing and checking tokens.
pub struct JwtConfig {
    pub secret: String,
    pub issuer: String,
    pub expiration_hours: u64,
}

impl JwtConfig {
    /// Settings with the given secret, issuer `ghostdock` and a lifetime of
    /// 24 hours.
    pub fn new(secret: String) -> (r: JwtConfig)
        ensures
            r.secret == secret,
            r.issuer@ == "ghostdock"@,
            r.expiration_hours == 24,
    {
        JwtConfig { secret, issuer: String::from_str("ghostdock"), expiration_hours: 24 }
    }
}

/// State handed to the authentication layer.
pub struct AuthState {
    pub jwt_config: JwtConfig,
    pub require_auth: bool,
}

/// The holder of a valid token.
pub struct AuthenticatedUser {
    pub id: String,
    pub name: String,
    pub email: String,
    pub scopes: Vec<String>,
}

impl AuthenticatedUser {
    /// The user that the claims describe.
    pub fn from_claims(claims: Claims) -> (r: AuthenticatedUser)
        ensures
            r.id == claims.sub,
            r.name == claims.name,
            r.email == claims.email,
            r.scopes == claims.scope,
    {
        AuthenticatedUser { id: claims.sub, name: claims.name, email: claims.email, scopes: claims.scope }
    }
}

/// Authentication state with a fresh token configuration.
pub fn create_auth_state(jwt_secret: String, require_auth: bool) -> (r: AuthState)
    ensures
        r.jwt_config.secret == jwt_secret,
        r.jwt_config.issuer@ == "ghostdock"@,
        r.jwt_config.expiration_hours == 24,
        r.require_auth == require_auth,
{
    AuthState { jwt_config: JwtConfig::new(jwt_secret), require_auth }
}

/// `p` begins with `q`.
pub open spec fn has_prefix(p: Seq<char>, q: Seq<char>) -> bool {
    p.len() >= q.len() && p.subrange(0, q.len() as int) == q
}

/// Whether `s` begins with `prefix`.
pub fn str_starts_with(s: &str, prefix: &str) -> (r: bool)
    ensures
        r == has_prefix(s@, prefix@),
{
    let n = s.unicode_len();
    let m = prefix.unicode_len();
    if n < m {
        return false;
    }
    let mut i: usize = 0;
    while i < m
        invariant
            n == s@.len(),
            m == prefix@.len(),
            m <= n,
            i <= m,
            forall|j: int| 0 <= j < i ==> s@[j] == prefix@[j],
        decreases m - i,
    {
        if s.get_char(i) != prefix.get_char(i) {
            assert(s@.subrange(0, m as int)[i as int] != prefix@[i as int]);
            return false;
        }
        i = i + 1;
    }
    assert(s@.subrange(0, m as int) =~= prefix@);
    true
}

/// The token of an `Authorization: Bearer <token>` header.
pub fn extract_token_from_header(auth_header: &str) -> (r: Option<&str>)
    ensures
        has_prefix(auth_header@, "Bearer "@) ==> r is Some && r->0@ == auth_header@.subrange(
            "Bearer "@.len() as int,
            auth_header@.len() as int,
        ),
        !has_prefix(auth_header@, "Bearer "@) ==> r is None,
{
    if str_starts_with(auth_header, "Bearer ") {
        let n = auth_header.unicode_len();
        let m = "Bearer ".unicode_len();
        Some(auth_header.substring_char(m, n))
    } else {
        None
    }
}

/// `s` holds the string `x`.
pub open spec fn contains_text(s: Seq<String>, x: Seq<char>) -> bool {
    exists|i: int| 0 <= i < s.len() && s[i]@ == x
}

/// Whether the holder may act under `required_scope`: they hold it, or
/// they hold `admin`.
pub fn has_scope(claims: &Claims, required_scope: &str) -> (r: bool)
    ensures
        r == (contains_text(claims.scope@, required_scope@) || contains_text(
            claims.scope@,
            "admin"@,
        )),
{
    let req = String::from_str(required_scope);
    let admin = String::from_str("admin");
    crate::model::contains_string(&claims.scope, &req) || crate::model::contains_string(
        &claims.scope,
        &admin,
    )
}

/// The scopes each role grants.
pub open spec fn scopes_of_role(role: Seq<char>) -> Seq<Seq<char>> {
    if role == "admin"@ {
        seq![
            "admin"@,
            "registry:read"@,
            "registry:write"@,
            "registry:delete"@,
            "user:manage"@,
            "stack:manage"@,
        ]
    } else if role == "developer"@ {
        seq!["registry:read"@, "registry:write"@, "stack:manage"@]
    } else {
        seq!["registry:read"@]
    }
}

/// The scopes granted to a role; an unknown role may only read.
pub fn generate_scopes_for_role(role: &str) -> (r: Vec<String>)
    ensures
        r@.len() == scopes_of_role(role@).len(),
        forall|i: int| 0 <= i < r@.len() ==> #[trigger] r@[i]@ == scopes_of_role(role@)[i],
{
    let rs = String::from_str(role);
    let mut v: Vec<String> = Vec::new();
    if rs == String::from_str("admin") {
        v.push(String::from_str("admin"));
        v.push(String::from_str("registry:read"));
        v.push(String::from_str("registry:write"));
        v.push(String::from_str("registry:delete"));
        v.push(String::from_str("user:manage"));
        v.push(String::from_str("stack:manage"));
    } else if rs == String::from_str("developer") {
        v.push(String::from_str("registry:read"));
        v.push(String::from_str("registry:write"));
        v.push(String::from_str("stack:manage"));
    } else {
        v.push(String::from_str("registry:read"));
    }
    v
}

/// Paths served without authentication.
pub open spec fn is_public_path(p: Seq<char>) -> bool {
    p == "/health"@ || p == "/metrics"@ || p == "/"@ || p == "/auth/login"@ || p
        == "/auth/oauth/google"@ || p == "/auth/oauth/github"@ || p == "/auth/oauth/microsoft"@
        || p == "/auth/oauth/google/callback"@ || p == "/auth/oauth/github/callback"@ || p
        == "/auth/oauth/microsoft/callback"@ || p == "/v2/"@
}

/// Whether `path` is served without authentication.
pub fn is_public_endpoint(path: &str) -> (r: bool)
    ensures
        r == is_public_path(path@),
{
    let p = String::from_str(path);
    p == String::from_str("/health") || p == String::from_str("/metrics") || p == String::from_str(
        "/",
    ) || p == String::from_str("/auth/login") || p == String::from_str("/auth/oauth/google") || p
        == String::from_str("/auth/oauth/github") || p == String::from_str("/auth/oauth/microsoft")
        || p == String::from_str("/auth/oauth/google/callback") || p == String::from_str(
        "/auth/oauth/github/callback",
    ) || p == String::from_str("/auth/oauth/microsoft/callback") || p == String::from_str("/v2/")
}

/// Paths that always need a valid token.
pub open spec fn is_protected_path(p: Seq<char>) -> bool {
    (has_prefix(p, "/v2/"@) && p != "/v2/"@) || has_prefix(p, "/api/"@) || has_prefix(
        p,
        "/dashboard"@,
    ) || has_prefix(p, "/repositories"@) || has_prefix(p, "/users"@) || has_prefix(
        p,
        "/settings"@,
    ) || has_prefix(p, "/stacks"@)
}

/// Whether `path` always needs a valid token.
pub fn requires_auth(path: &str) -> (r: bool)
    ensures
        r == is_protected_path(path@),
{
    let p = String::from_str(path);
    (str_starts_with(path, "/v2/") && p != String::from_str("/v2/")) || str_starts_with(
        path,
        "/api/",
    ) || str_starts_with(path, "/dashboard") || str_starts_with(path, "/repositories")
        || str_starts_with(path, "/users") || str_starts_with(path, "/settings") || str_starts_with(
        path,
        "/stacks",
    )
}

} // verus!
