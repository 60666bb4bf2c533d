//! Authentication configuration: the JWT, API-key and OAuth2 schemes,
//! and the path and IP whitelists that bypass them.

use vstd::prelude::*;

verus! {

/// The auth section of the gateway configuration.  At most one of the
/// three schemes is enabled in a deployment.
#[derive(Debug, Clone)]
pub struct AuthConfig {
    /// JWT bearer-token scheme.
    pub jwt: JwtConfig,
    /// Static API-key scheme.
    pub api_key: ApiKeyConfig,
    /// OAuth2 bearer scheme.
    pub oauth2: OAuth2Config,
    /// Client IPs that bypass authentication.
    pub ip_whitelist: Vec<String>,
    /// Path prefixes that bypass authentication.
    pub path_whitelist: Vec<String>,
}

/// Parameters of the JWT scheme.
#[derive(Debug, Clone)]
pub struct JwtConfig {
    /// Whether the scheme is enabled.
    pub enabled: bool,
    /// HS256 signing secret.
    pub secret: String,
    /// Issuer written into tokens the gateway mints.
    pub issuer: String,
    /// Access-token lifetime in seconds.
    pub expiry_seconds: u64,
    /// Refresh-token lifetime in seconds.
    pub refresh_expiry_seconds: u64,
    /// Whether the `iss` claim is checked.
    pub verify_issuer: bool,
    /// Issuers accepted when `verify_issuer` is set.
    pub allowed_issuers: Vec<String>,
    /// Header carrying the token.
    pub header_name: String,
    /// Prefix stripped from the header value.
    pub header_prefix: String,
}

/// Parameters of the API-key scheme.
#[derive(Debug, Clone)]
pub struct ApiKeyConfig {
    /// Whether the scheme is enabled.
    pub enabled: bool,
    /// Header carrying the key.
    pub header_name: String,
    /// The key table, keyed by the key string itself.
    pub api_keys: Vec<(String, ApiKeyInfo)>,
}

/// One entry of the API-key table.
#[derive(Debug, Clone)]
pub struct ApiKeyInfo {
    /// Display name; becomes the principal's username.
    pub name: String,
    /// The user the key acts as.
    pub user_id: Option<i64>,
    /// Permissions; become the principal's roles.
    pub permissions: Vec<String>,
    /// Whether the key is active.
    pub enabled: bool,
    /// Expiry instant in RFC 3339 form, if the key expires.
    pub expires_at: Option<String>,
}

/// Parameters of the OAuth2 scheme.
#[derive(Debug, Clone)]
pub struct OAuth2Config {
    /// Whether the scheme is enabled.
    pub enabled: bool,
    /// Client identifier at the provider.
    pub client_id: String,
    /// Client secret at the provider.
    pub client_secret: String,
    /// Authorization endpoint.
    pub auth_url: String,
    /// Token endpoint; the userinfo endpoint hangs off it.
    pub token_url: String,
    /// Redirect target after authorization.
    pub redirect_url: String,
    /// Requested scopes.
    pub scope: String,
}

impl Default for AuthConfig {
    /// The stock auth settings: JWT enabled with a placeholder secret,
    /// the other schemes off, loopback IPs and the health, login,
    /// register and metrics paths whitelisted.
    fn default() -> (r: Self)
        ensures
            r.jwt.enabled,
            !r.api_key.enabled,
            !r.oauth2.enabled,
            !r.jwt.verify_issuer,
            r.jwt.header_name@ == "Authorization"@,
            r.jwt.header_prefix@ == "Bearer "@,
            r.ip_whitelist@.len() == 2,
            r.path_whitelist@.len() == 4,
            r.path_whitelist@[1]@ == "/api/auth/login"@,
    {
        proof {
            reveal_strlit("Authorization");
            reveal_strlit("Bearer ");
            reveal_strlit("/api/auth/login");
        }
        let mut ip_whitelist: Vec<String> = Vec::new();
        ip_whitelist.push("127.0.0.1".to_owned());
        ip_whitelist.push("::1".to_owned());
        let mut path_whitelist: Vec<String> = Vec::new();
        path_whitelist.push("/api/health".to_owned());
        path_whitelist.push("/api/auth/login".to_owned());
        path_whitelist.push("/api/auth/register".to_owned());
        path_whitelist.push("/metrics".to_owned());
        AuthConfig {
            jwt: JwtConfig {
                enabled: true,
                secret: "change_this_to_a_secure_random_string".to_owned(),
                issuer: "api-gateway".to_owned(),
                expiry_seconds: 86400,
                refresh_expiry_seconds: 604800,
                verify_issuer: false,
                allowed_issuers: Vec::new(),
                header_name: "Authorization".to_owned(),
                header_prefix: "Bearer ".to_owned(),
            },
            api_key: ApiKeyConfig {
                enabled: false,
                header_name: "X-API-Key".to_owned(),
                api_keys: Vec::new(),
            },
            oauth2: OAuth2Config {
                enabled: false,
                client_id: String::new(),
                client_secret: String::new(),
                auth_url: String::new(),
                token_url: String::new(),
                redirect_url: String::new(),
                scope: String::new(),
            },
            ip_whitelist,
            path_whitelist,
        }
    }
}

} // verus!
