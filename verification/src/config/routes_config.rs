//! The route table: declarative mappings from path prefixes to services,
//! with optional auth requirements and rewrite rules.

use vstd::prelude::*;
use crate::text::is_prefix_of;

verus! {

/// The route table, in declaration order.
#[derive(Debug, Clone)]
pub struct RoutesConfig {
    /// Route rules; earlier rules win ties on prefix length.
    pub routes: Vec<RouteRule>,
}

/// One route rule.
#[derive(Debug, Clone)]
pub struct RouteRule {
    /// Identifier of the rule.
    pub id: String,
    /// Human-readable name.
    pub name: String,
    /// The path prefix this rule matches.
    pub path_prefix: String,
    /// The service requests are forwarded to.
    pub service_type: ServiceType,
    /// Whether the request must carry an authenticated principal.
    pub require_auth: bool,
    /// Allowed methods; empty means all methods.
    pub methods: Vec<String>,
    /// Header rewrites applied before forwarding.
    pub rewrite_headers: Vec<(String, String)>,
    /// Optional path rewrite applied before forwarding.
    pub path_rewrite: Option<PathRewrite>,
}

impl RouteRule {
    /// A rule is well-formed when its prefix is non-empty and starts
    /// with a slash.
    pub open spec fn wf(self) -> bool {
        self.path_prefix@.len() > 0 && self.path_prefix@[0] == '/'
    }

    /// Whether this rule's prefix matches `path`.
    pub open spec fn matches(self, path: Seq<char>) -> bool {
        is_prefix_of(self.path_prefix@, path)
    }
}

/// The service a route forwards to.
#[derive(Debug, Clone, PartialEq, Eq, Hash)]
pub enum ServiceType {
    /// The authentication service.
    Auth,
    /// The user service.
    User,
    /// The friend service.
    Friend,
    /// The group service.
    Group,
    /// The chat service.
    Chat,
    /// The static-content service.
    Static,
    /// A custom HTTP service, by name.
    HttpService(String),
    /// A custom gRPC service, by name.
    GrpcService(String),
}

/// A path rewrite: a prefix replacement, then an optional global regex
/// replacement.
#[derive(Debug, Clone)]
pub struct PathRewrite {
    /// Replaces the matched route prefix when set.
    pub replace_prefix: Option<String>,
    /// Regex pattern applied to the rewritten path.
    pub regex_match: Option<String>,
    /// Replacement text for `regex_match`.
    pub regex_replace: Option<String>,
}

impl Default for RoutesConfig {
    /// The stock route table: auth (open, prefix stripped), user,
    /// friend, group and chat services behind authentication.
    fn default() -> (r: Self)
        ensures
            r.routes@.len() == 5,
            forall|i: int| 0 <= i < r.routes@.len() ==> (#[trigger] r.routes@[i]).wf(),
            r.routes@[0].path_prefix@ == "/api/auth"@,
            r.routes@[0].require_auth == false,
            r.routes@[1].path_prefix@ == "/api/users"@,
            r.routes@[1].require_auth == true,
            r.routes@[2].path_prefix@ == "/api/friends"@,
            r.routes@[3].path_prefix@ == "/api/groups"@,
            r.routes@[4].path_prefix@ == "/api/chat"@,
    {
        proof {
            reveal_strlit("/api/auth");
            reveal_strlit("/api/users");
            reveal_strlit("/api/friends");
            reveal_strlit("/api/groups");
            reveal_strlit("/api/chat");
            reveal_strlit("/");
        }
        let mut routes: Vec<RouteRule> = Vec::new();
        routes.push(
            RouteRule {
                id: "auth-service".to_owned(),
                name: "认证服务".to_owned(),
                path_prefix: "/api/auth".to_owned(),
                service_type: ServiceType::Auth,
                require_auth: false,
                methods: Vec::new(),
                rewrite_headers: Vec::new(),
                path_rewrite: Some(
                    PathRewrite {
                        replace_prefix: Some("/".to_owned()),
                        regex_match: None,
                        regex_replace: None,
                    },
                ),
            },
        );
        routes.push(
            RouteRule {
                id: "user-service".to_owned(),
                name: "用户服务".to_owned(),
                path_prefix: "/api/users".to_owned(),
                service_type: ServiceType::User,
                require_auth: true,
                methods: Vec::new(),
                rewrite_headers: Vec::new(),
                path_rewrite: None,
            },
        );
        routes.push(
            RouteRule {
                id: "friend-service".to_owned(),
                name: "好友服务".to_owned(),
                path_prefix: "/api/friends".to_owned(),
                service_type: ServiceType::Friend,
                require_auth: true,
                methods: Vec::new(),
                rewrite_headers: Vec::new(),
                path_rewrite: None,
            },
        );
        routes.push(
            RouteRule {
                id: "group-service".to_owned(),
                name: "群组服务".to_owned(),
                path_prefix: "/api/groups".to_owned(),
                service_type: ServiceType::Group,
                require_auth: true,
                methods: Vec::new(),
                rewrite_headers: Vec::new(),
                path_rewrite: None,
            },
        );
        routes.push(
            RouteRule {
                id: "chat-service".to_owned(),
                name: "聊天服务".to_owned(),
                path_prefix: "/api/chat".to_owned(),
                service_type: ServiceType::Chat,
                require_auth: true,
                methods: Vec::new(),
                rewrite_headers: Vec::new(),
                path_rewrite: None,
            },
        );
        RoutesConfig { routes }
    }
}

} // verus!
