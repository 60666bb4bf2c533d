//! Service discovery cache, instance selection, and the plan the proxy
//! follows when it forwards a request upstream.

use vstd::prelude::*;
use crate::auth::jwt::UserInfo;
use crate::config::routes_config::{RouteRule, ServiceType};
use crate::error::Error;
use crate::proxy::utils::{apply_path_rewrite, spec_apply_path_rewrite};
use crate::router::{match_route, spec_match_index};
use crate::text::{i64_to_string, dec_rep_int, join_strings, joined_with, str_eq};

verus! {

/// A catalog row for one instance, as the registry reports it: the
/// instance's own address, the node address to fall back to, and the
/// port.
#[derive(Debug, Clone)]
pub struct CatalogInstance {
    /// The service's registered address; may be empty.
    pub service_address: String,
    /// The node's address, used when the service address is empty.
    pub address: String,
    /// The service's port.
    pub service_port: u16,
}

/// The URL for one catalog row: `http://host:port` with the service
/// address preferred; a row with neither address yields nothing.
pub open spec fn spec_instance_url(e: CatalogInstance) -> Option<Seq<char>> {
    let host: Seq<char> = if e.service_address@.len() > 0 {
        e.service_address@
    } else {
        e.address@
    };
    if host.len() > 0 {
        Some("http://"@ + host + ":"@ + crate::text::dec_rep(e.service_port as nat))
    } else {
        None
    }
}

/// The URLs of the rows that carry an address, in order.
pub open spec fn spec_instance_urls(entries: Seq<CatalogInstance>) -> Seq<Seq<char>>
    decreases entries.len(),
{
    if entries.len() == 0 {
        Seq::empty()
    } else {
        let rest = spec_instance_urls(entries.drop_last());
        match spec_instance_url(entries.last()) {
            Some(u) => rest.push(u),
            None => rest,
        }
    }
}

/// Builds instance URLs from catalog rows, skipping rows with no
/// usable address.
pub fn instance_urls(entries: &Vec<CatalogInstance>) -> (r: Vec<String>)
    ensures
        r@.map_values(|s: String| s@) == spec_instance_urls(entries@),
{
    let mut out: Vec<String> = Vec::new();
    let mut i: usize = 0;
    while i < entries.len()
        invariant
            0 <= i <= entries@.len(),
            out@.map_values(|s: String| s@) == spec_instance_urls(entries@.subrange(0, i as int)),
        decreases entries@.len() - i,
    {
        let e = &entries[i];
        let ghost pre = out@;
        let host: &String = if e.service_address.as_str().unicode_len() > 0 {
            &e.service_address
        } else {
            &e.address
        };
        if host.as_str().unicode_len() > 0 {
            let mut url: String = "http://".to_owned();
            url.append(host.as_str());
            url.append(":");
            let port = crate::text::u64_to_string(e.service_port as u64);
            url.append(port.as_str());
            out.push(url);
        }
        proof {
            let sub = entries@.subrange(0, i + 1);
            assert(sub.drop_last() =~= entries@.subrange(0, i as int));
            assert(sub.last() == entries@[i as int]);
            match spec_instance_url(entries@[i as int]) {
                Some(u) => {
                    assert(out@.map_values(|s: String| s@) =~= pre.map_values(
                        |s: String| s@,
                    ).push(u));
                }
                None => {}
            }
        }
        i += 1;
    }
    proof {
        assert(entries@.subrange(0, entries@.len() as int) =~= entries@);
    }
    out
}

/// The registration id for an instance: `name-host-port`.
pub fn make_service_id(name: &str, host: &str, port: u16) -> (r: String)
    ensures
        r@ == name@ + "-"@ + host@ + "-"@ + crate::text::dec_rep(port as nat),
{
    let mut r: String = name.to_owned();
    r.append("-");
    r.append(host);
    r.append("-");
    let p = crate::text::u64_to_string(port as u64);
    r.append(p.as_str());
    r
}

/// The registry URL that lists a service's healthy instances.
pub fn health_service_url(consul_url: &str, name: &str) -> (r: String)
    ensures
        r@ == consul_url@ + "/v1/health/service/"@ + name@ + "?passing=true"@,
{
    let mut r: String = consul_url.to_owned();
    r.append("/v1/health/service/");
    r.append(name);
    r.append("?passing=true");
    r
}

/// Relies on rand::random_range over `0..len`: a uniformly random
/// index below `len`; the empty range, on which it panics, is ruled
/// out by the contract.
#[verifier::external_body]
fn random_below(len: usize) -> (r: usize)
    requires
        len >= 1,
    ensures
        r < len,
{
    rand::random_range(0..len)
}

/// The in-memory service discovery cache: service name to the list of
/// live instance URLs.  The registry lookups that fill it are network
/// work and happen outside; the cache itself only ever holds non-empty
/// instance lists, so a cached name always yields an instance.
pub struct ServiceDiscovery {
    /// Cached instances per service name; names unique, lists
    /// non-empty.
    pub services: Vec<(String, Vec<String>)>,
    /// Base URL of the registry, kept for the caller performing
    /// lookups.
    pub consul_url: String,
}

impl ServiceDiscovery {
    /// Names unique and every instance list non-empty.
    pub open spec fn wf(self) -> bool {
        &&& forall|i: int, j: int|
            0 <= i < j < self.services@.len() ==> (#[trigger] self.services@[i]).0@ != (
            #[trigger] self.services@[j]).0@
        &&& forall|i: int| 0 <= i < self.services@.len() ==> (#[trigger] self.services@[i]).1@.len() > 0
    }

    /// The index of the entry for `name`, if cached.
    pub open spec fn spec_lookup(self, name: Seq<char>) -> Option<int> {
        if exists|i: int| 0 <= i < self.services@.len() && (#[trigger] self.services@[i]).0@ == name {
            Some(choose|i: int| 0 <= i < self.services@.len() && (#[trigger] self.services@[i]).0@ == name)
        } else {
            None
        }
    }

    /// An empty cache against the given registry.
    pub fn new(consul_url: &str) -> (r: Self)
        ensures
            r.wf(),
            r.services@.len() == 0,
            r.consul_url@ == consul_url@,
    {
        ServiceDiscovery { services: Vec::new(), consul_url: consul_url.to_owned() }
    }

    fn index_of(&self, name: &str) -> (r: Option<usize>)
        ensures
            match r {
                Some(i) => i < self.services@.len() && self.services@[i as int].0@ == name@,
                None => forall|i: int|
                    0 <= i < self.services@.len() ==> (#[trigger] self.services@[i]).0@ != name@,
            },
    {
        let mut i: usize = 0;
        while i < self.services.len()
            invariant
                0 <= i <= self.services@.len(),
                forall|j: int| 0 <= j < i ==> (#[trigger] self.services@[j]).0@ != name@,
            decreases self.services@.len() - i,
        {
            if str_eq(self.services[i].0.as_str(), name) {
                return Some(i);
            }
            i += 1;
        }
        None
    }

    /// The cached instance list for `name`, if any.
    pub fn lookup(&self, name: &str) -> (r: Option<Vec<String>>)
        requires
            self.wf(),
        ensures
            match r {
                Some(v) => self.spec_lookup(name@) matches Some(i) && v@.len() > 0 && v@
                    == self.services@[i].1@,
                None => self.spec_lookup(name@) is None,
            },
    {
        match self.index_of(name) {
            Some(i) => {
                proof {
                    let w = self.spec_lookup(name@)->0;
                    if w != i as int {
                        assert(false);
                    }
                }
                let v = self.services[i].1.clone();
                proof {
                    assert forall|k: int|
                        0 <= k < v@.len() implies #[trigger] v@[k]
                        == self.services@[i as int].1@[k] by {
                        assert(cloned::<String>(self.services@[i as int].1@[k], v@[k]));
                    }
                    assert(v@ =~= self.services@[i as int].1@);
                }
                Some(v)
            }
            None => {
                proof {
                    assert(self.spec_lookup(name@) is None);
                }
                None
            }
        }
    }

    /// Stores the instances for `name`, replacing any cached list; an
    /// empty list is never stored, so "unknown service" stays
    /// observable.
    pub fn store(&mut self, name: &str, addresses: Vec<String>)
        requires
            old(self).wf(),
            addresses@.len() > 0,
        ensures
            final(self).wf(),
            final(self).consul_url == old(self).consul_url,
            final(self).spec_lookup(name@) matches Some(i) && final(self).services@[i].1@
                == addresses@,
            forall|j: int|
                0 <= j < old(self).services@.len() && (#[trigger] old(self).services@[j]).0@
                    != name@ ==> final(self).services@[j] == old(self).services@[j],
    {
        let ghost pre = self.services@;
        match self.index_of(name) {
            Some(i) => {
                self.services[i].1 = addresses;
                proof {
                    assert(forall|k: int|
                        0 <= k < pre.len() && k != i ==> self.services@[k] == pre[k]);
                    assert forall|p: int, q: int|
                        0 <= p < q < self.services@.len() implies (#[trigger] self.services@[p]).0@
                        != (#[trigger] self.services@[q]).0@ by {
                        assert(pre[p].0@ != pre[q].0@);
                    }
                    assert(self.services@[i as int].0@ == name@);
                }
            }
            None => {
                self.services.push((name.to_owned(), addresses));
                proof {
                    let k = self.services@.len() - 1;
                    assert(self.services@[k].0@ == name@);
                    assert forall|p: int, q: int|
                        0 <= p < q < self.services@.len() implies (#[trigger] self.services@[p]).0@
                        != (#[trigger] self.services@[q]).0@ by {
                        if q < k {
                            assert(pre[p].0@ != pre[q].0@);
                        } else {
                            assert(pre[p].0@ != name@);
                        }
                    }
                }
            }
        }
    }

    /// Picks one cached instance of `name`, uniformly at random.
    /// Succeeds exactly when the service is cached, and then returns
    /// one of its instances.
    pub fn get_service_url(&self, name: &str) -> (r: Option<String>)
        requires
            self.wf(),
        ensures
            match r {
                Some(u) => self.spec_lookup(name@) matches Some(i) && exists|k: int|
                    0 <= k < self.services@[i].1@.len() && u@ == (#[trigger] self.services@[i].1@[k])@,
                None => self.spec_lookup(name@) is None,
            },
    {
        match self.lookup(name) {
            Some(addresses) => {
                let idx = random_below(addresses.len());
                let u = addresses[idx].clone();
                proof {
                    let i = self.spec_lookup(name@)->0;
                    assert(cloned::<String>(addresses@[idx as int], u));
                    assert(u@ == self.services@[i].1@[idx as int]@);
                }
                Some(u)
            }
            None => None,
        }
    }
}

/// The registry service name for a route's service type.
pub open spec fn spec_service_name(t: ServiceType) -> Seq<char> {
    match t {
        ServiceType::Auth => "auth-service"@,
        ServiceType::User => "user-service"@,
        ServiceType::Friend => "friend-service"@,
        ServiceType::Group => "group-service"@,
        ServiceType::Chat => "chat-service"@,
        ServiceType::Static => "static-service"@,
        ServiceType::HttpService(name) => name@,
        ServiceType::GrpcService(name) => name@,
    }
}

/// Names the upstream service for a route's service type.
pub fn get_service_name(service_type: &ServiceType) -> (r: String)
    ensures
        r@ == spec_service_name(*service_type),
{
    match service_type {
        ServiceType::Auth => "auth-service".to_owned(),
        ServiceType::User => "user-service".to_owned(),
        ServiceType::Friend => "friend-service".to_owned(),
        ServiceType::Group => "group-service".to_owned(),
        ServiceType::Chat => "chat-service".to_owned(),
        ServiceType::Static => "static-service".to_owned(),
        ServiceType::HttpService(name) => name.clone(),
        ServiceType::GrpcService(name) => name.clone(),
    }
}

/// Whether a method is one the proxy forwards.
pub open spec fn spec_method_allowed(method: Seq<char>) -> bool {
    ||| method == "GET"@
    ||| method == "POST"@
    ||| method == "PUT"@
    ||| method == "DELETE"@
    ||| method == "PATCH"@
    ||| method == "HEAD"@
    ||| method == "OPTIONS"@
}

/// Whether the proxy attaches the request body when forwarding.
pub open spec fn spec_method_carries_body(method: Seq<char>) -> bool {
    method == "POST"@ || method == "PUT"@ || method == "PATCH"@
}

/// Headers the proxy never copies upstream (it sets its own).
pub open spec fn spec_header_dropped(name: Seq<char>) -> bool {
    name == "host"@ || name == "content-length"@
}

/// The copied headers: every request header except the dropped ones.
pub open spec fn spec_kept_headers(
    headers: Seq<(Seq<char>, Seq<char>)>,
) -> Seq<(Seq<char>, Seq<char>)>
    decreases headers.len(),
{
    if headers.len() == 0 {
        Seq::empty()
    } else {
        let rest = spec_kept_headers(headers.drop_last());
        if spec_header_dropped(headers.last().0) {
            rest
        } else {
            rest.push(headers.last())
        }
    }
}

/// Everything the surrounding binary needs to send one upstream
/// request.
pub struct ProxyPlan {
    /// The full upstream URL.
    pub target_url: String,
    /// Headers to send: the kept request headers, then the principal
    /// headers, then the diagnostic headers.
    pub headers: Vec<(String, String)>,
    /// Whether the buffered request body is attached.
    pub send_body: bool,
}

/// The rewritten path-and-query for a request: the matched route's
/// rewrite applied, or the original when no route matches or the
/// route has no rewrite.
pub open spec fn spec_target_path(routes: Seq<RouteRule>, path: Seq<char>, path_query: Seq<char>) -> Seq<char> {
    match spec_match_index(routes, path) {
        Some(i) => match routes[i].path_rewrite {
            Some(rw) => spec_apply_path_rewrite(path_query, routes[i].path_prefix@, rw),
            None => path_query,
        },
        None => path_query,
    }
}

/// Builds the forwarding plan for one request.  The method must be in
/// the allowlist (else 405).  The target URL is the instance URL plus
/// the rewritten path-and-query; the headers are the request headers
/// without `host` and `content-length` (names arrive lower-cased),
/// then `X-User-ID`, `X-Username` and comma-joined `X-User-Roles` for
/// an authenticated principal, then `X-Original-Path` and
/// `X-Original-Method`.
pub fn plan_http_forward(
    method: &str,
    path: &str,
    path_query: &str,
    headers: &Vec<(String, String)>,
    user: Option<&UserInfo>,
    routes: &Vec<RouteRule>,
    service_url: &str,
) -> (r: Result<ProxyPlan, Error>)
    ensures
        !spec_method_allowed(method@) <==> r matches Err(Error::MethodNotAllowed),
        spec_method_allowed(method@) <==> r is Ok,
        r matches Ok(plan) ==> {
            &&& plan.target_url@ == service_url@ + spec_target_path(routes@, path@, path_query@)
            &&& plan.send_body == spec_method_carries_body(method@)
            &&& plan.headers@.map_values(|h: (String, String)| (h.0@, h.1@))
                == spec_forward_headers(
                crate::headers::header_views(headers@),
                match user {
                    Some(u) => Some(*u),
                    None => None,
                },
                path@,
                method@,
            )
        },
{
    let allowed = str_eq(method, "GET") || str_eq(method, "POST") || str_eq(method, "PUT")
        || str_eq(method, "DELETE") || str_eq(method, "PATCH") || str_eq(method, "HEAD")
        || str_eq(method, "OPTIONS");
    if !allowed {
        return Err(Error::MethodNotAllowed);
    }
    let target_path: String = match match_route(routes, path) {
        Some(i) => match &routes[i].path_rewrite {
            Some(rw) => apply_path_rewrite(path_query, routes[i].path_prefix.as_str(), rw),
            None => path_query.to_owned(),
        },
        None => path_query.to_owned(),
    };
    let mut target_url: String = service_url.to_owned();
    target_url.append(target_path.as_str());

    let mut out: Vec<(String, String)> = Vec::new();
    let mut i: usize = 0;
    while i < headers.len()
        invariant
            0 <= i <= headers@.len(),
            out@.map_values(|h: (String, String)| (h.0@, h.1@)) == spec_kept_headers(
                crate::headers::header_views(headers@).subrange(0, i as int),
            ),
        decreases headers@.len() - i,
    {
        let ghost pre = out@;
        let ghost hv = crate::headers::header_views(headers@);
        proof {
            let sub = hv.subrange(0, i + 1);
            assert(sub.drop_last() =~= hv.subrange(0, i as int));
            assert(sub.last() == hv[i as int]);
        }
        let name = &headers[i].0;
        if !(str_eq(name.as_str(), "host") || str_eq(name.as_str(), "content-length")) {
            out.push((headers[i].0.clone(), headers[i].1.clone()));
            proof {
                assert(out@.map_values(|h: (String, String)| (h.0@, h.1@)) =~= pre.map_values(
                    |h: (String, String)| (h.0@, h.1@),
                ).push(hv[i as int]));
            }
        }
        i += 1;
    }
    proof {
        let hv = crate::headers::header_views(headers@);
        assert(hv.subrange(0, hv.len() as int) =~= hv);
    }
    match user {
        Some(u) => {
            let id = i64_to_string(u.user_id);
            out.push(("X-User-ID".to_owned(), id));
            out.push(("X-Username".to_owned(), u.username.clone()));
            if u.roles.len() > 0 {
                let joined = join_strings(&u.roles, ",");
                out.push(("X-User-Roles".to_owned(), joined));
            }
        }
        None => {}
    }
    out.push(("X-Original-Path".to_owned(), path.to_owned()));
    out.push(("X-Original-Method".to_owned(), method.to_owned()));
    proof {
        assert(out@.map_values(|h: (String, String)| (h.0@, h.1@)) =~= spec_forward_headers(
            crate::headers::header_views(headers@),
            match user {
                Some(u) => Some(*u),
                None => None,
            },
            path@,
            method@,
        ));
    }
    let send_body = str_eq(method, "POST") || str_eq(method, "PUT") || str_eq(method, "PATCH");
    Ok(ProxyPlan { target_url, headers: out, send_body })
}

/// The headers an upstream request carries: the kept request headers,
/// the principal headers when a principal is attached (roles only when
/// non-empty), and the diagnostic headers.
pub open spec fn spec_forward_headers(
    headers: Seq<(Seq<char>, Seq<char>)>,
    user: Option<UserInfo>,
    path: Seq<char>,
    method: Seq<char>,
) -> Seq<(Seq<char>, Seq<char>)> {
    let kept = spec_kept_headers(headers);
    let with_user = match user {
        Some(u) => {
            let base = kept.push(("X-User-ID"@, dec_rep_int(u.user_id as int))).push(
                ("X-Username"@, u.username@),
            );
            if u.roles@.len() > 0 {
                base.push(
                    ("X-User-Roles"@, joined_with(u.roles@.map_values(|s: String| s@), ","@)),
                )
            } else {
                base
            }
        },
        None => kept,
    };
    with_user.push(("X-Original-Path"@, path)).push(("X-Original-Method"@, method))
}

/// Whether the request body fits the configured limit; oversized
/// bodies are rejected with 413 before any forwarding.
pub fn body_within_limit(body_len: usize, max_body_bytes: usize) -> (r: Result<(), Error>)
    ensures
        body_len <= max_body_bytes <==> r matches Ok(()),
        body_len > max_body_bytes <==> r matches Err(Error::RequestTooLarge),
{
    if body_len <= max_body_bytes {
        Ok(())
    } else {
        Err(Error::RequestTooLarge)
    }
}

} // verus!
