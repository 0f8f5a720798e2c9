//! An HTTP server: the routes of one port, and the decision where a request
//! goes.
//!
//! The decision has three steps. The `Host` field names a host, or the request
//! is bad. The first route that serves the host is taken, then the first of
//! its rules that the request meets; where either is missing there is nothing
//! to find. Otherwise the request goes to the service of that rule.

use crate::host::{parse_hostname, Hostname};
use crate::text::utf8_text;
use crate::web::matchers::{field_value, first_value, header_fields};
use crate::web::route::{rule_chosen, HttpRoute};
use http::{HeaderMap, HeaderValue};
use vstd::prelude::*;
use vstd::utf8::{decode_utf8, valid_utf8};

verus! {

/// The port and the name of an HTTP server.
#[derive(Debug, Clone)]
pub struct HttpServerFields {
    pub port: u16,
    pub name: String,
}

/// The routes of one port, in the order of the configuration.
#[derive(Debug)]
pub struct HttpServer {
    pub port: u16,
    pub routes: Vec<HttpRoute>,
}

/// Where a request goes.
#[derive(Debug, Clone, Copy, PartialEq, Eq, Structural)]
pub enum Dispatch {
    /// The request names no host: answer 400.
    BadRequest,
    /// No route serves the host, or no rule of the route is met: answer
    /// 404.
    NotFound,
    /// Forward to the service at position `backend`, for the rule at
    /// position `rule` of the route at position `route`.
    Forward { route: usize, rule: usize, backend: usize },
}

/// The name of the field that names the host.
pub open spec fn host_field() -> Seq<char> {
    "host"@
}

/// The host that the value of a `Host` field names: the labels of the host
/// name that the value writes as UTF-8 text, top-level domain first. `None`
/// where the field is missing or its value writes no host name.
pub open spec fn host_of(found: Option<Seq<u8>>) -> Option<Seq<Seq<char>>> {
    match found {
        None => None,
        Some(bytes) => if valid_utf8(bytes) {
            match parse_hostname(decode_utf8(bytes)) {
                Ok(labels) => Some(labels),
                Err(_) => None,
            }
        } else {
            None
        },
    }
}

/// Whether `found` is the position of the first route that serves `host`, or
/// `None` where none does.
pub open spec fn route_chosen(routes: Seq<HttpRoute>, host: Seq<Seq<char>>, found: Option<int>) -> bool {
    match found {
        Some(i) => {
            &&& 0 <= i < routes.len()
            &&& routes[i].serves(host)
            &&& forall|j: int| 0 <= j < i ==> !(#[trigger] routes[j]).serves(host)
        },
        None => forall|j: int| 0 <= j < routes.len() ==> !(#[trigger] routes[j]).serves(host),
    }
}

/// Whether `decision` is where a request goes that has `host` as the value
/// of its `Host` field, and this path, method and header fields.
pub open spec fn dispatched(
    routes: Seq<HttpRoute>,
    host: Option<Seq<u8>>,
    path: Seq<char>,
    method: Seq<char>,
    fields: Map<Seq<char>, Seq<u8>>,
    decision: Dispatch,
) -> bool {
    match decision {
        Dispatch::BadRequest => host_of(host) is None,
        Dispatch::NotFound => host_of(host) is Some && (route_chosen(
            routes,
            host_of(host)->0,
            None,
        ) || exists|i: int|
            route_chosen(routes, host_of(host)->0, Some(i)) && rule_chosen(
                #[trigger] routes[i].rules@,
                path,
                method,
                fields,
                None,
            )),
        Dispatch::Forward { route, rule, backend } => {
            &&& host_of(host) is Some
            &&& route_chosen(routes, host_of(host)->0, Some(route as int))
            &&& rule_chosen(routes[route as int].rules@, path, method, fields, Some(rule as int))
            &&& backend == routes[route as int].rules@[rule as int].backend
        },
    }
}

impl Dispatch {
    /// The status of the answer where the request is not forwarded.
    pub open spec fn refusal(&self) -> Option<u16> {
        match self {
            Dispatch::BadRequest => Some(400u16),
            Dispatch::NotFound => Some(404u16),
            Dispatch::Forward { .. } => None,
        }
    }

    /// The status to answer with, unless the request is forwarded and the
    /// answer is the backend's.
    pub fn status(&self) -> (r: Option<u16>)
        ensures
            r == self.refusal(),
    {
        match self {
            Dispatch::BadRequest => Some(400),
            Dispatch::NotFound => Some(404),
            Dispatch::Forward { .. } => None,
        }
    }
}

impl HttpServer {
    /// A server on the configured port with these routes.
    pub fn new(config: HttpServerFields, routes: Vec<HttpRoute>) -> (r: HttpServer)
        ensures
            r.port == config.port,
            r.routes == routes,
    {
        HttpServer { port: config.port, routes }
    }

    /// The host that the value of a `Host` field names.
    pub fn read_host(found: Option<&[u8]>) -> (r: Option<Hostname>)
        ensures
            r is Some <==> host_of(
                match found {
                    Some(bytes) => Some(bytes@),
                    None => None,
                },
            ) is Some,
            r matches Some(name) ==> Some(name@) == host_of(
                match found {
                    Some(bytes) => Some(bytes@),
                    None => None,
                },
            ),
    {
        match found {
            None => None,
            Some(bytes) => match utf8_text(bytes) {
                None => None,
                Some(text) => match Hostname::from_str(text) {
                    Ok(name) => Some(name),
                    Err(_) => None,
                },
            },
        }
    }

    /// The position of the first route that serves `host`.
    pub fn select_route(&self, host: &Hostname) -> (r: Option<usize>)
        ensures
            route_chosen(
                self.routes@,
                host@,
                match r {
                    Some(i) => Some(i as int),
                    None => None,
                },
            ),
    {
        let n = self.routes.len();
        let mut i: usize = 0;
        while i < n
            invariant
                i <= n,
                n == self.routes@.len(),
                forall|j: int| 0 <= j < i ==> !(#[trigger] self.routes@[j]).serves(host@),
            decreases n - i,
        {
            if self.routes[i].serves_host(host) {
                return Some(i);
            }
            i = i + 1;
        }
        None
    }

    /// Where a request goes whose `Host` field has the value `host`.
    pub fn dispatch(
        &self,
        host: Option<&[u8]>,
        path: &str,
        method: &str,
        headers: &HeaderMap<HeaderValue>,
    ) -> (r: Dispatch)
        ensures
            dispatched(
                self.routes@,
                match host {
                    Some(bytes) => Some(bytes@),
                    None => None,
                },
                path@,
                method@,
                header_fields(*headers),
                r,
            ),
    {
        let name = match HttpServer::read_host(host) {
            None => {
                return Dispatch::BadRequest;
            },
            Some(name) => name,
        };
        let route = match self.select_route(&name) {
            None => {
                return Dispatch::NotFound;
            },
            Some(route) => route,
        };
        match self.routes[route].matching_rule(path, method, headers) {
            None => Dispatch::NotFound,
            Some(rule) => Dispatch::Forward {
                route,
                rule,
                backend: self.routes[route].rules[rule].backend(),
            },
        }
    }

    /// Where a request goes: the host is the one that its `Host` field
    /// names.
    pub fn proxy_request(&self, path: &str, method: &str, headers: &HeaderMap<HeaderValue>) -> (r:
        Dispatch)
        ensures
            dispatched(
                self.routes@,
                field_value(header_fields(*headers), host_field()),
                path@,
                method@,
                header_fields(*headers),
                r,
            ),
    {
        let host = first_value(headers, "host");
        self.dispatch(host, path, method, headers)
    }
}

} // verus!
