//! Routes and their rules.
//!
//! A route serves the requests for the hosts that its patterns match and holds
//! rules in the order of the configuration. A rule names a backend service and
//! the matchers of which a request has to meet one. The first rule that a
//! request meets decides where it goes.

use crate::host::{pattern_matches, HostSpec, Hostname};
use crate::web::matchers::{header_fields, Matcher};
use http::{HeaderMap, HeaderValue};
use vstd::prelude::*;

verus! {

/// Matchers and the service that the requests which meet one of them go to.
#[derive(Debug)]
pub struct HttpRule {
    pub matchers: Vec<Matcher>,
    pub backend: usize,
}

/// The hosts that a route serves and its rules.
#[derive(Debug)]
pub struct HttpRoute {
    pub hostnames: Vec<HostSpec>,
    pub rules: Vec<HttpRule>,
}

/// Whether `found` is the position of the first rule that the request meets,
/// or `None` where it meets none.
pub open spec fn rule_chosen(
    rules: Seq<HttpRule>,
    path: Seq<char>,
    method: Seq<char>,
    fields: Map<Seq<char>, Seq<u8>>,
    found: Option<int>,
) -> bool {
    match found {
        Some(i) => {
            &&& 0 <= i < rules.len()
            &&& rules[i].accepts(path, method, fields)
            &&& forall|j: int| 0 <= j < i ==> !(#[trigger] rules[j]).accepts(path, method, fields)
        },
        None => forall|j: int|
            0 <= j < rules.len() ==> !(#[trigger] rules[j]).accepts(path, method, fields),
    }
}

impl HttpRule {
    /// Whether a request meets the rule: it meets one of the matchers, or
    /// there is no matcher to meet.
    pub open spec fn accepts(
        &self,
        path: Seq<char>,
        method: Seq<char>,
        fields: Map<Seq<char>, Seq<u8>>,
    ) -> bool {
        self.matchers@.len() == 0 || exists|i: int|
            0 <= i < self.matchers@.len() && (#[trigger] self.matchers@[i]).accepts(
                path,
                method,
                fields,
            )
    }

    /// A rule that sends what meets one of `matchers` to the service at
    /// position `backend`.
    pub fn new(matchers: Vec<Matcher>, backend: usize) -> (r: HttpRule)
        ensures
            r.matchers == matchers,
            r.backend == backend,
    {
        HttpRule { matchers, backend }
    }

    /// The position of the rule's service in the table of services.
    pub fn backend(&self) -> (r: usize)
        ensures
            r == self.backend,
    {
        self.backend
    }

    /// Whether the request with this path, method and header fields meets
    /// the rule.
    pub fn matches(&self, path: &str, method: &str, headers: &HeaderMap<HeaderValue>) -> (r: bool)
        ensures
            r == self.accepts(path@, method@, header_fields(*headers)),
    {
        let n = self.matchers.len();
        if n == 0 {
            return true;
        }
        let mut i: usize = 0;
        while i < n
            invariant
                i <= n,
                n == self.matchers@.len(),
                forall|j: int|
                    0 <= j < i ==> !(#[trigger] self.matchers@[j]).accepts(
                        path@,
                        method@,
                        header_fields(*headers),
                    ),
            decreases n - i,
        {
            if self.matchers[i].matches(path, method, headers) {
                return true;
            }
            i = i + 1;
        }
        false
    }
}

impl HttpRoute {
    /// Whether the route serves a host: one of its patterns matches the
    /// host's labels, or it has no pattern and serves every host.
    pub open spec fn serves(&self, host: Seq<Seq<char>>) -> bool {
        self.hostnames@.len() == 0 || exists|i: int|
            0 <= i < self.hostnames@.len() && pattern_matches(
                (#[trigger] self.hostnames@[i])@,
                host,
            )
    }

    /// Whether the route serves `host`.
    pub fn serves_host(&self, host: &Hostname) -> (r: bool)
        ensures
            r == self.serves(host@),
    {
        let n = self.hostnames.len();
        if n == 0 {
            return true;
        }
        let mut i: usize = 0;
        while i < n
            invariant
                i <= n,
                n == self.hostnames@.len(),
                forall|j: int|
                    0 <= j < i ==> !pattern_matches((#[trigger] self.hostnames@[j])@, host@),
            decreases n - i,
        {
            if self.hostnames[i].matches(host) {
                return true;
            }
            i = i + 1;
        }
        false
    }

    /// The position of the first rule that the request meets.
    pub fn matching_rule(&self, path: &str, method: &str, headers: &HeaderMap<HeaderValue>) -> (r:
        Option<usize>)
        ensures
            rule_chosen(
                self.rules@,
                path@,
                method@,
                header_fields(*headers),
                match r {
                    Some(i) => Some(i as int),
                    None => None,
                },
            ),
    {
        let n = self.rules.len();
        let mut i: usize = 0;
        while i < n
            invariant
                i <= n,
                n == self.rules@.len(),
                forall|j: int|
                    0 <= j < i ==> !(#[trigger] self.rules@[j]).accepts(
                        path@,
                        method@,
                        header_fields(*headers),
                    ),
            decreases n - i,
        {
            if self.rules[i].matches(path, method, headers) {
                return Some(i);
            }
            i = i + 1;
        }
        None
    }

    /// The first rule that the request meets.
    pub fn find_matching_rule(
        &self,
        path: &str,
        method: &str,
        headers: &HeaderMap<HeaderValue>,
    ) -> (r: Option<&HttpRule>)
        ensures
            r is None ==> rule_chosen(
                self.rules@,
                path@,
                method@,
                header_fields(*headers),
                None,
            ),
            r matches Some(rule) ==> exists|i: int|
                rule_chosen(self.rules@, path@, method@, header_fields(*headers), Some(i))
                    && *rule == self.rules@[i],
    {
        match self.matching_rule(path, method, headers) {
            Some(i) => Some(&self.rules[i]),
            None => None,
        }
    }
}

} // verus!
