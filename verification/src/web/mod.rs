//! The HTTP layer: matchers, routes, services and the servers that hold them.

pub mod cluster;
pub mod matchers;
pub mod pattern;
pub mod route;
pub mod server;
pub mod service;

use crate::host::HostSpec;
use crate::service::config::ServiceConfigFields;
use crate::web::matchers::Matcher;
use crate::web::server::HttpServerFields;
use vstd::prelude::*;

verus! {

/// An HTTP server of the configuration, by the version of its description.
#[derive(Debug, Clone)]
pub enum HttpServerConfig {
    V1(HttpServerFields),
    V2(HttpServerFields),
}

/// A service of the configuration: its name and what it consists of.
#[derive(Debug, Clone)]
pub struct HttpServiceConfig {
    pub name: String,
    pub fields: ServiceConfigFields,
}

/// A rule of the configuration: the matchers, of which a request has to meet
/// one, and the name of the service that it then goes to.
#[derive(Debug)]
pub struct HttpRouteRuleConfig {
    pub matches: Vec<Matcher>,
    pub backend: String,
}

/// A route of the configuration: the hosts it serves, the server that it
/// belongs to and its rules.
#[derive(Debug)]
pub struct HttpRouteConfig {
    pub name: String,
    pub hostnames: Option<Vec<HostSpec>>,
    pub server: String,
    pub rules: Vec<HttpRouteRuleConfig>,
}

/// The HTTP part of the configuration.
#[derive(Debug)]
pub struct HttpConfig {
    pub servers: Vec<HttpServerFields>,
    pub services: Vec<HttpServiceConfig>,
    pub routes: Vec<HttpRouteConfig>,
}

} // verus!
