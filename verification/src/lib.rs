//! The dispatch rules of a reverse proxy for TCP, UDP and HTTP/1.1: host and
//! path matching, route selection, load balancing and the life cycle of relayed
//! connections, each stated as a contract and proved.

pub mod control;
pub mod text;
pub mod ip;
pub mod host;
pub mod web;
pub mod service;
pub mod stream;
