//! Switchboard: an HTTP request broadcasting proxy.
//!
//! The library holds the logic of the proxy with its contracts: the
//! configuration model and its validation, the route matcher, the header
//! transformer, the planning of a fan-out to the targets of a route, and the
//! configuration lifecycle (sources, resolver, live cell and refresher).

pub mod actuator;
pub mod cli;
pub mod error;
pub mod fanout;
pub mod header_list;
pub mod health;
pub mod headers;
pub mod live;
pub mod model;
pub mod params;
pub mod proxy;
pub mod routing;
pub mod source;
pub mod target_url;
pub mod text;
pub mod validation;
