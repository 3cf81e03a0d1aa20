//! A client for a service registry: the registry's JSON schema for service
//! instances, read and written with exact contracts, and the requests and
//! answer handling of its HTTP API.
use vstd::prelude::*;

pub mod json;
pub mod fields;
pub mod values;
pub mod model;
pub mod response;
pub mod client;
