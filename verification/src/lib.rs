//! The request path of a gateway that serves Redis instances over HTTP:
//! bearer tokens, the authorization of a request for an instance, the
//! registry of connection pools, the location of an instance, and the
//! translation of a request into a Redis command and of its reply into
//! JSON. Nothing here performs input or output; what happens outside is
//! handed in, and what is to be done outside is handed back.

pub mod text;
pub mod number;
pub mod reply;
pub mod json;
pub mod error;
pub mod config;
pub mod claims;
pub mod payload;
pub mod token;
pub mod password;
pub mod session;
pub mod gate;
pub mod command;
pub mod keys;
pub mod locator;
pub mod pool;
pub mod request;
pub mod management;
pub mod k8s;
