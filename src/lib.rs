//! A local forward proxy that observes the requests of an embedded browsing
//! surface, together with the decisions that drive its connections and a
//! bounded-wait authentication flow.
pub mod text;
pub mod request;
pub mod proxy;
pub mod auth;
