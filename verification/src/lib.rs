//! Routing and isomorphic page data loading for a paste-sharing web
//! application.
//!
//! The crate covers the request dispatch layer and the page data protocol
//! that must behave identically across three execution contexts:
//!
//! * classifying an inbound `(method, path)` pair into exactly one handling
//!   mode (static asset, application page, internal API call, or not found),
//!   with strict precedence rules ([`router`]);
//! * obtaining a page's data from request-scoped server state, from a
//!   payload embedded in server-rendered markup, or from a network reply,
//!   all yielding the same logical shape ([`page`]);
//! * the lossless, attribute-safe text encoding of that payload ([`codec`]);
//! * the error taxonomy surfaced by the API client ([`api`]);
//! * the cancellation protocol for superseded in-app navigations ([`nav`]).
//!
//! Network and DOM access live outside this crate; every function here is
//! a total, deterministic computation over plain values, verified against
//! the contracts stated on it.

pub mod api;
pub mod codec;
pub mod id;
pub mod model;
pub mod nav;
pub mod page;
pub mod router;
mod text;
