//! A page, route and component registry: URLs are parsed and matched against
//! registered pages in registration order, the data a page needs is resolved
//! from host-supplied state, and pre-rendered pages are addressed by stable
//! hashes.

pub mod api;
pub mod client;
pub mod generation;
pub mod pages;
pub mod pointers;
pub mod registry;
pub mod resolution;
pub mod response;
pub mod routes;
pub mod server;
pub mod states;
pub mod text;
