//! Transport-agnostic connections and an HTTP/1.x message framer.
//!
//! The crate has two halves.
//!
//! [`connection`] gives one handle over any byte transport (a plain socket,
//! a TLS session, a QUIC stream) with a uniform send / receive / close
//! contract. [`remote_endpoint`] holds the address record that a connection
//! attempt is aimed at.
//!
//! [`framer`] turns the bytes exchanged over a connection into request and
//! response heads and back. Its grammar is stated in [`wire`] and read at
//! run time by [`scan`]. The laws that tie reading to writing are proved in
//! [`laws`], from the lemmas of [`lemmas`].

pub mod connection;
pub mod framer;
pub mod laws;
pub mod lemmas;
pub mod remote_endpoint;
pub mod scan;
pub mod wire;
