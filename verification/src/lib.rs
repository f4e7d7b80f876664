//! Core of an OAuth authentication gateway: the handshake that turns an
//! anonymous browser request into a time-bounded, revocable session, and the
//! gate that resolves that session on every later request.
//!
//! The library is organised around an ephemeral, TTL-bounded session store
//! ([`cache`]), the handshake orchestration and request gate ([`handshake`]),
//! the provider URL construction ([`github`], [`urlenc`]), secret token
//! generation ([`secrets`]), a two-kinded error model ([`errors`]), and the
//! small decisions around the relational collaborator and the deployment
//! stage ([`database`], [`utils`]). Network transport, the relational store
//! and HTTP routing sit outside the library and hand it plain values.

pub mod cache;
pub mod database;
pub mod errors;
pub mod github;
pub mod handshake;
pub mod secrets;
pub mod urlenc;
pub mod utils;
