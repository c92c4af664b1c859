//! A persistent record store for software repositories and the programming
//! languages they are tagged with, kept in the stable memory of a canister.
//!
//! - [`entity`]: the records, the payloads and the errors, each with its
//!   mathematical view.
//! - [`codec`]: the stored form of a record, a Candid message of bounded
//!   size.
//! - [`durable`]: the stable structures the store is built on. This is the
//!   one module whose contracts are taken on trust, not proved, together
//!   with the four Candid calls of [`codec`].
//! - [`store`]: the identifier counter and the two collections, their view
//!   and their invariant.
//! - [`repos`] and [`languages`]: the services, each operation specified by
//!   a function on the store's view.
//! - [`laws`]: what follows for every store and every request.

pub mod codec;
pub mod durable;
pub mod entity;
pub mod languages;
pub mod laws;
pub mod repos;
pub mod store;
