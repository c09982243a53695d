//! Core of a minimal question-and-answer data service.
//!
//! The library holds the entity model, a storage model with the three
//! data-access operations per entity (create, read, delete), and the handler
//! logic that validates input and collapses storage failures into a two-kind
//! error taxonomy. Transport (HTTP routing, JSON), the connection pool and the
//! relational backend are external collaborators and live outside the library.

pub mod errors;
pub mod handlers;
pub mod laws;
pub mod models;
pub mod store;
