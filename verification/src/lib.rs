//! The decision logic of a semantic graph engine.
//!
//! Facts are nodes of a graph database, each with a text and an embedding. The library decides
//! what becomes of an incoming fact ([`consolidation`]), turns requests into statements and
//! replies into answers ([`service`]), and says how the engine reaches its database ([`startup`]).
//! It does no input or output: what is to be sent is handed out as a
//! [`statement::Statement`], and what came back is handed in as rows ([`rows`]).
pub mod bolt;
pub mod consolidation;
pub mod consolidation_laws;
pub mod cypher;
pub mod identifier;
pub mod real32;
pub mod rows;
pub mod service;
pub mod service_laws;
pub mod startup;
pub mod statement;
pub mod text;
pub mod threshold;
