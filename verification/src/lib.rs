//! A brute-force and algebraic search engine for hash-based predicates.
//!
//! The library pairs weak 32-bit hash oracles and a cryptographic oracle
//! with a keyspace enumerator, match predicates, and a bounded search
//! coordinator that splits the index space across workers.

pub mod attacks;
pub mod birthday;
pub mod enumerate;
pub mod hex;
pub mod oracle;
pub mod report;
pub mod search;
