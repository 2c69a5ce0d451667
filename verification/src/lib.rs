//! Garbage collection for a multi-version transactional key-value node:
//! admission control, lock observation, physical lock scanning, version
//! reclamation, and the bookkeeping types that accompany them.

pub mod admission;
pub mod aggr_parser;
pub mod bytes_order;
pub mod collation;
pub mod coordinator;
pub mod error_code;
pub mod extremum;
pub mod hex_text;
pub mod import_error;
pub mod keyspace;
pub mod lock;
pub mod node;
pub mod observer;
pub mod pd_error;
pub mod protocol;
pub mod reclaim;
pub mod scanner;
pub mod stats;
pub mod text;
