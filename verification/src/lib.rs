pub mod acceptor;
pub mod analyzer;
pub mod binary;
pub mod bytes;
pub mod catalog_manager;
pub mod channel;
pub mod connection;
pub mod engine;
pub mod executor;
pub mod expr;
pub mod handshake;
pub mod in_memory;
pub mod messages;
pub mod metadata;
pub mod on_disk;
pub mod operators;
pub mod ordered;
pub mod persistent;
pub mod planner;
pub mod protocol;
pub mod registry;
pub mod relational;
pub mod request;
pub mod results;
pub mod scalar;
pub mod sql_ast;
pub mod sql_model;
pub mod sql_types;
pub mod storage;
pub mod text;
