//! Builder of the intermediate representation: lowers a parsed, name-resolved
//! snapshot of a source program into a single, deterministic, serializable
//! tree that downstream code generators consume.

pub mod ast;
pub mod attrs;
pub mod builder;
pub mod db;
pub mod fold;
pub mod imap;
pub mod init;
pub mod ir;
pub mod laws;
pub mod lower;
pub mod msg;
pub mod nodes;
pub mod order;
pub mod sort;
