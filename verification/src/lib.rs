//! Decoder for the binary format of compiled modules and scripts of a
//! stack-based virtual machine.
//!
//! A binary is a header (magic, format version, table directory), the table
//! contents, and a trailer. Decoding yields a [`file_format::CompiledModule`]
//! or a [`file_format::CompiledScript`], or a typed error; nothing else ever
//! happens, whatever the bytes.
//!
//! Every decoding function carries a contract that equates its result with
//! a mathematical description of the format: a function from a reader over
//! a sequence of bytes to the decoded value and its length, or to the error.
//! The descriptions stand beside the functions, under the names `spec_..`.
//!
//! * [`errors`]: the error taxonomy.
//! * [`constants`], [`file_format_common`]: the numbers and byte values of
//!   the format.
//! * [`file_format`]: the decoded form and its model.
//! * [`cursor`], [`primitives`], [`indices`]: readers of bytes and integers.
//! * [`tables`]: the table directory and its check.
//! * [`signatures`], [`abilities`], [`handles`], [`pools`], [`definitions`],
//!   [`code`]: the records of the tables.
//! * [`deserializer`]: whole modules and scripts.
//! * [`laws`], [`invariants`], [`trailing`]: what holds of every binary and
//!   of every decoded value.
//! * [`encoding`], [`encoded_handles`], [`encoded_pools`],
//!   [`encoded_definitions`], [`round_trip`]: the bytes that stand for a
//!   value, and the law that decoding them gives the value back.

pub mod abilities;
pub mod code;
pub mod constants;
pub mod cursor;
pub mod definitions;
pub mod deserializer;
pub mod encoded_definitions;
pub mod encoded_handles;
pub mod encoded_pools;
pub mod encoding;
pub mod errors;
pub mod file_format;
pub mod file_format_common;
pub mod handles;
pub mod indices;
pub mod invariants;
pub mod laws;
pub mod pools;
pub mod primitives;
pub mod round_trip;
pub mod signatures;
pub mod tables;
pub mod trailing;
