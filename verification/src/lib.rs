//! Declarative binary schemas compiled to decode, encode and synchronize
//! procedures, with an evaluator that runs those procedures over a bit buffer.

pub mod bits;
pub mod builtin;
pub mod context;
pub mod decode;
pub mod encode;
pub mod error;
pub mod expr;
pub mod faults;
pub mod generate;
pub mod laws;
pub mod member;
pub mod plan;
pub mod program;
pub mod progress;
pub mod read;
pub mod read_gen;
pub mod receiver;
pub mod render;
pub mod round_trip;
pub mod round_trip_lemmas;
pub mod schema;
pub mod shape;
pub mod source;
pub mod sync;
pub mod text;
pub mod value;
pub mod wire;
pub mod write;
pub mod write_gen;
