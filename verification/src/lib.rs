//! Exact rational-number arithmetic on numerator/denominator pairs.
//!
//! The crate is organised like the system it models: a plain value type
//! ([`value::Rational`]), a pure arithmetic engine that keeps values in
//! lowest terms ([`engine`]), a tolerant call surface that substitutes a
//! canonical default for absent operands ([`boundary`]), and a thin
//! consumer-facing wrapper over that surface ([`api`]).

pub mod api;
pub mod boundary;
pub mod engine;
pub mod value;
