//! Capture-aware regular-expression matching and rewriting.
//!
//! A pattern is compiled once, its matches in a subject are listed with every
//! participating capture group and its byte range, and a subject is rewritten
//! by replacing each match with what a caller-supplied transform returns.

pub mod text;
pub mod backend;
pub mod record;
pub mod pattern;
pub mod enumerate;
pub mod replace;
pub mod laws;
pub mod fancy_backend;
pub mod fancy;
pub mod mt64;
pub mod html;
pub mod commands;
