//! A library for resolving user-supplied application identifiers against a
//! snapshot of running processes, together with the small pure pieces of a
//! screen-capture command-line tool: error-code mapping, capture-mode
//! selection, permission decisions, environment classification, filename
//! handling and log-buffer bookkeeping.
//!
//! The heart of the crate is [`application_finder`], which ranks process
//! records against an identifier by a fixed ladder of heuristics (exact name,
//! exact bundle id, prefix, substring, bundle substring, fuzzy similarity) and
//! returns exactly one record or a typed failure.  Scores are held in
//! fixed-point arithmetic so that every comparison is exact and verified.

pub mod application_finder;
pub mod cli;
pub mod environment;
pub mod errors;
pub mod file_utils;
pub mod json_output;
pub mod logger;
pub mod models;
pub mod permissions;
pub mod platform;
pub mod screen_capture;
pub mod similarity;
pub mod strings;
pub mod window_manager;
