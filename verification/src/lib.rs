//! Static analysis and security risk scoring for annotated ledger modules
//! ("pallets").
//!
//! The crate has two halves. The first walks a parsed source file and emits a
//! structured inventory of named elements ("assets"): callable entry points,
//! persistent storage declarations, constants, events and errors, together
//! with parameter signatures and declared visibility. The second ingests that
//! inventory through a serialized interchange document and annotates every
//! asset with a computed risk level, matched threat patterns and flagged
//! dangerous parameters.

pub mod assets;
pub mod codec;
pub mod engine;
pub mod errors;
pub mod inventory;
pub mod json;
pub mod registry;
pub mod seqs;
pub mod source_model;
pub mod strings;
pub mod threats;
pub mod visitor;
