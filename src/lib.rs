//! Proposing patches in a peer-to-peer code collaboration network: which
//! tracked branch a proposal targets, the decisions of a proposal from `HEAD`
//! to the stored patch, the patch message, and how patches are listed.
pub mod create;
pub mod ids;
pub mod listing;
pub mod message;
pub mod options;
pub mod seqs;
pub mod targets;
pub mod text;

pub use options::Options;
