//! Detection of obfuscated spam keywords in short text messages.
//!
//! A small set of trigger words ("airdrop", "wallet", "token") is matched
//! against untrusted text even when the sender hides the word behind
//! homoglyphs (visually similar characters from other scripts or symbol
//! sets), letter spacing, or case changes.  The crate provides:
//!
//! - a confusable registry: for each Latin letter the keywords need, the
//!   set of characters accepted in its place;
//! - a keyword matcher compiled from a sequence of letters, tolerant of one
//!   whitespace character between consecutive letters, unanchored;
//! - a whitespace normalizer that folds every run of whitespace into one
//!   ASCII space, so wider spacing is tolerated too;
//! - a classifier combining the matchers into a boolean spam rule.
//!
//! Matching runs in time linear in the text length (per keyword, each start
//! position is tried once and a keyword is a bounded pattern), so evaluation
//! time is bounded on adversarial input.

pub mod classifier;
pub mod matcher;
pub mod normalize;
pub mod registry;
pub mod whitespace;
