//! Command dispatch and usage accounting for a chat bot: a registry of
//! commands, argument normalization, the handlers' computations, and a ledger
//! of how often each command completed, with the statistics derived from it.

pub mod args;
pub mod commands;
pub mod dispatch;
pub mod ledger;
pub mod stats;
pub mod text;
