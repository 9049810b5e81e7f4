//! Transaction engine of a custodial payments service: a double-entry ledger,
//! the classifier of user intents, the composer that writes postings, and the
//! converter that rebuilds the caller-visible record of a posting group.

pub mod blockchain;
pub mod classifier;
pub mod composer;
pub mod converter;
pub mod ledger;
pub mod model;
pub mod service;
