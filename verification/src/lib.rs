//! An append-only record engine.
//!
//! A stream holds the records of one schema in the order in which they were
//! appended. The [`counter`] hands out their identifiers, the [`log`] appends
//! them and guards the one change a record may admit, the [`scan`] walks a
//! stream from its newest record back under a filter and a limit, and the
//! [`ledger`] keeps a total and a tier for each actor. Every operation either
//! takes effect as a whole or refuses with an [`error::Error`] and changes
//! nothing.
//!
//! Four services are built on the engine: [`academy`], [`messaging`],
//! [`social_rewards`] and [`trading`]. Each holds its whole state, takes what
//! the host knows (whether the caller proved an identity, the instant of the
//! ledger) as plain arguments, and gives its state out in parts to be stored.

pub mod academy;
pub mod counter;
pub mod error;
pub mod ledger;
pub mod log;
pub mod messaging;
pub mod principal;
pub mod record;
pub mod scan;
pub mod social_rewards;
pub mod trading;
