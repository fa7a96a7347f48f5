//! Snowflake identifiers: 63-bit, time-ordered numbers that many generators
//! can hand out without talking to each other.
//!
//! An identifier packs four fields, highest first: the ticks elapsed since
//! the generator's epoch, a per-tick sequence number, a data-center number
//! and a machine number. The widths of the four fields are the [`Layout`];
//! they always add up to 63, so the top bit of an identifier is zero.
//!
//! [`Builder`] validates a configuration and yields a [`Snowflake`], the
//! generator's state machine. [`DecomposedSnowflake`] takes an identifier
//! apart again and renders it in several text forms.

use vstd::prelude::*;

pub mod builder;
pub mod clock;
pub mod decomposed;
pub mod encoding;
pub mod error;
pub mod layout;
pub mod network;
pub mod snowflake;

pub use builder::{Builder, IdCheck, IdKind, IdSource};
pub use decomposed::{decompose, DecomposedSnowflake};
pub use error::Error;
pub use layout::{Layout, Parts};
pub use network::{Interface, IpAddress};
pub use snowflake::{Issued, Snowflake, SnowflakeView};

verus! {

/// The item that the examples of the crate's documentation are attached to
/// when they are run as tests.
pub struct ReadmeDoctests;

} // verus!
