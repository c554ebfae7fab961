//! Location-tagged context for fallible values.
//!
//! [`Context`] adds three calls to `Result<T, anyhow::Error>` and to
//! `Option<T>`: `context`, `with_context` and `dot`. Each takes the position
//! of the call as a [`Location`]. A success passes through untouched. A
//! failure, or an absent value, comes back as an `anyhow::Error` with one
//! frame more, which reads `` <message> at `<file>:<line>:<column>` ``; the
//! frames that were there before stay beneath it, in their order.
//!
//! The contracts speak of a failure through [`chain::frames`], the texts of
//! its frames from the outermost to the root cause, and of a message through
//! [`Render`], which gives a value its text.

pub mod chain;
pub mod context;
pub mod decimal;
pub mod location;
pub mod render;
pub mod with_location;

pub use anyhow::{anyhow, bail, ensure};
pub use anyhow::{Chain, Error, Result};
pub use context::Context;
pub use location::Location;
pub use render::Render;
pub use with_location::WithLocation;
