//! Gathers a fixed list of host facts on a bounded worker pool and lays them
//! out, in table order, beside a piece of terminal art.
//!
//! - [`config`]: the table of facts, the fallback commands, and how labels,
//!   values, errors and separators are dressed for the terminal.
//! - [`sysinfo_fetchers`]: from the raw facts of the host, and from the
//!   outcome of a command, to the value that is shown.
//! - [`dispatch`]: one job per row on a worker pool, and the outcomes put
//!   back in the order of the table; [`pool`] holds the pool and the
//!   channel that the jobs report over.
//! - [`report`]: the rows fetched and laid out, label beside value.
//! - [`display`]: the art and the facts side by side; [`pattern`] holds the
//!   regular expression that finds what does not show on a terminal.
//! - [`cache`]: the choice of the art.
//! - [`rounding`] and [`text`]: the arithmetic and the character handling
//!   that the others share.
//!
//! Reading the host, running commands and printing are left to the caller:
//! the library takes the facts as plain values and returns lines.

pub mod cache;
pub mod config;
pub mod dispatch;
pub mod display;
pub mod pattern;
pub mod pool;
pub mod report;
pub mod rounding;
pub mod sysinfo_fetchers;
pub mod text;
