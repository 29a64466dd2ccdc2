//! Lottery scheduling: a registry of processes that each hold a number of
//! tickets, and the selection of the next process to run by a random draw
//! that is weighted by those tickets.
//!
//! [`Lottery`] keeps the processes in the order in which they were added.
//! [`Lottery::next_process`] draws a number below the total of tickets and
//! scans the running totals for the first one above the draw;
//! [`Lottery::holder_of`] is that scan for a draw of the caller's choice.
//! The modules [`tickets`] and [`draws`] hold the arithmetic that the
//! contracts are stated in, and what is proved of it: that a draw selects
//! one process at most, that every draw below a positive total selects one,
//! and that, where no tickets are negative, a process is selected by as
//! many draws as it holds tickets, wherever it stands in the registry.

pub mod draws;
pub mod lottery;
pub mod process;
pub mod rng;
pub mod tickets;

pub use lottery::{LotErr, Lottery};
pub use process::{Process, ProcessView};
