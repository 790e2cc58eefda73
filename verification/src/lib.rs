//! Policy-routing engine for a dual-WAN gateway.
//!
//! A LAN subnet leaves through the primary WAN by default; single hosts can
//! be moved to the secondary WAN and back. The engine decides which `ip`
//! command is to run next and reads what the last one brought back. It runs
//! nothing itself: every operation hands out a [`command::Command`], the
//! caller runs it and comes back with the outcome, until the operation says
//! that it is done.
//!
//! - [`command`]: the commands, their exact argument lists, and the reading
//!   of a run's result.
//! - [`config`], [`policy`]: the interface names, and the fixed tables,
//!   priorities and subnet.
//! - [`text`], [`pattern`]: lines, words and captures in command output.
//! - [`gateway`]: discovery of an interface's default gateway.
//! - [`routes`]: the default route of a table and the copy of link routes.
//! - [`rules`]: listing, adding and removing policy rules.
//! - [`switch`]: the per-host override and the host record.
//! - [`init`]: the start-up sequence.
//! - [`kernel`], [`listing`]: a model of the system's rules and routes, and
//!   of the rule listing it prints.
//! - [`switch_runs`], [`init_runs`]: what is proved of switches and of the
//!   start-up sequence when they run against that model.

pub mod command;
pub mod config;
pub mod gateway;
pub mod init;
pub mod init_runs;
pub mod kernel;
pub mod listing;
pub mod pattern;
pub mod policy;
pub mod routes;
pub mod rules;
pub mod switch;
pub mod switch_runs;
pub mod text;
