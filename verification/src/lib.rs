//! Command reception and dispatch for a headless remote-control service.
//!
//! The service listens on a datagram socket, decodes each datagram into a
//! [`command::Command`], hands it to an input dispatcher and keeps timing
//! statistics. This crate holds the decisions of that service: the codec, the
//! timing rules and the state machine of the reception loop. Sockets, clocks and
//! the dispatcher itself live with the caller, which reports what happened as
//! [`service::Event`]s and carries out the [`service::Action`]s it gets back.

pub mod codec;
pub mod command;
pub mod config;
pub mod diagnostic;
pub mod json;
pub mod runs;
pub mod service;
pub mod text;
pub mod timing;
