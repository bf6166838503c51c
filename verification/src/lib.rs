//! A readiness-event multiplexer backed by the `select` family of system
//! calls, with a signal-to-readiness bridge built on the self-pipe technique.
//!
//! The registration table, the translation between the table and the
//! readiness sets the OS call works on, and the translation of the OS
//! result into events are verified; `laws` states and proves the properties
//! that relate several operations. The blocking selection call itself, and
//! everything else that touches the OS, is left to the embedding program:
//! `PosixSelect::select_request` says exactly which descriptors to hand to
//! the OS, and `PosixSelect::poll` says exactly which events follow from
//! what the OS reported.

pub mod errors;
pub mod events;
pub mod laws;
pub mod poller;
pub mod signals;
pub mod table;

pub use errors::PollError;
pub use events::{Event, Events, Interest, Token};
pub use poller::{
    FdSource, HasRawFd, Poll, Registry, SelectRequest, SelectResponse, Timeout, Timeval,
};
pub use signals::Signals;
pub use table::{PosixSelect, FD_SETSIZE};
