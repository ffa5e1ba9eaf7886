//! Process-attributed network connection events.
//!
//! The crate decodes fixed-layout records read from a kernel ring buffer
//! into typed events, tracks process identity (command line and container)
//! per pid, and turns socket events plus cached attribution into output
//! records for a sink.  Everything here is plain computation over bytes and
//! values; the surrounding runtime (probe loading, `/proc` reads, container
//! runtime clients, HTTP delivery) lives outside the library and hands in
//! plain values.

pub mod code;
pub mod data;
pub mod dispatch;
pub mod event;
pub mod sink;
pub mod text;
pub mod track;
