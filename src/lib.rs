//! Multi-endpoint audio mirroring: the verified core of a loopback-capture
//! pipeline that fans one captured stream out to several output endpoints.
//!
//! - [`buffer`]: the byte ring between the capture and the renderers.
//! - [`capture`]: captured batches, their delivery into the ring, and the
//!   capture worker's state machine.
//! - [`renderer`]: what a renderer takes from the ring in one iteration and
//!   how a clock correction shapes what it submits.
//! - [`clock`]: master/slave drift estimation and bounded corrections.
//! - [`engine`]: lifecycle, adopted endpoints, pause flags and the reaction
//!   to device notifications.
//! - [`device`], [`filter`]: endpoint descriptions and display-endpoint
//!   recognition.
//! - [`format`], [`hardware`], [`volume`]: stream sizes, latency classes and
//!   the shared volume cell.
//! - [`config`], [`settings`], [`tray`]: command line, service configuration,
//!   per-endpoint settings and the tray controller's decisions.
//!
//! Threads, host streams and channels belong to the caller: the ring takes
//! `&mut` for writes, so a caller sharing it across threads puts it behind a
//! lock whose write side only the capture worker takes.

pub mod buffer;
pub mod capture;
pub mod clock;
pub mod config;
pub mod device;
pub mod engine;
pub mod error;
pub mod filter;
pub mod format;
pub mod hardware;
pub mod renderer;
pub mod settings;
pub mod tray;
pub mod volume;
