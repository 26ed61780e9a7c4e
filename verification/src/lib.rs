//! Core of a tiling window manager: a registry of windows with integer
//! geometry, a two-turn resize pipeline, removal backfill driven by an
//! adjacency search, a tile/stack mode controller, and pointer-driven grabs.
//!
//! Everything here works on plain integer coordinates.  The surrounding
//! compositor (display sockets, input backends, rendering) feeds this core
//! with lifecycle, commit and pointer events and carries the configure
//! requests it computes back to the clients.

pub mod geometry;
pub mod compositor;
pub mod shell;
pub mod space;
pub mod adjacency;
pub mod backfill;
pub mod grab;
pub mod input;
pub mod pipeline;
pub mod state;
pub mod tiling;
pub mod xdg_shell;
