//! Core of a reparenting window manager: workspaces, managed clients, focus
//! history, the closest-window selection algorithm, the command model, and the
//! IPC wire codec. Everything here is verified; the process plumbing around it
//! (display-server connection, sockets, threads) lives outside the library.

pub mod args;
pub mod codec;
pub mod commands;
pub mod config;
pub mod dispatch;
pub mod layout;
pub mod numfmt;
pub mod ordmap;
pub mod state;
pub mod vector;

pub use vector::Vector2D;
