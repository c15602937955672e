//! Decision core of a tiling window manager for X11.
//!
//! The crate models workspaces, clients, focus and fullscreen, turns user
//! actions and X events into a stream of [`effect::Effect`] values, lays out
//! tiles, produces the EWMH property updates, and says which protocol
//! requests realise an effect. It never talks to an X server itself: a caller
//! owns the connection and carries out what the crate returns.
//!
//! Every operation is specified over a mathematical model of the data it
//! works on ([`workspace::WorkspaceView`], [`state::model::StateView`]), and
//! [`state::laws`] holds what follows for all inputs.

pub mod atoms;
pub mod config;
pub mod effect;
pub mod ewmh;
pub mod ewmh_manager;
pub mod key_mapping;
pub mod keyboard;
pub mod layout;
pub mod rdwm;
pub mod state;
pub mod workspace;
pub mod x11;
