//! The logic of DieselLynk, a service that brings truck drivers and diesel
//! technicians together.
//!
//! A driver opens a session, reports on the truck and calls for service.
//! Technicians log in, join the sessions of their organisation and lead them;
//! administrators watch over it all. Every function says in its contract what it
//! answers and what it changes. Times are handed in as readings of the clock,
//! and what goes over the network or into the database is handed in and out as
//! plain values.
//!
//! - [`session`], [`technician`], [`registry`], [`outcome`]: what drivers and
//!   technicians do to sessions, the sessions as a whole, and what follows from a
//!   change.
//! - [`auth`], [`rate_limit`], [`endpoints`], [`admin`]: who is let in, how often,
//!   and what administrators see and change.
//! - [`guac`], [`http`], [`base64`], [`json`]: the remote-desktop gateway.
//! - [`rooms`]: the sockets that watch sessions.
//! - [`store`]: what the database keeps.
//! - [`laws`]: what the operations are for, said of inputs and results alone.
//! - [`model`], [`reply`], [`table`]: the data.
//! - [`text`], [`letter_case`], [`numerals`], [`clock`], [`config`]: the ground
//!   that the rest stands on.

pub mod admin;
pub mod auth;
pub mod base64;
pub mod clock;
pub mod config;
pub mod endpoints;
pub mod guac;
pub mod http;
pub mod json;
pub mod laws;
pub mod letter_case;
pub mod model;
pub mod numerals;
pub mod outcome;
pub mod rate_limit;
pub mod registry;
pub mod reply;
pub mod rooms;
pub mod session;
pub mod store;
pub mod table;
pub mod technician;
pub mod text;
