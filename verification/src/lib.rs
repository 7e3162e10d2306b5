//! Vectorcom: the logic of a room-based chat service, of its terminal client
//! and of the server's dashboard.

pub mod text;
pub mod format;
pub mod order;
pub mod protocol;
pub mod clock;
pub mod wire;
pub mod net;
pub mod connection;
pub mod roundtrip;
pub mod text_map;
pub mod ids;
pub mod input;
pub mod app;
pub mod hub;
pub mod outcomes;
pub mod state;
pub mod keys;
pub mod client;
pub mod session;
pub mod admin;
pub mod observe;
pub mod view;
pub mod client_view;
pub mod dashboard;
pub mod journey;
pub mod commands;
pub mod conversation;
pub mod observing;
pub mod attendance;
pub mod wording;
pub mod lettering;
pub mod appearance;
