//! The routing and the formats of a gateway between one mixing-console
//! control session and any number of WebSocket clients.

pub mod bignum;
pub mod power;
pub mod fader;
pub mod text;
pub mod message;
pub mod console;
pub mod json;
pub mod formats;
pub mod errors;
pub mod hub;
pub mod ql;
pub mod websocket;
