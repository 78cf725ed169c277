//! Verified core of the Shatterbelt Salvagers arena server: team registration,
//! bot artifact stores, bot health and moderation, live-match control, tick
//! pacing, slot resolution and the wire messages the server emits.

pub mod admin;
pub mod auth;
pub mod control;
pub mod health;
pub mod keyed;
pub mod ladder;
pub mod laws;
pub mod pacer;
pub mod resolver;
pub mod routes;
pub mod session;
pub mod store;
pub mod text;
pub mod types;
pub mod wasm_host;
pub mod wire;
