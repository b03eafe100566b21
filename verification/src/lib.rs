//! Room-scoped publish/subscribe hub: a registry of rooms and their member
//! sessions, the per-connection session state machine, and the liveness
//! tracking that lets both reclaim dead connections. Beside it stand the
//! plain rules of the services around the hub: reading bearer tokens,
//! account records, and telling binary payloads from text.

pub mod accounts;
pub mod auth;
pub mod clock;
pub mod heartbeat;
pub mod ident;
pub mod keyed;
pub mod messages;
pub mod payload;
pub mod registry;
pub mod replies;
pub mod registry_laws;
pub mod rooms;
pub mod session;
pub mod session_laws;
pub mod text;
