//! Live link between a scene of home devices and a home-automation hub:
//! the wire protocol, the authentication handshake, the transport queues,
//! the binding of scene nodes to hub entities and the reconciliation of
//! entity state, each with a proved contract.

pub mod hass;
pub mod json;
pub mod text;
pub mod ws;
