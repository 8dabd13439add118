//! A single elevator car serving a fixed set of floors.
//!
//! Passengers summon the car to a boarding floor with a travel direction and
//! name a destination. The dispatch engine serves the pending requests in
//! direction-consistent sweeps, moving one floor at a time and never moving
//! while the door is open.

pub mod boarding;
pub mod cabin;
pub mod car;
pub mod direction;
pub mod elevator;
pub mod laws;
pub mod plan;
pub mod request;
pub mod route;
