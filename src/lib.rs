//! A Bluetooth Low Energy session engine: the pending-operation registry, the
//! GATT discovery cache and the decision logic of the central, peripheral
//! session and peripheral-role actors, each stated as a state machine that a
//! thin event loop drives.

pub mod error;
pub mod gatt;
pub mod bits;
pub mod discovery;
pub mod session;
pub mod central;
pub mod peripheral_manager;
pub mod registry;
