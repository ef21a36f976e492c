//! Verified core of the openDuT services: decoding of CAN link information
//! from netlink attributes, the in-memory resource storage of the cluster
//! manager, the cluster bookkeeping around it, and the conversion errors of
//! the shared types.

pub mod can;
pub mod conversion;
pub mod resources;
pub mod volatile;
pub mod cluster;
pub mod persistence;
pub mod can_update;
pub mod database;
pub mod show;
