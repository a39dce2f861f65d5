//! A drop-in CANlib shim core: everything a Kvaser `canlib32.dll` replacement
//! decides when it bridges a CAN application to a Linux `vcan` over cannelloni.
//!
//! The crate performs no I/O. Sockets, threads, locks and the C ABI live in the
//! code around it, which hands plain values in and carries plain values out.

#![allow(non_snake_case)]

pub mod wire;
pub mod wire_laws;
pub mod text;
pub mod text_laws;
pub mod addr;
pub mod addr_laws;
pub mod settings;
pub mod config;
pub mod config_laws;
pub mod shared;
pub mod shared_laws;
pub mod open;
pub mod transport;
pub mod handles;
pub mod canlib;
pub mod canlib_laws;
pub mod log;
