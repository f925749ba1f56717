//! A user-space TCP engine for a layer-3 virtual interface.
//!
//! The engine takes raw IPv4 frames, sorts TCP segments into per-connection
//! flows, drives each flow through the RFC 793 state machine and queues the
//! response datagrams on its interface. Reading frames from a device and
//! transmitting the queued datagrams is left to the program that owns the
//! engine.
#![allow(non_camel_case_types)]
#![allow(non_snake_case)]

pub mod codec;
pub mod nic;
pub mod tcp;
