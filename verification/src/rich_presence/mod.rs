//! A stand-in for Discord's local RPC server, so that any Discord-RPC-aware
//! program publishes its activity into Matrix as rich presence.

pub mod frame;
pub mod activities;
pub mod echo;
pub mod session;
pub mod bridge;
pub mod pipe;
pub mod unix;
