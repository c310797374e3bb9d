//! Connection lifecycle and room registry of a real-time lobby server.
//!
//! Clients open a persistent connection, send a one-time capability
//! handshake, and then create or join named rooms with a small binary
//! command protocol. This crate holds the rules of that protocol: which
//! handshake is accepted, what each command does to the shared registry of
//! rooms, and what a connection leaves behind when it goes away. Transport,
//! locking and task scheduling belong to the program around it.
pub mod command;
pub mod frame;
pub mod handshake;
pub mod hub;
pub mod ids;
pub mod lines;
pub mod registry;
pub mod session;
pub mod text;
pub mod theorems;
pub mod wire;
