//! Builds a CMake project inside a reusable container.
//!
//! The library holds the logic of a build run: the normalized configuration,
//! the command lines handed to the container, the labels that identify the
//! build container, and the state machine that orders the remote operations.
//! Talking to the container runtime is left to the caller, which performs the
//! operations that the state machine asks for and reports what came back.
pub mod cmake;
pub mod config;
pub mod container;
pub mod docker;
pub mod error;
pub mod session;
