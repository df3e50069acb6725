//! A programmable orchestrator for networks of Docker containers.
//!
//! The library holds the decisions: how a Dockerfile and its build context are
//! assembled, which arguments each Docker command gets, how every container
//! moves between its run states, and how a bring-up, a wait or a teardown
//! proceeds step by step. The caller performs the commands that a step asks
//! for and reports back what happened.

pub mod bootstrap;
pub mod container;
pub mod container_state;
pub mod diagnostics;
pub mod dockerfile;
pub mod error;
pub mod ids;
pub mod image;
pub mod file_options;
pub mod misc;
pub mod net_message;
pub mod network;
pub mod paths;
pub mod port_bind;
pub mod run;
pub mod super_dockerfile;
pub mod tarball;
pub mod text;
pub mod wait;
