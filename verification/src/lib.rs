//! Decision logic of a configuration-driven HTTP load tester.
//!
//! The crate holds everything the tool decides: how an endpoint's URL is
//! assembled, what a response means for the call that received it, how one
//! scenario instance walks through its endpoints, and in which order the
//! coordinator starts and joins instances. Network traffic, task spawning and
//! logging are left to the program that drives these state machines.

pub mod caller;
pub mod config;
pub mod coordinator;
pub mod json;
pub mod runner;
pub mod scene;
pub mod string_map;
pub mod url;
