//! Decision core of the capsule runtime.
//!
//! A capsule is a WebAssembly component with a manifest. This library decides
//! what a capsule may do, whether and how it is loaded, and what happens step by
//! step when it is called. It performs no I/O: callers hand in what they read
//! and carry out the actions they are given.

pub mod budget;
pub mod calendar;
pub mod capabilities;
pub mod discovery;
pub mod engine;
pub mod error;
pub mod foreign;
pub mod host_state;
pub mod invoke;
pub mod lifecycle;
pub mod lists;
pub mod load;
pub mod loading;
pub mod logs;
pub mod manifest;
pub mod net;
pub mod onboarding;
pub mod paths;
pub mod prescan;
pub mod principal_home;
pub mod security;
pub mod text;
pub mod tool_discovery;
pub mod topic;
