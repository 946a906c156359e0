//! Verified core of the ArceOS Linux-application builder and tester:
//! test-output judging, payload image layout, ABI table management and
//! the decisions that drive building and running applications.

pub mod text;
pub mod judge;
pub mod image;
pub mod axfncall;
pub mod mocklibc;
pub mod config;
pub mod plan;
pub mod steps;
