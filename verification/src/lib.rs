//! Key Broker Client plugin: one backend per process, chosen from the kernel
//! command line, held in a shared cell and asked for secrets by name.

pub mod error;
pub mod boot;
pub mod grammar;
pub mod registry;
pub mod cell;
pub mod client;
pub mod run;
pub mod shared;
