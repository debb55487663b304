//! The runner of a playground: it takes tasks from a control server and gives each
//! client a virtual machine of its own.
//!
//! The library holds what the runner decides and computes. Talking to the network, to
//! the file system and to other processes is left to the program around it, which
//! performs the actions that the library asks for and reports what came of them.

pub mod cache;
pub mod config;
pub mod digest;
pub mod endpoint;
pub mod fetch;
pub mod ids;
pub mod path;
pub mod profile;
pub mod qemu;
pub mod relay;
pub mod request;
pub mod resource;
pub mod text;
pub mod update_laws;
pub mod vmm;
pub mod vmm_laws;
pub mod worker;
pub mod worker_laws;
