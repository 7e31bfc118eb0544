//! The logic of a virtio-fs device that a vhost-user backend serves.
//!
//! Nothing here makes a system call. Where the device needs the outside world, the
//! library says which call comes next and takes what became of it.

pub mod activate;
pub mod activate_laws;
pub mod config_space;
pub mod device;
pub mod error;
pub mod fs_config;
pub mod fs_handler;
pub mod request;
pub mod setup;
pub mod slave_handler;
pub mod slave_laws;
