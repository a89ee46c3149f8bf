//! The libvirt backend of winapps: choosing a backend from the configuration, checking it,
//! reading the tables that `virsh` prints, and finding the IP address of the Windows guest.
//! Running commands and parsing IP addresses are left to the caller, which performs the
//! actions that the library asks for.
pub mod text;
pub mod net;
pub mod types;
pub mod error;
pub mod virsh;
pub mod adapter;
pub mod discovery;
pub mod backend;
