//! Manifest-driven replication of a Linux workstation: distribution
//! detection, package-manager selection, manifest planning and the
//! text processing of package-manager output, all with verified contracts.

pub mod os_details;
pub mod text;
pub mod order;
pub mod manifest;
pub mod capture;
pub mod shell;
pub mod paths;
pub mod apply;
pub mod cli;
pub mod bundle;
