//! The backends: their builders, and the decisions each one makes over the
//! replies of the service behind it.

pub mod fs;
pub mod ftp;
pub mod ghac;
pub mod http;
pub mod obs;
pub mod reply;
