//! The illumos bhyve backend: its ABI and the handling of VM exits.
pub mod api;
pub mod exithandler;
