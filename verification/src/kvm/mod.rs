//! The Linux KVM backend: its ABI and the handling of VM exits.
pub mod api;
pub mod convert;
pub mod exithandler;
pub mod ioctl;
