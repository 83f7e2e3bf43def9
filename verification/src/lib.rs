//! A minimal virtual machine monitor: device models, bus dispatch and boot
//! setup, with their behaviour stated and proved.
pub mod bytes;
pub mod bus;
pub mod serial;
pub mod pci;
pub mod memory;
pub mod virtio;
pub mod traits;
pub mod elf;
pub mod boot;
pub mod stats;
pub mod kvm;
pub mod bhyve;
pub mod config;
pub mod terminal;
pub mod input;
pub mod vcpu;
pub mod guest;
