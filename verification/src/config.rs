//! The VMM's configuration as the command line gives it.
use vstd::prelude::*;

verus! {

/// Guest memory in MiB when none is given.
pub const DEFAULT_MEM_MIB: usize = 1024;

/// Kernel command line when none is given.
pub const DEFAULT_CMDLINE: &'static str = "console=ttyS0,115200 earlyprintk=serial,ttyS0,115200 noapic reboot=t panic=1 oops=panic nomodule rdinit=/sbin/init";

/// Run configuration.
#[derive(Debug, Clone)]
pub struct Config {
    /// Path to the kernel image to boot.
    pub kernel: String,
    /// Path to the initramfs image to boot (optional).
    pub initramfs: Option<String>,
    /// Guest memory in MiB.
    pub mem: usize,
    /// Command line arguments to pass to the kernel.
    pub cmdline: Option<String>,
    /// Path to a raw disk image to attach as virtio-blk (optional).
    pub disk: Option<String>,
    /// Enable debug mode.
    pub debug: bool,
}

/// Guest RAM in bytes for `mem` MiB, or `None` when that overflows.
pub fn ram_size_bytes(mem: usize) -> (r: Option<usize>)
    ensures
        mem * 0x10_0000 <= usize::MAX ==> r == Some((mem * 0x10_0000) as usize),
        mem * 0x10_0000 > usize::MAX ==> r is None,
{
    mem.checked_mul(1024 * 1024)
}

} // verus!
