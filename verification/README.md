# ferrvm

A minimal virtual machine monitor for x86-64 guests on Linux KVM (and
illumos bhyve): it boots an ELF `vmlinux` or a bzImage, emulates a 16550A
UART on COM1, a PCI host bridge, and virtio-pci entropy and block devices.

## Layout

- `src/` — the library, verified with Verus: the I/O bus, the UART, PCI
  configuration space, the virtio transports (PCI and MMIO) and split
  virtqueues, the entropy and block devices, ELF and bzImage loading with
  the boot protocol's zero page, page tables and GDT, the KVM and bhyve
  exit handling, and the console escape machine. The contracts state what
  the library decides: register and state transitions, routing, error
  conditions, and the values handed to guest memory, devices and vCPUs.
  What guest memory, disks or the entropy source hand back is not known to
  the library, so where a result depends on it the contract says what
  holds for every reply. The properties that relate several operations are
  public proof functions (`lemma_*`).
- `app/` — the program around it: command line, guest RAM (`mmap`), the
  KVM and bhyve ioctls and their C layouts, raw terminal mode, the stdin
  reader thread and the vCPU loop.
- `tests/` — tests of the library on concrete values.

## Trusted code

The library trusts, without proof:

- `std::time::Instant::now` and `Instant::elapsed` (the UART's receive
  timeout), of which nothing is assumed;
- iced-x86's decoder and Intel formatter, used to describe the instruction
  of an unexpected bhyve exit: an instruction is decoded exactly when bytes
  are given, and its text is a function of the bytes, the code size and the
  instruction pointer.

Guest memory, disks, the entropy source, interrupt lines and vCPU
registers reach the library through traits (`GuestRam`, `BlockBackend`,
`EntropySource`, `IrqSink`, `Vcpu`) implemented in `app/`; the library's
contracts hold whatever those implementations return. The device traits
(`BusDevice`, `PciDevice`, `VirtioPciBar`) carry in their contracts a
record of the accesses and configuration writes a device has been handed,
and (for `PciDevice`) the bytes its configuration space reads as. These are
promised only by implementations that declare so through the trait's
`obeys_*` function, as every implementation in the library does; the bus,
the PCI root bus and the BAR window state their routing over the records
of such devices. The handles in `app/` (locks around the devices) do not
declare it, so for them the routing contracts promise nothing about the
record. `VirtioDevice` and `ChainProcessor` are implemented only in the
library and keep their records unconditionally.
