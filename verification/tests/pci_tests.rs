use ferrvm::bus::BusDevice;
use ferrvm::pci::{ConfigSpace, PciDevice, PciRootBus, host_bridge, slot_key};

fn setup() -> PciRootBus<ConfigSpace> {
    let mut bus = PciRootBus::new();
    bus.add_device(0, 0, host_bridge());
    bus
}

/// Latch the address of `reg` on slot `dev` and read `CONFIG_DATA` as a dword.
fn read_cfg(bus: &mut PciRootBus<ConfigSpace>, dev: u8, reg: u32) -> u32 {
    let addr: u32 = 0x8000_0000 | (u32::from(dev) << 11) | (reg & 0xfc);
    bus.write(0, &addr.to_le_bytes());
    let mut data = [0u8; 4];
    bus.read(4, &mut data);
    u32::from_le_bytes(data)
}

#[test]
fn config_address_reads_back() {
    let mut bus = setup();
    bus.write(0, &0x8000_0000u32.to_le_bytes());
    let mut data = [0u8; 4];
    bus.read(0, &mut data);
    assert_eq!(u32::from_le_bytes(data), 0x8000_0000);
}

#[test]
fn reads_host_bridge_vendor_device() {
    let mut bus = setup();
    let id = read_cfg(&mut bus, 0, 0x00);
    assert_eq!(id & 0xffff, 0x8086); // Intel
    assert_eq!(id >> 16, 0x1237); // 440FX
}

#[test]
fn host_bridge_class_is_bridge() {
    let mut bus = setup();
    let class = read_cfg(&mut bus, 0, 0x08);
    assert_eq!(class >> 24, 0x06); // base class: bridge
}

#[test]
fn absent_slot_reads_all_ones() {
    let mut bus = setup();
    assert_eq!(read_cfg(&mut bus, 1, 0x00), 0xffff_ffff);
}

#[test]
fn disabled_address_reads_all_ones() {
    let mut bus = setup();
    // No enable bit (bit 31) -> CONFIG_DATA decodes to nothing.
    bus.write(0, &0u32.to_le_bytes());
    let mut data = [0u8; 4];
    bus.read(4, &mut data);
    assert_eq!(data, [0xff; 4]);
}

#[test]
fn config_space_setters_and_getters() {
    let mut cs = ConfigSpace::new();
    cs.set_u32(0x10, 0xdead_beef);
    assert_eq!(cs.get_u32(0x10), 0xdead_beef);
    assert_eq!(cs.get_u16(0x12), 0xdead);
    cs.set_u16(0x04, 0x0102);
    cs.set_u8(0x3c, 9);
    let mut data = [0u8; 4];
    cs.config_read(0x04, &mut data);
    assert_eq!(data, [0x02, 0x01, 0, 0]);
    let mut tail = [0u8; 2];
    cs.config_read(0xff, &mut tail);
    assert_eq!(tail, [0, 0xff]);
}

#[test]
fn plain_config_space_ignores_writes() {
    let mut cs = host_bridge();
    cs.config_write(0, &[0, 0]);
    assert_eq!(cs.get_u16(0), 0x8086);
}

#[test]
fn slot_keys_are_distinct() {
    assert_eq!(slot_key(0, 0), 0);
    assert_ne!(slot_key(1, 0), slot_key(0, 1));
}

#[test]
fn sub_dword_config_data_access() {
    let mut bus = setup();
    let addr: u32 = 0x8000_0000;
    bus.write(0, &addr.to_le_bytes());
    let mut word = [0u8; 2];
    bus.read(6, &mut word);
    assert_eq!(u16::from_le_bytes(word), 0x1237);
}
