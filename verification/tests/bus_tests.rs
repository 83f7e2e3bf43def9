use std::sync::{Arc, Mutex};

use ferrvm::bus::{Bus, BusDevice, BusError, BusRange, fill_ff};

struct MockDevice {
    last_offset: u64,
    last_data: Vec<u8>,
}

impl MockDevice {
    fn new() -> Self {
        Self { last_offset: 0, last_data: Vec::new() }
    }
}

/// A handle to a device the test keeps looking at.
#[derive(Clone)]
struct Shared(Arc<Mutex<MockDevice>>);

impl BusDevice for Shared {
    fn read(&mut self, offset: u64, data: &mut [u8]) {
        let mut dev = self.0.lock().unwrap();
        dev.last_offset = offset;
        for (i, b) in data.iter_mut().enumerate() {
            *b = (offset as u8).wrapping_add(i as u8);
        }
    }

    fn write(&mut self, offset: u64, data: &[u8]) {
        let mut dev = self.0.lock().unwrap();
        dev.last_offset = offset;
        dev.last_data = data.to_vec();
    }
}

#[test]
fn test_bus_range_overlap() {
    let r1 = BusRange::new(0x100, 0x10).unwrap();
    let r2 = BusRange::new(0x108, 0x10).unwrap();
    let r3 = BusRange::new(0x110, 0x10).unwrap();

    assert!(r1.overlaps(&r2));
    assert!(r2.overlaps(&r1));
    assert!(!r1.overlaps(&r3));
    assert!(r2.overlaps(&r3));
}

#[test]
fn test_bus_registration() {
    let mut bus = Bus::new();
    let dev = Shared(Arc::new(Mutex::new(MockDevice::new())));

    bus.register(0x1000, 0x10, dev.clone()).unwrap();
    // Just before, no overlap
    bus.register(0x900, 0x100, dev.clone()).unwrap();
    // Overlap at start of first device
    assert!(matches!(bus.register(0x900, 0x701, dev.clone()), Err(BusError::Overlap { .. })));
    // Overlap at end of first device
    assert!(matches!(bus.register(0x1008, 0x10, dev.clone()), Err(BusError::Overlap { .. })));
    // Full overlap
    assert!(matches!(bus.register(0x1002, 0x4, dev), Err(BusError::Overlap { .. })));
}

#[test]
fn test_bus_dispatch() {
    let mut bus = Bus::new();
    let dev = Shared(Arc::new(Mutex::new(MockDevice::new())));
    bus.register(0x1000, 0x10, dev.clone()).unwrap();

    // Successful read
    let mut data = [0u8; 4];
    assert!(bus.read(0x1002, &mut data));
    assert_eq!(data, [2, 3, 4, 5]);
    assert_eq!(dev.0.lock().unwrap().last_offset, 2);

    // Successful write
    bus.write(0x1004, &[0xde, 0xad, 0xbe, 0xef]);
    assert_eq!(dev.0.lock().unwrap().last_offset, 4);
    assert_eq!(dev.0.lock().unwrap().last_data, vec![0xde, 0xad, 0xbe, 0xef]);

    // Unmapped read
    let mut data = [0u8; 2];
    assert!(!bus.read(0x2000, &mut data));
    assert_eq!(data, [0xff, 0xff]);

    // Straddled read
    let mut data = [0u8; 4];
    assert!(!bus.read(0x100e, &mut data));
    assert_eq!(data, [0xff, 0xff, 0xff, 0xff]);
}

#[test]
fn bus_range_rejects_zero_length_and_overflow() {
    assert!(matches!(BusRange::new(0x10, 0), Err(BusError::ZeroLength(0x10))));
    assert!(matches!(BusRange::new(u64::MAX, 2), Err(BusError::Overflow { .. })));
    let r = BusRange::new(0x10, 0x10).unwrap();
    assert_eq!(r.end(), 0x20);
    assert!(r.contains_range(0x18, 8));
    assert!(!r.contains_range(0x18, 9));
    let p = BusRange::point(0x3f8);
    assert_eq!(p.len, 1);
}

#[test]
fn bus_routes_to_the_right_device() {
    let mut bus = Bus::new();
    let a = Shared(Arc::new(Mutex::new(MockDevice::new())));
    let b = Shared(Arc::new(Mutex::new(MockDevice::new())));
    bus.register(0x3f8, 8, a.clone()).unwrap();
    bus.register(0x2f8, 8, b.clone()).unwrap();
    bus.write(0x2fb, &[7]);
    assert_eq!(b.0.lock().unwrap().last_offset, 3);
    assert_eq!(b.0.lock().unwrap().last_data, vec![7]);
    assert!(a.0.lock().unwrap().last_data.is_empty());
    // A write to an unmapped port is dropped.
    assert!(!bus.write(0x500, &[1]));
}

#[test]
fn fill_ff_fills_every_byte() {
    let mut data = [1u8, 2, 3];
    fill_ff(&mut data);
    assert_eq!(data, [0xff; 3]);
}
