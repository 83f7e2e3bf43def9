use std::sync::atomic::{AtomicBool, Ordering};
use std::sync::{Arc, Mutex};

use ferrvm::bus::BusDevice;
use ferrvm::memory::GuestRam;
use ferrvm::pci::PciDevice;
use ferrvm::serial::{IrqSink, NullIrqSink};
use ferrvm::virtio::blk::{BlockBackend, VirtioBlk};
use ferrvm::virtio::mmio::VirtioMmioDevice;
use ferrvm::virtio::pci::{VirtioPciDevice, pci_class};
use ferrvm::virtio::rng::{EntropySource, VirtioRng};
use ferrvm::virtio::{VirtioDevice, Virtqueue};

/// Guest RAM backed by a vector.
struct Ram(Mutex<Vec<u8>>);

impl Ram {
    fn new(size: usize) -> Arc<Self> {
        Arc::new(Ram(Mutex::new(vec![0u8; size])))
    }
    fn put(&self, gpa: u64, bytes: &[u8]) {
        self.write_at(gpa, bytes).unwrap();
    }
    fn get(&self, gpa: u64, len: usize) -> Vec<u8> {
        self.read_at(gpa, len).unwrap()
    }
}

impl GuestRam for Ram {
    fn read_at(&self, gpa: u64, len: usize) -> Result<Vec<u8>, String> {
        let m = self.0.lock().unwrap();
        let start = gpa as usize;
        if start.checked_add(len).map_or(true, |e| e > m.len()) {
            return Err("out of range".to_string());
        }
        Ok(m[start..start + len].to_vec())
    }
    fn write_at(&self, gpa: u64, data: &[u8]) -> Result<(), String> {
        let mut m = self.0.lock().unwrap();
        let start = gpa as usize;
        if start.checked_add(data.len()).map_or(true, |e| e > m.len()) {
            return Err("out of range".to_string());
        }
        m[start..start + data.len()].copy_from_slice(data);
        Ok(())
    }
    fn size(&self) -> u64 {
        self.0.lock().unwrap().len() as u64
    }
}

struct Fixed(u8);

impl EntropySource for Fixed {
    fn fill(&mut self, len: usize) -> Result<Vec<u8>, String> {
        Ok(vec![self.0; len])
    }
}

struct Level(AtomicBool);

impl IrqSink for Level {
    fn set_level(&self, asserted: bool) {
        self.0.store(asserted, Ordering::SeqCst);
    }
}

const DESC: u64 = 0x1000;
const AVAIL: u64 = 0x2000;
const USED: u64 = 0x3000;

fn put_desc(ram: &Ram, i: u64, addr: u64, len: u32, flags: u16, next: u16) {
    let mut d = Vec::new();
    d.extend_from_slice(&addr.to_le_bytes());
    d.extend_from_slice(&len.to_le_bytes());
    d.extend_from_slice(&flags.to_le_bytes());
    d.extend_from_slice(&next.to_le_bytes());
    ram.put(DESC + 16 * i, &d);
}

fn offer(ram: &Ram, head: u16, avail_idx: u16) {
    ram.put(AVAIL + 4 + 2 * u64::from(avail_idx - 1), &head.to_le_bytes());
    ram.put(AVAIL + 2, &avail_idx.to_le_bytes());
}

#[test]
fn virtio_pci_config_space_identifies_the_device() {
    let ram = Ram::new(0x10000);
    let dev = VirtioPciDevice::new(ram, Box::new(NullIrqSink), Box::new(VirtioRng::new(Fixed(1))), 12);
    let mut id = [0u8; 4];
    dev.config_read(0, &mut id);
    assert_eq!(id, [0xf4, 0x1a, 0x44, 0x10]);
    let mut irq = [0u8; 2];
    dev.config_read(0x3c, &mut irq);
    assert_eq!(irq, [12, 1]);
    assert_eq!(pci_class(4), (0xff, 0x00));
    assert_eq!(pci_class(2), (0x01, 0x00));
}

#[test]
fn virtio_pci_bar_is_4k_aligned_after_writes() {
    let ram = Ram::new(0x10000);
    let mut dev = VirtioPciDevice::new(ram, Box::new(NullIrqSink), Box::new(VirtioRng::new(Fixed(1))), 12);
    dev.config_write(0x10, &0xffff_ffffu32.to_le_bytes());
    let mut bar = [0u8; 4];
    dev.config_read(0x10, &mut bar);
    assert_eq!(u32::from_le_bytes(bar), 0xffff_f000);
    dev.config_write(0x10, &0xe000_0000u32.to_le_bytes());
    assert_eq!(dev.bar_base(), 0xe000_0000);
    assert!(!dev.mem_enabled());
    dev.config_write(0x04, &[0x02, 0x00]);
    assert!(dev.mem_enabled());
    // The vendor ID is read-only.
    dev.config_write(0x00, &[0, 0]);
    let mut id = [0u8; 2];
    dev.config_read(0, &mut id);
    assert_eq!(id, [0xf4, 0x1a]);
}

#[test]
fn virtio_pci_rng_fills_a_buffer() {
    let ram = Ram::new(0x10000);
    let irq = Arc::new(Level(AtomicBool::new(false)));
    let mut dev = VirtioPciDevice::new(ram.clone(), Box::new(irq.clone()), Box::new(VirtioRng::new(Fixed(0xab))), 12);
    // Queue 0: 8 entries at DESC/AVAIL/USED, enabled.
    dev.mmio_write(0x16, &0u16.to_le_bytes());
    let mut size = [0u8; 2];
    dev.mmio_read(0x18, &mut size);
    assert_eq!(u16::from_le_bytes(size), 256);
    dev.mmio_write(0x18, &8u16.to_le_bytes());
    dev.mmio_write(0x20, &(DESC as u32).to_le_bytes());
    dev.mmio_write(0x24, &0u32.to_le_bytes());
    dev.mmio_write(0x28, &(AVAIL as u32).to_le_bytes());
    dev.mmio_write(0x30, &(USED as u32).to_le_bytes());
    dev.mmio_write(0x1c, &1u16.to_le_bytes());
    let mut desc_lo = [0u8; 4];
    dev.mmio_read(0x20, &mut desc_lo);
    assert_eq!(u32::from_le_bytes(desc_lo), DESC as u32);

    put_desc(&ram, 0, 0x4000, 16, 2, 0);
    offer(&ram, 0, 1);
    dev.mmio_write(0x50, &0u16.to_le_bytes());

    assert_eq!(ram.get(0x4000, 16), vec![0xab; 16]);
    assert_eq!(ram.get(USED + 2, 2), 1u16.to_le_bytes().to_vec());
    assert_eq!(ram.get(USED + 4, 8), [0u32.to_le_bytes(), 16u32.to_le_bytes()].concat());
    assert!(irq.0.load(Ordering::SeqCst));

    // Reading the ISR returns the queue bit once and lowers the line.
    let mut isr = [0u8; 1];
    dev.mmio_read(0x40, &mut isr);
    assert_eq!(isr[0], 1);
    assert!(!irq.0.load(Ordering::SeqCst));
    dev.mmio_read(0x40, &mut isr);
    assert_eq!(isr[0], 0);
}

#[test]
fn virtio_pci_status_zero_resets_queues() {
    let ram = Ram::new(0x10000);
    let mut dev = VirtioPciDevice::new(ram, Box::new(NullIrqSink), Box::new(VirtioRng::new(Fixed(1))), 12);
    dev.mmio_write(0x16, &0u16.to_le_bytes());
    dev.mmio_write(0x1c, &1u16.to_le_bytes());
    dev.mmio_write(0x14, &[0x0f]);
    let mut status = [0u8; 1];
    dev.mmio_read(0x14, &mut status);
    assert_eq!(status[0], 0x0f);
    dev.mmio_write(0x14, &[0]);
    let mut enable = [0u8; 2];
    dev.mmio_read(0x1c, &mut enable);
    assert_eq!(enable, [0, 0]);
    dev.mmio_read(0x14, &mut status);
    assert_eq!(status[0], 0);
}

#[test]
fn virtio_pci_feature_words() {
    let ram = Ram::new(0x1000);
    let mut dev = VirtioPciDevice::new(ram, Box::new(NullIrqSink), Box::new(VirtioRng::new(Fixed(1))), 12);
    let mut word = [0u8; 4];
    dev.mmio_write(0x00, &0u32.to_le_bytes());
    dev.mmio_read(0x04, &mut word);
    assert_eq!(u32::from_le_bytes(word), 0);
    dev.mmio_write(0x00, &1u32.to_le_bytes());
    dev.mmio_read(0x04, &mut word);
    assert_eq!(u32::from_le_bytes(word), 1); // VIRTIO_F_VERSION_1 is bit 32
    let mut num_queues = [0u8; 2];
    dev.mmio_read(0x12, &mut num_queues);
    assert_eq!(u16::from_le_bytes(num_queues), 1);
}

#[test]
fn virtio_mmio_registers() {
    let ram = Ram::new(0x10000);
    let mut dev = VirtioMmioDevice::new(ram, Box::new(NullIrqSink), Box::new(VirtioRng::new(Fixed(1))));
    let mut word = [0u8; 4];
    dev.read(0x00, &mut word);
    assert_eq!(&word, b"virt");
    dev.read(0x04, &mut word);
    assert_eq!(u32::from_le_bytes(word), 2);
    dev.read(0x08, &mut word);
    assert_eq!(u32::from_le_bytes(word), 4);
    dev.read(0x0c, &mut word);
    assert_eq!(u32::from_le_bytes(word), 0x554d_4551);
    dev.write(0x14, &1u32.to_le_bytes());
    dev.read(0x10, &mut word);
    assert_eq!(u32::from_le_bytes(word), 1);
    dev.read(0x34, &mut word);
    assert_eq!(u32::from_le_bytes(word), 256);
    // A queue that does not exist has no size.
    dev.write(0x30, &5u32.to_le_bytes());
    dev.read(0x34, &mut word);
    assert_eq!(u32::from_le_bytes(word), 0);
    // Narrow register accesses are ignored.
    let mut narrow = [7u8; 2];
    dev.read(0x00, &mut narrow);
    assert_eq!(narrow, [7, 7]);
}

#[test]
fn virtio_mmio_rng_notify_and_ack() {
    let ram = Ram::new(0x10000);
    let irq = Arc::new(Level(AtomicBool::new(false)));
    let mut dev = VirtioMmioDevice::new(ram.clone(), Box::new(irq.clone()), Box::new(VirtioRng::new(Fixed(0x5a))));
    dev.write(0x30, &0u32.to_le_bytes());
    dev.write(0x38, &8u32.to_le_bytes());
    dev.write(0x80, &(DESC as u32).to_le_bytes());
    dev.write(0x84, &0u32.to_le_bytes());
    dev.write(0x90, &(AVAIL as u32).to_le_bytes());
    dev.write(0xa0, &(USED as u32).to_le_bytes());
    dev.write(0x44, &1u32.to_le_bytes());
    let mut word = [0u8; 4];
    dev.read(0x44, &mut word);
    assert_eq!(u32::from_le_bytes(word), 1);

    put_desc(&ram, 0, 0x4000, 4, 2, 0);
    offer(&ram, 0, 1);
    dev.write(0x50, &0u32.to_le_bytes());
    assert_eq!(ram.get(0x4000, 4), vec![0x5a; 4]);
    assert!(irq.0.load(Ordering::SeqCst));
    dev.read(0x60, &mut word);
    assert_eq!(u32::from_le_bytes(word), 1);
    dev.write(0x64, &1u32.to_le_bytes());
    assert!(!irq.0.load(Ordering::SeqCst));
    dev.read(0x60, &mut word);
    assert_eq!(u32::from_le_bytes(word), 0);

    // Status 0 resets the queues.
    dev.write(0x70, &0u32.to_le_bytes());
    dev.read(0x44, &mut word);
    assert_eq!(u32::from_le_bytes(word), 0);
}

struct Disk(Mutex<Vec<u8>>);

impl BlockBackend for Disk {
    fn read_exact_at(&self, len: usize, offset: u64) -> Result<Vec<u8>, String> {
        let d = self.0.lock().unwrap();
        let start = offset as usize;
        if start + len > d.len() {
            return Err("short".to_string());
        }
        Ok(d[start..start + len].to_vec())
    }
    fn write_all_at(&self, data: &[u8], offset: u64) -> Result<(), String> {
        let mut d = self.0.lock().unwrap();
        let start = offset as usize;
        if start + data.len() > d.len() {
            return Err("short".to_string());
        }
        d[start..start + data.len()].copy_from_slice(data);
        Ok(())
    }
    fn sync_all(&self) -> Result<(), String> {
        Ok(())
    }
}

fn blk_queue() -> Virtqueue {
    let mut q = Virtqueue::new();
    q.desc_table = DESC;
    q.avail_ring = AVAIL;
    q.used_ring = USED;
    q.num = 8;
    q.ready = true;
    q
}

fn blk_request(ram: &Ram, req_type: u32, sector: u64, data_len: u32, data_flags: u16) {
    let mut hdr = Vec::new();
    hdr.extend_from_slice(&req_type.to_le_bytes());
    hdr.extend_from_slice(&0u32.to_le_bytes());
    hdr.extend_from_slice(&sector.to_le_bytes());
    ram.put(0x5000, &hdr);
    put_desc(ram, 0, 0x5000, 16, 1, 1);
    put_desc(ram, 1, 0x6000, data_len, data_flags | 1, 2);
    put_desc(ram, 2, 0x7000, 1, 2, 0);
}

#[test]
fn virtio_blk_reads_a_sector() {
    let ram = Ram::new(0x10000);
    let mut image = vec![0u8; 2048];
    for (i, b) in image[512..1024].iter_mut().enumerate() {
        *b = i as u8;
    }
    let mut blk = VirtioBlk::new(Disk(Mutex::new(image)), 2048, false);
    let mut q = blk_queue();
    blk_request(&ram, 0, 1, 512, 2);
    offer(&ram, 0, 1);
    ram.put(0x7000, &[0xff]);
    assert!(blk.on_notify(0, &mut q, ram.as_ref()));
    let expected: Vec<u8> = (0..512).map(|i| i as u8).collect();
    assert_eq!(ram.get(0x6000, 512), expected);
    assert_eq!(ram.get(0x7000, 1), vec![0]);
    assert_eq!(ram.get(USED + 4, 8), [0u32.to_le_bytes(), 513u32.to_le_bytes()].concat());
    assert_eq!(q.last_avail_idx, 1);
}

#[test]
fn virtio_blk_writes_and_flushes() {
    let ram = Ram::new(0x10000);
    let disk = Disk(Mutex::new(vec![0u8; 2048]));
    let mut blk = VirtioBlk::new(disk, 2048, false);
    let mut q = blk_queue();
    ram.put(0x6000, &[9u8; 512]);
    blk_request(&ram, 1, 2, 512, 0);
    offer(&ram, 0, 1);
    assert!(blk.on_notify(0, &mut q, ram.as_ref()));
    assert_eq!(ram.get(0x7000, 1), vec![0]);
    // Only the status byte was written to the guest.
    assert_eq!(ram.get(USED + 4, 8), [0u32.to_le_bytes(), 1u32.to_le_bytes()].concat());

    blk_request(&ram, 4, 0, 0, 0);
    put_desc(&ram, 0, 0x5000, 16, 1, 2);
    offer(&ram, 0, 2);
    assert!(blk.on_notify(0, &mut q, ram.as_ref()));
    assert_eq!(ram.get(0x7000, 1), vec![0]);
}

#[test]
fn virtio_blk_unsupported_request() {
    let ram = Ram::new(0x10000);
    let mut blk = VirtioBlk::new(Disk(Mutex::new(vec![0u8; 1024])), 1024, false);
    let mut q = blk_queue();
    // VIRTIO_BLK_T_DISCARD is not offered.
    blk_request(&ram, 11, 0, 20, 2);
    offer(&ram, 0, 1);
    assert!(blk.on_notify(0, &mut q, ram.as_ref()));
    assert_eq!(ram.get(0x7000, 1), vec![2]);
    assert_eq!(ram.get(USED + 4, 8), [0u32.to_le_bytes(), 1u32.to_le_bytes()].concat());
}

#[test]
fn virtio_blk_get_id() {
    let ram = Ram::new(0x10000);
    let mut blk = VirtioBlk::new(Disk(Mutex::new(vec![0u8; 1024])), 1024, false);
    let mut q = blk_queue();
    ram.put(0x6000, &[0xaa; 24]);
    blk_request(&ram, 8, 0, 20, 2);
    offer(&ram, 0, 1);
    assert!(blk.on_notify(0, &mut q, ram.as_ref()));
    let mut id = b"ferrvm".to_vec();
    id.resize(20, 0);
    assert_eq!(ram.get(0x6000, 20), id);
    // Bytes past the 20-byte ID are untouched.
    assert_eq!(ram.get(0x6014, 4), vec![0xaa; 4]);
    assert_eq!(ram.get(0x7000, 1), vec![0]);
    assert_eq!(ram.get(USED + 4, 8), [0u32.to_le_bytes(), 21u32.to_le_bytes()].concat());
}

#[test]
fn virtio_blk_get_id_short_buffer() {
    let ram = Ram::new(0x10000);
    let mut blk = VirtioBlk::new(Disk(Mutex::new(vec![0u8; 1024])), 1024, false);
    let mut q = blk_queue();
    ram.put(0x6000, &[0xaa; 8]);
    blk_request(&ram, 8, 0, 4, 2);
    offer(&ram, 0, 1);
    assert!(blk.on_notify(0, &mut q, ram.as_ref()));
    assert_eq!(ram.get(0x6000, 8), vec![0x66, 0x65, 0x72, 0x72, 0xaa, 0xaa, 0xaa, 0xaa]);
    assert_eq!(ram.get(USED + 4, 8), [0u32.to_le_bytes(), 5u32.to_le_bytes()].concat());
}

#[test]
fn virtio_blk_reports_capacity_and_identity() {
    let blk = VirtioBlk::new(Disk(Mutex::new(Vec::new())), 1024 * 1024 + 100, false);
    let mut cfg = [0u8; 10];
    blk.read_config(0, &mut cfg);
    assert_eq!(cfg, [0x00, 0x08, 0, 0, 0, 0, 0, 0, 0, 0]);
    let mut tail = [0u8; 2];
    blk.read_config(1, &mut tail);
    assert_eq!(tail, [0x08, 0]);
    // seg_max at offset 12.
    let mut seg_max = [0u8; 4];
    blk.read_config(12, &mut seg_max);
    assert_eq!(u32::from_le_bytes(seg_max), 254);
    let mut past = [0xffu8; 4];
    blk.read_config(16, &mut past);
    assert_eq!(past, [0; 4]);
    assert_eq!(blk.device_id(), 2);
    assert_eq!(blk.device_features(), (1u64 << 32) | (1 << 9) | (1 << 2));
    assert_eq!(blk.num_queues(), 1);
}

#[test]
fn virtio_rng_ignores_other_queues_and_read_only_buffers() {
    let ram = Ram::new(0x10000);
    let mut rng = VirtioRng::new(Fixed(0xee));
    let mut q = blk_queue();
    assert!(!rng.on_notify(1, &mut q, ram.as_ref()));
    put_desc(&ram, 0, 0x4000, 8, 0, 0);
    offer(&ram, 0, 1);
    assert!(rng.on_notify(0, &mut q, ram.as_ref()));
    assert_eq!(ram.get(0x4000, 8), vec![0; 8]);
    assert_eq!(ram.get(USED + 8, 4), 0u32.to_le_bytes().to_vec());
    assert_eq!(rng.device_id(), 4);
}

#[test]
fn virtqueue_not_ready_processes_nothing() {
    let ram = Ram::new(0x10000);
    let mut rng = VirtioRng::new(Fixed(0xee));
    let mut q = Virtqueue::new();
    assert!(!rng.on_notify(0, &mut q, ram.as_ref()));
    assert_eq!(q.last_avail_idx, 0);
}
