use std::sync::atomic::{AtomicBool, Ordering};
use std::sync::{Arc, Mutex};

use ferrvm::bus::BusDevice;
use ferrvm::serial::{
    ByteOut, FIFO_CAP, FCR_ENABLE, IER_ERBFI, IIR_RDA, IrqSink, LCR_DLAB, LSR_OE, MCR_DTR,
    MCR_LOOPBACK, MCR_OUT2, MSR_DDSR, MSR_DSR, REG_IER_DLM, REG_IIR_FCR, REG_LCR, REG_LSR,
    REG_MCR, REG_MSR, REG_RBR_THR_DLL, REG_SCR, Serial, trigger_bytes,
};

struct TestIrq {
    level: AtomicBool,
}

impl TestIrq {
    fn new() -> Arc<Self> {
        Arc::new(Self { level: AtomicBool::new(false) })
    }
    fn get(&self) -> bool {
        self.level.load(Ordering::SeqCst)
    }
}

impl IrqSink for TestIrq {
    fn set_level(&self, asserted: bool) {
        self.level.store(asserted, Ordering::SeqCst);
    }
}

struct OutWrapper(Arc<Mutex<Vec<u8>>>);

impl ByteOut for OutWrapper {
    fn write_byte(&mut self, byte: u8) {
        self.0.lock().unwrap().push(byte);
    }
}

fn setup_serial() -> (Serial, Arc<TestIrq>, Arc<Mutex<Vec<u8>>>) {
    let out = Arc::new(Mutex::new(Vec::new()));
    let irq = TestIrq::new();
    let serial = Serial::new(Box::new(OutWrapper(out.clone())), Box::new(irq.clone()));
    (serial, irq, out)
}

#[test]
fn test_serial_dlab() {
    let (mut serial, _, _) = setup_serial();

    // Write DLL while DLAB=1
    serial.write(REG_LCR, &[LCR_DLAB]);
    serial.write(REG_RBR_THR_DLL, &[0x34]);
    serial.write(REG_LCR, &[0]);

    // Check THR (DLAB=0) is NOT 0x34
    let mut data = [0u8; 1];
    serial.read(REG_RBR_THR_DLL, &mut data);
    assert_ne!(data[0], 0x34);

    // Read DLL back
    serial.write(REG_LCR, &[LCR_DLAB]);
    serial.read(REG_RBR_THR_DLL, &mut data);
    assert_eq!(data[0], 0x34);
}

#[test]
fn test_serial_loopback() {
    let (mut serial, _, _) = setup_serial();

    // Enable loopback
    serial.write(REG_MCR, &[MCR_LOOPBACK]);

    // Write to THR, should appear in RBR
    serial.write(REG_RBR_THR_DLL, b"A");
    let mut data = [0u8; 1];
    serial.read(REG_RBR_THR_DLL, &mut data);
    assert_eq!(data[0], b'A');

    // Check modem loopback (DTR -> DSR)
    serial.write(REG_MCR, &[MCR_LOOPBACK | MCR_DTR]);
    serial.read(REG_MSR, &mut data);
    assert!(data[0] & MSR_DSR != 0);
    assert!(data[0] & MSR_DDSR != 0); // Delta bit should be set
}

#[test]
fn test_serial_interrupts() {
    let (mut serial, irq, _) = setup_serial();

    // Enable RDA interrupt and MCR.OUT2
    serial.write(REG_IER_DLM, &[IER_ERBFI]);
    serial.write(REG_MCR, &[MCR_OUT2]);
    assert!(!irq.get());

    // Inject data, should trigger IRQ
    serial.inject_rx(b"X");
    assert!(irq.get());

    // Read IIR, should show RDA
    let mut data = [0u8; 1];
    serial.read(REG_IIR_FCR, &mut data);
    assert_eq!(data[0] & 0x0f, IIR_RDA);

    // Read RBR, IRQ should clear
    serial.read(REG_RBR_THR_DLL, &mut data);
    assert!(!irq.get());
}

#[test]
fn test_serial_fifo_overrun() {
    let (mut serial, _, _) = setup_serial();
    serial.write(REG_IIR_FCR, &[FCR_ENABLE]);

    let mut data = [0u8; 1];
    for i in 0..FIFO_CAP {
        serial.inject_rx(&[i as u8]);
    }
    // LSR should NOT have OE yet
    serial.read(REG_LSR, &mut data);
    assert!(data[0] & LSR_OE == 0);

    // One more byte triggers overrun
    serial.inject_rx(b"!");
    serial.read(REG_LSR, &mut data);
    assert!(data[0] & LSR_OE != 0);
}

#[test]
fn transmitted_bytes_reach_the_output() {
    let (mut serial, _, out) = setup_serial();
    serial.write(REG_RBR_THR_DLL, b"h");
    serial.write(REG_RBR_THR_DLL, b"i");
    assert_eq!(*out.lock().unwrap(), b"hi".to_vec());
}

#[test]
fn scratch_register_reads_back() {
    let (mut serial, _, _) = setup_serial();
    serial.write(REG_SCR, &[0x5a]);
    let mut data = [0u8; 1];
    serial.read(REG_SCR, &mut data);
    assert_eq!(data[0], 0x5a);
}

#[test]
fn wide_reads_pad_with_ff() {
    let (mut serial, _, _) = setup_serial();
    serial.write(REG_SCR, &[0x11]);
    let mut data = [0u8; 3];
    serial.read(REG_SCR, &mut data);
    assert_eq!(data, [0x11, 0xff, 0xff]);
}

#[test]
fn lsr_read_clears_overrun() {
    let (mut serial, _, _) = setup_serial();
    for _ in 0..=FIFO_CAP {
        serial.inject_rx(b"z");
    }
    let mut data = [0u8; 1];
    serial.read(REG_LSR, &mut data);
    assert!(data[0] & LSR_OE != 0);
    serial.read(REG_LSR, &mut data);
    assert!(data[0] & LSR_OE == 0);
}

#[test]
fn fifo_trigger_levels() {
    assert_eq!(trigger_bytes(0), 1);
    assert_eq!(trigger_bytes(1), 4);
    assert_eq!(trigger_bytes(2), 8);
    assert_eq!(trigger_bytes(3), 14);
}

#[test]
fn injected_bytes_come_out_in_order() {
    let (mut serial, _, _) = setup_serial();
    serial.inject_rx(b"ab");
    let mut data = [0u8; 1];
    serial.read(REG_RBR_THR_DLL, &mut data);
    assert_eq!(data[0], b'a');
    serial.read(REG_RBR_THR_DLL, &mut data);
    assert_eq!(data[0], b'b');
}

/// A sink that keeps every level it is handed.
struct LevelLog(Mutex<Vec<bool>>);

impl IrqSink for LevelLog {
    fn set_level(&self, asserted: bool) {
        self.0.lock().unwrap().push(asserted);
    }
}

#[test]
fn test_serial_signals_edges_only() {
    let log = Arc::new(LevelLog(Mutex::new(Vec::new())));
    let mut serial = Serial::new(Box::new(OutWrapper(Arc::new(Mutex::new(Vec::new())))), Box::new(log.clone()));
    // Receive-data interrupt enabled but OUT2 off: no call.
    serial.write(REG_IER_DLM, &[IER_ERBFI]);
    serial.inject_rx(b"a");
    assert!(log.0.lock().unwrap().is_empty());
    // OUT2 on with data pending: one assertion.
    serial.write(REG_MCR, &[MCR_OUT2]);
    assert_eq!(*log.0.lock().unwrap(), vec![true]);
    // More data keeps the line up: no further call.
    serial.inject_rx(b"b");
    assert_eq!(*log.0.lock().unwrap(), vec![true]);
    // Draining the FIFO drops the line once.
    let mut d = [0u8; 1];
    serial.read(REG_RBR_THR_DLL, &mut d);
    serial.read(REG_RBR_THR_DLL, &mut d);
    assert_eq!(*log.0.lock().unwrap(), vec![true, false]);
}

#[test]
fn test_serial_loopback_inject_leaves_sink_alone() {
    let log = Arc::new(LevelLog(Mutex::new(Vec::new())));
    let mut serial = Serial::new(Box::new(OutWrapper(Arc::new(Mutex::new(Vec::new())))), Box::new(log.clone()));
    serial.write(REG_IER_DLM, &[IER_ERBFI]);
    serial.write(REG_MCR, &[MCR_LOOPBACK | MCR_OUT2]);
    let before = log.0.lock().unwrap().clone();
    serial.inject_rx(b"xyz");
    assert_eq!(*log.0.lock().unwrap(), before);
    let mut d = [0u8; 1];
    serial.read(REG_LSR, &mut d);
    assert_eq!(d[0] & 0x01, 0);
}

#[test]
fn test_attach_irq_passes_refusal_on() {
    let (mut serial, irq, _) = setup_serial();
    let r = ferrvm::serial::attach_irq(&mut serial, Err("no such line".to_string()));
    assert_eq!(r, Err("no such line".to_string()));
    assert!(!irq.get());
    let log = Arc::new(LevelLog(Mutex::new(Vec::new())));
    assert_eq!(ferrvm::serial::attach_irq(&mut serial, Ok(Box::new(log.clone()))), Ok(()));
    assert!(log.0.lock().unwrap().is_empty());
}
