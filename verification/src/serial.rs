//! 16550A UART device model.
//!
//! Implements the programming-visible register set: RBR/THR, IER, IIR, FCR,
//! LCR, MCR, LSR, MSR, SCR, plus the DLAB-banked DLL/DLM. The register file is
//! described by [`UartState`]; every access is specified as a transition of
//! that state, and the interrupt line always equals [`uart_line`] of it.
use std::collections::VecDeque;
use std::time::Instant;
use vstd::prelude::*;

use crate::bus::{BusAccess, BusDevice};
use crate::traits::Vm;

verus! {

// ---- Register offsets (DLAB=0 unless noted) --------------------------------
pub const REG_RBR_THR_DLL: u64 = 0;
pub const REG_IER_DLM: u64 = 1;
pub const REG_IIR_FCR: u64 = 2;
pub const REG_LCR: u64 = 3;
pub const REG_MCR: u64 = 4;
pub const REG_LSR: u64 = 5;
pub const REG_MSR: u64 = 6;
pub const REG_SCR: u64 = 7;

// ---- IER bits --------------------------------------------------------------
pub const IER_ERBFI: u8 = 0x01;
pub const IER_ETBEI: u8 = 0x02;
pub const IER_ELSI: u8 = 0x04;
pub const IER_EDSSI: u8 = 0x08;
pub const IER_MASK: u8 = 0x0f;

// ---- IIR identification codes (bit 0 = 0 means "pending") -----------------
pub const IIR_NONE: u8 = 0x01;
pub const IIR_RLS: u8 = 0x06;
pub const IIR_RDA: u8 = 0x04;
pub const IIR_CTI: u8 = 0x0c;
pub const IIR_THRE: u8 = 0x02;
pub const IIR_MS: u8 = 0x00;
/// Bits 6-7 read as 11 when the FIFOs are enabled (16550A).
pub const IIR_FIFO_ENABLED: u8 = 0xc0;

// ---- FCR bits (write-only) -------------------------------------------------
pub const FCR_ENABLE: u8 = 0x01;
pub const FCR_CLEAR_RX: u8 = 0x02;
pub const FCR_CLEAR_TX: u8 = 0x04;

// ---- LCR bits --------------------------------------------------------------
pub const LCR_DLAB: u8 = 0x80;

// ---- MCR bits --------------------------------------------------------------
pub const MCR_DTR: u8 = 0x01;
pub const MCR_RTS: u8 = 0x02;
pub const MCR_OUT1: u8 = 0x04;
pub const MCR_OUT2: u8 = 0x08;
pub const MCR_LOOPBACK: u8 = 0x10;
pub const MCR_MASK: u8 = 0x1f;

// ---- LSR bits --------------------------------------------------------------
pub const LSR_DR: u8 = 0x01;
pub const LSR_OE: u8 = 0x02;
pub const LSR_THRE: u8 = 0x20;
pub const LSR_TEMT: u8 = 0x40;

// ---- MSR bits --------------------------------------------------------------
pub const MSR_DCTS: u8 = 0x01;
pub const MSR_DDSR: u8 = 0x02;
pub const MSR_TERI: u8 = 0x04;
pub const MSR_DDCD: u8 = 0x08;
pub const MSR_CTS: u8 = 0x10;
pub const MSR_DSR: u8 = 0x20;
pub const MSR_RI: u8 = 0x40;
pub const MSR_DCD: u8 = 0x80;
pub const MSR_DELTAS: u8 = 0x0f;
/// Always-connected default: CTS|DSR|DCD asserted, RI deasserted.
pub const MSR_CONNECTED_DEFAULT: u8 = 0xb0;

/// Capacity of the receive FIFO.
pub const FIFO_CAP: usize = 4096;

/// How long (in nanoseconds) the RX FIFO must be idle before a character
/// timeout fires.
pub const CTI_TIMEOUT_NANOS: u128 = 1_000_000;

/// Bytes needed in the RX FIFO for a given 2-bit FCR trigger code
/// (NS16550A: 00 = 1, 01 = 4, 10 = 8, 11 = 14).
pub open spec fn spec_trigger_bytes(code: u8) -> nat {
    let c = code % 4;
    if c == 0 {
        1
    } else if c == 1 {
        4
    } else if c == 2 {
        8
    } else {
        14
    }
}

/// Translate the 2-bit FCR RX trigger code (bits 7:6) to a byte count.
pub fn trigger_bytes(code: u8) -> (r: usize)
    ensures
        r == spec_trigger_bytes(code),
{
    let c = code & 0x03;
    assert(c == code % 4) by (bit_vector)
        requires
            c == code & 0x03,
    ;
    match c {
        0 => 1,
        1 => 4,
        2 => 8,
        _ => 14,
    }
}

/// Abstracts the mechanism that delivers a line-level interrupt to the guest.
pub trait IrqSink: Send + Sync {
    fn set_level(&self, asserted: bool);
}

/// No-op sink used as default.
pub struct NullIrqSink;

impl IrqSink for NullIrqSink {
    fn set_level(&self, _asserted: bool) {
    }
}

impl<T: IrqSink> IrqSink for std::sync::Arc<T> {
    fn set_level(&self, asserted: bool) {
        (**self).set_level(asserted);
    }
}

/// Receives the bytes the guest transmits.
pub trait ByteOut: Send {
    fn write_byte(&mut self, byte: u8);
}

#[verifier::external_type_specification]
#[verifier::external_body]
pub struct ExInstant(Instant);

/// `std::time::Instant::now`. Nothing is promised about the value.
#[verifier::external_body]
fn instant_now() -> Instant {
    Instant::now()
}

/// Nanoseconds elapsed since `t` (`Instant::elapsed`, converted by
/// `Duration::as_nanos`). The value depends on the clock; nothing is promised.
#[verifier::external_body]
fn nanos_since(t: &Instant) -> u128 {
    t.elapsed().as_nanos()
}

/// The programming-visible state of the UART.
pub struct UartState {
    pub ier: u8,
    pub lcr: u8,
    pub mcr: u8,
    pub scr: u8,
    pub dll: u8,
    pub dlm: u8,
    /// Bit 0 of the last FCR write.
    pub fcr_enabled: bool,
    /// Bits 7:6 of the last FCR write.
    pub rx_trigger: u8,
    pub msr: u8,
    /// Receive FIFO, oldest byte first.
    pub rx: Seq<u8>,
    /// Overrun latched until LSR is read.
    pub overrun: bool,
    /// THR-empty event latched until acknowledged.
    pub thre_pending: bool,
    /// Character timeout indication.
    pub cti_pending: bool,
    /// Level last driven onto the interrupt line.
    pub irq_line: bool,
}

/// Power-on state.
pub open spec fn uart_reset_state() -> UartState {
    UartState {
        ier: 0,
        lcr: 0,
        mcr: 0,
        scr: 0,
        dll: 0,
        dlm: 0,
        fcr_enabled: false,
        rx_trigger: 0,
        msr: MSR_CONNECTED_DEFAULT,
        rx: Seq::empty(),
        overrun: false,
        thre_pending: false,
        cti_pending: false,
        irq_line: false,
    }
}

pub open spec fn uart_dlab(s: UartState) -> bool {
    s.lcr & LCR_DLAB != 0
}

pub open spec fn uart_loopback(s: UartState) -> bool {
    s.mcr & MCR_LOOPBACK != 0
}

/// Bytes in the FIFO needed to raise "received data available".
pub open spec fn uart_rx_threshold(s: UartState) -> nat {
    if s.fcr_enabled {
        spec_trigger_bytes(s.rx_trigger)
    } else {
        1
    }
}

/// The single highest-priority pending interrupt source, as an IIR code:
/// RLS > RDA/CTI > THRE > MS.
pub open spec fn uart_pending(s: UartState) -> Option<u8> {
    if s.ier & IER_ELSI != 0 && s.overrun {
        Some(IIR_RLS)
    } else if s.ier & IER_ERBFI != 0 && s.rx.len() >= uart_rx_threshold(s) {
        Some(IIR_RDA)
    } else if s.ier & IER_ERBFI != 0 && s.cti_pending && s.rx.len() > 0 {
        Some(IIR_CTI)
    } else if s.ier & IER_ETBEI != 0 && s.thre_pending {
        Some(IIR_THRE)
    } else if s.ier & IER_EDSSI != 0 && s.msr & MSR_DELTAS != 0 {
        Some(IIR_MS)
    } else {
        None
    }
}

/// The interrupt line: some source is pending and MCR.OUT2 ungates it.
pub open spec fn uart_line(s: UartState) -> bool {
    s.mcr & MCR_OUT2 != 0 && uart_pending(s) is Some
}

/// The state after the line has been re-evaluated.
pub open spec fn uart_settle(s: UartState) -> UartState {
    UartState { irq_line: uart_line(s), ..s }
}

/// MSR current-state bits mirrored from MCR in loopback:
/// DTR -> DSR, RTS -> CTS, OUT1 -> RI, OUT2 -> DCD.
pub open spec fn loopback_msr_state(mcr: u8) -> u8 {
    (if mcr & MCR_DTR != 0 { MSR_DSR } else { 0u8 }) | (if mcr & MCR_RTS != 0 {
        MSR_CTS
    } else {
        0u8
    }) | (if mcr & MCR_OUT1 != 0 { MSR_RI } else { 0u8 }) | (if mcr & MCR_OUT2 != 0 {
        MSR_DCD
    } else {
        0u8
    })
}

/// Delta bits raised by a change of the MSR current-state bits.
pub open spec fn msr_delta_bits(old_msr: u8, new_state: u8) -> u8 {
    (if (old_msr & MSR_CTS != 0) != (new_state & MSR_CTS != 0) { MSR_DCTS } else { 0u8 }) | (if (
    old_msr & MSR_DSR != 0) != (new_state & MSR_DSR != 0) {
        MSR_DDSR
    } else {
        0u8
    }) | (if (old_msr & MSR_RI != 0) != (new_state & MSR_RI != 0) { MSR_TERI } else { 0u8 }) | (
    if (old_msr & MSR_DCD != 0) != (new_state & MSR_DCD != 0) {
        MSR_DDCD
    } else {
        0u8
    })
}

/// Effect of an MCR write (before the line is re-evaluated).
pub open spec fn uart_mcr_written(s: UartState, value: u8) -> UartState {
    let m = value & MCR_MASK;
    let was = uart_loopback(s);
    let is = m & MCR_LOOPBACK != 0;
    if is {
        let ns = loopback_msr_state(m);
        let msr = ns | (s.msr & MSR_DELTAS) | msr_delta_bits(s.msr, ns);
        if !was {
            UartState { mcr: m, msr, rx: Seq::empty(), cti_pending: false, ..s }
        } else {
            UartState { mcr: m, msr, ..s }
        }
    } else if was {
        UartState { mcr: m, msr: MSR_CONNECTED_DEFAULT | (s.msr & MSR_DELTAS), ..s }
    } else {
        UartState { mcr: m, ..s }
    }
}

/// Effect of an FCR write (before the line is re-evaluated).
pub open spec fn uart_fcr_written(s: UartState, value: u8) -> UartState {
    let enabled = value & FCR_ENABLE != 0;
    let turning_on = enabled && !s.fcr_enabled;
    let s1 = UartState { fcr_enabled: enabled, rx_trigger: (value >> 6u8) & 0x03u8, ..s };
    if turning_on || value & FCR_CLEAR_RX != 0 {
        UartState { rx: Seq::empty(), cti_pending: false, ..s1 }
    } else {
        s1
    }
}

/// Effect of a THR write (before the line is re-evaluated). In loopback the
/// byte is queued on RX (or overruns); otherwise it is transmitted.
pub open spec fn uart_thr_written(s: UartState, byte: u8) -> UartState {
    let s1 = if uart_loopback(s) {
        if s.rx.len() >= FIFO_CAP {
            UartState { overrun: true, ..s }
        } else {
            UartState { rx: s.rx.push(byte), ..s }
        }
    } else {
        s
    };
    UartState { thre_pending: true, ..s1 }
}

/// The state after a guest write of `value` at register `offset`.
pub open spec fn uart_write(s: UartState, offset: u64, value: u8) -> UartState {
    if offset == REG_RBR_THR_DLL {
        if uart_dlab(s) {
            UartState { dll: value, ..s }
        } else {
            uart_settle(uart_thr_written(s, value))
        }
    } else if offset == REG_IER_DLM {
        if uart_dlab(s) {
            UartState { dlm: value, ..s }
        } else {
            uart_settle(UartState { ier: value & IER_MASK, ..s })
        }
    } else if offset == REG_IIR_FCR {
        uart_settle(uart_fcr_written(s, value))
    } else if offset == REG_LCR {
        UartState { lcr: value, ..s }
    } else if offset == REG_MCR {
        uart_settle(uart_mcr_written(s, value))
    } else if offset == REG_SCR {
        UartState { scr: value, ..s }
    } else {
        s
    }
}

/// The byte a guest write hands to the output, if any.
pub open spec fn uart_write_transmits(s: UartState, offset: u64, value: u8) -> Option<u8> {
    if offset == REG_RBR_THR_DLL && !uart_dlab(s) && !uart_loopback(s) {
        Some(value)
    } else {
        None
    }
}

/// The LSR value: THRE and TEMT always set, DR when RX holds data, OE when
/// an overrun is latched.
pub open spec fn uart_lsr(s: UartState) -> u8 {
    LSR_THRE | LSR_TEMT | (if s.rx.len() > 0 { LSR_DR } else { 0u8 }) | (if s.overrun {
        LSR_OE
    } else {
        0u8
    })
}

/// The IIR value: the pending code (or "none"), plus the FIFO-enabled bits.
pub open spec fn uart_iir(s: UartState) -> u8 {
    (match uart_pending(s) {
        Some(c) => c,
        None => IIR_NONE,
    }) | (if s.fcr_enabled { IIR_FIFO_ENABLED } else { 0u8 })
}

/// The value a guest read at register `offset` returns.
pub open spec fn uart_read_value(s: UartState, offset: u64) -> u8 {
    if offset == REG_RBR_THR_DLL {
        if uart_dlab(s) {
            s.dll
        } else if s.rx.len() > 0 {
            s.rx[0]
        } else {
            0
        }
    } else if offset == REG_IER_DLM {
        if uart_dlab(s) {
            s.dlm
        } else {
            s.ier
        }
    } else if offset == REG_IIR_FCR {
        uart_iir(s)
    } else if offset == REG_LCR {
        s.lcr
    } else if offset == REG_MCR {
        s.mcr
    } else if offset == REG_LSR {
        uart_lsr(s)
    } else if offset == REG_MSR {
        s.msr
    } else if offset == REG_SCR {
        s.scr
    } else {
        0xff
    }
}

/// The state after a guest read at register `offset`: RBR pops the FIFO,
/// IIR acknowledges a THRE interrupt, LSR clears the overrun, MSR clears the
/// delta bits.
pub open spec fn uart_read_state(s: UartState, offset: u64) -> UartState {
    if offset == REG_RBR_THR_DLL && !uart_dlab(s) {
        let rx = if s.rx.len() > 0 { s.rx.drop_first() } else { s.rx };
        uart_settle(UartState { rx, cti_pending: if rx.len() == 0 { false } else { s.cti_pending }, ..s })
    } else if offset == REG_IIR_FCR {
        if uart_pending(s) == Some(IIR_THRE) {
            uart_settle(UartState { thre_pending: false, ..s })
        } else {
            s
        }
    } else if offset == REG_LSR {
        uart_settle(UartState { overrun: false, ..s })
    } else if offset == REG_MSR {
        uart_settle(UartState { msr: s.msr & !MSR_DELTAS, ..s })
    } else {
        s
    }
}

/// The state after `bytes` arrive from the host. In loopback the line is
/// disconnected and nothing changes; otherwise bytes are queued until the
/// FIFO is full, and an overrun is latched if any had to be dropped.
pub open spec fn uart_injected(s: UartState, bytes: Seq<u8>) -> UartState {
    if uart_loopback(s) {
        s
    } else {
        let room = FIFO_CAP - s.rx.len();
        if bytes.len() <= room {
            uart_settle(UartState { rx: s.rx + bytes, cti_pending: false, ..s })
        } else {
            uart_settle(
                UartState { rx: s.rx + bytes.take(room), overrun: true, cti_pending: false, ..s },
            )
        }
    }
}

/// Whether a character timeout may fire: residual bytes below the trigger
/// level with the FIFOs enabled.
pub open spec fn uart_cti_armed(s: UartState) -> bool {
    s.rx.len() > 0 && s.fcr_enabled && s.rx.len() < spec_trigger_bytes(s.rx_trigger)
}

/// Invariant of a reachable state: the FIFO is within capacity, the
/// trigger code is two bits wide, and the line equals [`uart_line`].
pub open spec fn uart_wf(s: UartState) -> bool {
    &&& s.rx.len() <= FIFO_CAP
    &&& s.rx_trigger <= 3
    &&& s.irq_line == uart_line(s)
}

/// The levels a sink has been handed after the line went from `before` to
/// `after`: a level is signalled only when the line changed.
pub open spec fn line_levels(levels: Seq<bool>, before: bool, after: bool) -> Seq<bool> {
    if before == after {
        levels
    } else {
        levels.push(after)
    }
}

/// Levels handed to one sink: each differs from the one before (only edges
/// are signalled), the first is an assertion, and the last is the line.
pub open spec fn edges_only(levels: Seq<bool>, line: bool) -> bool {
    &&& forall|i: int| 0 <= i < levels.len() - 1 ==> #[trigger] levels[i] != levels[i + 1]
    &&& levels.len() > 0 ==> levels[0]
    &&& levels.len() > 0 ==> levels.last() == line
    &&& levels.len() == 0 ==> !line
}

struct Uart {
    ier: u8,
    lcr: u8,
    mcr: u8,
    scr: u8,
    dll: u8,
    dlm: u8,
    fcr_enabled: bool,
    rx_trigger: u8,
    msr: u8,
    rx: VecDeque<u8>,
    overrun: bool,
    thre_pending: bool,
    cti_pending: bool,
    /// Last RX FIFO activity (inject or RBR read), for the CTI timer.
    last_rx_activity: Instant,
    last_irq_level: bool,
    out: Box<dyn ByteOut>,
    irq: Box<dyn IrqSink>,
    /// Bytes handed to `out`, in order.
    sent: Ghost<Seq<u8>>,
    /// Levels handed to the current `irq` sink, in order.
    levels: Ghost<Seq<bool>>,
}

impl Uart {
    closed spec fn view(&self) -> UartState {
        UartState {
            ier: self.ier,
            lcr: self.lcr,
            mcr: self.mcr,
            scr: self.scr,
            dll: self.dll,
            dlm: self.dlm,
            fcr_enabled: self.fcr_enabled,
            rx_trigger: self.rx_trigger,
            msr: self.msr,
            rx: self.rx@,
            overrun: self.overrun,
            thre_pending: self.thre_pending,
            cti_pending: self.cti_pending,
            irq_line: self.last_irq_level,
        }
    }

    closed spec fn sent(&self) -> Seq<u8> {
        self.sent@
    }

    closed spec fn levels(&self) -> Seq<bool> {
        self.levels@
    }

    closed spec fn wf(&self) -> bool {
        uart_wf(self.view()) && edges_only(self.levels(), self.view().irq_line)
    }

    fn new(out: Box<dyn ByteOut>, irq: Box<dyn IrqSink>) -> (r: Uart)
        ensures
            r.view() == uart_reset_state(),
            r.wf(),
            r.sent() == Seq::<u8>::empty(),
            r.levels() == Seq::<bool>::empty(),
    {
        let r = Uart {
            ier: 0,
            lcr: 0,
            mcr: 0,
            scr: 0,
            dll: 0,
            dlm: 0,
            fcr_enabled: false,
            rx_trigger: 0,
            msr: MSR_CONNECTED_DEFAULT,
            rx: VecDeque::with_capacity(FIFO_CAP),
            overrun: false,
            thre_pending: false,
            cti_pending: false,
            last_rx_activity: instant_now(),
            last_irq_level: false,
            out,
            irq,
            sent: Ghost(Seq::empty()),
            levels: Ghost(Seq::empty()),
        };
        assert(r.view().rx =~= Seq::<u8>::empty());
        assert(0u8 & 0x08u8 == 0) by (bit_vector);
        r
    }

    /// Host -> guest: push bytes into the RX FIFO. Dropped with overrun if
    /// full.
    fn inject_rx(&mut self, bytes: &[u8])
        requires
            old(self).wf(),
        ensures
            final(self).wf(),
            final(self).levels() == line_levels(old(self).levels(), old(self).view().irq_line, final(self).view().irq_line),
            final(self).view() == uart_injected(old(self).view(), bytes@),
            final(self).sent() == old(self).sent(),
    {
        if self.mcr & MCR_LOOPBACK != 0 {
            return;
        }
        let ghost s0 = self.view();
        let mut i: usize = 0;
        let mut full = false;
        let n = bytes.len();
        while i < n && !full
            invariant
                n == bytes@.len(),
                0 <= i <= n,
                s0.rx.len() <= FIFO_CAP,
                self.rx@ == s0.rx + bytes@.take(i as int),
                self.rx@.len() == s0.rx.len() + i,
                self.rx@.len() <= FIFO_CAP,
                full ==> self.rx@.len() == FIFO_CAP && i < n,
                self.overrun == (s0.overrun || full),
                self.mcr == s0.mcr && self.ier == s0.ier && self.lcr == s0.lcr && self.scr == s0.scr
                    && self.dll == s0.dll && self.dlm == s0.dlm && self.fcr_enabled == s0.fcr_enabled
                    && self.rx_trigger == s0.rx_trigger && self.msr == s0.msr && self.thre_pending
                    == s0.thre_pending && self.cti_pending == s0.cti_pending && self.last_irq_level
                    == s0.irq_line,
                self.sent@ == old(self).sent@,
                self.levels@ == old(self).levels@,
            decreases n - i + (if full { 0int } else { 1int }),
        {
            if self.rx.len() >= FIFO_CAP {
                self.overrun = true;
                full = true;
            } else {
                self.rx.push_back(bytes[i]);
                proof {
                    assert(bytes@.take(i + 1) == bytes@.take(i as int).push(bytes@[i as int]));
                }
                i = i + 1;
            }
        }
        proof {
            let room = FIFO_CAP - s0.rx.len();
            if !full {
                assert(bytes@.take(n as int) == bytes@);
            } else {
                assert(i == room);
            }
        }
        self.last_rx_activity = instant_now();
        self.cti_pending = false;
        self.update_irq();
    }

    /// Periodic timeout from the input driver: if RX has residual bytes
    /// below the trigger and the FIFO has been idle long enough, CTI fires.
    /// Returns true if this tick changed the interrupt state.
    fn tick_cti(&mut self) -> (changed: bool)
        requires
            old(self).wf(),
        ensures
            final(self).wf(),
            final(self).levels() == line_levels(old(self).levels(), old(self).view().irq_line, final(self).view().irq_line),
            final(self).sent() == old(self).sent(),
            final(self).view() == uart_settle(UartState { cti_pending: true, ..old(self).view() })
                || final(self).view() == old(self).view(),
            final(self).view() != old(self).view() ==> uart_cti_armed(old(self).view()),
            changed == (final(self).view().cti_pending != old(self).view().cti_pending),
    {
        let armed = self.rx.len() > 0 && self.fcr_enabled && self.rx.len() < trigger_bytes(
            self.rx_trigger,
        );
        let idle = armed && nanos_since(&self.last_rx_activity) >= CTI_TIMEOUT_NANOS;
        self.tick_cti_idle(idle)
    }

    /// The CTI decision once the idle time is known: `idle` tells whether
    /// the FIFO has been idle for the timeout.
    fn tick_cti_idle(&mut self, idle: bool) -> (changed: bool)
        requires
            old(self).wf(),
        ensures
            final(self).wf(),
            final(self).levels() == line_levels(old(self).levels(), old(self).view().irq_line, final(self).view().irq_line),
            final(self).sent() == old(self).sent(),
            final(self).view() == (if uart_cti_armed(old(self).view()) && idle && !old(self).view().cti_pending {
                uart_settle(UartState { cti_pending: true, ..old(self).view() })
            } else {
                old(self).view()
            }),
            changed == (uart_cti_armed(old(self).view()) && idle && !old(self).view().cti_pending),
    {
        let was = self.cti_pending;
        if self.rx.len() > 0 && self.fcr_enabled && self.rx.len() < trigger_bytes(self.rx_trigger)
            && idle {
            self.cti_pending = true;
        }
        let changed = was != self.cti_pending;
        if changed {
            self.update_irq();
        }
        changed
    }

    /// Replace the IRQ sink; the line is re-evaluated against the new sink.
    fn replace_irq_sink(&mut self, sink: Box<dyn IrqSink>)
        requires
            old(self).wf(),
        ensures
            final(self).wf(),
            final(self).view() == old(self).view(),
            final(self).sent() == old(self).sent(),
            final(self).levels() == (if old(self).view().irq_line {
                seq![true]
            } else {
                Seq::<bool>::empty()
            }),
    {
        self.last_irq_level = false;
        self.irq = sink;
        self.levels = Ghost(Seq::empty());
        self.update_irq();
    }

    fn dlab(&self) -> (r: bool)
        ensures
            r == uart_dlab(self.view()),
    {
        self.lcr & LCR_DLAB != 0
    }

    /// Compute LSR on read; reading clears the latched overrun.
    fn read_lsr(&mut self) -> (r: u8)
        requires
            old(self).wf(),
        ensures
            final(self).wf(),
            final(self).levels() == line_levels(old(self).levels(), old(self).view().irq_line, final(self).view().irq_line),
            r == uart_lsr(old(self).view()),
            final(self).view() == uart_read_state(old(self).view(), REG_LSR),
            final(self).sent() == old(self).sent(),
    {
        let dr = if self.rx.len() > 0 {
            LSR_DR
        } else {
            0u8
        };
        let oe = if self.overrun {
            LSR_OE
        } else {
            0u8
        };
        let lsr = LSR_THRE | LSR_TEMT | dr | oe;
        self.overrun = false;
        self.update_irq();
        lsr
    }

    /// The single highest-priority pending interrupt source.
    fn pending_interrupt(&self) -> (r: Option<u8>)
        ensures
            r == uart_pending(self.view()),
    {
        if self.ier & IER_ELSI != 0 && self.overrun {
            return Some(IIR_RLS);
        }
        if self.ier & IER_ERBFI != 0 {
            let trig = if self.fcr_enabled {
                trigger_bytes(self.rx_trigger)
            } else {
                1
            };
            if self.rx.len() >= trig {
                return Some(IIR_RDA);
            }
            if self.cti_pending && self.rx.len() > 0 {
                return Some(IIR_CTI);
            }
        }
        if self.ier & IER_ETBEI != 0 && self.thre_pending {
            return Some(IIR_THRE);
        }
        if self.ier & IER_EDSSI != 0 && self.msr & MSR_DELTAS != 0 {
            return Some(IIR_MS);
        }
        None
    }

    /// Re-evaluate the line and signal the sink, but only on edges.
    fn update_irq(&mut self)
        requires
            uart_wf(UartState { irq_line: uart_line(old(self).view()), ..old(self).view() }),
            edges_only(old(self).levels(), old(self).view().irq_line),
        ensures
            final(self).view() == uart_settle(old(self).view()),
            final(self).wf(),
            final(self).sent() == old(self).sent(),
            final(self).levels() == (if old(self).view().irq_line == uart_line(old(self).view()) {
                old(self).levels()
            } else {
                old(self).levels().push(uart_line(old(self).view()))
            }),
    {
        let gated = self.mcr & MCR_OUT2 == 0;
        let asserted = !gated && self.pending_interrupt().is_some();
        if asserted != self.last_irq_level {
            self.last_irq_level = asserted;
            self.irq.set_level(asserted);
            self.levels = Ghost(self.levels@.push(asserted));
        }
    }

    /// Read IIR; reading it acknowledges a THR-empty interrupt.
    fn read_iir(&mut self) -> (r: u8)
        requires
            old(self).wf(),
        ensures
            final(self).wf(),
            final(self).levels() == line_levels(old(self).levels(), old(self).view().irq_line, final(self).view().irq_line),
            r == uart_iir(old(self).view()),
            final(self).view() == uart_read_state(old(self).view(), REG_IIR_FCR),
            final(self).sent() == old(self).sent(),
    {
        let id = match self.pending_interrupt() {
            Some(c) => c,
            None => IIR_NONE,
        };
        if id == IIR_THRE {
            self.thre_pending = false;
            self.update_irq();
        }
        let fifo_bits = if self.fcr_enabled {
            IIR_FIFO_ENABLED
        } else {
            0
        };
        id | fifo_bits
    }

    /// THR write: either transmit to the host, or loop back into RX.
    fn write_thr(&mut self, byte: u8)
        requires
            old(self).wf(),
        ensures
            final(self).wf(),
            final(self).levels() == line_levels(old(self).levels(), old(self).view().irq_line, final(self).view().irq_line),
            final(self).view() == uart_settle(uart_thr_written(old(self).view(), byte)),
            final(self).sent() == (if uart_loopback(old(self).view()) {
                old(self).sent()
            } else {
                old(self).sent().push(byte)
            }),
    {
        if self.mcr & MCR_LOOPBACK != 0 {
            if self.rx.len() >= FIFO_CAP {
                self.overrun = true;
            } else {
                self.rx.push_back(byte);
            }
        } else {
            self.out.write_byte(byte);
            self.sent = Ghost(self.sent@.push(byte));
        }
        self.thre_pending = true;
        self.update_irq();
    }

    fn write_fcr(&mut self, value: u8)
        requires
            old(self).wf(),
        ensures
            final(self).wf(),
            final(self).levels() == line_levels(old(self).levels(), old(self).view().irq_line, final(self).view().irq_line),
            final(self).view() == uart_settle(uart_fcr_written(old(self).view(), value)),
            final(self).sent() == old(self).sent(),
    {
        let enabled = value & FCR_ENABLE != 0;
        let transitioning_on = enabled && !self.fcr_enabled;
        self.fcr_enabled = enabled;
        self.rx_trigger = (value >> 6u8) & 0x03u8;
        assert((value >> 6u8) & 0x03u8 <= 3) by (bit_vector);
        if transitioning_on || value & FCR_CLEAR_RX != 0 {
            self.rx.clear();
            self.cti_pending = false;
        }
        self.update_irq();
    }

    fn write_mcr(&mut self, value: u8)
        requires
            old(self).wf(),
        ensures
            final(self).wf(),
            final(self).levels() == line_levels(old(self).levels(), old(self).view().irq_line, final(self).view().irq_line),
            final(self).view() == uart_settle(uart_mcr_written(old(self).view(), value)),
            final(self).sent() == old(self).sent(),
    {
        let was_loopback = self.mcr & MCR_LOOPBACK != 0;
        self.mcr = value & MCR_MASK;
        let is_loopback = self.mcr & MCR_LOOPBACK != 0;
        if is_loopback {
            let m = self.mcr;
            let new_msr_state = ((m & MCR_DTR) << 5u8) | ((m & MCR_RTS) << 3u8) | ((m & MCR_OUT1)
                << 4u8) | ((m & MCR_OUT2) << 4u8);
            assert(new_msr_state == loopback_msr_state(m)) by (bit_vector)
                requires
                    new_msr_state == ((m & 0x01u8) << 5u8) | ((m & 0x02u8) << 3u8) | ((m & 0x04u8)
                        << 4u8) | ((m & 0x08u8) << 4u8),
            ;
            let old_state = self.msr & 0xf0;
            let deltas = old_state ^ new_msr_state;
            let d_cts = if deltas & MSR_CTS != 0 {
                MSR_DCTS
            } else {
                0u8
            };
            let d_dsr = if deltas & MSR_DSR != 0 {
                MSR_DDSR
            } else {
                0u8
            };
            let d_ri = if deltas & MSR_RI != 0 {
                MSR_TERI
            } else {
                0u8
            };
            let d_dcd = if deltas & MSR_DCD != 0 {
                MSR_DDCD
            } else {
                0u8
            };
            let delta_bits = d_cts | d_dsr | d_ri | d_dcd;
            let msr0 = self.msr;
            assert(delta_bits == msr_delta_bits(msr0, new_msr_state)) by (bit_vector)
                requires
                    deltas == (msr0 & 0xf0u8) ^ new_msr_state,
                    delta_bits == (if deltas & 0x10u8 != 0 { 0x01u8 } else { 0u8 }) | (if deltas
                        & 0x20u8 != 0 {
                        0x02u8
                    } else {
                        0u8
                    }) | (if deltas & 0x40u8 != 0 { 0x04u8 } else { 0u8 }) | (if deltas & 0x80u8
                        != 0 {
                        0x08u8
                    } else {
                        0u8
                    }),
            ;
            self.msr = new_msr_state | (self.msr & MSR_DELTAS) | delta_bits;
            if !was_loopback {
                self.rx.clear();
                self.cti_pending = false;
            }
        } else if was_loopback {
            self.msr = MSR_CONNECTED_DEFAULT | (self.msr & MSR_DELTAS);
        }
        self.update_irq();
    }

    fn read_msr(&mut self) -> (r: u8)
        requires
            old(self).wf(),
        ensures
            final(self).wf(),
            final(self).levels() == line_levels(old(self).levels(), old(self).view().irq_line, final(self).view().irq_line),
            r == old(self).view().msr,
            final(self).view() == uart_read_state(old(self).view(), REG_MSR),
            final(self).sent() == old(self).sent(),
    {
        let value = self.msr;
        self.msr = self.msr & !MSR_DELTAS;
        self.update_irq();
        value
    }

    /// RBR read: pop the oldest byte (0 if empty); restarts the CTI timer.
    fn read_rbr(&mut self) -> (r: u8)
        requires
            old(self).wf(),
            !uart_dlab(old(self).view()),
        ensures
            final(self).wf(),
            final(self).levels() == line_levels(old(self).levels(), old(self).view().irq_line, final(self).view().irq_line),
            r == uart_read_value(old(self).view(), REG_RBR_THR_DLL),
            final(self).view() == uart_read_state(old(self).view(), REG_RBR_THR_DLL),
            final(self).sent() == old(self).sent(),
    {
        let b = match self.rx.pop_front() {
            Some(b) => b,
            None => 0,
        };
        self.last_rx_activity = instant_now();
        if self.rx.len() == 0 {
            self.cti_pending = false;
        }
        self.update_irq();
        b
    }
}

impl Uart {
    fn read_reg(&mut self, offset: u64, data: &mut [u8])
        requires
            old(self).wf(),
        ensures
            final(self).wf(),
            final(self).levels() == line_levels(old(self).levels(), old(self).view().irq_line, final(self).view().irq_line),
            final(data)@.len() == old(data)@.len(),
            old(data)@.len() > 0 ==> final(data)@[0] == uart_read_value(old(self).view(), offset),
            old(data)@.len() > 0 ==> final(self).view() == uart_read_state(old(self).view(), offset),
            forall|i: int| 1 <= i < final(data)@.len() ==> final(data)@[i] == 0xffu8,
            old(data)@.len() == 0 ==> final(self).view() == old(self).view() && final(data)@ == old(data)@,
            final(self).sent() == old(self).sent(),
    {
        if data.len() == 0 {
            return;
        }
        let byte = if offset == REG_RBR_THR_DLL {
            if self.dlab() {
                self.dll
            } else {
                self.read_rbr()
            }
        } else if offset == REG_IER_DLM {
            if self.dlab() {
                self.dlm
            } else {
                self.ier
            }
        } else if offset == REG_IIR_FCR {
            self.read_iir()
        } else if offset == REG_LCR {
            self.lcr
        } else if offset == REG_MCR {
            self.mcr
        } else if offset == REG_LSR {
            self.read_lsr()
        } else if offset == REG_MSR {
            self.read_msr()
        } else if offset == REG_SCR {
            self.scr
        } else {
            0xff
        };
        data[0] = byte;
        let mut i: usize = 1;
        while i < data.len()
            invariant
                1 <= i <= data@.len(),
                data@.len() == old(data)@.len(),
                data@[0] == byte,
                forall|j: int| 1 <= j < i ==> data@[j] == 0xffu8,
            decreases data@.len() - i,
        {
            data[i] = 0xff;
            i = i + 1;
        }
    }

    fn write_reg(&mut self, offset: u64, data: &[u8])
        requires
            old(self).wf(),
        ensures
            final(self).wf(),
            final(self).levels() == line_levels(old(self).levels(), old(self).view().irq_line, final(self).view().irq_line),
            data@.len() > 0 ==> final(self).view() == uart_write(old(self).view(), offset, data@[0]),
            data@.len() > 0 ==> final(self).sent() == (match uart_write_transmits(
                old(self).view(),
                offset,
                data@[0],
            ) {
                Some(b) => old(self).sent().push(b),
                None => old(self).sent(),
            }),
            data@.len() == 0 ==> final(self).view() == old(self).view() && final(self).sent() == old(self).sent(),
    {
        if data.len() == 0 {
            return;
        }
        let value = data[0];
        if offset == REG_RBR_THR_DLL {
            if self.dlab() {
                self.dll = value;
            } else {
                self.write_thr(value);
            }
        } else if offset == REG_IER_DLM {
            if self.dlab() {
                self.dlm = value;
            } else {
                self.ier = value & IER_MASK;
                self.update_irq();
            }
        } else if offset == REG_IIR_FCR {
            self.write_fcr(value);
        } else if offset == REG_LCR {
            self.lcr = value;
        } else if offset == REG_MCR {
            self.write_mcr(value);
        } else if offset == REG_SCR {
            self.scr = value;
        }
    }
}



/// Output used by the stand-in UART that occupies a [`Serial`] while its
/// register file is being updated.
struct NullOut;

impl ByteOut for NullOut {
    fn write_byte(&mut self, _byte: u8) {
    }
}

impl Uart {
    /// A power-on UART with no output and no interrupt line, used as a
    /// stand-in while the real one is being updated.
    fn placeholder() -> (u: Uart)
        ensures
            u.wf(),
    {
        let u = Uart {
            ier: 0,
            lcr: 0,
            mcr: 0,
            scr: 0,
            dll: 0,
            dlm: 0,
            fcr_enabled: false,
            rx_trigger: 0,
            msr: MSR_CONNECTED_DEFAULT,
            rx: VecDeque::new(),
            overrun: false,
            thre_pending: false,
            cti_pending: false,
            last_rx_activity: instant_now(),
            last_irq_level: false,
            out: Box::new(NullOut),
            irq: Box::new(NullIrqSink),
            sent: Ghost(Seq::empty()),
            levels: Ghost(Seq::empty()),
        };
        assert(u.view().rx =~= Seq::<u8>::empty());
        assert(0u8 & 0x08u8 == 0) by (bit_vector);
        u
    }
}

/// The 16550A UART. Its register file is `self@`; `sent()` are the bytes
/// handed to the output and `levels()` the levels handed to the current
/// interrupt sink.
pub struct Serial {
    uart: Uart,
    served: Ghost<Seq<BusAccess>>,
}

impl Serial {
    #[verifier::type_invariant]
    closed spec fn inv(self) -> bool {
        self.uart.wf()
    }

    pub closed spec fn view(&self) -> UartState {
        self.uart.view()
    }

    /// Bytes handed to the output sink so far.
    pub closed spec fn sent(&self) -> Seq<u8> {
        self.uart.sent()
    }

    /// Levels handed to the current interrupt sink so far.
    pub closed spec fn levels(&self) -> Seq<bool> {
        self.uart.levels()
    }

    pub fn new(out: Box<dyn ByteOut>, irq: Box<dyn IrqSink>) -> (r: Self)
        ensures
            r.view() == uart_reset_state(),
            r.sent() == Seq::<u8>::empty(),
            r.levels() == Seq::<bool>::empty(),
            uart_wf(r.view()),
    {
        let r = Serial { uart: Uart::new(out, irq), served: Ghost(Seq::empty()) };
        proof {
            use_type_invariant(&r);
        }
        r
    }

    /// Host -> guest: push bytes into the RX FIFO. Dropped with overrun if
    /// full.
    pub fn inject_rx(&mut self, bytes: &[u8])
        ensures
            uart_wf(old(self).view()),
            uart_wf(final(self).view()),
            edges_only(final(self).levels(), final(self).view().irq_line),
            final(self).levels() == line_levels(old(self).levels(), old(self).view().irq_line, final(self).view().irq_line),
            final(self).view() == uart_injected(old(self).view(), bytes@),
            final(self).sent() == old(self).sent(),
    {
        proof {
            use_type_invariant(&*self);
        }
        let mut u = Uart::placeholder();
        std::mem::swap(&mut u, &mut self.uart);
        u.inject_rx(bytes);
        std::mem::swap(&mut u, &mut self.uart);
    }

    /// Periodic timeout from the input driver: if RX has residual bytes
    /// below the trigger and the FIFO has been idle long enough, CTI fires.
    /// Returns true if this tick changed the interrupt state. The idle time
    /// comes from the clock, so which of the two outcomes occurs is not
    /// stated.
    pub fn tick_cti(&mut self) -> (changed: bool)
        ensures
            uart_wf(old(self).view()),
            uart_wf(final(self).view()),
            edges_only(final(self).levels(), final(self).view().irq_line),
            final(self).levels() == line_levels(old(self).levels(), old(self).view().irq_line, final(self).view().irq_line),
            final(self).sent() == old(self).sent(),
            final(self).view() == uart_settle(UartState { cti_pending: true, ..old(self).view() })
                || final(self).view() == old(self).view(),
            final(self).view() != old(self).view() ==> uart_cti_armed(old(self).view()),
            changed == (final(self).view().cti_pending != old(self).view().cti_pending),
    {
        proof {
            use_type_invariant(&*self);
        }
        let mut u = Uart::placeholder();
        std::mem::swap(&mut u, &mut self.uart);
        let r = u.tick_cti();
        std::mem::swap(&mut u, &mut self.uart);
        r
    }

    /// The CTI decision once the idle time is known: `idle` tells whether
    /// the FIFO has been idle for the timeout.
    pub fn tick_cti_idle(&mut self, idle: bool) -> (changed: bool)
        ensures
            uart_wf(old(self).view()),
            uart_wf(final(self).view()),
            edges_only(final(self).levels(), final(self).view().irq_line),
            final(self).levels() == line_levels(old(self).levels(), old(self).view().irq_line, final(self).view().irq_line),
            final(self).sent() == old(self).sent(),
            final(self).view() == (if uart_cti_armed(old(self).view()) && idle && !old(
                self,
            ).view().cti_pending {
                uart_settle(UartState { cti_pending: true, ..old(self).view() })
            } else {
                old(self).view()
            }),
            changed == (uart_cti_armed(old(self).view()) && idle && !old(self).view().cti_pending),
    {
        proof {
            use_type_invariant(&*self);
        }
        let mut u = Uart::placeholder();
        std::mem::swap(&mut u, &mut self.uart);
        let r = u.tick_cti_idle(idle);
        std::mem::swap(&mut u, &mut self.uart);
        r
    }

    /// Replace the IRQ sink; the line is re-evaluated against the new sink.
    pub fn replace_irq_sink(&mut self, sink: Box<dyn IrqSink>)
        ensures
            uart_wf(old(self).view()),
            uart_wf(final(self).view()),
            edges_only(final(self).levels(), final(self).view().irq_line),
            final(self).view() == old(self).view(),
            final(self).sent() == old(self).sent(),
            final(self).levels() == (if old(self).view().irq_line {
                seq![true]
            } else {
                Seq::<bool>::empty()
            }),
    {
        proof {
            use_type_invariant(&*self);
        }
        let mut u = Uart::placeholder();
        std::mem::swap(&mut u, &mut self.uart);
        u.replace_irq_sink(sink);
        std::mem::swap(&mut u, &mut self.uart);
    }
}

/// Wire the serial port to guest interrupt line `irq` of `vm`: the VM's
/// sink for that line replaces the current one. The port is unchanged when
/// the VM refuses the line. The VM is asked once, for `irq`; what it
/// answers is handed to [`attach_irq`].
pub fn register_serial(vm: &dyn Vm, irq: u32, serial: &mut Serial) -> (r: Result<(), String>)
    ensures
        final(serial).view() == old(serial).view(),
        final(serial).sent() == old(serial).sent(),
        r is Ok ==> final(serial).levels() == (if old(serial).view().irq_line {
            seq![true]
        } else {
            Seq::<bool>::empty()
        }),
        r is Err ==> final(serial).levels() == old(serial).levels(),
{
    let answer = vm.register_irq(irq);
    attach_irq(serial, answer)
}

/// Act on the VM's answer to a request for an interrupt sink: a sink
/// replaces the port's current one, as [`Serial::replace_irq_sink`] does;
/// a refusal is passed on unchanged and leaves the port as it was.
pub fn attach_irq(serial: &mut Serial, answer: Result<Box<dyn IrqSink>, String>) -> (r: Result<(), String>)
    ensures
        final(serial).view() == old(serial).view(),
        final(serial).sent() == old(serial).sent(),
        answer is Ok <==> r is Ok,
        answer is Err ==> r == Err::<(), String>(answer->Err_0) && final(serial).levels() == old(
            serial,
        ).levels(),
        answer is Ok ==> final(serial).levels() == (if old(serial).view().irq_line {
            seq![true]
        } else {
            Seq::<bool>::empty()
        }),
{
    match answer {
        Ok(sink) => {
            serial.replace_irq_sink(sink);
            Ok(())
        },
        Err(e) => Err(e),
    }
}

impl BusDevice for Serial {
    open spec fn obeys_access_record(&self) -> bool {
        true
    }

    closed spec fn accesses(&self) -> Seq<BusAccess> {
        self.served@
    }

    /// A byte-wide device: wider accesses read the register into the first
    /// byte and pad with 0xff.
    fn read(&mut self, offset: u64, data: &mut [u8])
        ensures
            uart_wf(old(self).view()),
            uart_wf(final(self).view()),
            edges_only(final(self).levels(), final(self).view().irq_line),
            final(self).levels() == line_levels(old(self).levels(), old(self).view().irq_line, final(self).view().irq_line),
            old(data)@.len() > 0 ==> final(data)@[0] == uart_read_value(old(self).view(), offset),
            old(data)@.len() > 0 ==> final(self).view() == uart_read_state(old(self).view(), offset),
            forall|i: int| 1 <= i < final(data)@.len() ==> final(data)@[i] == 0xffu8,
            old(data)@.len() == 0 ==> final(self).view() == old(self).view() && final(data)@ == old(
                data,
            )@,
            final(self).sent() == old(self).sent(),
    {
        proof {
            use_type_invariant(&*self);
        }
        let mut u = Uart::placeholder();
        std::mem::swap(&mut u, &mut self.uart);
        u.read_reg(offset, data);
        std::mem::swap(&mut u, &mut self.uart);        self.served = Ghost(old(self).served@.push(BusAccess { write: false, offset, data: data@ }));
    }

    fn write(&mut self, offset: u64, data: &[u8])
        ensures
            uart_wf(old(self).view()),
            uart_wf(final(self).view()),
            edges_only(final(self).levels(), final(self).view().irq_line),
            final(self).levels() == line_levels(old(self).levels(), old(self).view().irq_line, final(self).view().irq_line),
            data@.len() > 0 ==> final(self).view() == uart_write(old(self).view(), offset, data@[0]),
            data@.len() > 0 ==> final(self).sent() == (match uart_write_transmits(
                old(self).view(),
                offset,
                data@[0],
            ) {
                Some(b) => old(self).sent().push(b),
                None => old(self).sent(),
            }),
            data@.len() == 0 ==> final(self).view() == old(self).view() && final(self).sent() == old(
                self,
            ).sent(),
    {
        proof {
            use_type_invariant(&*self);
        }
        let mut u = Uart::placeholder();
        std::mem::swap(&mut u, &mut self.uart);
        u.write_reg(offset, data);
        std::mem::swap(&mut u, &mut self.uart);        self.served = Ghost(old(self).served@.push(BusAccess { write: true, offset, data: data@ }));
    }
}


/// Every register access and every injection keeps a well-formed UART
/// well-formed: the FIFO stays within capacity and the interrupt line keeps
/// equal to [`uart_line`] of the new state.
pub proof fn lemma_uart_ops_keep_wf(s: UartState, offset: u64, value: u8, bytes: Seq<u8>)
    requires
        uart_wf(s),
    ensures
        uart_wf(uart_write(s, offset, value)),
        uart_wf(uart_read_state(s, offset)),
        uart_wf(uart_injected(s, bytes)),
{
    assert((value >> 6u8) & 0x03u8 <= 3) by (bit_vector);
}

/// An LSR read reports THR empty and transmitter empty, data ready exactly
/// when the receive FIFO holds a byte, and overrun exactly when one was
/// latched, with no other bit set; the read clears the overrun latch and
/// leaves the FIFO alone, so a second read gives the first without OE.
pub proof fn lemma_lsr_read_twice(s: UartState)
    ensures
        uart_read_value(s, REG_LSR) & 0x60 == 0x60,
        (uart_read_value(s, REG_LSR) & 0x01 != 0) <==> s.rx.len() > 0,
        (uart_read_value(s, REG_LSR) & 0x02 != 0) <==> s.overrun,
        uart_read_value(s, REG_LSR) & 0x9c == 0,
        uart_read_state(s, REG_LSR).rx == s.rx,
        uart_read_value(uart_read_state(s, REG_LSR), REG_LSR) == uart_read_value(s, REG_LSR) & !0x02u8,
{
    let dr: u8 = if s.rx.len() > 0 { 0x01 } else { 0 };
    let oe: u8 = if s.overrun { 0x02 } else { 0 };
    let v = 0x20u8 | 0x40u8 | dr | oe;
    assert(v == uart_lsr(s));
    let w = 0x20u8 | 0x40u8 | dr | 0u8;
    assert(w == uart_lsr(UartState { overrun: false, ..s }));
    assert(v & 0x60 == 0x60 && ((v & 0x01 != 0) <==> dr == 0x01) && ((v & 0x02 != 0) <==> oe == 0x02)
        && v & 0x9c == 0 && w == v & !0x02u8) by (bit_vector)
        requires
            dr == 0x01 || dr == 0,
            oe == 0x02 || oe == 0,
            v == 0x20u8 | 0x40u8 | dr | oe,
            w == 0x20u8 | 0x40u8 | dr | 0u8,
    ;
}

/// A write to FCR: bit 0 turns the FIFOs on or off and bits 7:6 select
/// the receive trigger. Bit 1, or turning the FIFOs on, empties the receive
/// FIFO and cancels a character timeout, so that LSR then shows no data and
/// RBR reads 0; any other FCR write keeps the received bytes. The other
/// registers are untouched.
pub proof fn lemma_fcr_write(s: UartState, value: u8)
    ensures
        ({
            let t = uart_write(s, REG_IIR_FCR, value);
            let cleared = value & 0x02 != 0 || (value & 0x01 != 0 && !s.fcr_enabled);
            &&& t.fcr_enabled == (value & 0x01 != 0)
            &&& t.rx_trigger == value >> 6u8
            &&& cleared ==> t.rx.len() == 0 && !t.cti_pending && uart_read_value(t, REG_LSR) & 0x01 == 0
                && (!uart_dlab(t) ==> uart_read_value(t, REG_RBR_THR_DLL) == 0)
            &&& !cleared ==> t.rx == s.rx && t.cti_pending == s.cti_pending
            &&& t.ier == s.ier && t.lcr == s.lcr && t.mcr == s.mcr && t.scr == s.scr && t.dll == s.dll
                && t.dlm == s.dlm && t.msr == s.msr && t.overrun == s.overrun
        }),
{
    assert((value >> 6u8) & 0x03u8 == value >> 6u8) by (bit_vector);
    let t = uart_write(s, REG_IIR_FCR, value);
    let cleared = value & 0x02 != 0 || (value & 0x01 != 0 && !s.fcr_enabled);
    if cleared {
        let dr: u8 = 0;
        let oe: u8 = if t.overrun { 0x02 } else { 0 };
        assert((0x20u8 | 0x40u8 | dr | oe) & 0x01 == 0) by (bit_vector)
            requires
                dr == 0,
                oe == 0x02 || oe == 0,
        ;
        assert(uart_lsr(t) == 0x20u8 | 0x40u8 | dr | oe);
    }
}

/// The control registers read back what was written: IER its four
/// defined bits (or, with DLAB set, the whole divisor latch high byte),
/// LCR all of it, MCR its five defined bits; such a write transmits
/// nothing and leaves the receive FIFO alone.
pub proof fn lemma_control_readback(s: UartState, v: u8)
    ensures
        !uart_dlab(s) ==> uart_read_value(uart_write(s, REG_IER_DLM, v), REG_IER_DLM) == v & 0x0f,
        uart_dlab(s) ==> uart_read_value(uart_write(s, REG_IER_DLM, v), REG_IER_DLM) == v,
        uart_read_value(uart_write(s, REG_LCR, v), REG_LCR) == v,
        uart_read_value(uart_write(s, REG_MCR, v), REG_MCR) == v & 0x1f,
        uart_write_transmits(s, REG_IER_DLM, v) is None && uart_write_transmits(s, REG_LCR, v) is None
            && uart_write_transmits(s, REG_MCR, v) is None,
        uart_write(s, REG_IER_DLM, v).rx == s.rx && uart_write(s, REG_LCR, v).rx == s.rx,
{
}

/// The scratch register reads back what was last written to it.
pub proof fn lemma_scratch_roundtrip(s: UartState, v: u8)
    ensures
        uart_read_value(uart_write(s, REG_SCR, v), REG_SCR) == v,
{
}

/// With DLAB set, offset 0 is the divisor latch: a write there reads back
/// and does not touch the receive FIFO or transmit anything.
pub proof fn lemma_divisor_latch_roundtrip(s: UartState, v: u8)
    requires
        uart_dlab(s),
    ensures
        uart_read_value(uart_write(s, REG_RBR_THR_DLL, v), REG_RBR_THR_DLL) == v,
        uart_write(s, REG_RBR_THR_DLL, v).rx == s.rx,
        uart_write_transmits(s, REG_RBR_THR_DLL, v) is None,
{
}

/// The divisor latch survives a DLAB off/on round trip: clearing LCR and
/// setting DLAB again leaves DLL as it was.
pub proof fn lemma_divisor_latch_survives_lcr(s: UartState, v: u8, lcr: u8)
    requires
        uart_dlab(s),
        lcr & LCR_DLAB != 0,
    ensures
        ({
            let s1 = uart_write(s, REG_RBR_THR_DLL, v);
            let s2 = uart_write(s1, REG_LCR, 0);
            let s3 = uart_write(s2, REG_LCR, lcr);
            uart_read_value(s3, REG_RBR_THR_DLL) == v
        }),
{
}

/// In loopback, a byte written to THR is not transmitted and is the next
/// byte read from RBR when the FIFO was empty.
pub proof fn lemma_loopback_echo(s: UartState, b: u8)
    requires
        uart_wf(s),
        uart_loopback(s),
        !uart_dlab(s),
        s.rx.len() == 0,
    ensures
        uart_write_transmits(s, REG_RBR_THR_DLL, b) is None,
        uart_read_value(uart_write(s, REG_RBR_THR_DLL, b), REG_RBR_THR_DLL) == b,
{
}

/// Outside loopback, a THR write transmits the byte and leaves RX alone.
pub proof fn lemma_thr_transmits(s: UartState, b: u8)
    requires
        !uart_loopback(s),
        !uart_dlab(s),
    ensures
        uart_write_transmits(s, REG_RBR_THR_DLL, b) == Some(b),
        uart_write(s, REG_RBR_THR_DLL, b).rx == s.rx,
{
}

/// In loopback, MSR's DSR bit follows MCR's DTR bit, and raising DTR from a
/// cleared DSR latches the DSR delta.
pub proof fn lemma_loopback_dtr_to_dsr(s: UartState, mcr: u8)
    requires
        mcr & MCR_LOOPBACK != 0,
    ensures
        (uart_write(s, REG_MCR, mcr).msr & MSR_DSR != 0) == (mcr & MCR_DTR != 0),
        mcr & MCR_DTR != 0 && s.msr & MSR_DSR == 0 ==> uart_write(s, REG_MCR, mcr).msr & MSR_DDSR
            != 0,
{
    let m = mcr & MCR_MASK;
    assert(m & 0x10u8 != 0) by (bit_vector)
        requires
            m == mcr & 0x1fu8,
            mcr & 0x10u8 != 0,
    ;
    let ns = loopback_msr_state(m);
    let msr = ns | (s.msr & MSR_DELTAS) | msr_delta_bits(s.msr, ns);
    let old_msr = s.msr;
    assert((msr & 0x20u8 != 0) == (mcr & 0x01u8 != 0)) by (bit_vector)
        requires
            m == mcr & 0x1fu8,
            ns == (if m & 0x01u8 != 0 { 0x20u8 } else { 0u8 }) | (if m & 0x02u8 != 0 {
                0x10u8
            } else {
                0u8
            }) | (if m & 0x04u8 != 0 { 0x40u8 } else { 0u8 }) | (if m & 0x08u8 != 0 {
                0x80u8
            } else {
                0u8
            }),
            msr == ns | (old_msr & 0x0fu8) | ((if (old_msr & 0x10u8 != 0) != (ns & 0x10u8 != 0) {
                0x01u8
            } else {
                0u8
            }) | (if (old_msr & 0x20u8 != 0) != (ns & 0x20u8 != 0) { 0x02u8 } else { 0u8 }) | (if (
            old_msr & 0x40u8 != 0) != (ns & 0x40u8 != 0) {
                0x04u8
            } else {
                0u8
            }) | (if (old_msr & 0x80u8 != 0) != (ns & 0x80u8 != 0) { 0x08u8 } else { 0u8 })),
    ;
    assert(mcr & 0x01u8 != 0 && old_msr & 0x20u8 == 0 ==> msr & 0x02u8 != 0) by (bit_vector)
        requires
            m == mcr & 0x1fu8,
            ns == (if m & 0x01u8 != 0 { 0x20u8 } else { 0u8 }) | (if m & 0x02u8 != 0 {
                0x10u8
            } else {
                0u8
            }) | (if m & 0x04u8 != 0 { 0x40u8 } else { 0u8 }) | (if m & 0x08u8 != 0 {
                0x80u8
            } else {
                0u8
            }),
            msr == ns | (old_msr & 0x0fu8) | ((if (old_msr & 0x10u8 != 0) != (ns & 0x10u8 != 0) {
                0x01u8
            } else {
                0u8
            }) | (if (old_msr & 0x20u8 != 0) != (ns & 0x20u8 != 0) { 0x02u8 } else { 0u8 }) | (if (
            old_msr & 0x40u8 != 0) != (ns & 0x40u8 != 0) {
                0x04u8
            } else {
                0u8
            }) | (if (old_msr & 0x80u8 != 0) != (ns & 0x80u8 != 0) { 0x08u8 } else { 0u8 })),
    ;
}

/// Reading LSR reports a latched overrun once and then clears it.
pub proof fn lemma_lsr_read_clears_overrun(s: UartState)
    ensures
        (uart_read_value(s, REG_LSR) & LSR_OE != 0) == s.overrun,
        !uart_read_state(s, REG_LSR).overrun,
        (uart_read_value(s, REG_LSR) & LSR_DR != 0) == (s.rx.len() > 0),
{
    let dr = if s.rx.len() > 0 { LSR_DR } else { 0u8 };
    let oe = if s.overrun { LSR_OE } else { 0u8 };
    let ov = s.overrun;
    let nonempty = s.rx.len() > 0;
    assert(0x20u8 | 0x40u8 == 0x60u8) by (bit_vector);
    assert(uart_read_value(s, REG_LSR) == 0x60u8 | dr | oe);
    assert(((0x60u8 | dr | oe) & 0x02u8 != 0) == ov && ((0x60u8 | dr | oe) & 0x01u8 != 0)
        == nonempty) by (bit_vector)
        requires
            dr == (if nonempty { 0x01u8 } else { 0u8 }),
            oe == (if ov { 0x02u8 } else { 0u8 }),
    ;
}

/// Reading MSR returns the deltas and clears them.
pub proof fn lemma_msr_read_clears_deltas(s: UartState)
    ensures
        uart_read_value(s, REG_MSR) == s.msr,
        uart_read_state(s, REG_MSR).msr & MSR_DELTAS == 0,
{
    let m = s.msr;
    assert((m & !0x0fu8) & 0x0fu8 == 0) by (bit_vector);
}

/// Injecting into a full FIFO drops the bytes and latches an overrun.
pub proof fn lemma_full_fifo_overruns(s: UartState, bytes: Seq<u8>)
    requires
        uart_wf(s),
        !uart_loopback(s),
        s.rx.len() == FIFO_CAP,
        bytes.len() > 0,
    ensures
        uart_injected(s, bytes).rx == s.rx,
        uart_injected(s, bytes).overrun,
{
    assert(bytes.take(0) =~= Seq::<u8>::empty());
    assert(s.rx + bytes.take(0) =~= s.rx);
}

/// Injection never grows the FIFO past its capacity and keeps the order of
/// the bytes: what was queued stays first.
pub proof fn lemma_injection_keeps_order(s: UartState, bytes: Seq<u8>)
    requires
        uart_wf(s),
        !uart_loopback(s),
    ensures
        uart_injected(s, bytes).rx.len() <= FIFO_CAP,
        uart_injected(s, bytes).rx.take(s.rx.len() as int) == s.rx,
        (uart_injected(s, bytes).overrun) == (s.overrun || bytes.len() > FIFO_CAP - s.rx.len()),
{
    let t = uart_injected(s, bytes);
    assert(t.rx.take(s.rx.len() as int) =~= s.rx);
}

/// A latched overrun with line-status interrupts enabled outranks every
/// other source.
pub proof fn lemma_rls_has_priority(s: UartState)
    requires
        s.overrun,
        s.ier & IER_ELSI != 0,
    ensures
        uart_pending(s) == Some(IIR_RLS),
{
}

/// With receive interrupts enabled and the trigger level reached, IIR
/// reports "received data available" unless an overrun is pending.
pub proof fn lemma_rda_reported(s: UartState)
    requires
        !(s.overrun && s.ier & IER_ELSI != 0),
        s.ier & IER_ERBFI != 0,
        s.rx.len() >= uart_rx_threshold(s),
    ensures
        uart_iir(s) & 0x0f == IIR_RDA,
{
    let f = if s.fcr_enabled { IIR_FIFO_ENABLED } else { 0u8 };
    assert((0x04u8 | f) & 0x0fu8 == 0x04u8) by (bit_vector)
        requires
            f == 0xc0u8 || f == 0u8,
    ;
}

} // verus!
