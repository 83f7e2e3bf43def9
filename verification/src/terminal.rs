//! The console escape sequence: Ctrl-A followed by a command byte. Raw
//! terminal mode itself is the program's business.
use vstd::prelude::*;

verus! {

/// The escape prefix.
pub const CTRL_A: u8 = 0x01;

/// What to do with a byte typed on the console.
#[derive(Debug, Clone, Copy, PartialEq, Eq, Structural)]
pub enum EscapeAction {
    /// Forward this byte to the guest (its serial receive FIFO).
    Forward(u8),
    /// The user asked to leave the VMM (Ctrl-A x).
    Quit,
    /// The user asked for help (Ctrl-A ?).
    Help,
    /// The byte was part of an escape sequence; nothing reaches the guest.
    Swallowed,
}

/// One step of the escape machine from `prefix_seen`: the action and the
/// next `prefix_seen`.
pub open spec fn spec_feed(prefix_seen: bool, byte: u8) -> (EscapeAction, bool) {
    if prefix_seen {
        if byte == 0x78 || byte == 0x58 {
            (EscapeAction::Quit, false)
        } else if byte == 0x3f {
            (EscapeAction::Help, false)
        } else {
            (EscapeAction::Forward(byte), false)
        }
    } else if byte == CTRL_A {
        (EscapeAction::Swallowed, true)
    } else {
        (EscapeAction::Forward(byte), false)
    }
}

/// The escape machine: whether the prefix was the last byte seen.
pub struct EscapeState {
    prefix_seen: bool,
}

impl EscapeState {
    /// Whether the escape prefix was the last byte fed.
    pub closed spec fn prefix_seen(&self) -> bool {
        self.prefix_seen
    }

    pub fn new() -> (r: Self)
        ensures
            !r.prefix_seen(),
    {
        EscapeState { prefix_seen: false }
    }

    /// Feed one byte typed on the console.
    pub fn feed(&mut self, byte: u8) -> (r: EscapeAction)
        ensures
            (r, final(self).prefix_seen()) == spec_feed(old(self).prefix_seen(), byte),
    {
        if self.prefix_seen {
            self.prefix_seen = false;
            if byte == 0x78 || byte == 0x58 {
                EscapeAction::Quit
            } else if byte == 0x3f {
                EscapeAction::Help
            } else {
                EscapeAction::Forward(byte)
            }
        } else if byte == CTRL_A {
            self.prefix_seen = true;
            EscapeAction::Swallowed
        } else {
            EscapeAction::Forward(byte)
        }
    }
}

impl Default for EscapeState {
    fn default() -> (r: Self)
        ensures
            !r.prefix_seen(),
    {
        Self::new()
    }
}

/// Outside an escape, every byte but Ctrl-A reaches the guest unchanged.
pub proof fn lemma_plain_bytes_forwarded(byte: u8)
    requires
        byte != CTRL_A,
    ensures
        spec_feed(false, byte) == (EscapeAction::Forward(byte), false),
{
}

/// Ctrl-A Ctrl-A sends one literal Ctrl-A to the guest.
pub proof fn lemma_double_prefix_forwards_prefix()
    ensures
        spec_feed(false, CTRL_A) == (EscapeAction::Swallowed, true),
        spec_feed(true, CTRL_A) == (EscapeAction::Forward(CTRL_A), false),
{
}

/// Ctrl-A x (or X) quits and Ctrl-A ? asks for help.
pub proof fn lemma_escape_commands()
    ensures
        spec_feed(true, 0x78) == (EscapeAction::Quit, false),
        spec_feed(true, 0x58) == (EscapeAction::Quit, false),
        spec_feed(true, 0x3f) == (EscapeAction::Help, false),
{
}

/// Every byte after the prefix ends the escape sequence.
pub proof fn lemma_escape_ends(byte: u8)
    ensures
        spec_feed(true, byte).1 == false,
{
}

} // verus!
