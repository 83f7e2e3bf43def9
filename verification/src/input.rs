//! The console reader: what it does with poll and read results, and how a
//! batch of typed bytes becomes guest input, help and quit requests.
use vstd::prelude::*;

use crate::terminal::{EscapeAction, EscapeState, spec_feed};

verus! {

/// Help text for the console escapes.
pub const HELP_TEXT: &'static str = "\r\nferrvm console:\r\n  Ctrl-A x      quit ferrvm\r\n  Ctrl-A Ctrl-A send literal Ctrl-A to guest\r\n  Ctrl-A ?      this help\r\n\r\n";

/// Milliseconds the reader waits for input before ticking the UART.
pub const POLL_TIMEOUT_MS: i32 = 2;

/// The outcome of feeding a batch of typed bytes.
#[derive(Debug, Clone, PartialEq, Eq)]
pub struct InputBatch {
    /// Bytes for the guest, in order.
    pub forward: Vec<u8>,
    /// Help was asked for.
    pub help: bool,
    /// Quit was asked for; the bytes after it were not looked at.
    pub quit: bool,
}

/// Feeding `bytes` from `prefix_seen`: bytes to forward, help asked,
/// quit asked, and the final `prefix_seen`. Bytes after a quit are ignored.
pub open spec fn spec_batch(prefix_seen: bool, bytes: Seq<u8>) -> (Seq<u8>, bool, bool, bool)
    decreases bytes.len(),
{
    if bytes.len() == 0 {
        (Seq::empty(), false, false, prefix_seen)
    } else {
        let (fw, help, quit, p) = spec_batch(prefix_seen, bytes.drop_last());
        if quit {
            (fw, help, quit, p)
        } else {
            let (a, p2) = spec_feed(p, bytes.last());
            match a {
                EscapeAction::Forward(b) => (fw.push(b), help, false, p2),
                EscapeAction::Swallowed => (fw, help, false, p2),
                EscapeAction::Help => (fw, true, false, p2),
                EscapeAction::Quit => (fw, help, true, p2),
            }
        }
    }
}

/// Feed a batch of typed bytes through the escape machine, collecting what
/// goes to the guest; stop at a quit.
pub fn process_input(escape: &mut EscapeState, bytes: &[u8]) -> (r: InputBatch)
    ensures
        ({
            let (fw, help, quit, p) = spec_batch(old(escape).prefix_seen(), bytes@);
            &&& r.forward@ == fw
            &&& r.help == help
            &&& r.quit == quit
            &&& final(escape).prefix_seen() == p
        }),
{
    let ghost p0 = escape.prefix_seen();
    let mut forward: Vec<u8> = Vec::new();
    let mut help = false;
    let mut quit = false;
    let mut i: usize = 0;
    while i < bytes.len()
        invariant_except_break
            i <= bytes@.len(),
            !quit,
            spec_batch(p0, bytes@.subrange(0, i as int)) == (forward@, help, quit, escape.prefix_seen()),
        ensures
            i <= bytes@.len(),
            spec_batch(p0, bytes@.subrange(0, i as int)) == (forward@, help, quit, escape.prefix_seen()),
            quit || i == bytes@.len(),
        decreases bytes@.len() - i,
    {
        let ghost before = bytes@.subrange(0, i as int);
        let action = escape.feed(bytes[i]);
        assert(bytes@.subrange(0, i + 1).drop_last() =~= before);
        i = i + 1;
        match action {
            EscapeAction::Forward(b) => {
                forward.push(b);
            },
            EscapeAction::Swallowed => {},
            EscapeAction::Help => {
                help = true;
            },
            EscapeAction::Quit => {
                quit = true;
                break;
            },
        }
    }
    proof {
        if quit {
            lemma_batch_stops_at_quit(p0, bytes@, i as int);
        } else {
            assert(bytes@.subrange(0, i as int) =~= bytes@);
        }
    }
    InputBatch { forward, help, quit }
}

/// Once a quit is seen, later bytes change nothing.
pub proof fn lemma_batch_stops_at_quit(p: bool, bytes: Seq<u8>, i: int)
    requires
        0 <= i <= bytes.len(),
        spec_batch(p, bytes.subrange(0, i)).2,
    ensures
        spec_batch(p, bytes) == spec_batch(p, bytes.subrange(0, i)),
    decreases bytes.len() - i,
{
    if i < bytes.len() {
        assert(bytes.subrange(0, i + 1).drop_last() =~= bytes.subrange(0, i));
        assert(spec_batch(p, bytes.subrange(0, i + 1)) == spec_batch(p, bytes.subrange(0, i)));
        lemma_batch_stops_at_quit(p, bytes, i + 1);
    } else {
        assert(bytes.subrange(0, i) =~= bytes);
    }
}

/// What the reader does next.
#[derive(Debug, Clone, Copy, PartialEq, Eq, Structural)]
pub enum ReaderAction {
    /// Go round again (the call was interrupted).
    Retry,
    /// No input within the timeout: let the UART notice an idle line.
    TickCti,
    /// Input is ready: read it.
    Read,
    /// Feed the `n` bytes read.
    Process(usize),
    /// Stop reading and ask the VMM to shut down.
    Shutdown,
}

/// The action after `poll` returned `poll_result` (`interrupted` when it
/// failed with `EINTR`).
pub fn poll_action(poll_result: i32, interrupted: bool) -> (r: ReaderAction)
    ensures
        poll_result < 0 && interrupted ==> r == ReaderAction::Retry,
        poll_result < 0 && !interrupted ==> r == ReaderAction::Shutdown,
        poll_result == 0 ==> r == ReaderAction::TickCti,
        poll_result > 0 ==> r == ReaderAction::Read,
{
    if poll_result < 0 {
        if interrupted {
            ReaderAction::Retry
        } else {
            ReaderAction::Shutdown
        }
    } else if poll_result == 0 {
        ReaderAction::TickCti
    } else {
        ReaderAction::Read
    }
}

/// The action after `read` returned `n` (`interrupted` when it failed with
/// `EINTR`): end of input and errors shut down.
pub fn read_action(n: isize, interrupted: bool) -> (r: ReaderAction)
    ensures
        n < 0 && interrupted ==> r == ReaderAction::Retry,
        n < 0 && !interrupted ==> r == ReaderAction::Shutdown,
        n == 0 ==> r == ReaderAction::Shutdown,
        n > 0 ==> r == ReaderAction::Process(n as usize),
{
    if n < 0 {
        if interrupted {
            ReaderAction::Retry
        } else {
            ReaderAction::Shutdown
        }
    } else if n == 0 {
        ReaderAction::Shutdown
    } else {
        ReaderAction::Process(n as usize)
    }
}

} // verus!
