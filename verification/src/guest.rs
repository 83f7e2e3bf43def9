//! The console output of the test guest: what it sends to COM1 for a
//! string. Each line feed goes out as a carriage return and a line feed.
use vstd::prelude::*;

verus! {

/// The bytes the guest transmits for `s`, in order.
pub open spec fn spec_console_bytes(s: Seq<u8>) -> Seq<u8>
    decreases s.len(),
{
    if s.len() == 0 {
        Seq::empty()
    } else {
        spec_console_bytes(s.drop_last()) + if s.last() == 0x0au8 {
            seq![0x0du8, 0x0au8]
        } else {
            seq![s.last()]
        }
    }
}

/// The bytes the guest transmits for `s`: `s` with a carriage return put
/// before each line feed.
pub fn console_bytes(s: &[u8]) -> (r: Vec<u8>)
    ensures
        r@ == spec_console_bytes(s@),
{
    let mut r: Vec<u8> = Vec::new();
    let mut i: usize = 0;
    while i < s.len()
        invariant
            i <= s@.len(),
            r@ == spec_console_bytes(s@.subrange(0, i as int)),
        decreases s@.len() - i,
    {
        let b = s[i];
        proof {
            assert(s@.subrange(0, i + 1).drop_last() =~= s@.subrange(0, i as int));
        }
        if b == 0x0a {
            r.push(0x0d);
        }
        r.push(b);
        proof {
            let t = s@.subrange(0, i + 1);
            assert(t.last() == b);
            if b == 0x0au8 {
                assert(r@ =~= spec_console_bytes(s@.subrange(0, i as int)) + seq![0x0du8, 0x0au8]);
            } else {
                assert(r@ =~= spec_console_bytes(s@.subrange(0, i as int)) + seq![b]);
            }
        }
        i = i + 1;
    }
    assert(s@.subrange(0, i as int) =~= s@);
    r
}

} // verus!
