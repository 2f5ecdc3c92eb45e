//! Names handed to the system: UTF-16, with a terminating zero.
use vstd::prelude::*;

verus! {

/// The UTF-16 code units of one character: the code point itself below
/// 0x10000, else a surrogate pair.
pub open spec fn utf16_units(c: char) -> Seq<u16> {
    let v = c as u32 as int;
    if v < 0x10000 {
        seq![v as u16]
    } else {
        let w = v - 0x10000;
        seq![(0xD800 + w / 1024) as u16, (0xDC00 + w % 1024) as u16]
    }
}

/// The UTF-16 encoding of a character sequence.
pub open spec fn utf16(s: Seq<char>) -> Seq<u16>
    decreases s.len(),
{
    if s.len() == 0 {
        Seq::empty()
    } else {
        utf16(s.drop_last()) + utf16_units(s.last())
    }
}

/// `s` in UTF-16, followed by a terminating zero.
pub fn wide_nul(s: &str) -> (w: Vec<u16>)
    ensures
        w@ == utf16(s@).push(0),
{
    let n = s.unicode_len();
    let mut w: Vec<u16> = Vec::new();
    let mut i: usize = 0;
    while i < n
        invariant
            n == s@.len(),
            i <= n,
            w@ == utf16(s@.take(i as int)),
        decreases n - i,
    {
        let c = s.get_char(i);
        let v = c as u32;
        proof {
            assert(s@.take(i + 1).drop_last() =~= s@.take(i as int));
            assert(s@.take(i + 1).last() == c);
        }
        if v < 0x10000 {
            w.push(v as u16);
        } else {
            let x = v - 0x10000;
            assert(x < 0x100000) by {
                assert(v <= 0x10FFFF);
            }
            w.push((0xD800 + x / 1024) as u16);
            w.push((0xDC00 + x % 1024) as u16);
        }
        proof {
            assert(w@ =~= utf16(s@.take(i + 1)));
        }
        i = i + 1;
    }
    proof {
        assert(s@.take(n as int) =~= s@);
    }
    w.push(0);
    w
}

/// System error code: the named object already existed.
pub const ERROR_ALREADY_EXISTS: u32 = 183;

/// Whether creating the single-instance mutex gave this process the only
/// instance: a handle came back and the mutex did not exist before.
pub fn instance_acquired(handle_is_null: bool, last_error: u32) -> (acquired: bool)
    ensures
        acquired == (!handle_is_null && last_error != ERROR_ALREADY_EXISTS),
{
    !(handle_is_null || last_error == ERROR_ALREADY_EXISTS)
}

} // verus!
