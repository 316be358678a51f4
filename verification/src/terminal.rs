//! Reading a password from the controlling terminal: the terminal modes
//! that hide the typed text, and when a typed line is complete.
use vstd::prelude::*;

verus! {

/// Bit `i` of `x` is set.
pub open spec fn bit_set(x: u32, i: u32) -> bool {
    (x >> i) & 1u32 == 1u32
}

/// `flags` with the bits of `clear` cleared and the bits of `set` set.
pub fn with_bits(flags: u32, clear: u32, set: u32) -> (r: u32)
    ensures
        r == (flags & !clear) | set,
        forall|i: u32| i < 32 ==> (bit_set(r, i) <==> (bit_set(set, i) || (bit_set(flags, i) && !bit_set(clear, i)))),
{
    let r = (flags & !clear) | set;
    assert forall|i: u32| i < 32 implies (bit_set(r, i) <==> (bit_set(set, i) || (bit_set(flags, i) && !bit_set(
        clear,
        i,
    )))) by {
        assert(i < 32 ==> ((((flags & !clear) | set) >> i) & 1u32 == 1u32 <==> ((set >> i) & 1u32 == 1u32 || ((
        flags >> i) & 1u32 == 1u32 && !((clear >> i) & 1u32 == 1u32))))) by (bit_vector);
    }
    r
}

/// The password typed so far is complete when it ends with a line break;
/// the password is then what precedes it.
pub open spec fn finished_line_spec(typed: Seq<u8>) -> Option<Seq<u8>> {
    if typed.len() > 0 && typed.last() == 10 {
        Some(typed.drop_last())
    } else {
        None
    }
}

/// The password, once the typed bytes end with a line break.
pub fn finished_line(typed: &[u8]) -> (r: Option<Vec<u8>>)
    ensures
        match finished_line_spec(typed@) {
            Some(p) => r matches Some(v) && v@ == p,
            None => r is None,
        },
{
    if typed.len() > 0 && typed[typed.len() - 1] == 10 {
        let mut out: Vec<u8> = Vec::new();
        let mut i: usize = 0;
        while i + 1 < typed.len()
            invariant
                typed.len() > 0,
                i + 1 <= typed.len(),
                out@ == typed@.take(i as int),
            decreases typed.len() - i,
        {
            out.push(typed[i]);
            assert(typed@.take(i + 1) =~= typed@.take(i as int).push(typed@[i as int]));
            i += 1;
        }
        assert(out@ =~= typed@.drop_last());
        Some(out)
    } else {
        None
    }
}


/// A password is complete once a line break is typed after it, and is then
/// exactly what was typed before the break; typed bytes that do not end in
/// a line break are not yet a password.
pub proof fn password_ends_at_line_break(password: Seq<u8>, typed: Seq<u8>)
    ensures
        finished_line_spec(password.push(10u8)) == Some(password),
        (typed.len() == 0 || typed[typed.len() - 1] != 10) ==> finished_line_spec(typed) is None,
{
    assert(password.push(10u8).drop_last() =~= password);
}

} // verus!
