//! The serial echo program: each received line is sent back reversed.
use vstd::prelude::*;
use crate::line::TERMINATOR;

verus! {

/// What is sent back for `line`: the line with its carriage return in
/// reverse order, then line feed and carriage return.
pub open spec fn reversed_echo(line: Seq<u8>) -> Seq<u8> {
    line.push(TERMINATOR).reverse() + seq![10u8, 13u8]
}

/// The bytes to send back for a received line (the bytes before its
/// carriage return).
pub fn echo_reversed(line: &[u8]) -> (out: Vec<u8>)
    ensures
        out@ == reversed_echo(line@),
{
    let ghost rev = line@.push(TERMINATOR).reverse();
    let mut out: Vec<u8> = Vec::new();
    out.push(TERMINATOR);
    let mut i: usize = line.len();
    assert(out@ =~= rev.subrange(0, 1));
    while i > 0
        invariant
            i <= line@.len(),
            rev == line@.push(TERMINATOR).reverse(),
            out@ == rev.subrange(0, line@.len() - i + 1),
        decreases i,
    {
        i -= 1;
        out.push(line[i]);
        assert(out@ =~= rev.subrange(0, line@.len() - i + 1));
    }
    assert(rev.len() == line@.len() + 1);
    assert(rev.subrange(0, line@.len() as int + 1) =~= rev);
    out.push(10u8);
    out.push(13u8);
    assert(out@ =~= reversed_echo(line@));
    out
}

} // verus!
