//! The line buffer of the console: received bytes are collected in a
//! fixed-capacity `heapless::Vec` until a carriage return ends the line.
use vstd::prelude::*;

verus! {

/// Capacity of the line buffer, in bytes.
pub const LINE_CAPACITY: usize = 32;

/// The byte that ends a line (carriage return).
pub const TERMINATOR: u8 = 13;

#[verifier::external_type_specification]
#[verifier::external_body]
#[verifier::reject_recursive_types(T)]
pub struct ExHeaplessVec<T, const N: usize>(heapless::Vec<T, N>);

/// The fixed-capacity vector that holds the bytes of the current line.
pub type LineBytes = heapless::Vec<u8, 32>;

/// The bytes that a line buffer holds, in order.
pub uninterp spec fn held(v: LineBytes) -> Seq<u8>;

/// Relies on heapless::Vec::new: a new vector holds nothing.
#[verifier::external_body]
fn heapless_new() -> (v: LineBytes)
    ensures
        held(v) == Seq::<u8>::empty(),
{
    heapless::Vec::new()
}

/// Relies on heapless::Vec::push: below capacity the byte is appended and
/// `Ok` returned (here `true`); at capacity the vector is left as it was and
/// `Err` returned (here `false`).
#[verifier::external_body]
fn heapless_push(v: &mut LineBytes, b: u8) -> (stored: bool)
    ensures
        stored == (held(*old(v)).len() < 32),
        stored ==> held(*final(v)) == held(*old(v)).push(b),
        !stored ==> held(*final(v)) == held(*old(v)),
{
    v.push(b).is_ok()
}

/// Relies on heapless::Vec::clear: afterwards the vector holds nothing.
#[verifier::external_body]
fn heapless_clear(v: &mut LineBytes)
    ensures
        held(*final(v)) == Seq::<u8>::empty(),
{
    v.clear()
}

/// Relies on heapless::Vec::as_slice: the held bytes, in order.
#[verifier::external_body]
fn heapless_as_slice(v: &LineBytes) -> (s: &[u8])
    ensures
        s@ == held(*v),
{
    v.as_slice()
}

/// What one received byte does to the line being collected.
pub enum Feed {
    /// The byte was stored; the line goes on.
    Pending,
    /// The byte did not fit: the line is discarded and a new one begins.
    Overflow,
    /// A carriage return ended the line; these are the bytes before it.
    Line(Vec<u8>),
}

/// The buffer after receiving `b` with `buf` held: emptied by a carriage
/// return or an overflow, else `b` appended.
pub open spec fn next_held(buf: Seq<u8>, b: u8) -> Seq<u8> {
    if b == TERMINATOR || buf.len() >= LINE_CAPACITY {
        Seq::empty()
    } else {
        buf.push(b)
    }
}

/// What receiving one byte amounts to, in mathematical terms.
pub ghost enum Event {
    Pending,
    Overflow,
    Line(Seq<u8>),
}

/// The event of receiving `b` with `buf` held.
pub open spec fn event(buf: Seq<u8>, b: u8) -> Event {
    if b == TERMINATOR {
        Event::Line(buf)
    } else if buf.len() >= LINE_CAPACITY {
        Event::Overflow
    } else {
        Event::Pending
    }
}

/// The events of receiving `input`, byte by byte, with `buf` held at first.
pub open spec fn events(buf: Seq<u8>, input: Seq<u8>) -> Seq<Event>
    decreases input.len(),
{
    if input.len() == 0 {
        Seq::empty()
    } else {
        seq![event(buf, input[0])] + events(next_held(buf, input[0]), input.drop_first())
    }
}

/// What the buffer holds after receiving `input` with `buf` held at first.
pub open spec fn held_after(buf: Seq<u8>, input: Seq<u8>) -> Seq<u8>
    decreases input.len(),
{
    if input.len() == 0 {
        buf
    } else {
        held_after(next_held(buf, input[0]), input.drop_first())
    }
}

impl Feed {
    /// The event that this outcome reports.
    pub open spec fn event(&self) -> Event {
        match self {
            Feed::Pending => Event::Pending,
            Feed::Overflow => Event::Overflow,
            Feed::Line(line) => Event::Line(line@),
        }
    }
}

/// Collects received bytes into lines of at most `LINE_CAPACITY` bytes.
pub struct LineBuffer {
    bytes: LineBytes,
}

impl View for LineBuffer {
    type V = Seq<u8>;

    closed spec fn view(&self) -> Seq<u8> {
        held(self.bytes)
    }
}

impl LineBuffer {
    /// The buffer never holds more than its capacity.
    pub closed spec fn wf(&self) -> bool {
        held(self.bytes).len() <= LINE_CAPACITY
    }

    /// An empty buffer.
    pub fn new() -> (s: Self)
        ensures
            s.wf(),
            s@ == Seq::<u8>::empty(),
    {
        LineBuffer { bytes: heapless_new() }
    }

    /// Takes one received byte: stores it, reports an overflow, or hands out
    /// the finished line; the buffer is emptied after a line or an overflow.
    pub fn feed(&mut self, b: u8) -> (f: Feed)
        requires
            old(self).wf(),
        ensures
            final(self).wf(),
            final(self)@ == next_held(old(self)@, b),
            f.event() == event(old(self)@, b),
    {
        if b == TERMINATOR {
            let s = heapless_as_slice(&self.bytes);
            let mut line: Vec<u8> = Vec::new();
            let mut i: usize = 0;
            while i < s.len()
                invariant
                    i <= s@.len(),
                    line@ == s@.subrange(0, i as int),
                decreases s@.len() - i,
            {
                line.push(s[i]);
                i += 1;
                assert(line@ =~= s@.subrange(0, i as int));
            }
            assert(line@ =~= s@);
            heapless_clear(&mut self.bytes);
            Feed::Line(line)
        } else {
            if heapless_push(&mut self.bytes, b) {
                Feed::Pending
            } else {
                heapless_clear(&mut self.bytes);
                Feed::Overflow
            }
        }
    }
}

/// `n` pending events.
pub open spec fn pendings(n: nat) -> Seq<Event> {
    Seq::new(n, |i: int| Event::Pending)
}

/// Whether `s` holds no carriage return.
pub open spec fn unterminated(s: Seq<u8>) -> bool {
    forall|i: int| 0 <= i < s.len() ==> s[i] != TERMINATOR
}

/// One event per received byte, and a line is reported exactly at each
/// carriage return.
pub proof fn lemma_events_shape(buf: Seq<u8>, input: Seq<u8>)
    ensures
        events(buf, input).len() == input.len(),
        forall|i: int|
            0 <= i < input.len() ==> (#[trigger] events(buf, input)[i] is Line <==> input[i]
                == TERMINATOR),
    decreases input.len(),
{
    if input.len() > 0 {
        let rest = input.drop_first();
        lemma_events_shape(next_held(buf, input[0]), rest);
        assert forall|i: int| 0 <= i < input.len() implies (#[trigger] events(buf, input)[i] is Line
            <==> input[i] == TERMINATOR) by {
            if i > 0 {
                assert(events(buf, input)[i] == events(next_held(buf, input[0]), rest)[i - 1]);
                assert(input[i] == rest[i - 1]);
            }
        }
    }
}

/// Bytes that fit and are not a carriage return are only stored.
pub proof fn lemma_stored_prefix(buf: Seq<u8>, stored: Seq<u8>, tail: Seq<u8>)
    requires
        buf.len() + stored.len() <= LINE_CAPACITY,
        unterminated(stored),
    ensures
        events(buf, stored + tail) == pendings(stored.len()) + events(buf + stored, tail),
        held_after(buf, stored + tail) == held_after(buf + stored, tail),
    decreases stored.len(),
{
    if stored.len() == 0 {
        assert(stored + tail =~= tail);
        assert(buf + stored =~= buf);
        assert(pendings(0) + events(buf, tail) =~= events(buf, tail));
    } else {
        let input = stored + tail;
        let b = stored[0];
        let rest = stored.drop_first();
        assert(input.drop_first() =~= rest + tail);
        assert(input[0] == b);
        assert(next_held(buf, b) == buf.push(b));
        assert(buf.push(b) + rest =~= buf + stored);
        assert forall|i: int| 0 <= i < rest.len() implies rest[i] != TERMINATOR by {
            assert(rest[i] == stored[i + 1]);
        }
        lemma_stored_prefix(buf.push(b), rest, tail);
        assert(seq![Event::Pending] + pendings(rest.len()) =~= pendings(stored.len()));
        assert(events(buf, input) =~= seq![Event::Pending] + (pendings(rest.len()) + events(
            buf + stored,
            tail,
        )));
        assert(events(buf, input) =~= pendings(stored.len()) + events(buf + stored, tail));
    }
}

/// A line of at most `LINE_CAPACITY` bytes followed by a carriage return is
/// reported whole, once, at the carriage return, and leaves the buffer empty.
pub proof fn lemma_line_reported(line: Seq<u8>)
    requires
        line.len() <= LINE_CAPACITY,
        unterminated(line),
    ensures
        events(Seq::empty(), line.push(TERMINATOR)) == pendings(line.len()).push(
            Event::Line(line),
        ),
        held_after(Seq::empty(), line.push(TERMINATOR)) == Seq::<u8>::empty(),
{
    let empty = Seq::<u8>::empty();
    let tail = seq![TERMINATOR];
    assert(line.push(TERMINATOR) =~= line + tail);
    lemma_stored_prefix(empty, line, tail);
    assert(empty + line =~= line);
    assert(tail.drop_first() =~= Seq::<u8>::empty());
    assert(tail[0] == TERMINATOR);
    assert(events(Seq::<u8>::empty(), Seq::<u8>::empty()) =~= Seq::<Event>::empty());
    assert(events(line, tail) =~= seq![Event::Line(line)]);
    assert(held_after(line, tail) == held_after(Seq::<u8>::empty(), Seq::<u8>::empty()));
    assert(pendings(line.len()) + seq![Event::Line(line)] =~= pendings(line.len()).push(
        Event::Line(line),
    ));
}

/// More than `LINE_CAPACITY` bytes without a carriage return: the first
/// `LINE_CAPACITY` are stored, the next one overflows and empties the buffer
/// for a new line, and no line is reported for any of them.
pub proof fn lemma_overflow_discards(input: Seq<u8>)
    requires
        input.len() > LINE_CAPACITY,
        unterminated(input),
    ensures
        forall|i: int| 0 <= i < LINE_CAPACITY ==> events(Seq::empty(), input)[i] == Event::Pending,
        events(Seq::empty(), input)[LINE_CAPACITY as int] == Event::Overflow,
        forall|i: int|
            0 <= i < input.len() ==> !(#[trigger] events(Seq::empty(), input)[i] is Line),
        held_after(Seq::empty(), input.take(LINE_CAPACITY + 1)) == Seq::<u8>::empty(),
{
    let empty = Seq::<u8>::empty();
    let stored = input.take(32);
    let tail = input.skip(32);
    assert(stored + tail =~= input);
    assert(empty + stored =~= stored);
    lemma_stored_prefix(empty, stored, tail);
    assert(tail[0] == input[32]);
    assert(events(stored, tail)[0] == Event::Overflow);
    lemma_events_shape(empty, input);
    lemma_events_shape(stored, tail);
    assert(forall|i: int| 0 <= i < 32 ==> events(empty, input)[i] == pendings(32)[i]);
    assert(events(empty, input)[32] == events(stored, tail)[0]);
    let first = input.take(33);
    assert(stored + seq![input[32]] =~= first);
    lemma_stored_prefix(empty, stored, seq![input[32]]);
    assert(seq![input[32]].drop_first() =~= Seq::<u8>::empty());
    assert(held_after(stored, seq![input[32]]) == held_after(empty, Seq::<u8>::empty()));
}

} // verus!
