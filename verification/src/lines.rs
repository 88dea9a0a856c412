//! Line-wise reading of a byte stream that arrives in arbitrary chunks.
use crate::text;
use crate::text::chomp;
use vstd::prelude::*;

verus! {

/// What `String::from_utf8_lossy` reads in some bytes.
pub uninterp spec fn lossy_text(bytes: Seq<u8>) -> Seq<char>;

/// The text of `bytes`: `String::from_utf8_lossy`.
///
/// The result is a function of the bytes; bytes that are well-formed UTF-8 are
/// read as they stand.
#[verifier::external_body]
pub(crate) fn decode_lossy(bytes: &[u8]) -> (text: String)
    ensures
        text@ == lossy_text(bytes@),
        vstd::utf8::valid_utf8(bytes@) ==> text@ == vstd::utf8::decode_utf8(bytes@),
{
    String::from_utf8_lossy(bytes).into_owned()
}

/// The position of the first line feed, or the length where there is none.
pub open spec fn feed_at(bytes: Seq<u8>) -> int
    decreases bytes.len(),
{
    if bytes.len() == 0 || bytes[0] == 10 {
        0
    } else {
        1 + feed_at(bytes.skip(1))
    }
}

pub proof fn lemma_feed_at(bytes: Seq<u8>, at: int)
    requires
        0 <= at <= bytes.len(),
        forall|k: int| 0 <= k < at ==> bytes[k] != 10,
        at < bytes.len() ==> bytes[at] == 10,
    ensures
        feed_at(bytes) == at,
    decreases bytes.len(),
{
    if at > 0 {
        lemma_feed_at(bytes.skip(1), at - 1);
    }
}

pub proof fn lemma_feed_bounds(bytes: Seq<u8>)
    ensures
        0 <= feed_at(bytes) <= bytes.len(),
        forall|k: int| 0 <= k < feed_at(bytes) ==> bytes[k] != 10,
        feed_at(bytes) < bytes.len() ==> bytes[feed_at(bytes)] == 10,
    decreases bytes.len(),
{
    if bytes.len() > 0 && bytes[0] != 10 {
        lemma_feed_bounds(bytes.skip(1));
        let at = feed_at(bytes.skip(1));
        assert forall|k: int| 0 <= k < 1 + at implies bytes[k] != 10 by {
            if k > 0 {
                assert(bytes.skip(1)[k - 1] == bytes[k]);
            }
        }
    }
}

/// Whether `bytes` holds a complete line.
pub open spec fn has_line(bytes: Seq<u8>) -> bool {
    feed_at(bytes) < bytes.len()
}

/// The text of the first line of `bytes`, without its line ending.
pub open spec fn first_line(bytes: Seq<u8>) -> Seq<char> {
    text::chomped(lossy_text(bytes.take(feed_at(bytes) + 1)))
}

/// What follows the first line of `bytes`.
pub open spec fn after_line(bytes: Seq<u8>) -> Seq<u8> {
    bytes.skip(feed_at(bytes) + 1)
}

/// Takes the first complete line off `buffer`.
pub fn take_line(buffer: &mut Vec<u8>) -> (line: Option<String>)
    ensures
        match line {
            Some(line) => {
                &&& has_line(old(buffer)@)
                &&& text::chomped(line@) == first_line(old(buffer)@)
                &&& final(buffer)@ == after_line(old(buffer)@)
                &&& final(buffer)@.len() < old(buffer)@.len()
            },
            None => !has_line(old(buffer)@) && final(buffer)@ == old(buffer)@,
        },
{
    let mut at: usize = 0;
    let ghost all = buffer@;
    while at < buffer.len() && buffer[at] != 10
        invariant
            at <= buffer@.len(),
            buffer@ == all,
            forall|k: int| 0 <= k < at ==> all[k] != 10,
        decreases buffer@.len() - at,
    {
        at += 1;
    }
    proof {
        lemma_feed_at(all, at as int);
    }
    if at < buffer.len() {
        let mut rest = buffer.split_off(at + 1);
        assert(rest@ == after_line(all));
        assert(buffer@ == all.take(at + 1));
        std::mem::swap(buffer, &mut rest);
        let line = decode_lossy(rest.as_slice());
        Some(line)
    } else {
        None
    }
}

/// Whether `bytes` holds a complete line.
pub fn holds_line(bytes: &Vec<u8>) -> (found: bool)
    ensures
        found == has_line(bytes@),
{
    let mut at: usize = 0;
    while at < bytes.len() && bytes[at] != 10
        invariant
            at <= bytes@.len(),
            forall|k: int| 0 <= k < at ==> bytes@[k] != 10,
        decreases bytes@.len() - at,
    {
        at += 1;
    }
    proof {
        lemma_feed_at(bytes@, at as int);
    }
    at < bytes.len()
}

/// Takes the bytes of the first complete line off `buffer`, without the line break.
pub fn split_line(buffer: &mut Vec<u8>) -> (line: Option<Vec<u8>>)
    ensures
        match line {
            Some(line) => {
                &&& has_line(old(buffer)@)
                &&& line@ == old(buffer)@.take(feed_at(old(buffer)@))
                &&& final(buffer)@ == after_line(old(buffer)@)
            },
            None => !has_line(old(buffer)@) && final(buffer)@ == old(buffer)@,
        },
{
    let mut at: usize = 0;
    let ghost all = buffer@;
    while at < buffer.len() && buffer[at] != 10
        invariant
            at <= buffer@.len(),
            buffer@ == all,
            forall|k: int| 0 <= k < at ==> all[k] != 10,
        decreases buffer@.len() - at,
    {
        at += 1;
    }
    proof {
        lemma_feed_at(all, at as int);
    }
    if at < buffer.len() {
        let mut rest = buffer.split_off(at + 1);
        assert(rest@ == after_line(all));
        std::mem::swap(buffer, &mut rest);
        let _ = rest.pop();
        assert(rest@ == all.take(at as int));
        Some(rest)
    } else {
        None
    }
}

/// Appends `chunk` to `buffer`.
pub fn append_bytes(buffer: &mut Vec<u8>, chunk: &[u8])
    ensures
        final(buffer)@ == old(buffer)@ + chunk@,
{
    let mut i: usize = 0;
    let ghost before = buffer@;
    while i < chunk.len()
        invariant
            i <= chunk@.len(),
            buffer@ == before + chunk@.take(i as int),
        decreases chunk@.len() - i,
    {
        buffer.push(chunk[i]);
        assert(buffer@ == before + chunk@.take(i + 1));
        i += 1;
    }
    assert(chunk@.take(i as int) == chunk@);
}

/// A reader that consumes a stream line by line.
///
/// Its state is what the lines have told it so far; each line moves it by one
/// step, until it is stopped.
pub trait LineReader: Sized {
    type State;

    spec fn state(&self) -> Self::State;

    /// The state after one more line.
    spec fn step(state: Self::State, line: Seq<char>) -> Self::State;

    /// Whether no further line may be read before the caller has acted.
    spec fn stopped(state: Self::State) -> bool;

    fn is_stopped(&self) -> (stopped: bool)
        ensures
            stopped == Self::stopped(self.state()),
    ;

    fn process_line(&mut self, line: &str)
        ensures
            final(self).state() == Self::step(old(self).state(), line@),
    ;
}

/// The state after all complete lines of `bytes`, and the bytes that are left.
pub open spec fn read_lines<R: LineReader>(state: R::State, bytes: Seq<u8>) -> (R::State, Seq<u8>)
    decreases bytes.len(),
{
    if !R::stopped(state) && has_line(bytes) && 0 <= feed_at(bytes) {
        read_lines::<R>(R::step(state, first_line(bytes)), after_line(bytes))
    } else {
        (state, bytes)
    }
}

/// Reads the complete lines in `buffer`, and leaves the rest in it.
pub fn drain<R: LineReader>(reader: &mut R, buffer: &mut Vec<u8>)
    ensures
        (final(reader).state(), final(buffer)@) == read_lines::<R>(
            old(reader).state(),
            old(buffer)@,
        ),
{
    let ghost goal = read_lines::<R>(reader.state(), buffer@);
    while !reader.is_stopped()
        invariant_except_break
            read_lines::<R>(reader.state(), buffer@) == goal,
        ensures
            (reader.state(), buffer@) == goal,
        decreases buffer@.len(),
    {
        proof {
            lemma_feed_bounds(buffer@);
        }
        match take_line(buffer) {
            Some(line) => {
                reader.process_line(chomp(line.as_str()));
            },
            None => {
                break ;
            },
        }
    }
}

/// Appends `chunk` to `buffer` and reads the complete lines in it.
pub fn feed<R: LineReader>(reader: &mut R, buffer: &mut Vec<u8>, chunk: &[u8])
    ensures
        (final(reader).state(), final(buffer)@) == read_lines::<R>(
            old(reader).state(),
            old(buffer)@ + chunk@,
        ),
{
    append_bytes(buffer, chunk);
    drain(reader, buffer);
}

/// A stream may be cut anywhere: reading `a` and then `b` leaves the reader
/// where reading both at once would have.
pub proof fn law_stream_may_be_cut_anywhere<R: LineReader>(state: R::State, a: Seq<u8>, b: Seq<u8>)
    ensures
        ({
            let (middle, rest) = read_lines::<R>(state, a);
            read_lines::<R>(middle, rest + b)
        }) == read_lines::<R>(state, a + b),
    decreases a.len(),
{
    lemma_feed_bounds(a);
    if !R::stopped(state) && has_line(a) {
        let at = feed_at(a);
        assert((a + b)[at] == a[at]);
        assert forall|k: int| 0 <= k < at implies (a + b)[k] != 10 by {
            assert((a + b)[k] == a[k]);
        }
        lemma_feed_at(a + b, at);
        assert((a + b).take(at + 1) == a.take(at + 1));
        assert(after_line(a + b) == after_line(a) + b);
        law_stream_may_be_cut_anywhere::<R>(R::step(state, first_line(a)), after_line(a), b);
    }
}

/// The line that is left at the end of a stream, without white space around it.
pub open spec fn last_line(bytes: Seq<u8>) -> Seq<char> {
    text::trimmed(lossy_text(bytes))
}

} // verus!
