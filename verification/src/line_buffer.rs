//! Reassembly of protocol lines from the chunks that a transport delivers.
//!
//! The transport hands over bytes in chunks that respect no line boundary. A
//! `LineBuffer` collects them and gives the lines out one by one, each
//! complete and without its terminator. What it holds is specified by the
//! unconsumed byte stream alone, so the way the stream was cut into chunks
//! cannot show in the lines.

use crate::text::{first_index, lemma_first_index, lemma_first_index_is};
use std::collections::VecDeque;
use vstd::prelude::*;
use vstd::utf8::{decode_utf8, valid_utf8};

verus! {

/// Size of the buffer that a transport is read into: a chunk is no longer.
/// The buffer itself takes chunks of any length.
pub const CHUNK_SIZE: usize = 1024;

/// The byte that ends a line.
pub const NEWLINE: u8 = 0x0a;

/// The byte that may stand before `NEWLINE` as part of the terminator.
pub const CARRIAGE_RETURN: u8 = 0x0d;

/// Index of the first `NEWLINE` of `stream`; `stream.len()` where it has none.
pub open spec fn line_end(stream: Seq<u8>) -> int {
    first_index(stream, |b: u8| b == NEWLINE)
}

/// Whether `stream` holds a complete line.
pub open spec fn has_line(stream: Seq<u8>) -> bool {
    line_end(stream) < stream.len()
}

/// `line` without one trailing `CARRIAGE_RETURN`, where it has one.
pub open spec fn without_cr(line: Seq<u8>) -> Seq<u8> {
    if line.len() > 0 && line.last() == CARRIAGE_RETURN {
        line.drop_last()
    } else {
        line
    }
}

/// The first line of `stream`, without its terminator (`NEWLINE`, or
/// `CARRIAGE_RETURN` and `NEWLINE`).
pub open spec fn first_line(stream: Seq<u8>) -> Seq<u8>
    recommends
        has_line(stream),
{
    without_cr(stream.take(line_end(stream)))
}

/// What follows the first line of `stream` and its terminator.
pub open spec fn after_first_line(stream: Seq<u8>) -> Seq<u8>
    recommends
        has_line(stream),
{
    stream.skip(line_end(stream) + 1)
}

/// The complete lines of `stream`, in order, each without its terminator.
pub open spec fn lines_of(stream: Seq<u8>) -> Seq<Seq<u8>>
    decreases stream.len(),
{
    if has_line(stream) {
        proof {
            lemma_first_index(stream, |b: u8| b == NEWLINE);
        }
        seq![first_line(stream)] + lines_of(after_first_line(stream))
    } else {
        Seq::empty()
    }
}

/// What follows the last complete line of `stream`: the line that is still
/// being assembled.
pub open spec fn unfinished(stream: Seq<u8>) -> Seq<u8>
    decreases stream.len(),
{
    if has_line(stream) {
        proof {
            lemma_first_index(stream, |b: u8| b == NEWLINE);
        }
        unfinished(after_first_line(stream))
    } else {
        stream
    }
}

/// The text that `String::from_utf8_lossy` makes of `bytes`.
pub uninterp spec fn lossy_text(bytes: Seq<u8>) -> Seq<char>;

/// Calls `String::from_utf8_lossy`. The contract names the text it returns,
/// and claims that it is the decoded text where `bytes` is valid UTF-8, in
/// which case the standard library returns the input as it stands.
#[verifier::external_body]
fn decode_lossy(bytes: &[u8]) -> (text: String)
    ensures
        text@ == lossy_text(bytes@),
        valid_utf8(bytes@) ==> text@ == decode_utf8(bytes@),
{
    String::from_utf8_lossy(bytes).into_owned()
}

/// What a `LineBuffer` answers when asked for the next line.
#[derive(Debug, PartialEq, Eq)]
pub enum NextLine {
    /// A complete line, without its terminator.
    Line(String),
    /// No complete line is there yet; more bytes may come.
    Empty,
    /// No complete line is there, and the stream has ended.
    EndOfStream,
}

/// What a `LineBuffer` stands for.
pub struct LineBufferView {
    /// The bytes that were fed and not yet given out as lines.
    pub stream: Seq<u8>,
    /// Whether the end of the stream was seen.
    pub closed: bool,
}

/// The buffer `b` after `chunk` was fed to it. An empty chunk is the
/// transport's sign that the stream has ended; after it nothing is taken in.
pub open spec fn fed(b: LineBufferView, chunk: Seq<u8>) -> LineBufferView {
    if b.closed {
        b
    } else if chunk.len() == 0 {
        LineBufferView { stream: b.stream, closed: true }
    } else {
        LineBufferView { stream: b.stream + chunk, closed: false }
    }
}

/// The buffer `b` after each chunk of `chunks` was fed to it in turn.
pub open spec fn fed_all(b: LineBufferView, chunks: Seq<Seq<u8>>) -> LineBufferView
    decreases chunks.len(),
{
    if chunks.len() == 0 {
        b
    } else {
        fed_all(fed(b, chunks.first()), chunks.drop_first())
    }
}

/// Whether `line` is one complete line with its terminator: it ends with
/// `NEWLINE` and holds no other.
pub open spec fn is_complete(line: Seq<u8>) -> bool {
    &&& line.len() > 0
    &&& line.last() == NEWLINE
    &&& forall|j: int| 0 <= j < line.len() - 1 ==> line[j] != NEWLINE
}

/// The bytes of the lines of `queue`, one after the other.
pub open spec fn joined(queue: Seq<Vec<u8>>) -> Seq<u8>
    decreases queue.len(),
{
    if queue.len() == 0 {
        Seq::empty()
    } else {
        queue.first()@ + joined(queue.drop_first())
    }
}

proof fn lemma_joined_push(queue: Seq<Vec<u8>>, line: Vec<u8>)
    ensures
        joined(queue.push(line)) == joined(queue) + line@,
    decreases queue.len(),
{
    let pushed = queue.push(line);
    if queue.len() == 0 {
        assert(pushed.drop_first() =~= Seq::<Vec<u8>>::empty());
        assert(joined(pushed.drop_first()) =~= Seq::<u8>::empty());
        assert(joined(pushed) =~= line@);
        assert(joined(queue) + line@ =~= line@);
    } else {
        assert(pushed.drop_first() =~= queue.drop_first().push(line));
        lemma_joined_push(queue.drop_first(), line);
        assert(joined(pushed) =~= joined(queue) + line@);
    }
}

/// A stream without `NEWLINE` holds no line.
proof fn lemma_no_newline(stream: Seq<u8>)
    requires
        forall|j: int| 0 <= j < stream.len() ==> stream[j] != NEWLINE,
    ensures
        !has_line(stream),
{
    lemma_first_index_is(stream, |b: u8| b == NEWLINE, stream.len() as int);
}

/// A stream that begins with a complete line ends its first line where that
/// line ends.
proof fn lemma_starts_with_line(line: Seq<u8>, rest: Seq<u8>)
    requires
        is_complete(line),
    ensures
        has_line(line + rest),
        line_end(line + rest) == line.len() - 1,
        (line + rest).take(line_end(line + rest)) == line.drop_last(),
        after_first_line(line + rest) == rest,
{
    let stream = line + rest;
    let k = line.len() - 1;
    assert(stream[k] == line[k]);
    assert forall|j: int| 0 <= j < k implies !(|b: u8| b == NEWLINE)(#[trigger] stream[j]) by {
        assert(stream[j] == line[j]);
    }
    lemma_first_index_is(stream, |b: u8| b == NEWLINE, k);
    assert(stream.take(k) =~= line.drop_last());
    assert(stream.skip(k + 1) =~= rest);
}

/// Bytes of a fragmented stream, held until they make complete lines.
///
/// The pending lines stand oldest first. Every one of them but the one that
/// is still being assembled ends with `NEWLINE`, and none holds a `NEWLINE`
/// before its end.
pub struct LineBuffer {
    lines: VecDeque<Vec<u8>>,
    tail: Vec<u8>,
    closed: bool,
}

impl View for LineBuffer {
    type V = LineBufferView;

    closed spec fn view(&self) -> LineBufferView {
        LineBufferView { stream: joined(self.lines@) + self.tail@, closed: self.closed }
    }
}

impl LineBuffer {
    #[verifier::type_invariant]
    spec fn well_formed(self) -> bool {
        &&& forall|i: int| 0 <= i < self.lines@.len() ==> is_complete(#[trigger] self.lines@[i]@)
        &&& forall|j: int| 0 <= j < self.tail@.len() ==> self.tail@[j] != NEWLINE
    }

    /// An empty buffer on an open stream.
    pub fn new() -> (b: LineBuffer)
        ensures
            b@.stream == Seq::<u8>::empty(),
            !b@.closed,
    {
        let b = LineBuffer { lines: VecDeque::new(), tail: Vec::new(), closed: false };
        assert(joined(b.lines@) + b.tail@ =~= Seq::<u8>::empty());
        b
    }

    /// Whether the end of the stream was seen.
    pub fn is_closed(&self) -> (r: bool)
        ensures
            r == self@.closed,
    {
        self.closed
    }

    /// Takes in one chunk as the transport delivered it. An empty chunk marks
    /// the end of the stream; whatever is fed after that is dropped.
    pub fn feed(&mut self, chunk: &[u8])
        ensures
            final(self)@ == fed(old(self)@, chunk@),
    {
        proof {
            use_type_invariant(&*self);
        }
        if self.closed {
            return ;
        }
        if chunk.len() == 0 {
            self.closed = true;
            return ;
        }
        let mut lines: VecDeque<Vec<u8>> = VecDeque::new();
        let mut current: Vec<u8> = Vec::new();
        std::mem::swap(&mut self.lines, &mut lines);
        std::mem::swap(&mut self.tail, &mut current);
        let mut i: usize = 0;
        assert(chunk@.take(0) =~= Seq::<u8>::empty());
        assert(old(self)@.stream + chunk@.take(0) =~= old(self)@.stream);
        while i < chunk.len()
            invariant
                i <= chunk@.len(),
                forall|k: int| 0 <= k < lines@.len() ==> is_complete(#[trigger] lines@[k]@),
                forall|j: int| 0 <= j < current@.len() ==> current@[j] != NEWLINE,
                joined(lines@) + current@ == old(self)@.stream + chunk@.take(i as int),
            decreases chunk@.len() - i,
        {
            let byte: u8 = chunk[i];
            let ghost before = joined(lines@) + current@;
            current.push(byte);
            assert(chunk@.take(i + 1) =~= chunk@.take(i as int).push(byte));
            assert(joined(lines@) + current@ =~= before.push(byte));
            assert(old(self)@.stream + chunk@.take(i + 1) =~= (old(self)@.stream + chunk@.take(
                i as int,
            )).push(byte));
            if byte == NEWLINE {
                let mut line: Vec<u8> = Vec::new();
                std::mem::swap(&mut current, &mut line);
                proof {
                    lemma_joined_push(lines@, line);
                }
                lines.push_back(line);
                assert(joined(lines@) + current@ =~= joined(lines@));
            }
            i += 1;
        }
        assert(chunk@.take(i as int) =~= chunk@);
        self.lines = lines;
        self.tail = current;
    }

    /// Gives out the oldest complete line, decoded and without its
    /// terminator. Where no complete line is there, the buffer stays as it
    /// is, and the answer says whether more bytes may still come.
    pub fn next_line(&mut self) -> (r: NextLine)
        ensures
            has_line(old(self)@.stream) ==> {
                &&& r matches NextLine::Line(text)
                &&& text@ == lossy_text(first_line(old(self)@.stream))
                &&& (valid_utf8(first_line(old(self)@.stream)) ==> text@ == decode_utf8(
                    first_line(old(self)@.stream),
                ))
                &&& final(self)@.stream == after_first_line(old(self)@.stream)
                &&& final(self)@.stream.len() < old(self)@.stream.len()
                &&& final(self)@.closed == old(self)@.closed
            },
            !has_line(old(self)@.stream) ==> {
                &&& final(self)@ == old(self)@
                &&& (old(self)@.closed ==> r is EndOfStream)
                &&& (!old(self)@.closed ==> r is Empty)
            },
    {
        proof {
            use_type_invariant(&*self);
            lemma_first_index(old(self)@.stream, |b: u8| b == NEWLINE);
        }
        let ghost queue = self.lines@;
        let mut lines: VecDeque<Vec<u8>> = VecDeque::new();
        std::mem::swap(&mut self.lines, &mut lines);
        let front = lines.pop_front();
        self.lines = lines;
        match front {
            Some(mut line) => {
                proof {
                    assert(is_complete(queue[0]@));
                    assert(queue.drop_first() =~= self.lines@);
                    lemma_starts_with_line(line@, joined(self.lines@) + self.tail@);
                    assert(old(self)@.stream =~= line@ + (joined(self.lines@) + self.tail@));
                }
                let ghost whole = line@;
                line.pop();
                assert(line@ =~= whole.drop_last());
                let n: usize = line.len();
                if n > 0 && line[n - 1] == CARRIAGE_RETURN {
                    line.pop();
                    assert(line@ =~= whole.drop_last().drop_last());
                }
                NextLine::Line(decode_lossy(line.as_slice()))
            },
            None => {
                proof {
                    assert(joined(self.lines@) + self.tail@ =~= self.tail@);
                    lemma_no_newline(self.tail@);
                }
                if self.closed {
                    NextLine::EndOfStream
                } else {
                    NextLine::Empty
                }
            },
        }
    }
}

/// Feeding two chunks one after the other leaves the buffer as feeding both
/// as one chunk does.
pub proof fn lemma_fed_twice(b: LineBufferView, first: Seq<u8>, second: Seq<u8>)
    requires
        first.len() > 0,
        second.len() > 0,
    ensures
        fed(fed(b, first), second) == fed(b, first + second),
{
    if !b.closed {
        assert((b.stream + first) + second =~= b.stream + (first + second));
    }
}

/// Chunks without an empty one among them, fed to an open buffer, leave it
/// open and holding what it held followed by the bytes of all the chunks.
pub proof fn lemma_fed_all(b: LineBufferView, chunks: Seq<Seq<u8>>)
    requires
        !b.closed,
        forall|i: int| 0 <= i < chunks.len() ==> (#[trigger] chunks[i]).len() > 0,
    ensures
        fed_all(b, chunks) == (LineBufferView {
            stream: b.stream + chunks.flatten(),
            closed: false,
        }),
    decreases chunks.len(),
{
    if chunks.len() == 0 {
        assert(b.stream + chunks.flatten() =~= b.stream);
    } else {
        let rest = chunks.drop_first();
        assert forall|i: int| 0 <= i < rest.len() implies (#[trigger] rest[i]).len() > 0 by {
            assert(rest[i] == chunks[i + 1]);
        }
        lemma_fed_all(fed(b, chunks.first()), rest);
        assert((b.stream + chunks.first()) + rest.flatten() =~= b.stream + chunks.flatten());
    }
}

/// Line reassembly: however a stream of bytes is cut into chunks, none of
/// them empty, feeding the chunks in order leaves the buffer in the same
/// state, so the lines that come out are the same.
pub proof fn lemma_split_points_do_not_matter(
    b: LineBufferView,
    one: Seq<Seq<u8>>,
    other: Seq<Seq<u8>>,
)
    requires
        forall|i: int| 0 <= i < one.len() ==> (#[trigger] one[i]).len() > 0,
        forall|i: int| 0 <= i < other.len() ==> (#[trigger] other[i]).len() > 0,
        one.flatten() == other.flatten(),
    ensures
        fed_all(b, one) == fed_all(b, other),
{
    if b.closed {
        lemma_fed_all_closed(b, one);
        lemma_fed_all_closed(b, other);
    } else {
        lemma_fed_all(b, one);
        lemma_fed_all(b, other);
    }
}

/// A closed buffer takes nothing in.
pub proof fn lemma_fed_all_closed(b: LineBufferView, chunks: Seq<Seq<u8>>)
    requires
        b.closed,
    ensures
        fed_all(b, chunks) == b,
    decreases chunks.len(),
{
    if chunks.len() > 0 {
        lemma_fed_all_closed(b, chunks.drop_first());
    }
}

/// The lines of a stream that grew by `more` are the lines it had, followed
/// by the lines of its unfinished end with `more` behind it. So a buffer that
/// is drained between two chunks gives out what it would have given out had
/// it been drained only after both.
pub proof fn lemma_lines_of_append(stream: Seq<u8>, more: Seq<u8>)
    ensures
        lines_of(stream + more) == lines_of(stream) + lines_of(unfinished(stream) + more),
        unfinished(stream + more) == unfinished(unfinished(stream) + more),
    decreases stream.len(),
{
    let p = |b: u8| b == NEWLINE;
    lemma_first_index(stream, p);
    if has_line(stream) {
        let k = line_end(stream);
        let whole = stream + more;
        assert forall|j: int| 0 <= j < k implies !p(#[trigger] whole[j]) by {
            assert(whole[j] == stream[j]);
        }
        assert(whole[k] == stream[k]);
        lemma_first_index_is(whole, p, k);
        assert(whole.take(k) =~= stream.take(k));
        assert(after_first_line(whole) =~= after_first_line(stream) + more);
        lemma_lines_of_append(after_first_line(stream), more);
        assert(lines_of(whole) =~= lines_of(stream) + lines_of(unfinished(stream) + more));
    } else {
        assert(lines_of(stream) + lines_of(stream + more) =~= lines_of(stream + more));
    }
}

/// A line that holds no `NEWLINE`, sent with `CARRIAGE_RETURN` and `NEWLINE`
/// behind it, comes out as it went in, and nothing is left behind it.
pub proof fn lemma_framed_line_comes_out(line: Seq<u8>)
    requires
        forall|j: int| 0 <= j < line.len() ==> line[j] != NEWLINE,
    ensures
        lines_of(line + seq![CARRIAGE_RETURN, NEWLINE]) == seq![line],
        unfinished(line + seq![CARRIAGE_RETURN, NEWLINE]) == Seq::<u8>::empty(),
{
    let stream = line + seq![CARRIAGE_RETURN, NEWLINE];
    let p = |b: u8| b == NEWLINE;
    let k = line.len() + 1;
    assert forall|j: int| 0 <= j < k implies !p(#[trigger] stream[j]) by {
        if j < line.len() {
            assert(stream[j] == line[j]);
        }
    }
    assert(stream[k as int] == NEWLINE);
    lemma_first_index_is(stream, p, k as int);
    assert(stream.take(k as int) =~= line.push(CARRIAGE_RETURN));
    assert(line.push(CARRIAGE_RETURN).drop_last() =~= line);
    assert(first_line(stream) == line);
    let rest = after_first_line(stream);
    assert(rest =~= Seq::<u8>::empty());
    lemma_no_newline(rest);
    assert(lines_of(rest) =~= Seq::<Seq<u8>>::empty());
    assert(unfinished(rest) == rest);
    assert(lines_of(stream) =~= seq![line]);
}

} // verus!
