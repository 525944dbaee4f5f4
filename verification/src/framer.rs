//! Line framing: text arrives in chunks of any size and leaves as whole
//! lines, each ending in a line feed.

use crate::text::{chars_of, string_of};
use vstd::prelude::*;
use vstd::string::StringSliceAdditionalSpecFns;
use vstd::utf8::{
    decode_first_scalar, decode_utf8, encode_utf8_decode_utf8, pop_first_scalar, valid_utf8,
    valid_utf8_concat,
};

verus! {

/// The index of the first line feed in `text`, or the length of `text` where
/// it holds none.
pub open spec fn newline_at(text: Seq<char>) -> nat
    decreases text.len(),
{
    if text.len() == 0 || text.first() == '\n' {
        0
    } else {
        1 + newline_at(text.drop_first())
    }
}

/// `text` holds a complete line.
pub open spec fn has_line(text: Seq<char>) -> bool {
    newline_at(text) < text.len()
}

/// The first line of `text`, line feed included.
pub open spec fn first_line(text: Seq<char>) -> Seq<char> {
    text.take(newline_at(text) as int + 1)
}

/// What follows the first line of `text`.
pub open spec fn after_first_line(text: Seq<char>) -> Seq<char> {
    text.skip(newline_at(text) as int + 1)
}

/// The complete lines of `text`, in order.
pub open spec fn lines(text: Seq<char>) -> Seq<Seq<char>>
    decreases text.len(),
{
    if has_line(text) {
        seq![first_line(text)] + lines(after_first_line(text))
    } else {
        Seq::empty()
    }
}

/// What is left of `text` after its last line feed.
pub open spec fn remainder(text: Seq<char>) -> Seq<char>
    decreases text.len(),
{
    if has_line(text) {
        remainder(after_first_line(text))
    } else {
        text
    }
}

/// The texts of `parts` put end to end.
pub open spec fn joined(parts: Seq<Seq<char>>) -> Seq<char>
    decreases parts.len(),
{
    if parts.len() == 0 {
        Seq::empty()
    } else {
        parts.first() + joined(parts.drop_first())
    }
}

/// The text that a chunk of bytes contributes: its decoding where the bytes
/// are valid UTF-8, and nothing where they are not.
pub open spec fn chunk_text(bytes: Seq<u8>) -> Seq<char> {
    if valid_utf8(bytes) {
        decode_utf8(bytes)
    } else {
        Seq::empty()
    }
}

/// `newline_at` marks the first line feed: nothing before it is one, and it
/// is one unless the text has none.
pub proof fn lemma_newline_at(text: Seq<char>)
    ensures
        newline_at(text) <= text.len(),
        forall|i: int| 0 <= i < newline_at(text) ==> #[trigger] text[i] != '\n',
        has_line(text) ==> text[newline_at(text) as int] == '\n',
    decreases text.len(),
{
    if !(text.len() == 0 || text.first() == '\n') {
        let rest = text.drop_first();
        lemma_newline_at(rest);
        assert forall|i: int| 0 <= i < newline_at(text) implies #[trigger] text[i] != '\n' by {
            if i > 0 {
                assert(text[i] == rest[i - 1]);
            }
        }
        if has_line(text) {
            assert(text[newline_at(text) as int] == rest[newline_at(rest) as int]);
        }
    }
}

/// An index with no line feed before it, and one at it or the end of the
/// text, is `newline_at`.
pub proof fn lemma_newline_at_is(text: Seq<char>, k: int)
    requires
        0 <= k <= text.len(),
        forall|i: int| 0 <= i < k ==> #[trigger] text[i] != '\n',
        k < text.len() ==> text[k] == '\n',
    ensures
        newline_at(text) == k,
{
    lemma_newline_at(text);
    let n = newline_at(text) as int;
    if n < k {
        assert(text[n] != '\n');
    } else if n > k {
        assert(text[k] != '\n');
    }
}

/// Framing loses nothing and holds nothing back: the lines, put end to end
/// and followed by the remainder, are the text; the remainder has no line
/// feed; and each line ends at its only line feed.
pub proof fn lemma_lines_rejoin(text: Seq<char>)
    ensures
        joined(lines(text)) + remainder(text) == text,
        forall|i: int| 0 <= i < remainder(text).len() ==> #[trigger] remainder(text)[i] != '\n',
        forall|k: int|
            0 <= k < lines(text).len() ==> {
                let line = #[trigger] lines(text)[k];
                &&& line.len() > 0
                &&& line.last() == '\n'
                &&& newline_at(line) == line.len() - 1
            },
    decreases text.len(),
{
    lemma_newline_at(text);
    if has_line(text) {
        let head = first_line(text);
        let tail = after_first_line(text);
        lemma_lines_rejoin(tail);
        let all = seq![head] + lines(tail);
        assert(all.first() == head);
        assert(all.drop_first() =~= lines(tail));
        assert(joined(all) == head + joined(lines(tail)));
        assert(head + joined(lines(tail)) + remainder(tail) =~= head + (joined(lines(tail))
            + remainder(tail)));
        assert(head + tail =~= text);
        assert forall|i: int| 0 <= i < head.len() - 1 implies #[trigger] head[i] != '\n' by {
            assert(head[i] == text[i]);
        }
        lemma_newline_at_is(head, head.len() - 1);
        assert forall|k: int| 0 <= k < lines(text).len() implies {
            let line = #[trigger] lines(text)[k];
            &&& line.len() > 0
            &&& line.last() == '\n'
            &&& newline_at(line) == line.len() - 1
        } by {
            if k > 0 {
                assert(lines(text)[k] == lines(tail)[k - 1]);
            }
        }
    } else {
        assert(joined(lines(text)) + remainder(text) =~= text);
    }
}

/// Framing may be done piece by piece: the lines of `a` followed by `b` are
/// the lines of `a`, then the lines of what `a` left over followed by `b`.
pub proof fn lemma_lines_append(a: Seq<char>, b: Seq<char>)
    ensures
        lines(a + b) == lines(a) + lines(remainder(a) + b),
        remainder(a + b) == remainder(remainder(a) + b),
    decreases a.len(),
{
    lemma_newline_at(a);
    if has_line(a) {
        let k = newline_at(a) as int;
        assert forall|i: int| 0 <= i < k implies #[trigger] (a + b)[i] != '\n' by {
            assert((a + b)[i] == a[i]);
        }
        assert((a + b)[k] == a[k]);
        lemma_newline_at_is(a + b, k);
        assert(first_line(a + b) =~= first_line(a));
        assert(after_first_line(a + b) =~= after_first_line(a) + b);
        lemma_lines_append(after_first_line(a), b);
        assert(lines(a + b) =~= lines(a) + lines(remainder(a) + b));
    } else {
        assert(lines(a) + lines(a + b) =~= lines(a + b));
    }
}

/// Chunks that are text may be cut anywhere between two characters: the text
/// of two such chunks, one after the other, is the text of both as one
/// chunk.
pub proof fn lemma_chunk_text_concat(a: Seq<u8>, b: Seq<u8>)
    requires
        valid_utf8(a),
        valid_utf8(b),
    ensures
        valid_utf8(a + b),
        chunk_text(a + b) == chunk_text(a) + chunk_text(b),
    decreases a.len(),
{
    valid_utf8_concat(a, b);
    if a.len() == 0 {
        assert(a + b =~= b);
        assert(chunk_text(a) + chunk_text(b) =~= chunk_text(b));
    } else {
        let rest = pop_first_scalar(a);
        assert(rest.len() < a.len());
        lemma_chunk_text_concat(rest, b);
        assert(pop_first_scalar(a + b) =~= rest + b);
        assert(decode_first_scalar(a + b) == decode_first_scalar(a));
        assert(decode_utf8(a + b) =~= decode_utf8(a) + decode_utf8(b));
    }
}

/// The line framer: text received and not yet handed out as lines.
pub struct Framer {
    buffer: Vec<char>,
}

impl View for Framer {
    type V = Seq<char>;

    closed spec fn view(&self) -> Seq<char> {
        self.buffer@
    }
}

/// The peer closed the connection: a read came back empty.
#[derive(Clone, Copy, Debug, PartialEq, Eq, Structural)]
pub struct Closed;

/// Validates and borrows bytes as text.
///
/// Trusted: this is `core::str::from_utf8`, which std documents as returning
/// the bytes as a string slice exactly when they are valid UTF-8, and an
/// error otherwise.
#[verifier::external_body]
fn utf8_text(bytes: &[u8]) -> (r: Option<&str>)
    ensures
        r is Some <==> valid_utf8(bytes@),
        r matches Some(s) ==> s.spec_bytes() == bytes@,
{
    core::str::from_utf8(bytes).ok()
}

impl Framer {
    /// A framer that holds no text.
    pub fn new() -> (framer: Framer)
        ensures
            framer@ == Seq::<char>::empty(),
    {
        Framer { buffer: Vec::new() }
    }

    /// The number of characters held back.
    pub fn pending(&self) -> (n: usize)
        ensures
            n == self@.len(),
    {
        self.buffer.len()
    }

    /// Takes in text.
    pub fn push_text(&mut self, text: &str)
        ensures
            final(self)@ == old(self)@ + text@,
    {
        let mut chars = chars_of(text);
        self.buffer.append(&mut chars);
    }

    /// Takes in the bytes of one read. An empty read means that the peer
    /// closed the connection. Bytes that are not valid UTF-8 contribute no
    /// text.
    pub fn accept(&mut self, bytes: &[u8]) -> (r: Result<(), Closed>)
        ensures
            r is Err <==> bytes@.len() == 0,
            final(self)@ == old(self)@ + chunk_text(bytes@),
    {
        if bytes.len() == 0 {
            assert(chunk_text(bytes@) =~= Seq::<char>::empty());
            assert(self@ + Seq::<char>::empty() =~= self@);
            return Err(Closed);
        }
        match utf8_text(bytes) {
            Some(text) => {
                proof {
                    encode_utf8_decode_utf8(text@);
                }
                self.push_text(text);
            },
            None => {
                assert(self@ + Seq::<char>::empty() =~= self@);
            },
        }
        Ok(())
    }

    /// Hands out the first complete line, line feed included, or `None`
    /// where no line feed has arrived yet.
    pub fn next_line(&mut self) -> (r: Option<String>)
        ensures
            r is Some <==> has_line(old(self)@),
            r matches Some(line) ==> line@ == first_line(old(self)@) && final(self)@
                == after_first_line(old(self)@),
            r is None ==> final(self)@ == old(self)@,
    {
        let n = self.buffer.len();
        let mut k: usize = 0;
        while k < n && self.buffer[k] != '\n'
            invariant
                n == self.buffer@.len(),
                k <= n,
                forall|i: int| 0 <= i < k ==> #[trigger] self.buffer@[i] != '\n',
            decreases n - k,
        {
            k += 1;
        }
        proof {
            lemma_newline_at_is(self.buffer@, k as int);
        }
        if k == n {
            return None;
        }
        let mut line = self.buffer.split_off(k + 1);
        std::mem::swap(&mut self.buffer, &mut line);
        Some(string_of(line.as_slice()))
    }

    /// Hands out every complete line, in order.
    pub fn drain(&mut self) -> (out: Vec<String>)
        ensures
            out.deep_view() == lines(old(self)@),
            final(self)@ == remainder(old(self)@),
    {
        let mut out: Vec<String> = Vec::new();
        loop
            invariant
                lines(old(self)@) == out.deep_view() + lines(self@),
                remainder(old(self)@) == remainder(self@),
            ensures
                out.deep_view() == lines(old(self)@),
                self@ == remainder(old(self)@),
            decreases self@.len(),
        {
            let ghost before = self@;
            let ghost done = out.deep_view();
            match self.next_line() {
                Some(line) => {
                    out.push(line);
                    proof {
                        assert(out.deep_view() =~= done.push(line@));
                        assert(done + lines(before) =~= done.push(line@) + lines(self@));
                    }
                },
                None => {
                    assert(out.deep_view() + lines(self@) =~= out.deep_view());
                    break ;
                },
            }
        }
        out
    }
}

} // verus!
