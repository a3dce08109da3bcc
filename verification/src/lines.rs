//! Cutting a byte stream into newline-terminated lines.
//!
//! A line is a run of bytes that ends in exactly one newline byte, which is
//! its last byte. Bytes after the last newline are not a line yet: they stay
//! pending until a later chunk brings their newline.

use vstd::prelude::*;

verus! {

/// The byte that ends a line.
pub const NEWLINE: u8 = 0x0A;

/// The position of the first newline in `s`, or `None` when `s` has none.
pub open spec fn first_newline(s: Seq<u8>) -> Option<int>
    decreases s.len(),
{
    if s.len() == 0 {
        None
    } else if s[0] == NEWLINE {
        Some(0)
    } else {
        match first_newline(s.skip(1)) {
            Some(i) => Some(i + 1),
            None => None,
        }
    }
}

/// `first_newline` finds the least position that holds a newline, and finds
/// none exactly when no position holds one.
pub proof fn lemma_first_newline(s: Seq<u8>)
    ensures
        match first_newline(s) {
            Some(i) => {
                &&& 0 <= i < s.len()
                &&& s[i] == NEWLINE
                &&& forall|j: int| 0 <= j < i ==> s[j] != NEWLINE
            },
            None => forall|j: int| 0 <= j < s.len() ==> s[j] != NEWLINE,
        },
    decreases s.len(),
{
    if s.len() > 0 && s[0] != NEWLINE {
        let rest = s.skip(1);
        lemma_first_newline(rest);
        match first_newline(rest) {
            Some(i) => {
                assert forall|j: int| 0 <= j < i + 1 implies s[j] != NEWLINE by {
                    if j > 0 {
                        assert(rest[j - 1] == s[j]);
                    }
                }
            },
            None => {
                assert forall|j: int| 0 <= j < s.len() implies s[j] != NEWLINE by {
                    if j > 0 {
                        assert(rest[j - 1] == s[j]);
                    }
                }
            },
        }
    }
}

/// A position `i` that holds a newline with none before it is the first.
pub proof fn lemma_first_newline_at(s: Seq<u8>, i: int)
    requires
        0 <= i < s.len(),
        s[i] == NEWLINE,
        forall|j: int| 0 <= j < i ==> s[j] != NEWLINE,
    ensures
        first_newline(s) == Some(i),
{
    lemma_first_newline(s);
}

/// A sequence without any newline has no first one.
pub proof fn lemma_first_newline_none(s: Seq<u8>)
    requires
        forall|j: int| 0 <= j < s.len() ==> s[j] != NEWLINE,
    ensures
        first_newline(s) is None,
{
    lemma_first_newline(s);
}

/// The complete lines of `s`, in the order in which their newlines occur.
/// Each line runs from the byte after the previous newline (or from the
/// start) up to and including its own newline.
pub open spec fn complete_lines(s: Seq<u8>) -> Seq<Seq<u8>>
    decreases s.len(),
    via complete_lines_terminates
{
    match first_newline(s) {
        Some(i) => seq![s.take(i + 1)] + complete_lines(s.skip(i + 1)),
        None => Seq::empty(),
    }
}

#[via_fn]
proof fn complete_lines_terminates(s: Seq<u8>) {
    lemma_first_newline(s);
}

/// What is left of `s` once its complete lines are taken away: the bytes
/// after the last newline, or all of `s` when it has no newline.
pub open spec fn pending_tail(s: Seq<u8>) -> Seq<u8>
    decreases s.len(),
    via pending_tail_terminates
{
    match first_newline(s) {
        Some(i) => pending_tail(s.skip(i + 1)),
        None => s,
    }
}

#[via_fn]
proof fn pending_tail_terminates(s: Seq<u8>) {
    lemma_first_newline(s);
}

/// Whether `l` is one line: it ends in a newline and holds no other.
pub open spec fn is_line(l: Seq<u8>) -> bool {
    &&& l.len() > 0
    &&& l.last() == NEWLINE
    &&& forall|j: int| 0 <= j < l.len() - 1 ==> l[j] != NEWLINE
}

/// How many newline bytes `s` holds.
pub open spec fn newline_count(s: Seq<u8>) -> nat {
    s.to_multiset().count(NEWLINE)
}

/// The lines that leave a reassembler holding `held` when `chunks` are fed
/// to it one after another.
pub open spec fn lines_fed(held: Seq<u8>, chunks: Seq<Seq<u8>>) -> Seq<Seq<u8>>
    decreases chunks.len(),
{
    if chunks.len() == 0 {
        Seq::empty()
    } else {
        complete_lines(held + chunks[0]) + lines_fed(
            pending_tail(held + chunks[0]),
            chunks.skip(1),
        )
    }
}

/// The bytes that a reassembler holding `held` still holds after `chunks`
/// were fed to it one after another.
pub open spec fn held_after(held: Seq<u8>, chunks: Seq<Seq<u8>>) -> Seq<u8>
    decreases chunks.len(),
{
    if chunks.len() == 0 {
        held
    } else {
        held_after(pending_tail(held + chunks[0]), chunks.skip(1))
    }
}

/// A sequence without newlines counts none.
proof fn lemma_newline_count_zero(s: Seq<u8>)
    requires
        forall|j: int| 0 <= j < s.len() ==> s[j] != NEWLINE,
    ensures
        newline_count(s) == 0,
{
    vstd::seq_lib::to_multiset_contains(s, NEWLINE);
}

/// One more byte counts one more newline if it is one.
proof fn lemma_newline_count_push(s: Seq<u8>, byte: u8)
    ensures
        newline_count(s.push(byte)) == newline_count(s) + if byte == NEWLINE {
            1nat
        } else {
            0nat
        },
{
    vstd::seq_lib::to_multiset_build(s, byte);
}

/// Newlines are counted part by part.
proof fn lemma_newline_count_add(a: Seq<u8>, b: Seq<u8>)
    ensures
        newline_count(a + b) == newline_count(a) + newline_count(b),
    decreases b.len(),
{
    if b.len() == 0 {
        assert(a + b =~= a);
        lemma_newline_count_zero(b);
    } else {
        let front = b.drop_last();
        assert(a + b =~= (a + front).push(b.last()));
        assert(b =~= front.push(b.last()));
        lemma_newline_count_add(a, front);
        lemma_newline_count_push(a + front, b.last());
        lemma_newline_count_push(front, b.last());
    }
}

/// Cutting `s` behind its first newline gives one line and the rest.
proof fn lemma_first_line(s: Seq<u8>, i: int)
    requires
        first_newline(s) == Some(i),
    ensures
        0 <= i < s.len(),
        is_line(s.take(i + 1)),
        s.take(i + 1) + s.skip(i + 1) == s,
        newline_count(s.take(i + 1)) == 1,
        complete_lines(s) == seq![s.take(i + 1)] + complete_lines(s.skip(i + 1)),
        pending_tail(s) == pending_tail(s.skip(i + 1)),
{
    lemma_first_newline(s);
    let line = s.take(i + 1);
    assert(line + s.skip(i + 1) =~= s);
    assert(line =~= s.take(i).push(NEWLINE));
    lemma_newline_count_zero(s.take(i));
    lemma_newline_count_push(s.take(i), NEWLINE);
}

/// The complete lines of `s` and its pending tail are a cut of `s` into
/// lines and a newline-free rest: every line ends in the only newline it
/// holds, the tail holds none, lines and tail put together again give `s`,
/// and there are as many lines as `s` has newlines.
pub proof fn lemma_split_is_exact(s: Seq<u8>)
    ensures
        forall|k: int| 0 <= k < complete_lines(s).len() ==> is_line(#[trigger] complete_lines(s)[k]),
        first_newline(pending_tail(s)) is None,
        complete_lines(s).flatten() + pending_tail(s) == s,
        complete_lines(s).len() == newline_count(s),
    decreases s.len(),
{
    lemma_first_newline(s);
    match first_newline(s) {
        Some(i) => {
            let line = s.take(i + 1);
            let rest = s.skip(i + 1);
            lemma_first_line(s, i);
            lemma_split_is_exact(rest);
            let lines = complete_lines(s);
            assert forall|k: int| 0 <= k < lines.len() implies is_line(#[trigger] lines[k]) by {
                if k > 0 {
                    assert(lines[k] == complete_lines(rest)[k - 1]);
                }
            }
            assert(lines.drop_first() =~= complete_lines(rest));
            assert(lines.flatten() == line + complete_lines(rest).flatten());
            assert(lines.flatten() + pending_tail(s) =~= line + (complete_lines(rest).flatten()
                + pending_tail(rest)));
            lemma_newline_count_add(line, rest);
        },
        None => {
            lemma_newline_count_zero(s);
            assert(Seq::<Seq<u8>>::empty().flatten() + s =~= s);
        },
    }
}

/// There is only one way to cut `s` into lines and a newline-free rest:
/// any such cut is the one that `complete_lines` and `pending_tail` give.
pub proof fn lemma_split_is_unique(s: Seq<u8>, lines: Seq<Seq<u8>>, tail: Seq<u8>)
    requires
        forall|k: int| 0 <= k < lines.len() ==> is_line(#[trigger] lines[k]),
        first_newline(tail) is None,
        lines.flatten() + tail == s,
    ensures
        lines == complete_lines(s),
        tail == pending_tail(s),
    decreases lines.len(),
{
    if lines.len() == 0 {
        assert(lines.flatten() + tail =~= tail);
        assert(lines =~= complete_lines(s));
    } else {
        let line = lines[0];
        let more = lines.drop_first();
        let rest = more.flatten() + tail;
        assert(is_line(line));
        assert(s =~= line + rest);
        let i = line.len() - 1;
        lemma_first_newline_at(s, i);
        lemma_first_line(s, i);
        assert(s.take(i + 1) =~= line);
        assert(s.skip(i + 1) =~= rest);
        assert forall|k: int| 0 <= k < more.len() implies is_line(#[trigger] more[k]) by {
            assert(more[k] == lines[k + 1]);
        }
        lemma_split_is_unique(rest, more, tail);
        assert(lines =~= seq![line] + more);
    }
}

/// Bytes that arrive behind `a` do not change the lines that `a` already
/// completes: the lines of `a + b` are those of `a`, followed by those that
/// complete once `b` stands behind what `a` left pending.
pub proof fn lemma_split_append(a: Seq<u8>, b: Seq<u8>)
    ensures
        complete_lines(a + b) == complete_lines(a) + complete_lines(pending_tail(a) + b),
        pending_tail(a + b) == pending_tail(pending_tail(a) + b),
    decreases a.len(),
{
    lemma_first_newline(a);
    match first_newline(a) {
        Some(i) => {
            let rest = a.skip(i + 1);
            lemma_first_newline_at(a + b, i);
            lemma_first_line(a, i);
            lemma_first_line(a + b, i);
            assert((a + b).take(i + 1) =~= a.take(i + 1));
            assert((a + b).skip(i + 1) =~= rest + b);
            lemma_split_append(rest, b);
            assert(complete_lines(a + b) =~= complete_lines(a) + complete_lines(
                pending_tail(a) + b,
            ));
        },
        None => {
            assert(complete_lines(a) + complete_lines(a + b) =~= complete_lines(a + b));
        },
    }
}

/// Feeding a stream in chunks gives the lines of the whole stream, however
/// the stream was cut into chunks, provided that no complete line was held
/// back before the first chunk.
pub proof fn lemma_chunking_is_invisible(held: Seq<u8>, chunks: Seq<Seq<u8>>)
    requires
        first_newline(held) is None,
    ensures
        lines_fed(held, chunks) == complete_lines(held + chunks.flatten()),
        held_after(held, chunks) == pending_tail(held + chunks.flatten()),
    decreases chunks.len(),
{
    if chunks.len() == 0 {
        assert(held + chunks.flatten() =~= held);
    } else {
        let first = held + chunks[0];
        let more = chunks.skip(1);
        lemma_split_is_exact(first);
        lemma_chunking_is_invisible(pending_tail(first), more);
        lemma_split_append(first, more.flatten());
        assert(more =~= chunks.drop_first());
        assert(first + more.flatten() =~= held + chunks.flatten());
    }
}

/// No byte is lost or made up across read boundaries. When a stream reaches
/// an empty reassembler as any sequence of chunks, the lines that come out
/// are the complete lines of the whole stream in order, one for each newline
/// in it; what stays behind is the stream's unterminated end; and the lines
/// followed by what stays behind are the stream itself.
pub proof fn lemma_no_byte_loss(chunks: Seq<Seq<u8>>)
    ensures
        lines_fed(Seq::empty(), chunks) == complete_lines(chunks.flatten()),
        lines_fed(Seq::empty(), chunks).len() == newline_count(chunks.flatten()),
        held_after(Seq::empty(), chunks) == pending_tail(chunks.flatten()),
        lines_fed(Seq::empty(), chunks).flatten() + held_after(Seq::empty(), chunks)
            == chunks.flatten(),
{
    let stream = chunks.flatten();
    lemma_chunking_is_invisible(Seq::empty(), chunks);
    assert(Seq::<u8>::empty() + stream =~= stream);
    lemma_split_is_exact(stream);
}

/// Accumulates the bytes read so far and hands out complete lines.
///
/// The view of a reassembler is the sequence of bytes it holds: everything
/// that was pushed and has not left as part of a line, in arrival order.
pub struct LineReassembler {
    buffer: Vec<u8>,
}

impl View for LineReassembler {
    type V = Seq<u8>;

    closed spec fn view(&self) -> Seq<u8> {
        self.buffer@
    }
}

impl LineReassembler {
    /// A reassembler that holds no bytes.
    pub fn new() -> (r: Self)
        ensures
            r@ == Seq::<u8>::empty(),
    {
        LineReassembler { buffer: Vec::new() }
    }

    /// The bytes held at present.
    pub fn pending(&self) -> (bytes: &[u8])
        ensures
            bytes@ == self@,
    {
        self.buffer.as_slice()
    }

    /// Appends `chunk` behind the bytes already held. An empty chunk changes
    /// nothing.
    pub fn push_chunk(&mut self, chunk: &[u8])
        ensures
            final(self)@ == old(self)@ + chunk@,
    {
        self.buffer.extend_from_slice(chunk);
        assert(self.buffer@ =~= old(self).buffer@ + chunk@);
    }

    /// Takes the first complete line out of the buffer, newline included.
    /// Returns `None`, and leaves the buffer as it is, when no newline has
    /// arrived yet.
    pub fn next_line(&mut self) -> (line: Option<Vec<u8>>)
        ensures
            match first_newline(old(self)@) {
                Some(i) => {
                    &&& line matches Some(bytes)
                    &&& bytes@ == old(self)@.take(i + 1)
                    &&& final(self)@ == old(self)@.skip(i + 1)
                },
                None => line is None && final(self)@ == old(self)@,
            },
    {
        let n: usize = self.buffer.len();
        let mut k: usize = 0;
        while k < n && self.buffer[k] != NEWLINE
            invariant
                n == self.buffer@.len(),
                k <= n,
                self.buffer@ == old(self).buffer@,
                forall|j: int| 0 <= j < k ==> self.buffer@[j] != NEWLINE,
            decreases n - k,
        {
            k += 1;
        }
        if k == n {
            proof {
                lemma_first_newline_none(self.buffer@);
            }
            None
        } else {
            proof {
                lemma_first_newline_at(self.buffer@, k as int);
            }
            // Splitting leaves the line in the buffer and hands back what
            // follows it; the two then change places.
            let mut taken = self.buffer.split_off(k + 1);
            std::mem::swap(&mut self.buffer, &mut taken);
            Some(taken)
        }
    }

    /// Appends `chunk` and takes out every line that is complete by now, in
    /// the order of their newlines. What has no newline yet stays in the
    /// buffer for a later call.
    pub fn feed(&mut self, chunk: &[u8]) -> (lines: Vec<Vec<u8>>)
        ensures
            lines.deep_view() == complete_lines(old(self)@ + chunk@),
            final(self)@ == pending_tail(old(self)@ + chunk@),
    {
        self.push_chunk(chunk);
        let ghost all = self@;
        let mut lines: Vec<Vec<u8>> = Vec::new();
        assert(lines.deep_view() + complete_lines(self@) =~= complete_lines(all));
        loop
            invariant
                lines.deep_view() + complete_lines(self@) == complete_lines(all),
                pending_tail(self@) == pending_tail(all),
            ensures
                lines.deep_view() == complete_lines(all),
                self@ == pending_tail(all),
            decreases self@.len(),
        {
            let ghost before = self@;
            let ghost taken = lines.deep_view();
            proof {
                lemma_first_newline(before);
            }
            match self.next_line() {
                Some(line) => {
                    lines.push(line);
                    proof {
                        let i = first_newline(before).unwrap();
                        lemma_first_line(before, i);
                        assert(line.deep_view() =~= line@);
                        assert(lines.deep_view() =~= taken.push(line@));
                        assert(lines.deep_view() + complete_lines(self@) =~= taken
                            + complete_lines(before));
                    }
                },
                None => {
                    proof {
                        assert(lines.deep_view() + complete_lines(before) =~= lines.deep_view());
                    }
                    break ;
                },
            }
        }
        lines
    }
}

} // verus!
