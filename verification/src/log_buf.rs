//! In-memory log buffer + line writer.
//!
//! The tracing layer writes into a `LogWriter`; when an event is
//! complete its text is split into lines and committed to a bounded
//! `LogBuffer`, which the in-game log console reads via `recent(n)`.
//! The buffer keeps the newest `max_lines` lines, oldest first.
use crate::text::{chars_of, is_ws, string_from_chars, trim_end, trim_end_len, slice_chars};
use std::collections::VecDeque;
use vstd::prelude::*;
use vstd::utf8::{decode_utf8, valid_utf8};

verus! {

pub const DEFAULT_CAPACITY: usize = 1024;

/// The newest `m` elements of `s` (all of them when there are fewer).
pub open spec fn keep_last<A>(s: Seq<A>, m: nat) -> Seq<A> {
    if s.len() > m {
        s.skip(s.len() - m)
    } else {
        s
    }
}

/// Pushing `lines` one at a time into a ring that keeps `m` lines.
pub open spec fn push_all(s: Seq<Seq<char>>, lines: Seq<Seq<char>>, m: nat) -> Seq<Seq<char>>
    decreases lines.len(),
{
    if lines.len() == 0 {
        s
    } else {
        keep_last(push_all(s, lines.drop_last(), m).push(lines.last()), m)
    }
}

pub struct LogBuffer {
    lines: VecDeque<String>,
    max_lines: usize,
}

impl View for LogBuffer {
    type V = Seq<Seq<char>>;

    closed spec fn view(&self) -> Seq<Seq<char>> {
        self.lines@.map_values(|s: String| s@)
    }
}

impl LogBuffer {
    pub closed spec fn max(&self) -> nat {
        self.max_lines as nat
    }

    /// A fresh, empty buffer keeping at most `max_lines` lines.
    pub fn install(max_lines: usize) -> (b: Self)
        ensures
            b@ == Seq::<Seq<char>>::empty(),
            b.max() == max_lines,
    {
        let b = LogBuffer { lines: VecDeque::new(), max_lines };
        assert(b@ =~= Seq::<Seq<char>>::empty());
        b
    }

    pub fn max_lines(&self) -> (m: usize)
        ensures
            m == self.max(),
    {
        self.max_lines
    }

    /// Append one line, dropping the oldest lines beyond capacity.
    pub fn push_line(&mut self, line: &str)
        ensures
            final(self).max() == old(self).max(),
            final(self)@ == keep_last(old(self)@.push(line@), old(self).max()),
    {
        let ghost full = old(self)@.push(line@);
        self.lines.push_back(line.to_owned());
        assert(self@ =~= full);
        let ghost mut dropped: int = 0;
        while self.lines.len() > self.max_lines
            invariant
                self.max() == old(self).max(),
                0 <= dropped <= full.len(),
                self@ == full.skip(dropped),
                self.lines@.len() == full.len() - dropped,
                dropped > 0 ==> full.len() - dropped >= self.max(),
            decreases self.lines@.len(),
        {
            let ghost before = self.lines@;
            let popped = self.lines.pop_front();
            proof {
                assert(popped is Some);
                assert(self.lines@ == before.subrange(1, before.len() as int));
                assert(before.map_values(|s: String| s@) == full.skip(dropped));
                assert forall|k: int| 0 <= k < self.lines@.len() implies #[trigger] self@[k] == full.skip(
                    dropped + 1,
                )[k] by {
                    assert(self@[k] == self.lines@[k]@);
                    assert(self.lines@[k] == before[k + 1]);
                    assert(before.map_values(|s: String| s@)[k + 1] == before[k + 1]@);
                }
                dropped = dropped + 1;
                assert(self@ =~= full.skip(dropped));
            }
        }
        assert(self@ =~= keep_last(full, old(self).max()));
    }

    /// The last `n` lines in chronological order (oldest first).
    pub fn recent(&self, n: usize) -> (v: Vec<String>)
        ensures
            v@.map_values(|s: String| s@) == keep_last(self@, n as nat),
    {
        let len = self.lines.len();
        let skip = len.saturating_sub(n);
        let mut v: Vec<String> = Vec::new();
        let mut i = skip;
        while i < len
            invariant
                skip <= i <= len,
                len == self.lines@.len(),
                v@.map_values(|s: String| s@) == self@.subrange(skip as int, i as int),
            decreases len - i,
        {
            let line = self.lines[i].clone();
            let ghost before = v@;
            v.push(line);
            assert(v@.map_values(|s: String| s@) =~= before.map_values(|s: String| s@).push(
                self@[i as int],
            ));
            assert(self@.subrange(skip as int, i + 1) =~= self@.subrange(skip as int, i as int).push(
                self@[i as int],
            ));
            i = i + 1;
        }
        assert(self@.subrange(skip as int, len as int) =~= keep_last(self@, n as nat));
        v
    }

    pub fn len(&self) -> (n: usize)
        ensures
            n == self@.len(),
    {
        self.lines.len()
    }

    pub fn is_empty(&self) -> (b: bool)
        ensures
            b == (self@.len() == 0),
    {
        self.lines.len() == 0
    }

    /// A writer that collects one event's text for this buffer.
    pub fn make_writer(&self) -> (w: LogWriter)
        ensures
            w.pending@ == Seq::<u8>::empty(),
    {
        LogWriter { pending: Vec::new() }
    }
}

impl Default for LogBuffer {
    fn default() -> (b: Self)
        ensures
            b@ == Seq::<Seq<char>>::empty(),
            b.max() == DEFAULT_CAPACITY,
    {
        Self::install(DEFAULT_CAPACITY)
    }
}

/// Pushing lines one at a time keeps the newest `m` of them all.
pub proof fn lemma_push_all_keeps_newest(s: Seq<Seq<char>>, lines: Seq<Seq<char>>, m: nat)
    requires
        s.len() <= m,
    ensures
        push_all(s, lines, m) == keep_last(s + lines, m),
    decreases lines.len(),
{
    if lines.len() > 0 {
        lemma_push_all_keeps_newest(s, lines.drop_last(), m);
        let a = s + lines.drop_last();
        assert(s + lines =~= a.push(lines.last()));
        lemma_keep_last_push(a, lines.last(), m);
    } else {
        assert(s + lines =~= s);
    }
}

/// Trimming before or after a push gives the same ring.
pub proof fn lemma_keep_last_push<A>(a: Seq<A>, x: A, m: nat)
    ensures
        keep_last(keep_last(a, m).push(x), m) == keep_last(a.push(x), m),
{
    if a.len() > m {
        assert(keep_last(a, m).push(x).len() == m + 1);
        assert(keep_last(keep_last(a, m).push(x), m) =~= keep_last(a.push(x), m));
    } else {
        assert(keep_last(a, m).push(x) =~= a.push(x));
    }
}

/// The pieces `split('\n')` yields, empty ones included.
pub open spec fn split_nl(t: Seq<char>) -> Seq<Seq<char>>
    decreases t.len(),
{
    if t.len() == 0 {
        seq![Seq::<char>::empty()]
    } else {
        let prev = split_nl(t.drop_last());
        if t.last() == '\n' {
            prev.push(Seq::<char>::empty())
        } else {
            prev.update(prev.len() - 1, prev.last().push(t.last()))
        }
    }
}

/// Of the pieces, the trimmed non-empty ones.
pub open spec fn kept_lines(pieces: Seq<Seq<char>>) -> Seq<Seq<char>>
    decreases pieces.len(),
{
    if pieces.len() == 0 {
        Seq::<Seq<char>>::empty()
    } else {
        let prev = kept_lines(pieces.drop_last());
        if trim_end(pieces.last()).len() > 0 {
            prev.push(trim_end(pieces.last()))
        } else {
            prev
        }
    }
}

/// The lines a committed event contributes: its text split on `'\n'`,
/// each piece stripped of trailing whitespace (`'\r'` included), empty
/// pieces skipped.
pub open spec fn log_lines(text: Seq<char>) -> Seq<Seq<char>> {
    kept_lines(split_nl(text))
}

/// What `String::from_utf8_lossy` makes of `bytes`.
pub uninterp spec fn utf8_lossy(bytes: Seq<u8>) -> Seq<char>;

/// `String::from_utf8_lossy`: decodes the bytes, replacing invalid
/// sequences with U+FFFD; valid UTF-8 comes back unchanged.
#[verifier::external_body]
fn from_utf8_lossy(bytes: &[u8]) -> (s: String)
    ensures
        s@ == utf8_lossy(bytes@),
        valid_utf8(bytes@) ==> s@ == decode_utf8(bytes@),
{
    String::from_utf8_lossy(bytes).into_owned()
}

/// Collects the bytes of a single log event and commits them as
/// complete lines to a `LogBuffer`.
pub struct LogWriter {
    pub pending: Vec<u8>,
}

impl LogWriter {
    /// Accept `buf` in full; the count written is its length.
    pub fn write(&mut self, buf: &[u8]) -> (n: usize)
        ensures
            final(self).pending@ == old(self).pending@ + buf@,
            n == buf@.len(),
    {
        let mut i: usize = 0;
        let ghost start = self.pending@;
        while i < buf.len()
            invariant
                i <= buf@.len(),
                self.pending@ == start + buf@.take(i as int),
            decreases buf.len() - i,
        {
            self.pending.push(buf[i]);
            assert(buf@.take(i + 1) =~= buf@.take(i as int).push(buf@[i as int]));
            i = i + 1;
        }
        assert(buf@.take(buf@.len() as int) =~= buf@);
        buf.len()
    }

    /// Commit the collected text to `buffer`, one line at a time.
    pub fn commit(self, buffer: &mut LogBuffer)
        ensures
            final(buffer).max() == old(buffer).max(),
            self.pending@.len() == 0 ==> final(buffer)@ == old(buffer)@,
            self.pending@.len() > 0 ==> final(buffer)@ == push_all(
                old(buffer)@,
                log_lines(utf8_lossy(self.pending@)),
                old(buffer).max(),
            ),
    {
        if self.pending.len() == 0 {
            return;
        }
        let text = from_utf8_lossy(self.pending.as_slice());
        let chars = chars_of(text.as_str());
        let ghost t = chars@;
        let mut cur: Vec<char> = Vec::new();
        let ghost mut done: Seq<Seq<char>> = Seq::empty();
        let mut i: usize = 0;
        assert(t.take(0) =~= Seq::<char>::empty());
        while i < chars.len()
            invariant
                t == chars@,
                t == utf8_lossy(self.pending@),
                i <= t.len(),
                split_nl(t.take(i as int)) == done.push(cur@),
                buffer.max() == old(buffer).max(),
                buffer@ == push_all(old(buffer)@, kept_lines(done), old(buffer).max()),
            decreases chars.len() - i,
        {
            let c = chars[i];
            assert(t.take(i + 1).drop_last() =~= t.take(i as int));
            if c == '\n' {
                let n = trim_end_len(&cur);
                proof {
                    let nd = done.push(cur@);
                    assert(nd.drop_last() =~= done);
                    assert(cur@.take(n as int) =~= cur@.subrange(0, n as int));
                    if n > 0 {
                        assert(kept_lines(nd) == kept_lines(done).push(trim_end(cur@)));
                        assert(kept_lines(done).push(trim_end(cur@)).drop_last() =~= kept_lines(
                            done,
                        ));
                    }
                }
                if n > 0 {
                    let piece = slice_chars(&cur, 0, n);
                    let line = string_from_chars(&piece);
                    buffer.push_line(line.as_str());
                }
                proof {
                    done = done.push(cur@);
                }
                cur = Vec::new();
            } else {
                proof {
                    let s = done.push(cur@);
                    assert(s.update(s.len() - 1, cur@.push(c)) =~= done.push(cur@.push(c)));
                }
                cur.push(c);
            }
            i = i + 1;
        }
        assert(t.take(t.len() as int) =~= t);
        let n = trim_end_len(&cur);
        proof {
            let nd = done.push(cur@);
            assert(nd.drop_last() =~= done);
            assert(cur@.take(n as int) =~= cur@.subrange(0, n as int));
            if n > 0 {
                assert(kept_lines(nd) == kept_lines(done).push(trim_end(cur@)));
                assert(kept_lines(done).push(trim_end(cur@)).drop_last() =~= kept_lines(done));
            }
        }
        if n > 0 {
            let piece = slice_chars(&cur, 0, n);
            let line = string_from_chars(&piece);
            buffer.push_line(line.as_str());
        }
    }
}

} // verus!
