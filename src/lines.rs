//! Recovery of logical lines from an arbitrary chunking of a byte stream.
use vstd::prelude::*;

verus! {

/// The delimiter that ends a logical line.
pub const NEWLINE: u8 = 10;

/// Feeds one byte into a list of segments whose last entry is the line
/// still being built: a delimiter closes it and opens an empty one, any
/// other byte extends it.
pub open spec fn push_byte(segs: Seq<Seq<u8>>, b: u8) -> Seq<Seq<u8>> {
    if b == NEWLINE {
        segs.push(Seq::empty())
    } else {
        segs.update(segs.len() - 1, segs.last().push(b))
    }
}

/// Feeds the bytes, in order, into `segs`.
pub open spec fn feed_bytes(segs: Seq<Seq<u8>>, bytes: Seq<u8>) -> Seq<Seq<u8>>
    decreases bytes.len(),
{
    if bytes.len() == 0 {
        segs
    } else {
        push_byte(feed_bytes(segs, bytes.drop_last()), bytes.last())
    }
}

/// All delimiter-separated segments of `s`: the complete lines followed by the
/// unterminated remainder (possibly empty).
pub open spec fn segments(s: Seq<u8>) -> Seq<Seq<u8>> {
    feed_bytes(seq![Seq::empty()], s)
}

/// The complete (delimiter-terminated) lines of `s`, delimiters removed.
pub open spec fn complete_lines(s: Seq<u8>) -> Seq<Seq<u8>> {
    segments(s).drop_last()
}

/// What follows the last delimiter of `s`.
pub open spec fn trailing(s: Seq<u8>) -> Seq<u8> {
    segments(s).last()
}

pub open spec fn has_no_newline(s: Seq<u8>) -> bool {
    forall|i: int| 0 <= i < s.len() ==> s[i] != NEWLINE
}

pub open spec fn lines_view(v: Seq<Vec<u8>>) -> Seq<Seq<u8>> {
    v.map_values(|l: Vec<u8>| l@)
}

/// Concatenation of a sequence of chunks.
pub open spec fn concat_chunks(chunks: Seq<Seq<u8>>) -> Seq<u8>
    decreases chunks.len(),
{
    if chunks.len() == 0 {
        Seq::empty()
    } else {
        concat_chunks(chunks.drop_last()) + chunks.last()
    }
}

/// Lines emitted, and the bytes retained, when the chunks are appended one
/// after another to a splitter holding `buf`.
pub open spec fn deliver(buf: Seq<u8>, chunks: Seq<Seq<u8>>) -> (Seq<Seq<u8>>, Seq<u8>)
    decreases chunks.len(),
{
    if chunks.len() == 0 {
        (Seq::empty(), buf)
    } else {
        let (ls, rest) = deliver(buf, chunks.drop_last());
        let segs = feed_bytes(seq![rest], chunks.last());
        (ls + segs.drop_last(), segs.last())
    }
}

pub proof fn lemma_feed_len(segs: Seq<Seq<u8>>, bytes: Seq<u8>)
    requires
        segs.len() >= 1,
    ensures
        feed_bytes(segs, bytes).len() >= segs.len(),
    decreases bytes.len(),
{
    if bytes.len() > 0 {
        lemma_feed_len(segs, bytes.drop_last());
    }
}

/// Feeding `a + b` is feeding `a`, then `b`.
pub proof fn lemma_feed_concat(segs: Seq<Seq<u8>>, a: Seq<u8>, b: Seq<u8>)
    ensures
        feed_bytes(segs, a + b) == feed_bytes(feed_bytes(segs, a), b),
    decreases b.len(),
{
    if b.len() == 0 {
        assert(a + b =~= a);
    } else {
        assert((a + b).drop_last() =~= a + b.drop_last());
        lemma_feed_concat(segs, a, b.drop_last());
    }
}

/// Segments already closed are never touched again.
pub proof fn lemma_feed_prefix(done: Seq<Seq<u8>>, open: Seq<Seq<u8>>, bytes: Seq<u8>)
    requires
        open.len() >= 1,
    ensures
        feed_bytes(done + open, bytes) == done + feed_bytes(open, bytes),
    decreases bytes.len(),
{
    if bytes.len() > 0 {
        lemma_feed_prefix(done, open, bytes.drop_last());
        lemma_feed_len(open, bytes.drop_last());
        let f = feed_bytes(open, bytes.drop_last());
        let b = bytes.last();
        if b == NEWLINE {
            assert((done + f).push(Seq::empty()) =~= done + f.push(Seq::empty()));
        } else {
            assert((done + f).update((done + f).len() - 1, (done + f).last().push(b)) =~= done
                + f.update(f.len() - 1, f.last().push(b)));
        }
    }
}

/// A newline-free buffer is a single open segment.
pub proof fn lemma_segments_of_open(r: Seq<u8>)
    requires
        has_no_newline(r),
    ensures
        segments(r) == seq![r],
    decreases r.len(),
{
    if r.len() > 0 {
        lemma_segments_of_open(r.drop_last());
        assert(r.drop_last().push(r.last()) =~= r);
        assert(r[r.len() - 1] != NEWLINE);
        assert(seq![r.drop_last()].update(0, r.drop_last().push(r.last())) =~= seq![r]);
    } else {
        assert(r =~= Seq::empty());
    }
}

/// The segments joined back together with a delimiter between neighbours.
pub open spec fn rejoin(segs: Seq<Seq<u8>>) -> Seq<u8>
    decreases segs.len(),
{
    if segs.len() <= 1 {
        if segs.len() == 0 {
            Seq::empty()
        } else {
            segs[0]
        }
    } else {
        rejoin(segs.drop_last()) + seq![NEWLINE] + segs.last()
    }
}

/// Splitting neither drops nor reorders bytes: the complete lines, each
/// followed by its delimiter, then the remainder, are the input again.
pub proof fn lemma_no_bytes_lost(s: Seq<u8>)
    ensures
        rejoin(segments(s)) == s,
    decreases s.len(),
{
    lemma_feed_len(seq![Seq::empty()], s);
    if s.len() == 0 {
        assert(rejoin(seq![Seq::<u8>::empty()]) == Seq::<u8>::empty());
        assert(s =~= Seq::<u8>::empty());
    } else {
        let prev = segments(s.drop_last());
        let b = s.last();
        lemma_no_bytes_lost(s.drop_last());
        lemma_feed_len(seq![Seq::empty()], s.drop_last());
        if b == NEWLINE {
            assert(prev.push(Seq::empty()).drop_last() =~= prev);
            assert(rejoin(prev) + seq![NEWLINE] + Seq::<u8>::empty() =~= s);
        } else {
            let next = prev.update(prev.len() - 1, prev.last().push(b));
            if prev.len() == 1 {
                assert(rejoin(next) == next[0]);
                assert(prev.last().push(b) =~= s);
            } else {
                assert(next.drop_last() =~= prev.drop_last());
                assert(rejoin(prev.drop_last()) + seq![NEWLINE] + prev.last().push(b) =~= (rejoin(
                    prev.drop_last(),
                ) + seq![NEWLINE] + prev.last()).push(b));
                assert(s =~= s.drop_last().push(b));
            }
        }
    }
}

/// Appending the chunks one by one yields the same lines, and retains the
/// same bytes, as appending their concatenation at once.
pub proof fn lemma_chunking_invisible(chunks: Seq<Seq<u8>>)
    ensures
        deliver(Seq::empty(), chunks) == deliver(Seq::empty(), seq![concat_chunks(chunks)]),
        deliver(Seq::empty(), chunks).0 == complete_lines(concat_chunks(chunks)),
        deliver(Seq::empty(), chunks).1 == trailing(concat_chunks(chunks)),
{
    lemma_deliver_segments(chunks);
    let s = concat_chunks(chunks);
    let one = seq![s];
    assert(one.drop_last() =~= Seq::<Seq<u8>>::empty());
    assert(one.last() == s);
    lemma_feed_len(seq![Seq::empty()], s);
    assert(deliver(Seq::empty(), one.drop_last()) == (Seq::<Seq<u8>>::empty(), Seq::<u8>::empty()));
    assert(deliver(Seq::empty(), one) == (Seq::<Seq<u8>>::empty() + segments(s).drop_last(),
        segments(s).last()));
    let (ls, rest) = deliver(Seq::empty(), chunks);
    assert(ls + seq![rest] == segments(s));
    assert((ls + seq![rest]).drop_last() =~= ls);
    assert(Seq::<Seq<u8>>::empty() + segments(s).drop_last() =~= segments(s).drop_last());
}

proof fn lemma_deliver_segments(chunks: Seq<Seq<u8>>)
    ensures
        ({
            let (ls, rest) = deliver(Seq::empty(), chunks);
            ls + seq![rest] == segments(concat_chunks(chunks))
        }),
    decreases chunks.len(),
{
    if chunks.len() == 0 {
        assert(Seq::<Seq<u8>>::empty() + seq![Seq::<u8>::empty()] =~= seq![Seq::<u8>::empty()]);
    } else {
        let prev = chunks.drop_last();
        lemma_deliver_segments(prev);
        let (ls0, b0) = deliver(Seq::empty(), prev);
        let last = chunks.last();
        let segs = feed_bytes(seq![b0], last);
        lemma_feed_len(seq![b0], last);
        lemma_feed_prefix(ls0, seq![b0], last);
        lemma_feed_concat(seq![Seq::empty()], concat_chunks(prev), last);
        assert(ls0 + segs.drop_last() + seq![segs.last()] =~= ls0 + segs);
    }
}

/// Accumulates raw bytes from successive reads and yields the complete lines,
/// carrying an unterminated fragment forward to the next read.
pub struct LineSplitter {
    buffer: Vec<u8>,
}

impl View for LineSplitter {
    type V = Seq<u8>;

    closed spec fn view(&self) -> Seq<u8> {
        self.buffer@
    }
}

impl LineSplitter {
    /// The retained fragment never holds a delimiter.
    pub open spec fn wf(&self) -> bool {
        has_no_newline(self@)
    }

    pub fn new() -> (r: LineSplitter)
        ensures
            r.wf(),
            r@ == Seq::<u8>::empty(),
    {
        LineSplitter { buffer: Vec::new() }
    }

    /// Appends `bytes` and returns every line completed by them, in order;
    /// what follows the last delimiter is retained.
    pub fn append(&mut self, bytes: &[u8]) -> (lines: Vec<Vec<u8>>)
        requires
            old(self).wf(),
        ensures
            final(self).wf(),
            lines_view(lines@) == feed_bytes(seq![old(self)@], bytes@).drop_last(),
            final(self)@ == feed_bytes(seq![old(self)@], bytes@).last(),
            lines_view(lines@) == complete_lines(old(self)@ + bytes@),
            final(self)@ == trailing(old(self)@ + bytes@),
    {
        let mut current: Vec<u8> = Vec::new();
        std::mem::swap(&mut current, &mut self.buffer);
        let ghost start = current@;
        let mut lines: Vec<Vec<u8>> = Vec::new();
        let mut i: usize = 0;
        proof {
            assert(bytes@.subrange(0, 0) =~= Seq::<u8>::empty());
            assert(lines_view(lines@) + seq![current@] =~= seq![start]);
        }
        while i < bytes.len()
            invariant
                i <= bytes@.len(),
                has_no_newline(current@),
                lines_view(lines@) + seq![current@] == feed_bytes(
                    seq![start],
                    bytes@.subrange(0, i as int),
                ),
            decreases bytes@.len() - i,
        {
            let b = bytes[i];
            let ghost prev = feed_bytes(seq![start], bytes@.subrange(0, i as int));
            proof {
                assert(bytes@.subrange(0, i as int + 1).drop_last() =~= bytes@.subrange(0, i as int));
                assert(bytes@.subrange(0, i as int + 1).last() == b);
            }
            if b == NEWLINE {
                let mut done: Vec<u8> = Vec::new();
                std::mem::swap(&mut done, &mut current);
                lines.push(done);
                proof {
                    assert(lines_view(lines@) =~= lines_view(lines@.drop_last()).push(done@));
                    assert(lines_view(lines@) + seq![current@] =~= prev.push(Seq::empty()));
                }
            } else {
                current.push(b);
                proof {
                    assert(lines_view(lines@) + seq![current@] =~= prev.update(
                        prev.len() - 1,
                        prev.last().push(b),
                    ));
                }
            }
            i = i + 1;
        }
        proof {
            assert(bytes@.subrange(0, i as int) =~= bytes@);
            let f = feed_bytes(seq![start], bytes@);
            assert(lines_view(lines@) =~= f.drop_last());
            lemma_segments_of_open(start);
            lemma_feed_concat(seq![Seq::empty()], start, bytes@);
        }
        self.buffer = current;
        lines
    }

    /// Ends the stream: the retained fragment, if any, is the final line
    /// even though no delimiter followed it.
    pub fn finish(&mut self) -> (last: Option<Vec<u8>>)
        requires
            old(self).wf(),
        ensures
            final(self).wf(),
            final(self)@ == Seq::<u8>::empty(),
            last is Some <==> old(self)@.len() > 0,
            last matches Some(l) ==> l@ == old(self)@,
    {
        let mut rest: Vec<u8> = Vec::new();
        std::mem::swap(&mut rest, &mut self.buffer);
        if rest.len() == 0 {
            None
        } else {
            Some(rest)
        }
    }
}

} // verus!
