//! Byte-stream framing: an unbounded stream of text, delivered chunk by
//! chunk, becomes discrete newline-delimited messages.
//!
//! A [`FrameReader`] keeps the trailing partial line of each read and
//! prefixes it to the next chunk, so a message split across reads is
//! reassembled exactly.

use vstd::prelude::*;

use crate::text::{chars_vec, string_from_chars, subvec_chars};

verus! {

/// Index of the first newline of `s`, or -1 when `s` has none.
pub open spec fn find_newline(s: Seq<char>) -> int
    decreases s.len(),
{
    if s.len() == 0 {
        -1
    } else if s[0] == '\n' {
        0
    } else {
        let r = find_newline(s.drop_first());
        if r < 0 {
            -1
        } else {
            r + 1
        }
    }
}

/// What `find_newline` finds: the first newline position, if any.
pub proof fn lemma_find_newline(s: Seq<char>)
    ensures
        find_newline(s) < 0 ==> forall|k: int| 0 <= k < s.len() ==> s[k] != '\n',
        find_newline(s) >= 0 ==> {
            &&& find_newline(s) < s.len()
            &&& s[find_newline(s)] == '\n'
            &&& forall|k: int| 0 <= k < find_newline(s) ==> s[k] != '\n'
        },
    decreases s.len(),
{
    if s.len() > 0 && s[0] != '\n' {
        let tail = s.drop_first();
        lemma_find_newline(tail);
        assert(forall|k: int| 0 <= k < tail.len() ==> tail[k] == s[k + 1]);
        if find_newline(tail) < 0 {
            assert forall|k: int| 0 <= k < s.len() implies s[k] != '\n' by {
                if k > 0 {
                    assert(tail[k - 1] != '\n');
                }
            }
        } else {
            let r = find_newline(tail);
            assert(s[r + 1] == tail[r]);
            assert forall|k: int| 0 <= k < find_newline(s) implies s[k] != '\n' by {
                if k > 0 {
                    assert(tail[k - 1] != '\n');
                }
            }
        }
    }
}

/// The fragments of `s` between its newlines, in order.  A stream with n
/// newlines has n + 1 fragments; the last one is the (possibly empty)
/// unterminated remainder.
pub open spec fn segments(s: Seq<char>) -> Seq<Seq<char>>
    decreases s.len(),
{
    let i = find_newline(s);
    if i < 0 {
        seq![s]
    } else {
        proof {
            lemma_find_newline(s);
        }
        seq![s.subrange(0, i)] + segments(s.skip(i + 1))
    }
}

/// The complete, newline-terminated messages of `s`, in wire order.
pub open spec fn complete_lines(s: Seq<char>) -> Seq<Seq<char>> {
    segments(s).drop_last()
}

/// The trailing partial fragment of `s`, after its last newline.
pub open spec fn remainder(s: Seq<char>) -> Seq<char> {
    segments(s).last()
}

/// A stream without a newline is one single partial fragment.
pub proof fn lemma_segments_flat(s: Seq<char>)
    requires
        forall|k: int| 0 <= k < s.len() ==> s[k] != '\n',
    ensures
        segments(s) == seq![s],
        complete_lines(s) == Seq::<Seq<char>>::empty(),
        remainder(s) == s,
{
    lemma_find_newline(s);
    if find_newline(s) >= 0 {
        assert(s[find_newline(s)] == '\n');
    }
    assert(seq![s].drop_last() =~= Seq::<Seq<char>>::empty());
}

/// Peeling one complete line off the front of a stream: a newline-free
/// `line`, a newline, then `rest` splits as `line` followed by the split of
/// `rest`.
pub proof fn lemma_segments_line(line: Seq<char>, rest: Seq<char>)
    requires
        forall|k: int| 0 <= k < line.len() ==> line[k] != '\n',
    ensures
        segments(line + seq!['\n'] + rest) == seq![line] + segments(rest),
{
    let s = line + seq!['\n'] + rest;
    lemma_find_newline(s);
    let i = find_newline(s);
    assert(s[line.len() as int] == '\n');
    if i < 0 {
        assert(s[line.len() as int] != '\n');
    }
    if i < line.len() {
        assert(s[i] == line[i]);
    }
    if i > line.len() {
        assert(s[line.len() as int] != '\n');
    }
    assert(i == line.len());
    assert(s.subrange(0, i) =~= line);
    assert(s.skip(i + 1) =~= rest);
}

/// One connection's wire stream: each line of `lines` terminated by a
/// newline, then the partial line `partial`.
pub open spec fn wire_of(lines: Seq<Seq<char>>, partial: Seq<char>) -> Seq<char>
    decreases lines.len(),
{
    if lines.len() == 0 {
        partial
    } else {
        lines[0] + seq!['\n'] + wire_of(lines.drop_first(), partial)
    }
}

/// For K complete lines followed by a partial line, framing yields exactly
/// those K messages, in order, and keeps the partial line as the remainder.
pub proof fn lemma_framing_exact(lines: Seq<Seq<char>>, partial: Seq<char>)
    requires
        forall|j: int, k: int|
            0 <= j < lines.len() && 0 <= k < lines[j].len() ==> lines[j][k] != '\n',
        forall|k: int| 0 <= k < partial.len() ==> partial[k] != '\n',
    ensures
        complete_lines(wire_of(lines, partial)) == lines,
        remainder(wire_of(lines, partial)) == partial,
    decreases lines.len(),
{
    if lines.len() == 0 {
        lemma_segments_flat(partial);
    } else {
        let tail = lines.drop_first();
        assert(forall|j: int, k: int|
            0 <= j < tail.len() && 0 <= k < tail[j].len() ==> tail[j][k] != '\n');
        lemma_framing_exact(tail, partial);
        lemma_segments_line(lines[0], wire_of(tail, partial));
        let segs = segments(wire_of(tail, partial));
        assert(segments(wire_of(lines, partial)) == seq![lines[0]] + segs);
        assert(segs.len() > 0) by {
            lemma_segments_nonempty(wire_of(tail, partial));
        }
        assert((seq![lines[0]] + segs).drop_last() =~= seq![lines[0]] + segs.drop_last());
        assert(seq![lines[0]] + segs.drop_last() =~= lines);
        assert((seq![lines[0]] + segs).last() == segs.last());
    }
}

/// A stream always splits into at least one fragment.
pub proof fn lemma_segments_nonempty(s: Seq<char>)
    ensures
        segments(s).len() >= 1,
    decreases s.len(),
{
    lemma_find_newline(s);
    if find_newline(s) >= 0 {
        lemma_segments_nonempty(s.skip(find_newline(s) + 1));
    }
}

/// Per-connection accumulation buffer: bytes already read but not yet
/// terminated by a newline.
pub struct FrameReader {
    pub buffer: Vec<char>,
}

impl View for FrameReader {
    type V = Seq<char>;

    open spec fn view(&self) -> Seq<char> {
        self.buffer@
    }
}

impl FrameReader {
    /// The retained fragment never holds a newline.
    pub open spec fn wf(&self) -> bool {
        forall|k: int| 0 <= k < self@.len() ==> self@[k] != '\n'
    }

    pub fn new() -> (r: FrameReader)
        ensures
            r@ == Seq::<char>::empty(),
            r.wf(),
    {
        FrameReader { buffer: Vec::new() }
    }

    /// Append one read chunk and emit every complete line it finishes, in
    /// wire order; the final partial fragment becomes the new buffer.
    pub fn feed(&mut self, chunk: &str) -> (msgs: Vec<String>)
        requires
            old(self).wf(),
        ensures
            msgs.deep_view() == complete_lines(old(self)@ + chunk@),
            final(self)@ == remainder(old(self)@ + chunk@),
            final(self).wf(),
    {
        let ghost full_view = old(self)@ + chunk@;
        let mut combined: Vec<char> = Vec::new();
        std::mem::swap(&mut combined, &mut self.buffer);
        let mut tail = chars_vec(chunk);
        combined.append(&mut tail);
        proof {
            assert(combined@ == full_view);
        }

        let mut msgs: Vec<String> = Vec::new();
        proof {
            assert(full_view.skip(0) =~= full_view);
            assert(msgs.deep_view() + segments(full_view) =~= segments(full_view));
        }
        let mut start: usize = 0;
        let mut i: usize = 0;
        while i < combined.len()
            invariant
                combined@ == full_view,
                0 <= start <= i <= full_view.len(),
                segments(full_view) == msgs.deep_view() + segments(full_view.skip(start as int)),
                forall|k: int| start <= k < i ==> full_view[k] != '\n',
            decreases full_view.len() - i,
        {
            if combined[i] == '\n' {
                let line = subvec_chars(&combined, start, i);
                msgs.push(string_from_chars(&line));
                proof {
                    let pre = full_view.subrange(start as int, i as int);
                    assert(full_view.skip(start as int) =~= pre + seq!['\n'] + full_view.skip(
                        i + 1 as int,
                    ));
                    lemma_segments_line(pre, full_view.skip(i + 1 as int));
                    assert(msgs.deep_view() =~= msgs.deep_view().drop_last().push(pre));
                    assert(msgs.deep_view().drop_last() + (seq![pre] + segments(full_view.skip(
                        i + 1 as int,
                    ))) =~= msgs.deep_view() + segments(full_view.skip(i + 1 as int)));
                }
                start = i + 1;
            }
            i = i + 1;
        }
        self.buffer = subvec_chars(&combined, start, combined.len());
        proof {
            assert(self@ =~= full_view.skip(start as int));
            lemma_segments_flat(full_view.skip(start as int));
            let segs = segments(full_view);
            assert(segs == msgs.deep_view() + seq![self@]);
            assert(segs.drop_last() =~= msgs.deep_view());
        }
        msgs
    }
}

} // verus!
