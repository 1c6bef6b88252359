//! The output of a process: keeping no more than a limit of it, and its lines.
use vstd::prelude::*;

use crate::text::{
    chars_of, line_list, lossy_string, lossy_text, split_lines, texts, trim_string, trimmed,
};

verus! {

/// The last `limit` bytes.
pub open spec fn last_bytes(bytes: Seq<u8>, limit: nat) -> Seq<u8> {
    if bytes.len() <= limit {
        bytes
    } else {
        bytes.skip(bytes.len() - limit)
    }
}

/// What is kept of an output, and whether anything was dropped from its beginning.
#[derive(Debug, Clone, PartialEq, Eq)]
pub struct BoundedOutput {
    pub bytes: Vec<u8>,
    pub truncated: bool,
}

impl Default for BoundedOutput {
    fn default() -> (o: Self)
        ensures
            o.bytes@ == Seq::<u8>::empty(),
            !o.truncated,
    {
        BoundedOutput { bytes: Vec::new(), truncated: false }
    }
}

/// Appends to a buffer and drops from its beginning what is over the limit. Returns
/// whether anything was dropped.
pub fn append_bounded(buffer: &mut Vec<u8>, bytes: &[u8], limit: usize) -> (dropped: bool)
    ensures
        final(buffer)@ == last_bytes(old(buffer)@ + bytes@, limit as nat),
        dropped == (old(buffer)@.len() + bytes@.len() > limit),
{
    let ghost whole = buffer@ + bytes@;
    buffer.extend_from_slice(bytes);
    assert(buffer@ =~= whole);
    if buffer.len() > limit {
        let overflow: usize = buffer.len() - limit;
        let rest = buffer.split_off(overflow);
        assert(rest@ =~= whole.skip(overflow as int));
        *buffer = rest;
        true
    } else {
        false
    }
}

impl BoundedOutput {
    /// Appends to the output, within the limit.
    pub fn append(&mut self, bytes: &[u8], limit: usize)
        ensures
            final(self).bytes@ == last_bytes(old(self).bytes@ + bytes@, limit as nat),
            final(self).truncated == (old(self).truncated || old(self).bytes@.len() + bytes@.len()
                > limit),
    {
        let dropped = append_bounded(&mut self.bytes, bytes, limit);
        if dropped {
            self.truncated = true;
        }
    }
}

/// The text of the last `max_bytes` bytes.
pub fn tail_utf8(bytes: &[u8], max_bytes: usize) -> (s: String)
    ensures
        s@ == lossy_text(last_bytes(bytes@, max_bytes as nat)),
{
    let start: usize = bytes.len().saturating_sub(max_bytes);
    let tail = vstd::slice::slice_subrange(bytes, start, bytes.len());
    assert(tail@ =~= last_bytes(bytes@, max_bytes as nat));
    lossy_string(tail)
}

/// However an output is cut into chunks, what is kept of it is its end.
pub proof fn law_chunks_do_not_matter(start: Seq<u8>, a: Seq<u8>, b: Seq<u8>, limit: nat)
    ensures
        last_bytes(last_bytes(start + a, limit) + b, limit) == last_bytes(start + a + b, limit),
        last_bytes(start + a, limit).len() <= limit,
{
    assert(last_bytes(last_bytes(start + a, limit) + b, limit) =~= last_bytes(
        start + a + b,
        limit,
    ));
}

/// The lines of an output that are not blank.
pub open spec fn full_lines(output: Seq<char>) -> Seq<Seq<char>> {
    line_list(output).filter(|l: Seq<char>| trimmed(l).len() > 0)
}

pub fn response_lines(output: &str) -> (r: Vec<String>)
    ensures
        texts(r@) == full_lines(output@),
{
    let lines = split_lines(&chars_of(output));
    let ghost all = line_list(output@);
    let ghost full = |l: Seq<char>| trimmed(l).len() > 0;
    let mut r: Vec<String> = Vec::new();
    let mut i: usize = 0;
    proof {
        reveal(Seq::filter);
        assert(texts(r@) =~= all.take(0).filter(full));
    }
    while i < lines.len()
        invariant
            i <= lines@.len(),
            texts(lines@) == all,
            full == (|l: Seq<char>| trimmed(l).len() > 0),
            texts(r@) == all.take(i as int).filter(full),
        decreases lines@.len() - i,
    {
        proof {
            reveal(Seq::filter);
            assert(all[i as int] == lines@[i as int]@);
            assert(all.take(i + 1).drop_last() =~= all.take(i as int));
        }
        let t = trim_string(lines[i].as_str());
        let ghost before = r@;
        if !t.as_str().is_empty() {
            r.push(lines[i].clone());
            assert(texts(r@) =~= texts(before).push(all[i as int]));
        }
        i += 1;
    }
    assert(all.take(i as int) =~= all);
    r
}

/// The first line of an output, or `otherwise` if it has none.
pub open spec fn first_line(output: Seq<char>, otherwise: Seq<char>) -> Seq<char> {
    if line_list(output).len() == 0 {
        otherwise
    } else {
        line_list(output)[0]
    }
}

pub fn first_line_or(output: &str, otherwise: &str) -> (s: String)
    ensures
        s@ == first_line(output@, otherwise@),
{
    let lines = split_lines(&chars_of(output));
    assert(texts(lines@).len() == lines@.len());
    if lines.len() == 0 {
        otherwise.to_owned()
    } else {
        assert(texts(lines@)[0] == lines@[0]@);
        lines[0].clone()
    }
}

/// What is kept of an output is its end: all of it where it fits, else as much as fits.
pub proof fn law_the_end_of_an_output_is_kept(bytes: Seq<u8>, limit: nat)
    ensures
        last_bytes(bytes, limit).is_suffix_of(bytes),
        bytes.len() <= limit ==> last_bytes(bytes, limit) == bytes,
        bytes.len() > limit ==> last_bytes(bytes, limit).len() == limit,
{
    let kept = last_bytes(bytes, limit);
    assert(bytes.subrange(bytes.len() - kept.len(), bytes.len() as int) =~= kept);
}

/// The lines of an output that count are those that hold more than white space, in their
/// order; the first line is the first one of all.
pub proof fn law_blank_lines_are_passed_over(line: Seq<char>, rest: Seq<char>, other: Seq<char>)
    requires
        !line.contains('\n'),
        line.len() > 0 ==> line.last() != '\r',
    ensures
        trimmed(line).len() == 0 ==> full_lines(line + seq!['\n'] + rest) == full_lines(rest),
        trimmed(line).len() > 0 ==> full_lines(line + seq!['\n'] + rest) == seq![line]
            + full_lines(rest),
        full_lines(Seq::empty()).len() == 0,
        first_line(line + seq!['\n'] + rest, other) == line,
        line.len() > 0 ==> first_line(line, other) == line,
        first_line(Seq::empty(), other) == other,
{
    crate::text_laws::law_lines_end_at_line_feeds(line, rest);
    let full = |l: Seq<char>| trimmed(l).len() > 0;
    let behind = line_list(rest);
    lemma_filter_first(line, behind, full);
    assert(line_list(line + seq!['\n'] + rest) =~= seq![line] + behind);
    reveal(Seq::filter);
    assert(Seq::<Seq<char>>::empty().filter(full) =~= Seq::empty());
}

proof fn lemma_filter_first(
    x: Seq<char>,
    s: Seq<Seq<char>>,
    p: spec_fn(Seq<char>) -> bool,
)
    ensures
        (seq![x] + s).filter(p) == if p(x) {
            seq![x] + s.filter(p)
        } else {
            s.filter(p)
        },
    decreases s.len(),
{
    reveal(Seq::filter);
    let all = seq![x] + s;
    if s.len() == 0 {
        assert(all =~= seq![x]);
        assert(all.drop_last() =~= Seq::empty());
        assert(all.drop_last().filter(p) =~= Seq::empty());
        assert(s.filter(p) =~= Seq::empty());
        assert(all.last() == x);
        assert(all.filter(p) =~= if p(x) {
            seq![x] + s.filter(p)
        } else {
            s.filter(p)
        });
    } else {
        lemma_filter_first(x, s.drop_last(), p);
        assert(all.drop_last() =~= seq![x] + s.drop_last());
        assert(all.last() == s.last());
        assert(all.filter(p) =~= if p(x) {
            seq![x] + s.filter(p)
        } else {
            s.filter(p)
        });
    }
}

} // verus!
