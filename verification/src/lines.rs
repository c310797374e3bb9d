//! Splitting a text into its lines.
use vstd::prelude::*;

verus! {

/// The views of a sequence of strings.
pub open spec fn texts(v: Seq<String>) -> Seq<Seq<char>> {
    Seq::new(v.len(), |i: int| v[i]@)
}

/// Position of the first line feed of `s`, or `s.len()` where it has none.
pub open spec fn first_line_feed(s: Seq<char>) -> nat
    decreases s.len(),
{
    if s.len() == 0 || s[0] == '\n' {
        0
    } else {
        1 + first_line_feed(s.drop_first())
    }
}

/// A line as it stands before its line feed, without the carriage return
/// that belongs to the line ending.
pub open spec fn without_carriage_return(line: Seq<char>) -> Seq<char> {
    if line.len() > 0 && line.last() == '\r' {
        line.drop_last()
    } else {
        line
    }
}

/// The lines of a text. A line ends with a line feed, or with a carriage
/// return directly followed by a line feed; neither is part of the line. The
/// last line needs no line ending, and a text that ends with one has no empty
/// line after it.
pub open spec fn lines_of(s: Seq<char>) -> Seq<Seq<char>>
    decreases s.len(),
{
    if s.len() == 0 {
        Seq::empty()
    } else {
        let n = first_line_feed(s);
        if n >= s.len() {
            seq![s]
        } else {
            seq![without_carriage_return(s.take(n as int))] + lines_of(s.skip(n as int + 1))
        }
    }
}

/// `first_line_feed` stays within the text.
proof fn lemma_first_line_feed_bounds(s: Seq<char>)
    ensures
        first_line_feed(s) <= s.len(),
        first_line_feed(s) < s.len() ==> s[first_line_feed(s) as int] == '\n',
        forall|i: int| 0 <= i < first_line_feed(s) ==> s[i] != '\n',
    decreases s.len(),
{
    if s.len() == 0 || s[0] == '\n' {
    } else {
        let t = s.drop_first();
        lemma_first_line_feed_bounds(t);
        assert forall|i: int| 0 <= i < first_line_feed(s) implies s[i] != '\n' by {
            if i > 0 {
                assert(s[i] == t[i - 1]);
            }
        }
    }
}

/// The first line feed is found at `k` where no earlier position holds one
/// and `k` is the end of the text or holds one.
proof fn lemma_first_line_feed_at(s: Seq<char>, k: int)
    requires
        0 <= k <= s.len(),
        forall|i: int| 0 <= i < k ==> s[i] != '\n',
        k < s.len() ==> s[k] == '\n',
    ensures
        first_line_feed(s) == k,
{
    lemma_first_line_feed_bounds(s);
    let f = first_line_feed(s) as int;
    if f < k {
        assert(s[f] == '\n');
    } else if f > k {
        assert(s[k] != '\n');
    }
}

/// What remains to be split after a line that ends at the line feed at `k`.
proof fn lemma_lines_of_step(s: Seq<char>, start: int, k: int)
    requires
        0 <= start <= k < s.len(),
        forall|j: int| start <= j < k ==> s[j] != '\n',
        s[k] == '\n',
    ensures
        lines_of(s.skip(start)) == seq![without_carriage_return(s.subrange(start, k))] + lines_of(
            s.skip(k + 1),
        ),
{
    let t = s.skip(start);
    lemma_first_line_feed_at(t, k - start);
    assert(t.take(k - start) =~= s.subrange(start, k));
    assert(t.skip(k - start + 1) =~= s.skip(k + 1));
}

/// The last line, where no line feed ends it.
proof fn lemma_lines_of_rest(s: Seq<char>, start: int)
    requires
        0 <= start <= s.len(),
        forall|j: int| start <= j < s.len() ==> s[j] != '\n',
    ensures
        lines_of(s.skip(start)) == if start < s.len() {
            seq![s.subrange(start, s.len() as int)]
        } else {
            Seq::<Seq<char>>::empty()
        },
{
    let t = s.skip(start);
    if start < s.len() {
        lemma_first_line_feed_at(t, t.len() as int);
        assert(t =~= s.subrange(start, s.len() as int));
    }
}

/// Counts the lines of a text in one pass, without splitting it.
pub fn count_lines(text: &str) -> (count: usize)
    ensures
        count == lines_of(text@).len(),
{
    let total = text.unicode_len();
    let mut count: usize = 0;
    let mut start: usize = 0;
    let mut pos: usize = 0;
    assert(text@.skip(0) =~= text@);
    for c in it: text.chars()
        invariant
            it.seq() == text@,
            total == text@.len(),
            pos == it.index(),
            count <= start <= pos,
            forall|j: int| start <= j < pos ==> text@[j] != '\n',
            lines_of(text@).len() == count + lines_of(text@.skip(start as int)).len(),
    {
        if c == '\n' {
            proof {
                lemma_lines_of_step(text@, start as int, pos as int);
            }
            count = count + 1;
            start = pos + 1;
        }
        pos = pos + 1;
    }
    proof {
        lemma_lines_of_rest(text@, start as int);
    }
    if start < pos {
        count = count + 1;
    }
    count
}

/// Splits a text into its lines, as `lines_of` defines them. Every line is
/// cut out of the whole text, so a text of many lines is better counted
/// first.
pub fn split_lines(text: &str) -> (lines: Vec<String>)
    ensures
        lines@.len() == lines_of(text@).len(),
        texts(lines@) == lines_of(text@),
{
    let total = text.unicode_len();
    let mut lines: Vec<String> = Vec::new();
    let mut start: usize = 0;
    let mut pos: usize = 0;
    let mut after_cr = false;
    assert(text@.skip(0) =~= text@);
    assert(texts(lines@) =~= Seq::<Seq<char>>::empty());
    for c in it: text.chars()
        invariant
            it.seq() == text@,
            total == text@.len(),
            pos == it.index(),
            start <= pos,
            forall|j: int| start <= j < pos ==> text@[j] != '\n',
            after_cr <==> (start < pos && text@[pos - 1] == '\r'),
            lines_of(text@) == texts(lines@) + lines_of(text@.skip(start as int)),
    {
        if c == '\n' {
            let end = if after_cr {
                pos - 1
            } else {
                pos
            };
            let line = text.substring_char(start, end).to_owned();
            proof {
                lemma_lines_of_step(text@, start as int, pos as int);
                assert(line@ == without_carriage_return(text@.subrange(start as int, pos as int)));
                assert(texts(lines@.push(line)) =~= texts(lines@) + seq![line@]);
            }
            lines.push(line);
            start = pos + 1;
            after_cr = false;
        } else {
            after_cr = c == '\r';
        }
        pos = pos + 1;
    }
    proof {
        lemma_lines_of_rest(text@, start as int);
    }
    if start < pos {
        let line = text.substring_char(start, pos).to_owned();
        proof {
            assert(texts(lines@.push(line)) =~= texts(lines@) + seq![line@]);
        }
        lines.push(line);
    }
    lines
}

} // verus!
