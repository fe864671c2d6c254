//! Incremental reading of newline-delimited records from a growing file.
//!
//! A [`CursorFileReader`] keeps the byte offset up to which a file has been
//! consumed. Each call to [`CursorFileReader::read_ready`] is handed the bytes
//! that follow that offset, decodes every complete line among them, and moves
//! the offset past the last delimiter. A trailing partial line is left for the
//! next call.
use vstd::prelude::*;

verus! {

/// The byte that ends a record (`'\n'`).
pub const DELIMITER: u8 = 10;

/// What decoding a byte string as UTF-8 gives: the text, or `None` when the
/// bytes are not valid UTF-8.
pub uninterp spec fn utf8_decode(b: Seq<u8>) -> Option<Seq<char>>;

/// Relies on `String::from_utf8`: `Ok` with the decoded text exactly when the
/// bytes are valid UTF-8.
#[verifier::external_body]
fn decode_utf8(bytes: Vec<u8>) -> (r: Option<String>)
    ensures
        utf8_decode(bytes@) == (match r {
            Some(s) => Some(s@),
            None => None::<Seq<char>>,
        }),
{
    String::from_utf8(bytes).ok()
}

/// A complete line whose bytes are not valid UTF-8. `start` and `end` are the
/// file offsets of the line's bytes, the delimiter not included.
#[derive(Debug, Clone, Copy, PartialEq, Eq, Structural)]
pub struct ParseError {
    pub start: u64,
    pub end: u64,
}

/// What one complete line stands for, in terms of file offsets.
pub enum LineView {
    Text(Seq<char>),
    Malformed(int, int),
}

/// The view of one item that the reader yields.
pub open spec fn result_view(r: Result<String, ParseError>) -> LineView {
    match r {
        Ok(s) => LineView::Text(s@),
        Err(e) => LineView::Malformed(e.start as int, e.end as int),
    }
}

/// Offset just past the last delimiter in `s`, or 0 when `s` holds none.
pub open spec fn consumed_len(s: Seq<u8>) -> nat
    decreases s.len(),
{
    if s.len() == 0 {
        0
    } else if s.last() == DELIMITER {
        s.len()
    } else {
        consumed_len(s.drop_last())
    }
}

/// What a line found at file offset `start` decodes to.
pub open spec fn line_outcome(line: Seq<u8>, start: int) -> LineView {
    match utf8_decode(line) {
        Some(t) => LineView::Text(t),
        None => LineView::Malformed(start, start + line.len()),
    }
}

/// The records of the complete lines of `s`, in order, where `s` starts at
/// file offset `base`. Bytes after the last delimiter give no record.
pub open spec fn line_outcomes(s: Seq<u8>, base: int) -> Seq<LineView>
    decreases s.len(),
{
    if s.len() == 0 {
        Seq::empty()
    } else if s.last() == DELIMITER {
        let p = s.drop_last();
        let c = consumed_len(p);
        line_outcomes(p, base).push(line_outcome(p.subrange(c as int, p.len() as int), base + c))
    } else {
        line_outcomes(s.drop_last(), base)
    }
}

/// `c` is the start of `s` or just follows a delimiter in it.
pub open spec fn at_line_start(s: Seq<u8>, c: int) -> bool {
    0 <= c <= s.len() && (c == 0 || s[c - 1] == DELIMITER)
}

proof fn lemma_consumed_bounds(s: Seq<u8>)
    ensures
        at_line_start(s, consumed_len(s) as int),
    decreases s.len(),
{
    if s.len() > 0 && s.last() != DELIMITER {
        lemma_consumed_bounds(s.drop_last());
    }
}

proof fn lemma_consumed_after(s: Seq<u8>, c: int)
    requires
        at_line_start(s, c),
    ensures
        consumed_len(s) == c + consumed_len(s.skip(c)),
    decreases s.len(),
{
    if s.len() > c {
        let p = s.drop_last();
        assert(p.skip(c) =~= s.skip(c).drop_last());
        lemma_consumed_after(p, c);
    } else {
        assert(s.skip(c).len() == 0);
    }
}

proof fn lemma_outcomes_split(s: Seq<u8>, c: int, base: int)
    requires
        at_line_start(s, c),
    ensures
        line_outcomes(s, base) =~= line_outcomes(s.take(c), base) + line_outcomes(s.skip(c), base + c),
    decreases s.len(),
{
    if s.len() > c {
        let p = s.drop_last();
        let q = s.skip(c);
        assert(p.take(c) =~= s.take(c));
        assert(p.skip(c) =~= q.drop_last());
        lemma_outcomes_split(p, c, base);
        if s.last() == DELIMITER {
            lemma_consumed_after(p, c);
            lemma_consumed_bounds(q.drop_last());
            let k = consumed_len(q.drop_last());
            assert(p.subrange(c + k, p.len() as int) =~= q.drop_last().subrange(
                k as int,
                q.drop_last().len() as int,
            ));
        }
    } else {
        assert(s.take(c) =~= s);
        assert(s.skip(c).len() == 0);
    }
}

proof fn lemma_outcomes_trailing(s: Seq<u8>, base: int)
    ensures
        line_outcomes(s, base) == line_outcomes(s.take(consumed_len(s) as int), base),
    decreases s.len(),
{
    if s.len() > 0 {
        if s.last() == DELIMITER {
            assert(s.take(s.len() as int) =~= s);
        } else {
            let p = s.drop_last();
            lemma_outcomes_trailing(p, base);
            lemma_consumed_bounds(p);
            assert(p.take(consumed_len(p) as int) =~= s.take(consumed_len(p) as int));
        }
    } else {
        assert(s.take(0) =~= s);
    }
}

/// Reading a file in two polls gives the same records, in the same order, as
/// reading it in one: the first poll sees the first `n` bytes, the second
/// resumes where the first left its cursor and sees the rest. No line is lost,
/// repeated or reordered, wherever the split falls.
pub proof fn lemma_polls_preserve_order(s: Seq<u8>, n: int, base: int)
    requires
        0 <= n <= s.len(),
    ensures
        ({
            let c = consumed_len(s.take(n)) as int;
            line_outcomes(s.take(n), base) + line_outcomes(s.skip(c), base + c)
                == line_outcomes(s, base)
        }),
{
    let t = s.take(n);
    let c = consumed_len(t) as int;
    lemma_consumed_bounds(t);
    lemma_outcomes_trailing(t, base);
    assert(t.take(c) =~= s.take(c));
    lemma_outcomes_split(s, c, base);
}

/// A malformed line among valid ones gives one error, at its own position,
/// and every other line still gives its record in order.
pub proof fn lemma_malformed_line_isolated(
    before: Seq<u8>,
    bad: Seq<u8>,
    after: Seq<u8>,
    base: int,
)
    requires
        at_line_start(before, before.len() as int),
        !bad.contains(DELIMITER),
        utf8_decode(bad) is None,
    ensures
        ({
            let c = before.len() as int;
            line_outcomes(before + bad.push(DELIMITER) + after, base) == line_outcomes(before, base)
                + seq![LineView::Malformed(base + c, base + c + bad.len())] + line_outcomes(
                after,
                base + c + bad.len() + 1,
            )
        }),
{
    let c = before.len() as int;
    let line = bad.push(DELIMITER);
    let s = before + line + after;
    let k = c + line.len();
    assert(at_line_start(s, c));
    lemma_outcomes_split(s, c, base);
    assert(s.take(c) =~= before);
    let rest = s.skip(c);
    assert(rest =~= line + after);
    assert(at_line_start(rest, line.len() as int));
    lemma_outcomes_split(rest, line.len() as int, base + c);
    assert(rest.take(line.len() as int) =~= line);
    assert(rest.skip(line.len() as int) =~= after);
    lemma_no_delimiter(bad);
    assert(line.drop_last() =~= bad);
    assert(bad.subrange(0, bad.len() as int) =~= bad);
    assert(line_outcomes(bad, base + c) =~= Seq::<LineView>::empty()) by {
        lemma_no_delimiter_outcomes(bad, base + c);
    }
}

proof fn lemma_no_delimiter(s: Seq<u8>)
    requires
        !s.contains(DELIMITER),
    ensures
        consumed_len(s) == 0,
    decreases s.len(),
{
    if s.len() > 0 {
        assert(s.last() != DELIMITER) by {
            if s.last() == DELIMITER {
                assert(s[s.len() - 1] == DELIMITER);
            }
        }
        assert(!s.drop_last().contains(DELIMITER)) by {
            if s.drop_last().contains(DELIMITER) {
                let i = choose|i: int| 0 <= i < s.drop_last().len() && s.drop_last()[i] == DELIMITER;
                assert(s[i] == DELIMITER);
            }
        }
        lemma_no_delimiter(s.drop_last());
    }
}

proof fn lemma_no_delimiter_outcomes(s: Seq<u8>, base: int)
    requires
        !s.contains(DELIMITER),
    ensures
        line_outcomes(s, base) == Seq::<LineView>::empty(),
    decreases s.len(),
{
    if s.len() > 0 {
        assert(s.last() != DELIMITER) by {
            if s.last() == DELIMITER {
                assert(s[s.len() - 1] == DELIMITER);
            }
        }
        assert(!s.drop_last().contains(DELIMITER)) by {
            if s.drop_last().contains(DELIMITER) {
                let i = choose|i: int| 0 <= i < s.drop_last().len() && s.drop_last()[i] == DELIMITER;
                assert(s[i] == DELIMITER);
            }
        }
        lemma_no_delimiter_outcomes(s.drop_last(), base);
    }
}

/// Reads the records of one file, keeping the offset up to which it has
/// been consumed.
pub struct CursorFileReader {
    offset: u64,
}

impl CursorFileReader {
    /// The offset up to which the file has been consumed.
    pub closed spec fn spec_offset(&self) -> nat {
        self.offset as nat
    }

    /// A reader at the start of a file.
    pub fn new() -> (r: Self)
        ensures
            r.spec_offset() == 0,
    {
        CursorFileReader { offset: 0 }
    }

    /// A reader that resumes a file at `offset`.
    pub fn starting_at(offset: u64) -> (r: Self)
        ensures
            r.spec_offset() == offset,
    {
        CursorFileReader { offset }
    }

    /// The offset from which the next read must hand over the file's bytes.
    pub fn offset(&self) -> (r: u64)
        ensures
            r == self.spec_offset(),
    {
        self.offset
    }

    /// Decodes every complete line of `available`, the bytes of the file that
    /// follow the current offset, and moves the offset past the last
    /// delimiter. An undecodable line gives an error at its position and is
    /// consumed like any other.
    pub fn read_ready(&mut self, available: &[u8]) -> (r: Vec<Result<String, ParseError>>)
        requires
            old(self).spec_offset() + available@.len() <= u64::MAX,
        ensures
            r@.map_values(|x: Result<String, ParseError>| result_view(x)) == line_outcomes(
                available@,
                old(self).spec_offset() as int,
            ),
            final(self).spec_offset() == old(self).spec_offset() + consumed_len(available@),
    {
        let ghost s = available@;
        let ghost base = self.offset as int;
        let mut out: Vec<Result<String, ParseError>> = Vec::new();
        let mut cur: Vec<u8> = Vec::new();
        let mut start: usize = 0;
        let mut i: usize = 0;
        while i < available.len()
            invariant
                s == available@,
                base == self.offset,
                base + s.len() <= u64::MAX,
                0 <= start <= i <= s.len(),
                start == consumed_len(s.take(i as int)),
                cur@ == s.subrange(start as int, i as int),
                out@.map_values(|x: Result<String, ParseError>| result_view(x)) == line_outcomes(
                    s.take(i as int),
                    base,
                ),
            decreases s.len() - i,
        {
            let b = available[i];
            let ghost t = s.take(i as int);
            assert(s.take(i + 1).drop_last() =~= t);
            if b == DELIMITER {
                let line = cur;
                cur = Vec::new();
                let line_start = self.offset + start as u64;
                let line_end = self.offset + i as u64;
                let item = match decode_utf8(line) {
                    Some(text) => Ok(text),
                    None => Err(ParseError { start: line_start, end: line_end }),
                };
                proof {
                    assert(t.subrange(start as int, t.len() as int) =~= s.subrange(
                        start as int,
                        i as int,
                    ));
                }
                let ghost prev = out@;
                out.push(item);
                proof {
                    assert(out@.map_values(|x: Result<String, ParseError>| result_view(x))
                        =~= prev.map_values(|x: Result<String, ParseError>| result_view(x)).push(
                        result_view(item),
                    ));
                }
                start = i + 1;
            } else {
                cur.push(b);
                assert(cur@ =~= s.subrange(start as int, i + 1));
            }
            i = i + 1;
        }
        assert(s.take(i as int) =~= s);
        self.offset = self.offset + start as u64;
        out
    }
}

} // verus!
