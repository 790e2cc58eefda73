//! Text primitives shared by the readers of command output: the search for
//! words and the splitting into lines, over sequences of characters.

use vstd::prelude::*;
use vstd::string::*;

verus! {

/// `needle` occurs in `hay` starting at offset `at`.
pub open spec fn occurs_at(hay: Seq<char>, needle: Seq<char>, at: int) -> bool {
    &&& 0 <= at
    &&& at + needle.len() <= hay.len()
    &&& hay.subrange(at, at + needle.len()) == needle
}

/// Whether `c` is white space: a blank, a tab, a carriage return or a line
/// feed.
pub open spec fn is_blank(c: char) -> bool {
    c == ' ' || c == '\t' || c == '\r' || c == '\n'
}

/// `words` stand in `hay` at offset `at` as words of their own: they occur
/// there, and on either side comes white space or the edge of `hay`.
pub open spec fn stands_at(hay: Seq<char>, words: Seq<char>, at: int) -> bool {
    &&& occurs_at(hay, words, at)
    &&& at == 0 || is_blank(hay[at - 1])
    &&& at + words.len() == hay.len() || is_blank(hay[at + words.len()])
}

/// `words` stand somewhere in `hay` as words of their own.
pub open spec fn holds_words(hay: Seq<char>, words: Seq<char>) -> bool {
    exists|at: int| stands_at(hay, words, at)
}

/// Offset of the first line feed of `s`, or the length of `s` when it holds none.
pub open spec fn first_newline(s: Seq<char>) -> nat
    decreases s.len(),
{
    if s.len() == 0 || s[0] == '\n' {
        0
    } else {
        1 + first_newline(s.skip(1))
    }
}

/// A terminated line without the carriage return that may precede its line feed.
pub open spec fn strip_cr(line: Seq<char>) -> Seq<char> {
    if line.len() > 0 && line.last() == '\r' {
        line.drop_last()
    } else {
        line
    }
}

/// The lines of `s`. A line ends at a line feed, or at a carriage return
/// directly followed by a line feed; the terminator is not part of the line.
/// The last line needs no terminator, and a terminator at the very end opens
/// no further line.
pub open spec fn split_lines(s: Seq<char>) -> Seq<Seq<char>>
    decreases s.len(),
{
    if s.len() == 0 {
        Seq::empty()
    } else {
        let end = first_newline(s);
        if end >= s.len() {
            seq![s]
        } else {
            seq![strip_cr(s.take(end as int))] + split_lines(s.skip(end as int + 1))
        }
    }
}

/// Some line of `text` holds `words` as words of their own.
pub open spec fn some_line_holds(text: Seq<char>, words: Seq<char>) -> bool {
    exists|k: int|
        0 <= k < split_lines(text).len() && holds_words(#[trigger] split_lines(text)[k], words)
}

/// Where the first line feed is: nothing before `k` is a line feed, and `k`
/// is one or the end.
pub proof fn lemma_first_newline(s: Seq<char>, k: int)
    requires
        0 <= k <= s.len(),
        forall|j: int| 0 <= j < k ==> s[j] != '\n',
        k == s.len() || s[k] == '\n',
    ensures
        first_newline(s) == k,
    decreases k,
{
    if k > 0 {
        let rest = s.skip(1);
        assert forall|j: int| 0 <= j < k - 1 implies rest[j] != '\n' by {
            assert(rest[j] == s[j + 1]);
        }
        lemma_first_newline(rest, k - 1);
    }
}

/// The characters of a string, in order.
pub fn chars_of(s: &str) -> (chars: Vec<char>)
    ensures
        chars@ == s@,
{
    let mut chars: Vec<char> = Vec::new();
    for c in it: s.chars()
        invariant
            it.seq() == s@,
            chars@ == it.seq().take(it.index()),
    {
        chars.push(c);
        proof {
            assert(it.seq().take(it.index() + 1) =~= it.seq().take(it.index()).push(c));
        }
    }
    assert(chars@ =~= s@);
    chars
}

/// Whether `c` is white space.
pub fn blank(c: char) -> (white: bool)
    ensures
        white == is_blank(c),
{
    c == ' ' || c == '\t' || c == '\r' || c == '\n'
}

/// Whether `words` stand as words of their own in the part of `hay` between
/// `from` and `to`.
pub fn holds_in(hay: &Vec<char>, from: usize, to: usize, words: &Vec<char>) -> (found: bool)
    requires
        from <= to <= hay.len(),
    ensures
        found == holds_words(hay@.subrange(from as int, to as int), words@),
{
    let ghost part = hay@.subrange(from as int, to as int);
    let m: usize = to - from;
    let n: usize = words.len();
    if n > m {
        assert(forall|at: int| !stands_at(part, words@, at));
        return false;
    }
    let mut i: usize = 0;
    while i <= m - n
        invariant
            from <= to <= hay.len(),
            m == to - from,
            n == words.len(),
            n <= m,
            part == hay@.subrange(from as int, to as int),
            forall|at: int| 0 <= at < i ==> !stands_at(part, words@, at),
        decreases m - n + 1 - i,
    {
        let mut j: usize = 0;
        while j < n && hay[from + i + j] == words[j]
            invariant
                from <= to <= hay.len(),
                m == to - from,
                n == words.len(),
                i + n <= m,
                j <= n,
                part == hay@.subrange(from as int, to as int),
                forall|t: int| 0 <= t < j ==> part[i + t] == words@[t],
            decreases n - j,
        {
            j += 1;
        }
        if j == n {
            assert(part.subrange(i as int, i + n) =~= words@);
            assert(occurs_at(part, words@, i as int));
            let open_before = i == 0 || blank(hay[from + i - 1]);
            let open_behind = i + n == m || blank(hay[from + i + n]);
            assert(open_before == (i == 0 || is_blank(part[i - 1])));
            assert(open_behind == (i + n == m || is_blank(part[i + n])));
            if open_before && open_behind {
                assert(stands_at(part, words@, i as int));
                return true;
            }
        } else {
            proof {
                if occurs_at(part, words@, i as int) {
                    assert(part.subrange(i as int, i + n)[j as int] == part[i + j]);
                }
            }
        }
        if i == m - n {
            assert(forall|at: int| !stands_at(part, words@, at));
            return false;
        }
        i += 1;
    }
    assert(forall|at: int| !stands_at(part, words@, at));
    false
}

/// Whether `words` stand in `line` as words of their own.
pub fn line_holds(line: &str, words: &str) -> (found: bool)
    ensures
        found == holds_words(line@, words@),
{
    let line_chars = chars_of(line);
    let word_chars = chars_of(words);
    assert(line_chars@.subrange(0, line_chars@.len() as int) =~= line_chars@);
    holds_in(&line_chars, 0, line_chars.len(), &word_chars)
}

/// What a list of spans cuts out of `s`, span by span.
pub open spec fn cut(s: Seq<char>, spans: Seq<(usize, usize)>) -> Seq<Seq<char>> {
    Seq::new(spans.len(), |k: int| s.subrange(spans[k].0 as int, spans[k].1 as int))
}

/// The start and end of each line of `text`, in order.
pub fn line_spans(text: &Vec<char>) -> (spans: Vec<(usize, usize)>)
    ensures
        forall|k: int|
            0 <= k < spans.len() ==> (#[trigger] spans[k]).0 <= spans[k].1 <= text.len(),
        cut(text@, spans@) == split_lines(text@),
{
    let mut spans: Vec<(usize, usize)> = Vec::new();
    let len: usize = text.len();
    let mut start: usize = 0;
    proof {
        assert(text@.skip(0) =~= text@);
        assert(cut(text@, spans@) + split_lines(text@) =~= split_lines(text@));
    }
    while start < len
        invariant
            len == text.len(),
            start <= len,
            forall|k: int|
                0 <= k < spans.len() ==> (#[trigger] spans[k]).0 <= spans[k].1 <= text.len(),
            split_lines(text@) == cut(text@, spans@) + split_lines(text@.skip(start as int)),
        decreases len - start,
    {
        let ghost rest = text@.skip(start as int);
        let mut end: usize = start;
        while end < len && text[end] != '\n'
            invariant
                len == text.len(),
                start <= end <= len,
                forall|j: int| start <= j < end ==> text@[j] != '\n',
            decreases len - end,
        {
            end += 1;
        }
        proof {
            assert forall|j: int| 0 <= j < end - start implies rest[j] != '\n' by {
                assert(rest[j] == text@[start + j]);
            }
            lemma_first_newline(rest, end - start);
        }
        let ghost before = spans@;
        if end == len {
            spans.push((start, end));
            proof {
                assert(text@.subrange(start as int, end as int) =~= rest);
                assert(split_lines(rest) =~= seq![rest]);
                assert(split_lines(text@.skip(len as int)) =~= Seq::<Seq<char>>::empty());
                assert(cut(text@, spans@) =~= cut(text@, before) + seq![rest]);
            }
            start = len;
        } else {
            let stop: usize = if end > start && text[end - 1] == '\r' {
                end - 1
            } else {
                end
            };
            spans.push((start, stop));
            proof {
                let raw = rest.take(end - start);
                assert(raw =~= text@.subrange(start as int, end as int));
                assert(strip_cr(raw) =~= text@.subrange(start as int, stop as int));
                assert(rest.skip(end - start + 1) =~= text@.skip(end + 1));
                assert(cut(text@, spans@) =~= cut(text@, before) + seq![strip_cr(raw)]);
            }
            start = end + 1;
        }
    }
    proof {
        assert(split_lines(text@.skip(start as int)) =~= Seq::<Seq<char>>::empty());
        assert(split_lines(text@) =~= cut(text@, spans@));
    }
    spans
}

/// Whether some line of `text` holds `needle` as words of their own.
pub fn any_line_holds(text: &str, needle: &str) -> (found: bool)
    ensures
        found == some_line_holds(text@, needle@),
{
    let chars = chars_of(text);
    let wanted = chars_of(needle);
    let spans = line_spans(&chars);
    let mut k: usize = 0;
    while k < spans.len()
        invariant
            chars@ == text@,
            wanted@ == needle@,
            cut(chars@, spans@) == split_lines(chars@),
            forall|t: int|
                0 <= t < spans.len() ==> (#[trigger] spans[t]).0 <= spans[t].1 <= chars.len(),
            forall|t: int|
                0 <= t < k ==> !holds_words(#[trigger] split_lines(text@)[t], needle@),
        decreases spans.len() - k,
    {
        let (from, to) = spans[k];
        assert(cut(chars@, spans@)[k as int] == chars@.subrange(from as int, to as int));
        if holds_in(&chars, from, to, &wanted) {
            return true;
        }
        k += 1;
    }
    assert(split_lines(text@).len() == spans.len()) by {
        assert(cut(chars@, spans@).len() == spans.len());
    }
    false
}


/// Whether two strings hold the same text.
pub fn same_text(a: &str, b: &str) -> (same: bool)
    ensures
        same == (a@ == b@),
{
    String::from_str(a) == String::from_str(b)
}

} // verus!
