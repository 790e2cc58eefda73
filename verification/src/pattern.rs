//! Pattern matching on command output, done by the `regex` crate.

use crate::text::{chars_of, cut, line_spans, split_lines};
use regex::Regex;
use vstd::prelude::*;
use vstd::string::*;

verus! {

/// What capture group 1 of `pattern` holds at the leftmost match in `text`:
/// `None` where `pattern` is no valid expression, where `text` has no match,
/// or where the group took no part in the match.
pub uninterp spec fn first_capture(pattern: Seq<char>, text: Seq<char>) -> Option<Seq<char>>;

/// Compiles `pattern` with `regex::Regex::new`, searches `text` with
/// `Regex::captures`, and hands out the text of capture group 1
/// (`Captures::get`, `Match::as_str`). The contract names that result; how a
/// pattern matches is the `regex` crate's business and is not proved here.
#[verifier::external_body]
pub(crate) fn capture(pattern: &str, text: &str) -> (found: Option<String>)
    ensures
        found.deep_view() == first_capture(pattern@, text@),
{
    let compiled = Regex::new(pattern).ok()?;
    let captures = compiled.captures(text)?;
    let group = captures.get(1)?;
    Some(group.as_str().to_string())
}

/// A line of text and what a pattern captured in it.
#[derive(Debug, Clone, PartialEq, Eq)]
pub struct LineCapture {
    pub line: String,
    pub capture: Option<String>,
}

/// A line and its capture as mathematical values.
pub struct LineCaptureView {
    pub line: Seq<char>,
    pub capture: Option<Seq<char>>,
}

impl View for LineCapture {
    type V = LineCaptureView;

    open spec fn view(&self) -> LineCaptureView {
        LineCaptureView { line: self.line@, capture: self.capture.deep_view() }
    }
}

impl DeepView for LineCapture {
    type V = LineCaptureView;

    open spec fn deep_view(&self) -> LineCaptureView {
        self@
    }
}

/// Each line of `lines` with what `pattern` captures in it.
pub open spec fn captures_of(pattern: Seq<char>, lines: Seq<Seq<char>>) -> Seq<LineCaptureView> {
    Seq::new(
        lines.len(),
        |k: int| LineCaptureView { line: lines[k], capture: first_capture(pattern, lines[k]) },
    )
}

/// Splits `text` into lines and matches `pattern` against each.
pub fn capture_lines(pattern: &str, text: &str) -> (read: Vec<LineCapture>)
    ensures
        read.deep_view() == captures_of(pattern@, split_lines(text@)),
{
    let chars = chars_of(text);
    let spans = line_spans(&chars);
    let mut read: Vec<LineCapture> = Vec::new();
    let mut k: usize = 0;
    assert(cut(chars@, spans@).len() == spans.len());
    while k < spans.len()
        invariant
            k <= spans.len(),
            chars@ == text@,
            cut(chars@, spans@) == split_lines(text@),
            forall|t: int|
                0 <= t < spans.len() ==> (#[trigger] spans[t]).0 <= spans[t].1 <= chars.len(),
            read.len() == k,
            forall|t: int|
                0 <= t < k ==> (#[trigger] read[t])@ == captures_of(
                    pattern@,
                    split_lines(text@),
                )[t],
        decreases spans.len() - k,
    {
        let (from, to) = spans[k];
        assert(cut(chars@, spans@)[k as int] == chars@.subrange(from as int, to as int));
        let line = text.substring_char(from, to);
        let capture = capture(pattern, line);
        read.push(LineCapture { line: String::from_str(line), capture });
        k += 1;
    }
    assert(read.deep_view() =~= captures_of(pattern@, split_lines(text@)));
    read
}

} // verus!
