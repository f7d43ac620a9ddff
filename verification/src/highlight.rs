//! Styled lines for display.
//!
//! Plain text is shown line by line in one style. Markup source is shown
//! as literal text as well, with its tags set apart: a scan over each
//! line with two states, text and tag, cuts the line into runs before
//! every `<` and after every `>`.

use crate::chars::{chars_of, slice_of, string_of};
use crate::lines::{line_ranges, lines_of};
use vstd::prelude::*;

verus! {

/// The style of a run of characters.
#[derive(Clone, Copy, Debug, PartialEq, Eq, Structural)]
pub enum SpanStyle {
    /// Ordinary text.
    Plain,
    /// Part of a markup tag.
    Tag,
}

/// A run of characters in one style.
#[derive(Clone, Debug, PartialEq, Eq)]
pub struct Span {
    /// The characters.
    pub text: String,
    /// Their style.
    pub style: SpanStyle,
}

/// What a span is: its characters and their style.
pub struct SpanModel {
    pub text: Seq<char>,
    pub style: SpanStyle,
}

impl View for Span {
    type V = SpanModel;

    open spec fn view(&self) -> SpanModel {
        SpanModel { text: self.text@, style: self.style }
    }
}

/// One line of display: its spans from left to right.
#[derive(Clone, Debug, PartialEq, Eq)]
pub struct Line {
    /// The spans.
    pub spans: Vec<Span>,
}

impl View for Line {
    type V = Seq<SpanModel>;

    open spec fn view(&self) -> Seq<SpanModel> {
        self.spans@.map_values(|s: Span| s@)
    }
}

/// What a sequence of lines is: for each line its spans.
pub open spec fn lines_view(lines: Seq<Line>) -> Seq<Seq<SpanModel>> {
    lines.map_values(|l: Line| l@)
}

/// The style of a run that the scan gathered in the state `in_tag`.
pub open spec fn style_in(in_tag: bool) -> SpanStyle {
    if in_tag {
        SpanStyle::Tag
    } else {
        SpanStyle::Plain
    }
}

/// `spans` with the gathered run `run` added, unless the run is empty.
pub open spec fn flush(spans: Seq<SpanModel>, run: Seq<char>, in_tag: bool) -> Seq<SpanModel> {
    if run.len() == 0 {
        spans
    } else {
        spans.push(SpanModel { text: run, style: style_in(in_tag) })
    }
}

/// The spans that the scan ends with when it stands before `line[at]` in
/// the state `in_tag`, with the run `run` gathered and `spans` done.
pub open spec fn scan_from(
    line: Seq<char>,
    at: int,
    in_tag: bool,
    run: Seq<char>,
    spans: Seq<SpanModel>,
) -> Seq<SpanModel>
    decreases line.len() - at,
{
    if at < 0 || at >= line.len() {
        flush(spans, run, in_tag)
    } else if line[at] == '<' {
        scan_from(line, at + 1, true, seq!['<'], flush(spans, run, in_tag))
    } else if line[at] == '>' {
        scan_from(
            line,
            at + 1,
            false,
            Seq::empty(),
            spans.push(SpanModel { text: run.push('>'), style: SpanStyle::Tag }),
        )
    } else {
        scan_from(line, at + 1, in_tag, run.push(line[at]), spans)
    }
}

/// The spans of one line of markup source.
pub open spec fn highlight_line_spec(line: Seq<char>) -> Seq<SpanModel> {
    scan_from(line, 0, false, Seq::empty(), Seq::empty())
}

/// The styled lines of markup source: one for each line of the source.
pub open spec fn highlight_spec(source: Seq<char>) -> Seq<Seq<SpanModel>> {
    lines_of(source).map_values(|l: Seq<char>| highlight_line_spec(l))
}

/// The spans of one line of plain text: the line as one plain span, or
/// no span for an empty line.
pub open spec fn plain_line_spec(line: Seq<char>) -> Seq<SpanModel> {
    flush(Seq::empty(), line, false)
}

/// The styled lines of plain text: one for each line of the text, and
/// one empty line for the empty text.
pub open spec fn plain_spec(text: Seq<char>) -> Seq<Seq<SpanModel>> {
    if text.len() == 0 {
        seq![Seq::empty()]
    } else {
        lines_of(text).map_values(|l: Seq<char>| plain_line_spec(l))
    }
}

/// Scans the line `text[from..to]` of markup source into spans.
pub fn highlight_line(text: &Vec<char>, from: usize, to: usize) -> (line: Line)
    requires
        from <= to <= text.len(),
    ensures
        line@ == highlight_line_spec(text@.subrange(from as int, to as int)),
{
    let ghost src = text@.subrange(from as int, to as int);
    let mut spans: Vec<Span> = Vec::new();
    let mut current = String::new();
    let mut in_tag = false;
    let mut i: usize = from;
    proof {
        assert(spans@.map_values(|s: Span| s@) =~= Seq::<SpanModel>::empty());
    }
    while i < to
        invariant
            from <= i <= to <= text.len(),
            src == text@.subrange(from as int, to as int),
            scan_from(src, i - from, in_tag, current@, spans@.map_values(|s: Span| s@))
                == highlight_line_spec(src),
        decreases to - i,
    {
        let c = text[i];
        let ghost done = spans@.map_values(|s: Span| s@);
        assert(src[i - from] == c);
        if c == '<' {
            if !current.as_str().is_empty() {
                let span = Span { text: current, style: style_for(in_tag) };
                proof {
                    assert(spans@.push(span).map_values(|s: Span| s@) =~= done.push(span@));
                }
                spans.push(span);
                current = String::new();
            }
            in_tag = true;
            current.push(c);
            assert(current@ =~= seq!['<']);
        } else if c == '>' {
            current.push(c);
            let span = Span { text: current, style: SpanStyle::Tag };
            proof {
                assert(spans@.push(span).map_values(|s: Span| s@) =~= done.push(span@));
            }
            spans.push(span);
            current = String::new();
            in_tag = false;
        } else {
            current.push(c);
        }
        i += 1;
    }
    if !current.as_str().is_empty() {
        let ghost done = spans@.map_values(|s: Span| s@);
        let span = Span { text: current, style: style_for(in_tag) };
        proof {
            assert(spans@.push(span).map_values(|s: Span| s@) =~= done.push(span@));
        }
        spans.push(span);
    }
    Line { spans }
}

/// The style of a run gathered in the state `in_tag`.
pub fn style_for(in_tag: bool) -> (style: SpanStyle)
    ensures
        style == style_in(in_tag),
{
    if in_tag {
        SpanStyle::Tag
    } else {
        SpanStyle::Plain
    }
}

/// Styles markup source for display: every line of the source becomes
/// one line of spans, tags in the tag style and the rest plain.
pub fn highlight_html(html_source: &str) -> (lines: Vec<Line>)
    ensures
        lines_view(lines@) == highlight_spec(html_source@),
{
    let text = chars_of(html_source);
    let ranges = line_ranges(&text);
    let mut lines: Vec<Line> = Vec::new();
    let mut k: usize = 0;
    while k < ranges.len()
        invariant
            k <= ranges.len(),
            text@ == html_source@,
            ranges@.len() == lines_of(text@).len(),
            forall|j: int|
                0 <= j < ranges@.len() ==> {
                    &&& (#[trigger] ranges@[j]).0 <= ranges@[j].1 <= text@.len()
                    &&& slice_of(text@, ranges@[j]) == lines_of(text@)[j]
                },
            lines@.len() == k,
            forall|j: int|
                0 <= j < k ==> (#[trigger] lines@[j])@ == highlight_line_spec(lines_of(text@)[j]),
        decreases ranges.len() - k,
    {
        let r = ranges[k];
        let line = highlight_line(&text, r.0, r.1);
        lines.push(line);
        k += 1;
    }
    assert(lines_view(lines@) =~= highlight_spec(html_source@));
    lines
}

/// Lays plain text out for display: every line of the text becomes one
/// line with the line's characters in a single plain span.
pub fn plain_lines(content: &str) -> (lines: Vec<Line>)
    ensures
        lines_view(lines@) == plain_spec(content@),
{
    let text = chars_of(content);
    let mut lines: Vec<Line> = Vec::new();
    if text.len() == 0 {
        let line = Line { spans: Vec::new() };
        assert(line@ =~= Seq::<SpanModel>::empty());
        lines.push(line);
        assert(lines_view(lines@) =~= plain_spec(content@));
        return lines;
    }
    let ranges = line_ranges(&text);
    let mut k: usize = 0;
    while k < ranges.len()
        invariant
            k <= ranges.len(),
            text@ == content@,
            ranges@.len() == lines_of(text@).len(),
            forall|j: int|
                0 <= j < ranges@.len() ==> {
                    &&& (#[trigger] ranges@[j]).0 <= ranges@[j].1 <= text@.len()
                    &&& slice_of(text@, ranges@[j]) == lines_of(text@)[j]
                },
            lines@.len() == k,
            forall|j: int|
                0 <= j < k ==> (#[trigger] lines@[j])@ == plain_line_spec(lines_of(text@)[j]),
        decreases ranges.len() - k,
    {
        let r = ranges[k];
        let mut spans: Vec<Span> = Vec::new();
        if r.0 < r.1 {
            spans.push(Span { text: string_of(&text, r.0, r.1), style: SpanStyle::Plain });
        }
        let line = Line { spans };
        assert(line@ =~= plain_line_spec(lines_of(text@)[k as int]));
        lines.push(line);
        k += 1;
    }
    assert(lines_view(lines@) =~= plain_spec(content@));
    lines
}

} // verus!
