//! What styled lines show, and the laws that tie it to the source text.

use crate::highlight::{
    flush, highlight_line_spec, highlight_spec, plain_line_spec, plain_spec, scan_from, style_in,
    SpanModel, SpanStyle,
};
use crate::lines::{
    first_newline, lemma_first_newline_is_first, lines_of, strip_cr,
};
use vstd::prelude::*;

verus! {

/// The characters of a line's spans, from left to right.
pub open spec fn joined(spans: Seq<SpanModel>) -> Seq<char>
    decreases spans.len(),
{
    if spans.len() == 0 {
        Seq::empty()
    } else {
        joined(spans.drop_last()) + spans.last().text
    }
}

/// The lines with a line feed between each two.
pub open spec fn join_lines(lines: Seq<Seq<char>>) -> Seq<char>
    decreases lines.len(),
{
    if lines.len() == 0 {
        Seq::empty()
    } else if lines.len() == 1 {
        lines[0]
    } else {
        lines[0] + seq!['\n'] + join_lines(lines.drop_first())
    }
}

/// The text that styled lines show.
pub open spec fn displayed_text(lines: Seq<Seq<SpanModel>>) -> Seq<char> {
    join_lines(lines.map_values(|l: Seq<SpanModel>| joined(l)))
}

/// A span as the scan cuts it: not empty, with `<` at its start only
/// and `>` at its end only, and in the tag style exactly when it begins
/// with `<` or ends with `>`.
pub open spec fn well_cut(span: SpanModel) -> bool {
    &&& span.text.len() > 0
    &&& forall|k: int| 0 < k < span.text.len() ==> span.text[k] != '<'
    &&& forall|k: int| 0 <= k < span.text.len() - 1 ==> span.text[k] != '>'
    &&& span.style == SpanStyle::Tag <==> (span.text[0] == '<' || span.text.last() == '>')
}

/// Two spans that follow each other are rightly apart: the first ends
/// with `>`, or the second begins with `<`.
pub open spec fn rightly_apart(left: SpanModel, right: SpanModel) -> bool {
    left.text.len() > 0 && right.text.len() > 0 && (left.text.last() == '>' || right.text[0]
        == '<')
}

/// Every span is well cut and each two neighbours are rightly apart.
pub open spec fn cut_at_tags(spans: Seq<SpanModel>) -> bool {
    &&& forall|i: int| 0 <= i < spans.len() ==> well_cut(#[trigger] spans[i])
    &&& forall|i: int| 0 <= i < spans.len() - 1 ==> rightly_apart(#[trigger] spans[i], spans[i + 1])
}

/// A state of the scan that can come up: what is done is cut at tags,
/// the gathered run holds no `>` and `<` at its start only, the state is
/// tag exactly when the run begins with `<`, and the run is rightly
/// apart from the last span.
spec fn scan_state_ok(in_tag: bool, run: Seq<char>, spans: Seq<SpanModel>) -> bool {
    &&& cut_at_tags(spans)
    &&& forall|k: int| 0 <= k < run.len() ==> run[k] != '>'
    &&& forall|k: int| 0 < k < run.len() ==> run[k] != '<'
    &&& in_tag <==> (run.len() > 0 && run[0] == '<')
    &&& spans.len() > 0 ==> spans.last().text.last() == '>' || (run.len() > 0 && run[0] == '<')
}

proof fn lemma_joined_push(spans: Seq<SpanModel>, span: SpanModel)
    ensures
        joined(spans.push(span)) == joined(spans) + span.text,
{
    assert(spans.push(span).drop_last() =~= spans);
}

proof fn lemma_flush_ok(in_tag: bool, run: Seq<char>, spans: Seq<SpanModel>)
    requires
        scan_state_ok(in_tag, run, spans),
    ensures
        cut_at_tags(flush(spans, run, in_tag)),
        joined(flush(spans, run, in_tag)) == joined(spans) + run,
        run.len() > 0 ==> flush(spans, run, in_tag).last().text == run,
        run.len() == 0 ==> flush(spans, run, in_tag) == spans,
{
    if run.len() > 0 {
        let span = SpanModel { text: run, style: style_in(in_tag) };
        lemma_joined_push(spans, span);
        assert(well_cut(span));
        let out = spans.push(span);
        assert forall|i: int| 0 <= i < out.len() implies well_cut(#[trigger] out[i]) by {
            if i < spans.len() {
                assert(out[i] == spans[i]);
            }
        }
        assert forall|i: int| 0 <= i < out.len() - 1 implies rightly_apart(
            #[trigger] out[i],
            out[i + 1],
        ) by {
            assert(out[i] == spans[i]);
            assert(well_cut(spans[i]));
            if i + 1 < spans.len() {
                assert(out[i + 1] == spans[i + 1]);
            } else {
                assert(out[i + 1] == span);
                assert(spans[i] == spans.last());
            }
        }
    } else {
        assert(joined(spans) + run =~= joined(spans));
    }
}

proof fn lemma_scan(line: Seq<char>, at: int, in_tag: bool, run: Seq<char>, spans: Seq<SpanModel>)
    requires
        0 <= at <= line.len(),
        scan_state_ok(in_tag, run, spans),
        joined(spans) + run == line.subrange(0, at),
    ensures
        cut_at_tags(scan_from(line, at, in_tag, run, spans)),
        joined(scan_from(line, at, in_tag, run, spans)) == line,
    decreases line.len() - at,
{
    lemma_flush_ok(in_tag, run, spans);
    if at >= line.len() {
        assert(line.subrange(0, at) =~= line);
    } else {
        let c = line[at];
        assert(line.subrange(0, at + 1) =~= line.subrange(0, at).push(c));
        if c == '<' {
            let done = flush(spans, run, in_tag);
            let next = seq!['<'];
            assert(joined(done) + next =~= line.subrange(0, at + 1));
            assert(scan_state_ok(true, next, done));
            lemma_scan(line, at + 1, true, next, done);
        } else if c == '>' {
            let span = SpanModel { text: run.push('>'), style: SpanStyle::Tag };
            let done = spans.push(span);
            lemma_joined_push(spans, span);
            assert(joined(done) + Seq::<char>::empty() =~= line.subrange(0, at + 1));
            assert(well_cut(span));
            assert forall|i: int| 0 <= i < done.len() implies well_cut(#[trigger] done[i]) by {
                if i < spans.len() {
                    assert(done[i] == spans[i]);
                }
            }
            assert forall|i: int| 0 <= i < done.len() - 1 implies rightly_apart(
                #[trigger] done[i],
                done[i + 1],
            ) by {
                assert(done[i] == spans[i]);
                assert(well_cut(spans[i]));
                if i + 1 < spans.len() {
                    assert(done[i + 1] == spans[i + 1]);
                } else {
                    assert(done[i + 1] == span);
                    assert(spans[i] == spans.last());
                    if run.len() > 0 {
                        assert(span.text[0] == run[0]);
                    }
                }
            }
            assert(done.last() == span);
            assert(scan_state_ok(false, Seq::empty(), done));
            lemma_scan(line, at + 1, false, Seq::empty(), done);
        } else {
            let next = run.push(c);
            assert(joined(spans) + next =~= line.subrange(0, at + 1));
            assert(scan_state_ok(in_tag, next, spans)) by {
                if run.len() > 0 {
                    assert(next[0] == run[0]);
                }
            }
            lemma_scan(line, at + 1, in_tag, next, spans);
        }
    }
}

/// Highlighting loses and adds nothing: the spans of a line, read from
/// left to right, are the line.
pub proof fn lemma_highlight_keeps_text(line: Seq<char>)
    ensures
        joined(highlight_line_spec(line)) == line,
{
    assert(joined(Seq::<SpanModel>::empty()) + Seq::<char>::empty() =~= line.subrange(0, 0));
    lemma_scan(line, 0, false, Seq::empty(), Seq::empty());
}

/// Highlighting cuts a line before every `<` and after every `>`, and
/// nowhere else; a span is in the tag style exactly when it begins with
/// `<` or ends with `>`.
pub proof fn lemma_highlight_cuts_at_tags(line: Seq<char>)
    ensures
        cut_at_tags(highlight_line_spec(line)),
{
    assert(joined(Seq::<SpanModel>::empty()) + Seq::<char>::empty() =~= line.subrange(0, 0));
    lemma_scan(line, 0, false, Seq::empty(), Seq::empty());
}

/// Highlighted source shows its own lines: line breaks are kept one for
/// one and each line's characters are unchanged.
pub proof fn lemma_highlight_shows_lines(source: Seq<char>)
    ensures
        highlight_spec(source).len() == lines_of(source).len(),
        highlight_spec(source).map_values(|l: Seq<SpanModel>| joined(l)) == lines_of(source),
        displayed_text(highlight_spec(source)) == join_lines(lines_of(source)),
{
    let shown = highlight_spec(source).map_values(|l: Seq<SpanModel>| joined(l));
    assert forall|k: int| 0 <= k < lines_of(source).len() implies shown[k] == lines_of(source)[k] by {
        lemma_highlight_keeps_text(lines_of(source)[k]);
    }
    assert(shown =~= lines_of(source));
}

/// A line of plain text is shown as it is, in the plain style.
pub proof fn lemma_plain_line_keeps_text(line: Seq<char>)
    ensures
        joined(plain_line_spec(line)) == line,
        forall|i: int|
            0 <= i < plain_line_spec(line).len() ==> (#[trigger] plain_line_spec(line)[i]).style
                == SpanStyle::Plain,
{
    if line.len() > 0 {
        let span = SpanModel { text: line, style: SpanStyle::Plain };
        lemma_joined_push(Seq::empty(), span);
        assert(joined(Seq::<SpanModel>::empty()) + line =~= line);
    } else {
        assert(line =~= Seq::<char>::empty());
    }
}

/// Plain text shows its own lines.
pub proof fn lemma_plain_shows_lines(text: Seq<char>)
    requires
        text.len() > 0,
    ensures
        plain_spec(text).len() == lines_of(text).len(),
        plain_spec(text).map_values(|l: Seq<SpanModel>| joined(l)) == lines_of(text),
{
    let shown = plain_spec(text).map_values(|l: Seq<SpanModel>| joined(l));
    assert forall|k: int| 0 <= k < lines_of(text).len() implies shown[k] == lines_of(text)[k] by {
        lemma_plain_line_keeps_text(lines_of(text)[k]);
    }
    assert(shown =~= lines_of(text));
}

/// The text does not end in a line feed, and no line feed in it follows
/// a carriage return: cutting it into lines drops nothing.
pub open spec fn keeps_line_endings(text: Seq<char>) -> bool {
    &&& text.len() > 0 ==> text.last() != '\n'
    &&& forall|k: int| 0 <= k < text.len() - 1 && #[trigger] text[k] == '\r' ==> text[k + 1] != '\n'
}

/// A text with at least one character has at least one line.
pub proof fn lemma_lines_nonempty(s: Seq<char>)
    requires
        s.len() > 0,
    ensures
        lines_of(s).len() > 0,
{
}

/// The lines of a text that keeps its line endings, joined by line
/// feeds, are the text.
pub proof fn lemma_join_lines_of(s: Seq<char>)
    requires
        keeps_line_endings(s),
    ensures
        join_lines(lines_of(s)) == s,
    decreases s.len(),
{
    if s.len() == 0 {
        assert(s =~= Seq::<char>::empty());
    } else {
        lemma_first_newline_is_first(s);
        let n = first_newline(s);
        if n >= s.len() {
        } else {
            let head = s.subrange(0, n);
            let rest = s.subrange(n + 1, s.len() as int);
            assert(strip_cr(head) == head) by {
                if n > 0 {
                    assert(head.last() == s[n - 1]);
                }
            }
            assert(n < s.len() - 1) by {
                assert(s.last() == s[s.len() - 1]);
            }
            assert(rest.len() > 0);
            assert(keeps_line_endings(rest)) by {
                assert(rest.last() == s.last());
                assert forall|k: int| 0 <= k < rest.len() - 1 && #[trigger] rest[k]
                    == '\r' implies rest[k + 1] != '\n' by {
                    assert(rest[k] == s[n + 1 + k]);
                    assert(rest[k + 1] == s[n + 1 + k + 1]);
                }
            }
            lemma_join_lines_of(rest);
            lemma_lines_nonempty(rest);
            let all = lines_of(s);
            assert(all == seq![head] + lines_of(rest));
            assert(all.len() > 1);
            assert(all[0] == head);
            assert(all.drop_first() =~= lines_of(rest));
            assert(head + seq!['\n'] + rest =~= s);
        }
    }
}

/// Plain text is shown without any change: what its styled lines show
/// is the text itself, for every text that keeps its line endings.
pub proof fn lemma_plain_round_trip(text: Seq<char>)
    requires
        keeps_line_endings(text),
    ensures
        displayed_text(plain_spec(text)) == text,
{
    let shown = plain_spec(text).map_values(|l: Seq<SpanModel>| joined(l));
    if text.len() == 0 {
        assert(shown =~= seq![Seq::<char>::empty()]);
        assert(join_lines(shown) =~= text);
    } else {
        lemma_plain_shows_lines(text);
        lemma_join_lines_of(text);
    }
}

} // verus!
