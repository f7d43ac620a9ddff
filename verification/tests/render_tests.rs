use mdexplorer::highlight::{highlight_html, highlight_line, plain_lines, style_for, Line, Span, SpanStyle};
use mdexplorer::markdown::markdown_to_html;
use mdexplorer::chars::chars_of;

fn span(text: &str, style: SpanStyle) -> Span {
    Span { text: text.to_string(), style }
}

fn tag(text: &str) -> Span {
    span(text, SpanStyle::Tag)
}

fn plain(text: &str) -> Span {
    span(text, SpanStyle::Plain)
}

fn line(spans: Vec<Span>) -> Line {
    Line { spans }
}

fn shown(lines: &[Line]) -> String {
    let texts: Vec<String> = lines
        .iter()
        .map(|l| l.spans.iter().map(|s| s.text.clone()).collect::<String>())
        .collect();
    texts.join("\n")
}

#[test]
fn heading_is_cut_into_tags_and_text() {
    let lines = highlight_html("<h1>Hi</h1>\n");
    assert_eq!(lines, vec![line(vec![tag("<h1>"), plain("Hi"), tag("</h1>")])]);
}

#[test]
fn every_source_line_is_one_styled_line() {
    let lines = highlight_html("<ul>\n<li>alpha</li>\n<li>beta</li>\n</ul>\n");
    assert_eq!(
        lines,
        vec![
            line(vec![tag("<ul>")]),
            line(vec![tag("<li>"), plain("alpha"), tag("</li>")]),
            line(vec![tag("<li>"), plain("beta"), tag("</li>")]),
            line(vec![tag("</ul>")]),
        ]
    );
}

#[test]
fn text_without_tags_is_one_plain_span() {
    assert_eq!(highlight_html("just text"), vec![line(vec![plain("just text")])]);
}

#[test]
fn a_stray_closing_bracket_ends_a_tag_run() {
    assert_eq!(highlight_html("a>b"), vec![line(vec![tag("a>"), plain("b")])]);
    assert_eq!(highlight_html(">"), vec![line(vec![tag(">")])]);
    assert_eq!(highlight_html(">>"), vec![line(vec![tag(">"), tag(">")])]);
}

#[test]
fn an_opening_bracket_inside_a_tag_starts_a_new_run() {
    assert_eq!(highlight_html("<a<b>"), vec![line(vec![tag("<a"), tag("<b>")])]);
    assert_eq!(highlight_html("<<"), vec![line(vec![tag("<"), tag("<")])]);
}

#[test]
fn an_open_tag_runs_to_the_end_of_its_line() {
    assert_eq!(
        highlight_html("x<unclosed\nnext>y"),
        vec![line(vec![plain("x"), tag("<unclosed")]), line(vec![tag("next>"), plain("y")])]
    );
}

#[test]
fn empty_source_has_no_line() {
    assert_eq!(highlight_html(""), Vec::<Line>::new());
}

#[test]
fn empty_lines_have_no_span() {
    assert_eq!(
        highlight_html("<p>\n\n</p>"),
        vec![line(vec![tag("<p>")]), line(vec![]), line(vec![tag("</p>")])]
    );
    assert_eq!(highlight_html("\n"), vec![line(vec![])]);
}

#[test]
fn highlighting_keeps_the_text_of_every_line() {
    let sources = ["<h1>Hi</h1>\n", "a>b<c", "<<>>", "no tags", "<p>é 日本</p>\r\n<br/>", "x\ny\n\nz"];
    for source in sources.iter() {
        let expected: Vec<&str> = source.lines().collect();
        assert_eq!(shown(&highlight_html(source)), expected.join("\n"), "{:?}", source);
    }
}

#[test]
fn highlighting_cuts_only_at_brackets() {
    let sources = ["<h1>Hi</h1>", "a>b<c", "<<>>", "a<b>c>d<e", "<a href=\"x\">y</a> z"];
    for source in sources.iter() {
        for l in highlight_html(source).iter() {
            for (i, s) in l.spans.iter().enumerate() {
                let cs: Vec<char> = s.text.chars().collect();
                assert!(!cs.is_empty());
                assert!(cs.iter().skip(1).all(|c| *c != '<'));
                assert!(cs.iter().take(cs.len() - 1).all(|c| *c != '>'));
                let is_tag = cs[0] == '<' || cs[cs.len() - 1] == '>';
                assert_eq!(s.style == SpanStyle::Tag, is_tag);
                if i + 1 < l.spans.len() {
                    let next = l.spans[i + 1].text.chars().next();
                    assert!(cs[cs.len() - 1] == '>' || next == Some('<'));
                }
            }
        }
    }
}

#[test]
fn highlight_line_scans_a_range() {
    let chars = chars_of("ab<i>cd</i>");
    assert_eq!(highlight_line(&chars, 2, 7), line(vec![tag("<i>"), plain("cd")]));
    assert_eq!(highlight_line(&chars, 0, 0), line(vec![]));
    assert_eq!(highlight_line(&chars, 0, 11), line(vec![plain("ab"), tag("<i>"), plain("cd"), tag("</i>")]));
}

#[test]
fn style_for_follows_the_state() {
    assert_eq!(style_for(true), SpanStyle::Tag);
    assert_eq!(style_for(false), SpanStyle::Plain);
}

#[test]
fn plain_text_is_one_plain_span_a_line() {
    assert_eq!(plain_lines("hello"), vec![line(vec![plain("hello")])]);
    assert_eq!(
        plain_lines("<b>not a tag</b>\nsecond"),
        vec![line(vec![plain("<b>not a tag</b>")]), line(vec![plain("second")])]
    );
}

#[test]
fn plain_empty_text_is_one_empty_line() {
    assert_eq!(plain_lines(""), vec![line(vec![])]);
}

#[test]
fn plain_text_keeps_empty_lines() {
    assert_eq!(
        plain_lines("a\n\nb\n"),
        vec![line(vec![plain("a")]), line(vec![]), line(vec![plain("b")])]
    );
}

#[test]
fn plain_text_round_trip() {
    let texts = ["", "hello", "a\nb", "a\n\nb", "tab\there", "é\n日本", "trailing \r", "<x> & y"];
    for text in texts.iter() {
        assert_eq!(shown(&plain_lines(text)), *text, "{:?}", text);
    }
}

#[test]
fn plain_text_drops_only_line_endings() {
    assert_eq!(shown(&plain_lines("a\n")), "a");
    assert_eq!(shown(&plain_lines("a\r\nb")), "a\nb");
}

#[test]
fn markdown_heading_becomes_html() {
    assert_eq!(markdown_to_html("# Hi"), "<h1>Hi</h1>\n");
}

#[test]
fn markdown_list_becomes_html() {
    assert_eq!(
        markdown_to_html("hello\n=====\n\n* alpha\n* beta\n"),
        "<h1>hello</h1>\n<ul>\n<li>alpha</li>\n<li>beta</li>\n</ul>\n"
    );
}

#[test]
fn markdown_extensions_are_on() {
    assert_eq!(markdown_to_html("~~gone~~"), "<p><del>gone</del></p>\n");
    assert_eq!(markdown_to_html(""), "");
}
