use mdexplorer::entries::Entry;
use mdexplorer::explorer::Severity;
use mdexplorer::highlight::{Line, Span, SpanStyle};
use mdexplorer::preview::{CopyOutcome, DocumentKind, PreviewState};
use mdexplorer::session::{
    command_intent, document_kind, explorer_intent, preview_intent, Action, CommandIntent,
    ExplorerIntent, Key, Mode, PreviewIntent, Session,
};

fn file(path: &str) -> Entry {
    Entry::new(path.to_string(), false)
}

fn dir(path: &str) -> Entry {
    Entry::new(path.to_string(), true)
}

fn session() -> Session {
    Session::new(
        "/work".to_string(),
        vec![file("/work/a.md"), file("/work/b.txt"), dir("/work/Sub")],
    )
}

fn run_command(s: &mut Session, line: &str) -> Action {
    assert_eq!(s.handle_key(Key::Char(':')), Action::Nothing);
    for c in line.chars() {
        assert_eq!(s.handle_key(Key::Char(c)), Action::Nothing);
    }
    s.handle_key(Key::Enter)
}

fn status(s: &Session) -> Option<(String, Severity)> {
    s.explorer().status_message().map(|m| (m.text.clone(), m.severity))
}

fn span(text: &str, style: SpanStyle) -> Span {
    Span { text: text.to_string(), style }
}

fn text_doc(text: &str) -> PreviewState {
    PreviewState::new_text("/work/t".to_string(), text.to_string(), true)
}

#[test]
fn entering_a_directory_lists_directories_first() {
    let s = session();
    let shown: Vec<String> = s.explorer().entries().iter().map(|e| e.display_name()).collect();
    assert_eq!(shown, vec!["Sub/", "a.md", "b.txt"]);
    assert_eq!(s.explorer().selected(), Some(0));
    assert_eq!(s.mode(), Mode::Explorer);
    assert!(s.preview().is_none());
}

#[test]
fn entering_a_markdown_file_previews_its_html() {
    let mut s = session();
    assert_eq!(s.handle_key(Key::Char('j')), Action::Nothing);
    assert_eq!(
        s.handle_key(Key::Enter),
        Action::ReadFile("/work/a.md".to_string(), DocumentKind::Markdown)
    );
    assert_eq!(s.mode(), Mode::Explorer);
    s.file_read("/work/a.md".to_string(), DocumentKind::Markdown, Ok("# Hi".to_string()), false);
    assert_eq!(s.mode(), Mode::Preview);
    let doc = s.preview().unwrap();
    assert_eq!(doc.original_text(), "<h1>Hi</h1>\n");
    assert_eq!(doc.title(), "/work/a.md");
    assert_eq!(doc.kind(), DocumentKind::Markdown);
    assert_eq!(
        doc.content(),
        &vec![Line {
            spans: vec![
                span("<h1>", SpanStyle::Tag),
                span("Hi", SpanStyle::Plain),
                span("</h1>", SpanStyle::Tag),
            ],
        }]
    );
    assert_eq!(doc.char_count(), 12);
    assert_eq!(doc.scroll(), 0);
}

#[test]
fn entering_another_file_previews_plain_text() {
    let mut s = session();
    s.handle_key(Key::Down);
    s.handle_key(Key::Down);
    assert_eq!(
        s.handle_key(Key::Char('l')),
        Action::ReadFile("/work/b.txt".to_string(), DocumentKind::PlainText)
    );
    s.file_read("/work/b.txt".to_string(), DocumentKind::PlainText, Ok("# Hi".to_string()), true);
    let doc = s.preview().unwrap();
    assert_eq!(doc.original_text(), "# Hi");
    assert_eq!(doc.content(), &vec![Line { spans: vec![span("# Hi", SpanStyle::Plain)] }]);
    assert!(doc.has_clipboard());
}

#[test]
fn entering_a_directory_asks_for_its_listing() {
    let mut s = session();
    assert_eq!(s.handle_key(Key::Right), Action::EnterDirectory("/work/Sub".to_string()));
    s.directory_listed("/work/Sub".to_string(), vec![file("/work/Sub/z"), file("/work/Sub/y")]);
    assert_eq!(s.explorer().current_path(), "/work/Sub");
    assert_eq!(s.explorer().selected(), Some(0));
    assert_eq!(s.explorer().selected_entry(), Some(&file("/work/Sub/y")));
    assert_eq!(s.mode(), Mode::Explorer);
}

#[test]
fn entering_nothing_does_nothing() {
    let mut s = Session::new("/empty".to_string(), Vec::new());
    assert_eq!(s.handle_key(Key::Enter), Action::Nothing);
    assert_eq!(s.handle_key(Key::Char('j')), Action::Nothing);
    assert_eq!(s.explorer().selected(), None);
}

#[test]
fn parent_keys_ask_for_the_parent() {
    for key in [Key::Left, Key::Char('h'), Key::Backspace] {
        let mut s = session();
        assert_eq!(s.handle_key(key), Action::ListParent);
        assert_eq!(s.explorer().current_path(), "/work");
    }
    let mut s = session();
    s.handle_key(Key::Down);
    s.directory_listed("/".to_string(), vec![dir("/work")]);
    assert_eq!(s.explorer().current_path(), "/");
    assert_eq!(s.explorer().selected(), Some(0));
}

#[test]
fn a_failed_read_leaves_an_error_and_the_mode() {
    let mut s = session();
    s.handle_key(Key::Down);
    s.file_read("/work/a.md".to_string(), DocumentKind::Markdown, Err("permission denied".to_string()), true);
    assert_eq!(s.mode(), Mode::Explorer);
    assert_eq!(status(&s), Some(("file read error: permission denied".to_string(), Severity::Error)));
    assert_eq!(s.explorer().selected(), Some(1));
}

#[test]
fn any_key_in_the_explorer_clears_the_message() {
    let mut s = session();
    assert!(!s.cat_target_checked("x", false));
    assert!(status(&s).is_some());
    assert_eq!(s.handle_key(Key::Other), Action::Nothing);
    assert_eq!(status(&s), None);
    assert!(!s.cat_target_checked("x", false));
    s.handle_key(Key::Char('z'));
    assert_eq!(status(&s), None);
}

#[test]
fn cat_opens_a_plain_text_preview() {
    let mut s = session();
    assert_eq!(run_command(&mut s, "cat b.txt"), Action::Cat("b.txt".to_string()));
    assert_eq!(s.mode(), Mode::Explorer);
    assert!(!s.explorer().in_command_mode());
    assert!(s.cat_target_checked("b.txt", true));
    assert_eq!(status(&s), None);
    s.cat_read("/work/b.txt".to_string(), Ok("hello".to_string()), true);
    assert_eq!(s.mode(), Mode::Preview);
    let doc = s.preview().unwrap();
    assert_eq!(doc.original_text(), "hello");
    assert_eq!(doc.char_count(), 5);
    assert_eq!(doc.kind(), DocumentKind::PlainText);
    assert_eq!(doc.title(), "/work/b.txt");
}

#[test]
fn cat_shows_markdown_as_it_is() {
    let mut s = session();
    assert_eq!(run_command(&mut s, "cat a.md"), Action::Cat("a.md".to_string()));
    assert!(s.cat_target_checked("a.md", true));
    s.cat_read("/work/a.md".to_string(), Ok("# Hi".to_string()), true);
    let doc = s.preview().unwrap();
    assert_eq!(doc.kind(), DocumentKind::PlainText);
    assert_eq!(doc.original_text(), "# Hi");
    assert_eq!(doc.content(), &vec![Line { spans: vec![span("# Hi", SpanStyle::Plain)] }]);
}

#[test]
fn cat_of_a_missing_file_is_an_error() {
    let mut s = session();
    assert_eq!(run_command(&mut s, "cat nope.txt"), Action::Cat("nope.txt".to_string()));
    assert!(!s.cat_target_checked("nope.txt", false));
    assert_eq!(s.mode(), Mode::Explorer);
    assert_eq!(status(&s), Some(("file not found: nope.txt".to_string(), Severity::Error)));
}

#[test]
fn cat_of_a_file_that_cannot_be_read_is_an_error() {
    let mut s = session();
    run_command(&mut s, "cat b.txt");
    assert!(s.cat_target_checked("b.txt", true));
    s.cat_read("/work/b.txt".to_string(), Err("not valid UTF-8".to_string()), true);
    assert_eq!(s.mode(), Mode::Explorer);
    assert_eq!(status(&s), Some(("file read error: not valid UTF-8".to_string(), Severity::Error)));
}

#[test]
fn ob_refuses_a_file_that_is_no_html() {
    let mut s = session();
    assert_eq!(run_command(&mut s, "ob readme.md"), Action::OpenInBrowser("readme.md".to_string()));
    assert!(!s.browser_target_checked("readme.md", "/work/readme.md", true));
    assert_eq!(status(&s), Some(("only HTML files can be opened".to_string(), Severity::Error)));
    assert_eq!(s.mode(), Mode::Explorer);
}

#[test]
fn ob_refuses_a_missing_file_first() {
    let mut s = session();
    run_command(&mut s, "ob gone.md");
    assert!(!s.browser_target_checked("gone.md", "/work/gone.md", false));
    assert_eq!(status(&s), Some(("file not found: gone.md".to_string(), Severity::Error)));
    assert!(!s.browser_target_checked("gone.html", "/work/gone.html", false));
    assert_eq!(status(&s), Some(("file not found: gone.html".to_string(), Severity::Error)));
}

#[test]
fn ob_opens_an_html_file() {
    let mut s = session();
    assert_eq!(run_command(&mut s, "ob index.html"), Action::OpenInBrowser("index.html".to_string()));
    assert!(s.browser_target_checked("index.html", "/work/index.html", true));
    assert_eq!(status(&s), None);
    s.browser_opened("index.html", Ok(()));
    assert_eq!(status(&s), Some(("opened in browser: index.html".to_string(), Severity::Info)));
    assert_eq!(s.mode(), Mode::Explorer);
}

#[test]
fn ob_reports_a_browser_that_fails() {
    let mut s = session();
    run_command(&mut s, "ob index.html");
    assert!(s.browser_target_checked("index.html", "/work/index.html", true));
    s.browser_opened("index.html", Err("no browser".to_string()));
    assert_eq!(status(&s), Some(("could not open in browser: no browser".to_string(), Severity::Error)));
    assert_eq!(s.mode(), Mode::Explorer);
}

#[test]
fn quit_command_asks_to_quit() {
    let mut s = session();
    assert_eq!(run_command(&mut s, "q"), Action::Quit);
    assert_eq!(status(&s), None);
    assert!(!s.explorer().in_command_mode());
}

#[test]
fn unknown_command_is_an_error() {
    let mut s = session();
    assert_eq!(run_command(&mut s, "zz"), Action::Nothing);
    assert_eq!(status(&s), Some(("unknown command: zz".to_string(), Severity::Error)));
    assert_eq!(s.explorer().command_input(), "");
    assert!(!s.explorer().in_command_mode());
    assert_eq!(s.mode(), Mode::Explorer);
}

#[test]
fn empty_command_does_nothing() {
    let mut s = session();
    assert_eq!(run_command(&mut s, ""), Action::Nothing);
    assert_eq!(status(&s), None);
    assert!(!s.explorer().in_command_mode());
}

#[test]
fn command_line_keys() {
    let mut s = session();
    s.handle_key(Key::Char(':'));
    assert!(s.explorer().in_command_mode());
    s.handle_key(Key::Char('j'));
    s.handle_key(Key::Char('q'));
    assert_eq!(s.explorer().command_input(), "jq");
    assert_eq!(s.explorer().selected(), Some(0));
    s.handle_key(Key::Backspace);
    assert_eq!(s.explorer().command_input(), "j");
    s.handle_key(Key::Up);
    s.handle_key(Key::Other);
    assert_eq!(s.explorer().command_input(), "j");
    assert_eq!(s.handle_key(Key::Esc), Action::Nothing);
    assert!(!s.explorer().in_command_mode());
    assert_eq!(s.explorer().command_input(), "");
}

#[test]
fn preview_keys_scroll_and_close() {
    let mut s = session();
    s.file_read("/work/b.txt".to_string(), DocumentKind::PlainText, Ok("1\n2\n3".to_string()), true);
    assert_eq!(s.handle_key(Key::Char('j')), Action::Nothing);
    assert_eq!(s.preview().unwrap().scroll(), 1);
    s.handle_key(Key::Down);
    assert_eq!(s.preview().unwrap().scroll(), 2);
    s.handle_key(Key::Down);
    assert_eq!(s.preview().unwrap().scroll(), 2);
    s.handle_key(Key::Char('k'));
    s.handle_key(Key::Up);
    s.handle_key(Key::Up);
    assert_eq!(s.preview().unwrap().scroll(), 0);
    assert_eq!(s.explorer().selected(), Some(0));
    s.handle_key(Key::Char(':'));
    s.handle_key(Key::Enter);
    assert_eq!(s.mode(), Mode::Preview);
    assert_eq!(s.handle_key(Key::Char('q')), Action::Nothing);
    assert_eq!(s.mode(), Mode::Explorer);
    assert!(s.preview().is_none());
    assert!(!s.explorer().in_command_mode());
}

#[test]
fn copy_hands_out_the_raw_source() {
    let mut s = session();
    s.file_read("/work/a.md".to_string(), DocumentKind::Markdown, Ok("# Hi".to_string()), true);
    assert_eq!(s.handle_key(Key::Char('y')), Action::Copy("<h1>Hi</h1>\n".to_string(), false));
    s.copy_finished(CopyOutcome::Copied);
    assert_eq!(s.preview().unwrap().status_message(), None);
    let mut s = session();
    s.file_read("/work/b.txt".to_string(), DocumentKind::PlainText, Ok("a\r\nb\n".to_string()), true);
    assert_eq!(s.handle_key(Key::Char('y')), Action::Copy("a\r\nb\n".to_string(), false));
}

#[test]
fn copy_asks_for_a_clipboard_while_none_is_at_hand() {
    let mut s = session();
    s.file_read("/work/b.txt".to_string(), DocumentKind::PlainText, Ok("x".to_string()), false);
    assert_eq!(s.handle_key(Key::Char('y')), Action::Copy("x".to_string(), true));
    s.copy_finished(CopyOutcome::Unavailable);
    assert_eq!(s.handle_key(Key::Char('y')), Action::Copy("x".to_string(), true));
    s.copy_finished(CopyOutcome::Copied);
    assert_eq!(s.handle_key(Key::Char('y')), Action::Copy("x".to_string(), false));
    s.copy_finished(CopyOutcome::Failed("busy".to_string()));
    assert_eq!(s.handle_key(Key::Char('y')), Action::Copy("x".to_string(), false));
}

#[test]
fn copy_outcomes_show_in_the_preview() {
    let mut s = session();
    s.file_read("/work/b.txt".to_string(), DocumentKind::PlainText, Ok("x".to_string()), false);
    s.copy_finished(CopyOutcome::Unavailable);
    assert_eq!(s.preview().unwrap().status_message().map(|m| m.as_str()), Some("clipboard not available"));
    assert!(!s.preview().unwrap().has_clipboard());
    s.copy_finished(CopyOutcome::Failed("busy".to_string()));
    assert_eq!(s.preview().unwrap().status_message().map(|m| m.as_str()), Some("copy failed: busy"));
    assert!(s.preview().unwrap().has_clipboard());
    s.copy_finished(CopyOutcome::Copied);
    assert_eq!(s.preview().unwrap().status_message(), None);
    assert_eq!(status(&s), None);
}

#[test]
fn copy_outcome_without_a_preview_changes_nothing() {
    let mut s = session();
    s.copy_finished(CopyOutcome::Unavailable);
    assert_eq!(s.mode(), Mode::Explorer);
    assert_eq!(status(&s), None);
}

#[test]
fn key_tables() {
    assert_eq!(explorer_intent(Key::Char('j')), ExplorerIntent::Next);
    assert_eq!(explorer_intent(Key::Down), ExplorerIntent::Next);
    assert_eq!(explorer_intent(Key::Char('k')), ExplorerIntent::Previous);
    assert_eq!(explorer_intent(Key::Up), ExplorerIntent::Previous);
    assert_eq!(explorer_intent(Key::Char('h')), ExplorerIntent::Parent);
    assert_eq!(explorer_intent(Key::Left), ExplorerIntent::Parent);
    assert_eq!(explorer_intent(Key::Backspace), ExplorerIntent::Parent);
    assert_eq!(explorer_intent(Key::Char('l')), ExplorerIntent::Enter);
    assert_eq!(explorer_intent(Key::Right), ExplorerIntent::Enter);
    assert_eq!(explorer_intent(Key::Enter), ExplorerIntent::Enter);
    assert_eq!(explorer_intent(Key::Char(':')), ExplorerIntent::CommandMode);
    assert_eq!(explorer_intent(Key::Char('q')), ExplorerIntent::Nothing);
    assert_eq!(explorer_intent(Key::Esc), ExplorerIntent::Nothing);
    assert_eq!(explorer_intent(Key::Other), ExplorerIntent::Nothing);
    assert_eq!(command_intent(Key::Enter), CommandIntent::Execute);
    assert_eq!(command_intent(Key::Char(':')), CommandIntent::Append(':'));
    assert_eq!(command_intent(Key::Backspace), CommandIntent::Backspace);
    assert_eq!(command_intent(Key::Esc), CommandIntent::Cancel);
    assert_eq!(command_intent(Key::Left), CommandIntent::Nothing);
    assert_eq!(preview_intent(Key::Char('q')), PreviewIntent::Close);
    assert_eq!(preview_intent(Key::Char('k')), PreviewIntent::ScrollUp);
    assert_eq!(preview_intent(Key::Up), PreviewIntent::ScrollUp);
    assert_eq!(preview_intent(Key::Char('j')), PreviewIntent::ScrollDown);
    assert_eq!(preview_intent(Key::Down), PreviewIntent::ScrollDown);
    assert_eq!(preview_intent(Key::Char('y')), PreviewIntent::Copy);
    assert_eq!(preview_intent(Key::Enter), PreviewIntent::Nothing);
    assert_eq!(preview_intent(Key::Esc), PreviewIntent::Nothing);
}

#[test]
fn document_kind_goes_by_the_extension() {
    assert_eq!(document_kind("/work/a.md"), DocumentKind::Markdown);
    assert_eq!(document_kind("/work/a.MD"), DocumentKind::PlainText);
    assert_eq!(document_kind("/work/a.html"), DocumentKind::PlainText);
    assert_eq!(document_kind("/work/md"), DocumentKind::PlainText);
    assert_eq!(document_kind("/work/.md"), DocumentKind::PlainText);
    assert_eq!(document_kind("/work.md/notes"), DocumentKind::PlainText);
}

#[test]
fn scroll_down_stops_at_the_last_line() {
    let mut doc = text_doc("a\nb\nc\nd");
    assert_eq!(doc.height(), 4);
    for _ in 0..10 {
        doc.scroll_down();
        assert!(doc.scroll() <= doc.height() - 1);
    }
    assert_eq!(doc.scroll(), 3);
}

#[test]
fn scroll_up_stops_at_the_first_line() {
    let mut doc = text_doc("a\nb\nc");
    doc.scroll_up();
    assert_eq!(doc.scroll(), 0);
    doc.scroll_down();
    doc.scroll_up();
    doc.scroll_up();
    assert_eq!(doc.scroll(), 0);
}

#[test]
fn a_document_without_lines_does_not_scroll() {
    let mut doc = PreviewState::new_html("/work/e.md".to_string(), String::new(), true);
    assert_eq!(doc.height(), 0);
    doc.scroll_down();
    assert_eq!(doc.scroll(), 0);
    doc.scroll_up();
    assert_eq!(doc.scroll(), 0);
    let mut doc = text_doc("");
    assert_eq!(doc.height(), 1);
    doc.scroll_down();
    assert_eq!(doc.scroll(), 0);
}

#[test]
fn char_count_counts_scalar_values() {
    assert_eq!(text_doc("hello").char_count(), 5);
    assert_eq!(text_doc("héllo 日本").char_count(), 8);
    assert_eq!(text_doc("").char_count(), 0);
    assert_eq!(text_doc("a\r\nb").char_count(), 4);
}

#[test]
fn render_converts_markdown_only() {
    let doc = PreviewState::render("t".to_string(), "*x*".to_string(), DocumentKind::Markdown, false);
    assert_eq!(doc.original_text(), "<p><em>x</em></p>\n");
    assert_eq!(doc.copy_text(), "<p><em>x</em></p>\n");
    assert_eq!(doc.char_count(), 18);
    assert!(!doc.has_clipboard());
    let doc = PreviewState::render("t".to_string(), "*x*".to_string(), DocumentKind::PlainText, true);
    assert_eq!(doc.original_text(), "*x*");
    assert_eq!(doc.copy_text(), "*x*");
}

#[test]
fn copy_to_clipboard_keeps_the_document() {
    let mut doc = text_doc("a\nb");
    doc.scroll_down();
    doc.copy_to_clipboard(CopyOutcome::Failed("denied".to_string()));
    assert_eq!(doc.status_message().map(|m| m.as_str()), Some("copy failed: denied"));
    assert_eq!(doc.original_text(), "a\nb");
    assert_eq!(doc.scroll(), 1);
    assert_eq!(doc.height(), 2);
}

#[test]
fn footer_shows_title_count_and_message() {
    let mut doc = text_doc("hello");
    assert_eq!(doc.footer(), "/work/t | 5 chars | Press 'q' to close | 'y' to copy");
    doc.copy_to_clipboard(CopyOutcome::Unavailable);
    assert_eq!(doc.footer(), "/work/t | 5 chars | clipboard not available");
}
