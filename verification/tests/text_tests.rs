use mdexplorer::chars::{char_lt, chars_of, is_whitespace, str_le, string_of};
use mdexplorer::command::{parse_command, range_is, token_ranges, trim_range, Command};
use mdexplorer::lines::line_ranges;
use mdexplorer::paths::{extension, has_extension};

fn cut(text: &str, ranges: &[(usize, usize)]) -> Vec<String> {
    let chars = chars_of(text);
    ranges.iter().map(|r| string_of(&chars, r.0, r.1)).collect()
}

fn lines(text: &str) -> Vec<String> {
    let chars = chars_of(text);
    cut(text, &line_ranges(&chars))
}

fn words(text: &str) -> Vec<String> {
    let chars = chars_of(text);
    cut(text, &token_ranges(&chars))
}

#[test]
fn chars_of_reads_scalar_values() {
    assert_eq!(chars_of("héllo"), vec!['h', 'é', 'l', 'l', 'o']);
    assert_eq!(chars_of(""), Vec::<char>::new());
    assert_eq!(chars_of("日本"), vec!['日', '本']);
}

#[test]
fn string_of_copies_a_range() {
    let chars = chars_of("héllo wörld");
    assert_eq!(string_of(&chars, 0, 5), "héllo");
    assert_eq!(string_of(&chars, 6, 11), "wörld");
    assert_eq!(string_of(&chars, 3, 3), "");
}

#[test]
fn whitespace_agrees_with_the_unicode_property() {
    let mut code: u32 = 0;
    while code <= 0x10ffff {
        if let Some(c) = char::from_u32(code) {
            assert_eq!(is_whitespace(c), c.is_whitespace(), "U+{:04X}", code);
        }
        code += 1;
    }
}

#[test]
fn whitespace_examples() {
    assert!(is_whitespace(' '));
    assert!(is_whitespace('\t'));
    assert!(is_whitespace('\n'));
    assert!(is_whitespace('\u{a0}'));
    assert!(is_whitespace('\u{3000}'));
    assert!(!is_whitespace('a'));
    assert!(!is_whitespace('\u{200b}'));
}

#[test]
fn char_lt_orders_by_code() {
    assert!(char_lt('a', 'b'));
    assert!(!char_lt('b', 'a'));
    assert!(!char_lt('a', 'a'));
    assert!(char_lt('Z', 'a'));
    assert!(char_lt('z', 'é'));
}

#[test]
fn str_le_is_lexicographic() {
    assert!(str_le("", ""));
    assert!(str_le("", "a"));
    assert!(!str_le("a", ""));
    assert!(str_le("a", "a"));
    assert!(str_le("a", "ab"));
    assert!(!str_le("ab", "a"));
    assert!(str_le("ab", "b"));
    assert!(str_le("Sub", "a.md"));
    assert!(!str_le("b.txt", "a.md"));
}

#[test]
fn str_le_agrees_with_the_order_of_strings() {
    let samples = ["", "a", "A", "ab", "a.md", "a/b", "b.txt", "Sub", "é", "z", "日本", "a\u{10ffff}"];
    for a in samples.iter() {
        for b in samples.iter() {
            assert_eq!(str_le(a, b), a <= b, "{:?} {:?}", a, b);
        }
    }
}

#[test]
fn lines_end_at_line_feeds() {
    assert_eq!(lines("a\nb"), vec!["a", "b"]);
    assert_eq!(lines("a\nb\n"), vec!["a", "b"]);
    assert_eq!(lines("a\n\nb"), vec!["a", "", "b"]);
    assert_eq!(lines("\n"), vec![""]);
    assert_eq!(lines("\n\n"), vec!["", ""]);
    assert_eq!(lines(""), Vec::<String>::new());
    assert_eq!(lines("one line"), vec!["one line"]);
}

#[test]
fn lines_drop_a_carriage_return_before_the_line_feed() {
    assert_eq!(lines("a\r\nb\r\n"), vec!["a", "b"]);
    assert_eq!(lines("a\r"), vec!["a\r"]);
    assert_eq!(lines("a\rb\n"), vec!["a\rb"]);
    assert_eq!(lines("a\r\r\nb"), vec!["a\r", "b"]);
    assert_eq!(lines("\r\n"), vec![""]);
}

#[test]
fn lines_agree_with_the_lines_of_strings() {
    let samples = ["", "a", "a\n", "\n", "\r\n", "a\r\nb", "a\n\n", "\n\na", "a\r", "\r", "x\r\r\n", "é\n日本\r\n"];
    for s in samples.iter() {
        let expected: Vec<String> = s.lines().map(|l| l.to_string()).collect();
        assert_eq!(lines(s), expected, "{:?}", s);
    }
}

#[test]
fn words_are_runs_without_whitespace() {
    assert_eq!(words("cat b.txt"), vec!["cat", "b.txt"]);
    assert_eq!(words("  cat \t b.txt  "), vec!["cat", "b.txt"]);
    assert_eq!(words(""), Vec::<String>::new());
    assert_eq!(words(" \t\n"), Vec::<String>::new());
    assert_eq!(words("q"), vec!["q"]);
    assert_eq!(words("a\u{3000}b\u{a0}c"), vec!["a", "b", "c"]);
}

#[test]
fn words_agree_with_split_whitespace() {
    let samples = ["", " ", "a", " a", "a ", "a b", "a  b", "\ta\nb\r\nc ", "x\u{2003}y", "é 日本"];
    for s in samples.iter() {
        let expected: Vec<String> = s.split_whitespace().map(|w| w.to_string()).collect();
        assert_eq!(words(s), expected, "{:?}", s);
    }
}

#[test]
fn trim_range_agrees_with_trim() {
    let samples = ["", " ", "   ", "a", " a", "a ", "  a b  ", "\t\nzz\u{3000}", "a  b"];
    for s in samples.iter() {
        let chars = chars_of(s);
        let r = trim_range(&chars);
        assert!(r.0 <= r.1 && r.1 <= chars.len());
        assert_eq!(string_of(&chars, r.0, r.1), s.trim(), "{:?}", s);
    }
}

#[test]
fn range_is_compares_a_range_with_a_word() {
    let chars = chars_of("cat cab");
    assert!(range_is(&chars, (0, 3), &vec!['c', 'a', 't']));
    assert!(!range_is(&chars, (4, 7), &vec!['c', 'a', 't']));
    assert!(!range_is(&chars, (0, 2), &vec!['c', 'a', 't']));
    assert!(range_is(&chars, (3, 3), &vec![]));
}

#[test]
fn parse_quit() {
    assert_eq!(parse_command("q"), Command::Quit);
    assert_eq!(parse_command("  q  "), Command::Quit);
}

#[test]
fn parse_cat() {
    assert_eq!(parse_command("cat b.txt"), Command::Cat("b.txt".to_string()));
    assert_eq!(parse_command(" cat   notes/α.md "), Command::Cat("notes/α.md".to_string()));
}

#[test]
fn parse_open_browser() {
    assert_eq!(parse_command("ob index.html"), Command::OpenBrowser("index.html".to_string()));
    assert_eq!(parse_command("ob readme.md"), Command::OpenBrowser("readme.md".to_string()));
}

#[test]
fn parse_empty() {
    assert_eq!(parse_command(""), Command::Empty);
    assert_eq!(parse_command("   \t "), Command::Empty);
}

#[test]
fn parse_unknown_keeps_the_trimmed_line() {
    assert_eq!(parse_command("zz"), Command::Unknown("zz".to_string()));
    assert_eq!(parse_command("  zz  top "), Command::Unknown("zz  top".to_string()));
}

#[test]
fn parse_rejects_wrong_arity() {
    assert_eq!(parse_command("q now"), Command::Unknown("q now".to_string()));
    assert_eq!(parse_command("cat"), Command::Unknown("cat".to_string()));
    assert_eq!(parse_command("cat a b"), Command::Unknown("cat a b".to_string()));
    assert_eq!(parse_command("ob"), Command::Unknown("ob".to_string()));
    assert_eq!(parse_command("ob a b c"), Command::Unknown("ob a b c".to_string()));
}

#[test]
fn parse_is_exact_about_the_command_word() {
    assert_eq!(parse_command("Q"), Command::Unknown("Q".to_string()));
    assert_eq!(parse_command("cats f"), Command::Unknown("cats f".to_string()));
    assert_eq!(parse_command("hp f"), Command::Unknown("hp f".to_string()));
}

#[test]
fn extension_is_what_follows_the_last_dot() {
    assert_eq!(extension("a.md"), Some("md".to_string()));
    assert_eq!(extension("/x/y/a.tar.gz"), Some("gz".to_string()));
    assert_eq!(extension(".a.b"), Some("b".to_string()));
    assert_eq!(extension("a."), Some("".to_string()));
    assert_eq!(extension("/home/u/readme.MD"), Some("MD".to_string()));
}

#[test]
fn extension_is_missing() {
    assert_eq!(extension(""), None);
    assert_eq!(extension("Makefile"), None);
    assert_eq!(extension(".bashrc"), None);
    assert_eq!(extension("/x/.bashrc"), None);
    assert_eq!(extension("dir.d/file"), None);
    assert_eq!(extension(".."), None);
    assert_eq!(extension("/x/.."), None);
    assert_eq!(extension("a.md/"), None);
}

#[test]
fn extension_agrees_with_paths_of_files() {
    let samples = ["a.md", "/x/y/a.tar.gz", ".a.b", "a.", "Makefile", ".bashrc", "dir.d/file", "..", "/x/..", "x/y.html", "...", "a..b"];
    for s in samples.iter() {
        let expected = std::path::Path::new(s).extension().and_then(|e| e.to_str()).map(|e| e.to_string());
        assert_eq!(extension(s), expected, "{:?}", s);
    }
}

#[test]
fn has_extension_is_exact() {
    assert!(has_extension("a.md", "md"));
    assert!(!has_extension("a.md", "html"));
    assert!(!has_extension("a.MD", "md"));
    assert!(!has_extension("amd", "md"));
    assert!(!has_extension(".md", "md"));
    assert!(has_extension("/site/index.html", "html"));
    assert!(!has_extension("/site/index.htm", "html"));
}
