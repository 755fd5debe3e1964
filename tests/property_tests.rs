use greprs::cli::{CliArgs, ColorOption};
use greprs::filter::{should_process_file, GlobPattern};
use greprs::format::push_decimal;
use greprs::lines::split_lines;
use greprs::search::{search_file, search_lines, SearchConfig};
use greprs::utils::{build_regex, escape_basic_regex, Matcher, RegexConfig};
use greprs::walk::{merge_in_order, root_action, use_parallel, EntryAction};
use greprs::window::{ContextWindow, LineDecision};

fn matcher(pattern: &str) -> Matcher {
    build_regex(pattern, &RegexConfig::default()).unwrap()
}

fn output(pattern: &str, content: &str, config: &SearchConfig) -> String {
    let mut out = Vec::new();
    search_file(&matcher(pattern), b"f.txt", content.as_bytes(), config, &mut out);
    String::from_utf8(out).unwrap()
}

#[test]
fn invert_emits_exactly_non_matching_lines() {
    let content = "apple\nbanana\ncherry\navocado\n";
    let plain = output("a", content, &SearchConfig::default());
    assert_eq!(plain, "apple\nbanana\navocado\n");
    let inverted = output("a", content, &SearchConfig { invert_match: true, ..SearchConfig::default() });
    assert_eq!(inverted, "cherry\n");
}

#[test]
fn count_is_capped_by_max_count() {
    let content = "x\nx\nx\ny\nx\n";
    let cfg = |k: Option<usize>| SearchConfig { count: true, max_count: k, ..SearchConfig::default() };
    assert_eq!(output("x", content, &cfg(None)), "4\n");
    assert_eq!(output("x", content, &cfg(Some(2))), "2\n");
    assert_eq!(output("x", content, &cfg(Some(9))), "4\n");
    assert_eq!(output("x", content, &cfg(Some(0))), "0\n");
}

#[test]
fn count_with_filename_prefix() {
    let cfg = SearchConfig { count: true, with_filename: true, ..SearchConfig::default() };
    assert_eq!(output("x", "x\nz\n", &cfg), "f.txt:1\n");
    let cfg = SearchConfig { count: true, with_filename: true, no_filename: true, ..SearchConfig::default() };
    assert_eq!(output("x", "x\nz\n", &cfg), "1\n");
}

#[test]
fn context_window_is_deduplicated() {
    let cfg = SearchConfig { before_context: Some(1), after_context: Some(1), ..SearchConfig::default() };
    assert_eq!(output("MATCH", "a\nb\nMATCH\nc\nd\n", &cfg), "b\nMATCH\nc\n");
    // A second match inside the after-context window.
    assert_eq!(output("M", "a\nM1\nM2\nc\nd\n", &cfg), "a\nM1\nM2\nc\n");
    // Overlapping wider windows still show each line once.
    let cfg = SearchConfig { context: Some(2), ..SearchConfig::default() };
    assert_eq!(output("M", "M\nx\nM\ny\nz\nw\n", &cfg), "M\nx\nM\ny\nz\n");
}

#[test]
fn context_stops_at_max_count() {
    let cfg = SearchConfig { after_context: Some(5), max_count: Some(1), ..SearchConfig::default() };
    assert_eq!(output("M", "M\na\nM\nb\n", &cfg), "M\na\n");
}

#[test]
fn max_count_zero_shows_nothing() {
    let cfg = SearchConfig { max_count: Some(0), ..SearchConfig::default() };
    assert_eq!(output("x", "x\nx\n", &cfg), "");
}

#[test]
fn only_matching_yields_each_span() {
    let cfg = SearchConfig { only_matching: true, ..SearchConfig::default() };
    assert_eq!(output("X", "aXbXc\n", &cfg), "X\nX\n");
    let cfg = SearchConfig { only_matching: true, byte_offset: true, ..SearchConfig::default() };
    assert_eq!(output("X", "aXbXc\n", &cfg), "1:X\n3:X\n");
}

#[test]
fn byte_offset_counts_preceding_bytes() {
    let cfg = SearchConfig { byte_offset: true, ..SearchConfig::default() };
    assert_eq!(output("MATCH", "First line\nMATCH line\n", &cfg), "11:MATCH line\n");
    assert_eq!(output("First", "First line\nMATCH line\n", &cfg), "0:First line\n");
    let cfg = SearchConfig { byte_offset: true, null_data: true, ..SearchConfig::default() };
    assert_eq!(output("b", "aa\0bb\0", &cfg), "3:bb\n");
}

#[test]
fn prefix_fields_in_order() {
    let cfg = SearchConfig {
        with_filename: true,
        line_number: true,
        byte_offset: true,
        null: true,
        ..SearchConfig::default()
    };
    assert_eq!(output("two", "one\ntwo\n", &cfg), "f.txt:2:4:two\0");
}

#[test]
fn color_marks_fields_and_spans() {
    let cfg = SearchConfig { use_color: true, with_filename: true, line_number: true, ..SearchConfig::default() };
    assert_eq!(
        output("b", "abc\n", &cfg),
        "\x1b[35mf.txt\x1b[0m:\x1b[32m1\x1b[0m:a\x1b[1;31mb\x1b[0mc\n"
    );
    let cfg = SearchConfig { use_color: true, before_context: Some(1), ..SearchConfig::default() };
    assert_eq!(output("b", "x\nb\n", &cfg), "x\n\x1b[1;31mb\x1b[0m\n");
}

#[test]
fn files_without_match_modes() {
    let cfg = SearchConfig { files_without_match: true, ..SearchConfig::default() };
    assert_eq!(output("a", "a\nab\n", &cfg), "");
    assert_eq!(output("z", "a\nab\n", &cfg), "f.txt\n");
    let cfg = SearchConfig { files_with_matches: true, ..SearchConfig::default() };
    assert_eq!(output("b", "a\nab\n", &cfg), "f.txt\n");
    assert_eq!(output("z", "a\nab\n", &cfg), "");
}

#[test]
fn quiet_never_writes() {
    let cfg = SearchConfig { quiet: true, count: true, files_with_matches: true, ..SearchConfig::default() };
    let mut out = b"kept".to_vec();
    search_file(&matcher("a"), b"f", b"a\nb\n", &cfg, &mut out);
    assert_eq!(out, b"kept".to_vec());
    search_file(&matcher("z"), b"f", b"a\nb\n", &cfg, &mut out);
    assert_eq!(out, b"kept".to_vec());
}

#[test]
fn lines_split_like_text_lines() {
    assert_eq!(split_lines(b"a\nb", false), vec![(0, 1), (2, 3)]);
    assert_eq!(split_lines(b"a\r\nb\n", false), vec![(0, 1), (3, 4)]);
    assert_eq!(split_lines(b"", false), vec![]);
    assert_eq!(split_lines(b"\n", false), vec![(0, 0)]);
    assert_eq!(split_lines(b"a\0b\0", true), vec![(0, 1), (2, 3), (4, 4)]);
    assert_eq!(split_lines(b"", true), vec![(0, 0)]);
}

#[test]
fn decimal_rendering() {
    let mut out = Vec::new();
    push_decimal(&mut out, 0);
    push_decimal(&mut out, 1234);
    assert_eq!(out, b"01234".to_vec());
}

#[test]
fn basic_syntax_escaping() {
    assert_eq!(escape_basic_regex("a+b(c)|d?{2}"), "a\\+b\\(c\\)\\|d\\?\\{2\\}");
    let re = build_regex("a+", &RegexConfig::default()).unwrap();
    assert!(re.is_match("xa+y"));
    assert!(!re.is_match("aa"));
    let re = build_regex("a+", &RegexConfig { extended_regexp: true, ..RegexConfig::default() }).unwrap();
    assert!(re.is_match("aa"));
}

#[test]
fn fixed_strings_escape_metacharacters() {
    let re = build_regex("a.c*", &RegexConfig { fixed_strings: true, ..RegexConfig::default() }).unwrap();
    assert!(re.is_match("xa.c*"));
    assert!(!re.is_match("abcc"));
}

#[test]
fn file_filter_rules() {
    let cfg = SearchConfig { ignore_binary: true, ..SearchConfig::default() };
    assert!(!should_process_file(Some("image.png"), true, &cfg));
    assert!(!should_process_file(Some("lib.so"), true, &cfg));
    assert!(should_process_file(Some("notes.txt"), true, &cfg));
    assert!(should_process_file(Some(".so"), true, &cfg));
    assert!(!should_process_file(Some("notes.txt"), false, &cfg));
    assert!(!should_process_file(None, true, &cfg));
    let cfg = SearchConfig { ignore_binary: true, text: true, ..SearchConfig::default() };
    assert!(should_process_file(Some("image.png"), true, &cfg));
    let cfg = SearchConfig {
        include_patterns: vec![GlobPattern::new("*.rs").unwrap()],
        exclude_patterns: vec![GlobPattern::new("main.*").unwrap()],
        ..SearchConfig::default()
    };
    assert!(should_process_file(Some("lib.rs"), true, &cfg));
    assert!(!should_process_file(Some("main.rs"), true, &cfg));
    assert!(!should_process_file(Some("lib.txt"), true, &cfg));
    assert!(GlobPattern::new("[").is_err());
}

#[test]
fn root_paths_and_threshold() {
    let cfg = SearchConfig::default();
    assert_eq!(root_action(Some("dir"), false, true, &cfg), EntryAction::Descend);
    assert_eq!(root_action(Some("a.txt"), true, false, &cfg), EntryAction::Search);
    assert_eq!(root_action(Some("gone"), false, false, &cfg), EntryAction::Skip);
    assert!(!use_parallel(20, true));
    assert!(use_parallel(21, true));
    assert!(!use_parallel(50, false));
}

#[test]
fn parallel_merge_matches_sequential() {
    let re = matcher("hit");
    let cfg = SearchConfig { with_filename: true, line_number: true, ..SearchConfig::default() };
    let files: Vec<(String, String)> = (0..25)
        .map(|i| (format!("f{}.txt", i), if i % 3 == 0 { format!("hit {}\nmiss\nhit\n", i) } else { "miss\n".to_string() }))
        .collect();
    let mut sequential = Vec::new();
    for (name, content) in &files {
        search_file(&re, name.as_bytes(), content.as_bytes(), &cfg, &mut sequential);
    }
    let parts: Vec<Vec<u8>> = files
        .iter()
        .map(|(name, content)| {
            let mut buf = Vec::new();
            search_file(&re, name.as_bytes(), content.as_bytes(), &cfg, &mut buf);
            buf
        })
        .collect();
    let mut merged = Vec::new();
    merge_in_order(&mut merged, parts);
    assert_eq!(merged, sequential);
    assert!(!merged.is_empty());
}

#[test]
fn search_lines_on_given_ranges() {
    let mut out = Vec::new();
    let text = b"xx hit yy";
    search_lines(&mut out, &matcher("hit"), b"p", text, &vec![(3, 6), (0, 2)], &SearchConfig { line_number: true, ..SearchConfig::default() });
    assert_eq!(out, b"1:hit\n".to_vec());
}

#[test]
fn command_line_settings() {
    let args = CliArgs {
        help: None,
        pattern: "x".to_string(),
        files: vec!["a".into(), "b".into()],
        ignore_case: true,
        fixed_strings: false,
        word_regexp: true,
        line_regexp: false,
        invert_match: false,
        line_number: true,
        count: false,
        files_with_matches: false,
        files_without_match: false,
        no_filename: false,
        with_filename: false,
        recursive: true,
        only_matching: false,
        quiet: false,
        max_count: Some(4),
        after_context: Some(1),
        before_context: None,
        context: Some(3),
        color: ColorOption::Auto,
        exclude_globs: vec!["*.log".to_string(), "[".to_string()],
        include_globs: vec![],
        dereference_recursive: false,
        text: false,
        ignore_binary: false,
        byte_offset: false,
        pattern_file: None,
        no_messages: false,
        null_data: false,
        null: false,
    };
    let cfg = args.search_config(true);
    assert!(cfg.with_filename);
    assert_eq!(cfg.before_context, Some(3));
    assert_eq!(cfg.after_context, Some(3));
    assert_eq!(cfg.effective_before_context(), 3);
    assert!(cfg.has_context());
    assert!(cfg.use_color);
    assert_eq!(cfg.exclude_patterns.len(), 1);
    assert!(!args.search_config(false).use_color);
    let rc = args.regex_config();
    assert!(rc.ignore_case && rc.word_regexp && !rc.extended_regexp);
    assert!(ColorOption::Always.enabled(false));
    assert!(!ColorOption::Never.enabled(true));
}

#[test]
fn window_decisions_line_by_line() {
    let mut w = ContextWindow::new(1, 1, Some(2));
    assert_eq!(w.advance(0, false), LineDecision::Hide);
    assert_eq!(w.advance(1, false), LineDecision::Hide);
    assert_eq!(w.advance(2, true), LineDecision::Window(1));
    assert_eq!(w.advance(3, false), LineDecision::Context);
    assert_eq!(w.advance(4, false), LineDecision::Hide);
    assert_eq!(w.advance(5, true), LineDecision::Window(4));
    assert_eq!(w.count, 2);
    assert_eq!(w.last_match, Some(5));
    assert_eq!(w.advance(6, true), LineDecision::Stop);
    assert_eq!(w.count, 2);
}

#[test]
fn window_never_rewrites_shown_lines() {
    let mut w = ContextWindow::new(3, 1, None);
    assert_eq!(w.advance(0, true), LineDecision::Window(0));
    assert_eq!(w.advance(1, false), LineDecision::Context);
    assert_eq!(w.advance(2, false), LineDecision::Hide);
    assert_eq!(w.advance(3, true), LineDecision::Window(2));
}
