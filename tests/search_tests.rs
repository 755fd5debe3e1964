use greprs::filter::GlobPattern;
use greprs::search::{search_file, SearchConfig};
use greprs::utils::{build_regex, Matcher, RegexConfig};
use greprs::walk::{child_action, EntryAction};

fn matcher(pattern: &str) -> Matcher {
    build_regex(pattern, &RegexConfig::default()).unwrap()
}

fn run_on(re: &Matcher, path: &str, content: &str, config: &SearchConfig) -> String {
    let mut out = Vec::new();
    search_file(re, path.as_bytes(), content.as_bytes(), config, &mut out);
    String::from_utf8(out).unwrap()
}

fn run(pattern: &str, content: &str, config: &SearchConfig) -> String {
    run_on(&matcher(pattern), "test.txt", content, config)
}

#[test]
fn test_case_sensitive() {
    let config = RegexConfig {
        ignore_case: false,
        ..RegexConfig::default()
    };
    let re = build_regex("Hello", &config).unwrap();
    assert!(re.is_match("Hello world"));
    assert!(!re.is_match("hello world"));
}

#[test]
fn test_case_insensitive() {
    let config = RegexConfig {
        ignore_case: true,
        ..RegexConfig::default()
    };
    let re = build_regex("Hello", &config).unwrap();
    assert!(re.is_match("hello world"));
    assert!(re.is_match("HELLO world"));
}

#[test]
fn test_invalid_regex() {
    let config = RegexConfig::default();
    assert!(build_regex("[invalid", &config).is_err());
}

#[test]
fn test_regex_configurations() {
    let test_cases = vec![
        ("hello", "hello world", RegexConfig { ignore_case: true, ..RegexConfig::default() }, true),
        ("Hello", "hello world", RegexConfig::default(), false),
        ("cat", "concatenate", RegexConfig { word_regexp: true, ..RegexConfig::default() }, false),
        ("cat", "a cat!", RegexConfig { word_regexp: true, ..RegexConfig::default() }, true),
        ("hello world", "hello world!", RegexConfig { line_regexp: true, ..RegexConfig::default() }, false),
        ("hello world", "hello world", RegexConfig { line_regexp: true, ..RegexConfig::default() }, true),
        ("a.c", "abc", RegexConfig { fixed_strings: true, ..RegexConfig::default() }, false),
        ("a.c", "a.c", RegexConfig { fixed_strings: true, ..RegexConfig::default() }, true),
    ];

    for (pattern, text, config, should_match) in test_cases {
        let re = build_regex(pattern, &config).unwrap();
        assert_eq!(re.is_match(text), should_match,
            "Failed for pattern '{}' with text '{}' (config: {:?})",
            pattern, text, config);
    }
}

#[test]
fn test_basic_file_searching() {
    let config = SearchConfig {
        line_number: true,
        with_filename: true,
        ..SearchConfig::default()
    };
    let output_str = run("Hello", "Hello World\nAnother line\nhello again\n", &config);
    assert!(output_str.contains("1:Hello World"));
    assert!(!output_str.contains("hello again"));
}

#[test]
fn test_context_lines() {
    let content = "Line 1\nLine 2\nMATCH HERE\nLine 4\nLine 5\n";
    let config = SearchConfig {
        before_context: Some(1),
        line_number: true,
        ..SearchConfig::default()
    };
    let output_str = run("MATCH", content, &config);
    assert!(output_str.contains("Line 2"));
    assert!(output_str.contains("MATCH HERE"));

    let config = SearchConfig {
        after_context: Some(1),
        line_number: true,
        ..SearchConfig::default()
    };
    let output_str = run("MATCH", content, &config);
    assert!(output_str.contains("MATCH HERE"));
    assert!(output_str.contains("Line 4"));
}

#[test]
fn test_only_matching() {
    let config = SearchConfig {
        only_matching: true,
        ..SearchConfig::default()
    };
    let content = "This line has ERROR in it\nNo match here\nMultiple ERROR and ERROR words\n";
    let output_str = run("ERROR", content, &config);
    let lines: Vec<&str> = output_str.trim().split('\n').collect();
    assert_eq!(lines.len(), 3);
    assert!(lines.iter().all(|line| line.trim() == "ERROR"));
}

#[test]
fn test_max_count() {
    let mut content = String::new();
    for i in 1..=10 {
        content.push_str(&format!("Match line {}\n", i));
    }
    let config = SearchConfig {
        max_count: Some(3),
        line_number: true,
        ..SearchConfig::default()
    };
    let output_str = run("Match", &content, &config);
    let lines: Vec<&str> = output_str.trim().split('\n').filter(|l| !l.is_empty()).collect();
    assert_eq!(lines.len(), 3);
}

#[test]
fn test_byte_offset() {
    let config = SearchConfig {
        byte_offset: true,
        line_number: true,
        ..SearchConfig::default()
    };
    let output_str = run("MATCH", "First line\nMATCH line\n", &config);
    assert!(output_str.contains("11:"));
}

#[test]
fn test_directory_recursion() {
    // A directory holding file1.txt, file2.txt and subdir/file3.txt.
    let config = SearchConfig {
        files_with_matches: true,
        ..SearchConfig::default()
    };
    let re = matcher("Hello");
    let entries = [
        ("file1.txt", true, false, "Hello World\n"),
        ("file2.txt", true, false, "No match here\n"),
        ("subdir", false, true, ""),
    ];
    let nested = ("file3.txt", "Hello again\n");

    let mut output = Vec::new();
    for (name, is_file, is_dir, content) in entries.iter() {
        match child_action(Some(*name), *is_file, *is_dir, false, &config) {
            EntryAction::Search => search_file(&re, name.as_bytes(), content.as_bytes(), &config, &mut output),
            EntryAction::Descend => panic!("non-recursive search descended"),
            EntryAction::Skip => {}
        }
    }
    let output_str = String::from_utf8(output.clone()).unwrap();
    assert!(output_str.contains("file1.txt"));
    assert!(!output_str.contains("file3.txt"));

    output.clear();
    for (name, is_file, is_dir, content) in entries.iter() {
        match child_action(Some(*name), *is_file, *is_dir, true, &config) {
            EntryAction::Search => search_file(&re, name.as_bytes(), content.as_bytes(), &config, &mut output),
            EntryAction::Descend => {
                assert_eq!(child_action(Some(nested.0), true, false, true, &config), EntryAction::Search);
                search_file(&re, nested.0.as_bytes(), nested.1.as_bytes(), &config, &mut output);
            }
            EntryAction::Skip => {}
        }
    }
    let output_str = String::from_utf8(output).unwrap();
    assert!(output_str.contains("file1.txt"));
    assert!(output_str.contains("file3.txt"));
}

fn scan_names(files: &[(&str, &str)], config: &SearchConfig) -> String {
    let re = matcher("Hello");
    let mut output = Vec::new();
    for (name, content) in files {
        if child_action(Some(*name), true, false, true, config) == EntryAction::Search {
            search_file(&re, name.as_bytes(), content.as_bytes(), config, &mut output);
        }
    }
    String::from_utf8(output).unwrap()
}

#[test]
fn test_include_exclude_patterns() {
    let files = [
        ("test.txt", "Hello World\n"),
        ("test.rs", "Hello Rust\n"),
        ("data.log", "Hello Log\n"),
        ("readme.md", "Hello Markdown\n"),
    ];

    let config = SearchConfig {
        include_patterns: vec![GlobPattern::new("*.rs").unwrap()],
        files_with_matches: true,
        ..SearchConfig::default()
    };
    let output_str = scan_names(&files, &config);
    assert!(output_str.contains("test.rs"));
    assert!(!output_str.contains("test.txt"));
    assert!(!output_str.contains("data.log"));

    let config = SearchConfig {
        exclude_patterns: vec![GlobPattern::new("*.log").unwrap()],
        files_with_matches: true,
        ..SearchConfig::default()
    };
    let output_str = scan_names(&files, &config);
    assert!(output_str.contains("test.txt"));
    assert!(output_str.contains("test.rs"));
    assert!(!output_str.contains("data.log"));
}

#[test]
fn test_special_options() {
    let content = "Line 1: Hello\nLine 2: World\nLine 3: Hello\n";
    let config = SearchConfig {
        count: true,
        ..SearchConfig::default()
    };
    assert_eq!(run("Hello", content, &config).trim(), "2");

    let config = SearchConfig {
        invert_match: true,
        count: true,
        ..SearchConfig::default()
    };
    assert_eq!(run("Hello", content, &config).trim(), "1");

    let config = SearchConfig {
        files_with_matches: true,
        ..SearchConfig::default()
    };
    assert!(run("Hello", content, &config).contains("test.txt"));

    let config = SearchConfig {
        files_without_match: true,
        ..SearchConfig::default()
    };
    assert!(run("NOMATCH", content, &config).contains("test.txt"));
}

#[test]
fn test_quiet_mode() {
    let config = SearchConfig {
        quiet: true,
        ..SearchConfig::default()
    };
    let output = run("Hello", "Hello World\nAnother line\n", &config);
    assert!(output.is_empty());
}

#[test]
fn test_null_separators() {
    let config = SearchConfig {
        null_data: true,
        null: true,
        ..SearchConfig::default()
    };
    let output = run("Hello", "Hello\0World\0Test\0", &config);
    assert!(!output.is_empty());
    assert!(output.as_bytes().contains(&0u8));
    assert_eq!(output, "Hello\0");
}
