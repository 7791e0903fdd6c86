use yoink::classify::{
    classify, heuristic_is_text, is_binary_mime_type, is_common_binary_extension,
    is_common_text_extension, is_text, is_text_file, Classification,
};
use yoink::config::{Config, Entry};
use yoink::pattern::compile_rule;
use yoink::scanner::FileScanner;
use yoink::search::{extract, line_matches, split_lines, ExcerptItem};
use yoink::strutil::{extension_of, str_contains, str_eq, str_le, str_starts_with, u64_to_string};
use yoink::text_processor::process_content;

fn file_entry(path: &str, name: &str, depth: u64, size: u64) -> Entry {
    Entry { path: path.to_string(), name: name.to_string(), depth, is_dir: false, size }
}

#[test]
fn printable_ascii_sample_is_text() {
    // A 4096-byte sample that is wholly printable ASCII reads as text.
    let data: Vec<u8> = std::iter::repeat(b'a').take(4096).collect();
    assert!(heuristic_is_text(&data));
    assert!(is_text(&data));
}

#[test]
fn null_byte_sample_is_binary() {
    let mut data: Vec<u8> = std::iter::repeat(b'a').take(4096).collect();
    data[100] = 0;
    assert!(!is_text(&data));
    let small = vec![b'h', b'i', 0u8];
    assert!(!is_text(&small));
}

#[test]
fn empty_content_is_not_text() {
    let data: Vec<u8> = Vec::new();
    assert!(!is_text(&data));
}

#[test]
fn short_sample_threshold_is_stricter() {
    // Under 100 bytes at least 95% must be text-like: 10 bytes allow no
    // control byte below space besides tab, newline, carriage return.
    let mut data: Vec<u8> = std::iter::repeat(b'a').take(10).collect();
    data[0] = 1;
    assert!(!heuristic_is_text(&data));
    // At 100 bytes and over the bar is 80%.
    let mut large: Vec<u8> = std::iter::repeat(b'a').take(100).collect();
    for slot in large.iter_mut().take(19) {
        *slot = 1;
    }
    assert!(heuristic_is_text(&large));
    for slot in large.iter_mut().take(21) {
        *slot = 1;
    }
    assert!(!heuristic_is_text(&large));
}

#[test]
fn extension_fast_path_beats_content() {
    // A known text extension is accepted without reading the bytes, a
    // known binary extension rejected likewise; unknown extensions fall
    // through to the content heuristic.
    assert!(is_text_file("odd.txt", &[0xFFu8, 0xFEu8]));
    assert!(!is_text_file("plain.png", b"perfectly readable"));
    assert!(is_text_file("mystery", b"perfectly readable"));
    assert!(!is_text_file("mystery", &[0u8, 1u8, 2u8]));
}

#[test]
fn extension_fast_paths() {
    assert!(is_common_text_extension("txt"));
    assert!(is_common_text_extension("rs"));
    assert!(is_common_text_extension("dart"));
    assert!(!is_common_text_extension("bin"));
    assert!(is_common_binary_extension("bin"));
    assert!(is_common_binary_extension("png"));
    assert!(is_common_binary_extension("pkg"));
    assert!(!is_common_binary_extension("md"));
}

#[test]
fn binary_mime_types() {
    assert!(is_binary_mime_type("image/png"));
    assert!(is_binary_mime_type("video/mp4"));
    assert!(is_binary_mime_type("audio/ogg"));
    assert!(is_binary_mime_type("application/zip"));
    assert!(!is_binary_mime_type("application/json"));
    assert!(!is_binary_mime_type("application/xml"));
    assert!(!is_binary_mime_type("text/plain"));
}

#[test]
fn classify_decodes_text_and_flags_binary() {
    match classify("a.txt", &"hello".as_bytes().to_vec()) {
        Classification::Text(content) => assert_eq!(content, "hello"),
        _ => panic!("expected text"),
    }
    assert!(matches!(classify("b.bin", &vec![0u8, 1u8]), Classification::Binary));
    // A known text extension whose bytes are not valid UTF-8 is unreadable.
    assert!(matches!(
        classify("c.txt", &vec![0xFFu8, 0xFEu8]),
        Classification::Unreadable
    ));
    // A PNG magic number is sniffed as binary even without an extension.
    let png = vec![0x89u8, b'P', b'N', b'G', 0x0D, 0x0A, 0x1A, 0x0A, b'a', b'b'];
    assert!(matches!(classify("mystery", &png), Classification::Binary));
    // A PDF magic number is binary although its bytes are all printable,
    // so only signature sniffing can catch it.
    let pdf = "%PDF-1.4 with nothing but printable text after the magic".as_bytes().to_vec();
    assert!(matches!(classify("mystery", &pdf), Classification::Binary));
}

#[test]
fn undecodable_text_reports_an_error() {
    assert!(process_content("a.txt", &"fine".as_bytes().to_vec()).is_ok());
    assert!(process_content("a.txt", &vec![0xC3u8]).is_err());
}

#[test]
fn string_primitives() {
    assert!(str_eq("abc", "abc"));
    assert!(!str_eq("abc", "abd"));
    assert!(!str_eq("abc", "ab"));
    assert!(str_contains("hello world", "o w"));
    assert!(str_contains("hello", ""));
    assert!(!str_contains("hello", "world"));
    assert!(str_starts_with("hello", "he"));
    assert!(!str_starts_with("hello", "eh"));
    assert!(str_le("a", "b"));
    assert!(str_le("a", "ab"));
    assert!(!str_le("b", "ab"));
    assert!(str_le("same", "same"));
}

#[test]
fn decimal_rendering() {
    assert_eq!(u64_to_string(0), "0");
    assert_eq!(u64_to_string(7), "7");
    assert_eq!(u64_to_string(10), "10");
    assert_eq!(u64_to_string(4096), "4096");
    assert_eq!(u64_to_string(u64::MAX), "18446744073709551615");
}

#[test]
fn extension_extraction() {
    assert_eq!(extension_of("a.txt"), Some("txt".to_string()));
    assert_eq!(extension_of("archive.tar.gz"), Some("gz".to_string()));
    assert_eq!(extension_of(".gitignore"), None);
    assert_eq!(extension_of("noext"), None);
    assert_eq!(extension_of("trailing."), Some("".to_string()));
}

#[test]
fn line_splitting() {
    let lines = split_lines("a\nb\nc");
    assert_eq!(lines, vec!["a", "b", "c"]);
    let lines = split_lines("a\r\nb\r\n");
    assert_eq!(lines, vec!["a", "b"]);
    let lines = split_lines("one\n\ntwo\n");
    assert_eq!(lines, vec!["one", "", "two"]);
    let empty = split_lines("");
    assert!(empty.is_empty());
}

#[test]
fn empty_query_matches_every_text() {
    // An empty query string matches every line of every text file, and
    // includes even a file with no lines at all.
    assert!(line_matches("anything", "", true));
    assert!(line_matches("anything", "", false));
    let empty_file = extract("", "", false).expect("empty query includes everything");
    assert!(empty_file.items.is_empty());
    let excerpt = extract("first\nsecond\n", "", false);
    assert!(excerpt.is_some());
    let items = excerpt.unwrap().items;
    let mut numbers = Vec::new();
    for item in &items {
        match item {
            ExcerptItem::Line { number, .. } => numbers.push(*number),
            ExcerptItem::Gap => panic!("no gap expected"),
        }
    }
    assert_eq!(numbers, vec![1, 2]);
}

#[test]
fn case_folding_in_search() {
    assert!(line_matches("Hello World", "hello", false));
    assert!(!line_matches("Hello World", "hello", true));
    assert!(line_matches("Hello World", "Hello", true));
}

#[test]
fn excerpt_gap_between_windows() {
    // Matches on lines 1 and 12 (1-based) of a 14-line file leave a gap
    // between the two context windows.
    let content = "hit\nb\nc\nd\ne\nf\ng\nh\ni\nj\nk\nhit\nm\nn\n";
    let excerpt = extract(content, "hit", true).expect("match expected");
    let rendered = excerpt.render();
    assert_eq!(
        rendered,
        "1: hit\n2: b\n3: c\n4: d\n...\n9: i\n10: j\n11: k\n12: hit\n13: m\n14: n\n"
    );
}

#[test]
fn no_match_excludes_file() {
    assert!(extract("nothing here\n", "query", true).is_none());
}

#[test]
fn glob_rules() {
    let rule = compile_rule("*.txt");
    assert!(rule.matches("note.txt"));
    assert!(!rule.matches("note.rs"));
    // An invalid pattern degrades to a literal match of itself and of
    // nothing else.
    let broken = compile_rule("[");
    assert!(broken.matches("["));
    assert!(!broken.matches("anything"));
    let wildcards = compile_rule("a**");
    assert!(wildcards.matches("a**"));
    assert!(!wildcards.matches("abc"));
}

#[test]
fn filter_rules_in_order() {
    let mut config = Config::default();
    config.max_depth = 2;
    config.skip_hidden = true;
    config.exclude_paths = Some(vec!["target".to_string()]);
    config.include_extensions = Some(vec!["txt".to_string(), "md".to_string()]);
    config.exclude_extensions = Some(vec!["md".to_string()]);
    let scanner = FileScanner::new(config);

    // Depth.
    assert!(!scanner.should_process_file(&file_entry("a/b/c/d.txt", "d.txt", 3, 1)));
    // Hidden.
    assert!(!scanner.should_process_file(&file_entry("a/.h.txt", ".h.txt", 1, 1)));
    // Excluded component, exact match only.
    assert!(!scanner.should_process_file(&file_entry("a/target/x.txt", "x.txt", 2, 1)));
    assert!(scanner.should_process_file(&file_entry("a/targets/x.txt", "x.txt", 2, 1)));
    // Allow-list admits txt.
    assert!(scanner.should_process_file(&file_entry("a/ok.txt", "ok.txt", 1, 1)));
    // Deny-list beats allow-list for md.
    assert!(!scanner.should_process_file(&file_entry("a/no.md", "no.md", 1, 1)));
    // No extension fails the allow-list open.
    assert!(!scanner.should_process_file(&file_entry("a/noext", "noext", 1, 1)));
    // Extensions are compared lower-cased.
    assert!(scanner.should_process_file(&file_entry("a/UP.TXT", "UP.TXT", 1, 1)));
    // Directories never become processed files.
    let dir = Entry {
        path: "a/dir".to_string(),
        name: "dir".to_string(),
        depth: 1,
        is_dir: true,
        size: 0,
    };
    assert!(!scanner.should_process_file(&dir));
    assert!(scanner.keep_in_tree(&dir));
}

#[test]
fn pattern_rule_filters_filenames() {
    let mut config = Config::default();
    config.pattern = Some(compile_rule("*.rs"));
    let scanner = FileScanner::new(config);
    assert!(scanner.should_process_file(&file_entry("s/lib.rs", "lib.rs", 1, 1)));
    assert!(!scanner.should_process_file(&file_entry("s/lib.txt", "lib.txt", 1, 1)));
}
