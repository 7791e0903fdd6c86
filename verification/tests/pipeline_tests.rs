use std::cell::RefCell;

use yoink::clipboard::ClipboardInterface;
use yoink::config::{Config, Entry};
use yoink::pipeline::{Document, FileOutcome, FileProcessor};
use yoink::text_processor::{TextProcessing, TextProcessor};
use yoink::tree::{DirectoryTreeBuilder, DirectoryTreeBuilding};

fn base_config() -> Config {
    Config::default()
}

fn file_entry(path: &str, name: &str, depth: u64, size: u64) -> Entry {
    Entry { path: path.to_string(), name: name.to_string(), depth, is_dir: false, size }
}

fn dir_entry(path: &str, name: &str, depth: u64) -> Entry {
    Entry { path: path.to_string(), name: name.to_string(), depth, is_dir: true, size: 0 }
}

struct MockClipboardManager {
    copied_text: RefCell<Option<String>>,
}

impl MockClipboardManager {
    fn new() -> Self {
        MockClipboardManager { copied_text: RefCell::new(None) }
    }

    fn get_copied_text(&self) -> Option<String> {
        self.copied_text.borrow().clone()
    }
}

impl ClipboardInterface for MockClipboardManager {
    fn copy_to_clipboard(&self, text: &str) -> Result<(), String> {
        *self.copied_text.borrow_mut() = Some(text.to_string());
        Ok(())
    }
}

struct MockDirectoryTreeBuilder {
    mock_tree: String,
}

impl MockDirectoryTreeBuilder {
    fn build_directory_tree(&self, buffer: &mut String) -> Result<(), String> {
        buffer.push_str(&self.mock_tree);
        Ok(())
    }
}

#[test]
fn test_processor_with_mocks() {
    let mut config = base_config();
    config.max_size = 1024 * 1024;
    config.max_depth = 1;

    let mock_clipboard = MockClipboardManager::new();
    let mock_tree_builder = MockDirectoryTreeBuilder {
        mock_tree: "📁 mock/\n  📄 test.txt\n".to_string(),
    };
    let text_processor = TextProcessor::new(config);

    let mut tree = String::new();
    assert!(mock_tree_builder.build_directory_tree(&mut tree).is_ok());
    assert_eq!(tree, "📁 mock/\n  📄 test.txt\n");

    let data = "This is test content".as_bytes().to_vec();
    let processed = text_processor.process_file("test.txt", &data);
    assert!(processed.is_ok());

    // As in the original mock run, the scanner hands over no files at all.
    let processor = FileProcessor::new(text_processor.config);
    let outcomes = processor.process_all(&Vec::new(), &Vec::new());
    let doc: Document = processor.assemble(&Vec::new(), &outcomes);
    let result: Result<(usize, usize), String> = mock_clipboard
        .copy_to_clipboard(&doc.text)
        .map(|_| (doc.text_count, doc.binary_count));

    assert!(result.is_ok());
    let (text_count, binary_count) = result.unwrap();
    assert_eq!(text_count, 0);
    assert_eq!(binary_count, 0);
    assert!(mock_clipboard.get_copied_text().is_some());
}

#[test]
fn scenario_text_and_binary_counts() {
    // A directory holding a.txt ("hello") and b.bin (null bytes), with a
    // 1 MB size limit: one text section, one skipped binary.
    let mut config = base_config();
    config.max_size = 1024 * 1024;
    let processor = FileProcessor::new(config);

    let entries = vec![
        dir_entry("tree", "tree", 0),
        file_entry("tree/a.txt", "a.txt", 1, 5),
        file_entry("tree/b.bin", "b.bin", 1, 3),
    ];
    let files = processor.plan_files(entries);
    assert_eq!(files.len(), 2);

    let reads: Vec<Option<Vec<u8>>> = files
        .iter()
        .map(|e| {
            if e.name == "a.txt" {
                Some("hello".as_bytes().to_vec())
            } else {
                Some(vec![0u8, 0u8, 0u8])
            }
        })
        .collect();
    let outcomes = processor.process_all(&files, &reads);
    let tree_entries = processor.plan_tree(vec![
        dir_entry("tree", "tree", 0),
        file_entry("tree/a.txt", "a.txt", 1, 5),
        file_entry("tree/b.bin", "b.bin", 1, 3),
    ]);
    let doc = processor.assemble(&tree_entries, &outcomes);

    assert_eq!(doc.text_count, 1);
    assert_eq!(doc.binary_count, 1);
    assert_eq!(doc.skipped_count, 0);
    assert!(doc.text.contains("=== tree/a.txt ===\nhello\n\n"));
    assert!(!doc.text.contains("=== tree/b.bin ==="));
    assert!(doc.text.contains("Text files processed: 1\n"));
    assert!(doc.text.contains("Binary files skipped: 1\n"));
}

#[test]
fn scenario_excluded_component_absent_everywhere() {
    // The same tree with b.bin moved under a subdirectory whose name is on
    // the excluded-components set: that subtree is absent from the tree
    // listing and from the file sections.
    let mut config = base_config();
    config.max_size = 1024 * 1024;
    config.exclude_paths = Some(vec!["bins".to_string()]);
    let processor = FileProcessor::new(config);

    let make_entries = || {
        vec![
            dir_entry("tree", "tree", 0),
            file_entry("tree/a.txt", "a.txt", 1, 5),
            dir_entry("tree/bins", "bins", 1),
            file_entry("tree/bins/b.bin", "b.bin", 2, 3),
        ]
    };

    let files = processor.plan_files(make_entries());
    assert_eq!(files.len(), 1);
    assert_eq!(files[0].name, "a.txt");

    let reads = vec![Some("hello".as_bytes().to_vec())];
    let outcomes = processor.process_all(&files, &reads);
    let tree_entries = processor.plan_tree(make_entries());
    let doc = processor.assemble(&tree_entries, &outcomes);

    assert!(!doc.text.contains("bins"));
    assert!(!doc.text.contains("b.bin"));
    assert!(doc.text.contains("📄 a.txt\n"));
    assert!(doc.text.contains("=== tree/a.txt ==="));
    assert_eq!(doc.text_count, 1);
    assert_eq!(doc.binary_count, 0);
}

#[test]
fn scenario_search_excerpt_lines_two_to_eight() {
    // Query "hello", case-insensitive, against a 10-line file whose fifth
    // line holds "Hello World": the excerpt shows lines 2 through 8 with
    // 1-based numbers; a second file with no match is entirely absent.
    let mut config = base_config();
    config.max_size = 1024 * 1024;
    config.search_text = Some("hello".to_string());
    config.case_sensitive = false;
    let processor = FileProcessor::new(config);

    let content = "one\ntwo\nthree\nfour\nHello World\nsix\nseven\neight\nnine\nten\n";
    let other = "nothing of note\nat all\n";
    let files = vec![
        file_entry("d/match.txt", "match.txt", 1, content.len() as u64),
        file_entry("d/other.txt", "other.txt", 1, other.len() as u64),
    ];
    let reads = vec![
        Some(content.as_bytes().to_vec()),
        Some(other.as_bytes().to_vec()),
    ];
    let outcomes = processor.process_all(&files, &reads);
    let doc = processor.assemble(&Vec::new(), &outcomes);

    assert!(doc.text.contains("=== MATCH IN: d/match.txt ===\n"));
    let excerpt = "2: two\n3: three\n4: four\n5: Hello World\n6: six\n7: seven\n8: eight\n";
    assert!(doc.text.contains(excerpt));
    assert!(!doc.text.contains("1: one"));
    assert!(!doc.text.contains("9: nine"));
    assert!(!doc.text.contains("other.txt"));
    // Only the matching file counts as processed text; the excluded one is
    // reported among the skips.
    assert_eq!(doc.text_count, 1);
    assert_eq!(doc.binary_count, 0);
    assert_eq!(doc.skipped_count, 1);
}

#[test]
fn size_limit_skips_file_sections() {
    // No file whose size exceeds the limit appears in the document.
    let mut config = base_config();
    config.max_size = 4;
    let processor = FileProcessor::new(config);

    let files = vec![
        file_entry("d/small.txt", "small.txt", 1, 2),
        file_entry("d/large.txt", "large.txt", 1, 100),
    ];
    let reads = vec![
        Some("ok".as_bytes().to_vec()),
        Some("x".repeat(100).as_bytes().to_vec()),
    ];
    let outcomes = processor.process_all(&files, &reads);
    assert!(matches!(outcomes[1], FileOutcome::Skipped));
    let doc = processor.assemble(&Vec::new(), &outcomes);

    assert!(doc.text.contains("=== d/small.txt ==="));
    assert!(!doc.text.contains("large.txt"));
    assert_eq!(doc.text_count, 1);
    assert_eq!(doc.skipped_count, 1);
}

#[test]
fn counters_sum_to_surviving_files() {
    // text + binary + skipped equals the number of files that survived the
    // path filter, over a run mixing all outcome kinds.
    let mut config = base_config();
    config.max_size = 50;
    config.search_text = Some("needle".to_string());
    let processor = FileProcessor::new(config);

    let files = vec![
        file_entry("d/has.txt", "has.txt", 1, 10),
        file_entry("d/hasnot.txt", "hasnot.txt", 1, 10),
        file_entry("d/raw.bin", "raw.bin", 1, 3),
        file_entry("d/big.txt", "big.txt", 1, 1000),
        file_entry("d/gone.txt", "gone.txt", 1, 10),
    ];
    let reads = vec![
        Some("a needle here".as_bytes().to_vec()),
        Some("just hay".as_bytes().to_vec()),
        Some(vec![0u8, 1u8, 2u8]),
        Some("too large anyway".as_bytes().to_vec()),
        None,
    ];
    let outcomes = processor.process_all(&files, &reads);
    let doc = processor.assemble(&Vec::new(), &outcomes);

    assert_eq!(doc.text_count + doc.binary_count + doc.skipped_count, files.len());
    assert_eq!(doc.text_count, 1);
    assert_eq!(doc.binary_count, 1);
    assert_eq!(doc.skipped_count, 3);
}

#[test]
fn deterministic_order_is_path_order() {
    // With deterministic ordering requested, sections follow lexicographic
    // path order no matter how the entries were enumerated.
    let mut config = base_config();
    config.max_size = 1024;
    config.sort = true;
    let processor = FileProcessor::new(config);

    let entries = vec![
        file_entry("d/zeta.txt", "zeta.txt", 1, 1),
        file_entry("d/alpha.txt", "alpha.txt", 1, 1),
        file_entry("d/mid.txt", "mid.txt", 1, 1),
    ];
    let files = processor.plan_files(entries);
    let names: Vec<&str> = files.iter().map(|e| e.name.as_str()).collect();
    assert_eq!(names, vec!["alpha.txt", "mid.txt", "zeta.txt"]);

    let reads = vec![Some(b"a".to_vec()), Some(b"m".to_vec()), Some(b"z".to_vec())];
    let outcomes = processor.process_all(&files, &reads);
    let doc = processor.assemble(&Vec::new(), &outcomes);
    let pos_a = doc.text.find("alpha.txt").unwrap();
    let pos_m = doc.text.find("mid.txt").unwrap();
    let pos_z = doc.text.find("zeta.txt").unwrap();
    assert!(pos_a < pos_m && pos_m < pos_z);
}

#[test]
fn empty_query_disables_search_filtering() {
    // With an empty configured query, every text file is included, even
    // one whose content has no lines.
    let mut config = base_config();
    config.search_text = Some("".to_string());
    let processor = TextProcessor::new(config);

    let mut buffer = String::new();
    let included = processor.format_text_content("d/empty.txt", "", &mut buffer);
    assert_eq!(included, Ok(true));
    assert_eq!(buffer, "=== MATCH IN: d/empty.txt ===\n\n");

    let mut buffer = String::new();
    let included = processor.format_text_content("d/full.txt", "a\nb\n", &mut buffer);
    assert_eq!(included, Ok(true));
    assert_eq!(buffer, "=== MATCH IN: d/full.txt ===\n1: a\n2: b\n\n");
}

#[test]
fn out_of_order_completion_keeps_commit_order() {
    // Evaluations finishing in reverse order still land at their planned
    // slots: the assembled document only ever sees the commit order.
    let mut config = base_config();
    config.max_size = 1024;
    config.sort = true;
    let processor = FileProcessor::new(config);

    let entries = vec![
        file_entry("d/c.txt", "c.txt", 1, 1),
        file_entry("d/a.txt", "a.txt", 1, 1),
        file_entry("d/b.txt", "b.txt", 1, 1),
    ];
    let files = processor.plan_files(entries);
    let reads = vec![Some(b"1".to_vec()), Some(b"2".to_vec()), Some(b"3".to_vec())];

    let mut slots: Vec<Option<FileOutcome>> = files.iter().map(|_| None).collect();
    for i in (0..files.len()).rev() {
        slots[i] = Some(processor.evaluate_file(&files[i], &reads[i]));
    }
    let outcomes: Vec<FileOutcome> = slots.into_iter().map(|o| o.unwrap()).collect();
    let doc = processor.assemble(&Vec::new(), &outcomes);

    let pos_a = doc.text.find("d/a.txt").unwrap();
    let pos_b = doc.text.find("d/b.txt").unwrap();
    let pos_c = doc.text.find("d/c.txt").unwrap();
    assert!(pos_a < pos_b && pos_b < pos_c);
}

#[test]
fn tree_builder_lists_sorted_filtered_entries() {
    let mut config = base_config();
    config.skip_hidden = true;
    let builder = DirectoryTreeBuilder::new(
        config,
        vec![
            dir_entry("root", "root", 0),
            file_entry("root/b.txt", "b.txt", 1, 1),
            file_entry("root/.hidden", ".hidden", 1, 1),
            file_entry("root/a.txt", "a.txt", 1, 1),
        ],
    );
    let mut buffer = String::new();
    assert!(builder.build_directory_tree(&mut buffer).is_ok());
    assert_eq!(buffer, "📁 root/\n  📄 a.txt\n  📄 b.txt\n");
}
