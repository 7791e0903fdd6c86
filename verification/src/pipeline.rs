//! The aggregation pipeline: plans which files are processed and in what
//! order, evaluates each file independently of the others, and assembles
//! the per-file outcomes into one ordered document with running counters.
//!
//! Evaluation is a pure function per file, so an embedding program may run
//! evaluations concurrently; the document is assembled from the outcome
//! list alone, so section order is fixed by the plan's commit order and
//! never by completion order.

use vstd::prelude::*;
use crate::config::{Config, Entry};
use crate::scanner::{FileScanner, spec_keep_file};
use crate::tree::{
    entries_sorted_by_path, sort_entries_by_path, spec_tree_entries_ok, filtered_tree_entries,
    render_tree_listing, spec_tree_listing,
};
use crate::text_processor::{spec_section, spec_included, append_section, process_content};
use crate::classify::spec_treat_as_text;
use crate::strutil::{spec_u64_string, u64_to_string};
use vstd::utf8::{valid_utf8, decode_utf8};

verus! {

/// What became of one planned file: a text file's rendered section when it
/// stays in the document, a bare marker when search excluded it, a binary
/// verdict, or a skip (oversized, unreadable, or failed read).
pub enum FileOutcome {
    TextIncluded(String),
    TextExcluded,
    Binary,
    Skipped,
}

/// The bytes an embedding program managed to read for one file, as the
/// specification sees them; a failed read carries nothing.
pub open spec fn opt_bytes_view(d: Option<Vec<u8>>) -> Option<Seq<u8>> {
    match d {
        Some(v) => Some(v@),
        None => None,
    }
}

/// The correct outcome for one file: oversized files and failed reads are
/// skipped; otherwise the contents are classified, textual files decode
/// and contribute their section unless search excludes them, and textual
/// bytes that do not decode are skipped.
pub open spec fn spec_evaluate_ok(e: Entry, data: Option<Seq<u8>>, c: Config, r: FileOutcome) -> bool {
    if e.size > c.max_size {
        r is Skipped
    } else {
        match data {
            None => r is Skipped,
            Some(bytes) => {
                if spec_treat_as_text(e.name@, bytes) {
                    if valid_utf8(bytes) {
                        if spec_included(decode_utf8(bytes), c) {
                            r matches FileOutcome::TextIncluded(s) && s@ == spec_section(
                                e.path@,
                                decode_utf8(bytes),
                                c,
                            )
                        } else {
                            r is TextExcluded
                        }
                    } else {
                        r is Skipped
                    }
                } else {
                    r is Binary
                }
            },
        }
    }
}

/// What one outcome contributes to the document: its section, or nothing.
pub open spec fn spec_outcome_section(o: FileOutcome) -> Seq<char> {
    match o {
        FileOutcome::TextIncluded(s) => s@,
        _ => Seq::empty(),
    }
}

/// The file sections of the document: each outcome's contribution, in
/// commit order.
pub open spec fn spec_sections(os: Seq<FileOutcome>) -> Seq<char>
    decreases os.len(),
{
    if os.len() == 0 {
        Seq::empty()
    } else {
        spec_outcome_section(os[0]) + spec_sections(os.skip(1))
    }
}

/// Whether an outcome counts as a processed text file: only a text file
/// whose section stands in the document.
pub open spec fn spec_is_text_outcome(o: FileOutcome) -> bool {
    o is TextIncluded
}

/// Whether an outcome counts as a skip: an oversized, unreadable or
/// unread file, and a text file that search excluded from the document.
pub open spec fn spec_is_skipped_outcome(o: FileOutcome) -> bool {
    o is Skipped || o is TextExcluded
}

pub open spec fn count_text(os: Seq<FileOutcome>) -> nat
    decreases os.len(),
{
    if os.len() == 0 {
        0
    } else {
        (if spec_is_text_outcome(os[0]) {
            1nat
        } else {
            0nat
        }) + count_text(os.skip(1))
    }
}

pub open spec fn count_binary(os: Seq<FileOutcome>) -> nat
    decreases os.len(),
{
    if os.len() == 0 {
        0
    } else {
        (if os[0] is Binary {
            1nat
        } else {
            0nat
        }) + count_binary(os.skip(1))
    }
}

pub open spec fn count_skipped(os: Seq<FileOutcome>) -> nat
    decreases os.len(),
{
    if os.len() == 0 {
        0
    } else {
        (if spec_is_skipped_outcome(os[0]) {
            1nat
        } else {
            0nat
        }) + count_skipped(os.skip(1))
    }
}

/// Every outcome lands in exactly one counter, so the three counters sum
/// to the number of files that survived the path filter and were planned.
pub proof fn lemma_counters_partition(os: Seq<FileOutcome>)
    ensures
        count_text(os) + count_binary(os) + count_skipped(os) == os.len(),
    decreases os.len(),
{
    if os.len() > 0 {
        lemma_counters_partition(os.skip(1));
    }
}

/// Committing one more outcome appends its section after everything
/// already committed: a section's place in the document is fixed by its
/// position in the outcome list, never by when its evaluation finished.
pub proof fn lemma_sections_in_commit_order(os: Seq<FileOutcome>, o: FileOutcome)
    ensures
        spec_sections(os.push(o)) == spec_sections(os) + spec_outcome_section(o),
    decreases os.len(),
{
    if os.len() == 0 {
        assert(os.push(o).len() == 1);
        assert(os.push(o)[0] == o);
        assert(os.push(o).skip(1) =~= Seq::<FileOutcome>::empty());
        assert(spec_sections(Seq::<FileOutcome>::empty()) == Seq::<char>::empty());
        assert(spec_sections(os.push(o)) == spec_outcome_section(o) + Seq::<char>::empty());
        assert(os =~= Seq::<FileOutcome>::empty());
        assert(spec_sections(os.push(o)) =~= spec_sections(os) + spec_outcome_section(o));
    } else {
        lemma_sections_in_commit_order(os.skip(1), o);
        assert(os.push(o)[0] == os[0]);
        assert(os.push(o).skip(1) =~= os.skip(1).push(o));
        assert(spec_sections(os.push(o)) == spec_outcome_section(os[0]) + spec_sections(
            os.skip(1).push(o),
        ));
        assert(spec_sections(os) == spec_outcome_section(os[0]) + spec_sections(os.skip(1)));
        assert(spec_outcome_section(os[0]) + (spec_sections(os.skip(1)) + spec_outcome_section(o))
            =~= (spec_outcome_section(os[0]) + spec_sections(os.skip(1))) + spec_outcome_section(
            o,
        ));
    }
}

/// The counter analogue of the section law: committing one more outcome
/// adds its own contribution to each counter.
pub proof fn lemma_counts_snoc(os: Seq<FileOutcome>, o: FileOutcome)
    ensures
        count_text(os.push(o)) == count_text(os) + (if spec_is_text_outcome(o) {
            1nat
        } else {
            0nat
        }),
        count_binary(os.push(o)) == count_binary(os) + (if o is Binary {
            1nat
        } else {
            0nat
        }),
        count_skipped(os.push(o)) == count_skipped(os) + (if spec_is_skipped_outcome(o) {
            1nat
        } else {
            0nat
        }),
    decreases os.len(),
{
    if os.len() == 0 {
        assert(os.push(o).len() == 1);
        assert(os.push(o)[0] == o);
        assert(os.push(o).skip(1) =~= Seq::<FileOutcome>::empty());
        assert(count_text(Seq::<FileOutcome>::empty()) == 0);
        assert(count_binary(Seq::<FileOutcome>::empty()) == 0);
        assert(count_skipped(Seq::<FileOutcome>::empty()) == 0);
        assert(os =~= Seq::<FileOutcome>::empty());
    } else {
        lemma_counts_snoc(os.skip(1), o);
        assert(count_text(os) == (if spec_is_text_outcome(os[0]) {
            1nat
        } else {
            0nat
        }) + count_text(os.skip(1)));
        assert(count_binary(os) == (if os[0] is Binary {
            1nat
        } else {
            0nat
        }) + count_binary(os.skip(1)));
        assert(count_skipped(os) == (if spec_is_skipped_outcome(os[0]) {
            1nat
        } else {
            0nat
        }) + count_skipped(os.skip(1)));
        assert(os.push(o)[0] == os[0]);
        assert(os.push(o).skip(1) =~= os.skip(1).push(o));
        assert(count_text(os.push(o)) == (if spec_is_text_outcome(os[0]) {
            1nat
        } else {
            0nat
        }) + count_text(os.skip(1).push(o)));
        assert(count_binary(os.push(o)) == (if os[0] is Binary {
            1nat
        } else {
            0nat
        }) + count_binary(os.skip(1).push(o)));
        assert(count_skipped(os.push(o)) == (if spec_is_skipped_outcome(os[0]) {
            1nat
        } else {
            0nat
        }) + count_skipped(os.skip(1).push(o)));
    }
}

/// An oversized file is skipped whatever was read for it, and a skip
/// contributes nothing to the document: no file over the size limit ever
/// appears in the document's file sections.
pub proof fn lemma_size_limit_excludes(e: Entry, data: Option<Seq<u8>>, c: Config, r: FileOutcome)
    requires
        spec_evaluate_ok(e, data, c, r),
        e.size > c.max_size,
    ensures
        r is Skipped,
        spec_outcome_section(r) == Seq::<char>::empty(),
{
}

/// The commit order the plan fixes for the kept files: enumeration order,
/// or lexicographic path order when deterministic ordering is requested.
pub open spec fn spec_file_plan_ok(entries: Seq<Entry>, c: Config, files: Seq<Entry>) -> bool {
    let kept = entries.filter(|e: Entry| spec_keep_file(e, c));
    if c.sort {
        entries_sorted_by_path(files) && files.to_multiset() == kept.to_multiset() && files.len()
            == kept.len()
    } else {
        files == kept
    }
}

/// The final immutable artifact of a run: the document text and the
/// counters its summary reports.
pub struct Document {
    pub text: String,
    pub text_count: usize,
    pub binary_count: usize,
    pub skipped_count: usize,
}

/// The document text: a header with the tree listing, the file sections in
/// commit order, and a summary footer with the final counts.
pub open spec fn spec_document_text(shown: Seq<Entry>, outcomes: Seq<FileOutcome>) -> Seq<char> {
    "=== DIRECTORY STRUCTURE ===\n"@ + spec_tree_listing(shown) + "\n=== TEXT FILES ===\n\n"@
        + spec_sections(outcomes) + "\n=== SUMMARY ===\n"@ + "Text files processed: "@
        + spec_u64_string(count_text(outcomes)) + "\n"@ + "Binary files skipped: "@
        + spec_u64_string(count_binary(outcomes)) + "\n"@
}

/// The pipeline over one configuration snapshot.
pub struct FileProcessor {
    pub scanner: FileScanner,
}

impl FileProcessor {
    /// The configuration the pipeline runs under.
    pub open spec fn config(&self) -> Config {
        self.scanner.config
    }

    /// Builds the pipeline over one configuration snapshot.
    pub fn new(config: Config) -> (p: FileProcessor)
        ensures
            p.config() == config,
    {
        FileProcessor { scanner: FileScanner::new(config) }
    }

    /// Plans the tree listing: the entries passing the shared filter
    /// rules, sorted by path.
    pub fn plan_tree(&self, entries: Vec<Entry>) -> (r: Vec<Entry>)
        ensures
            spec_tree_entries_ok(entries@, self.config(), r@),
    {
        filtered_tree_entries(entries, &self.scanner)
    }

    /// Plans the processed files: the entries passing all six filter
    /// rules, in enumeration order, or in lexicographic path order when
    /// deterministic ordering is requested. This order is the commit
    /// order of the document's file sections.
    pub fn plan_files(&self, entries: Vec<Entry>) -> (r: Vec<Entry>)
        ensures
            spec_file_plan_ok(entries@, self.config(), r@),
    {
        let ghost orig = entries@;
        let ghost pred = |e: Entry| spec_keep_file(e, self.config());
        let mut rest = entries;
        let mut kept: Vec<Entry> = Vec::new();
        let ghost i: int = 0;
        proof {
            assert(orig.take(0).filter(pred) =~= Seq::<Entry>::empty());
            assert(orig.skip(0) =~= orig);
        }
        while rest.len() > 0
            invariant
                0 <= i <= orig.len(),
                rest@ == orig.skip(i),
                kept@ == orig.take(i).filter(pred),
                pred == (|e: Entry| spec_keep_file(e, self.config())),
            decreases rest.len(),
        {
            proof {
                assert(orig.skip(i)[0] == orig[i]);
            }
            let e = rest.remove(0);
            proof {
                assert(rest@ =~= orig.skip(i + 1));
                assert(orig.take(i + 1).drop_last() =~= orig.take(i));
                assert(orig.take(i + 1).last() == orig[i]);
            }
            let keep = self.scanner.should_process_file(&e);
            if keep {
                kept.push(e);
            }
            proof {
                reveal_with_fuel(Seq::<_>::filter, 2);
                let t1 = orig.take(i + 1);
                assert(t1.len() == i + 1);
                assert(t1.last() == orig[i]);
                assert(pred(orig[i]) == spec_keep_file(orig[i], self.config()));
                if keep {
                    assert(t1.filter(pred) =~= t1.drop_last().filter(pred).push(orig[i]));
                    assert(kept@ =~= orig.take(i).filter(pred).push(orig[i]));
                } else {
                    assert(t1.filter(pred) =~= t1.drop_last().filter(pred));
                }
                assert(kept@ =~= orig.take(i + 1).filter(pred));
                i = i + 1;
            }
        }
        proof {
            assert(orig.take(orig.len() as int) =~= orig);
            assert(kept@ == orig.filter(pred));
        }
        if self.scanner.config.sort {
            sort_entries_by_path(kept)
        } else {
            kept
        }
    }

    /// Evaluates one planned file from its entry and the bytes read for
    /// it; pure, so independent files may be evaluated concurrently.
    pub fn evaluate_file(&self, e: &Entry, data: &Option<Vec<u8>>) -> (r: FileOutcome)
        ensures
            spec_evaluate_ok(*e, opt_bytes_view(*data), self.config(), r),
    {
        if e.size > self.scanner.config.max_size {
            return FileOutcome::Skipped;
        }
        match data {
            None => FileOutcome::Skipped,
            Some(bytes) => {
                match process_content(e.name.as_str(), bytes) {
                    Ok(content_opt) => {
                        match content_opt {
                            Some(content) => {
                                let mut section = String::new();
                                let included = append_section(
                                    &self.scanner.config,
                                    e.path.as_str(),
                                    content.as_str(),
                                    &mut section,
                                );
                                proof {
                                    assert(section@ =~= spec_section(
                                        e.path@,
                                        decode_utf8(bytes@),
                                        self.config(),
                                    ));
                                }
                                if included {
                                    FileOutcome::TextIncluded(section)
                                } else {
                                    FileOutcome::TextExcluded
                                }
                            },
                            None => FileOutcome::Binary,
                        }
                    },
                    Err(_) => FileOutcome::Skipped,
                }
            },
        }
    }

    /// Evaluates every planned file against its read bytes, in commit
    /// order; `reads[i]` must be what was read for `files[i]`.
    pub fn process_all(&self, files: &Vec<Entry>, reads: &Vec<Option<Vec<u8>>>) -> (r: Vec<
        FileOutcome,
    >)
        requires
            files@.len() == reads@.len(),
        ensures
            r@.len() == files@.len(),
            forall|i: int|
                0 <= i < r@.len() ==> spec_evaluate_ok(
                    files@[i],
                    opt_bytes_view(reads@[i]),
                    self.config(),
                    #[trigger] r@[i],
                ),
    {
        let n: usize = files.len();
        let mut out: Vec<FileOutcome> = Vec::new();
        let mut i: usize = 0;
        while i < n
            invariant
                n == files@.len(),
                n == reads@.len(),
                i <= n,
                out@.len() == i,
                forall|k: int|
                    0 <= k < i ==> spec_evaluate_ok(
                        files@[k],
                        opt_bytes_view(reads@[k]),
                        self.config(),
                        #[trigger] out@[k],
                    ),
            decreases n - i,
        {
            let o = self.evaluate_file(&files[i], &reads[i]);
            out.push(o);
            i = i + 1;
        }
        out
    }

    /// Assembles the final document from the tree listing entries and the
    /// outcomes in commit order: header, tree listing, file sections in
    /// order, and the summary footer with the counters.
    pub fn assemble(&self, shown: &Vec<Entry>, outcomes: &Vec<FileOutcome>) -> (d: Document)
        ensures
            d.text@ == spec_document_text(shown@, outcomes@),
            d.text_count == count_text(outcomes@),
            d.binary_count == count_binary(outcomes@),
            d.skipped_count == count_skipped(outcomes@),
    {
        let mut text = String::new();
        text.append("=== DIRECTORY STRUCTURE ===\n");
        let listing = render_tree_listing(shown);
        text.append(listing.as_str());
        text.append("\n=== TEXT FILES ===\n\n");
        let ghost header = text@;
        let n: usize = outcomes.len();
        let mut text_count: usize = 0;
        let mut binary_count: usize = 0;
        let mut skipped_count: usize = 0;
        let mut i: usize = 0;
        proof {
            assert(outcomes@.take(0) =~= Seq::<FileOutcome>::empty());
            assert(text@ + spec_sections(outcomes@.take(0)) =~= text@);
        }
        while i < n
            invariant
                n == outcomes@.len(),
                i <= n,
                text_count <= i,
                binary_count <= i,
                skipped_count <= i,
                text@ == header + spec_sections(outcomes@.take(i as int)),
                text_count == count_text(outcomes@.take(i as int)),
                binary_count == count_binary(outcomes@.take(i as int)),
                skipped_count == count_skipped(outcomes@.take(i as int)),
            decreases n - i,
        {
            proof {
                assert(outcomes@.take(i + 1) =~= outcomes@.take(i as int).push(
                    outcomes@[i as int],
                ));
                lemma_sections_in_commit_order(outcomes@.take(i as int), outcomes@[i as int]);
                lemma_counts_snoc(outcomes@.take(i as int), outcomes@[i as int]);
            }
            match &outcomes[i] {
                FileOutcome::TextIncluded(s) => {
                    text.append(s.as_str());
                    text_count = text_count + 1;
                },
                FileOutcome::TextExcluded => {
                    skipped_count = skipped_count + 1;
                },
                FileOutcome::Binary => {
                    binary_count = binary_count + 1;
                },
                FileOutcome::Skipped => {
                    skipped_count = skipped_count + 1;
                },
            }
            proof {
                assert(text@ =~= header + spec_sections(outcomes@.take(i + 1)));
            }
            i = i + 1;
        }
        proof {
            assert(outcomes@.take(n as int) =~= outcomes@);
        }
        text.append("\n=== SUMMARY ===\n");
        text.append("Text files processed: ");
        let tc = u64_to_string(text_count as u64);
        text.append(tc.as_str());
        text.append("\n");
        text.append("Binary files skipped: ");
        let bc = u64_to_string(binary_count as u64);
        text.append(bc.as_str());
        text.append("\n");
        proof {
            assert(text@ =~= spec_document_text(shown@, outcomes@));
        }
        Document { text, text_count, binary_count, skipped_count }
    }
}

} // verus!
