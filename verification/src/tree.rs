//! The tree renderer: turns the filtered entry set, sorted by path, into
//! the indented listing that heads the document. Also home of the verified
//! path sort that fixes the listing order and, when deterministic ordering
//! is requested, the commit order of file sections.

use vstd::prelude::*;
use vstd::multiset::Multiset;
use crate::config::{Config, Entry};
use crate::scanner::{FileScanner, spec_keep_in_tree};
use crate::strutil::{lex_le, str_le, lemma_lex_le_total, lemma_lex_le_trans};

verus! {

pub proof fn lemma_lex_le_refl(a: Seq<char>)
    ensures
        lex_le(a, a),
    decreases a.len(),
{
    if a.len() != 0 {
        lemma_lex_le_refl(a.skip(1));
    }
}

/// Whether a run of entries is ordered by path, lexicographically.
pub open spec fn entries_sorted_by_path(s: Seq<Entry>) -> bool {
    forall|i: int, j: int|
        0 <= i < j < s.len() ==> lex_le(#[trigger] s[i].path@, #[trigger] s[j].path@)
}

/// Sorts entries by path: the result is ordered and holds exactly the
/// entries given, as a multiset.
pub fn sort_entries_by_path(v: Vec<Entry>) -> (r: Vec<Entry>)
    ensures
        entries_sorted_by_path(r@),
        r@.to_multiset() == v@.to_multiset(),
        r@.len() == v@.len(),
{
    broadcast use vstd::seq_lib::group_to_multiset_ensures;
    broadcast use vstd::multiset::group_multiset_axioms;

    let ghost orig = v@;
    let mut src = v;
    let mut out: Vec<Entry> = Vec::new();
    proof {
        assert(out@.to_multiset().add(src@.to_multiset()) =~= orig.to_multiset());
    }
    while src.len() > 0
        invariant
            entries_sorted_by_path(out@),
            forall|a: int, b: int|
                0 <= a < out@.len() && 0 <= b < src@.len() ==> lex_le(
                    #[trigger] out@[a].path@,
                    #[trigger] src@[b].path@,
                ),
            out@.to_multiset().add(src@.to_multiset()) == orig.to_multiset(),
            out@.len() + src@.len() == orig.len(),
        decreases src.len(),
    {
        broadcast use vstd::seq_lib::group_to_multiset_ensures;
        broadcast use vstd::multiset::group_multiset_axioms;

        let mut m: usize = 0;
        let mut k: usize = 1;
        proof {
            lemma_lex_le_refl(src@[0].path@);
        }
        while k < src.len()
            invariant
                m < k,
                k <= src@.len(),
                src@.len() > 0,
                forall|j: int| 0 <= j < k ==> lex_le(src@[m as int].path@, #[trigger] src@[j].path@),
            decreases src.len() - k,
        {
            let smaller = str_le(src[k].path.as_str(), src[m].path.as_str());
            proof {
                lemma_lex_le_total(src@[k as int].path@, src@[m as int].path@);
            }
            if smaller {
                proof {
                    assert forall|j: int| 0 <= j < k + 1 implies lex_le(
                        src@[k as int].path@,
                        #[trigger] src@[j].path@,
                    ) by {
                        if j < k {
                            lemma_lex_le_trans(
                                src@[k as int].path@,
                                src@[m as int].path@,
                                src@[j].path@,
                            );
                        } else {
                            lemma_lex_le_refl(src@[k as int].path@);
                        }
                    }
                }
                m = k;
            }
            k = k + 1;
        }
        let ghost src_before = src@;
        let e = src.remove(m);
        let ghost out_before = out@;
        out.push(e);
        proof {
            assert(src@.to_multiset() =~= src_before.to_multiset().remove(src_before[m as int]));
            assert(out@.to_multiset() =~= out_before.to_multiset().insert(src_before[m as int]));
            assert(out@.to_multiset().add(src@.to_multiset()) =~= orig.to_multiset());
            assert forall|a: int, b: int|
                0 <= a < out@.len() && 0 <= b < src@.len() implies lex_le(
                #[trigger] out@[a].path@,
                #[trigger] src@[b].path@,
            ) by {
                let sb = if b < m { b } else { b + 1 };
                assert(src@[b] == src_before[sb]);
                if a < out_before.len() {
                    assert(out@[a] == out_before[a]);
                } else {
                    assert(out@[a] == src_before[m as int]);
                }
            }
            assert(entries_sorted_by_path(out@)) by {
                assert forall|i: int, j: int| 0 <= i < j < out@.len() implies lex_le(
                    #[trigger] out@[i].path@,
                    #[trigger] out@[j].path@,
                ) by {
                    if j < out@.len() - 1 {
                        assert(out@[i] == out_before[i]);
                        assert(out@[j] == out_before[j]);
                    } else {
                        assert(out@[j] == src_before[m as int]);
                        if i < out_before.len() {
                            assert(out@[i] == out_before[i]);
                            assert(lex_le(out_before[i].path@, src_before[m as int].path@));
                        }
                    }
                }
            }
        }
    }
    proof {
        assert(src@.to_multiset() =~= Multiset::<Entry>::empty());
        assert(out@.to_multiset() =~= orig.to_multiset());
    }
    out
}

/// The entries the tree listing shows for a set of discovered entries
/// under a configuration: those passing the shared filter rules, sorted by
/// path.
pub open spec fn spec_tree_entries_ok(entries: Seq<Entry>, c: Config, shown: Seq<Entry>) -> bool {
    &&& entries_sorted_by_path(shown)
    &&& shown.to_multiset() == entries.filter(|e: Entry| spec_keep_in_tree(e, c)).to_multiset()
}

/// Keeps the entries passing the shared filter rules and sorts them by
/// path: the listing's entry set.
pub fn filtered_tree_entries(entries: Vec<Entry>, scanner: &FileScanner) -> (r: Vec<Entry>)
    ensures
        spec_tree_entries_ok(entries@, scanner.config, r@),
{
    let ghost orig = entries@;
    let ghost pred = |e: Entry| spec_keep_in_tree(e, scanner.config);
    let mut rest = entries;
    let mut kept: Vec<Entry> = Vec::new();
    let ghost i: int = 0;
    proof {
        assert(orig.take(0).filter(pred) =~= Seq::<Entry>::empty());
        assert(orig.skip(0) =~= orig);
    }
    while rest.len() > 0
        invariant
            0 <= i <= orig.len(),
            rest@ == orig.skip(i),
            kept@ == orig.take(i).filter(pred),
            pred == (|e: Entry| spec_keep_in_tree(e, scanner.config)),
        decreases rest.len(),
    {
        proof {
            assert(orig.skip(i)[0] == orig[i]);
        }
        let e = rest.remove(0);
        proof {
            assert(rest@ =~= orig.skip(i + 1));
            assert(orig.take(i + 1).drop_last() =~= orig.take(i));
            assert(orig.take(i + 1).last() == orig[i]);
        }
        let keep = scanner.keep_in_tree(&e);
        if keep {
            kept.push(e);
        }
        proof {
            reveal_with_fuel(Seq::<_>::filter, 2);
            let t1 = orig.take(i + 1);
            assert(t1.len() == i + 1);
            assert(t1.last() == orig[i]);
            assert(pred(orig[i]) == spec_keep_in_tree(orig[i], scanner.config));
            if keep {
                assert(t1.filter(pred) =~= t1.drop_last().filter(pred).push(orig[i]));
                assert(kept@ =~= orig.take(i).filter(pred).push(orig[i]));
            } else {
                assert(t1.filter(pred) =~= t1.drop_last().filter(pred));
            }
            assert(kept@ =~= orig.take(i + 1).filter(pred));
            i = i + 1;
        }
    }
    proof {
        assert(orig.take(orig.len() as int) =~= orig);
        assert(kept@ == orig.filter(pred));
    }
    sort_entries_by_path(kept)
}

/// The indentation for one entry: two spaces per level of depth.
pub open spec fn spec_indent(depth: nat) -> Seq<char>
    decreases depth,
{
    if depth == 0 {
        Seq::empty()
    } else {
        "  "@ + spec_indent((depth - 1) as nat)
    }
}

/// One line of the listing: indentation, then a directory marker and the
/// name with a trailing slash, or a file marker and the name.
pub open spec fn spec_tree_line(e: Entry) -> Seq<char> {
    if e.is_dir {
        spec_indent(e.depth as nat) + "📁 "@ + e.name@ + "/\n"@
    } else {
        spec_indent(e.depth as nat) + "📄 "@ + e.name@ + "\n"@
    }
}

/// The whole listing: one line per entry, in the order given.
pub open spec fn spec_tree_listing(entries: Seq<Entry>) -> Seq<char>
    decreases entries.len(),
{
    if entries.len() == 0 {
        Seq::empty()
    } else {
        spec_tree_line(entries[0]) + spec_tree_listing(entries.skip(1))
    }
}

proof fn lemma_indent_snoc(d: nat)
    ensures
        spec_indent(d + 1) == spec_indent(d) + "  "@,
    decreases d,
{
    if d == 0 {
        assert(spec_indent(1) =~= spec_indent(0) + "  "@);
    } else {
        lemma_indent_snoc((d - 1) as nat);
        assert(spec_indent(d + 1) =~= spec_indent(d) + "  "@);
    }
}

/// Appends two spaces per depth level.
fn append_indent(out: &mut String, depth: u64)
    ensures
        final(out)@ == old(out)@ + spec_indent(depth as nat),
{
    let mut d: u64 = 0;
    proof {
        assert(spec_indent(0) =~= Seq::<char>::empty());
        assert(out@ + spec_indent(0) =~= out@);
    }
    while d < depth
        invariant
            d <= depth,
            out@ == old(out)@ + spec_indent(d as nat),
        decreases depth - d,
    {
        out.append("  ");
        proof {
            lemma_indent_snoc(d as nat);
            assert(old(out)@ + spec_indent((d + 1) as nat) =~= old(out)@ + spec_indent(d as nat)
                + "  "@);
        }
        d = d + 1;
    }
}

/// Appends the listing line for one entry.
fn append_tree_line(out: &mut String, e: &Entry)
    ensures
        final(out)@ == old(out)@ + spec_tree_line(*e),
{
    append_indent(out, e.depth);
    if e.is_dir {
        out.append("📁 ");
        out.append(e.name.as_str());
        out.append("/\n");
    } else {
        out.append("📄 ");
        out.append(e.name.as_str());
        out.append("\n");
    }
    proof {
        assert(out@ =~= old(out)@ + spec_tree_line(*e));
    }
}

/// Renders the listing for a run of entries, in order.
pub fn render_tree_listing(entries: &Vec<Entry>) -> (r: String)
    ensures
        r@ == spec_tree_listing(entries@),
{
    let mut out = String::new();
    let n: usize = entries.len();
    let mut i: usize = 0;
    proof {
        assert(entries@.skip(0) =~= entries@);
        assert(out@ + spec_tree_listing(entries@) =~= spec_tree_listing(entries@));
    }
    while i < n
        invariant
            n == entries.len(),
            i <= n,
            out@ + spec_tree_listing(entries@.skip(i as int)) == spec_tree_listing(entries@),
        decreases n - i,
    {
        proof {
            assert(entries@.skip(i as int)[0] == entries@[i as int]);
            assert(entries@.skip(i as int).skip(1) =~= entries@.skip(i + 1));
        }
        append_tree_line(&mut out, &entries[i]);
        proof {
            assert(out@ + spec_tree_listing(entries@.skip(i + 1)) =~= spec_tree_listing(entries@));
        }
        i = i + 1;
    }
    proof {
        assert(entries@.skip(n as int) =~= Seq::<Entry>::empty());
        assert(out@ =~= spec_tree_listing(entries@));
    }
    out
}

/// Builds the text tree representation of the directory structure.
pub trait DirectoryTreeBuilding {
    /// Which entries the traversal discovered.
    spec fn discovered_entries(&self) -> Seq<Entry>;

    /// Which configuration the builder filters under.
    spec fn tree_config(&self) -> Config;

    /// Whether the builder was properly constructed over those entries.
    spec fn wf(&self) -> bool;

    /// Appends the tree listing to `buffer`: one line per discovered entry
    /// that passes the shared filter rules, in ascending path order, after
    /// whatever the buffer already held.
    fn build_directory_tree(&self, buffer: &mut String) -> (r: Result<(), String>)
        requires
            self.wf(),
        ensures
            r is Ok,
            exists|shown: Seq<Entry>|
                #![trigger spec_tree_listing(shown)]
                spec_tree_entries_ok(self.discovered_entries(), self.tree_config(), shown)
                    && final(buffer)@ == old(buffer)@ + spec_tree_listing(shown),
    ;
}

/// The tree builder over one configuration and one traversal's discovered
/// entries: the filtered, sorted listing entries are fixed at construction.
pub struct DirectoryTreeBuilder {
    scanner: FileScanner,
    shown: Vec<Entry>,
    discovered: Ghost<Seq<Entry>>,
}

impl DirectoryTreeBuilder {
    /// Builds a tree builder over a configuration snapshot and the
    /// discovered entries of one traversal.
    pub fn new(config: Config, entries: Vec<Entry>) -> (b: DirectoryTreeBuilder)
        ensures
            b.tree_config() == config,
            b.discovered_entries() == entries@,
            b.wf(),
    {
        let ghost orig = entries@;
        let scanner = FileScanner::new(config);
        let shown = filtered_tree_entries(entries, &scanner);
        DirectoryTreeBuilder { scanner, shown, discovered: Ghost(orig) }
    }
}

impl DirectoryTreeBuilding for DirectoryTreeBuilder {
    closed spec fn discovered_entries(&self) -> Seq<Entry> {
        self.discovered@
    }

    closed spec fn tree_config(&self) -> Config {
        self.scanner.config
    }

    /// The builder's listing entries are the filtered, sorted discovered
    /// entries; construction establishes this.
    closed spec fn wf(&self) -> bool {
        spec_tree_entries_ok(self.discovered@, self.scanner.config, self.shown@)
    }

    /// Renders the listing entries fixed at construction.
    fn build_directory_tree(&self, buffer: &mut String) -> (r: Result<(), String>) {
        let listing = render_tree_listing(&self.shown);
        buffer.append(listing.as_str());
        proof {
            assert(spec_tree_entries_ok(self.discovered_entries(), self.tree_config(), self.shown@)
                && buffer@ == old(buffer)@ + spec_tree_listing(self.shown@));
        }
        Ok(())
    }
}

} // verus!
