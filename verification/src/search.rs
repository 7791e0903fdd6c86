//! In-content search with contextual line extraction.
//!
//! A query is matched per line by substring containment, case-folded on
//! both sides unless the search is case-sensitive. Every matching line
//! contributes a context window of three lines on either side; the union of
//! the windows is emitted in line order, with one gap marker wherever
//! consecutive emitted lines are not adjacent in the file. A file with no
//! matching line is excluded altogether; an empty query matches every line.

use vstd::prelude::*;
use crate::strutil::{
    spec_split, split_on, spec_contains, spec_contains_at, str_contains, lower_of, lowercase,
    spec_u64_string, u64_to_string, lemma_split_len,
};

verus! {

/// How one line piece is normalized: one trailing carriage return is
/// stripped, so both `\n` and `\r\n` line endings read the same.
pub open spec fn spec_strip_cr(p: Seq<char>) -> Seq<char> {
    if p.len() > 0 && p.last() == '\r' {
        p.drop_last()
    } else {
        p
    }
}

/// How a text splits into lines: pieces between newlines, each with one
/// trailing carriage return stripped, and no final empty piece, so a text
/// ending in a newline does not produce a trailing empty line.
pub open spec fn spec_lines(s: Seq<char>) -> Seq<Seq<char>> {
    let raw = spec_split(s, '\n');
    let stripped = raw.map_values(|p: Seq<char>| spec_strip_cr(p));
    if raw.last().len() == 0 {
        stripped.drop_last()
    } else {
        stripped
    }
}

/// Strips one trailing carriage return.
fn strip_cr(p: &str) -> (r: String)
    ensures
        r@ == spec_strip_cr(p@),
{
    let n: usize = p.unicode_len();
    if n > 0 && p.get_char(n - 1) == '\r' {
        let cut = p.substring_char(0, n - 1);
        proof {
            assert(cut@ =~= p@.drop_last());
        }
        cut.to_owned()
    } else {
        p.to_owned()
    }
}

/// Splits a text into lines, as `spec_lines` describes.
pub fn split_lines(text: &str) -> (r: Vec<String>)
    ensures
        r.deep_view() == spec_lines(text@),
{
    proof {
        lemma_split_len(text@, '\n');
    }
    let pieces = split_on(text, '\n');
    let n: usize = pieces.len();
    let keep: usize = if pieces[n - 1].as_str().unicode_len() == 0 {
        n - 1
    } else {
        n
    };
    let ghost stripped = spec_split(text@, '\n').map_values(|p: Seq<char>| spec_strip_cr(p));
    let mut out: Vec<String> = Vec::new();
    let mut i: usize = 0;
    while i < keep
        invariant
            keep <= n,
            n == pieces.len(),
            pieces.deep_view() == spec_split(text@, '\n'),
            stripped == spec_split(text@, '\n').map_values(|p: Seq<char>| spec_strip_cr(p)),
            i <= keep,
            out.deep_view() == stripped.take(i as int),
        decreases keep - i,
    {
        proof {
            assert(pieces.deep_view()[i as int] == pieces@[i as int]@);
            assert(stripped[i as int] == spec_strip_cr(pieces.deep_view()[i as int]));
        }
        let line = strip_cr(pieces[i].as_str());
        let ghost prev_dv = out.deep_view();
        out.push(line);
        proof {
            assert(out.deep_view() =~= prev_dv.push(line@));
            assert(prev_dv.push(line@) =~= stripped.take(i + 1));
        }
        i = i + 1;
    }
    proof {
        if keep == n {
            assert(out.deep_view() =~= stripped);
            assert(out.deep_view() == spec_lines(text@));
        } else {
            assert(out.deep_view() =~= stripped.drop_last());
            assert(out.deep_view() == spec_lines(text@));
        }
    }
    out
}

/// Whether one line matches the query: plain containment when the search
/// is case-sensitive, containment of the lower-cased forms otherwise.
pub open spec fn spec_line_matches(line: Seq<char>, query: Seq<char>, case_sensitive: bool) -> bool {
    if case_sensitive {
        spec_contains(line, query)
    } else {
        spec_contains(lower_of(line), lower_of(query))
    }
}

/// Decides `spec_line_matches`; an empty query matches every line.
pub fn line_matches(line: &str, query: &str, case_sensitive: bool) -> (r: bool)
    ensures
        r == spec_line_matches(line@, query@, case_sensitive),
        query@.len() == 0 ==> r,
{
    if case_sensitive {
        let r = str_contains(line, query);
        proof {
            if query@.len() == 0 {
                assert(line@.subrange(0, 0) =~= query@);
                assert(spec_contains_at(line@, query@, 0));
            }
        }
        r
    } else {
        let lline = lowercase(line);
        let lquery = lowercase(query);
        let r = str_contains(lline.as_str(), lquery.as_str());
        proof {
            if query@.len() == 0 {
                assert(lline@.subrange(0, 0) =~= lquery@);
                assert(spec_contains_at(lline@, lquery@, 0));
            }
        }
        r
    }
}

/// Whether any line of the file matches the query; this is what decides
/// whether the file appears in the document at all.
pub open spec fn spec_has_match(lines: Seq<Seq<char>>, query: Seq<char>, cs: bool) -> bool {
    exists|i: int| 0 <= i < lines.len() && spec_line_matches(#[trigger] lines[i], query, cs)
}

/// Whether line `j` falls inside the context window of some matching line:
/// three lines on either side.
pub open spec fn spec_line_included(lines: Seq<Seq<char>>, query: Seq<char>, cs: bool, j: int) -> bool {
    exists|i: int|
        0 <= i < lines.len() && spec_line_matches(#[trigger] lines[i], query, cs) && i - 3 <= j <= i
            + 3
}

/// One piece of a rendered excerpt: a line carrying its 1-based number, or
/// the gap marker standing for elided lines.
pub enum ExcerptItem {
    Line { number: u64, text: String },
    Gap,
}

/// The mathematical shape of an excerpt item.
pub enum ExcerptItemV {
    LineV { number: int, text: Seq<char> },
    GapV,
}

pub open spec fn item_view(it: ExcerptItem) -> ExcerptItemV {
    match it {
        ExcerptItem::Line { number, text } => ExcerptItemV::LineV {
            number: number as int,
            text: text@,
        },
        ExcerptItem::Gap => ExcerptItemV::GapV,
    }
}

pub open spec fn items_view(items: Seq<ExcerptItem>) -> Seq<ExcerptItemV> {
    items.map_values(|it: ExcerptItem| item_view(it))
}

/// The items an excerpt holds from line `j` on, given whether any line was
/// already emitted and, if so, which one came last: each included line in
/// order, preceded by one gap marker when it is not adjacent to the line
/// emitted before it.
pub open spec fn spec_items_from(
    lines: Seq<Seq<char>>,
    query: Seq<char>,
    cs: bool,
    j: int,
    emitted: bool,
    prev: int,
) -> Seq<ExcerptItemV>
    decreases lines.len() - j,
{
    if j < 0 || j >= lines.len() {
        Seq::empty()
    } else if spec_line_included(lines, query, cs, j) {
        let rest = spec_items_from(lines, query, cs, j + 1, true, j);
        let line_item = ExcerptItemV::LineV { number: j + 1, text: lines[j] };
        if emitted && j > prev + 1 {
            seq![ExcerptItemV::GapV, line_item] + rest
        } else {
            seq![line_item] + rest
        }
    } else {
        spec_items_from(lines, query, cs, j + 1, emitted, prev)
    }
}

/// The full excerpt item sequence for a file.
pub open spec fn spec_excerpt_items(lines: Seq<Seq<char>>, query: Seq<char>, cs: bool) -> Seq<
    ExcerptItemV,
> {
    spec_items_from(lines, query, cs, 0, false, 0)
}

/// The merged, context-windowed subset of a file's lines surrounding the
/// search matches, ready to render.
pub struct MatchExcerpt {
    pub items: Vec<ExcerptItem>,
}

/// Whether line `j` of the window `[j-3, j+3]` around any match is flagged
/// by the per-line match flags.
fn window_has_match(
    flags: &Vec<bool>,
    j: usize,
    Ghost(lines): Ghost<Seq<Seq<char>>>,
    Ghost(query): Ghost<Seq<char>>,
    Ghost(cs): Ghost<bool>,
) -> (r: bool)
    requires
        flags@.len() == lines.len(),
        j < lines.len(),
        forall|i: int| 0 <= i < lines.len() ==> flags@[i] == spec_line_matches(#[trigger] lines[i], query, cs),
    ensures
        r == spec_line_included(lines, query, cs, j as int),
{
    let n = flags.len();
    let lo: usize = if j >= 3 {
        j - 3
    } else {
        0
    };
    let hi: usize = if n - 1 - j <= 3 {
        n - 1
    } else {
        j + 3
    };
    let mut k: usize = lo;
    while k <= hi
        invariant
            n == lines.len(),
            flags@.len() == lines.len(),
            j < n,
            lo <= k,
            lo == (if j >= 3 { j - 3 } else { 0 }),
            hi == (if n - 1 - j <= 3 { n - 1 } else { j + 3 }),
            hi < n,
            forall|i: int| 0 <= i < lines.len() ==> flags@[i] == spec_line_matches(#[trigger] lines[i], query, cs),
            forall|i: int| lo <= i < k ==> !spec_line_matches(#[trigger] lines[i], query, cs),
        decreases hi + 1 - k,
    {
        if flags[k] {
            proof {
                assert(spec_line_matches(lines[k as int], query, cs));
                assert(k as int - 3 <= j as int <= k as int + 3);
            }
            return true;
        }
        k = k + 1;
    }
    proof {
        assert(forall|i: int|
            0 <= i < lines.len() && spec_line_matches(#[trigger] lines[i], query, cs) && i - 3 <= j
                as int <= i + 3 ==> lo <= i <= hi);
    }
    false
}

/// Extracts the excerpt for one file, or nothing when no line matches.
/// An empty query matches every line and disables the filter outright, so
/// it yields an excerpt for every file, even one with no lines at all.
pub fn extract(full_text: &str, query: &str, case_sensitive: bool) -> (r: Option<MatchExcerpt>)
    ensures
        r is Some <==> (query@.len() == 0 || spec_has_match(
            spec_lines(full_text@),
            query@,
            case_sensitive,
        )),
        r matches Some(ex) ==> items_view(ex.items@) == spec_excerpt_items(
            spec_lines(full_text@),
            query@,
            case_sensitive,
        ),
{
    let query_is_empty: bool = query.unicode_len() == 0;
    let lines = split_lines(full_text);
    let ghost lv = spec_lines(full_text@);
    let n: usize = lines.len();
    let mut flags: Vec<bool> = Vec::new();
    let mut any_match: bool = false;
    let mut i: usize = 0;
    while i < n
        invariant
            n == lines.len(),
            lines.deep_view() == lv,
            i <= n,
            flags@.len() == i,
            forall|k: int| 0 <= k < i ==> flags@[k] == spec_line_matches(#[trigger] lv[k], query@, case_sensitive),
            any_match == exists|k: int|
                0 <= k < i && spec_line_matches(#[trigger] lv[k], query@, case_sensitive),
            query@.len() == 0 && i > 0 ==> any_match,
        decreases n - i,
    {
        proof {
            assert(lines.deep_view()[i as int] == lines@[i as int]@);
        }
        let m = line_matches(lines[i].as_str(), query, case_sensitive);
        if m {
            any_match = true;
        }
        flags.push(m);
        i = i + 1;
    }
    if !any_match && !query_is_empty {
        proof {
            assert(!spec_has_match(lv, query@, case_sensitive));
        }
        return None;
    }
    let mut items: Vec<ExcerptItem> = Vec::new();
    let mut emitted: bool = false;
    let mut prev: usize = 0;
    let mut j: usize = 0;
    while j < n
        invariant
            n == lines.len(),
            lines.deep_view() == lv,
            flags@.len() == n,
            forall|k: int| 0 <= k < n ==> flags@[k] == spec_line_matches(#[trigger] lv[k], query@, case_sensitive),
            j <= n,
            emitted ==> prev < j,
            items_view(items@) + spec_items_from(lv, query@, case_sensitive, j as int, emitted, prev as int)
                == spec_excerpt_items(lv, query@, case_sensitive),
        decreases n - j,
    {
        let included = window_has_match(&flags, j, Ghost(lv), Ghost(query@), Ghost(case_sensitive));
        if included {
            proof {
                assert(lines.deep_view()[j as int] == lines@[j as int]@);
            }
            if emitted && j - prev > 1 {
                items.push(ExcerptItem::Gap);
                let num: u64 = (j as u64) + 1;
                let text = lines[j].clone();
                items.push(ExcerptItem::Line { number: num, text });
            } else {
                let num: u64 = (j as u64) + 1;
                let text = lines[j].clone();
                items.push(ExcerptItem::Line { number: num, text });
            }
            emitted = true;
            prev = j;
        }
        proof {
            assert(items_view(items@) + spec_items_from(
                lv,
                query@,
                case_sensitive,
                j + 1,
                emitted,
                prev as int,
            ) =~= spec_excerpt_items(lv, query@, case_sensitive));
        }
        j = j + 1;
    }
    proof {
        assert(items_view(items@) =~= spec_excerpt_items(lv, query@, case_sensitive));
    }
    Some(MatchExcerpt { items })
}

/// How one excerpt item renders: the gap marker on its own line, or the
/// 1-based line number, a colon and the line text.
pub open spec fn spec_render_item(it: ExcerptItemV) -> Seq<char> {
    match it {
        ExcerptItemV::GapV => "...\n"@,
        ExcerptItemV::LineV { number, text } => spec_u64_string(number as nat) + ": "@ + text
            + "\n"@,
    }
}

/// The rendered form of a whole excerpt, item by item.
pub open spec fn spec_render_items(items: Seq<ExcerptItemV>) -> Seq<char>
    decreases items.len(),
{
    if items.len() == 0 {
        Seq::empty()
    } else {
        spec_render_item(items[0]) + spec_render_items(items.skip(1))
    }
}

impl MatchExcerpt {
    /// Renders the excerpt, each line numbered 1-based and gaps marked.
    pub fn render(&self) -> (r: String)
        ensures
            r@ == spec_render_items(items_view(self.items@)),
    {
        let mut out = String::new();
        let n: usize = self.items.len();
        let mut i: usize = 0;
        let ghost iv = items_view(self.items@);
        proof {
            assert(iv.skip(0) =~= iv);
            assert(out@ + spec_render_items(iv) =~= spec_render_items(iv));
        }
        while i < n
            invariant
                n == self.items.len(),
                iv == items_view(self.items@),
                iv.len() == n,
                i <= n,
                out@ + spec_render_items(iv.skip(i as int)) == spec_render_items(iv),
            decreases n - i,
        {
            proof {
                assert(iv[i as int] == item_view(self.items@[i as int]));
                assert(iv.skip(i as int)[0] == iv[i as int]);
                assert(iv.skip(i as int).skip(1) =~= iv.skip(i + 1));
            }
            match &self.items[i] {
                ExcerptItem::Gap => {
                    out.append("...\n");
                },
                ExcerptItem::Line { number, text } => {
                    let num = u64_to_string(*number);
                    out.append(num.as_str());
                    out.append(": ");
                    out.append(text.as_str());
                    out.append("\n");
                },
            }
            proof {
                assert(out@ + spec_render_items(iv.skip(i + 1)) =~= spec_render_items(iv));
            }
            i = i + 1;
        }
        proof {
            assert(iv.skip(n as int) =~= Seq::<ExcerptItemV>::empty());
            assert(out@ =~= spec_render_items(iv));
        }
        out
    }
}

} // verus!
