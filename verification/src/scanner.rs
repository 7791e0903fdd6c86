//! The path filter engine: decides, per discovered entry, whether it is
//! kept for the tree listing and whether it is collected as a file to
//! process. The two views share the depth, hidden-name and excluded-
//! component rules; extension and filename-pattern rules apply only to the
//! file collector.

use vstd::prelude::*;
use crate::config::{Config, Entry};
use crate::pattern::spec_rule_matches;
use crate::strutil::{
    spec_split, split_on, spec_starts_with, str_starts_with, vec_contains_str, lemma_split_len,
};
use crate::classify::{spec_lower_ext, lower_ext_of};

verus! {

/// Rule 1: entries deeper than the configured bound are rejected.
pub open spec fn spec_depth_ok(e: Entry, c: Config) -> bool {
    e.depth <= c.max_depth
}

/// Rule 2: when hidden entries are skipped, a base name beginning with `.`
/// is rejected.
pub open spec fn spec_hidden_ok(e: Entry, c: Config) -> bool {
    c.skip_hidden ==> !spec_starts_with(e.name@, "."@)
}

/// Whether any `/`-separated component of `path` is exactly one of the
/// excluded strings; matching is whole-component, never substring.
pub open spec fn spec_any_component_excluded(path: Seq<char>, excluded: Seq<Seq<char>>) -> bool {
    exists|k: int|
        0 <= k < spec_split(path, '/').len() && excluded.contains(#[trigger] spec_split(path, '/')[k])
}

/// Rule 3: entries with an excluded path component are rejected.
pub open spec fn spec_components_ok(e: Entry, c: Config) -> bool {
    match c.exclude_paths {
        Some(excluded) => !spec_any_component_excluded(e.path@, excluded.deep_view()),
        None => true,
    }
}

/// The rules shared by both filter views.
pub open spec fn spec_keep_common(e: Entry, c: Config) -> bool {
    spec_depth_ok(e, c) && spec_hidden_ok(e, c) && spec_components_ok(e, c)
}

/// Rule 4: when an allow-list is present and non-empty, a file must have an
/// extension that is a member; a file without an extension fails open (it
/// is excluded).
pub open spec fn spec_allow_ok(e: Entry, c: Config) -> bool {
    match c.include_extensions {
        Some(included) => included.deep_view().len() == 0 || (spec_lower_ext(e.name@) matches Some(
            x,
        ) && included.deep_view().contains(x)),
        None => true,
    }
}

/// Rule 5: a file whose extension is on the deny-list is rejected; a file
/// without an extension fails closed (it is not rejected by this rule).
pub open spec fn spec_deny_ok(e: Entry, c: Config) -> bool {
    match c.exclude_extensions {
        Some(excluded) => !(spec_lower_ext(e.name@) matches Some(x) && excluded.deep_view().contains(
            x,
        )),
        None => true,
    }
}

/// Rule 6: when a filename pattern is configured, the base name must match.
pub open spec fn spec_pattern_ok(e: Entry, c: Config) -> bool {
    match c.pattern {
        Some(rule) => spec_rule_matches(rule, e.name@),
        None => true,
    }
}

/// The tree view keeps every entry passing the shared rules.
pub open spec fn spec_keep_in_tree(e: Entry, c: Config) -> bool {
    spec_keep_common(e, c)
}

/// The file collector keeps files (never directories) passing all six
/// rules.
pub open spec fn spec_keep_file(e: Entry, c: Config) -> bool {
    &&& !e.is_dir
    &&& spec_keep_common(e, c)
    &&& spec_allow_ok(e, c)
    &&& spec_deny_ok(e, c)
    &&& spec_pattern_ok(e, c)
}

/// Decides `spec_any_component_excluded`.
fn any_component_excluded(path: &str, excluded: &Vec<String>) -> (r: bool)
    ensures
        r == spec_any_component_excluded(path@, excluded.deep_view()),
{
    proof {
        lemma_split_len(path@, '/');
    }
    let comps = split_on(path, '/');
    let n: usize = comps.len();
    let mut k: usize = 0;
    while k < n
        invariant
            n == comps.len(),
            comps.deep_view() == spec_split(path@, '/'),
            k <= n,
            forall|j: int| 0 <= j < k ==> !excluded.deep_view().contains(#[trigger] spec_split(path@, '/')[j]),
        decreases n - k,
    {
        proof {
            assert(comps.deep_view()[k as int] == comps@[k as int]@);
        }
        if vec_contains_str(excluded, comps[k].as_str()) {
            return true;
        }
        k = k + 1;
    }
    false
}

/// The filter engine itself: the configuration snapshot plus the decision
/// procedures over it.
pub struct FileScanner {
    pub config: Config,
}

impl FileScanner {
    /// Builds a scanner over one configuration snapshot.
    pub fn new(config: Config) -> (s: FileScanner)
        ensures
            s.config == config,
    {
        FileScanner { config }
    }

    /// Decides the shared rules 1 to 3 for one entry.
    pub fn keep_in_tree(&self, e: &Entry) -> (r: bool)
        ensures
            r == spec_keep_in_tree(*e, self.config),
    {
        if e.depth > self.config.max_depth {
            return false;
        }
        if self.config.skip_hidden && str_starts_with(e.name.as_str(), ".") {
            return false;
        }
        match &self.config.exclude_paths {
            Some(excluded) => {
                if any_component_excluded(e.path.as_str(), excluded) {
                    return false;
                }
            },
            None => {},
        }
        true
    }

    /// Decides all six rules for one entry as a candidate processed file.
    pub fn should_process_file(&self, e: &Entry) -> (r: bool)
        ensures
            r == spec_keep_file(*e, self.config),
    {
        if e.is_dir {
            return false;
        }
        if !self.keep_in_tree(e) {
            return false;
        }
        let ext = lower_ext_of(e.name.as_str());
        match &self.config.include_extensions {
            Some(included) => {
                if included.len() > 0 {
                    match &ext {
                        Some(x) => {
                            if !vec_contains_str(included, x.as_str()) {
                                return false;
                            }
                        },
                        None => {
                            return false;
                        },
                    }
                }
            },
            None => {},
        }
        match &self.config.exclude_extensions {
            Some(excluded) => {
                match &ext {
                    Some(x) => {
                        if vec_contains_str(excluded, x.as_str()) {
                            return false;
                        }
                    },
                    None => {},
                }
            },
            None => {},
        }
        match &self.config.pattern {
            Some(rule) => {
                if !rule.matches(e.name.as_str()) {
                    return false;
                }
            },
            None => {},
        }
        true
    }
}

} // verus!
