//! The immutable configuration snapshot that one run works under, and the
//! entry record that traversal hands to the filter.

use vstd::prelude::*;
use crate::pattern::PatternRule;

verus! {

/// One discovered filesystem node. The embedding program fills these in
/// during traversal; the library only ever reads them.
#[derive(Clone)]
pub struct Entry {
    /// Full path of the node, with `/` separating components.
    pub path: String,
    /// Base name: the last path component.
    pub name: String,
    /// Depth below the traversal root; the root itself has depth 0.
    pub depth: u64,
    /// Whether the node is a directory.
    pub is_dir: bool,
    /// Size in bytes; meaningful for files only.
    pub size: u64,
}

/// The filter and run configuration, fixed before a run starts. Extension
/// sets are expected lower-cased, as configuration loading produces them.
pub struct Config {
    /// Files larger than this many bytes are skipped, counted as neither
    /// text nor binary.
    pub max_size: u64,
    /// Entries deeper than this below the root are rejected.
    pub max_depth: u64,
    /// When present and non-empty, only files whose lower-cased extension
    /// is a member are kept.
    pub include_extensions: Option<Vec<String>>,
    /// Files whose lower-cased extension is a member are rejected.
    pub exclude_extensions: Option<Vec<String>>,
    /// Entries with any path component exactly equal to a member are
    /// rejected.
    pub exclude_paths: Option<Vec<String>>,
    /// When present, files whose base name does not match are rejected.
    pub pattern: Option<PatternRule>,
    /// When set, entries whose base name begins with `.` are rejected.
    pub skip_hidden: bool,
    /// When set, kept files are committed in lexicographic path order
    /// rather than enumeration order.
    pub sort: bool,
    /// When present, only text files containing this query appear in the
    /// document, as contextual excerpts.
    pub search_text: Option<String>,
    /// Whether the search compares without case folding.
    pub case_sensitive: bool,
    /// Whether per-file notices are emitted; the library itself never
    /// prints, so this only travels through to the embedding program.
    pub verbose: bool,
}

pub const DEFAULT_MAX_SIZE: u64 = 10485760;

impl Default for Config {
    /// The configuration a run starts from when nothing is specified:
    /// a 10 MiB size limit, unbounded depth, and every filter disabled.
    fn default() -> (c: Config)
        ensures
            c.max_size == DEFAULT_MAX_SIZE,
            c.max_depth == u64::MAX,
            c.include_extensions is None,
            c.exclude_extensions is None,
            c.exclude_paths is None,
            c.pattern is None,
            !c.skip_hidden,
            !c.sort,
            c.search_text is None,
            !c.case_sensitive,
            !c.verbose,
    {
        Config {
            max_size: DEFAULT_MAX_SIZE,
            max_depth: u64::MAX,
            include_extensions: None,
            exclude_extensions: None,
            exclude_paths: None,
            pattern: None,
            skip_hidden: false,
            sort: false,
            search_text: None,
            case_sensitive: false,
            verbose: false,
        }
    }
}

} // verus!
