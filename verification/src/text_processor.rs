//! Per-file text processing: deciding text versus binary for one file's
//! bytes, and rendering the document section a text file contributes —
//! either its full content under a header, or, when a search query is
//! configured, a numbered excerpt of the matching context.

use vstd::prelude::*;
use crate::config::Config;
use crate::classify::{Classification, classify, spec_treat_as_text};
use crate::search::{
    extract, spec_has_match, spec_lines, spec_excerpt_items, spec_render_items,
};
use vstd::utf8::{valid_utf8, decode_utf8};

verus! {

/// The section a text file contributes in search mode when some line
/// matches: a match header, then the rendered excerpt, then a blank line.
pub open spec fn spec_match_section(
    path: Seq<char>,
    content: Seq<char>,
    query: Seq<char>,
    cs: bool,
) -> Seq<char> {
    "=== MATCH IN: "@ + path + " ===\n"@ + spec_render_items(
        spec_excerpt_items(spec_lines(content), query, cs),
    ) + "\n"@
}

/// The section a text file contributes outside search mode: a path header
/// and the full content.
pub open spec fn spec_plain_section(path: Seq<char>, content: Seq<char>) -> Seq<char> {
    "=== "@ + path + " ===\n"@ + content + "\n\n"@
}

/// Whether a text file with this content appears in the document: always,
/// unless a non-empty search query is configured and no line matches it.
/// An empty query disables the filter, so it includes every text file.
pub open spec fn spec_included(content: Seq<char>, c: Config) -> bool {
    match c.search_text {
        Some(q) => q@.len() == 0 || spec_has_match(spec_lines(content), q@, c.case_sensitive),
        None => true,
    }
}

/// What a text file with this path and content adds to the document:
/// nothing when search excludes it, its excerpt section in search mode,
/// its full section otherwise.
pub open spec fn spec_section(path: Seq<char>, content: Seq<char>, c: Config) -> Seq<char> {
    match c.search_text {
        Some(q) => if q@.len() == 0 || spec_has_match(spec_lines(content), q@, c.case_sensitive) {
            spec_match_section(path, content, q@, c.case_sensitive)
        } else {
            Seq::empty()
        },
        None => spec_plain_section(path, content),
    }
}

/// Appends the section for one decoded text file to `buffer` and says
/// whether the file was included.
pub fn append_section(c: &Config, path: &str, content: &str, buffer: &mut String) -> (r: bool)
    ensures
        r == spec_included(content@, *c),
        final(buffer)@ == old(buffer)@ + spec_section(path@, content@, *c),
        (c.search_text matches Some(q) && q@.len() == 0) ==> r,
{
    match &c.search_text {
        Some(q) => {
            match extract(content, q.as_str(), c.case_sensitive) {
                Some(excerpt) => {
                    buffer.append("=== MATCH IN: ");
                    buffer.append(path);
                    buffer.append(" ===\n");
                    let rendered = excerpt.render();
                    buffer.append(rendered.as_str());
                    buffer.append("\n");
                    proof {
                        assert(buffer@ =~= old(buffer)@ + spec_section(path@, content@, *c));
                    }
                    true
                },
                None => {
                    proof {
                        assert(buffer@ =~= old(buffer)@ + spec_section(path@, content@, *c));
                    }
                    false
                },
            }
        },
        None => {
            buffer.append("=== ");
            buffer.append(path);
            buffer.append(" ===\n");
            buffer.append(content);
            buffer.append("\n\n");
            proof {
                assert(buffer@ =~= old(buffer)@ + spec_section(path@, content@, *c));
            }
            true
        },
    }
}

/// Classifies one file's bytes and hands back the decoded content of a
/// text file, nothing for a binary file, and an error for a file that was
/// judged textual but does not decode.
pub fn process_content(name: &str, data: &Vec<u8>) -> (r: Result<Option<String>, String>)
    ensures
        spec_treat_as_text(name@, data@) && valid_utf8(data@) ==> (r matches Ok(c) && c matches Some(
            s,
        ) && s@ == decode_utf8(data@)),
        spec_treat_as_text(name@, data@) && !valid_utf8(data@) ==> r is Err,
        !spec_treat_as_text(name@, data@) ==> (r matches Ok(c) && c is None),
{
    match classify(name, data) {
        Classification::Text(content) => Ok(Some(content)),
        Classification::Binary => Ok(None),
        Classification::Unreadable => Err("file content is not valid text".to_string()),
    }
}

/// Text processing behind a substitutable interface: classification of one
/// file's bytes, and section formatting for the document.
pub trait TextProcessing {
    /// The configuration the processor works under.
    spec fn processing_config(&self) -> Config;

    /// Decides text versus binary for one file's bytes; a text file's
    /// decoded content comes back as `Ok(Some(..))`, a binary file as
    /// `Ok(None)`, undecodable text as `Err(..)`.
    fn process_file(&self, name: &str, data: &Vec<u8>) -> (r: Result<Option<String>, String>)
        ensures
            spec_treat_as_text(name@, data@) && valid_utf8(data@) ==> (r matches Ok(c)
                && c matches Some(s) && s@ == decode_utf8(data@)),
            spec_treat_as_text(name@, data@) && !valid_utf8(data@) ==> r is Err,
            !spec_treat_as_text(name@, data@) ==> (r matches Ok(c) && c is None),
    ;

    /// Appends the file's document section to `buffer` and says whether
    /// the file was included.
    fn format_text_content(&self, path: &str, content: &str, buffer: &mut String) -> (r: Result<
        bool,
        String,
    >)
        ensures
            r matches Ok(b) && b == spec_included(content@, self.processing_config()),
            final(buffer)@ == old(buffer)@ + spec_section(
                path@,
                content@,
                self.processing_config(),
            ),
            (self.processing_config().search_text matches Some(q) && q@.len() == 0) ==> (r matches
                Ok(b) && b),
    ;
}

/// The production text processor over one configuration snapshot.
pub struct TextProcessor {
    pub config: Config,
}

impl TextProcessor {
    /// Builds a processor over one configuration snapshot.
    pub fn new(config: Config) -> (t: TextProcessor)
        ensures
            t.config == config,
    {
        TextProcessor { config }
    }
}

impl TextProcessing for TextProcessor {
    open spec fn processing_config(&self) -> Config {
        self.config
    }

    /// Forwards to `process_content`, which carries the same statement.
    fn process_file(&self, name: &str, data: &Vec<u8>) -> (r: Result<Option<String>, String>) {
        process_content(name, data)
    }

    /// Forwards to `append_section`, which carries the same statement.
    fn format_text_content(&self, path: &str, content: &str, buffer: &mut String) -> (r: Result<
        bool,
        String,
    >) {
        Ok(append_section(&self.config, path, content, buffer))
    }
}

} // verus!
