//! Text-versus-binary content classification.
//!
//! A file is judged in two stages: a fast path over well-known extensions,
//! and a content heuristic over a sample of at most 4096 bytes combining
//! magic-number sniffing, a null-byte test, and the fraction of text-like
//! bytes under a size-dependent threshold. A file judged textual is then
//! decoded; bytes that are not valid UTF-8 demote the result to unreadable.

use vstd::prelude::*;
use crate::strutil::{
    spec_starts_with, spec_contains, spec_extension, lower_of, lowercase, str_eq, str_starts_with,
    str_contains, extension_of,
};
use vstd::utf8::{valid_utf8, decode_utf8};

verus! {

/// The text/binary/unreadable decision for one file's contents. A `Text`
/// value carries the decoded content.
pub enum Classification {
    Text(String),
    Binary,
    Unreadable,
}

/// What `infer::get` reports for a byte sample: the MIME type of the first
/// recognized magic-number signature, or nothing when no signature matches.
/// The result is a function of the bytes alone.
pub uninterp spec fn mime_of(bytes: Seq<u8>) -> Option<Seq<char>>;

/// Relies on infer::get and infer::Type::mime_type: signature sniffing is a
/// function of the byte sample alone.
#[verifier::external_body]
fn sniff_mime(data: &[u8]) -> (r: Option<String>)
    ensures
        match r {
            Some(m) => mime_of(data@) == Some(m@),
            None => mime_of(data@) is None,
        },
{
    match infer::get(data) {
        Some(kind) => Some(kind.mime_type().to_string()),
        None => None,
    }
}

/// Relies on String::from_utf8: decoding succeeds exactly on valid UTF-8,
/// and yields the character sequence those bytes encode.
#[verifier::external_body]
fn utf8_to_string(data: &Vec<u8>) -> (r: Option<String>)
    ensures
        r is Some <==> valid_utf8(data@),
        r matches Some(s) ==> s@ == decode_utf8(data@),
{
    String::from_utf8(data.clone()).ok()
}

/// Whether a MIME type names a format that is binary for our purposes:
/// any image, video or audio format, and any application format that is not
/// one of the text-wrapped application subtypes (JSON, XML, plain text).
pub open spec fn spec_is_binary_mime(m: Seq<char>) -> bool {
    spec_starts_with(m, "image/"@) || spec_starts_with(m, "video/"@) || spec_starts_with(
        m,
        "audio/"@,
    ) || (spec_starts_with(m, "application/"@) && !spec_contains(m, "json"@) && !spec_contains(
        m,
        "xml"@,
    ) && !spec_contains(m, "text"@))
}

/// Decides `spec_is_binary_mime` for a MIME type string.
pub fn is_binary_mime_type(mime_type: &str) -> (r: bool)
    ensures
        r == spec_is_binary_mime(mime_type@),
{
    str_starts_with(mime_type, "image/") || str_starts_with(mime_type, "video/")
        || str_starts_with(mime_type, "audio/") || (str_starts_with(mime_type, "application/")
        && !str_contains(mime_type, "json") && !str_contains(mime_type, "xml") && !str_contains(
        mime_type,
        "text",
    ))
}

/// The extensions always treated as text without looking at content.
pub open spec fn spec_is_common_text_extension(e: Seq<char>) -> bool {
    e == "txt"@ || e == "md"@ || e == "markdown"@ || e == "rst"@ || e == "html"@ || e == "htm"@
        || e == "css"@ || e == "scss"@ || e == "sass"@ || e == "less"@ || e == "js"@ || e == "jsx"@
        || e == "ts"@ || e == "tsx"@ || e == "json"@ || e == "toml"@ || e == "yaml"@ || e == "yml"@
        || e == "rs"@ || e == "go"@ || e == "py"@ || e == "rb"@ || e == "php"@ || e == "java"@
        || e == "kt"@ || e == "c"@ || e == "cpp"@ || e == "h"@ || e == "hpp"@ || e == "cs"@
        || e == "fs"@ || e == "swift"@ || e == "scala"@ || e == "groovy"@ || e == "pl"@
        || e == "sh"@ || e == "bash"@ || e == "zsh"@ || e == "ini"@ || e == "cfg"@ || e == "conf"@
        || e == "config"@ || e == "properties"@ || e == "xml"@ || e == "svg"@ || e == "sql"@
        || e == "graphql"@ || e == "gql"@ || e == "r"@ || e == "lua"@ || e == "ex"@ || e == "exs"@
        || e == "elm"@ || e == "clj"@ || e == "hs"@ || e == "erl"@ || e == "lisp"@ || e == "dart"@
}

/// Decides `spec_is_common_text_extension` for a lower-cased extension.
pub fn is_common_text_extension(ext: &str) -> (r: bool)
    ensures
        r == spec_is_common_text_extension(ext@),
{
    str_eq(ext, "txt") || str_eq(ext, "md") || str_eq(ext, "markdown") || str_eq(ext, "rst")
        || str_eq(ext, "html") || str_eq(ext, "htm") || str_eq(ext, "css") || str_eq(ext, "scss")
        || str_eq(ext, "sass") || str_eq(ext, "less") || str_eq(ext, "js") || str_eq(ext, "jsx")
        || str_eq(ext, "ts") || str_eq(ext, "tsx") || str_eq(ext, "json") || str_eq(ext, "toml")
        || str_eq(ext, "yaml") || str_eq(ext, "yml") || str_eq(ext, "rs") || str_eq(ext, "go")
        || str_eq(ext, "py") || str_eq(ext, "rb") || str_eq(ext, "php") || str_eq(ext, "java")
        || str_eq(ext, "kt") || str_eq(ext, "c") || str_eq(ext, "cpp") || str_eq(ext, "h")
        || str_eq(ext, "hpp") || str_eq(ext, "cs") || str_eq(ext, "fs") || str_eq(ext, "swift")
        || str_eq(ext, "scala") || str_eq(ext, "groovy") || str_eq(ext, "pl") || str_eq(ext, "sh")
        || str_eq(ext, "bash") || str_eq(ext, "zsh") || str_eq(ext, "ini") || str_eq(ext, "cfg")
        || str_eq(ext, "conf") || str_eq(ext, "config") || str_eq(ext, "properties") || str_eq(
        ext,
        "xml",
    ) || str_eq(ext, "svg") || str_eq(ext, "sql") || str_eq(ext, "graphql") || str_eq(ext, "gql")
        || str_eq(ext, "r") || str_eq(ext, "lua") || str_eq(ext, "ex") || str_eq(ext, "exs")
        || str_eq(ext, "elm") || str_eq(ext, "clj") || str_eq(ext, "hs") || str_eq(ext, "erl")
        || str_eq(ext, "lisp") || str_eq(ext, "dart")
}

/// The extensions always treated as binary without looking at content.
pub open spec fn spec_is_common_binary_extension(e: Seq<char>) -> bool {
    e == "exe"@ || e == "dll"@ || e == "so"@ || e == "dylib"@ || e == "bin"@ || e == "o"@
        || e == "a"@ || e == "lib"@ || e == "obj"@ || e == "png"@ || e == "jpg"@ || e == "jpeg"@
        || e == "gif"@ || e == "bmp"@ || e == "tiff"@ || e == "webp"@ || e == "ico"@
        || e == "heic"@ || e == "mp3"@ || e == "wav"@ || e == "ogg"@ || e == "flac"@ || e == "m4a"@
        || e == "aac"@ || e == "wma"@ || e == "mp4"@ || e == "avi"@ || e == "mov"@ || e == "mkv"@
        || e == "flv"@ || e == "wmv"@ || e == "webm"@ || e == "pdf"@ || e == "doc"@ || e == "docx"@
        || e == "xls"@ || e == "xlsx"@ || e == "ppt"@ || e == "pptx"@ || e == "zip"@ || e == "rar"@
        || e == "tar"@ || e == "gz"@ || e == "7z"@ || e == "bz2"@ || e == "xz"@ || e == "iso"@
        || e == "db"@ || e == "sqlite"@ || e == "mdb"@ || e == "class"@ || e == "pyc"@
        || e == "pyo"@ || e == "pyd"@ || e == "ttf"@ || e == "otf"@ || e == "woff"@
        || e == "woff2"@ || e == "eot"@ || e == "dat"@ || e == "pb"@ || e == "deb"@ || e == "rpm"@
        || e == "tgz"@ || e == "pkg"@
}

/// Decides `spec_is_common_binary_extension` for a lower-cased extension.
pub fn is_common_binary_extension(ext: &str) -> (r: bool)
    ensures
        r == spec_is_common_binary_extension(ext@),
{
    str_eq(ext, "exe") || str_eq(ext, "dll") || str_eq(ext, "so") || str_eq(ext, "dylib")
        || str_eq(ext, "bin") || str_eq(ext, "o") || str_eq(ext, "a") || str_eq(ext, "lib")
        || str_eq(ext, "obj") || str_eq(ext, "png") || str_eq(ext, "jpg") || str_eq(ext, "jpeg")
        || str_eq(ext, "gif") || str_eq(ext, "bmp") || str_eq(ext, "tiff") || str_eq(ext, "webp")
        || str_eq(ext, "ico") || str_eq(ext, "heic") || str_eq(ext, "mp3") || str_eq(ext, "wav")
        || str_eq(ext, "ogg") || str_eq(ext, "flac") || str_eq(ext, "m4a") || str_eq(ext, "aac")
        || str_eq(ext, "wma") || str_eq(ext, "mp4") || str_eq(ext, "avi") || str_eq(ext, "mov")
        || str_eq(ext, "mkv") || str_eq(ext, "flv") || str_eq(ext, "wmv") || str_eq(ext, "webm")
        || str_eq(ext, "pdf") || str_eq(ext, "doc") || str_eq(ext, "docx") || str_eq(ext, "xls")
        || str_eq(ext, "xlsx") || str_eq(ext, "ppt") || str_eq(ext, "pptx") || str_eq(ext, "zip")
        || str_eq(ext, "rar") || str_eq(ext, "tar") || str_eq(ext, "gz") || str_eq(ext, "7z")
        || str_eq(ext, "bz2") || str_eq(ext, "xz") || str_eq(ext, "iso") || str_eq(ext, "db")
        || str_eq(ext, "sqlite") || str_eq(ext, "mdb") || str_eq(ext, "class") || str_eq(
        ext,
        "pyc",
    ) || str_eq(ext, "pyo") || str_eq(ext, "pyd") || str_eq(ext, "ttf") || str_eq(ext, "otf")
        || str_eq(ext, "woff") || str_eq(ext, "woff2") || str_eq(ext, "eot") || str_eq(ext, "dat")
        || str_eq(ext, "pb") || str_eq(ext, "deb") || str_eq(ext, "rpm") || str_eq(ext, "tgz")
        || str_eq(ext, "pkg")
}

/// How many bytes of the sample the content heuristic looks at.
pub const SAMPLE_WINDOW: usize = 4096;

/// Bytes that count as text-like: anything from space upward, plus newline,
/// carriage return and tab.
pub open spec fn is_text_like_byte(b: u8) -> bool {
    b >= 32 || b == 10 || b == 13 || b == 9
}

/// The number of text-like bytes in a sample.
pub open spec fn count_text_like(s: Seq<u8>) -> nat
    decreases s.len(),
{
    if s.len() == 0 {
        0
    } else {
        count_text_like(s.drop_last()) + if is_text_like_byte(s.last()) {
            1nat
        } else {
            0nat
        }
    }
}

/// Whether the sample holds a null byte.
pub open spec fn spec_has_null(s: Seq<u8>) -> bool {
    exists|i: int| 0 <= i < s.len() && s[i] == 0
}

/// The byte sample the heuristic examines: the first 4096 bytes.
pub open spec fn spec_sample(bytes: Seq<u8>) -> Seq<u8> {
    if bytes.len() <= SAMPLE_WINDOW {
        bytes
    } else {
        bytes.take(SAMPLE_WINDOW as int)
    }
}

/// The size-dependent text-likeness bar: samples under 100 bytes must be at
/// least 95% text-like, larger samples at least 80%.
pub open spec fn spec_meets_threshold(count: nat, size: nat) -> bool {
    if size < 100 {
        20 * count >= 19 * size
    } else {
        5 * count >= 4 * size
    }
}

/// The content heuristic alone, without signature sniffing: the sample has
/// no null byte and enough text-like bytes for its size.
pub open spec fn spec_heuristic_is_text(bytes: Seq<u8>) -> bool {
    !spec_has_null(spec_sample(bytes)) && spec_meets_threshold(
        count_text_like(spec_sample(bytes)),
        spec_sample(bytes).len(),
    )
}

/// The full content decision: non-empty, not a recognized binary format by
/// magic number, and passing the content heuristic.
pub open spec fn spec_is_text(bytes: Seq<u8>) -> bool {
    &&& bytes.len() > 0
    &&& (mime_of(bytes) matches Some(m) ==> !spec_is_binary_mime(m))
    &&& spec_heuristic_is_text(bytes)
}

/// Runs the content heuristic over the sample window.
pub fn heuristic_is_text(data: &[u8]) -> (r: bool)
    ensures
        r == spec_heuristic_is_text(data@),
{
    let len: usize = data.len();
    let sample_len: usize = if len <= SAMPLE_WINDOW {
        len
    } else {
        SAMPLE_WINDOW
    };
    proof {
        assert(spec_sample(data@) =~= data@.take(sample_len as int));
    }
    let mut count: usize = 0;
    let mut i: usize = 0;
    while i < sample_len
        invariant
            sample_len <= data@.len(),
            sample_len <= SAMPLE_WINDOW,
            spec_sample(data@) == data@.take(sample_len as int),
            i <= sample_len,
            count <= i,
            count == count_text_like(data@.take(i as int)),
            forall|j: int| 0 <= j < i ==> data@[j] != 0,
        decreases sample_len - i,
    {
        let b = data[i];
        if b == 0 {
            proof {
                assert(spec_sample(data@)[i as int] == 0);
            }
            return false;
        }
        proof {
            assert(data@.take(i + 1).drop_last() =~= data@.take(i as int));
            assert(data@.take(i + 1).last() == b);
        }
        if b >= 32 || b == 10 || b == 13 || b == 9 {
            count = count + 1;
        }
        i = i + 1;
    }
    proof {
        assert(forall|j: int| 0 <= j < sample_len ==> #[trigger] spec_sample(data@)[j] == data@[j]);
        assert(!spec_has_null(spec_sample(data@)));
        assert(count == count_text_like(spec_sample(data@)));
    }
    if sample_len < 100 {
        20 * count >= 19 * sample_len
    } else {
        // count <= sample_len <= 4096, so neither product can overflow
        5 * count >= 4 * sample_len
    }
}

/// Content-based text detection, as `spec_is_text` describes: empty content
/// is not text, a recognized image/video/audio/opaque-application signature
/// is not text, and otherwise the sample heuristic decides.
pub fn is_text(data: &[u8]) -> (r: bool)
    ensures
        r == spec_is_text(data@),
{
    if data.len() == 0 {
        return false;
    }
    match sniff_mime(data) {
        Some(m) => {
            if is_binary_mime_type(m.as_str()) {
                return false;
            }
        },
        None => {},
    }
    heuristic_is_text(data)
}

/// A sample of only text-like bytes with no null byte passes the heuristic;
/// in particular a sample that is wholly printable ASCII reads as text.
pub proof fn lemma_printable_sample_is_text(bytes: Seq<u8>)
    requires
        forall|i: int| 0 <= i < bytes.len() ==> 32 <= #[trigger] bytes[i] <= 126,
    ensures
        spec_heuristic_is_text(bytes),
{
    let sample = spec_sample(bytes);
    assert(forall|i: int| 0 <= i < sample.len() ==> is_text_like_byte(#[trigger] sample[i]));
    lemma_all_text_like_count(sample);
}

proof fn lemma_all_text_like_count(s: Seq<u8>)
    requires
        forall|i: int| 0 <= i < s.len() ==> is_text_like_byte(s[i]),
    ensures
        count_text_like(s) == s.len(),
    decreases s.len(),
{
    if s.len() > 0 {
        lemma_all_text_like_count(s.drop_last());
    }
}

/// A null byte anywhere in the sample window forces a binary verdict.
pub proof fn lemma_null_byte_is_binary(bytes: Seq<u8>)
    requires
        spec_has_null(spec_sample(bytes)),
    ensures
        !spec_is_text(bytes),
{
}

/// The extension of a base name, lower-cased, as the extension rules and
/// the classifier fast path see it.
pub open spec fn spec_lower_ext(name: Seq<char>) -> Option<Seq<char>> {
    match spec_extension(name) {
        Some(e) => Some(lower_of(e)),
        None => None,
    }
}

/// Extracts and lower-cases the extension of a base name.
pub fn lower_ext_of(name: &str) -> (r: Option<String>)
    ensures
        match r {
            Some(e) => spec_lower_ext(name@) == Some(e@),
            None => spec_lower_ext(name@) is None,
        },
{
    match extension_of(name) {
        Some(e) => Some(lowercase(e.as_str())),
        None => None,
    }
}

/// Whether the extension fast path says "always text".
pub open spec fn spec_ext_says_text(name: Seq<char>) -> bool {
    spec_lower_ext(name) matches Some(e) && spec_is_common_text_extension(e)
}

/// Whether the extension fast path says "always binary". The text list is
/// consulted first, so it wins if an extension were ever on both.
pub open spec fn spec_ext_says_binary(name: Seq<char>) -> bool {
    spec_lower_ext(name) matches Some(e) && !spec_is_common_text_extension(e)
        && spec_is_common_binary_extension(e)
}

/// Whether a file with base name `name` and contents `bytes` is treated as
/// textual: the extension fast path decides when it recognizes the
/// extension, and the content heuristic decides otherwise.
pub open spec fn spec_treat_as_text(name: Seq<char>, bytes: Seq<u8>) -> bool {
    spec_ext_says_text(name) || (!spec_ext_says_binary(name) && spec_is_text(bytes))
}

/// Decides whether a file reads as text, from its base name and its
/// contents: the extension fast path answers when it recognizes the
/// extension, and the content heuristic decides otherwise.
pub fn is_text_file(name: &str, data: &[u8]) -> (r: bool)
    ensures
        r == spec_treat_as_text(name@, data@),
{
    match lower_ext_of(name) {
        Some(ext) => {
            if is_common_text_extension(ext.as_str()) {
                true
            } else if is_common_binary_extension(ext.as_str()) {
                false
            } else {
                is_text(data)
            }
        },
        None => is_text(data),
    }
}

/// Classifies one file from its base name and full contents: textual files
/// decode to `Text`, recognized or heuristic binary files to `Binary`, and
/// textual files whose bytes are not valid UTF-8 to `Unreadable`.
pub fn classify(name: &str, data: &Vec<u8>) -> (r: Classification)
    ensures
        spec_treat_as_text(name@, data@) && valid_utf8(data@) ==> (r matches Classification::Text(
            s,
        ) && s@ == decode_utf8(data@)),
        spec_treat_as_text(name@, data@) && !valid_utf8(data@) ==> r is Unreadable,
        !spec_treat_as_text(name@, data@) ==> r is Binary,
{
    let treat_as_text: bool = is_text_file(name, data.as_slice());
    if treat_as_text {
        match utf8_to_string(data) {
            Some(content) => Classification::Text(content),
            None => Classification::Unreadable,
        }
    } else {
        Classification::Binary
    }
}

} // verus!
