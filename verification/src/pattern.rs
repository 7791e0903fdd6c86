//! Filename glob patterns, compiled once at configuration time.
//!
//! The glob language itself is supplied by the `glob` crate; this module
//! wraps compilation and matching behind exact names and adds the verified
//! fallback ladder for invalid patterns: a pattern that does not compile is
//! retried as a literal, character-escaped match (the bracket form glob's
//! own escaping uses, which matches exactly the input string), and if even
//! that fails the rule degrades to a pattern matching nothing.

use vstd::prelude::*;

verus! {

/// What `glob::Pattern::new` decides for a pattern source: whether the
/// source is well-formed glob syntax.
pub uninterp spec fn glob_compiles(pattern: Seq<char>) -> bool;

/// What `glob::Pattern::matches` returns for a pattern source and a name.
/// The result is a function of the two strings alone.
pub uninterp spec fn glob_matches(pattern: Seq<char>, name: Seq<char>) -> bool;

#[verifier::external_type_specification]
#[verifier::external_body]
pub struct ExPattern(glob::Pattern);

/// A compiled glob pattern together with the source text it was compiled
/// from. Both fields are set only by `compile`, so `compiled` is always the
/// compilation of `source`.
pub struct FilenamePattern {
    source: String,
    compiled: glob::Pattern,
}

impl View for FilenamePattern {
    type V = Seq<char>;

    /// The view of a compiled pattern is its source text.
    closed spec fn view(&self) -> Seq<char> {
        self.source@
    }
}

/// Relies on glob::Pattern::new: compilation succeeds exactly on well-formed
/// glob syntax, and the compiled value matches per the source text.
#[verifier::external_body]
fn compile(source: &str) -> (r: Option<FilenamePattern>)
    ensures
        r is Some <==> glob_compiles(source@),
        r matches Some(p) ==> p@ == source@,
{
    match glob::Pattern::new(source) {
        Ok(compiled) => Some(FilenamePattern { source: source.to_string(), compiled }),
        Err(_) => None,
    }
}

/// Relies on glob::Pattern::matches: the match result is a function of the
/// pattern source and the candidate name alone.
#[verifier::external_body]
fn pattern_matches(p: &FilenamePattern, name: &str) -> (r: bool)
    ensures
        r == glob_matches(p@, name@),
{
    p.compiled.matches(name)
}

impl FilenamePattern {
    /// Whether `name` matches this pattern.
    pub fn matches(&self, name: &str) -> (r: bool)
        ensures
            r == glob_matches(self@, name@),
    {
        pattern_matches(self, name)
    }
}

/// A filename rule as it stands after configuration: either a compiled
/// pattern, or the explicit safety fallback that matches no name at all.
pub enum PatternRule {
    Matches(FilenamePattern),
    Nothing,
}

/// What a configured pattern rule decides for a name.
pub open spec fn spec_rule_matches(rule: PatternRule, name: Seq<char>) -> bool {
    match rule {
        PatternRule::Matches(p) => glob_matches(p@, name),
        PatternRule::Nothing => false,
    }
}

impl PatternRule {
    /// Whether `name` passes this rule.
    pub fn matches(&self, name: &str) -> (r: bool)
        ensures
            r == spec_rule_matches(*self, name@),
    {
        match self {
            PatternRule::Matches(p) => p.matches(name),
            PatternRule::Nothing => false,
        }
    }
}

/// The characters that carry meaning in a glob pattern and are escaped when
/// a failed pattern is retried as a literal match: `!` needs none, being
/// special only inside brackets.
pub open spec fn is_glob_metachar(c: char) -> bool {
    c == '?' || c == '*' || c == '[' || c == ']'
}

/// The literal, character-escaped form of a pattern source: every glob
/// metacharacter is wrapped in a bracket set that matches only itself, the
/// form glob's own escaping produces, so the escaped pattern matches
/// exactly the original string.
pub open spec fn spec_escaped(s: Seq<char>) -> Seq<char>
    decreases s.len(),
{
    if s.len() == 0 {
        Seq::empty()
    } else {
        let rest = spec_escaped(s.skip(1));
        if is_glob_metachar(s[0]) {
            seq!['[', s[0], ']'] + rest
        } else {
            seq![s[0]] + rest
        }
    }
}

/// Escapes every glob metacharacter in `s` by wrapping it in brackets.
fn escape_pattern(s: &str) -> (r: String)
    ensures
        r@ == spec_escaped(s@),
{
    let n: usize = s.unicode_len();
    let mut out = String::new();
    let mut i: usize = 0;
    proof {
        assert(s@.skip(0) =~= s@);
        assert(out@ + spec_escaped(s@) =~= spec_escaped(s@));
    }
    while i < n
        invariant
            n == s@.len(),
            i <= n,
            out@ + spec_escaped(s@.skip(i as int)) == spec_escaped(s@),
        decreases n - i,
    {
        let c = s.get_char(i);
        proof {
            assert(s@.skip(i as int)[0] == c);
            assert(s@.skip(i as int).skip(1) =~= s@.skip(i + 1));
        }
        if c == '?' || c == '*' || c == '[' || c == ']' {
            let piece = s.substring_char(i, i + 1);
            proof {
                assert(piece@ =~= seq![c]);
                assert(("[")@ =~= seq!['[']) by {
                    reveal_strlit("[");
                }
                assert(("]")@ =~= seq![']']) by {
                    reveal_strlit("]");
                }
            }
            out.append("[");
            out.append(piece);
            out.append("]");
        } else {
            let piece = s.substring_char(i, i + 1);
            proof {
                assert(piece@ =~= seq![c]);
            }
            out.append(piece);
        }
        proof {
            assert(out@ + spec_escaped(s@.skip(i + 1)) =~= spec_escaped(s@));
        }
        i = i + 1;
    }
    proof {
        assert(s@.skip(n as int) =~= Seq::<char>::empty());
        assert(out@ =~= spec_escaped(s@));
    }
    out
}

/// Which rule configuration arrives at for a requested pattern source: the
/// compiled pattern itself when the source is well-formed, otherwise its
/// escaped literal form when that compiles, otherwise the match-nothing
/// fallback.
pub open spec fn rule_for_source(rule: PatternRule, source: Seq<char>) -> bool {
    if glob_compiles(source) {
        rule matches PatternRule::Matches(p) && p@ == source
    } else if glob_compiles(spec_escaped(source)) {
        rule matches PatternRule::Matches(p) && p@ == spec_escaped(source)
    } else {
        rule is Nothing
    }
}

/// Compiles a requested pattern source, degrading per the fallback ladder:
/// invalid syntax is retried as an escaped literal, and a source that still
/// fails yields the rule that matches nothing.
pub fn compile_rule(source: &str) -> (r: PatternRule)
    ensures
        rule_for_source(r, source@),
{
    match compile(source) {
        Some(p) => PatternRule::Matches(p),
        None => {
            let escaped = escape_pattern(source);
            match compile(escaped.as_str()) {
                Some(p) => PatternRule::Matches(p),
                None => PatternRule::Nothing,
            }
        },
    }
}

} // verus!
