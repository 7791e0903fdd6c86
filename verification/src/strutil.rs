//! Verified string primitives the rest of the library is built on:
//! equality, substring containment, splitting on a separator, lexicographic
//! comparison, decimal formatting, and file-extension extraction.

use vstd::prelude::*;

verus! {

/// Whether `needle` occurs in `hay` starting at offset `i`.
pub open spec fn spec_contains_at(hay: Seq<char>, needle: Seq<char>, i: int) -> bool {
    0 <= i && i + needle.len() <= hay.len() && hay.subrange(i, i + needle.len()) == needle
}

/// Standard substring containment; an empty needle is contained in
/// everything, at offset 0.
pub open spec fn spec_contains(hay: Seq<char>, needle: Seq<char>) -> bool {
    exists|i: int| spec_contains_at(hay, needle, i)
}

/// Whether `s` begins with `prefix`.
pub open spec fn spec_starts_with(s: Seq<char>, prefix: Seq<char>) -> bool {
    prefix.len() <= s.len() && s.subrange(0, prefix.len() as int) == prefix
}

/// Character-for-character string equality.
pub fn str_eq(a: &str, b: &str) -> (r: bool)
    ensures
        r == (a@ == b@),
{
    let an: usize = a.unicode_len();
    let bn: usize = b.unicode_len();
    if an != bn {
        return false;
    }
    let mut i: usize = 0;
    while i < an
        invariant
            an == a@.len(),
            an == b@.len(),
            i <= an,
            forall|j: int| 0 <= j < i ==> a@[j] == b@[j],
        decreases an - i,
    {
        if a.get_char(i) != b.get_char(i) {
            return false;
        }
        i = i + 1;
    }
    proof {
        assert(a@ =~= b@);
    }
    true
}

/// Whether `needle` stands at offset `off` of `hay`.
fn matches_at(hay: &str, needle: &str, off: usize) -> (r: bool)
    requires
        hay@.len() <= usize::MAX,
        off + needle@.len() <= hay@.len(),
    ensures
        r == spec_contains_at(hay@, needle@, off as int),
{
    let nn: usize = needle.unicode_len();
    let mut j: usize = 0;
    while j < nn
        invariant
            nn == needle@.len(),
            hay@.len() <= usize::MAX,
            off + nn <= hay@.len(),
            j <= nn,
            forall|k: int| 0 <= k < j ==> hay@[off + k] == needle@[k],
        decreases nn - j,
    {
        if hay.get_char(off + j) != needle.get_char(j) {
            proof {
                let k = j as int;
                assert(hay@.subrange(off as int, off + nn)[k] == hay@[off + k]);
            }
            return false;
        }
        j = j + 1;
    }
    proof {
        assert(hay@.subrange(off as int, off + nn) =~= needle@);
    }
    true
}

/// Substring search; the result is exactly standard containment, so an
/// empty needle is always found.
pub fn str_contains(hay: &str, needle: &str) -> (r: bool)
    ensures
        r == spec_contains(hay@, needle@),
{
    let hn: usize = hay.unicode_len();
    let nn: usize = needle.unicode_len();
    if nn > hn {
        proof {
            assert(forall|i: int| !spec_contains_at(hay@, needle@, i));
        }
        return false;
    }
    if nn == 0 {
        proof {
            assert(hay@.subrange(0, 0) =~= needle@);
            assert(spec_contains_at(hay@, needle@, 0));
        }
        return true;
    }
    let mut off: usize = 0;
    while off <= hn - nn
        invariant
            hn == hay@.len(),
            nn == needle@.len(),
            1 <= nn <= hn,
            off <= hn - nn + 1,
            forall|i: int| 0 <= i < off ==> !spec_contains_at(hay@, needle@, i),
        decreases hn - off,
    {
        if matches_at(hay, needle, off) {
            return true;
        }
        off = off + 1;
    }
    proof {
        assert(forall|i: int| spec_contains_at(hay@, needle@, i) ==> 0 <= i < off);
    }
    false
}

/// Prefix test.
pub fn str_starts_with(s: &str, prefix: &str) -> (r: bool)
    ensures
        r == spec_starts_with(s@, prefix@),
{
    let sn: usize = s.unicode_len();
    let pn: usize = prefix.unicode_len();
    if pn > sn {
        return false;
    }
    matches_at(s, prefix, 0)
}

/// Whether some element of `v` reads as the string `s`.
pub fn vec_contains_str(v: &Vec<String>, s: &str) -> (r: bool)
    ensures
        r == v.deep_view().contains(s@),
{
    let mut i: usize = 0;
    while i < v.len()
        invariant
            i <= v.len(),
            forall|j: int| 0 <= j < i ==> v.deep_view()[j] != s@,
        decreases v.len() - i,
    {
        assert(v.deep_view()[i as int] == v@[i as int]@);
        if str_eq(v[i].as_str(), s) {
            assert(v.deep_view()[i as int] == s@);
            return true;
        }
        i = i + 1;
    }
    false
}

/// How `s` splits on the separator `sep`: the pieces between occurrences,
/// in order, empty pieces kept. The result always has at least one piece;
/// splitting the empty string yields one empty piece.
pub open spec fn spec_split(s: Seq<char>, sep: char) -> Seq<Seq<char>>
    decreases s.len(),
{
    if s.len() == 0 {
        seq![Seq::<char>::empty()]
    } else {
        let rest = spec_split(s.skip(1), sep);
        if s[0] == sep {
            seq![Seq::<char>::empty()] + rest
        } else {
            seq![seq![s[0]] + rest[0]] + rest.skip(1)
        }
    }
}

pub proof fn lemma_split_len(s: Seq<char>, sep: char)
    ensures
        spec_split(s, sep).len() >= 1,
    decreases s.len(),
{
    if s.len() != 0 {
        lemma_split_len(s.skip(1), sep);
    }
}

/// Extending the input by one character extends the split: a separator
/// opens a new empty piece, any other character lands on the last piece.
proof fn lemma_split_snoc(s: Seq<char>, c: char, sep: char)
    ensures
        c == sep ==> spec_split(s + seq![c], sep) == spec_split(s, sep) + seq![
            Seq::<char>::empty(),
        ],
        c != sep ==> spec_split(s + seq![c], sep) == spec_split(s, sep).update(
            spec_split(s, sep).len() - 1,
            spec_split(s, sep).last() + seq![c],
        ),
    decreases s.len(),
{
    lemma_split_len(s, sep);
    let t = s + seq![c];
    if s.len() == 0 {
        assert(t.len() == 1);
        assert(t[0] == c);
        assert(t.skip(1) =~= Seq::<char>::empty());
        assert(spec_split(Seq::<char>::empty(), sep) == seq![Seq::<char>::empty()]);
        assert(s =~= Seq::<char>::empty());
        if c == sep {
            assert(spec_split(t, sep) =~= spec_split(s, sep) + seq![Seq::<char>::empty()]);
        } else {
            assert(spec_split(t, sep) =~~= spec_split(s, sep).update(
                0,
                spec_split(s, sep).last() + seq![c],
            ));
        }
    } else {
        lemma_split_snoc(s.skip(1), c, sep);
        lemma_split_len(s.skip(1), sep);
        assert(t[0] == s[0]);
        assert(t.skip(1) =~= s.skip(1) + seq![c]);
        let rest = spec_split(s.skip(1), sep);
        let rest2 = spec_split(t.skip(1), sep);
        if c == sep {
            assert(rest2 == rest + seq![Seq::<char>::empty()]);
            if s[0] == sep {
                assert(spec_split(t, sep) =~= spec_split(s, sep) + seq![Seq::<char>::empty()]);
            } else {
                assert(rest2[0] == rest[0]);
                assert(rest2.skip(1) =~= rest.skip(1) + seq![Seq::<char>::empty()]);
                assert(spec_split(t, sep) =~= spec_split(s, sep) + seq![Seq::<char>::empty()]);
            }
        } else {
            let last = rest.last() + seq![c];
            assert(rest2 == rest.update(rest.len() - 1, last));
            if s[0] == sep {
                assert(spec_split(s, sep).last() == rest.last());
                assert(spec_split(t, sep) =~= spec_split(s, sep).update(
                    spec_split(s, sep).len() - 1,
                    spec_split(s, sep).last() + seq![c],
                ));
            } else {
                if rest.len() == 1 {
                    assert(rest2[0] == last);
                    assert(spec_split(t, sep) =~~= spec_split(s, sep).update(
                        spec_split(s, sep).len() - 1,
                        spec_split(s, sep).last() + seq![c],
                    ));
                } else {
                    assert(rest2[0] == rest[0]);
                    assert(rest2.skip(1) =~= rest.skip(1).update(
                        rest.skip(1).len() - 1,
                        rest.skip(1).last() + seq![c],
                    ));
                    assert(spec_split(t, sep) =~~= spec_split(s, sep).update(
                        spec_split(s, sep).len() - 1,
                        spec_split(s, sep).last() + seq![c],
                    ));
                }
            }
        }
    }
}

/// Splits `s` on `sep`, keeping empty pieces, exactly as `spec_split`
/// describes.
pub fn split_on(s: &str, sep: char) -> (r: Vec<String>)
    ensures
        r.deep_view() == spec_split(s@, sep),
        r.len() >= 1,
{
    let n: usize = s.unicode_len();
    let mut done: Vec<String> = Vec::new();
    let mut cur: String = String::new();
    let mut i: usize = 0;
    proof {
        assert(s@.take(0) =~= Seq::<char>::empty());
        assert(spec_split(Seq::<char>::empty(), sep) =~= seq![Seq::<char>::empty()]);
        assert(done.deep_view() + seq![cur@] =~= spec_split(s@.take(0), sep));
    }
    while i < n
        invariant
            n == s@.len(),
            i <= n,
            done.deep_view() + seq![cur@] == spec_split(s@.take(i as int), sep),
        decreases n - i,
    {
        let c = s.get_char(i);
        proof {
            assert(s@.take(i + 1) =~= s@.take(i as int) + seq![c]);
            lemma_split_snoc(s@.take(i as int), c, sep);
            lemma_split_len(s@.take(i as int), sep);
        }
        let ghost prev = spec_split(s@.take(i as int), sep);
        if c == sep {
            done.push(cur);
            cur = String::new();
            proof {
                assert(done.deep_view() + seq![cur@] =~= prev + seq![Seq::<char>::empty()]);
            }
        } else {
            let piece = s.substring_char(i, i + 1);
            proof {
                assert(piece@ =~= seq![c]);
                assert(prev.last() == cur@);
            }
            cur.append(piece);
            proof {
                assert(done.deep_view() + seq![cur@] =~= prev.update(
                    prev.len() - 1,
                    prev.last() + seq![c],
                ));
            }
        }
        i = i + 1;
    }
    proof {
        assert(s@.take(n as int) =~= s@);
    }
    done.push(cur);
    proof {
        assert(done.deep_view() =~= spec_split(s@, sep));
    }
    done
}

/// Lexicographic order on character sequences, by code point; a proper
/// prefix comes first.
pub open spec fn lex_le(a: Seq<char>, b: Seq<char>) -> bool
    decreases a.len(),
{
    if a.len() == 0 {
        true
    } else if b.len() == 0 {
        false
    } else if (a[0] as u32) < (b[0] as u32) {
        true
    } else if (a[0] as u32) > (b[0] as u32) {
        false
    } else {
        lex_le(a.skip(1), b.skip(1))
    }
}

pub proof fn lemma_lex_le_total(a: Seq<char>, b: Seq<char>)
    ensures
        lex_le(a, b) || lex_le(b, a),
    decreases a.len(),
{
    if a.len() != 0 && b.len() != 0 && (a[0] as u32) == (b[0] as u32) {
        lemma_lex_le_total(a.skip(1), b.skip(1));
    }
}

pub proof fn lemma_lex_le_trans(a: Seq<char>, b: Seq<char>, c: Seq<char>)
    requires
        lex_le(a, b),
        lex_le(b, c),
    ensures
        lex_le(a, c),
    decreases a.len(),
{
    if a.len() != 0 && b.len() != 0 && c.len() != 0 && (a[0] as u32) == (b[0] as u32) && (
    b[0] as u32) == (c[0] as u32) {
        lemma_lex_le_trans(a.skip(1), b.skip(1), c.skip(1));
    }
}

/// Lexicographic comparison, `a` not after `b`.
pub fn str_le(a: &str, b: &str) -> (r: bool)
    ensures
        r == lex_le(a@, b@),
{
    let an: usize = a.unicode_len();
    let bn: usize = b.unicode_len();
    let mut i: usize = 0;
    proof {
        assert(a@.skip(0) =~= a@);
        assert(b@.skip(0) =~= b@);
    }
    loop
        invariant
            an == a@.len(),
            bn == b@.len(),
            i <= an,
            i <= bn,
            lex_le(a@, b@) == lex_le(a@.skip(i as int), b@.skip(i as int)),
        decreases an - i,
    {
        if i == an {
            return true;
        }
        if i == bn {
            return false;
        }
        let ca = a.get_char(i);
        let cb = b.get_char(i);
        proof {
            assert(a@.skip(i as int)[0] == ca);
            assert(b@.skip(i as int)[0] == cb);
        }
        if (ca as u32) < (cb as u32) {
            return true;
        }
        if (ca as u32) > (cb as u32) {
            return false;
        }
        proof {
            assert(a@.skip(i as int).skip(1) =~= a@.skip(i + 1));
            assert(b@.skip(i as int).skip(1) =~= b@.skip(i + 1));
        }
        i = i + 1;
    }
}

/// The character for one decimal digit.
pub open spec fn spec_digit_char(d: int) -> char {
    if d == 0 {
        '0'
    } else if d == 1 {
        '1'
    } else if d == 2 {
        '2'
    } else if d == 3 {
        '3'
    } else if d == 4 {
        '4'
    } else if d == 5 {
        '5'
    } else if d == 6 {
        '6'
    } else if d == 7 {
        '7'
    } else if d == 8 {
        '8'
    } else {
        '9'
    }
}

/// The decimal rendering of a number, no leading zeros except for 0 itself.
pub open spec fn spec_u64_string(n: nat) -> Seq<char>
    decreases n,
{
    if n < 10 {
        seq![spec_digit_char(n as int)]
    } else {
        spec_u64_string(n / 10) + seq![spec_digit_char((n % 10) as int)]
    }
}

fn digit_str(d: u64) -> (r: &'static str)
    requires
        d < 10,
    ensures
        r@ == seq![spec_digit_char(d as int)],
{
    proof {
        reveal_strlit("0");
        reveal_strlit("1");
        reveal_strlit("2");
        reveal_strlit("3");
        reveal_strlit("4");
        reveal_strlit("5");
        reveal_strlit("6");
        reveal_strlit("7");
        reveal_strlit("8");
        reveal_strlit("9");
    }
    let r = match d {
        0 => "0",
        1 => "1",
        2 => "2",
        3 => "3",
        4 => "4",
        5 => "5",
        6 => "6",
        7 => "7",
        8 => "8",
        _ => "9",
    };
    proof {
        assert(r@ =~= seq![spec_digit_char(d as int)]);
    }
    r
}

/// Renders `n` in decimal.
pub fn u64_to_string(n: u64) -> (r: String)
    ensures
        r@ == spec_u64_string(n as nat),
    decreases n,
{
    if n < 10 {
        let d = digit_str(n);
        let r = d.to_owned();
        r
    } else {
        let mut r = u64_to_string(n / 10);
        let d = digit_str(n % 10);
        r.append(d);
        r
    }
}

/// What `str::to_lowercase` returns: the Unicode lower-cased form of a
/// string, a function of its characters alone.
pub uninterp spec fn lower_of(s: Seq<char>) -> Seq<char>;

/// The ASCII lower-case mapping: A through Z drop to a through z, every
/// other character stands.
pub open spec fn spec_ascii_lower_char(c: char) -> char {
    if 65 <= c as u32 <= 90 {
        (((c as u32) + 32) as u8) as char
    } else {
        c
    }
}

/// Whether a character is ASCII.
pub open spec fn is_ascii_char(c: char) -> bool {
    (c as u32) < 128
}

/// Whether every character of `s` is ASCII.
pub open spec fn spec_all_ascii(s: Seq<char>) -> bool {
    forall|i: int| 0 <= i < s.len() ==> is_ascii_char(#[trigger] s[i])
}

/// Relies on str::to_lowercase: the result depends on the characters alone,
/// an empty string lower-cases to an empty string, and on ASCII input the
/// Unicode mapping coincides with pointwise ASCII lower-casing.
#[verifier::external_body]
pub(crate) fn lowercase(s: &str) -> (r: String)
    ensures
        r@ == lower_of(s@),
        s@.len() == 0 ==> r@.len() == 0,
        spec_all_ascii(s@) ==> r@ == s@.map_values(|c: char| spec_ascii_lower_char(c)),
{
    s.to_lowercase()
}

/// The index of the last `.` in `s`, or -1 when there is none.
pub open spec fn spec_last_dot(s: Seq<char>) -> int
    decreases s.len(),
{
    if s.len() == 0 {
        -1
    } else if s.last() == '.' {
        s.len() - 1
    } else {
        spec_last_dot(s.drop_last())
    }
}

pub proof fn lemma_last_dot(s: Seq<char>)
    ensures
        -1 <= spec_last_dot(s) < s.len(),
        spec_last_dot(s) >= 0 ==> s[spec_last_dot(s)] == '.',
        forall|j: int| spec_last_dot(s) < j < s.len() ==> s[j] != '.',
    decreases s.len(),
{
    if s.len() != 0 && s.last() != '.' {
        lemma_last_dot(s.drop_last());
        assert(forall|j: int|
            spec_last_dot(s.drop_last()) < j < s.len() - 1 ==> s.drop_last()[j] == s[j]);
    }
}

/// The file extension of a base name: the text after the last `.`, except
/// that a leading dot alone does not begin an extension, so a name like
/// `.profile` has none.
pub open spec fn spec_extension(name: Seq<char>) -> Option<Seq<char>> {
    let i = spec_last_dot(name);
    if i >= 1 {
        Some(name.skip(i + 1))
    } else {
        None
    }
}

/// Extracts the extension of a base name, as `spec_extension` describes.
pub fn extension_of(name: &str) -> (r: Option<String>)
    ensures
        r is Some <==> spec_extension(name@) is Some,
        r matches Some(e) ==> Some(e@) == spec_extension(name@),
{
    let n: usize = name.unicode_len();
    let mut i: usize = n;
    while i > 0
        invariant
            n == name@.len(),
            i <= n,
            forall|j: int| i <= j < n ==> name@[j] != '.',
        decreases i,
    {
        let c = name.get_char(i - 1);
        if c == '.' {
            proof {
                lemma_last_dot(name@);
                assert(name@[i - 1] == '.');
                assert(spec_last_dot(name@) == i - 1);
            }
            if i - 1 >= 1 {
                let ext = name.substring_char(i, n);
                proof {
                    assert(ext@ =~= name@.skip(i as int));
                }
                return Some(ext.to_owned());
            } else {
                return None;
            }
        }
        i = i - 1;
    }
    proof {
        lemma_last_dot(name@);
        assert(spec_last_dot(name@) == -1);
    }
    None
}

} // verus!
