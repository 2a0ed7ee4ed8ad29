use spreadsheet_to_json::simple_string_patterns::{SimpleMatch, StripCharacters};
use to_segments::ToSegments;
use vstd::prelude::*;
use vstd::string::StringExecFns;

verus! {

/// `==` on string slices compares their characters.
pub assume_specification[ <str as PartialEq>::eq ](a: &str, b: &str) -> (r: bool)
    ensures
        r == (a@ == b@),
;

/// `String::push` appends one character.
pub assume_specification[ std::string::String::push ](s: &mut std::string::String, c: char)
    ensures
        final(s)@ == old(s)@.push(c),
;

/// What `str::trim` leaves of a text: the text without its leading and
/// trailing Unicode white space.
pub uninterp spec fn trimmed(s: Seq<char>) -> Seq<char>;

/// What `str::to_lowercase` makes of a text under Unicode's lower-casing rules.
pub uninterp spec fn lowercased(s: Seq<char>) -> Seq<char>;

/// What `strip_non_alphanum` keeps of a text: its alphanumeric characters, in order.
pub uninterp spec fn alphanumeric_only(s: Seq<char>) -> Seq<char>;

/// Whether `starts_with_ci` finds `prefix` at the start of `s`, letter case aside.
pub uninterp spec fn starts_with_ignoring_case(s: Seq<char>, prefix: Seq<char>) -> bool;

/// The texts between the occurrences of `sep` in `s`, the empty ones too:
/// one more than there are occurrences.
pub open spec fn split_on(s: Seq<char>, sep: char) -> Seq<Seq<char>>
    decreases s.len(),
{
    if s.len() == 0 {
        seq![Seq::empty()]
    } else {
        let before = split_on(s.drop_last(), sep);
        if s.last() == sep {
            before.push(Seq::empty())
        } else {
            before.update(before.len() - 1, before.last().push(s.last()))
        }
    }
}

/// What each text of a list holds.
pub open spec fn texts_view(texts: Seq<String>) -> Seq<Seq<char>> {
    Seq::new(texts.len(), |i: int| texts[i]@)
}

/// Calls `ToSegments::to_parts` with a comma, which splits the text at each
/// comma as `str::split` does and keeps every part.
#[verifier::external_body]
pub(crate) fn to_parts(s: &str) -> (r: Vec<String>)
    ensures
        texts_view(r@) == split_on(s@, ','),
{
    s.to_parts(",")
}

/// What `is_truthy_standard` reads from a text, an empty text not counting
/// as false: a truth value, or none where the text is no known word for one.
pub uninterp spec fn truthy_reading(s: Seq<char>) -> Option<bool>;

/// Calls `is_truthy::is_truthy_standard`, which knows `true`, `false`, the
/// numbers 0 and 1 and common words such as `yes` and `no`, letter case and
/// surrounding white space aside. The result is what `truthy_reading` names.
#[verifier::external_body]
pub(crate) fn is_truthy(s: &str) -> (r: Option<bool>)
    ensures
        r == truthy_reading(s@),
{
    spreadsheet_to_json::is_truthy::is_truthy_standard(s, false)
}

/// Calls `str::trim`; the result is the text that `trimmed` names.
#[verifier::external_body]
pub(crate) fn trim(s: &str) -> (r: &str)
    ensures
        r@ == trimmed(s@),
{
    s.trim()
}

/// Calls `str::to_lowercase`; the result is the text that `lowercased` names.
#[verifier::external_body]
pub(crate) fn to_lowercase(s: &str) -> (r: String)
    ensures
        r@ == lowercased(s@),
{
    s.to_lowercase()
}

/// Calls `StripCharacters::strip_non_alphanum`, which keeps the characters for
/// which `char::is_alphanumeric` holds; the result is the text that
/// `alphanumeric_only` names.
#[verifier::external_body]
pub(crate) fn strip_non_alphanum(s: &str) -> (r: String)
    ensures
        r@ == alphanumeric_only(s@),
{
    s.strip_non_alphanum()
}

/// Calls `SimpleMatch::starts_with_ci`; the result is what
/// `starts_with_ignoring_case` names.
#[verifier::external_body]
pub(crate) fn starts_with_ci(s: &str, prefix: &str) -> (r: bool)
    ensures
        r == starts_with_ignoring_case(s@, prefix@),
{
    s.starts_with_ci(prefix)
}

/// The characters of a text, one by one.
pub fn chars_of(s: &str) -> (r: Vec<char>)
    ensures
        r@ == s@,
{
    let mut out: Vec<char> = Vec::new();
    let n = s.unicode_len();
    let mut i: usize = 0;
    while i < n
        invariant
            n == s@.len(),
            i <= n,
            out@ == s@.subrange(0, i as int),
        decreases n - i,
    {
        out.push(s.get_char(i));
        assert(s@.subrange(0, i as int).push(s@[i as int]) =~= s@.subrange(0, i + 1));
        i += 1;
    }
    assert(s@.subrange(0, n as int) =~= s@);
    out
}

/// The text made of the given characters.
pub fn text_of(chars: &Vec<char>) -> (r: String)
    ensures
        r@ == chars@,
{
    let mut out = String::new();
    let mut i: usize = 0;
    while i < chars.len()
        invariant
            i <= chars.len(),
            out@ == chars@.subrange(0, i as int),
        decreases chars.len() - i,
    {
        out.push(chars[i]);
        assert(chars@.subrange(0, i as int).push(chars@[i as int]) =~= chars@.subrange(0, i + 1));
        i += 1;
    }
    assert(chars@.subrange(0, chars.len() as int) =~= chars@);
    out
}

/// `a` followed by `b`.
pub fn concat(a: &str, b: &str) -> (r: String)
    ensures
        r@ == a@ + b@,
{
    let mut out = a.to_owned();
    out.append(b);
    out
}

/// Whether `s` begins with `prefix`, character for character.
pub open spec fn has_prefix(s: Seq<char>, prefix: Seq<char>) -> bool {
    prefix.len() <= s.len() && s.subrange(0, prefix.len() as int) == prefix
}

/// Whether a text begins with another, character for character.
pub fn starts_with(s: &Vec<char>, prefix: &str) -> (r: bool)
    ensures
        r == has_prefix(s@, prefix@),
{
    let p = chars_of(prefix);
    if p.len() > s.len() {
        return false;
    }
    let mut i: usize = 0;
    while i < p.len()
        invariant
            i <= p.len(),
            p.len() <= s.len(),
            p@ == prefix@,
            s@.subrange(0, i as int) == p@.subrange(0, i as int),
        decreases p.len() - i,
    {
        if s[i] != p[i] {
            assert(s@.subrange(0, p.len() as int)[i as int] != p@[i as int]);
            return false;
        }
        assert(s@.subrange(0, i + 1) =~= s@.subrange(0, i as int).push(s@[i as int]));
        assert(p@.subrange(0, i + 1) =~= p@.subrange(0, i as int).push(p@[i as int]));
        i += 1;
    }
    assert(p@.subrange(0, p.len() as int) =~= p@);
    true
}

} // verus!
