use crate::text::chars_of;
use spreadsheet_to_json::simple_string_patterns::IsNumeric;
use vstd::prelude::*;

verus! {

/// Whether `c` is one of the ten ASCII digits.
pub open spec fn is_digit(c: char) -> bool {
    '0' <= c <= '9'
}

/// The number that an ASCII digit stands for.
pub open spec fn digit_value(c: char) -> int {
    c as int - '0' as int
}

/// Whether a text is made of ASCII digits only.
pub open spec fn all_digits(s: Seq<char>) -> bool {
    forall|i: int| 0 <= i < s.len() ==> is_digit(#[trigger] s[i])
}

/// The number written by a run of decimal digits, most significant first.
pub open spec fn digits_value(s: Seq<char>) -> int
    decreases s.len(),
{
    if s.len() == 0 {
        0
    } else {
        digits_value(s.drop_last()) * 10 + digit_value(s.last())
    }
}

/// Whether the character at `i` may stand where it does in a plain number:
/// a digit anywhere, a minus sign in front, or the first point if it is not
/// the last character.
pub open spec fn numeric_char_at(s: Seq<char>, i: int) -> bool {
    ||| is_digit(s[i])
    ||| (s[i] == '-' && i == 0)
    ||| (s[i] == '.' && i < s.len() - 1 && !s.subrange(0, i).contains('.'))
}

/// A text is lexically numeric when it is not empty and each of its
/// characters may stand where it does in a plain number.
pub open spec fn is_numeric_text(s: Seq<char>) -> bool {
    s.len() > 0 && forall|i: int| 0 <= i < s.len() ==> numeric_char_at(s, i)
}

/// Calls `IsNumeric::is_numeric`, which accepts a non-empty text made of
/// ASCII digits, with at most a leading minus sign and one decimal point
/// that is not the last character.
#[verifier::external_body]
pub(crate) fn is_numeric(s: &str) -> (r: bool)
    ensures
        r == is_numeric_text(s@),
{
    s.is_numeric()
}

/// The part of a number's text behind its sign, if it has one.
pub open spec fn unsigned_part(s: Seq<char>) -> Seq<char> {
    if s.len() > 0 && (s[0] == '+' || s[0] == '-') {
        s.subrange(1, s.len() as int)
    } else {
        s
    }
}

/// The integer that a text writes in decimal: an optional sign, then one or
/// more digits and nothing else.
pub open spec fn decimal_reading(s: Seq<char>) -> Option<int> {
    let body = unsigned_part(s);
    if body.len() == 0 || !all_digits(body) {
        None
    } else if s[0] == '-' {
        Some(-digits_value(body))
    } else {
        Some(digits_value(body))
    }
}

/// The integer that a text writes, where it lies between `lo` and `hi`.
pub open spec fn decimal_within(s: Seq<char>, lo: int, hi: int) -> Option<int> {
    match decimal_reading(s) {
        Some(v) => if lo <= v <= hi { Some(v) } else { None },
        None => None,
    }
}

pub proof fn lemma_digits_value_prefix(s: Seq<char>, k: int)
    requires
        all_digits(s),
        0 <= k <= s.len(),
    ensures
        0 <= digits_value(s.subrange(0, k)) <= digits_value(s),
    decreases s.len() - k,
{
    if k == s.len() {
        assert(s.subrange(0, k) =~= s);
        lemma_digits_value_nonnegative(s);
    } else {
        lemma_digits_value_prefix(s, k + 1);
        let t = s.subrange(0, k + 1);
        assert(t.drop_last() =~= s.subrange(0, k));
        assert(is_digit(s[k]));
        assert(t.last() == s[k]);
        lemma_digits_value_nonnegative(s.subrange(0, k));
    }
}

pub proof fn lemma_digits_value_nonnegative(s: Seq<char>)
    requires
        all_digits(s),
    ensures
        0 <= digits_value(s),
    decreases s.len(),
{
    if s.len() > 0 {
        lemma_digits_value_nonnegative(s.drop_last());
        assert(is_digit(s[s.len() - 1]));
    }
}

/// Reads a decimal integer between `lo` and `hi`.
#[verifier::loop_isolation(false)]
fn parse_decimal(s: &str, lo: i128, hi: i128) -> (r: Option<i128>)
    requires
        -0x1_0000_0000_0000_0000 <= lo <= 0 <= hi <= 0x1_0000_0000_0000_0000,
    ensures
        match r {
            Some(v) => decimal_within(s@, lo as int, hi as int) == Some(v as int),
            None => decimal_within(s@, lo as int, hi as int) is None,
        },
{
    let chars = chars_of(s);
    let n = chars.len();
    let mut start: usize = 0;
    let mut negative = false;
    if n > 0 && (chars[0] == '+' || chars[0] == '-') {
        start = 1;
        negative = chars[0] == '-';
    }
    let ghost body = unsigned_part(s@);
    assert(body =~= s@.subrange(start as int, n as int));
    if start == n {
        return None;
    }
    let mut acc: i128 = 0;
    let mut i: usize = start;
    while i < n
        invariant
            start <= i <= n,
            n == chars@.len(),
            chars@ == s@,
            body == s@.subrange(start as int, n as int),
            all_digits(body.subrange(0, i - start)),
            acc == digits_value(body.subrange(0, i - start)),
            0 <= acc <= 0x1_0000_0000_0000_0000,
        decreases n - i,
    {
        let c = chars[i];
        if !(c >= '0' && c <= '9') {
            assert(!is_digit(body[i - start]));
            return None;
        }
        let d: i128 = (c as u32 - '0' as u32) as i128;
        let ghost prefix = body.subrange(0, i - start + 1);
        assert(prefix.drop_last() =~= body.subrange(0, i - start));
        assert(prefix.last() == c);
        assert(all_digits(prefix)) by {
            assert forall|j: int| 0 <= j < prefix.len() implies is_digit(#[trigger] prefix[j]) by {
                if j < i - start {
                    assert(body.subrange(0, i - start)[j] == prefix[j]);
                }
            }
        }
        let next: i128 = acc * 10 + d;
        if next > 0x1_0000_0000_0000_0000 {
            proof {
                if all_digits(body) {
                    lemma_digits_value_prefix(body, i - start + 1);
                }
            }
            return None;
        }
        acc = next;
        i += 1;
    }
    assert(body.subrange(0, n - start) =~= body);
    let v: i128 = if negative { -acc } else { acc };
    if lo <= v && v <= hi {
        Some(v)
    } else {
        None
    }
}

/// Reads a decimal integer that fits in 64 bits with a sign.
pub fn parse_i64(s: &str) -> (r: Option<i64>)
    ensures
        match r {
            Some(v) => decimal_within(s@, i64::MIN as int, i64::MAX as int) == Some(v as int),
            None => decimal_within(s@, i64::MIN as int, i64::MAX as int) is None,
        },
{
    match parse_decimal(s, i64::MIN as i128, i64::MAX as i128) {
        Some(v) => Some(v as i64),
        None => None,
    }
}

/// Reads a decimal integer that fits in 32 bits with a sign.
pub fn parse_i32(s: &str) -> (r: Option<i32>)
    ensures
        match r {
            Some(v) => decimal_within(s@, i32::MIN as int, i32::MAX as int) == Some(v as int),
            None => decimal_within(s@, i32::MIN as int, i32::MAX as int) is None,
        },
{
    match parse_decimal(s, i32::MIN as i128, i32::MAX as i128) {
        Some(v) => Some(v as i32),
        None => None,
    }
}

/// Reads a decimal integer that fits in 64 bits without a sign; a minus
/// sign is refused, also in front of zero.
pub fn parse_u64(s: &str) -> (r: Option<u64>)
    ensures
        match r {
            Some(v) => s@.len() > 0 && s@[0] != '-' && decimal_within(s@, 0, u64::MAX as int)
                == Some(v as int),
            None => s@.len() == 0 || s@[0] == '-' || decimal_within(s@, 0, u64::MAX as int)
                is None,
        },
{
    if s.unicode_len() == 0 || s.get_char(0) == '-' {
        return None;
    }
    match parse_decimal(s, 0, u64::MAX as i128) {
        Some(v) => Some(v as u64),
        None => None,
    }
}

/// Reads a decimal integer that fits in a machine word without a sign; a
/// minus sign is refused, also in front of zero.
pub fn parse_usize(s: &str) -> (r: Option<usize>)
    ensures
        match r {
            Some(v) => s@.len() > 0 && s@[0] != '-' && decimal_within(s@, 0, usize::MAX as int)
                == Some(v as int),
            None => s@.len() == 0 || s@[0] == '-' || decimal_within(s@, 0, usize::MAX as int)
                is None,
        },
{
    if s.unicode_len() == 0 || s.get_char(0) == '-' {
        return None;
    }
    match parse_decimal(s, 0, usize::MAX as i128) {
        Some(v) => Some(v as usize),
        None => None,
    }
}

/// How many digits stand in a row from position `from` on.
pub open spec fn digit_run(s: Seq<char>, from: int) -> int
    decreases s.len() - from,
{
    if 0 <= from < s.len() && is_digit(s[from]) {
        1 + digit_run(s, from + 1)
    } else {
        0
    }
}

/// The code of a character, an upper-case ASCII letter counting as its
/// lower-case one.
pub open spec fn ascii_lower(c: char) -> int {
    if 'A' <= c <= 'Z' {
        c as int + 32
    } else {
        c as int
    }
}

/// Whether two texts are equal once ASCII letters are lower-cased.
pub open spec fn same_ignoring_ascii_case(s: Seq<char>, word: Seq<char>) -> bool {
    s.len() == word.len() && forall|i: int|
        0 <= i < s.len() ==> ascii_lower(#[trigger] s[i]) == ascii_lower(word[i])
}

/// Whether a text names infinity or not-a-number.
pub open spec fn is_special_float(s: Seq<char>) -> bool {
    ||| same_ignoring_ascii_case(s, seq!['i', 'n', 'f'])
    ||| same_ignoring_ascii_case(s, seq!['i', 'n', 'f', 'i', 'n', 'i', 't', 'y'])
    ||| same_ignoring_ascii_case(s, seq!['n', 'a', 'n'])
}

/// Whether the text from `from` to its end is a decimal exponent without its
/// letter: an optional sign and at least one digit.
pub open spec fn is_exponent_tail(s: Seq<char>, from: int) -> bool {
    let at = if from < s.len() && (s[from] == '+' || s[from] == '-') {
        from + 1
    } else {
        from
    };
    digit_run(s, at) >= 1 && at + digit_run(s, at) == s.len()
}

/// Whether a text without a sign is a decimal number: digits with at most
/// one point among them, at least one digit, and an optional exponent.
pub open spec fn is_plain_float(s: Seq<char>) -> bool {
    let whole = digit_run(s, 0);
    let has_point = whole < s.len() && s[whole] == '.';
    let fraction = if has_point {
        digit_run(s, whole + 1)
    } else {
        0
    };
    let end = whole + fraction + if has_point {
        1int
    } else {
        0int
    };
    &&& whole + fraction >= 1
    &&& (end == s.len() || ((s[end] == 'e' || s[end] == 'E') && is_exponent_tail(s, end + 1)))
}

/// Whether a text is a floating-point literal: an optional sign, then
/// `inf`, `infinity` or `nan` in any letter case, or a decimal number.
pub open spec fn is_float_text(s: Seq<char>) -> bool {
    let body = unsigned_part(s);
    is_special_float(body) || is_plain_float(body)
}

fn count_digits(s: &Vec<char>, from: usize) -> (r: usize)
    requires
        from <= s.len(),
    ensures
        r == digit_run(s@, from as int),
        from + r <= s.len(),
{
    let mut i: usize = from;
    while i < s.len() && s[i] >= '0' && s[i] <= '9'
        invariant
            from <= i <= s.len(),
            digit_run(s@, from as int) == (i - from) + digit_run(s@, i as int),
        decreases s.len() - i,
    {
        i += 1;
    }
    i - from
}

fn lower(c: char) -> (r: u32)
    ensures
        r == ascii_lower(c),
{
    if c >= 'A' && c <= 'Z' {
        c as u32 + 32
    } else {
        c as u32
    }
}

fn matches_word(s: &Vec<char>, from: usize, word: &Vec<char>) -> (r: bool)
    requires
        from <= s.len(),
    ensures
        r == same_ignoring_ascii_case(s@.subrange(from as int, s.len() as int), word@),
{
    if s.len() - from != word.len() {
        return false;
    }
    let ghost rest = s@.subrange(from as int, s.len() as int);
    let mut i: usize = 0;
    while i < word.len()
        invariant
            i <= word.len(),
            from <= s.len(),
            s.len() - from == word.len(),
            rest == s@.subrange(from as int, s.len() as int),
            forall|j: int| 0 <= j < i ==> ascii_lower(#[trigger] rest[j]) == ascii_lower(word@[j]),
        decreases word.len() - i,
    {
        if lower(s[from + i]) != lower(word[i]) {
            assert(rest[i as int] == s@[from + i]);
            return false;
        }
        assert(rest[i as int] == s@[from + i]);
        i += 1;
    }
    true
}

/// Decides whether a text is a floating-point literal.
pub fn is_float_literal(text: &str) -> (r: bool)
    ensures
        r == is_float_text(text@),
{
    let all = chars_of(text);
    let start: usize = if all.len() > 0 && (all[0] == '+' || all[0] == '-') {
        1
    } else {
        0
    };
    let ghost body = unsigned_part(text@);
    assert(body =~= all@.subrange(start as int, all.len() as int));
    let inf = vec!['i', 'n', 'f'];
    let infinity = vec!['i', 'n', 'f', 'i', 'n', 'i', 't', 'y'];
    let nan = vec!['n', 'a', 'n'];
    assert(inf@ =~= seq!['i', 'n', 'f']);
    assert(infinity@ =~= seq!['i', 'n', 'f', 'i', 'n', 'i', 't', 'y']);
    assert(nan@ =~= seq!['n', 'a', 'n']);
    if matches_word(&all, start, &inf) || matches_word(&all, start, &infinity) || matches_word(
        &all,
        start,
        &nan,
    ) {
        return true;
    }
    let s = tail_of(&all, start);
    assert(s@ == body);
    let n = s.len();
    let whole = count_digits(&s, 0);
    let has_point = whole < n && s[whole] == '.';
    let fraction = if has_point {
        count_digits(&s, whole + 1)
    } else {
        0
    };
    let end = whole + fraction + if has_point {
        1
    } else {
        0
    };
    if whole + fraction < 1 {
        return false;
    }
    if end == n {
        return true;
    }
    if !(s[end] == 'e' || s[end] == 'E') {
        return false;
    }
    let from = end + 1;
    let at = if from < n && (s[from] == '+' || s[from] == '-') {
        from + 1
    } else {
        from
    };
    let run = count_digits(&s, at);
    run >= 1 && at + run == n
}

fn tail_of(s: &Vec<char>, from: usize) -> (r: Vec<char>)
    requires
        from <= s.len(),
    ensures
        r@ == s@.subrange(from as int, s.len() as int),
{
    let mut out: Vec<char> = Vec::new();
    let mut i: usize = from;
    while i < s.len()
        invariant
            from <= i <= s.len(),
            out@ == s@.subrange(from as int, i as int),
        decreases s.len() - i,
    {
        out.push(s[i]);
        assert(s@.subrange(from as int, i as int).push(s@[i as int]) =~= s@.subrange(
            from as int,
            i + 1,
        ));
        i += 1;
    }
    out
}

} // verus!
