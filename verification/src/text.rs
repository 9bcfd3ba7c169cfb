use vstd::prelude::*;
use vstd::utf8::*;
use vstd::string::StringSliceAdditionalSpecFns;

verus! {

broadcast use encode_utf8_decode_utf8;

/// Whether two string slices hold the same characters.
pub fn str_eq(a: &str, b: &str) -> (equal: bool)
    ensures
        equal == (a@ == b@),
{
    let x = a.as_bytes();
    let y = b.as_bytes();
    if x.len() != y.len() {
        return false;
    }
    let mut i: usize = 0;
    while i < x.len()
        invariant
            x@ == a.spec_bytes(),
            y@ == b.spec_bytes(),
            x@.len() == y@.len(),
            i <= x@.len(),
            forall|j: int| 0 <= j < i ==> x@[j] == y@[j],
        decreases x@.len() - i,
    {
        if x[i] != y[i] {
            return false;
        }
        i = i + 1;
    }
    assert(x@ =~= y@);
    assert(decode_utf8(encode_utf8(a@)) == a@);
    assert(decode_utf8(encode_utf8(b@)) == b@);
    true
}

/// The characters of a string slice, in order.
pub fn chars_of(s: &str) -> (chars: Vec<char>)
    ensures
        chars@ == s@,
{
    let mut chars: Vec<char> = Vec::new();
    for c in it: s.chars()
        invariant
            chars@ == it.seq().take(it.index() as int),
            it.seq() == s@,
    {
        chars.push(c);
    }
    chars
}

/// Whether a character is an ASCII decimal digit.
pub open spec fn is_decimal_digit(c: char) -> bool {
    '0' <= c && c <= '9'
}

/// The value of a run of decimal digits, most significant first.
pub open spec fn decimal_value(digits: Seq<char>) -> nat
    decreases digits.len(),
{
    if digits.len() == 0 {
        0
    } else {
        10 * decimal_value(digits.drop_last()) + ((digits.last() as nat) - ('0' as nat)) as nat
    }
}

/// The digits of an unsigned decimal number as Rust's `FromStr` reads
/// them: an optional leading `+` is dropped.
pub open spec fn unsigned_digits(s: Seq<char>) -> Seq<char> {
    if s.len() > 0 && s[0] == '+' {
        s.drop_first()
    } else {
        s
    }
}

/// What Rust's `FromStr` for an unsigned integer type whose largest value
/// is `max` gives back: a value when the text is an optional `+` followed
/// by at least one decimal digit and the number does not exceed `max`.
pub open spec fn parse_unsigned(s: Seq<char>, max: nat) -> Option<nat> {
    let digits = unsigned_digits(s);
    if digits.len() > 0 && (forall|i: int| 0 <= i < digits.len() ==> is_decimal_digit(
        #[trigger] digits[i],
    )) && decimal_value(digits) <= max {
        Some(decimal_value(digits))
    } else {
        None
    }
}

proof fn lemma_decimal_value_monotone(digits: Seq<char>, i: int)
    requires
        0 <= i <= digits.len(),
        forall|k: int| 0 <= k < digits.len() ==> is_decimal_digit(#[trigger] digits[k]),
    ensures
        decimal_value(digits.subrange(0, i)) <= decimal_value(digits),
    decreases digits.len() - i,
{
    if i < digits.len() {
        let prefix = digits.subrange(0, i + 1);
        lemma_decimal_value_monotone(digits, i + 1);
        assert(prefix.drop_last() =~= digits.subrange(0, i));
        assert(prefix.last() == digits[i]);
    } else {
        assert(digits.subrange(0, i) =~= digits);
    }
}

proof fn lemma_step_exceeds(value: int, d: int, max: int)
    requires
        0 <= value,
        0 <= d,
        0 <= max,
        d > max || value > (max - d) / 10,
    ensures
        10 * value + d > max,
{
    if d <= max {
        assert(10 * value + d > max) by (nonlinear_arith)
            requires
                0 <= d <= max,
                value > (max - d) / 10,
        ;
    }
}

proof fn lemma_step_fits(value: int, d: int, max: int)
    requires
        0 <= value,
        0 <= d <= max,
        value <= (max - d) / 10,
    ensures
        10 * value + d <= max,
{
    assert(10 * value + d <= max) by (nonlinear_arith)
        requires
            0 <= d <= max,
            0 <= value <= (max - d) / 10,
    ;
}

/// Reads an unsigned decimal number no larger than `max`, as Rust's
/// `FromStr` for unsigned integers does.
pub fn parse_unsigned_decimal(s: &str, max: u64) -> (value: Option<u64>)
    ensures
        match parse_unsigned(s@, max as nat) {
            Some(v) => value == Some(v as u64),
            None => value is None,
        },
{
    let chars = chars_of(s);
    let mut start: usize = 0;
    if chars.len() > 0 && chars[0] == '+' {
        start = 1;
    }
    let ghost digits = unsigned_digits(s@);
    assert(digits =~= chars@.subrange(start as int, chars@.len() as int));
    if start >= chars.len() {
        return None;
    }
    let mut value: u64 = 0;
    let mut i: usize = start;
    while i < chars.len()
        invariant
            chars@ == s@,
            start <= i <= chars@.len(),
            digits == chars@.subrange(start as int, chars@.len() as int),
            digits == unsigned_digits(s@),
            forall|k: int| start <= k < i ==> is_decimal_digit(#[trigger] chars@[k]),
            value as nat == decimal_value(chars@.subrange(start as int, i as int)),
            value <= max,
        decreases chars@.len() - i,
    {
        let c = chars[i];
        if !('0' <= c && c <= '9') {
            assert(!is_decimal_digit(digits[i - start]));
            return None;
        }
        let d: u64 = (c as u64) - ('0' as u64);
        let ghost prefix = chars@.subrange(start as int, i + 1);
        assert(prefix.drop_last() =~= chars@.subrange(start as int, i as int));
        assert(prefix.last() == c);
        if d > max || value > (max - d) / 10 {
            proof {
                assert(decimal_value(prefix) == 10 * value + d);
                lemma_step_exceeds(value as int, d as int, max as int);
                if forall|k: int| 0 <= k < digits.len() ==> is_decimal_digit(#[trigger] digits[k]) {
                    lemma_decimal_value_monotone(digits, i + 1 - start);
                    assert(digits.subrange(0, i + 1 - start) =~= prefix);
                }
            }
            return None;
        }
        proof {
            lemma_step_fits(value as int, d as int, max as int);
        }
        value = value * 10 + d;
        i = i + 1;
    }
    assert(chars@.subrange(start as int, i as int) =~= digits);
    Some(value)
}

/// Whether a character has the Unicode `White_Space` property, the test
/// that `char::is_whitespace` and `str::trim_start` use.
pub open spec fn is_unicode_whitespace(c: char) -> bool {
    ('\u{9}' <= c && c <= '\u{d}') || c == ' ' || c == '\u{85}' || c == '\u{a0}' || c
        == '\u{1680}' || ('\u{2000}' <= c && c <= '\u{200a}') || c == '\u{2028}' || c
        == '\u{2029}' || c == '\u{202f}' || c == '\u{205f}' || c == '\u{3000}'
}

/// Whether a character has the Unicode `White_Space` property.
pub fn is_whitespace(c: char) -> (ws: bool)
    ensures
        ws == is_unicode_whitespace(c),
{
    ('\u{9}' <= c && c <= '\u{d}') || c == ' ' || c == '\u{85}' || c == '\u{a0}' || c
        == '\u{1680}' || ('\u{2000}' <= c && c <= '\u{200a}') || c == '\u{2028}' || c
        == '\u{2029}' || c == '\u{202f}' || c == '\u{205f}' || c == '\u{3000}'
}

/// The index of the first occurrence of `pattern` in `s` at or after
/// `from`, if there is one.
pub open spec fn find_from(s: Seq<char>, pattern: Seq<char>, from: int) -> Option<int>
    decreases s.len() + 1 - from,
{
    if from < 0 || from + pattern.len() > s.len() {
        None
    } else if s.subrange(from, from + pattern.len()) == pattern {
        Some(from)
    } else {
        find_from(s, pattern, from + 1)
    }
}

/// The index of the first occurrence of `pattern` in `s`, if there is one.
pub open spec fn find_seq(s: Seq<char>, pattern: Seq<char>) -> Option<int> {
    find_from(s, pattern, 0)
}

/// The first position at or after `from` that does not hold whitespace
/// (the length of `s` when there is none).
pub open spec fn first_non_whitespace(s: Seq<char>, from: int) -> int
    decreases s.len() - from,
{
    if 0 <= from < s.len() && is_unicode_whitespace(s[from]) {
        first_non_whitespace(s, from + 1)
    } else {
        from
    }
}

proof fn lemma_find_from_bounds(s: Seq<char>, pattern: Seq<char>, from: int)
    ensures
        find_from(s, pattern, from) matches Some(i) ==> from <= i && i + pattern.len() <= s.len()
            && s.subrange(i, i + pattern.len()) == pattern,
        from >= 0 ==> (find_from(s, pattern, from) matches Some(i) ==> forall|j: int|
            from <= j < i ==> #[trigger] s.subrange(j, j + pattern.len()) != pattern),
    decreases s.len() + 1 - from,
{
    if from < 0 || from + pattern.len() > s.len() {
    } else if s.subrange(from, from + pattern.len()) == pattern {
    } else {
        lemma_find_from_bounds(s, pattern, from + 1);
    }
}

/// Finds the first occurrence of `pattern` in `s` at or after `from`.
pub fn find_chars(s: &Vec<char>, pattern: &Vec<char>, from: usize) -> (found: Option<usize>)
    ensures
        found matches Some(i) ==> find_from(s@, pattern@, from as int) == Some(i as int),
        found is None ==> find_from(s@, pattern@, from as int) is None,
{
    let mut i = from;
    while i <= s.len() && pattern.len() <= s.len() - i
        invariant
            from <= i,
            find_from(s@, pattern@, from as int) == find_from(s@, pattern@, i as int),
        decreases s@.len() + 1 - i,
    {
        let mut k: usize = 0;
        let mut same = true;
        while k < pattern.len()
            invariant
                i + pattern@.len() <= s@.len(),
                s@.len() == s.len(),
                k <= pattern@.len(),
                same == (forall|m: int| 0 <= m < k ==> s@[i + m] == pattern@[m]),
            decreases pattern@.len() - k,
        {
            if s[i + k] != pattern[k] {
                same = false;
            }
            k = k + 1;
        }
        if same {
            assert(s@.subrange(i as int, i + pattern@.len()) =~= pattern@);
            return Some(i);
        }
        assert(exists|m: int| 0 <= m < pattern@.len() && s@[i + m] != pattern@[m]);
        let ghost m = choose|m: int| 0 <= m < pattern@.len() && s@[i + m] != pattern@[m];
        assert(s@.subrange(i as int, i + pattern@.len())[m] != pattern@[m]);
        i = i + 1;
    }
    None
}

/// The first position at or after `from` that does not hold whitespace.
pub fn skip_whitespace(s: &Vec<char>, from: usize) -> (next: usize)
    requires
        from <= s@.len(),
    ensures
        next == first_non_whitespace(s@, from as int),
        from <= next <= s@.len(),
{
    let mut i = from;
    while i < s.len() && is_whitespace(s[i])
        invariant
            from <= i <= s@.len(),
            first_non_whitespace(s@, from as int) == first_non_whitespace(s@, i as int),
        decreases s@.len() - i,
    {
        i = i + 1;
    }
    i
}

/// Copies `s[start..end]`.
pub fn chars_between(s: &Vec<char>, start: usize, end: usize) -> (part: Vec<char>)
    requires
        start <= end <= s@.len(),
    ensures
        part@ == s@.subrange(start as int, end as int),
{
    let mut part: Vec<char> = Vec::new();
    let mut i: usize = start;
    while i < end
        invariant
            start <= i <= end <= s@.len(),
            part@ == s@.subrange(start as int, i as int),
        decreases end - i,
    {
        part.push(s[i]);
        i = i + 1;
        assert(part@ =~= s@.subrange(start as int, i as int));
    }
    part
}

/// Builds a `String` holding the given characters in order, through std's
/// `FromIterator<&char>` for `String`, which appends each character it is
/// handed.
#[verifier::external_body]
pub(crate) fn string_from_chars(chars: &Vec<char>) -> (s: String)
    ensures
        s@ == chars@,
{
    chars.iter().collect()
}

} // verus!