//! Text helpers over `char` sequences: searching, trimming, decimal
//! formatting and parsing.
use vstd::prelude::*;

verus! {

/// The characters of a text.
pub fn chars_of(s: &str) -> (r: Vec<char>)
    ensures
        r@ == s@,
{
    let mut v: Vec<char> = Vec::new();
    for c in it: s.chars()
        invariant
            v@ == it.seq().take(it.index()),
            it.seq() == s@,
    {
        v.push(c);
        assert(v@ =~= it.seq().take(it.index() + 1));
    }
    assert(v@ =~= s@);
    v
}

} // verus!

verus! {

/// `needle` occurs in `hay` starting at position `i`.
pub open spec fn occurs_at(hay: Seq<char>, needle: Seq<char>, i: int) -> bool {
    0 <= i && i + needle.len() <= hay.len() && hay.subrange(i, i + needle.len()) == needle
}

/// `needle` occurs somewhere in `hay` (`str::contains` with a text pattern).
pub open spec fn text_contains(hay: Seq<char>, needle: Seq<char>) -> bool {
    exists|i: int| #[trigger] occurs_at(hay, needle, i)
}

/// Appends a character to a `String` (`String::push`).
#[verifier::external_body]
pub(crate) fn push_char(s: &mut String, c: char)
    ensures
        final(s)@ == old(s)@.push(c),
{
    s.push(c)
}

/// The `String` made of these characters.
pub fn string_of(chars: &Vec<char>) -> (r: String)
    ensures
        r@ == chars@,
{
    let mut s = String::new();
    let mut i: usize = 0;
    while i < chars.len()
        invariant
            i <= chars@.len(),
            s@ == chars@.take(i as int),
        decreases chars@.len() - i,
    {
        push_char(&mut s, chars[i]);
        i = i + 1;
        assert(s@ =~= chars@.take(i as int));
    }
    assert(chars@.take(i as int) =~= chars@);
    s
}

/// Whether `needle` occurs in `hay` at position `i`.
pub fn occurs_at_exec(hay: &Vec<char>, needle: &Vec<char>, i: usize) -> (r: bool)
    requires
        i + needle@.len() <= hay@.len(),
    ensures
        r == occurs_at(hay@, needle@, i as int),
{
    let hay_len = hay.len();
    let mut j: usize = 0;
    while j < needle.len()
        invariant
            i + needle@.len() <= hay@.len(),
            hay@.len() == hay_len,
            j <= needle@.len(),
            forall|k: int| 0 <= k < j ==> hay@[i + k] == needle@[k],
        decreases needle@.len() - j,
    {
        if hay[i + j] != needle[j] {
            assert(hay@.subrange(i as int, i + needle@.len())[j as int] != needle@[j as int]);
            return false;
        }
        j = j + 1;
    }
    assert(hay@.subrange(i as int, i + needle@.len()) =~= needle@);
    true
}

/// Whether `needle` occurs in `hay`, both as characters.
pub fn chars_contain(hay: &Vec<char>, needle: &Vec<char>) -> (r: bool)
    ensures
        r == text_contains(hay@, needle@),
{
    if needle.len() > hay.len() {
        proof {
            assert forall|i: int| !#[trigger] occurs_at(hay@, needle@, i) by {}
        }
        return false;
    }
    let last = hay.len() - needle.len();
    let mut i: usize = 0;
    while i < last
        invariant
            last + needle@.len() == hay@.len(),
            i <= last,
            forall|k: int| 0 <= k < i ==> !#[trigger] occurs_at(hay@, needle@, k),
        decreases last - i,
    {
        if occurs_at_exec(hay, needle, i) {
            return true;
        }
        i = i + 1;
    }
    let found = occurs_at_exec(hay, needle, last);
    proof {
        if !found {
            assert forall|k: int| !#[trigger] occurs_at(hay@, needle@, k) by {
                if 0 <= k < i {
                }
            }
        }
    }
    found
}

/// Whether the text `needle` occurs in the text `hay` (`str::contains`).
pub fn text_has(hay: &str, needle: &str) -> (r: bool)
    ensures
        r == text_contains(hay@, needle@),
{
    let h = chars_of(hay);
    let n = chars_of(needle);
    chars_contain(&h, &n)
}

/// What `str::to_lowercase` gives for a text (Unicode lower-casing).
pub uninterp spec fn spec_to_lowercase(s: Seq<char>) -> Seq<char>;

/// Lower-cases a text with `str::to_lowercase`; the contract names the
/// result, a function of the text alone.
#[verifier::external_body]
pub(crate) fn to_lowercase(s: &str) -> (r: String)
    ensures
        r@ == spec_to_lowercase(s@),
{
    s.to_lowercase()
}

/// The characters with the Unicode `White_Space` property, those for which
/// `char::is_whitespace` is true: tab to carriage return, space, next line,
/// no-break space, the Ogham space mark, the en quad to the hair space, the
/// line and paragraph separators, the narrow no-break space, the medium
/// mathematical space and the ideographic space.
pub open spec fn spec_is_whitespace(c: char) -> bool {
    let u = c as u32;
    ||| 0x09 <= u <= 0x0D
    ||| u == 0x20
    ||| u == 0x85
    ||| u == 0xA0
    ||| u == 0x1680
    ||| 0x2000 <= u <= 0x200A
    ||| u == 0x2028
    ||| u == 0x2029
    ||| u == 0x202F
    ||| u == 0x205F
    ||| u == 0x3000
}

/// Whether `c` is white space (`char::is_whitespace`).
pub fn is_whitespace(c: char) -> (r: bool)
    ensures
        r == spec_is_whitespace(c),
{
    let u = c as u32;
    (0x09 <= u && u <= 0x0D) || u == 0x20 || u == 0x85 || u == 0xA0 || u == 0x1680
        || (0x2000 <= u && u <= 0x200A) || u == 0x2028 || u == 0x2029 || u == 0x202F || u == 0x205F
        || u == 0x3000
}

/// `s` without its leading white space.
pub open spec fn trim_start(s: Seq<char>) -> Seq<char>
    decreases s.len(),
{
    if s.len() > 0 && spec_is_whitespace(s[0]) {
        trim_start(s.drop_first())
    } else {
        s
    }
}

/// `s` without its trailing white space.
pub open spec fn trim_end(s: Seq<char>) -> Seq<char>
    decreases s.len(),
{
    if s.len() > 0 && spec_is_whitespace(s.last()) {
        trim_end(s.drop_last())
    } else {
        s
    }
}

/// `s` without leading and trailing white space (`str::trim`).
pub open spec fn trimmed(s: Seq<char>) -> Seq<char> {
    trim_end(trim_start(s))
}

proof fn lemma_trim_start_skip(s: Seq<char>, i: int)
    requires
        0 <= i <= s.len(),
        forall|k: int| 0 <= k < i ==> spec_is_whitespace(#[trigger] s[k]),
    ensures
        trim_start(s) == trim_start(s.skip(i)),
    decreases i,
{
    if i > 0 {
        assert(s.drop_first().skip(i - 1) =~= s.skip(i));
        assert forall|k: int| 0 <= k < i - 1 implies spec_is_whitespace(#[trigger] s.drop_first()[k]) by {
            assert(s.drop_first()[k] == s[k + 1]);
        }
        lemma_trim_start_skip(s.drop_first(), i - 1);
    } else {
        assert(s.skip(0) =~= s);
    }
}

proof fn lemma_trim_end_take(s: Seq<char>, j: int)
    requires
        0 <= j <= s.len(),
        forall|k: int| j <= k < s.len() ==> spec_is_whitespace(#[trigger] s[k]),
    ensures
        trim_end(s) == trim_end(s.take(j)),
    decreases s.len() - j,
{
    if j < s.len() {
        assert(s.drop_last().take(j) =~= s.take(j));
        assert forall|k: int| j <= k < s.drop_last().len() implies spec_is_whitespace(#[trigger] s.drop_last()[k]) by {
            assert(s.drop_last()[k] == s[k]);
        }
        lemma_trim_end_take(s.drop_last(), j);
    } else {
        assert(s.take(j) =~= s);
    }
}

/// `s` without leading and trailing white space.
pub fn trim_chars(s: &Vec<char>) -> (r: Vec<char>)
    ensures
        r@ == trimmed(s@),
{
    let mut start: usize = 0;
    while start < s.len() && is_whitespace(s[start])
        invariant
            start <= s@.len(),
            forall|k: int| 0 <= k < start ==> spec_is_whitespace(#[trigger] s@[k]),
        decreases s@.len() - start,
    {
        start = start + 1;
    }
    proof {
        lemma_trim_start_skip(s@, start as int);
    }
    let ghost rest = s@.skip(start as int);
    assert(trim_start(rest) == rest);
    let mut end: usize = s.len();
    while end > start && is_whitespace(s[end - 1])
        invariant
            start <= end <= s@.len(),
            forall|k: int| end <= k < s@.len() ==> spec_is_whitespace(#[trigger] s@[k]),
        decreases end,
    {
        end = end - 1;
    }
    proof {
        let j = end - start;
        assert forall|k: int| j <= k < rest.len() implies spec_is_whitespace(#[trigger] rest[k]) by {
            assert(rest[k] == s@[k + start]);
        }
        lemma_trim_end_take(rest, j as int);
        let t = rest.take(j as int);
        if t.len() > 0 {
            assert(t.last() == s@[end - 1]);
        }
    }
    let mut r: Vec<char> = Vec::new();
    let mut i: usize = start;
    while i < end
        invariant
            start <= i <= end <= s@.len(),
            r@ == s@.subrange(start as int, i as int),
        decreases end - i,
    {
        r.push(s[i]);
        i = i + 1;
        assert(r@ =~= s@.subrange(start as int, i as int));
    }
    assert(r@ =~= rest.take((end - start) as int));
    r
}

/// The decimal digit character of `d` (0 to 9).
pub open spec fn digit_char(d: nat) -> char {
    ((d + 48) as u32) as char
}

/// The decimal text of `n`, without sign or leading zeros.
pub open spec fn decimal(n: nat) -> Seq<char>
    decreases n,
{
    if n < 10 {
        seq![digit_char(n)]
    } else {
        decimal(n / 10).push(digit_char(n % 10))
    }
}

/// The value of a text of decimal digits.
pub open spec fn digits_value(s: Seq<char>) -> nat
    decreases s.len(),
{
    if s.len() == 0 {
        0
    } else {
        digits_value(s.drop_last()) * 10 + ((s.last() as u32) - 48) as nat
    }
}

/// Every character of `s` is a decimal digit.
pub open spec fn all_digits(s: Seq<char>) -> bool {
    forall|i: int| 0 <= i < s.len() ==> '0' <= #[trigger] s[i] && s[i] <= '9'
}

/// What `str::parse::<u64>` gives: an optional `+`, then at least one decimal
/// digit and nothing else, with a value that fits in 64 bits.
pub open spec fn parse_u64(s: Seq<char>) -> Option<u64> {
    let digits = if s.len() > 0 && s[0] == '+' { s.drop_first() } else { s };
    if digits.len() > 0 && all_digits(digits) && digits_value(digits) <= u64::MAX {
        Some(digits_value(digits) as u64)
    } else {
        None
    }
}

/// The decimal text of `n` (`n.to_string()`).
pub fn decimal_chars(n: u64) -> (r: Vec<char>)
    ensures
        r@ == decimal(n as nat),
    decreases n,
{
    let d = (n % 10) as u32;
    let c = char_of_digit(d);
    if n < 10 {
        let mut v: Vec<char> = Vec::new();
        v.push(c);
        v
    } else {
        let mut v = decimal_chars(n / 10);
        v.push(c);
        v
    }
}

fn char_of_digit(d: u32) -> (c: char)
    requires
        d < 10,
    ensures
        c == digit_char(d as nat),
{
    if d == 0 { '0' } else if d == 1 { '1' } else if d == 2 { '2' } else if d == 3 { '3' }
    else if d == 4 { '4' } else if d == 5 { '5' } else if d == 6 { '6' } else if d == 7 { '7' }
    else if d == 8 { '8' } else { '9' }
}

/// Parses a text the way `str::parse::<u64>` does.
pub fn parse_u64_chars(s: &Vec<char>) -> (r: Option<u64>)
    ensures
        r == parse_u64(s@),
{
    let start: usize = if s.len() > 0 && s[0] == '+' { 1 } else { 0 };
    let ghost digits = if s@.len() > 0 && s@[0] == '+' { s@.drop_first() } else { s@ };
    assert(digits =~= s@.skip(start as int));
    if start >= s.len() {
        return None;
    }
    let mut value: u64 = 0;
    let mut i: usize = start;
    while i < s.len()
        invariant
            start <= i <= s@.len(),
            digits == s@.skip(start as int),
            digits == (if s@.len() > 0 && s@[0] == '+' { s@.drop_first() } else { s@ }),
            all_digits(s@.subrange(start as int, i as int)),
            value as nat == digits_value(s@.subrange(start as int, i as int)),
        decreases s@.len() - i,
    {
        let c = s[i];
        let ghost prefix = s@.subrange(start as int, i as int);
        let ghost next = s@.subrange(start as int, i + 1);
        assert(next.drop_last() =~= prefix);
        if c < '0' || c > '9' {
            proof {
                assert(digits[i - start] == c);
                assert(!all_digits(digits));
                lemma_parse_not_digits(s@, digits);
            }
            return None;
        }
        let d = ((c as u32) - 48) as u64;
        if value > (u64::MAX - d) / 10 {
            proof {
                assert(value * 10 + d > u64::MAX) by (nonlinear_arith)
                    requires value > (u64::MAX - d) / 10, d <= 9;
                assert(digits.take((i + 1 - start) as int) =~= next);
                assert(next.last() == c);
                assert(digits_value(next) == digits_value(prefix) * 10 + d);
                if all_digits(digits) {
                    lemma_digits_value_prefix_monotone(digits, (i + 1 - start) as int);
                    assert(digits_value(digits) > u64::MAX);
                }
                lemma_parse_too_big(s@, digits);
            }
            return None;
        }
        value = value * 10 + d;
        i = i + 1;
        assert(all_digits(s@.subrange(start as int, i as int)));
    }
    assert(s@.subrange(start as int, i as int) =~= digits);
    Some(value)
}

proof fn lemma_parse_not_digits(s: Seq<char>, digits: Seq<char>)
    requires
        digits == (if s.len() > 0 && s[0] == '+' { s.drop_first() } else { s }),
        !all_digits(digits),
    ensures
        parse_u64(s) is None,
{
}

proof fn lemma_parse_too_big(s: Seq<char>, digits: Seq<char>)
    requires
        digits == (if s.len() > 0 && s[0] == '+' { s.drop_first() } else { s }),
        all_digits(digits) ==> digits_value(digits) > u64::MAX,
    ensures
        parse_u64(s) is None,
{
}

proof fn lemma_digits_value_prefix_monotone(s: Seq<char>, k: int)
    requires
        0 <= k <= s.len(),
        all_digits(s),
    ensures
        digits_value(s.take(k)) <= digits_value(s),
    decreases s.len() - k,
{
    if k < s.len() {
        lemma_digits_value_prefix_monotone(s, k + 1);
        assert(s.take(k + 1).drop_last() =~= s.take(k));
        let t = s.take(k + 1);
        assert(t.last() == s[k]);
        assert(digits_value(t) == digits_value(s.take(k)) * 10 + ((s[k] as u32) - 48) as nat);
        assert(digits_value(s.take(k)) <= digits_value(s.take(k)) * 10) by (nonlinear_arith);
    } else {
        assert(s.take(k) =~= s);
    }
}

} // verus!
