//! Character-level string helpers shared by the parsers and formatters:
//! whitespace trimming, decimal integer parsing and printing, and the
//! Unicode case mappings of the standard library.
use vstd::prelude::*;

verus! {

// ───────────────────────────── character classes ─────────────────────────────

/// `char::is_whitespace`: the characters with the Unicode `White_Space` property.
pub open spec fn is_ws(c: char) -> bool {
    ||| '\u{9}' <= c <= '\u{d}'
    ||| c == ' '
    ||| c == '\u{85}'
    ||| c == '\u{a0}'
    ||| c == '\u{1680}'
    ||| '\u{2000}' <= c <= '\u{200a}'
    ||| c == '\u{2028}'
    ||| c == '\u{2029}'
    ||| c == '\u{202f}'
    ||| c == '\u{205f}'
    ||| c == '\u{3000}'
}

pub fn char_is_ws(c: char) -> (res: bool)
    ensures
        res == is_ws(c),
{
    ('\u{9}' <= c && c <= '\u{d}') || c == ' ' || c == '\u{85}' || c == '\u{a0}' || c
        == '\u{1680}' || ('\u{2000}' <= c && c <= '\u{200a}') || c == '\u{2028}' || c
        == '\u{2029}' || c == '\u{202f}' || c == '\u{205f}' || c == '\u{3000}'
}

pub open spec fn is_digit(c: char) -> bool {
    '0' <= c <= '9'
}

pub open spec fn digit_value(c: char) -> int {
    c as int - '0' as int
}

/// The character of a decimal digit `d` (0 ≤ d ≤ 9).
pub open spec fn digit_char(d: int) -> char {
    (d + '0' as int) as char
}

// ───────────────────────────── trimming ─────────────────────────────

/// `s` with its leading whitespace removed.
pub open spec fn trim_start(s: Seq<char>) -> Seq<char>
    decreases s.len(),
{
    if s.len() > 0 && is_ws(s[0]) {
        trim_start(s.drop_first())
    } else {
        s
    }
}

/// `s` with its trailing whitespace removed.
pub open spec fn trim_end(s: Seq<char>) -> Seq<char>
    decreases s.len(),
{
    if s.len() > 0 && is_ws(s.last()) {
        trim_end(s.drop_last())
    } else {
        s
    }
}

/// `str::trim`: `s` without leading and trailing whitespace.
pub open spec fn trimmed(s: Seq<char>) -> Seq<char> {
    trim_end(trim_start(s))
}

proof fn lemma_trim_start_skip(s: Seq<char>, i: int)
    requires
        0 <= i <= s.len(),
        forall|k: int| 0 <= k < i ==> is_ws(#[trigger] s[k]),
    ensures
        trim_start(s) == trim_start(s.subrange(i, s.len() as int)),
    decreases i,
{
    if i > 0 {
        assert(s.subrange(1, s.len() as int) == s.drop_first());
        let t = s.drop_first();
        assert forall|k: int| 0 <= k < i - 1 implies is_ws(#[trigger] t[k]) by {
            assert(t[k] == s[k + 1]);
        }
        lemma_trim_start_skip(t, i - 1);
        assert(t.subrange(i - 1, t.len() as int) == s.subrange(i, s.len() as int));
    } else {
        assert(s.subrange(0, s.len() as int) == s);
    }
}

proof fn lemma_trim_end_skip(s: Seq<char>, j: int)
    requires
        0 <= j <= s.len(),
        forall|k: int| j <= k < s.len() ==> is_ws(#[trigger] s[k]),
    ensures
        trim_end(s) == trim_end(s.subrange(0, j)),
    decreases s.len() - j,
{
    if j < s.len() {
        let t = s.drop_last();
        assert forall|k: int| j <= k < t.len() implies is_ws(#[trigger] t[k]) by {
            assert(t[k] == s[k]);
        }
        lemma_trim_end_skip(t, j);
        assert(t.subrange(0, j) == s.subrange(0, j));
    } else {
        assert(s.subrange(0, j) == s);
    }
}

/// `str::trim`, returned as an owned string.
pub fn trim(s: &str) -> (res: String)
    ensures
        res@ == trimmed(s@),
{
    let n = s.unicode_len();
    let mut i: usize = 0;
    while i < n && char_is_ws(s.get_char(i))
        invariant
            n == s@.len(),
            0 <= i <= n,
            forall|k: int| 0 <= k < i ==> is_ws(#[trigger] s@[k]),
        decreases n - i,
    {
        i = i + 1;
    }
    proof {
        lemma_trim_start_skip(s@, i as int);
    }
    let ghost rest = s@.subrange(i as int, n as int);
    assert(rest.len() == 0 || !is_ws(rest[0]));
    assert(trim_start(rest) == rest);
    let mut j: usize = n;
    while j > i && char_is_ws(s.get_char(j - 1))
        invariant
            n == s@.len(),
            i <= j <= n,
            forall|k: int| j <= k < n ==> is_ws(#[trigger] s@[k]),
        decreases j,
    {
        j = j - 1;
    }
    proof {
        let r = rest;
        assert forall|k: int| j - i <= k < r.len() implies is_ws(#[trigger] r[k]) by {
            assert(r[k] == s@[k + i]);
        }
        lemma_trim_end_skip(r, j - i);
        let r2 = r.subrange(0, j - i);
        assert(r2 == s@.subrange(i as int, j as int));
        if r2.len() > 0 {
            assert(r2.last() == s@[j - 1]);
        }
        assert(trim_end(r2) == r2);
    }
    let sub = s.substring_char(i, j);
    sub.to_owned()
}

/// `s` with every trailing `c` removed (`str::trim_end_matches(c)`).
pub open spec fn strip_trailing(s: Seq<char>, c: char) -> Seq<char>
    decreases s.len(),
{
    if s.len() > 0 && s.last() == c {
        strip_trailing(s.drop_last(), c)
    } else {
        s
    }
}

proof fn lemma_strip_trailing_skip(s: Seq<char>, c: char, j: int)
    requires
        0 <= j <= s.len(),
        forall|k: int| j <= k < s.len() ==> #[trigger] s[k] == c,
    ensures
        strip_trailing(s, c) == strip_trailing(s.subrange(0, j), c),
    decreases s.len() - j,
{
    if j < s.len() {
        let t = s.drop_last();
        assert forall|k: int| j <= k < t.len() implies #[trigger] t[k] == c by {
            assert(t[k] == s[k]);
        }
        lemma_strip_trailing_skip(t, c, j);
        assert(t.subrange(0, j) == s.subrange(0, j));
    } else {
        assert(s.subrange(0, j) == s);
    }
}

/// `str::trim_end_matches(c)`, returned as an owned string.
pub fn trim_end_matches_char(s: &str, c: char) -> (res: String)
    ensures
        res@ == strip_trailing(s@, c),
{
    let n = s.unicode_len();
    let mut j: usize = n;
    while j > 0 && s.get_char(j - 1) == c
        invariant
            n == s@.len(),
            j <= n,
            forall|k: int| j <= k < n ==> #[trigger] s@[k] == c,
        decreases j,
    {
        j = j - 1;
    }
    proof {
        lemma_strip_trailing_skip(s@, c, j as int);
        let r = s@.subrange(0, j as int);
        if r.len() > 0 {
            assert(r.last() == s@[j - 1]);
        }
    }
    let sub = s.substring_char(0, j);
    sub.to_owned()
}

// ───────────────────────────── strings ─────────────────────────────

/// `==` on two string slices.
pub fn str_eq(a: &str, b: &str) -> (res: bool)
    ensures
        res == (a@ == b@),
{
    let x = a.to_owned();
    let y = b.to_owned();
    x == y
}

/// `String::push`: appends one character.
#[verifier::external_body]
pub(crate) fn push_char(s: &mut String, c: char)
    ensures
        final(s)@ == old(s)@.push(c),
{
    s.push(c);
}

/// An owned copy of a string slice.
pub fn owned(s: &str) -> (res: String)
    ensures
        res@ == s@,
{
    s.to_owned()
}

/// Whether `s` starts with the character `c` (`str::starts_with` on a `char`).
pub fn starts_with_char(s: &str, c: char) -> (res: bool)
    ensures
        res == (s@.len() > 0 && s@[0] == c),
{
    let n = s.unicode_len();
    n > 0 && s.get_char(0) == c
}

/// The index of the first occurrence of `c` at or after `from`, if any.
pub open spec fn find_char_from(s: Seq<char>, c: char, from: int) -> Option<int>
    decreases s.len() - from,
{
    if from < 0 || from >= s.len() {
        None
    } else if s[from] == c {
        Some(from)
    } else {
        find_char_from(s, c, from + 1)
    }
}

pub proof fn lemma_find_char_from(s: Seq<char>, c: char, from: int)
    requires
        0 <= from,
    ensures
        match find_char_from(s, c, from) {
            Some(k) => from <= k < s.len() && s[k] == c && forall|m: int|
                from <= m < k ==> s[m] != c,
            None => forall|m: int| from <= m < s.len() ==> s[m] != c,
        },
    decreases s.len() - from,
{
    if from < s.len() && s[from] != c {
        lemma_find_char_from(s, c, from + 1);
    }
}

/// Position of the first `c` at or after `from` (character index).
pub fn find_char(s: &str, c: char, from: usize) -> (res: Option<usize>)
    ensures
        match res {
            Some(k) => find_char_from(s@, c, from as int) == Some(k as int),
            None => find_char_from(s@, c, from as int) is None,
        },
        match find_char_from(s@, c, from as int) {
            Some(k) => from <= k < s@.len() && s@[k] == c && forall|m: int|
                from <= m < k ==> s@[m] != c,
            None => forall|m: int| from <= m < s@.len() ==> s@[m] != c,
        },
{
    proof {
        lemma_find_char_from(s@, c, from as int);
    }
    let n = s.unicode_len();
    let mut i = from;
    let mut found: Option<usize> = None;
    while i < n
        invariant_except_break
            found is None,
        invariant
            n == s@.len(),
            from <= i,
            find_char_from(s@, c, from as int) == find_char_from(s@, c, i as int),
        ensures
            match found {
                Some(k) => k == i && i < n && s@[i as int] == c,
                None => i >= n,
            },
        decreases n - i,
    {
        if s.get_char(i) == c {
            found = Some(i);
            break;
        }
        i = i + 1;
    }
    found
}

// ───────────────────────────── case mapping ─────────────────────────────

/// What `str::to_uppercase` gives for the characters `s` (full Unicode mapping).
pub uninterp spec fn unicode_uppercase(s: Seq<char>) -> Seq<char>;

/// What `str::to_lowercase` gives for the characters `s` (full Unicode mapping).
pub uninterp spec fn unicode_lowercase(s: Seq<char>) -> Seq<char>;

/// The ASCII upper case of a character: `a` to `z` become `A` to `Z`.
pub open spec fn ascii_upper_char(c: char) -> char {
    if 'a' <= c <= 'z' {
        ((c as u32) - 32) as char
    } else {
        c
    }
}

/// The ASCII lower case of a character: `A` to `Z` become `a` to `z`.
pub open spec fn ascii_lower_char(c: char) -> char {
    if 'A' <= c <= 'Z' {
        ((c as u32) + 32) as char
    } else {
        c
    }
}

/// `str::to_uppercase`. Its result is named: the Unicode case tables are not
/// restated here; on ASCII text it is the ASCII upper case.
#[verifier::external_body]
pub(crate) fn to_uppercase(s: &str) -> (res: String)
    ensures
        res@ == unicode_uppercase(s@),
        vstd::utf8::is_ascii_chars(s@) ==> res@ == s@.map_values(|c: char| ascii_upper_char(c)),
{
    s.to_uppercase()
}

/// `str::to_lowercase`. Its result is named: the Unicode case tables are not
/// restated here; on ASCII text it is the ASCII lower case.
#[verifier::external_body]
pub(crate) fn to_lowercase(s: &str) -> (res: String)
    ensures
        res@ == unicode_lowercase(s@),
        vstd::utf8::is_ascii_chars(s@) ==> res@ == s@.map_values(|c: char| ascii_lower_char(c)),
{
    s.to_lowercase()
}

// ───────────────────────────── decimal integers ─────────────────────────────

/// The value of a sequence of decimal digits.
pub open spec fn digits_value(s: Seq<char>) -> nat
    decreases s.len(),
{
    if s.len() == 0 {
        0
    } else {
        (digits_value(s.drop_last()) * 10 + digit_value(s.last())) as nat
    }
}

/// The shortest decimal representation of `n`.
pub open spec fn nat_digits(n: nat) -> Seq<char>
    decreases n,
{
    if n < 10 {
        seq![digit_char(n as int)]
    } else {
        nat_digits(n / 10).push(digit_char((n % 10) as int))
    }
}

/// How `{}` prints an integer.
pub open spec fn int_text(n: int) -> Seq<char> {
    if n < 0 {
        seq!['-'] + nat_digits((-n) as nat)
    } else {
        nat_digits(n as nat)
    }
}

/// Why a string is not an integer (`std::num::IntErrorKind`).
#[derive(Debug, Clone, Copy, PartialEq, Eq, Structural)]
pub enum IntErrorKind {
    Empty,
    InvalidDigit,
    PosOverflow,
    NegOverflow,
}

/// The digit-by-digit scan of `i64::from_str`: digits from position `i` on,
/// accumulated into `acc` with the given sign, failing at the first
/// non-digit or at the first step that leaves the `i64` range.
pub open spec fn scan_i64(d: Seq<char>, i: int, acc: int, positive: bool) -> Result<int, IntErrorKind>
    decreases d.len() - i,
{
    if i >= d.len() || i < 0 {
        Ok(acc)
    } else if !is_digit(d[i]) {
        Err(IntErrorKind::InvalidDigit)
    } else {
        let next = if positive {
            acc * 10 + digit_value(d[i])
        } else {
            acc * 10 - digit_value(d[i])
        };
        if next > i64::MAX || next < i64::MIN {
            Err(if positive {
                IntErrorKind::PosOverflow
            } else {
                IntErrorKind::NegOverflow
            })
        } else {
            scan_i64(d, i + 1, next, positive)
        }
    }
}

/// `<i64 as FromStr>::from_str`, as its documentation describes it: an
/// optional `+` or `-` followed by one or more decimal digits, within range.
pub open spec fn parse_i64_spec(s: Seq<char>) -> Result<int, IntErrorKind> {
    if s.len() == 0 {
        Err(IntErrorKind::Empty)
    } else if (s[0] == '+' || s[0] == '-') && s.len() == 1 {
        Err(IntErrorKind::InvalidDigit)
    } else if s[0] == '+' {
        scan_i64(s, 1, 0, true)
    } else if s[0] == '-' {
        scan_i64(s, 1, 0, false)
    } else {
        scan_i64(s, 0, 0, true)
    }
}

proof fn lemma_scan_range(d: Seq<char>, i: int, acc: int, positive: bool)
    requires
        i64::MIN <= acc <= i64::MAX,
    ensures
        scan_i64(d, i, acc, positive) matches Ok(v) ==> i64::MIN <= v <= i64::MAX,
    decreases d.len() - i,
{
    if 0 <= i < d.len() && is_digit(d[i]) {
        let next = if positive {
            acc * 10 + digit_value(d[i])
        } else {
            acc * 10 - digit_value(d[i])
        };
        if i64::MIN <= next <= i64::MAX {
            lemma_scan_range(d, i + 1, next, positive);
        }
    }
}

proof fn lemma_parse_range(s: Seq<char>)
    ensures
        parse_i64_spec(s) matches Ok(v) ==> i64::MIN <= v <= i64::MAX,
{
    if s.len() > 0 {
        lemma_scan_range(s, 0, 0, true);
        lemma_scan_range(s, 1, 0, true);
        lemma_scan_range(s, 1, 0, false);
    }
}

/// `str::parse::<i64>()`.
pub fn parse_i64(s: &str) -> (res: Result<i64, IntErrorKind>)
    ensures
        match res {
            Ok(v) => parse_i64_spec(s@) == Ok::<int, IntErrorKind>(v as int),
            Err(k) => parse_i64_spec(s@) == Err::<int, IntErrorKind>(k),
        },
{
    let n = s.unicode_len();
    if n == 0 {
        return Err(IntErrorKind::Empty);
    }
    let c0 = s.get_char(0);
    if (c0 == '+' || c0 == '-') && n == 1 {
        return Err(IntErrorKind::InvalidDigit);
    }
    let positive = c0 != '-';
    let mut i: usize = if c0 == '+' || c0 == '-' {
        1
    } else {
        0
    };
    let ghost start = i as int;
    let mut acc: i64 = 0;
    proof {
        assert(parse_i64_spec(s@) == scan_i64(s@, start, 0, positive));
    }
    while i < n
        invariant
            n == s@.len(),
            i <= n,
            parse_i64_spec(s@) == scan_i64(s@, i as int, acc as int, positive),
            positive ==> acc >= 0,
            !positive ==> acc <= 0,
        decreases n - i,
    {
        let c = s.get_char(i);
        if !('0' <= c && c <= '9') {
            return Err(IntErrorKind::InvalidDigit);
        }
        let d = (c as u32 - '0' as u32) as i64;
        assert(d == digit_value(c));
        let next_i128: i128 = if positive {
            acc as i128 * 10 + d as i128
        } else {
            acc as i128 * 10 - d as i128
        };
        if next_i128 > i64::MAX as i128 {
            return Err(IntErrorKind::PosOverflow);
        }
        if next_i128 < i64::MIN as i128 {
            return Err(IntErrorKind::NegOverflow);
        }
        acc = next_i128 as i64;
        i = i + 1;
    }
    Ok(acc)
}

/// The text `Display` gives for a `ParseIntError` of the given kind.
pub open spec fn int_error_text(k: IntErrorKind) -> Seq<char> {
    match k {
        IntErrorKind::Empty => "cannot parse integer from empty string"@,
        IntErrorKind::InvalidDigit => "invalid digit found in string"@,
        IntErrorKind::PosOverflow => "number too large to fit in target type"@,
        IntErrorKind::NegOverflow => "number too small to fit in target type"@,
    }
}

pub fn int_error_message(k: IntErrorKind) -> (res: String)
    ensures
        res@ == int_error_text(k),
{
    match k {
        IntErrorKind::Empty => owned("cannot parse integer from empty string"),
        IntErrorKind::InvalidDigit => owned("invalid digit found in string"),
        IntErrorKind::PosOverflow => owned("number too large to fit in target type"),
        IntErrorKind::NegOverflow => owned("number too small to fit in target type"),
    }
}

pub proof fn lemma_digit_char(d: int)
    requires
        0 <= d <= 9,
    ensures
        is_digit(digit_char(d)),
        digit_value(digit_char(d)) == d,
        !is_ws(digit_char(d)),
        digit_char(d) != '.',
        digit_char(d) != '-',
        digit_char(d) != '+',
{
    let c = digit_char(d);
    assert(c as int == d + 48);
}

/// The decimal digits of `n`: at least one digit, and they read back as `n`.
pub proof fn lemma_nat_digits(n: nat)
    ensures
        nat_digits(n).len() >= 1,
        forall|i: int| 0 <= i < nat_digits(n).len() ==> is_digit(#[trigger] nat_digits(n)[i]),
        digits_value(nat_digits(n)) == n,
    decreases n,
{
    if n >= 10 {
        lemma_nat_digits(n / 10);
        let d = nat_digits(n);
        assert(d.drop_last() == nat_digits(n / 10));
        lemma_digit_char((n % 10) as int);
        assert(d.last() == digit_char((n % 10) as int));
        assert(digits_value(d) == digits_value(nat_digits(n / 10)) * 10 + (n % 10));
        assert((n / 10) * 10 + n % 10 == n);
    } else {
        assert(nat_digits(n).drop_last() == Seq::<char>::empty());
        assert(digits_value(Seq::<char>::empty()) == 0);
        lemma_digit_char(n as int);
    }
}

/// The character found by `find_char_from` is the first one equal to `c`.
pub proof fn lemma_find_char_at(s: Seq<char>, c: char, from: int, k: int)
    requires
        0 <= from <= k < s.len(),
        s[k] == c,
        forall|m: int| from <= m < k ==> s[m] != c,
    ensures
        find_char_from(s, c, from) == Some(k),
    decreases k - from,
{
    if from < k {
        lemma_find_char_at(s, c, from + 1, k);
    }
}

/// `find_char_from` finds nothing when no character from `from` on is `c`.
pub proof fn lemma_find_char_none(s: Seq<char>, c: char, from: int)
    requires
        0 <= from,
        forall|m: int| from <= m < s.len() ==> s[m] != c,
    ensures
        find_char_from(s, c, from) is None,
    decreases s.len() - from,
{
    if from < s.len() {
        lemma_find_char_none(s, c, from + 1);
    }
}

/// One step of the integer scan on the last character.
pub open spec fn scan_step(r: Result<int, IntErrorKind>, c: char, positive: bool) -> Result<int, IntErrorKind> {
    match r {
        Err(e) => Err(e),
        Ok(acc) => if !is_digit(c) {
            Err(IntErrorKind::InvalidDigit)
        } else {
            let next = if positive {
                acc * 10 + digit_value(c)
            } else {
                acc * 10 - digit_value(c)
            };
            if next > i64::MAX || next < i64::MIN {
                Err(if positive {
                    IntErrorKind::PosOverflow
                } else {
                    IntErrorKind::NegOverflow
                })
            } else {
                Ok(next)
            }
        },
    }
}

/// Scanning a string is scanning all but its last character, then that character.
pub proof fn lemma_scan_snoc(x: Seq<char>, i: int, acc: int, positive: bool)
    requires
        0 <= i < x.len(),
    ensures
        scan_i64(x, i, acc, positive) == scan_step(
            scan_i64(x.drop_last(), i, acc, positive),
            x.last(),
            positive,
        ),
    decreases x.len() - i,
{
    let dl = x.drop_last();
    if i == x.len() - 1 {
        let c = x[i];
        if is_digit(c) {
            let next = if positive {
                acc * 10 + digit_value(c)
            } else {
                acc * 10 - digit_value(c)
            };
            if !(next > i64::MAX || next < i64::MIN) {
                assert(scan_i64(x, i + 1, next, positive) == Ok::<int, IntErrorKind>(next));
            }
        }
    } else {
        assert(dl[i] == x[i]);
        let c = x[i];
        if is_digit(c) {
            let next = if positive {
                acc * 10 + digit_value(c)
            } else {
                acc * 10 - digit_value(c)
            };
            if !(next > i64::MAX || next < i64::MIN) {
                lemma_scan_snoc(x, i + 1, next, positive);
            }
        }
    }
}

/// Scanning digits from `st` on gives their value, with the sign, when it fits.
pub proof fn lemma_scan_digits(x: Seq<char>, st: int)
    requires
        0 <= st <= x.len(),
        forall|k: int| st <= k < x.len() ==> is_digit(#[trigger] x[k]),
        digits_value(x.subrange(st, x.len() as int)) <= i64::MAX,
    ensures
        scan_i64(x, st, 0, true) == Ok::<int, IntErrorKind>(digits_value(x.subrange(st, x.len() as int)) as int),
        scan_i64(x, st, 0, false) == Ok::<int, IntErrorKind>(-digits_value(x.subrange(st, x.len() as int))),
    decreases x.len(),
{
    if st < x.len() {
        let dl = x.drop_last();
        let y = x.subrange(st, x.len() as int);
        assert(y.drop_last() == dl.subrange(st, dl.len() as int));
        assert(y.last() == x.last());
        assert forall|k: int| st <= k < dl.len() implies is_digit(#[trigger] dl[k]) by {
            assert(dl[k] == x[k]);
        }
        lemma_scan_digits(dl, st);
        lemma_scan_snoc(x, st, 0, true);
        lemma_scan_snoc(x, st, 0, false);
    } else {
        assert(x.subrange(st, x.len() as int) == Seq::<char>::empty());
    }
}

/// Appends the decimal digits of `n` to `out`.
pub fn push_u64_digits(out: &mut String, n: u64)
    ensures
        final(out)@ == old(out)@ + nat_digits(n as nat),
    decreases n,
{
    proof {
        lemma_nat_digits(n as nat);
    }
    if n < 10 {
        let c = char_of_digit(n as u8);
        push_char(out, c);
        assert(nat_digits(n as nat) == seq![digit_char(n as int)]);
    } else {
        push_u64_digits(out, n / 10);
        let c = char_of_digit((n % 10) as u8);
        push_char(out, c);
        assert(old(out)@ + nat_digits((n / 10) as nat) + seq![c] == old(out)@ + nat_digits(
            n as nat,
        ));
    }
}

pub fn char_of_digit(d: u8) -> (c: char)
    requires
        d < 10,
    ensures
        c == digit_char(d as int),
        is_digit(c),
        digit_value(c) == d,
{
    match d {
        0 => '0',
        1 => '1',
        2 => '2',
        3 => '3',
        4 => '4',
        5 => '5',
        6 => '6',
        7 => '7',
        8 => '8',
        _ => '9',
    }
}

/// `n.to_string()` for a `u64`.
pub fn u64_text(n: u64) -> (res: String)
    ensures
        res@ == nat_digits(n as nat),
{
    let mut s = String::new();
    push_u64_digits(&mut s, n);
    assert(Seq::<char>::empty() + nat_digits(n as nat) == nat_digits(n as nat));
    s
}

/// Magnitude of an `i64` (`i64::unsigned_abs`).
pub fn unsigned_abs(n: i64) -> (res: u64)
    ensures
        res as int == (if n < 0 {
            -n
        } else {
            n as int
        }),
{
    if n < 0 {
        (-(n as i128)) as u64
    } else {
        n as u64
    }
}

/// `n.to_string()` for an `i64`.
pub fn i64_text(n: i64) -> (res: String)
    ensures
        res@ == int_text(n as int),
{
    let mut s = String::new();
    if n < 0 {
        push_char(&mut s, '-');
    }
    let m = unsigned_abs(n);
    push_u64_digits(&mut s, m);
    if n >= 0 {
        assert(Seq::<char>::empty() + nat_digits(m as nat) == nat_digits(m as nat));
    }
    s
}

/// Appends a string slice.
pub fn push_str(out: &mut String, s: &str)
    ensures
        final(out)@ == old(out)@ + s@,
{
    out.append(s);
}

/// 10 to the power `n`.
pub open spec fn pow10(n: nat) -> nat
    decreases n,
{
    if n == 0 {
        1
    } else {
        10 * pow10((n - 1) as nat)
    }
}

pub proof fn lemma_pow10_mono(a: nat, b: nat)
    requires
        a <= b,
    ensures
        pow10(a) <= pow10(b),
        pow10(a) >= 1,
    decreases b,
{
    if b > 0 && a < b {
        lemma_pow10_mono(a, (b - 1) as nat);
    }
    if a > 0 {
        lemma_pow10_mono((a - 1) as nat, (a - 1) as nat);
    }
}

pub proof fn lemma_pow10_18()
    ensures
        pow10(18) == 1_000_000_000_000_000_000,
{
    reveal_with_fuel(pow10, 19);
}

/// Whether `p` occurs in `s` (`str::contains`).
pub open spec fn has_substring(s: Seq<char>, p: Seq<char>) -> bool {
    exists|i: int| 0 <= i <= s.len() - p.len() && #[trigger] s.subrange(i, i + p.len()) == p
}

/// Whether `p` occurs at position `i` of `s`.
fn occurs_at(s: &str, p: &str, i: usize) -> (res: bool)
    requires
        i + p@.len() <= s@.len(),
    ensures
        res == (s@.subrange(i as int, i + p@.len()) == p@),
{
    let total = s.unicode_len();
    let n = p.unicode_len();
    let mut k: usize = 0;
    while k < n
        invariant
            n == p@.len(),
            total == s@.len(),
            i + n <= s@.len(),
            k <= n,
            forall|j: int| 0 <= j < k ==> s@[i + j] == p@[j],
        decreases n - k,
    {
        if s.get_char(i + k) != p.get_char(k) {
            assert(s@.subrange(i as int, i + p@.len())[k as int] != p@[k as int]);
            return false;
        }
        k = k + 1;
    }
    assert(s@.subrange(i as int, i + p@.len()) =~= p@);
    true
}

/// `str::contains(p)` (`has_substring`).
pub fn contains_str(s: &str, p: &str) -> (res: bool)
    ensures
        res == has_substring(s@, p@),
{
    let n = s.unicode_len();
    let m = p.unicode_len();
    if m > n {
        return false;
    }
    if m == 0 {
        assert(s@.subrange(0, 0 + p@.len() as int) =~= p@);
        return true;
    }
    let mut i: usize = 0;
    while i <= n - m
        invariant
            n == s@.len(),
            m == p@.len(),
            1 <= m <= n,
            i <= n - m + 1,
            forall|j: int| 0 <= j < i ==> #[trigger] s@.subrange(j, j + m) != p@,
        decreases n - m + 1 - i,
    {
        if occurs_at(s, p, i) {
            return true;
        }
        i = i + 1;
    }
    false
}

/// A text without whitespace at either end is its own trim.
pub proof fn lemma_trim_no_ws(s: Seq<char>)
    requires
        forall|i: int| 0 <= i < s.len() ==> !is_ws(#[trigger] s[i]),
    ensures
        trimmed(s) == s,
{
    if s.len() > 0 {
        assert(!is_ws(s[0]));
        assert(!is_ws(s.last()));
    }
}

// ───────────────────────────── order ─────────────────────────────

/// `a` comes before `b` in the lexicographic order of their characters.
/// (This is the order of `String`'s `Ord`: UTF-8 keeps the order of code
/// points.)
pub open spec fn lex_lt(a: Seq<char>, b: Seq<char>) -> bool
    decreases a.len(),
{
    if a.len() == 0 {
        b.len() > 0
    } else if b.len() == 0 {
        false
    } else if a[0] != b[0] {
        (a[0] as int) < (b[0] as int)
    } else {
        lex_lt(a.drop_first(), b.drop_first())
    }
}

/// The order is strict and total: exactly one of `a < b`, `a == b`,
/// `b < a` holds.
pub proof fn lemma_lex_trichotomy(a: Seq<char>, b: Seq<char>)
    ensures
        lex_lt(a, b) || a == b || lex_lt(b, a),
        !(lex_lt(a, b) && lex_lt(b, a)),
        !(lex_lt(a, b) && a == b),
    decreases a.len(),
{
    if a.len() == 0 || b.len() == 0 {
        if a.len() == 0 && b.len() == 0 {
            assert(a =~= b);
        }
    } else if a[0] == b[0] {
        lemma_lex_trichotomy(a.drop_first(), b.drop_first());
        if a.drop_first() == b.drop_first() {
            assert forall|k: int| 0 <= k < a.len() implies a[k] == b[k] by {
                if k > 0 {
                    assert(a[k] == a.drop_first()[k - 1]);
                    assert(b[k] == b.drop_first()[k - 1]);
                }
            }
            assert(a =~= b);
        }
        if a == b {
            assert(a.drop_first() == b.drop_first());
        }
    }
}

/// The order is transitive.
pub proof fn lemma_lex_transitive(a: Seq<char>, b: Seq<char>, c: Seq<char>)
    requires
        lex_lt(a, b),
        lex_lt(b, c),
    ensures
        lex_lt(a, c),
    decreases a.len(),
{
    if a.len() > 0 && b.len() > 0 && c.len() > 0 {
        if a[0] == b[0] && b[0] == c[0] {
            lemma_lex_transitive(a.drop_first(), b.drop_first(), c.drop_first());
        }
    }
}

proof fn lemma_lex_skip(a: Seq<char>, b: Seq<char>, i: int)
    requires
        0 <= i < a.len(),
        i < b.len(),
        a[i] == b[i],
    ensures
        lex_lt(a.skip(i), b.skip(i)) == lex_lt(a.skip(i + 1), b.skip(i + 1)),
        (a.skip(i) == b.skip(i)) == (a.skip(i + 1) == b.skip(i + 1)),
{
    assert(a.skip(i).drop_first() =~= a.skip(i + 1));
    assert(b.skip(i).drop_first() =~= b.skip(i + 1));
    if a.skip(i + 1) == b.skip(i + 1) {
        assert forall|k: int| 0 <= k < a.skip(i).len() implies a.skip(i)[k] == b.skip(i)[k] by {
            if k > 0 {
                assert(a.skip(i)[k] == a.skip(i + 1)[k - 1]);
                assert(b.skip(i)[k] == b.skip(i + 1)[k - 1]);
            }
        }
        assert(a.skip(i) =~= b.skip(i));
    }
    if a.skip(i) == b.skip(i) {
        assert(a.skip(i + 1) =~= b.skip(i + 1));
    }
}

/// Compares two texts in the order of `String`'s `Ord`: −1, 0 or 1.
pub fn compare_text(a: &str, b: &str) -> (res: i8)
    ensures
        res == 0 <==> a@ == b@,
        res < 0 <==> lex_lt(a@, b@),
        res > 0 <==> lex_lt(b@, a@),
{
    proof {
        lemma_lex_trichotomy(a@, b@);
    }
    let n = a.unicode_len();
    let m = b.unicode_len();
    let mut i: usize = 0;
    assert(a@.skip(0) =~= a@);
    assert(b@.skip(0) =~= b@);
    while i < n && i < m
        invariant
            n == a@.len(),
            m == b@.len(),
            i <= n,
            i <= m,
            lex_lt(a@, b@) == lex_lt(a@.skip(i as int), b@.skip(i as int)),
            lex_lt(b@, a@) == lex_lt(b@.skip(i as int), a@.skip(i as int)),
            (a@ == b@) == (a@.skip(i as int) == b@.skip(i as int)),
        decreases n - i,
    {
        let x = a.get_char(i);
        let y = b.get_char(i);
        if x != y {
            proof {
                assert(a@.skip(i as int)[0] == x);
                assert(b@.skip(i as int)[0] == y);
                assert(a@.skip(i as int) != b@.skip(i as int));
            }
            if (x as u32) < (y as u32) {
                return -1;
            } else {
                return 1;
            }
        }
        proof {
            lemma_lex_skip(a@, b@, i as int);
            lemma_lex_skip(b@, a@, i as int);
        }
        i = i + 1;
    }
    if i == n && i == m {
        assert(a@.skip(i as int) =~= b@.skip(i as int));
        0
    } else if i == n {
        assert(a@.skip(i as int).len() == 0);
        -1
    } else {
        assert(b@.skip(i as int).len() == 0);
        1
    }
}

} // verus!
