//! SuperJSON helpers for SplitPro's tRPC API: BigInt amounts in minor
//! currency units, the metadata paths that mark them, and the
//! `{"json": .., "meta": ..}` envelope of requests and responses.
use vstd::prelude::*;
use crate::text::{
    lemma_find_char_from, lemma_pow10_18, lemma_pow10_mono, lemma_trim_no_ws, pow10,
    char_of_digit, digit_char, digit_value, digits_value, is_digit, is_ws, lemma_digit_char,
    lemma_find_char_at, lemma_find_char_none, lemma_nat_digits, lemma_scan_digits, trim_end,
    trim_start, find_char, find_char_from, int_error_message, int_error_text,
    nat_digits, owned, parse_i64, parse_i64_spec, push_char, push_str, push_u64_digits, scan_i64,
    starts_with_char, str_eq, trim, trimmed, unsigned_abs, IntErrorKind,
};
use crate::json::{copy_json, json_array, json_get, json_str, json_view, JsonMember, JsonNumber, JsonValue, JsonView};
use crate::url::{percent_encode, url_encode};

verus! {

/// Division that rounds toward zero, as Rust's `/` on integers does.
pub open spec fn trunc_div(a: int, b: int) -> int {
    if a >= 0 {
        a / b
    } else {
        -((-a) / b)
    }
}

/// The fraction digits of an amount, brought to hundredths: one digit is
/// scaled up, two are kept, more are rounded half up (toward zero for a
/// negative fraction, as Rust's division does).
pub open spec fn fraction_to_cents(value: int, len: nat) -> int {
    if len == 0 {
        0
    } else if len == 1 {
        value * 10
    } else if len == 2 {
        value
    } else {
        let divisor = pow10((len - 2) as nat) as int;
        trunc_div(value + divisor / 2, divisor)
    }
}

pub open spec fn quoted(before: Seq<char>, x: Seq<char>, after: Seq<char>) -> Seq<char> {
    before + x + after
}

/// The text and the two parts of a decimal amount string, split at the dot.
pub open spec fn first_dot(t: Seq<char>) -> Option<int> {
    find_char_from(t, '.', 0)
}

/// What `amount_to_bigint` returns for the characters `s`: the amount in
/// hundredths, or the error message.
pub open spec fn amount_to_bigint_spec(s: Seq<char>) -> Result<int, Seq<char>> {
    let t = trimmed(s);
    if t.len() == 0 {
        Err("Empty amount string"@)
    } else {
        match first_dot(t) {
            None => match parse_i64_spec(t) {
                Ok(w) => Ok(w * 100),
                Err(k) => Err(quoted("Invalid whole number '"@, t, "': "@) + int_error_text(k)),
            },
            Some(p) => if find_char_from(t, '.', p + 1) is Some {
                Err(quoted("Invalid amount format: '"@, t, "'"@))
            } else {
                let a = t.subrange(0, p);
                let b = t.subrange(p + 1, t.len() as int);
                match parse_i64_spec(a) {
                    Err(k) => Err(quoted("Invalid whole number '"@, a, "': "@) + int_error_text(k)),
                    Ok(w) => {
                        let dv = if b.len() == 0 {
                            Ok(0int)
                        } else {
                            parse_i64_spec(b)
                        };
                        match dv {
                            Err(k) => Err(quoted("Invalid decimal '"@, b, "': "@) + int_error_text(k)),
                            Ok(d) => {
                                let cents = fraction_to_cents(d, b.len());
                                let mag = if w < 0 {
                                    -w
                                } else {
                                    w
                                };
                                if w < 0 || t[0] == '-' {
                                    Ok(-(mag * 100 + cents))
                                } else {
                                    Ok(mag * 100 + cents)
                                }
                            },
                        }
                    },
                }
            },
        }
    }
}

pub open spec fn in_i64(x: int) -> bool {
    i64::MIN <= x <= i64::MAX
}

/// The inputs on which `amount_to_bigint` runs without an arithmetic
/// overflow (on the others the computation panics in a debug build).
pub open spec fn amount_to_bigint_fits(s: Seq<char>) -> bool {
    let t = trimmed(s);
    t.len() > 0 ==> match first_dot(t) {
        None => match parse_i64_spec(t) {
            Ok(w) => in_i64(w * 100),
            Err(_) => true,
        },
        Some(p) => find_char_from(t, '.', p + 1) is None ==> {
            let a = t.subrange(0, p);
            let b = t.subrange(p + 1, t.len() as int);
            match parse_i64_spec(a) {
                Err(_) => true,
                Ok(w) => {
                    let dv = if b.len() == 0 {
                        Ok(0int)
                    } else {
                        parse_i64_spec(b)
                    };
                    match dv {
                        Err(_) => true,
                        Ok(d) => {
                            let cents = fraction_to_cents(d, b.len());
                            let mag = if w < 0 {
                                -w
                            } else {
                                w
                            };
                            &&& b.len() > 2 ==> b.len() - 2 <= 18 && in_i64(
                                d + pow10((b.len() - 2) as nat) as int / 2,
                            )
                            &&& in_i64(mag)
                            &&& in_i64(mag * 100)
                            &&& in_i64(mag * 100 + cents)
                            &&& in_i64(-(mag * 100 + cents))
                        },
                    }
                },
            }
        },
    }
}

fn pow10_exec(n: usize) -> (res: i64)
    requires
        n <= 18,
    ensures
        res as int == pow10(n as nat),
{
    let mut r: i64 = 1;
    let mut i: usize = 0;
    proof {
        lemma_pow10_mono(0, 18);
        lemma_pow10_18();
    }
    while i < n
        invariant
            i <= n <= 18,
            r as int == pow10(i as nat),
            pow10(18) == 1_000_000_000_000_000_000,
        decreases n - i,
    {
        proof {
            lemma_pow10_mono((i + 1) as nat, 18);
        }
        r = r * 10;
        i = i + 1;
    }
    r
}

/// `parse_i64` with the error message of `amount_to_bigint`.
fn parse_part(part: &str, label: &str) -> (res: Result<i64, String>)
    ensures
        match res {
            Ok(v) => parse_i64_spec(part@) == Ok::<int, IntErrorKind>(v as int),
            Err(m) => exists|k: IntErrorKind|
                parse_i64_spec(part@) == Err::<int, IntErrorKind>(k) && m@ == quoted(
                    label@,
                    part@,
                    "': "@,
                ) + int_error_text(k),
        },
{
    match parse_i64(part) {
        Ok(v) => Ok(v),
        Err(k) => {
            let mut m = owned(label);
            push_str(&mut m, part);
            push_str(&mut m, "': ");
            let e = int_error_message(k);
            push_str(&mut m, e.as_str());
            Err(m)
        },
    }
}

/// Convert a decimal amount string (e.g., "100.00") to a BigInt value for SplitPro.
///
/// SplitPro stores amounts as BigInt in the smallest currency unit (cents):
/// "100" becomes 10000, "50.5" becomes 5050, "50.505" rounds to 5051.
pub fn amount_to_bigint(amount_str: &str) -> (res: Result<i64, String>)
    requires
        amount_to_bigint_fits(amount_str@),
    ensures
        match res {
            Ok(v) => amount_to_bigint_spec(amount_str@) == Ok::<int, Seq<char>>(v as int),
            Err(m) => amount_to_bigint_spec(amount_str@) == Err::<int, Seq<char>>(m@),
        },
{
    let t_owned = trim(amount_str);
    let t = t_owned.as_str();
    let n = t.unicode_len();
    if n == 0 {
        return Err(owned("Empty amount string"));
    }
    let first = find_char(t, '.', 0);
    match first {
        None => {
            match parse_part(t, "Invalid whole number '") {
                Ok(w) => Ok(w * 100),
                Err(m) => Err(m),
            }
        },
        Some(p) => {
            let second = find_char(t, '.', p + 1);
            if second.is_some() {
                let mut m = owned("Invalid amount format: '");
                push_str(&mut m, t);
                push_str(&mut m, "'");
                return Err(m);
            }
            let a = t.substring_char(0, p);
            let b = t.substring_char(p + 1, n);
            let w = match parse_part(a, "Invalid whole number '") {
                Ok(w) => w,
                Err(m) => {
                    return Err(m);
                },
            };
            let blen = b.unicode_len();
            let d: i64 = if blen == 0 {
                0
            } else {
                match parse_part(b, "Invalid decimal '") {
                    Ok(d) => d,
                    Err(m) => {
                        return Err(m);
                    },
                }
            };
            proof {
                if blen == 1 {
                    // a one-character fraction that parses is a single digit
                    assert(-10 <= d <= 10) by {
                        reveal_with_fuel(scan_i64, 2);
                    }
                }
                if blen > 2 {
                    lemma_pow10_mono(0, (blen - 2) as nat);
                }
            }
            let cents: i64 = if blen == 0 {
                0
            } else if blen == 1 {
                d * 10
            } else if blen == 2 {
                d
            } else {
                let divisor = pow10_exec(blen - 2);
                let num = d + divisor / 2;
                num / divisor
            };
            assert(cents == fraction_to_cents(d as int, b@.len()));
            assert(t@.subrange(0, p as int) == a@);
            assert(t@.subrange(p + 1, t@.len() as int) == b@);
            let neg_text = starts_with_char(t, '-');
            let mag: i64 = if w < 0 {
                -w
            } else {
                w
            };
            let total = mag * 100 + cents;
            if w < 0 || neg_text {
                Ok(-total)
            } else {
                Ok(total)
            }
        },
    }
}

/// What `bigint_to_amount` returns: the sign, the whole units, a dot and
/// exactly two digits of hundredths.
pub open spec fn bigint_to_amount_spec(n: int) -> Seq<char> {
    let a = if n < 0 {
        -n
    } else {
        n
    };
    let c = a % 100;
    (if n < 0 {
        seq!['-']
    } else {
        Seq::<char>::empty()
    }) + nat_digits((a / 100) as nat) + seq!['.', digit_char(c / 10), digit_char(c % 10)]
}

/// Convert a BigInt value from SplitPro to a decimal amount string.
///
/// E.g., 10000 → "100.00", -5050 → "-50.50".
pub fn bigint_to_amount(bigint: i64) -> (res: String)
    ensures
        res@ == bigint_to_amount_spec(bigint as int),
{
    let mut s = String::new();
    if bigint < 0 {
        push_char(&mut s, '-');
    }
    let abs_val = unsigned_abs(bigint);
    let whole = abs_val / 100;
    let cents = abs_val % 100;
    push_u64_digits(&mut s, whole);
    push_char(&mut s, '.');
    push_char(&mut s, char_of_digit((cents / 10) as u8));
    push_char(&mut s, char_of_digit((cents % 10) as u8));
    let ghost pre = if bigint < 0 {
        seq!['-']
    } else {
        Seq::<char>::empty()
    };
    assert(s@ == pre + nat_digits(whole as nat) + seq![
        '.',
        digit_char((cents / 10) as int),
        digit_char((cents % 10) as int),
    ]);
    s
}

/// Reading back an amount written by `bigint_to_amount` gives the BigInt
/// that was written, for every BigInt except `i64::MIN` (whose amount text
/// overflows the conversion back).
pub proof fn lemma_bigint_amount_roundtrip(n: i64)
    requires
        n != i64::MIN,
    ensures
        amount_to_bigint_fits(bigint_to_amount_spec(n as int)),
        amount_to_bigint_spec(bigint_to_amount_spec(n as int)) == Ok::<int, Seq<char>>(n as int),
{
    let a: int = if n < 0 {
        -n
    } else {
        n as int
    };
    let q: nat = (a / 100) as nat;
    let c: int = a % 100;
    let pre = if n < 0 {
        seq!['-']
    } else {
        Seq::<char>::empty()
    };
    let d = nat_digits(q);
    let c1 = digit_char(c / 10);
    let c2 = digit_char(c % 10);
    let s = bigint_to_amount_spec(n as int);
    assert(s == pre + d + seq!['.', c1, c2]);
    lemma_nat_digits(q);
    lemma_digit_char(c / 10);
    lemma_digit_char(c % 10);
    let p: int = (pre.len() + d.len()) as int;
    assert(s[p] == '.');
    assert(s[p + 1] == c1);
    assert(s[p + 2] == c2);
    assert forall|k: int| 0 <= k < d.len() implies #[trigger] s[pre.len() + k] == d[k] by {}
    // no whitespace at either end
    assert(!is_ws(s[0])) by {
        if n >= 0 {
            assert(s[0] == d[0]);
            lemma_digit_char(digit_value(d[0]));
        }
    }
    assert(trim_start(s) == s);
    assert(s.last() == c2);
    assert(trim_end(s) == s);
    assert(trimmed(s) == s);
    // the one dot
    assert forall|m: int| 0 <= m < p implies s[m] != '.' by {
        if m < pre.len() {
        } else {
            assert(s[m] == d[m - pre.len()]);
            assert(is_digit(d[m - pre.len()]));
        }
    }
    lemma_find_char_at(s, '.', 0, p);
    assert forall|m: int| p + 1 <= m < s.len() implies s[m] != '.' by {}
    lemma_find_char_none(s, '.', p + 1);
    // the whole part
    let wpart = s.subrange(0, p);
    assert(wpart == pre + d);
    assert(q * 100 <= a);
    assert(digits_value(d) == q);
    if n < 0 {
        assert(wpart.subrange(1, wpart.len() as int) == d);
        lemma_scan_digits(wpart, 1);
        assert(parse_i64_spec(wpart) == Ok::<int, IntErrorKind>(-(q as int)));
    } else {
        assert(wpart.subrange(0, wpart.len() as int) == d);
        assert forall|k: int| 0 <= k < wpart.len() implies is_digit(#[trigger] wpart[k]) by {
            assert(wpart[k] == d[k]);
        }
        lemma_scan_digits(wpart, 0);
        assert(wpart[0] == d[0]);
        assert(parse_i64_spec(wpart) == Ok::<int, IntErrorKind>(q as int));
    }
    // the fraction
    let fpart = s.subrange(p + 1, s.len() as int);
    assert(fpart == seq![c1, c2]);
    assert(fpart.subrange(0, 2) == fpart);
    assert(digits_value(fpart) == (c / 10) * 10 + c % 10) by {
        assert(fpart.drop_last() == seq![c1]);
        assert(seq![c1].drop_last() == Seq::<char>::empty());
        assert(digits_value(Seq::<char>::empty()) == 0);
        assert(digits_value(seq![c1]) == c / 10);
        assert(fpart.last() == c2);
        assert(digits_value(fpart) == digits_value(seq![c1]) * 10 + digit_value(c2));
    }
    lemma_scan_digits(fpart, 0);
    assert(parse_i64_spec(fpart) == Ok::<int, IntErrorKind>(c));
    assert(fraction_to_cents(c, 2) == c);
    assert(q * 100 + c == a);
}

/// The metadata path of field `field` of element `i` of the array at `base`.
pub open spec fn array_path(base: Seq<char>, field: Seq<char>, i: nat) -> Seq<char> {
    base + seq!['.'] + nat_digits(i) + seq!['.'] + field
}

/// Generate BigInt metadata paths for an array of participants:
/// "participants.0.amount", "participants.1.amount", and so on.
pub fn bigint_array_paths(base_path: &str, field: &str, count: usize) -> (res: Vec<String>)
    ensures
        res.len() == count,
        forall|i: int| 0 <= i < count ==> #[trigger] res[i]@ == array_path(base_path@, field@, i as nat),
{
    let mut out: Vec<String> = Vec::new();
    let mut i: usize = 0;
    while i < count
        invariant
            i <= count,
            out.len() == i,
            forall|k: int| 0 <= k < i ==> #[trigger] out[k]@ == array_path(base_path@, field@, k as nat),
        decreases count - i,
    {
        let mut p = owned(base_path);
        push_char(&mut p, '.');
        push_u64_digits(&mut p, i as u64);
        push_char(&mut p, '.');
        push_str(&mut p, field);
        out.push(p);
        i = i + 1;
    }
    out
}

/// Whether `key` is one of `paths`.
pub open spec fn listed(paths: Seq<&str>, key: Seq<char>) -> bool {
    exists|i: int| 0 <= i < paths.len() && (#[trigger] paths[i])@ == key
}

/// The SuperJSON type recorded for `key`: "Date" for a date path (the later
/// entry wins), "bigint" for a BigInt path, none otherwise.
pub open spec fn path_tag(bigints: Seq<&str>, dates: Seq<&str>, key: Seq<char>) -> Option<Seq<char>> {
    if listed(dates, key) {
        Some("Date"@)
    } else if listed(bigints, key) {
        Some("bigint"@)
    } else {
        None
    }
}

/// `v` is the one-element array `[t]`.
pub open spec fn is_tag(v: JsonValue, t: Seq<char>) -> bool {
    v matches JsonValue::Array(a) && a@.len() == 1 && json_str(a@[0]) == Some(t)
}

/// Members tagged by `tags`: each member's key has a tag and its value is
/// that tag, keys are distinct, and every tagged key has a member.
pub open spec fn members_tagged(vals: Seq<JsonMember>, tags: spec_fn(Seq<char>) -> Option<Seq<char>>) -> bool {
    &&& forall|k: int|
        0 <= k < vals.len() ==> (tags((#[trigger] vals[k]).key@) matches Some(t) && is_tag(vals[k].value, t))
    &&& forall|i: int, j: int| 0 <= i < j < vals.len() ==> (#[trigger] vals[i]).key@ != (#[trigger] vals[j]).key@
    &&& forall|key: Seq<char>|
        #[trigger] tags(key) is Some ==> exists|k: int| 0 <= k < vals.len() && (#[trigger] vals[k]).key@ == key
}

/// The members of `meta.values`: one per listed path, with its tag.
pub open spec fn meta_values_match(vals: Seq<JsonMember>, bigints: Seq<&str>, dates: Seq<&str>) -> bool {
    members_tagged(vals, |key: Seq<char>| path_tag(bigints, dates, key))
}

/// `{"values": {..}}` with the members of `meta_values_match`.
pub open spec fn meta_matches(meta: JsonValue, bigints: Seq<&str>, dates: Seq<&str>) -> bool {
    match meta {
        JsonValue::Object(mm) => mm@.len() == 1 && mm@[0].key@ == "values"@ && match mm@[0].value {
            JsonValue::Object(vals) => meta_values_match(vals@, bigints, dates),
            _ => false,
        },
        _ => false,
    }
}

/// The one-element array `[t]`.
fn tag(t: &str) -> (res: JsonValue)
    ensures
        is_tag(res, t@),
{
    let mut a: Vec<JsonValue> = Vec::new();
    a.push(JsonValue::String(owned(t)));
    JsonValue::Array(a)
}

pub open spec fn has_key(m: Seq<JsonMember>, key: Seq<char>) -> bool {
    exists|k: int| 0 <= k < m.len() && (#[trigger] m[k]).key@ == key
}

/// `after` is `before` with member `key` set to `value`: replaced in place
/// where it exists, appended otherwise.
pub open spec fn member_set(before: Seq<JsonMember>, after: Seq<JsonMember>, key: Seq<char>, value: JsonValue) -> bool {
    if has_key(before, key) {
        &&& after.len() == before.len()
        &&& forall|k: int|
            0 <= k < before.len() ==> (#[trigger] after[k]).key@ == before[k].key@ && (before[k].key@
                == key ==> after[k].value == value) && (before[k].key@ != key ==> after[k] == before[k])
    } else {
        &&& after.len() == before.len() + 1
        &&& forall|k: int| 0 <= k < before.len() ==> #[trigger] after[k] == before[k]
        &&& after[before.len() as int].key@ == key
        &&& after[before.len() as int].value == value
    }
}

/// Sets member `key` of `m` to `value`.
fn set_member(m: &mut Vec<JsonMember>, key: &str, value: JsonValue)
    requires
        forall|i: int, j: int| 0 <= i < j < old(m)@.len() ==> (#[trigger] old(m)@[i]).key@ != (#[trigger] old(m)@[j]).key@,
    ensures
        member_set(old(m)@, final(m)@, key@, value),
{
    let mut k: usize = 0;
    while k < m.len()
        invariant
            k <= m@.len(),
            m@ == old(m)@,
            forall|i: int, j: int| 0 <= i < j < old(m)@.len() ==> (#[trigger] old(m)@[i]).key@ != (#[trigger] old(m)@[j]).key@,
            forall|j: int| 0 <= j < k ==> (#[trigger] m@[j]).key@ != key@,
        decreases m@.len() - k,
    {
        if str_eq(m[k].key.as_str(), key) {
            m[k].value = value;
            proof {
                assert(has_key(old(m)@, key@)) by {
                    assert(old(m)@[k as int].key@ == key@);
                }
                assert forall|j: int| 0 <= j < old(m)@.len() && old(m)@[j].key@ == key@ implies j == k by {
                    if j < k {
                        assert(old(m)@[j].key@ != key@);
                    } else if j > k {
                        assert(old(m)@[k as int].key@ != old(m)@[j].key@);
                    }
                }
            }
            assert(m@[k as int].key@ == old(m)@[k as int].key@);
            return;
        }
        k = k + 1;
    }
    m.push(JsonMember { key: owned(key), value });
}

/// Setting a member keeps the members tagged when the tags change only at
/// that key, to the tag the member is given.
proof fn lemma_member_set_tagged(
    before: Seq<JsonMember>,
    after: Seq<JsonMember>,
    key: Seq<char>,
    t: Seq<char>,
    value: JsonValue,
    old_tags: spec_fn(Seq<char>) -> Option<Seq<char>>,
    new_tags: spec_fn(Seq<char>) -> Option<Seq<char>>,
)
    requires
        members_tagged(before, old_tags),
        member_set(before, after, key, value),
        is_tag(value, t),
        forall|k: Seq<char>| #[trigger] new_tags(k) == if k == key { Some(t) } else { old_tags(k) },
    ensures
        members_tagged(after, new_tags),
{
    assert forall|k: int| 0 <= k < after.len() implies (new_tags((#[trigger] after[k]).key@) matches Some(tt) && is_tag(after[k].value, tt)) by {
        if k < before.len() {
            assert(old_tags(before[k].key@) is Some);
        }
    }
    assert forall|i: int, j: int| 0 <= i < j < after.len() implies (#[trigger] after[i]).key@ != (#[trigger] after[j]).key@ by {
        if j < before.len() {
            assert(before[i].key@ != before[j].key@);
        } else {
            assert(!has_key(before, key));
            assert(before[i].key@ != key);
        }
    }
    assert forall|kk: Seq<char>| #[trigger] new_tags(kk) is Some implies exists|k: int| 0 <= k < after.len() && (#[trigger] after[k]).key@ == kk by {
        if kk == key {
            if has_key(before, key) {
                let w = choose|w: int| 0 <= w < before.len() && (#[trigger] before[w]).key@ == key;
                assert(after[w].key@ == kk);
            } else {
                assert(after[before.len() as int].key@ == kk);
            }
        } else {
            assert(old_tags(kk) is Some);
            let w = choose|w: int| 0 <= w < before.len() && (#[trigger] before[w]).key@ == kk;
            assert(after[w].key@ == kk);
        }
    }
}

proof fn lemma_listed_take(s: Seq<&str>, i: int)
    requires
        0 <= i < s.len(),
    ensures
        forall|key: Seq<char>| #[trigger] listed(s.take(i + 1), key) <==> (listed(s.take(i), key) || key == s[i]@),
{
    let a = s.take(i);
    let b = s.take(i + 1);
    assert forall|key: Seq<char>| #[trigger] listed(b, key) <==> (listed(a, key) || key == s[i]@) by {
        if listed(b, key) {
            let w = choose|w: int| 0 <= w < b.len() && (#[trigger] b[w])@ == key;
            if w < i {
                assert(a[w] == b[w]);
            }
        }
        if listed(a, key) {
            let w = choose|w: int| 0 <= w < a.len() && (#[trigger] a[w])@ == key;
            assert(b[w] == a[w]);
        }
        if key == s[i]@ {
            assert(b[i] == s[i]);
        }
    }
}

/// The members of `meta.values` for the given BigInt and Date paths.
fn meta_values(bigint_paths: &[&str], date_paths: &[&str]) -> (res: Vec<JsonMember>)
    ensures
        meta_values_match(res@, bigint_paths@, date_paths@),
        res@.len() == 0 <==> (bigint_paths@.len() == 0 && date_paths@.len() == 0),
{
    let ghost bs = bigint_paths@;
    let ghost ds = date_paths@;
    let ghost empty = Seq::<&str>::empty();
    let mut vals: Vec<JsonMember> = Vec::new();
    assert(bs.take(0) =~= empty);
    let mut i: usize = 0;
    while i < bigint_paths.len()
        invariant
            bs == bigint_paths@,
            empty == Seq::<&str>::empty(),
            i <= bs.len(),
            meta_values_match(vals@, bs.take(i as int), empty),
            i > 0 ==> vals@.len() > 0,
            i == 0 ==> vals@.len() == 0,
        decreases bs.len() - i,
    {
        let ghost before = vals@;
        let v = tag("bigint");
        set_member(&mut vals, bigint_paths[i], v);
        proof {
            lemma_listed_take(bs, i as int);
            lemma_member_set_tagged(
                before,
                vals@,
                bs[i as int]@,
                "bigint"@,
                v,
                |key: Seq<char>| path_tag(bs.take(i as int), empty, key),
                |key: Seq<char>| path_tag(bs.take(i + 1), empty, key),
            );
        }
        i = i + 1;
    }
    assert(bs.take(bs.len() as int) == bs);
    assert(ds.take(0) =~= empty);
    let mut j: usize = 0;
    while j < date_paths.len()
        invariant
            bs == bigint_paths@,
            ds == date_paths@,
            j <= ds.len(),
            meta_values_match(vals@, bs, ds.take(j as int)),
            bs.len() > 0 || j > 0 ==> vals@.len() > 0,
            bs.len() == 0 && j == 0 ==> vals@.len() == 0,
        decreases ds.len() - j,
    {
        let ghost before = vals@;
        let v = tag("Date");
        set_member(&mut vals, date_paths[j], v);
        proof {
            lemma_listed_take(ds, j as int);
            lemma_member_set_tagged(
                before,
                vals@,
                ds[j as int]@,
                "Date"@,
                v,
                |key: Seq<char>| path_tag(bs, ds.take(j as int), key),
                |key: Seq<char>| path_tag(bs, ds.take(j + 1), key),
            );
        }
        j = j + 1;
    }
    assert(ds.take(ds.len() as int) == ds);
    vals
}

/// Encodes a tRPC mutation body: `{"json": data}`, with
/// `"meta": {"values": {path: ["bigint"] | ["Date"], ..}}` when any path is
/// given (a path listed as both is recorded as a Date).
pub fn encode_mutation_body_with_dates(data: JsonValue, bigint_paths: &[&str], date_paths: &[&str]) -> (res: JsonValue)
    ensures
        res matches JsonValue::Object(m) && {
            &&& m@.len() >= 1
            &&& m@[0].key@ == "json"@
            &&& m@[0].value == data
            &&& (bigint_paths@.len() == 0 && date_paths@.len() == 0) ==> m@.len() == 1
            &&& !(bigint_paths@.len() == 0 && date_paths@.len() == 0) ==> {
                &&& m@.len() == 2
                &&& m@[1].key@ == "meta"@
                &&& meta_matches(m@[1].value, bigint_paths@, date_paths@)
            }
        },
{
    let vals = meta_values(bigint_paths, date_paths);
    let mut m: Vec<JsonMember> = Vec::new();
    m.push(JsonMember { key: owned("json"), value: data });
    if vals.len() > 0 {
        let mut meta: Vec<JsonMember> = Vec::new();
        meta.push(JsonMember { key: owned("values"), value: JsonValue::Object(vals) });
        m.push(JsonMember { key: owned("meta"), value: JsonValue::Object(meta) });
    }
    JsonValue::Object(m)
}

/// Encodes a tRPC mutation body with BigInt paths only.
pub fn encode_mutation_body(data: JsonValue, bigint_paths: &[&str]) -> (res: JsonValue)
    ensures
        res matches JsonValue::Object(m) && {
            &&& m@.len() >= 1
            &&& m@[0].key@ == "json"@
            &&& m@[0].value == data
            &&& bigint_paths@.len() == 0 ==> m@.len() == 1
            &&& bigint_paths@.len() != 0 ==> {
                &&& m@.len() == 2
                &&& m@[1].key@ == "meta"@
                &&& meta_matches(m@[1].value, bigint_paths@, Seq::<&str>::empty())
            }
        },
{
    let none: Vec<&str> = Vec::new();
    encode_mutation_body_with_dates(data, bigint_paths, none.as_slice())
}

/// The first element of an array, or the value itself: where tRPC puts the
/// answer of a batch or of a single call.
pub open spec fn trpc_item(response: JsonValue) -> Option<JsonValue> {
    match json_array(response) {
        Some(a) => if a.len() > 0 {
            Some(a[0])
        } else {
            None
        },
        None => Some(response),
    }
}

/// The data of a tRPC answer: `result.data.json`, or `result.data` when it
/// has no SuperJSON envelope.
pub open spec fn decoded_data(response: JsonValue) -> Option<JsonValue> {
    match trpc_item(response) {
        Some(item) => match json_get(item, "result"@) {
            Some(result) => match json_get(result, "data"@) {
                Some(data) => match json_get(data, "json"@) {
                    Some(j) => Some(j),
                    None => Some(data),
                },
                None => None,
            },
            None => None,
        },
        None => None,
    }
}

/// The first item of a batch answer, or the answer itself.
fn first_item(response: &JsonValue) -> (res: Option<&JsonValue>)
    ensures
        match res {
            Some(r) => trpc_item(*response) == Some(*r),
            None => trpc_item(*response) is None,
        },
{
    match response.as_array() {
        Some(arr) => if arr.len() > 0 {
            Some(&arr[0])
        } else {
            None
        },
        None => Some(response),
    }
}

/// Decodes a SuperJSON answer from tRPC (a batch `[{"result": ..}]` or a
/// single `{"result": ..}`): the data inside `result.data.json`, or
/// `result.data` itself when there is no envelope.
pub fn decode_response(response: &JsonValue) -> (res: Option<&JsonValue>)
    ensures
        match res {
            Some(r) => decoded_data(*response) == Some(*r),
            None => decoded_data(*response) is None,
        },
{
    let item = match first_item(response) {
        Some(i) => i,
        None => {
            return None;
        },
    };
    let result = match item.get("result") {
        Some(r) => r,
        None => {
            return None;
        },
    };
    let data = match result.get("data") {
        Some(d) => d,
        None => {
            return None;
        },
    };
    match data.get("json") {
        Some(j) => Some(j),
        None => Some(data),
    }
}

/// The (code, message) of a tRPC error answer.
pub open spec fn decoded_error(response: JsonValue) -> Option<(Seq<char>, Seq<char>)> {
    match trpc_item(response) {
        Some(item) => match json_get(item, "error"@) {
            Some(err) => {
                let code = match json_get(err, "data"@) {
                    Some(d) => match json_get(d, "code"@) {
                        Some(c) => match json_str(c) {
                            Some(s) => s,
                            None => "UNKNOWN"@,
                        },
                        None => "UNKNOWN"@,
                    },
                    None => "UNKNOWN"@,
                };
                let message = match json_get(err, "message"@) {
                    Some(m) => match json_str(m) {
                        Some(s) => s,
                        None => "Unknown error"@,
                    },
                    None => "Unknown error"@,
                };
                Some((code, message))
            },
            None => None,
        },
        None => None,
    }
}

/// Decodes a tRPC error answer (`[{"error": ..}]` or `{"error": ..}`):
/// `error.data.code` (default "UNKNOWN") and `error.message` (default
/// "Unknown error"); `None` when the answer is no error.
pub fn decode_error(response: &JsonValue) -> (res: Option<(String, String)>)
    ensures
        match res {
            Some(p) => decoded_error(*response) == Some((p.0@, p.1@)),
            None => decoded_error(*response) is None,
        },
{
    let item = match first_item(response) {
        Some(i) => i,
        None => {
            return None;
        },
    };
    let err = match item.get("error") {
        Some(e) => e,
        None => {
            return None;
        },
    };
    let code = match err.get("data") {
        Some(d) => match d.get("code") {
            Some(c) => match c.as_str() {
                Some(s) => owned(s),
                None => owned("UNKNOWN"),
            },
            None => owned("UNKNOWN"),
        },
        None => owned("UNKNOWN"),
    };
    let message = match err.get("message") {
        Some(m) => match m.as_str() {
            Some(s) => owned(s),
            None => owned("Unknown error"),
        },
        None => owned("Unknown error"),
    };
    Some((code, message))
}

/// The text `serde_json` writes for a JSON value (`Value::to_string`).
pub uninterp spec fn json_text(v: JsonView) -> Seq<char>;

/// A JSON value as a `serde_json::Value`, member for member (a real number
/// `serde_json` cannot read becomes `null`).
#[verifier::external_body]
fn to_serde(v: &JsonValue) -> serde_json::Value {
    match v {
        JsonValue::Null => serde_json::Value::Null,
        JsonValue::Bool(b) => serde_json::Value::Bool(*b),
        JsonValue::Number(n) => number_to_serde(n),
        JsonValue::String(s) => serde_json::Value::String(s.clone()),
        JsonValue::Array(a) => serde_json::Value::Array(a.iter().map(to_serde).collect()),
        JsonValue::Object(m) => serde_json::Value::Object(m.iter().map(|x| (x.key.clone(), to_serde(&x.value))).collect()),
    }
}

/// A JSON number as a `serde_json::Value` (a real number `serde_json`
/// cannot read becomes `null`).
#[verifier::external_body]
fn number_to_serde(n: &JsonNumber) -> serde_json::Value {
    match n {
        JsonNumber::Int(i) => serde_json::Value::from(*i),
        JsonNumber::UInt(u) => serde_json::Value::from(*u),
        JsonNumber::Real(t) => t.parse::<serde_json::Number>().map(serde_json::Value::Number).unwrap_or(serde_json::Value::Null),
    }
}

/// `serde_json::Value::to_string` of a JSON value (named by `json_text`).
#[verifier::external_body]
pub(crate) fn json_to_text(v: &JsonValue) -> (res: String)
    ensures
        res@ == json_text(json_view(*v)),
{
    to_serde(v).to_string()
}

/// `b` is the body `encode_mutation_body` makes of data viewed as `data`
/// with BigInt paths `paths`.
pub open spec fn mutation_body_of(b: JsonValue, data: JsonView, paths: Seq<&str>) -> bool {
    b matches JsonValue::Object(m) && {
        &&& m@.len() >= 1
        &&& m@[0].key@ == "json"@
        &&& json_view(m@[0].value) == data
        &&& paths.len() == 0 ==> m@.len() == 1
        &&& paths.len() != 0 ==> {
            &&& m@.len() == 2
            &&& m@[1].key@ == "meta"@
            &&& meta_matches(m@[1].value, paths, Seq::<&str>::empty())
        }
    }
}

/// The `input` query parameter of a tRPC query: the SuperJSON body of the
/// data (`encode_mutation_body`), written as JSON text and URL-encoded.
pub fn encode_query_input(data: &JsonValue, bigint_paths: &[&str]) -> (res: String)
    ensures
        exists|b: JsonValue|
            mutation_body_of(b, json_view(*data), bigint_paths@) && res@ == percent_encode(
                vstd::utf8::encode_utf8(json_text(#[trigger] json_view(b))),
            ),
{
    let body = encode_mutation_body(copy_json(data), bigint_paths);
    let text = json_to_text(&body);
    let res = url_encode(text.as_str());
    assert(mutation_body_of(body, json_view(*data), bigint_paths@));
    res
}

/// Whether `s` is an unsigned plain amount: digits, a digit first, with at
/// most one decimal point.
pub open spec fn plain_amount(s: Seq<char>) -> bool {
    &&& s.len() > 0
    &&& is_digit(s[0])
    &&& forall|i: int| 0 <= i < s.len() ==> is_digit(#[trigger] s[i]) || s[i] == '.'
    &&& forall|i: int, j: int| 0 <= i < j < s.len() && #[trigger] s[i] == '.' ==> #[trigger] s[j] != '.'
}

proof fn lemma_find_shift(s: Seq<char>, c: char, from: int)
    requires
        0 <= from,
    ensures
        match find_char_from(s, c, from) {
            Some(k) => find_char_from(seq!['-'] + s, c, from + 1) == Some(k + 1),
            None => find_char_from(seq!['-'] + s, c, from + 1) is None,
        },
    decreases s.len() - from,
{
    let t = seq!['-'] + s;
    if from < s.len() {
        assert(t[from + 1] == s[from]);
        if s[from] != c {
            lemma_find_shift(s, c, from + 1);
        }
    }
}

proof fn lemma_scan_negated(a: Seq<char>, i: int, acc: int)
    requires
        0 <= i <= a.len(),
        0 <= acc <= i64::MAX,
        forall|k: int| 0 <= k < a.len() ==> is_digit(#[trigger] a[k]),
        scan_i64(a, i, acc, true) is Ok,
    ensures
        scan_i64(a, i, acc, true)->Ok_0 >= 0,
        scan_i64(seq!['-'] + a, i + 1, -acc, false) == Ok::<int, IntErrorKind>(-scan_i64(a, i, acc, true)->Ok_0),
    decreases a.len() - i,
{
    let t = seq!['-'] + a;
    if i < a.len() {
        assert(t[i + 1] == a[i]);
        let next = acc * 10 + digit_value(a[i]);
        assert(-acc * 10 - digit_value(a[i]) == -next);
        lemma_scan_negated(a, i + 1, next);
    }
}

/// A leading minus negates an amount: for an unsigned plain amount that
/// converts, the same amount with `-` in front converts to the negated
/// number of hundredths (so `"-0.50"` gives `-50`).
pub proof fn lemma_amount_negation(s: Seq<char>)
    requires
        plain_amount(s),
        amount_to_bigint_spec(s) is Ok,
    ensures
        amount_to_bigint_spec(seq!['-'] + s) == Ok::<int, Seq<char>>(-amount_to_bigint_spec(s)->Ok_0),
{
    let t = seq!['-'] + s;
    assert forall|i: int| 0 <= i < s.len() implies !is_ws(#[trigger] s[i]) by {
        assert(is_digit(s[i]) || s[i] == '.');
    }
    assert forall|i: int| 0 <= i < t.len() implies !is_ws(#[trigger] t[i]) by {
        if i > 0 {
            assert(t[i] == s[i - 1]);
            assert(is_digit(s[i - 1]) || s[i - 1] == '.');
        }
    }
    lemma_trim_no_ws(s);
    lemma_trim_no_ws(t);
    lemma_find_shift(s, '.', 0);
    assert(find_char_from(t, '.', 0) == find_char_from(t, '.', 1));
    lemma_find_char_from(s, '.', 0);
    match first_dot(s) {
        None => {
            assert(s[0] != '-' && s[0] != '+');
            lemma_scan_negated(s, 0, 0);
            assert(t.len() > 1 && t[0] == '-');
        },
        Some(p) => {
            assert(p >= 1) by {
                assert(s[0] != '.');
            }
            lemma_find_shift(s, '.', p + 1);
            let a = s.subrange(0, p);
            let b = s.subrange(p + 1, s.len() as int);
            let a2 = t.subrange(0, p + 1);
            let b2 = t.subrange(p + 2, t.len() as int);
            assert(a2 =~= seq!['-'] + a);
            assert(b2 =~= b);
            assert forall|k: int| 0 <= k < a.len() implies is_digit(#[trigger] a[k]) by {
                assert(a[k] == s[k]);
                assert(s[k] != '.');
            }
            assert(a[0] != '-' && a[0] != '+');
            lemma_scan_negated(a, 0, 0);
            assert(a2.len() > 1 && a2[0] == '-');
        },
    }
}

} // verus!
