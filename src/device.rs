use vstd::prelude::*;

use crate::model::ZBBError;
use crate::text::{digits_value, is_digit_spec, trim, trim_bounds, utf8_chars, utf8_text};

verus! {

/// What follows the first `c` in `s`, if `c` occurs.
pub open spec fn after_first(s: Seq<char>, c: char) -> Option<Seq<char>>
    decreases s.len(),
{
    if s.len() == 0 {
        None
    } else if s[0] == c {
        Some(s.drop_first())
    } else {
        after_first(s.drop_first(), c)
    }
}

/// What comes before the first `c` in `s`; all of `s` if `c` does not occur.
pub open spec fn before_first(s: Seq<char>, c: char) -> Seq<char>
    decreases s.len(),
{
    if s.len() == 0 {
        s
    } else if s[0] == c {
        Seq::empty()
    } else {
        seq![s[0]] + before_first(s.drop_first(), c)
    }
}

/// The index of the first `c` in `s[from..]`, or the length of `s`.
fn find_char(s: &Vec<char>, from: usize, c: char) -> (r: usize)
    requires
        from <= s@.len(),
    ensures
        from <= r <= s@.len(),
        r < s@.len() ==> s@[r as int] == c,
        after_first(s@.subrange(from as int, s@.len() as int), c) == if r < s@.len() {
            Some(s@.subrange(r + 1, s@.len() as int))
        } else {
            None::<Seq<char>>
        },
        before_first(s@.subrange(from as int, s@.len() as int), c) == s@.subrange(
            from as int,
            r as int,
        ),
{
    let n = s.len();
    let mut i: usize = from;
    while i < n && s[i] != c
        invariant
            from <= i <= n == s@.len(),
            forall|k: int| from <= k < i ==> s@[k] != c,
        decreases n - i,
    {
        i = i + 1;
    }
    proof {
        lemma_split_at(s@, from as int, i as int, c);
    }
    i
}

proof fn lemma_split_at(s: Seq<char>, from: int, i: int, c: char)
    requires
        0 <= from <= i <= s.len(),
        forall|k: int| from <= k < i ==> s[k] != c,
        i < s.len() ==> s[i] == c,
    ensures
        after_first(s.subrange(from, s.len() as int), c) == if i < s.len() {
            Some(s.subrange(i + 1, s.len() as int))
        } else {
            None::<Seq<char>>
        },
        before_first(s.subrange(from, s.len() as int), c) == s.subrange(from, i),
    decreases i - from,
{
    let t = s.subrange(from, s.len() as int);
    if from == i {
        if i < s.len() {
            assert(t.drop_first() =~= s.subrange(i + 1, s.len() as int));
        }
        assert(s.subrange(from, i) =~= Seq::<char>::empty());
    } else {
        lemma_split_at(s, from + 1, i, c);
        assert(t.drop_first() =~= s.subrange(from + 1, s.len() as int));
        assert(s.subrange(from, i) =~= seq![s[from]] + s.subrange(from + 1, i));
    }
}

/// Whether a command's output is empty; `pidof` prints nothing for a package
/// that is not running.
pub fn is_running(output: &Vec<u8>) -> (r: bool)
    ensures
        r == (output@.len() > 0),
{
    output.len() > 0
}

/// The text `true`.
pub open spec fn true_text() -> Seq<char> {
    seq!['t', 'r', 'u', 'e']
}

/// Whether a `mScreenOn=...` line says that the screen is on: the text after
/// the first `=`, with white space at its ends left out, is `true`.
pub open spec fn screen_on(t: Seq<char>) -> bool {
    match after_first(t, '=') {
        Some(v) => trim(v) == true_text(),
        None => false,
    }
}

/// Whether the screen is on, from the output of `dumpsys deviceidle | grep mScreenOn`.
pub fn is_screen_on(output: Vec<u8>) -> (r: Result<bool, ZBBError>)
    ensures
        match utf8_text(output@) {
            None => r matches Err(ZBBError::Other(m)) && m@ == crate::connect::not_text_message(),
            Some(t) => r == Ok::<bool, ZBBError>(screen_on(t)),
        },
{
    let text = match utf8_chars(output) {
        Some(t) => t,
        None => {
            return Err(ZBBError::Other("device output is not valid UTF-8".to_string()));
        },
    };
    let n = text.len();
    let eq = find_char(&text, 0, '=');
    assert(text@.subrange(0, n as int) =~= text@);
    if eq >= n {
        return Ok(false);
    }
    let mut rest: Vec<char> = Vec::new();
    let mut i: usize = eq + 1;
    while i < n
        invariant
            eq + 1 <= i <= n == text@.len(),
            rest@ == text@.subrange(eq + 1, i as int),
        decreases n - i,
    {
        rest.push(text[i]);
        i = i + 1;
        assert(rest@ =~= text@.subrange(eq + 1, i as int));
    }
    let (lo, hi) = trim_bounds(&rest);
    if hi - lo != 4 {
        assert(rest@.subrange(lo as int, hi as int).len() != true_text().len());
        return Ok(false);
    }
    let on = rest[lo] == 't' && rest[lo + 1] == 'r' && rest[lo + 2] == 'u' && rest[lo + 3] == 'e';
    assert(rest@.subrange(lo as int, hi as int)[0] == rest@[lo as int]);
    assert(rest@.subrange(lo as int, hi as int)[1] == rest@[lo + 1]);
    assert(rest@.subrange(lo as int, hi as int)[2] == rest@[lo + 2]);
    assert(rest@.subrange(lo as int, hi as int)[3] == rest@[lo + 3]);
    if on {
        assert(rest@.subrange(lo as int, hi as int) =~= true_text());
    }
    Ok(on)
}

/// Every character of `s` is an ASCII digit.
pub open spec fn all_digits(s: Seq<char>) -> bool {
    forall|i: int| 0 <= i < s.len() ==> is_digit_spec(#[trigger] s[i])
}

/// The value of `s` read as an `i32` the way `str::parse::<i32>` reads it: an
/// optional `+` or `-`, then at least one ASCII digit, and a value in range.
pub open spec fn i32_text(s: Seq<char>) -> Option<int> {
    let signed = s.len() > 0 && (s[0] == '-' || s[0] == '+');
    let digits = if signed {
        s.drop_first()
    } else {
        s
    };
    let v = if signed && s[0] == '-' {
        -digits_value(digits)
    } else {
        digits_value(digits)
    };
    if digits.len() == 0 || !all_digits(digits) || v < i32::MIN || v > i32::MAX {
        None
    } else {
        Some(v)
    }
}

proof fn lemma_digits_value_grows(s: Seq<char>, j: int)
    requires
        all_digits(s),
        0 <= j <= s.len(),
    ensures
        0 <= digits_value(s.subrange(0, j)) <= digits_value(s),
    decreases s.len(),
{
    if j < s.len() {
        let t = s.drop_last();
        assert(all_digits(t)) by {
            assert forall|i: int| 0 <= i < t.len() implies is_digit_spec(#[trigger] t[i]) by {
                assert(t[i] == s[i]);
            }
        }
        lemma_digits_value_grows(t, j);
        assert(t.subrange(0, j) =~= s.subrange(0, j));
        assert(is_digit_spec(s[s.len() - 1]));
        lemma_digits_value_grows(t, t.len() as int);
        assert(t.subrange(0, t.len() as int) =~= t);
    } else {
        assert(s.subrange(0, j) =~= s);
        if s.len() > 0 {
            let t = s.drop_last();
            assert(all_digits(t)) by {
                assert forall|i: int| 0 <= i < t.len() implies is_digit_spec(#[trigger] t[i]) by {
                    assert(t[i] == s[i]);
                }
            }
            lemma_digits_value_grows(t, t.len() as int);
            assert(t.subrange(0, t.len() as int) =~= t);
            assert(is_digit_spec(s[s.len() - 1]));
        }
    }
}

/// Reads `s` as an `i32`, as `str::parse::<i32>` does.
pub fn parse_i32(s: &Vec<char>) -> (r: Option<i32>)
    ensures
        match r {
            Some(v) => i32_text(s@) == Some(v as int),
            None => i32_text(s@) is None,
        },
{
    let n = s.len();
    let signed = n > 0 && (s[0] == '-' || s[0] == '+');
    let negative = signed && s[0] == '-';
    let start: usize = if signed {
        1
    } else {
        0
    };
    let ghost digits = s@.subrange(start as int, n as int);
    assert(signed ==> digits =~= s@.drop_first());
    assert(!signed ==> digits =~= s@);
    if start == n {
        return None;
    }
    let limit: u64 = 2147483648;
    let mut v: u64 = 0;
    let mut i: usize = start;
    while i < n
        invariant
            start <= i <= n == s@.len(),
            digits == s@.subrange(start as int, n as int),
            limit == 2147483648u64,
            signed == (s@.len() > 0 && (s@[0] == '-' || s@[0] == '+')),
            negative == (signed && s@[0] == '-'),
            start == (if signed { 1usize } else { 0usize }),
            signed ==> digits == s@.drop_first(),
            !signed ==> digits == s@,
            v <= limit,
            v == digits_value(s@.subrange(start as int, i as int)),
            forall|k: int| start <= k < i ==> is_digit_spec(#[trigger] s@[k]),
        decreases n - i,
    {
        let c = s[i];
        if !('0' <= c && c <= '9') {
            assert(digits[i - start] == s@[i as int]);
            assert(!all_digits(digits));
            assert(i32_text(s@) is None);
            return None;
        }
        assert(s@.subrange(start as int, i + 1).drop_last() =~= s@.subrange(start as int, i as int));
        let d = (c as u32 - '0' as u32) as u64;
        if v > (limit - d) / 10 {
            proof {
                let p = s@.subrange(start as int, i + 1);
                assert(digits_value(p) == v * 10 + d);
                assert(v * 10 + d > limit) by (nonlinear_arith)
                    requires v > (limit - d) / 10, d <= 9, limit == 2147483648u64;
                if all_digits(digits) {
                    lemma_digits_value_grows(digits, i + 1 - start);
                    assert(digits.subrange(0, i + 1 - start) =~= p);
                    assert(digits_value(digits) > limit);
                }
                assert(i32_text(s@) is None);
            }
            return None;
        }
        assert(v * 10 + d <= limit) by (nonlinear_arith)
            requires v <= (limit - d) / 10, d <= 9, limit == 2147483648u64;
        v = v * 10 + d;
        i = i + 1;
    }
    assert(s@.subrange(start as int, n as int) =~= digits);
    assert(all_digits(digits)) by {
        assert forall|k: int| 0 <= k < digits.len() implies is_digit_spec(#[trigger] digits[k]) by {
            assert(digits[k] == s@[start + k]);
        }
    }
    if negative {
        Some((0 - v as i64) as i32)
    } else if v > 2147483647 {
        None
    } else {
        Some(v as i32)
    }
}

/// The battery level that `dumpsys battery | grep level` reports: the text
/// between the first `:` and the next, read as an integer.
pub open spec fn battery_level(t: Seq<char>) -> Option<int> {
    match after_first(t, ':') {
        Some(rest) => i32_text(trim(before_first(rest, ':'))),
        None => None,
    }
}

/// The message given when the battery output cannot be decoded.
pub open spec fn battery_unreadable_message() -> Seq<char> {
    "Konnte Batteriestand nicht holen."@
}

/// The message given when the battery output holds no level.
pub open spec fn battery_unknown_message() -> Seq<char> {
    "Unbekannter Batteriestand"@
}

/// The battery level, from the output of `dumpsys battery | grep level`.
pub fn get_battery_level(output: Vec<u8>) -> (r: Result<i32, ZBBError>)
    ensures
        match utf8_text(output@) {
            None => r matches Err(ZBBError::Other(m)) && m@ == battery_unreadable_message(),
            Some(t) => match battery_level(t) {
                Some(v) => r == Ok::<i32, ZBBError>(v as i32),
                None => r matches Err(ZBBError::Other(m)) && m@ == battery_unknown_message(),
            },
        },
{
    let text = match utf8_chars(output) {
        Some(t) => t,
        None => {
            return Err(ZBBError::Other("Konnte Batteriestand nicht holen.".to_string()));
        },
    };
    let n = text.len();
    assert(text@.subrange(0, n as int) =~= text@);
    let colon = find_char(&text, 0, ':');
    if colon >= n {
        return Err(ZBBError::Other("Unbekannter Batteriestand".to_string()));
    }
    let next = find_char(&text, colon + 1, ':');
    let mut field: Vec<char> = Vec::new();
    let mut i: usize = colon + 1;
    while i < next
        invariant
            colon + 1 <= i <= next <= n == text@.len(),
            field@ == text@.subrange(colon + 1, i as int),
        decreases next - i,
    {
        field.push(text[i]);
        i = i + 1;
        assert(field@ =~= text@.subrange(colon + 1, i as int));
    }
    let (lo, hi) = trim_bounds(&field);
    let mut trimmed: Vec<char> = Vec::new();
    let mut j: usize = lo;
    while j < hi
        invariant
            lo <= j <= hi <= field@.len(),
            trimmed@ == field@.subrange(lo as int, j as int),
        decreases hi - j,
    {
        trimmed.push(field[j]);
        j = j + 1;
        assert(trimmed@ =~= field@.subrange(lo as int, j as int));
    }
    match parse_i32(&trimmed) {
        Some(v) => Ok(v),
        None => Err(ZBBError::Other("Unbekannter Batteriestand".to_string())),
    }
}

/// The text of a command's output.
pub fn output_text(output: Vec<u8>) -> (r: Result<String, ZBBError>)
    ensures
        match utf8_text(output@) {
            None => r matches Err(ZBBError::Other(m)) && m@ == crate::connect::not_text_message(),
            Some(t) => r matches Ok(s) && s@ == t,
        },
{
    match utf8_chars(output) {
        Some(t) => Ok(crate::text::string_of(&t)),
        None => Err(ZBBError::Other("device output is not valid UTF-8".to_string())),
    }
}

} // verus!
