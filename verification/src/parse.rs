//! Parsing one line of the fixed three-field layout
//! `<digits> <true|false> <token>` into a structured record.
//!
//! The layout is exact: a non-empty run of decimal digits, whitespace, the
//! word `true` or `false`, whitespace, and a final non-empty token free of
//! whitespace — nothing before, between or after. A line that does not match
//! the layout, or whose number does not fit the machine word, is rejected
//! with `None` rather than aborting, so a caller can tell failure from
//! success and recover.

use vstd::prelude::*;

verus! {

/// One parsed line: a number, a flag and a text token.
#[derive(Debug)]
pub struct LogEntry {
    pub foo: usize,
    pub bar: bool,
    pub baz: String,
}

/// A decimal digit.
pub open spec fn is_digit(c: char) -> bool {
    48 <= c as u32 <= 57
}

/// The whitespace the layout accepts between fields.
pub open spec fn is_space(c: char) -> bool {
    c == ' ' || c == '\t' || c == '\n' || c == '\r'
}

/// Where the run of digits that starts at `i` ends.
pub open spec fn digits_end(s: Seq<char>, i: int) -> int
    decreases s.len() - i
        when 0 <= i <= s.len()
{
    if i == s.len() {
        i
    } else if is_digit(s[i]) {
        digits_end(s, i + 1)
    } else {
        i
    }
}

/// Where the run of whitespace that starts at `i` ends.
pub open spec fn spaces_end(s: Seq<char>, i: int) -> int
    decreases s.len() - i
        when 0 <= i <= s.len()
{
    if i == s.len() {
        i
    } else if is_space(s[i]) {
        spaces_end(s, i + 1)
    } else {
        i
    }
}

/// Where the run of non-whitespace that starts at `i` ends.
pub open spec fn nonspace_end(s: Seq<char>, i: int) -> int
    decreases s.len() - i
        when 0 <= i <= s.len()
{
    if i == s.len() {
        i
    } else if !is_space(s[i]) {
        nonspace_end(s, i + 1)
    } else {
        i
    }
}

/// Numeric value of one digit character.
pub open spec fn digit_val(c: char) -> int {
    c as u32 - 48
}

/// Value of a digit string read in base ten.
pub open spec fn digits_value(s: Seq<char>) -> int
    decreases s.len(),
{
    if s.len() == 0 {
        0
    } else {
        digits_value(s.drop_last()) * 10 + digit_val(s.last())
    }
}

/// The boolean field: `true` or `false` read at position `i`, with the
/// position just past it.
pub open spec fn bool_token_end(s: Seq<char>, i: int) -> Option<(int, bool)> {
    if i + 4 <= s.len() && s[i] == 't' && s[i + 1] == 'r' && s[i + 2] == 'u' && s[i + 3] == 'e' {
        Some((i + 4, true))
    } else if i + 5 <= s.len() && s[i] == 'f' && s[i + 1] == 'a' && s[i + 2] == 'l' && s[i + 3]
        == 's' && s[i + 4] == 'e' {
        Some((i + 5, false))
    } else {
        None
    }
}

/// What the three-field layout makes of `s`: `None` where `s` does not match
/// it, and otherwise the numeric value of the digit field (unbounded), the
/// flag, and the characters of the final token.
pub open spec fn parse_spec(s: Seq<char>) -> Option<(int, bool, Seq<char>)> {
    let d = digits_end(s, 0);
    if d == 0 {
        None
    } else {
        let w1 = spaces_end(s, d);
        if w1 == d {
            None
        } else {
            match bool_token_end(s, w1) {
                None => None,
                Some((b_end, flag)) => {
                    let w2 = spaces_end(s, b_end);
                    if w2 == b_end || w2 >= s.len() {
                        None
                    } else if nonspace_end(s, w2) != s.len() {
                        None
                    } else {
                        Some((digits_value(s.subrange(0, d)), flag, s.subrange(w2, s.len() as int)))
                    }
                },
            }
        }
    }
}

proof fn lemma_digits_end_bounds(s: Seq<char>, i: int)
    requires
        0 <= i <= s.len(),
    ensures
        i <= digits_end(s, i) <= s.len(),
    decreases s.len() - i,
{
    if i < s.len() && is_digit(s[i]) {
        lemma_digits_end_bounds(s, i + 1);
    }
}

proof fn lemma_digits_end_chars(s: Seq<char>, i: int)
    requires
        0 <= i <= s.len(),
    ensures
        forall|j: int| i <= j < digits_end(s, i) ==> is_digit(s[j]),
    decreases s.len() - i,
{
    if i < s.len() && is_digit(s[i]) {
        lemma_digits_end_chars(s, i + 1);
        lemma_digits_end_bounds(s, i + 1);
    }
}

proof fn lemma_spaces_end_bounds(s: Seq<char>, i: int)
    requires
        0 <= i <= s.len(),
    ensures
        i <= spaces_end(s, i) <= s.len(),
    decreases s.len() - i,
{
    if i < s.len() && is_space(s[i]) {
        lemma_spaces_end_bounds(s, i + 1);
    }
}

proof fn lemma_nonspace_end_bounds(s: Seq<char>, i: int)
    requires
        0 <= i <= s.len(),
    ensures
        i <= nonspace_end(s, i) <= s.len(),
    decreases s.len() - i,
{
    if i < s.len() && !is_space(s[i]) {
        lemma_nonspace_end_bounds(s, i + 1);
    }
}

proof fn lemma_digits_value_nonneg(s: Seq<char>)
    requires
        forall|j: int| 0 <= j < s.len() ==> is_digit(s[j]),
    ensures
        digits_value(s) >= 0,
    decreases s.len(),
{
    if s.len() > 0 {
        assert(forall|j: int| 0 <= j < s.drop_last().len() ==> is_digit(s.drop_last()[j]));
        lemma_digits_value_nonneg(s.drop_last());
    }
}

proof fn lemma_digits_prefix_step(s: Seq<char>, k: int)
    requires
        0 <= k < s.len(),
    ensures
        digits_value(s.subrange(0, k + 1)) == digits_value(s.subrange(0, k)) * 10 + digit_val(
            s[k],
        ),
{
    let p = s.subrange(0, k + 1);
    assert(p.drop_last() =~= s.subrange(0, k));
    assert(p.last() == s[k]);
}

proof fn lemma_digits_prefix_mono(s: Seq<char>, a: int, b: int)
    requires
        0 <= a <= b <= s.len(),
        forall|j: int| 0 <= j < b ==> is_digit(s[j]),
    ensures
        digits_value(s.subrange(0, a)) <= digits_value(s.subrange(0, b)),
    decreases b - a,
{
    if a < b {
        lemma_digits_prefix_mono(s, a, b - 1);
        lemma_digits_prefix_step(s, b - 1);
        assert(forall|j: int| 0 <= j < s.subrange(0, b - 1).len() ==> is_digit(
            #[trigger] s.subrange(0, b - 1)[j],
        ));
        lemma_digits_value_nonneg(s.subrange(0, b - 1));
    }
}

fn scan_digits(s: &str, from: usize) -> (end: usize)
    requires
        from as int <= s@.len(),
    ensures
        end == digits_end(s@, from as int),
        from <= end,
        end as int <= s@.len(),
{
    let n = s.unicode_len();
    let mut i: usize = from;
    while i < n
        invariant
            from <= i <= n,
            n == s@.len(),
            digits_end(s@, from as int) == digits_end(s@, i as int),
        decreases n - i,
    {
        let c = s.get_char(i);
        let u = c as u32;
        if !(48 <= u && u <= 57) {
            proof {
                assert(digits_end(s@, i as int) == i);
            }
            return i;
        }
        proof {
            assert(digits_end(s@, i as int) == digits_end(s@, i as int + 1));
        }
        i = i + 1;
    }
    proof {
        assert(digits_end(s@, i as int) == i);
    }
    i
}

fn scan_spaces(s: &str, from: usize) -> (end: usize)
    requires
        from as int <= s@.len(),
    ensures
        end == spaces_end(s@, from as int),
        from <= end,
        end as int <= s@.len(),
{
    let n = s.unicode_len();
    let mut i: usize = from;
    while i < n
        invariant
            from <= i <= n,
            n == s@.len(),
            spaces_end(s@, from as int) == spaces_end(s@, i as int),
        decreases n - i,
    {
        let c = s.get_char(i);
        if !(c == ' ' || c == '\t' || c == '\n' || c == '\r') {
            proof {
                assert(spaces_end(s@, i as int) == i);
            }
            return i;
        }
        proof {
            assert(spaces_end(s@, i as int) == spaces_end(s@, i as int + 1));
        }
        i = i + 1;
    }
    proof {
        assert(spaces_end(s@, i as int) == i);
    }
    i
}

fn scan_nonspace(s: &str, from: usize) -> (end: usize)
    requires
        from as int <= s@.len(),
    ensures
        end == nonspace_end(s@, from as int),
        from <= end,
        end as int <= s@.len(),
{
    let n = s.unicode_len();
    let mut i: usize = from;
    while i < n
        invariant
            from <= i <= n,
            n == s@.len(),
            nonspace_end(s@, from as int) == nonspace_end(s@, i as int),
        decreases n - i,
    {
        let c = s.get_char(i);
        if c == ' ' || c == '\t' || c == '\n' || c == '\r' {
            proof {
                assert(nonspace_end(s@, i as int) == i);
            }
            return i;
        }
        proof {
            assert(nonspace_end(s@, i as int) == nonspace_end(s@, i as int + 1));
        }
        i = i + 1;
    }
    proof {
        assert(nonspace_end(s@, i as int) == i);
    }
    i
}

fn check_bool_token(s: &str, i: usize) -> (r: Option<(usize, bool)>)
    requires
        i as int <= s@.len(),
    ensures
        match bool_token_end(s@, i as int) {
            Some(t) => (r matches Some(x) && x.0 == t.0 && x.1 == t.1),
            None => r is None,
        },
{
    let n = s.unicode_len();
    if n - i >= 4 && s.get_char(i) == 't' && s.get_char(i + 1) == 'r' && s.get_char(i + 2) == 'u'
        && s.get_char(i + 3) == 'e' {
        Some((i + 4, true))
    } else if n - i >= 5 && s.get_char(i) == 'f' && s.get_char(i + 1) == 'a' && s.get_char(i + 2)
        == 'l' && s.get_char(i + 3) == 's' && s.get_char(i + 4) == 'e' {
        Some((i + 5, false))
    } else {
        None
    }
}

fn digits_to_usize(s: &str, d: usize) -> (r: Option<usize>)
    requires
        d as int <= s@.len(),
        forall|j: int| 0 <= j < d ==> is_digit(s@[j]),
    ensures
        digits_value(s@.subrange(0, d as int)) <= usize::MAX ==> (r matches Some(v) && v
            == digits_value(s@.subrange(0, d as int))),
        digits_value(s@.subrange(0, d as int)) > usize::MAX ==> r is None,
{
    let mut val: usize = 0;
    let mut i: usize = 0;
    while i < d
        invariant
            0 <= i <= d,
            d as int <= s@.len(),
            forall|j: int| 0 <= j < d ==> is_digit(s@[j]),
            val == digits_value(s@.subrange(0, i as int)),
        decreases d - i,
    {
        let c = s.get_char(i);
        let u = c as u32;
        proof {
            assert(is_digit(s@[i as int]));
            assert(48 <= u <= 57);
        }
        let dig = (u - 48) as usize;
        let limit = (usize::MAX - dig) / 10;
        proof {
            lemma_digits_prefix_step(s@, i as int);
        }
        if val > limit {
            proof {
                assert(val * 10 + dig > usize::MAX);
                assert(digits_value(s@.subrange(0, i as int + 1)) > usize::MAX);
                lemma_digits_prefix_mono(s@, i as int + 1, d as int);
            }
            return None;
        }
        proof {
            assert(val * 10 + dig <= usize::MAX);
        }
        val = val * 10 + dig;
        i = i + 1;
    }
    Some(val)
}

/// Parse one line of the three-field layout.
///
/// Returns the record exactly when the line matches the layout and its digit
/// field fits a machine word; any other line yields `None`.
pub fn parse_log_entry(s: &str) -> (r: Option<LogEntry>)
    ensures
        match parse_spec(s@) {
            None => r is None,
            Some(t) => (if t.0 <= usize::MAX as int {
                (r matches Some(e) && e.foo == t.0 && e.bar == t.1 && e.baz@ == t.2)
            } else {
                r is None
            }),
        },
{
    let n = s.unicode_len();
    let d = scan_digits(s, 0);
    if d == 0 {
        return None;
    }
    let w1 = scan_spaces(s, d);
    if w1 == d {
        return None;
    }
    let (b_end, flag) = match check_bool_token(s, w1) {
        Some(x) => x,
        None => {
            return None;
        },
    };
    let w2 = scan_spaces(s, b_end);
    if w2 == b_end || w2 >= n {
        return None;
    }
    let t_end = scan_nonspace(s, w2);
    if t_end < n {
        return None;
    }
    proof {
        lemma_digits_end_chars(s@, 0);
    }
    let value = digits_to_usize(s, d);
    let foo = match value {
        Some(v) => v,
        None => {
            return None;
        },
    };
    let baz_part = s.substring_char(w2, n);
    let baz = baz_part.to_owned();
    Some(LogEntry { foo, bar: flag, baz })
}

} // verus!
