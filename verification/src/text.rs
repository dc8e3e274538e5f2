//! Character-level text utilities shared by the date, options and scheduler
//! modules: decimal digit runs, separator splitting, and whitespace handling.

use vstd::prelude::*;

verus! {

/// A decimal digit character.
pub open spec fn is_digit(c: char) -> bool {
    '0' <= c && c <= '9'
}

/// The numeric value of a digit character.
pub open spec fn digit_val(c: char) -> int {
    c as int - '0' as int
}

/// Every character of `s` is a decimal digit.
pub open spec fn all_digits(s: Seq<char>) -> bool {
    forall|i: int| 0 <= i < s.len() ==> is_digit(#[trigger] s[i])
}

/// The value of a digit run read as a decimal number.
pub open spec fn digits_val(s: Seq<char>) -> int
    decreases s.len()
{
    if s.len() == 0 {
        0
    } else {
        digits_val(s.drop_last()) * 10 + digit_val(s.last())
    }
}

/// The digit character for a value in 0..=9.
pub open spec fn digit_char(n: int) -> char {
    if n == 0 { '0' }
    else if n == 1 { '1' }
    else if n == 2 { '2' }
    else if n == 3 { '3' }
    else if n == 4 { '4' }
    else if n == 5 { '5' }
    else if n == 6 { '6' }
    else if n == 7 { '7' }
    else if n == 8 { '8' }
    else { '9' }
}

/// The decimal rendering of a non-negative number, without leading zeros.
pub open spec fn dec_digits(n: int) -> Seq<char>
    decreases n when n >= 0
{
    if n < 10 {
        seq![digit_char(n)]
    } else {
        dec_digits(n / 10).push(digit_char(n % 10))
    }
}

/// Splitting a sequence on a separator character, keeping empty parts, as
/// `str::split` does: the result always holds one more part than there are
/// separators, and an empty input yields one empty part.
pub open spec fn split_on(s: Seq<char>, sep: char) -> Seq<Seq<char>>
    decreases s.len()
{
    if s.len() == 0 {
        seq![Seq::<char>::empty()]
    } else {
        let rest = split_on(s.drop_last(), sep);
        if s.last() == sep {
            rest.push(Seq::<char>::empty())
        } else {
            rest.update(rest.len() - 1, rest.last().push(s.last()))
        }
    }
}

/// A sequence without the separator splits into itself alone.
pub proof fn lemma_split_none(s: Seq<char>, sep: char)
    requires
        forall|i: int| 0 <= i < s.len() ==> s[i] != sep,
    ensures
        split_on(s, sep) =~~= seq![s],
    decreases s.len(),
{
    if s.len() > 0 {
        lemma_split_none(s.drop_last(), sep);
        assert(split_on(s, sep) =~~= seq![s.drop_last().push(s.last())]);
        assert(s.drop_last().push(s.last()) =~= s);
    }
}

/// Appending a separator and then a separator-free tail adds one part.
pub proof fn lemma_split_append(s: Seq<char>, t: Seq<char>, sep: char)
    requires
        forall|i: int| 0 <= i < t.len() ==> t[i] != sep,
    ensures
        split_on(s + seq![sep] + t, sep) =~~= split_on(s, sep).push(t),
    decreases t.len(),
{
    if t.len() == 0 {
        let u = s + seq![sep] + t;
        assert(u =~= s.push(sep));
        assert(u.drop_last() =~= s);
    } else {
        lemma_split_append(s, t.drop_last(), sep);
        let u = s + seq![sep] + t;
        assert(u.drop_last() =~= s + seq![sep] + t.drop_last());
        assert(u.last() == t.last());
        let rest = split_on(s + seq![sep] + t.drop_last(), sep);
        assert(rest =~~= split_on(s, sep).push(t.drop_last()));
        assert(rest.last().push(t.last()) =~= t.drop_last().push(t.last()));
        assert(t.drop_last().push(t.last()) =~= t);
    }
}

/// Where part number `k` of a split starts, given the separator positions.
pub open spec fn part_start(ps: Seq<int>, k: int) -> int {
    if k == 0 { 0 } else { ps[k - 1] + 1 }
}

/// Where part number `k` of a split ends, given the separator positions.
pub open spec fn part_end(s: Seq<char>, ps: Seq<int>, k: int) -> int {
    if k == ps.len() { s.len() as int } else { ps[k] }
}

/// The separator positions of `s`, in increasing order and complete.
pub open spec fn are_sep_positions(s: Seq<char>, sep: char, ps: Seq<int>) -> bool {
    &&& forall|k: int| 0 <= k < ps.len() ==> 0 <= #[trigger] ps[k] < s.len() && s[ps[k]] == sep
    &&& forall|k1: int, k2: int| 0 <= k1 < k2 < ps.len() ==> ps[k1] < ps[k2]
    &&& forall|i: int| 0 <= i < s.len() && s[i] == sep
            ==> exists|k: int| 0 <= k < ps.len() && #[trigger] ps[k] == i
}

/// With the separators exactly at the given positions, the split is the list
/// of the stretches between them.
pub proof fn lemma_split_at_positions(s: Seq<char>, sep: char, ps: Seq<int>)
    requires
        are_sep_positions(s, sep, ps),
    ensures
        split_on(s, sep).len() == ps.len() + 1,
        forall|k: int| 0 <= k <= ps.len()
            ==> #[trigger] split_on(s, sep)[k] =~= s.subrange(part_start(ps, k), part_end(s, ps, k)),
    decreases ps.len(),
{
    if ps.len() == 0 {
        assert forall|i: int| 0 <= i < s.len() implies s[i] != sep by {
            if s[i] == sep {
                assert(exists|k: int| 0 <= k < ps.len() && #[trigger] ps[k] == i);
            }
        }
        lemma_split_none(s, sep);
    } else {
        let j = ps.last();
        let s1 = s.subrange(0, j);
        let t = s.subrange(j + 1, s.len() as int);
        assert forall|i: int| 0 <= i < t.len() implies t[i] != sep by {
            if t[i] == sep {
                let gi = j + 1 + i;
                assert(s[gi] == sep);
                let k = choose|k: int| 0 <= k < ps.len() && #[trigger] ps[k] == gi;
                assert(ps[k] <= ps[ps.len() - 1]);
            }
        }
        assert(s =~= s1 + seq![sep] + t);
        lemma_split_append(s1, t, sep);
        let qs = ps.drop_last();
        assert forall|i: int| 0 <= i < s1.len() && s1[i] == sep
            implies exists|k: int| 0 <= k < qs.len() && #[trigger] qs[k] == i by {
            assert(s[i] == sep);
            let k = choose|k: int| 0 <= k < ps.len() && #[trigger] ps[k] == i;
            assert(k != ps.len() - 1);
            assert(qs[k] == i);
        }
        assert(are_sep_positions(s1, sep, qs));
        lemma_split_at_positions(s1, sep, qs);
        assert forall|k: int| 0 <= k <= ps.len()
            implies #[trigger] split_on(s, sep)[k]
                =~= s.subrange(part_start(ps, k), part_end(s, ps, k)) by {
            if k < ps.len() {
                assert(split_on(s1, sep)[k] =~= s1.subrange(part_start(qs, k), part_end(s1, qs, k)));
                assert(split_on(s, sep)[k] == split_on(s1, sep)[k]);
                assert(s1.subrange(part_start(qs, k), part_end(s1, qs, k))
                    =~= s.subrange(part_start(ps, k), part_end(s, ps, k)));
            } else {
                assert(split_on(s, sep)[k] == t);
                assert(t =~= s.subrange(part_start(ps, k), part_end(s, ps, k)));
            }
        }
    }
}

/// Finds every position of `sep` in `s`, in increasing order.
pub fn find_separators(s: &str, sep: char) -> (ps: Vec<usize>)
    ensures
        are_sep_positions(s@, sep, ps@.map_values(|p: usize| p as int)),
{
    let n = s.unicode_len();
    let mut ps: Vec<usize> = Vec::new();
    let mut i: usize = 0;
    while i < n
        invariant
            n == s@.len(),
            i <= n,
            forall|k: int| 0 <= k < ps@.len()
                ==> 0 <= #[trigger] ps@[k] < i && s@[ps@[k] as int] == sep,
            forall|k1: int, k2: int| 0 <= k1 < k2 < ps@.len() ==> ps@[k1] < ps@[k2],
            forall|j: int| 0 <= j < i && s@[j] == sep
                ==> exists|k: int| 0 <= k < ps@.len() && #[trigger] ps@[k] == j,
        decreases n - i,
    {
        let c = s.get_char(i);
        if c == sep {
            let ghost ps0 = ps@;
            ps.push(i);
            assert forall|j: int| 0 <= j < i + 1 && s@[j] == sep
                implies exists|k: int| 0 <= k < ps@.len() && #[trigger] ps@[k] == j by {
                if j < i {
                    let k = choose|k: int| 0 <= k < ps0.len() && #[trigger] ps0[k] == j;
                    assert(ps@[k] == j);
                } else {
                    assert(ps@[ps@.len() - 1] == j);
                }
            }
        }
        i = i + 1;
    }
    proof {
        let qs = ps@.map_values(|p: usize| p as int);
        assert forall|j: int| 0 <= j < s@.len() && s@[j] == sep
            implies exists|k: int| 0 <= k < qs.len() && #[trigger] qs[k] == j by {
            let k = choose|k: int| 0 <= k < ps@.len() && #[trigger] ps@[k] == j;
            assert(qs[k] == j);
        }
    }
    ps
}

/// A number rendered as exactly two digit characters, zero-padded.
pub open spec fn two_digits(n: int) -> Seq<char> {
    seq![digit_char(n / 10), digit_char(n % 10)]
}

/// A number rendered as exactly four digit characters, zero-padded.
pub open spec fn four_digits(n: int) -> Seq<char> {
    seq![
        digit_char(n / 1000),
        digit_char((n / 100) % 10),
        digit_char((n / 10) % 10),
        digit_char(n % 10),
    ]
}

/// A digit character stands for its value, and is not any separator used here.
pub proof fn lemma_digit_char_val(x: int)
    requires
        0 <= x <= 9,
    ensures
        digit_val(digit_char(x)) == x,
        is_digit(digit_char(x)),
        digit_char(x) != '/',
{
}

/// The two-digit rendering of a value below 100 reads back as that value.
pub proof fn lemma_two_digits_val(n: int)
    requires
        0 <= n <= 99,
    ensures
        digits_val(two_digits(n)) == n,
        all_digits(two_digits(n)),
        forall|i: int| 0 <= i < 2 ==> two_digits(n)[i] != '/',
{
    let s = two_digits(n);
    lemma_digit_char_val(n / 10);
    lemma_digit_char_val(n % 10);
    assert(s.drop_last() =~= seq![digit_char(n / 10)]);
    assert(seq![digit_char(n / 10)].drop_last() =~= Seq::<char>::empty());
    assert(digits_val(Seq::<char>::empty()) == 0);
    assert(digits_val(seq![digit_char(n / 10)]) == digit_val(digit_char(n / 10)));
    assert(digits_val(s) == (n / 10) * 10 + n % 10);
}

/// The four-digit rendering of a value below 10000 reads back as that value.
pub proof fn lemma_four_digits_val(n: int)
    requires
        0 <= n <= 9999,
    ensures
        digits_val(four_digits(n)) == n,
        all_digits(four_digits(n)),
        forall|i: int| 0 <= i < 4 ==> four_digits(n)[i] != '/',
{
    let s = four_digits(n);
    lemma_digit_char_val(n / 1000);
    lemma_digit_char_val((n / 100) % 10);
    lemma_digit_char_val((n / 10) % 10);
    lemma_digit_char_val(n % 10);
    let s3 = s.drop_last();
    let s2 = s3.drop_last();
    let s1 = s2.drop_last();
    assert(s3 =~= seq![digit_char(n / 1000), digit_char((n / 100) % 10), digit_char((n / 10) % 10)]);
    assert(s2 =~= seq![digit_char(n / 1000), digit_char((n / 100) % 10)]);
    assert(s1 =~= seq![digit_char(n / 1000)]);
    assert(s1.drop_last() =~= Seq::<char>::empty());
    assert(digits_val(Seq::<char>::empty()) == 0);
    assert(digits_val(s1) == n / 1000);
    assert(digits_val(s2) == (n / 1000) * 10 + (n / 100) % 10);
    assert(digits_val(s3) == digits_val(s2) * 10 + (n / 10) % 10);
    assert(digits_val(s) == digits_val(s3) * 10 + n % 10);
    assert(1000 * (n / 1000) + 100 * ((n / 100) % 10) + 10 * ((n / 10) % 10) + n % 10 == n)
        by (nonlinear_arith)
        requires 0 <= n <= 9999;
}

/// The single-character string for a digit value.
pub fn digit_str(n: u32) -> (r: &'static str)
    requires
        n <= 9,
    ensures
        r@ == seq![digit_char(n as int)],
{
    proof {
        reveal_strlit("0");
        reveal_strlit("1");
        reveal_strlit("2");
        reveal_strlit("3");
        reveal_strlit("4");
        reveal_strlit("5");
        reveal_strlit("6");
        reveal_strlit("7");
        reveal_strlit("8");
        reveal_strlit("9");
    }
    let r = if n == 0 { "0" }
    else if n == 1 { "1" }
    else if n == 2 { "2" }
    else if n == 3 { "3" }
    else if n == 4 { "4" }
    else if n == 5 { "5" }
    else if n == 6 { "6" }
    else if n == 7 { "7" }
    else if n == 8 { "8" }
    else { "9" };
    proof {
        assert(r@ =~= seq![digit_char(n as int)]);
    }
    r
}

/// The value of a signed decimal text: an optional `+` or `-` sign followed
/// by at least one digit. `None` for any other shape.
pub open spec fn int_text_val(s: Seq<char>) -> Option<int> {
    if s.len() >= 1 && (s[0] == '+' || s[0] == '-') {
        let d = s.subrange(1, s.len() as int);
        if d.len() > 0 && all_digits(d) {
            Some(if s[0] == '-' { -digits_val(d) } else { digits_val(d) })
        } else {
            None
        }
    } else if s.len() > 0 && all_digits(s) {
        Some(digits_val(s))
    } else {
        None
    }
}

/// Reads the stretch `s[a..b]` as a run of decimal digits. Yields its value,
/// clamped to `u64::MAX`; `None` when the stretch is empty or holds a
/// non-digit.
pub fn parse_digit_run(s: &str, a: usize, b: usize) -> (r: Option<u64>)
    requires
        a <= b <= s@.len(),
    ensures
        ({
            let part = s@.subrange(a as int, b as int);
            match r {
                Some(v) => {
                    &&& part.len() > 0
                    &&& all_digits(part)
                    &&& (digits_val(part) <= u64::MAX ==> v == digits_val(part))
                    &&& (digits_val(part) > u64::MAX ==> v == u64::MAX)
                },
                None => !(part.len() > 0 && all_digits(part)),
            }
        }),
{
    if a == b {
        return None;
    }
    let mut acc: u128 = 0;
    let mut i: usize = a;
    while i < b
        invariant
            a <= i <= b <= s@.len(),
            all_digits(s@.subrange(a as int, i as int)),
            digits_val(s@.subrange(a as int, i as int)) <= u64::MAX
                ==> acc == digits_val(s@.subrange(a as int, i as int)),
            digits_val(s@.subrange(a as int, i as int)) > u64::MAX ==> acc > u64::MAX,
            acc <= u64::MAX as u128 * 10 + 9,
        decreases b - i,
    {
        let c = s.get_char(i);
        if c < '0' || c > '9' {
            proof {
                assert(s@.subrange(a as int, b as int)[i - a] == s@[i as int]);
            }
            return None;
        }
        let d: u128 = (c as u32 - 48) as u128;
        proof {
            let pre = s@.subrange(a as int, i as int);
            let cur = s@.subrange(a as int, i + 1);
            assert(cur.drop_last() =~= pre);
            assert(cur.last() == s@[i as int]);
            assert(digits_val(cur) == digits_val(pre) * 10 + digit_val(s@[i as int]));
        }
        if acc <= u64::MAX as u128 {
            acc = acc * 10 + d;
        }
        i = i + 1;
    }
    if acc > u64::MAX as u128 {
        Some(u64::MAX)
    } else {
        Some(acc as u64)
    }
}

/// Reads the stretch `s[a..b]` as a signed decimal integer in the manner of
/// `int_text_val`, rejecting values outside the `i64` range.
pub fn parse_int_text(s: &str, a: usize, b: usize) -> (r: Option<i64>)
    requires
        a <= b <= s@.len(),
    ensures
        ({
            let part = s@.subrange(a as int, b as int);
            match r {
                Some(v) => int_text_val(part) == Some(v as int),
                None => match int_text_val(part) {
                    Some(v) => !(i64::MIN <= v <= i64::MAX),
                    None => true,
                },
            }
        }),
{
    if a == b {
        return None;
    }
    let c0 = s.get_char(a);
    let negative = c0 == '-';
    let start = if c0 == '-' || c0 == '+' { a + 1 } else { a };
    let run = parse_digit_run(s, start, b);
    proof {
        let part = s@.subrange(a as int, b as int);
        if start > a {
            assert(s@.subrange(start as int, b as int) =~= part.subrange(1, part.len() as int));
        } else {
            assert(s@.subrange(start as int, b as int) =~= part);
        }
    }
    match run {
        None => None,
        Some(v) => {
            if negative {
                if v <= 9223372036854775807u64 {
                    Some(-(v as i64))
                } else if v == 9223372036854775808u64 {
                    Some(i64::MIN)
                } else {
                    None
                }
            } else {
                if v <= 9223372036854775807u64 {
                    Some(v as i64)
                } else {
                    None
                }
            }
        },
    }
}

/// The value of a signed decimal text when it fits in `i64`.
pub open spec fn spec_parse_i64(s: Seq<char>) -> Option<int> {
    match int_text_val(s) {
        Some(v) => if i64::MIN <= v <= i64::MAX { Some(v) } else { None },
        None => None,
    }
}

/// The value of a signed decimal text when it fits in `i32`.
pub open spec fn spec_parse_i32(s: Seq<char>) -> Option<int> {
    match int_text_val(s) {
        Some(v) => if i32::MIN <= v <= i32::MAX { Some(v) } else { None },
        None => None,
    }
}

/// The value of an unsigned decimal text (digits only, no sign) when it fits
/// in `u32`.
pub open spec fn spec_parse_u32(s: Seq<char>) -> Option<int> {
    if s.len() > 0 && all_digits(s) && digits_val(s) <= u32::MAX {
        Some(digits_val(s))
    } else {
        None
    }
}

/// Parses a whole string as a signed `i64`.
pub fn parse_i64_str(s: &str) -> (r: Option<i64>)
    ensures
        match r {
            Some(v) => spec_parse_i64(s@) == Some(v as int),
            None => spec_parse_i64(s@) is None,
        },
{
    let n = s.unicode_len();
    proof {
        assert(s@.subrange(0, n as int) =~= s@);
    }
    parse_int_text(s, 0, n)
}

/// Parses a whole string as a signed `i32`.
pub fn parse_i32_str(s: &str) -> (r: Option<i32>)
    ensures
        match r {
            Some(v) => spec_parse_i32(s@) == Some(v as int),
            None => spec_parse_i32(s@) is None,
        },
{
    let n = s.unicode_len();
    proof {
        assert(s@.subrange(0, n as int) =~= s@);
    }
    match parse_int_text(s, 0, n) {
        Some(v) => {
            if -2147483648i64 <= v && v <= 2147483647i64 {
                Some(v as i32)
            } else {
                None
            }
        },
        None => None,
    }
}

/// Parses a whole string as an unsigned `u32` (digits only, no sign).
pub fn parse_u32_str(s: &str) -> (r: Option<u32>)
    ensures
        match r {
            Some(v) => spec_parse_u32(s@) == Some(v as int),
            None => spec_parse_u32(s@) is None,
        },
{
    let n = s.unicode_len();
    proof {
        assert(s@.subrange(0, n as int) =~= s@);
    }
    match parse_digit_run(s, 0, n) {
        Some(v) => {
            if v <= 4294967295u64 {
                Some(v as u32)
            } else {
                None
            }
        },
        None => None,
    }
}

/// An ASCII whitespace character.
pub open spec fn is_space(c: char) -> bool {
    c == ' ' || c == '\t' || c == '\n' || c == '\r' || c == '\u{b}' || c == '\u{c}'
}

/// `s` with leading and trailing whitespace removed.
pub open spec fn trim_spec(s: Seq<char>) -> Seq<char>
    decreases s.len()
{
    if s.len() == 0 {
        s
    } else if is_space(s[0]) {
        trim_spec(s.drop_first())
    } else if is_space(s.last()) {
        trim_spec(s.drop_last())
    } else {
        s
    }
}

/// Trimming an all-whitespace sequence leaves nothing.
pub proof fn lemma_trim_all_space(s: Seq<char>)
    requires
        forall|i: int| 0 <= i < s.len() ==> is_space(#[trigger] s[i]),
    ensures
        trim_spec(s) =~= Seq::<char>::empty(),
    decreases s.len(),
{
    if s.len() > 0 {
        lemma_trim_all_space(s.drop_first());
    }
}

/// Trimming removes exactly the whitespace margins: with whitespace before
/// `a` and from `b` on, and non-whitespace at both ends of `[a, b)`, the trim
/// is that stretch.
pub proof fn lemma_trim_subrange(s: Seq<char>, a: int, b: int)
    requires
        0 <= a < b <= s.len(),
        forall|i: int| 0 <= i < a ==> is_space(#[trigger] s[i]),
        forall|i: int| b <= i < s.len() ==> is_space(#[trigger] s[i]),
        !is_space(s[a]),
        !is_space(s[b - 1]),
    ensures
        trim_spec(s) =~= s.subrange(a, b),
    decreases s.len(),
{
    if a > 0 {
        let t = s.drop_first();
        lemma_trim_subrange(t, a - 1, b - 1);
        assert(t.subrange(a - 1, b - 1) =~= s.subrange(a, b));
    } else if b < s.len() {
        let t = s.drop_last();
        lemma_trim_subrange(t, a, b);
        assert(t.subrange(a, b) =~= s.subrange(a, b));
    } else {
        assert(s.subrange(0, s.len() as int) =~= s);
    }
}

/// An ASCII whitespace test.
pub fn is_space_char(c: char) -> (r: bool)
    ensures
        r == is_space(c),
{
    c == ' ' || c == '\t' || c == '\n' || c == '\r' || c == '\u{b}' || c == '\u{c}'
}

/// The bounds of `s` without its whitespace margins:
/// `s[r.0..r.1]` is the trim of `s`.
pub fn trim_bounds(s: &str) -> (r: (usize, usize))
    ensures
        r.0 <= r.1 <= s@.len(),
        trim_spec(s@) == s@.subrange(r.0 as int, r.1 as int),
{
    let n = s.unicode_len();
    let mut a: usize = 0;
    while a < n && is_space_char(s.get_char(a))
        invariant
            n == s@.len(),
            a <= n,
            forall|i: int| 0 <= i < a ==> is_space(#[trigger] s@[i]),
        decreases n - a,
    {
        a = a + 1;
    }
    if a == n {
        proof {
            lemma_trim_all_space(s@);
            assert(s@.subrange(n as int, n as int) =~= Seq::<char>::empty());
        }
        return (n, n);
    }
    let mut b: usize = n;
    while b > a + 1 && is_space_char(s.get_char(b - 1))
        invariant
            n == s@.len(),
            a < b <= n,
            forall|i: int| b <= i < n ==> is_space(#[trigger] s@[i]),
        decreases b,
    {
        b = b - 1;
    }
    proof {
        lemma_trim_subrange(s@, a as int, b as int);
    }
    (a, b)
}

/// A line with one trailing carriage return removed, as `str::lines` strips
/// it.
pub open spec fn strip_cr(l: Seq<char>) -> Seq<char> {
    if l.len() > 0 && l.last() == '\r' {
        l.drop_last()
    } else {
        l
    }
}

/// The lines of a trimmed text: the stretches between newline characters,
/// each with one trailing carriage return removed.
pub open spec fn lines_of(s: Seq<char>) -> Seq<Seq<char>> {
    split_on(s, '\n').map_values(|l: Seq<char>| strip_cr(l))
}

/// Whether the stretch `s[a..b]` equals the text `t`.
pub fn str_range_eq(s: &str, a: usize, b: usize, t: &str) -> (r: bool)
    requires
        a <= b <= s@.len(),
    ensures
        r == (s@.subrange(a as int, b as int) == t@),
{
    let tn = t.unicode_len();
    if b - a != tn {
        proof {
            assert(s@.subrange(a as int, b as int).len() != t@.len());
        }
        return false;
    }
    let mut i: usize = 0;
    while i < tn
        invariant
            a <= b <= s@.len(),
            b - a == tn == t@.len(),
            i <= tn,
            forall|j: int| 0 <= j < i ==> s@[a + j] == t@[j],
        decreases tn - i,
    {
        if s.get_char(a + i) != t.get_char(i) {
            proof {
                assert(s@.subrange(a as int, b as int)[i as int] != t@[i as int]);
            }
            return false;
        }
        i = i + 1;
    }
    proof {
        assert(s@.subrange(a as int, b as int) =~= t@);
    }
    true
}

/// The decimal rendering of a number, without leading zeros.
pub fn dec_u64_string(n: u64) -> (r: String)
    ensures
        r@ == dec_digits(n as int),
    decreases n,
{
    if n < 10 {
        let mut out = String::new();
        out.append(digit_str(n as u32));
        proof {
            assert(out@ =~= dec_digits(n as int));
        }
        out
    } else {
        let mut out = dec_u64_string(n / 10);
        out.append(digit_str((n % 10) as u32));
        proof {
            assert(out@ =~= dec_digits(n as int));
        }
        out
    }
}

/// Whether two texts are equal.
pub fn str_eq(a: &str, b: &str) -> (r: bool)
    ensures
        r == (a@ == b@),
{
    let n = a.unicode_len();
    proof {
        assert(a@.subrange(0, n as int) =~= a@);
    }
    str_range_eq(a, 0, n, b)
}

/// The first position of `c` in `s`, if any.
pub open spec fn spec_find_char(s: Seq<char>, c: char) -> Option<int>
    decreases s.len()
{
    if s.len() == 0 {
        None
    } else if s[0] == c {
        Some(0)
    } else {
        match spec_find_char(s.drop_first(), c) {
            Some(i) => Some(i + 1),
            None => None,
        }
    }
}

/// `spec_find_char` names the first occurrence: the character is there, and
/// nowhere earlier; `None` means it is nowhere.
pub proof fn lemma_find_char_is_first(s: Seq<char>, c: char)
    ensures
        match spec_find_char(s, c) {
            Some(i) => 0 <= i < s.len() && s[i] == c
                && forall|j: int| 0 <= j < i ==> s[j] != c,
            None => forall|j: int| 0 <= j < s.len() ==> s[j] != c,
        },
    decreases s.len(),
{
    if s.len() > 0 && s[0] != c {
        let t = s.drop_first();
        lemma_find_char_is_first(t, c);
        assert(forall|j: int| 1 <= j < s.len() ==> s[j] == #[trigger] t[j - 1]);
        match spec_find_char(t, c) {
            Some(i) => {
                assert(s[i + 1] == t[i]);
                assert forall|j: int| 0 <= j < i + 1 implies s[j] != c by {
                    if j > 0 {
                        assert(t[j - 1] != c);
                    }
                }
            },
            None => {
                assert forall|j: int| 0 <= j < s.len() implies s[j] != c by {
                    if j > 0 {
                        assert(t[j - 1] != c);
                    }
                }
            },
        }
    }
}

/// Finds the first occurrence of `c` in `s`.
pub fn find_char(s: &str, c: char) -> (r: Option<usize>)
    ensures
        match r {
            Some(i) => spec_find_char(s@, c) == Some(i as int),
            None => spec_find_char(s@, c) is None,
        },
{
    let n = s.unicode_len();
    let mut i: usize = 0;
    while i < n
        invariant
            n == s@.len(),
            i <= n,
            forall|j: int| 0 <= j < i ==> s@[j] != c,
        decreases n - i,
    {
        if s.get_char(i) == c {
            proof {
                lemma_find_char_is_first(s@, c);
            }
            return Some(i);
        }
        i = i + 1;
    }
    proof {
        lemma_find_char_is_first(s@, c);
    }
    None
}

/// The whitespace-separated tokens of `s`, in order: maximal stretches of
/// non-whitespace characters, with no empty tokens.
pub open spec fn ws_tokens(s: Seq<char>) -> Seq<Seq<char>>
    decreases s.len()
{
    if s.len() == 0 {
        Seq::<Seq<char>>::empty()
    } else {
        let pre = s.drop_last();
        let t = ws_tokens(pre);
        let c = s.last();
        if is_space(c) {
            t
        } else if pre.len() > 0 && !is_space(pre.last()) {
            t.update(t.len() - 1, t.last().push(c))
        } else {
            t.push(seq![c])
        }
    }
}

/// The bounds of every whitespace-separated token of `s`, in order:
/// token number `k` is `s[starts[k]..ends[k]]`.
pub fn ws_token_bounds(s: &str) -> (r: (Vec<usize>, Vec<usize>))
    ensures
        r.0@.len() == ws_tokens(s@).len(),
        r.1@.len() == ws_tokens(s@).len(),
        forall|k: int| 0 <= k < r.0@.len()
            ==> #[trigger] r.0@[k] < r.1@[k] && r.1@[k] <= s@.len(),
        forall|k: int| 0 <= k < r.0@.len()
            ==> #[trigger] ws_tokens(s@)[k] == s@.subrange(r.0@[k] as int, r.1@[k] as int),
{
    let n = s.unicode_len();
    let mut starts: Vec<usize> = Vec::new();
    let mut ends: Vec<usize> = Vec::new();
    let mut cur_start: Option<usize> = None;
    let mut i: usize = 0;
    while i < n
        invariant
            n == s@.len(),
            i <= n,
            starts@.len() == ends@.len(),
            cur_start is Some <==> (i > 0 && !is_space(s@[i - 1])),
            ws_tokens(s@.subrange(0, i as int)).len()
                == starts@.len() + if cur_start is Some { 1int } else { 0int },
            forall|k: int| 0 <= k < starts@.len()
                ==> #[trigger] starts@[k] < ends@[k] && ends@[k] <= i,
            forall|k: int| 0 <= k < starts@.len()
                ==> #[trigger] ws_tokens(s@.subrange(0, i as int))[k]
                    == s@.subrange(starts@[k] as int, ends@[k] as int),
            match cur_start {
                Some(st) => st < i
                    && ws_tokens(s@.subrange(0, i as int)).last()
                        == s@.subrange(st as int, i as int),
                None => true,
            },
        decreases n - i,
    {
        let c = s.get_char(i);
        let ghost pre = s@.subrange(0, i as int);
        let ghost cur = s@.subrange(0, i + 1);
        proof {
            assert(cur.drop_last() =~= pre);
            assert(cur.last() == s@[i as int]);
        }
        if is_space_char(c) {
            proof {
                assert(ws_tokens(cur) == ws_tokens(pre));
            }
            match cur_start {
                Some(st) => {
                    let ghost k0 = starts@.len() as int;
                    let ghost st0 = starts@;
                    let ghost en0 = ends@;
                    starts.push(st);
                    ends.push(i);
                    proof {
                        assert(ws_tokens(pre)[k0] == ws_tokens(pre).last());
                        assert forall|k: int| 0 <= k < starts@.len()
                            implies #[trigger] starts@[k] < ends@[k] && ends@[k] <= i + 1 by {
                            if k < k0 {
                                assert(starts@[k] == st0[k] && ends@[k] == en0[k]);
                                assert(st0[k] < en0[k] && en0[k] <= i);
                            } else {
                                assert(starts@[k] == st && ends@[k] == i);
                            }
                        }
                        assert forall|k: int| 0 <= k < starts@.len()
                            implies #[trigger] ws_tokens(cur)[k]
                                == s@.subrange(starts@[k] as int, ends@[k] as int) by {
                            if k < k0 {
                                assert(ws_tokens(pre)[k]
                                    == s@.subrange(starts@[k] as int, ends@[k] as int));
                            }
                        }
                    }
                },
                None => {},
            }
            cur_start = None;
        } else {
            match cur_start {
                Some(st) => {
                    proof {
                        let t = ws_tokens(pre);
                        assert(ws_tokens(cur)
                            == t.update(t.len() - 1, t.last().push(s@[i as int])));
                        assert(ws_tokens(cur).last() == t.last().push(s@[i as int]));
                        assert(t.last().push(s@[i as int]) =~= s@.subrange(st as int, i + 1));
                        assert(t.len() == starts@.len() + 1);
                        assert forall|k: int| 0 <= k < starts@.len()
                            implies #[trigger] ws_tokens(cur)[k]
                                == s@.subrange(starts@[k] as int, ends@[k] as int) by {
                            assert(ws_tokens(cur)[k] == t[k]);
                        }
                    }
                },
                None => {
                    cur_start = Some(i);
                    proof {
                        let t = ws_tokens(pre);
                        assert(ws_tokens(cur) == t.push(seq![s@[i as int]]));
                        assert(ws_tokens(cur).last() == seq![s@[i as int]]);
                        assert(seq![s@[i as int]] =~= s@.subrange(i as int, i + 1));
                        assert(t.len() == starts@.len());
                        assert forall|k: int| 0 <= k < starts@.len()
                            implies #[trigger] ws_tokens(cur)[k]
                                == s@.subrange(starts@[k] as int, ends@[k] as int) by {
                            assert(ws_tokens(cur)[k] == t[k]);
                        }
                    }
                },
            }
        }
        i = i + 1;
    }
    proof {
        assert(s@.subrange(0, n as int) =~= s@);
    }
    match cur_start {
        Some(st) => {
            let ghost k0 = starts@.len() as int;
            let ghost st0 = starts@;
            let ghost en0 = ends@;
            starts.push(st);
            ends.push(n);
            proof {
                assert(ws_tokens(s@)[k0] == ws_tokens(s@).last());
                assert forall|k: int| 0 <= k < starts@.len()
                    implies #[trigger] starts@[k] < ends@[k] && ends@[k] <= s@.len() by {
                    if k < k0 {
                        assert(starts@[k] == st0[k] && ends@[k] == en0[k]);
                        assert(st0[k] < en0[k] && en0[k] <= n);
                    } else {
                        assert(starts@[k] == st && ends@[k] == n);
                    }
                }
                assert forall|k: int| 0 <= k < starts@.len()
                    implies #[trigger] ws_tokens(s@)[k]
                        == s@.subrange(starts@[k] as int, ends@[k] as int) by {
                    if k < k0 {
                        assert(ws_tokens(s@)[k]
                            == s@.subrange(starts@[k] as int, ends@[k] as int));
                    }
                }
            }
        },
        None => {},
    }
    (starts, ends)
}

} // verus!
