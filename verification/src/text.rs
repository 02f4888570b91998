//! Character-level text utilities shared by the parser and the directive
//! system. Source text is handled as `Vec<char>` internally; conversions to
//! and from `String`/`&str` keep the character sequence exactly.
use vstd::prelude::*;
use vstd::string::StrSliceExecFns;

verus! {

/// ASCII whitespace, the only whitespace the source language uses.
pub open spec fn is_space(c: char) -> bool {
    c == ' ' || c == '\t' || c == '\r' || c == '\n'
}

pub fn space_char(c: char) -> (r: bool)
    ensures
        r == is_space(c),
{
    c == ' ' || c == '\t' || c == '\r' || c == '\n'
}

/// The sequence with leading whitespace removed.
pub open spec fn spec_trim_start(s: Seq<char>) -> Seq<char>
    decreases s.len(),
{
    if s.len() == 0 {
        s
    } else if is_space(s[0]) {
        spec_trim_start(s.drop_first())
    } else {
        s
    }
}

/// The sequence with trailing whitespace removed.
pub open spec fn spec_trim_end(s: Seq<char>) -> Seq<char>
    decreases s.len(),
{
    if s.len() == 0 {
        s
    } else if is_space(s.last()) {
        spec_trim_end(s.drop_last())
    } else {
        s
    }
}

/// The sequence with whitespace removed on both sides.
pub open spec fn spec_trim(s: Seq<char>) -> Seq<char> {
    spec_trim_end(spec_trim_start(s))
}

pub proof fn lemma_trim_start_at(s: Seq<char>, i: int)
    requires
        0 <= i <= s.len(),
        forall|k: int| 0 <= k < i ==> is_space(s[k]),
        i == s.len() || !is_space(s[i]),
    ensures
        spec_trim_start(s) == s.subrange(i, s.len() as int),
    decreases i,
{
    if i == 0 {
        assert(s.subrange(0, s.len() as int) =~= s);
    } else {
        assert(is_space(s[0]));
        lemma_trim_start_at(s.drop_first(), i - 1);
        assert(s.drop_first().subrange(i - 1, s.drop_first().len() as int) =~= s.subrange(
            i,
            s.len() as int,
        ));
    }
}

proof fn lemma_trim_end_at(s: Seq<char>, j: int)
    requires
        0 <= j <= s.len(),
        forall|k: int| j <= k < s.len() ==> is_space(s[k]),
        j == 0 || !is_space(s[j - 1]),
    ensures
        spec_trim_end(s) == s.subrange(0, j),
    decreases s.len() - j,
{
    if j == s.len() {
        assert(s.subrange(0, j) =~= s);
    } else {
        assert(is_space(s.last()));
        lemma_trim_end_at(s.drop_last(), j);
        assert(s.drop_last().subrange(0, j) =~= s.subrange(0, j));
    }
}

/// Collects the characters of a `&str` into a vector, preserving the view.
pub fn char_vec(s: &str) -> (r: Vec<char>)
    ensures
        r@ == s@,
{
    let n = s.unicode_len();
    let mut r: Vec<char> = Vec::new();
    let mut i: usize = 0;
    while i < n
        invariant
            n == s@.len(),
            i <= n,
            r@ == s@.subrange(0, i as int),
        decreases n - i,
    {
        let c = s.get_char(i);
        r.push(c);
        proof {
            assert(s@.subrange(0, i as int).push(s@[i as int]) =~= s@.subrange(0, i + 1 as int));
        }
        i += 1;
    }
    proof {
        assert(r@ =~= s@);
    }
    r
}

/// Whether the vector holds exactly the characters of `s`.
pub fn vec_eq_str(v: &Vec<char>, s: &str) -> (r: bool)
    ensures
        r == (v@ == s@),
{
    let n = s.unicode_len();
    if v.len() != n {
        return false;
    }
    let mut i: usize = 0;
    while i < n
        invariant
            n == s@.len(),
            v@.len() == n,
            i <= n,
            forall|k: int| 0 <= k < i ==> v@[k] == s@[k],
        decreases n - i,
    {
        if v[i] != s.get_char(i) {
            return false;
        }
        i += 1;
    }
    proof {
        assert(v@ =~= s@);
    }
    true
}

/// Element-wise view of a sequence of strings.
pub open spec fn view_string_seq(v: Seq<String>) -> Seq<Seq<char>> {
    Seq::new(v.len(), |i: int| v[i]@)
}

/// Whether some string of `v` holds exactly the characters of `name`.
pub fn contains_string(v: &Vec<String>, name: &str) -> (r: bool)
    ensures
        r == view_string_seq(v@).contains(name@),
{
    let n = v.len();
    let mut i: usize = 0;
    while i < n
        invariant
            i <= n,
            n == v@.len(),
            forall|k: int| 0 <= k < i ==> v@[k]@ != name@,
        decreases n - i,
    {
        if str_eq(v[i].as_str(), name) {
            proof {
                assert(view_string_seq(v@)[i as int] == name@);
            }
            return true;
        }
        i += 1;
    }
    proof {
        if view_string_seq(v@).contains(name@) {
            let w = choose|w: int|
                0 <= w < v@.len() && view_string_seq(v@)[w] == name@;
        }
    }
    false
}

/// Whether two string slices hold the same characters.
pub fn str_eq(a: &str, b: &str) -> (r: bool)
    ensures
        r == (a@ == b@),
{
    let n = a.unicode_len();
    if b.unicode_len() != n {
        return false;
    }
    let mut i: usize = 0;
    while i < n
        invariant
            n == a@.len(),
            b@.len() == n,
            i <= n,
            forall|k: int| 0 <= k < i ==> a@[k] == b@[k],
        decreases n - i,
    {
        if a.get_char(i) != b.get_char(i) {
            return false;
        }
        i += 1;
    }
    proof {
        assert(a@ =~= b@);
    }
    true
}

/// An owned copy of a string slice.
pub fn str_to_string(s: &str) -> (r: String)
    ensures
        r@ == s@,
{
    String::from_str(s)
}

/// A copy of `v[from..to]`.
pub fn subvec(v: &Vec<char>, from: usize, to: usize) -> (r: Vec<char>)
    requires
        from <= to <= v@.len(),
    ensures
        r@ == v@.subrange(from as int, to as int),
{
    let mut r: Vec<char> = Vec::new();
    let mut i: usize = from;
    while i < to
        invariant
            from <= i <= to <= v@.len(),
            r@ == v@.subrange(from as int, i as int),
        decreases to - i,
    {
        r.push(v[i]);
        proof {
            assert(v@.subrange(from as int, i as int).push(v@[i as int]) =~= v@.subrange(
                from as int,
                i + 1 as int,
            ));
        }
        i += 1;
    }
    r
}

/// Trimming never lengthens a sequence.
pub proof fn lemma_trim_le(s: Seq<char>)
    ensures
        spec_trim(s).len() <= s.len(),
{
    lemma_trim_start_le(s);
    lemma_trim_end_le(spec_trim_start(s));
}

pub proof fn lemma_trim_start_le(s: Seq<char>)
    ensures
        spec_trim_start(s).len() <= s.len(),
    decreases s.len(),
{
    if s.len() > 0 && is_space(s[0]) {
        lemma_trim_start_le(s.drop_first());
    }
}

proof fn lemma_trim_end_le(s: Seq<char>)
    ensures
        spec_trim_end(s).len() <= s.len(),
    decreases s.len(),
{
    if s.len() > 0 && is_space(s.last()) {
        lemma_trim_end_le(s.drop_last());
    }
}

/// The first index at or after `from` holding `c`, if any.
pub open spec fn spec_find_char_from(s: Seq<char>, c: char, from: int) -> Option<int>
    decreases s.len() - from,
{
    if from < 0 || from >= s.len() {
        Option::None
    } else if s[from] == c {
        Option::Some(from)
    } else {
        spec_find_char_from(s, c, from + 1)
    }
}

/// The first index holding `c`, if any.
pub open spec fn spec_find_char(s: Seq<char>, c: char) -> Option<int> {
    spec_find_char_from(s, c, 0)
}

/// Finds the first occurrence of `c` at or after `from`.
pub fn find_char_from(v: &Vec<char>, c: char, from: usize) -> (r: Option<usize>)
    ensures
        match r {
            Option::Some(i) => spec_find_char_from(v@, c, from as int) == Option::Some(i as int)
                && from <= i < v@.len(),
            Option::None => spec_find_char_from(v@, c, from as int) is None,
        },
{
    let mut i = from;
    while i < v.len()
        invariant
            from <= i,
            spec_find_char_from(v@, c, from as int) == spec_find_char_from(v@, c, i as int),
        decreases v@.len() - i,
    {
        if v[i] == c {
            return Some(i);
        }
        i += 1;
    }
    None
}

/// Finds the first occurrence of `c`.
pub fn find_char(v: &Vec<char>, c: char) -> (r: Option<usize>)
    ensures
        match r {
            Option::Some(i) => spec_find_char(v@, c) == Option::Some(i as int) && i < v@.len(),
            Option::None => spec_find_char(v@, c) is None,
        },
{
    find_char_from(v, c, 0)
}

/// Whether `pat` occurs in `s` starting at `i`.
pub open spec fn spec_match_at(s: Seq<char>, pat: Seq<char>, i: int) -> bool {
    0 <= i && i + pat.len() <= s.len() && s.subrange(i, i + pat.len() as int) == pat
}

/// The last index at or below `i` where `pat` occurs, if any.
pub open spec fn spec_rfind_from(s: Seq<char>, pat: Seq<char>, i: int) -> Option<int>
    decreases i + 1,
{
    if i < 0 {
        Option::None
    } else if spec_match_at(s, pat, i) {
        Option::Some(i)
    } else {
        spec_rfind_from(s, pat, i - 1)
    }
}

/// The last occurrence of `pat` in `s`, if any.
pub open spec fn spec_rfind(s: Seq<char>, pat: Seq<char>) -> Option<int> {
    spec_rfind_from(s, pat, s.len() - pat.len())
}

/// Whether `pat` occurs anywhere in `s`.
pub open spec fn spec_contains_seq(s: Seq<char>, pat: Seq<char>) -> bool {
    spec_rfind(s, pat) is Some
}

/// Whether `pat` occurs in `v` starting at `i`.
pub fn match_at(v: &Vec<char>, pat: &Vec<char>, i: usize) -> (r: bool)
    ensures
        r == spec_match_at(v@, pat@, i as int),
{
    let vlen = v.len();
    let plen = pat.len();
    if plen > vlen || i > vlen - plen {
        proof {
            assert(!spec_match_at(v@, pat@, i as int));
        }
        return false;
    }
    let mut k: usize = 0;
    while k < plen
        invariant
            k <= plen,
            vlen == v@.len(),
            plen == pat@.len(),
            i + plen <= vlen,
            forall|x: int| 0 <= x < k ==> v@[i + x] == pat@[x],
        decreases plen - k,
    {
        if v[i + k] != pat[k] {
            proof {
                assert(v@.subrange(i as int, i + pat@.len() as int)[k as int] != pat@[k as int]);
            }
            return false;
        }
        k += 1;
    }
    proof {
        assert(v@.subrange(i as int, i + pat@.len() as int) =~= pat@);
    }
    true
}

/// The last occurrence of `pat` in `v`, if any.
pub fn rfind_seq(v: &Vec<char>, pat: &Vec<char>) -> (r: Option<usize>)
    requires
        pat@.len() >= 1,
    ensures
        match r {
            Option::Some(i) => spec_rfind(v@, pat@) == Option::Some(i as int),
            Option::None => spec_rfind(v@, pat@) is None,
        },
{
    if pat.len() > v.len() {
        proof {
            assert(spec_rfind_from(v@, pat@, v@.len() - pat@.len()) is None);
        }
        return None;
    }
    let mut i: usize = v.len() - pat.len() + 1;
    while i > 0
        invariant
            i <= v@.len() - pat@.len() + 1,
            spec_rfind(v@, pat@) == spec_rfind_from(v@, pat@, i - 1),
        decreases i,
    {
        i -= 1;
        if match_at(v, pat, i) {
            return Some(i);
        }
    }
    None
}

/// Whether every character is a word character (letter, digit, underscore)
/// and there is at least one: the shape of an identifier.
pub open spec fn is_word_char(c: char) -> bool {
    ('a' <= c && c <= 'z') || ('A' <= c && c <= 'Z') || ('0' <= c && c <= '9') || c == '_'
}

pub open spec fn spec_is_word(s: Seq<char>) -> bool {
    s.len() >= 1 && forall|i: int| 0 <= i < s.len() ==> is_word_char(#[trigger] s[i])
}

pub fn word_char(c: char) -> (r: bool)
    ensures
        r == is_word_char(c),
{
    ('a' <= c && c <= 'z') || ('A' <= c && c <= 'Z') || ('0' <= c && c <= '9') || c == '_'
}

/// Whether `v` has the shape of an identifier.
pub fn is_word(v: &Vec<char>) -> (r: bool)
    ensures
        r == spec_is_word(v@),
{
    if v.len() == 0 {
        return false;
    }
    let mut i: usize = 0;
    while i < v.len()
        invariant
            i <= v@.len(),
            forall|k: int| 0 <= k < i ==> is_word_char(#[trigger] v@[k]),
        decreases v@.len() - i,
    {
        if !word_char(v[i]) {
            return false;
        }
        i += 1;
    }
    true
}

/// Whether `v` starts with the characters of `p`.
pub open spec fn spec_starts_with(s: Seq<char>, p: Seq<char>) -> bool {
    spec_match_at(s, p, 0)
}

pub fn starts_with_seq(v: &Vec<char>, p: &Vec<char>) -> (r: bool)
    ensures
        r == spec_starts_with(v@, p@),
{
    match_at(v, p, 0)
}

/// The lines of a text: the maximal pieces between newline characters. A
/// trailing newline yields a final empty line.
pub open spec fn spec_split_lines(s: Seq<char>) -> Seq<Seq<char>>
    decreases s.len(),
    via spec_split_lines_decreases
{
    match spec_find_char(s, '\n') {
        Option::None => seq![s],
        Option::Some(i) => seq![s.take(i)] + spec_split_lines(s.skip(i + 1)),
    }
}

#[via_fn]
proof fn spec_split_lines_decreases(s: Seq<char>) {
    lemma_find_char_bounds(s, '\n', 0);
}

/// A found index lies in range.
pub proof fn lemma_find_char_bounds(s: Seq<char>, c: char, from: int)
    ensures
        spec_find_char_from(s, c, from) matches Option::Some(i) ==> from <= i < s.len() && s[i]
            == c,
    decreases s.len() - from,
{
    if 0 <= from < s.len() && s[from] != c {
        lemma_find_char_bounds(s, c, from + 1);
    }
}

/// Splits a text on newline characters.
pub fn split_lines(v: &Vec<char>) -> (r: Vec<Vec<char>>)
    ensures
        r.deep_view() == spec_split_lines(v@),
{
    let mut out: Vec<Vec<char>> = Vec::new();
    let mut rest = subvec(v, 0, v.len());
    proof {
        assert(rest@ =~= v@);
        assert(out.deep_view() =~= Seq::<Seq<char>>::empty());
    }
    loop
        invariant
            spec_split_lines(v@) == out.deep_view() + spec_split_lines(rest@),
        decreases rest@.len() + 1,
    {
        let ghost out_pre = out.deep_view();
        let ghost rest_pre = rest@;
        match find_char(&rest, '\n') {
            Option::Some(i) => {
                let rl = rest.len();
                let piece = subvec(&rest, 0, i);
                let ghost pv = piece@;
                let tail = subvec(&rest, i + 1, rl);
                proof {
                    assert(pv =~= rest_pre.take(i as int));
                    assert(tail@ =~= rest_pre.skip(i + 1 as int));
                }
                out.push(piece);
                rest = tail;
                proof {
                    assert(out.deep_view() =~~= out_pre.push(pv));
                    assert(spec_split_lines(rest_pre) == seq![pv] + spec_split_lines(rest@));
                    assert(out_pre.push(pv) + spec_split_lines(rest@) =~= out_pre + (seq![pv]
                        + spec_split_lines(rest@)));
                }
            },
            Option::None => {
                let ghost lp = rest@;
                out.push(rest);
                proof {
                    assert(out.deep_view() =~~= out_pre.push(lp));
                    assert(spec_split_lines(lp) == seq![lp]);
                    assert(out_pre.push(lp) =~= out_pre + seq![lp]);
                }
                return out;
            },
        }
    }
}

/// The value of a digit string, most significant first.
pub open spec fn spec_digits_val(s: Seq<char>) -> int
    decreases s.len(),
{
    if s.len() == 0 {
        0
    } else {
        spec_digits_val(s.drop_last()) * 10 + (s.last() as int - '0' as int)
    }
}

pub open spec fn is_digit(c: char) -> bool {
    '0' <= c && c <= '9'
}

pub open spec fn spec_all_digits(s: Seq<char>) -> bool {
    s.len() >= 1 && forall|i: int| 0 <= i < s.len() ==> is_digit(#[trigger] s[i])
}

/// Whether `s` is an integer literal: an optional sign followed by one or
/// more digits.
pub open spec fn spec_int_text(s: Seq<char>) -> bool {
    if s.len() >= 1 && (s[0] == '+' || s[0] == '-') {
        spec_all_digits(s.drop_first())
    } else {
        spec_all_digits(s)
    }
}

/// The mathematical value of an integer literal.
pub open spec fn spec_int_value(s: Seq<char>) -> int {
    if s.len() >= 1 && s[0] == '-' {
        -spec_digits_val(s.drop_first())
    } else if s.len() >= 1 && s[0] == '+' {
        spec_digits_val(s.drop_first())
    } else {
        spec_digits_val(s)
    }
}

proof fn lemma_digits_val_nonneg(s: Seq<char>)
    requires
        forall|i: int| 0 <= i < s.len() ==> is_digit(#[trigger] s[i]),
    ensures
        spec_digits_val(s) >= 0,
    decreases s.len(),
{
    if s.len() > 0 {
        lemma_digits_val_nonneg(s.drop_last());
    }
}

proof fn lemma_digits_val_monotone(s: Seq<char>, i: int)
    requires
        forall|k: int| 0 <= k < s.len() ==> is_digit(#[trigger] s[k]),
        0 <= i <= s.len(),
    ensures
        spec_digits_val(s.take(i)) <= spec_digits_val(s),
    decreases s.len() - i,
{
    if i < s.len() {
        lemma_digits_val_monotone(s, i + 1);
        assert(s.take(i + 1).drop_last() =~= s.take(i));
        lemma_digits_val_nonneg(s.take(i));
    } else {
        assert(s.take(i) =~= s);
    }
}

/// Parses an integer literal, refusing values outside the `i64` range.
pub fn parse_i64(v: &Vec<char>) -> (r: Option<i64>)
    ensures
        match r {
            Option::Some(n) => spec_int_text(v@) && i64::MIN <= spec_int_value(v@) <= i64::MAX
                && n == spec_int_value(v@),
            Option::None => !(spec_int_text(v@) && i64::MIN <= spec_int_value(v@) <= i64::MAX),
        },
{
    if v.len() == 0 {
        return None;
    }
    let neg = v[0] == '-';
    let signed = neg || v[0] == '+';
    let start: usize = if signed {
        1
    } else {
        0
    };
    let ghost digits = if signed {
        v@.drop_first()
    } else {
        v@
    };
    if v.len() == start {
        proof {
            assert(!spec_int_text(v@));
        }
        return None;
    }
    let mut acc: i128 = 0;
    let mut i: usize = start;
    while i < v.len()
        invariant
            start <= i <= v@.len(),
            v@.len() >= 1,
            neg == (v@[0] == '-'),
            signed == (v@[0] == '-' || v@[0] == '+'),
            start == (if signed {
                1int
            } else {
                0int
            }),
            digits == (if signed {
                v@.drop_first()
            } else {
                v@
            }),
            forall|k: int| 0 <= k < i - start ==> is_digit(#[trigger] digits[k]),
            acc == spec_digits_val(digits.take(i - start)),
            0 <= acc <= 9223372036854775808i128,
        decreases v@.len() - i,
    {
        let c = v[i];
        if !(c >= '0' && c <= '9') {
            proof {
                assert(digits[i - start] == v@[i as int]);
                assert(!spec_all_digits(digits));
                assert(!spec_int_text(v@));
            }
            return None;
        }
        proof {
            assert(digits[i - start] == v@[i as int]);
            assert(digits.take(i + 1 - start).drop_last() =~= digits.take(i - start));
        }
        let d: i128 = (c as u32 as i128) - 48;
        if acc > 922337203685477580i128 || acc * 10 + d > 9223372036854775808i128 {
            // the magnitude already exceeds the i64 range; more digits only
            // grow it
            proof {
                let pre = digits.take(i + 1 - start);
                assert(pre.drop_last() =~= digits.take(i - start));
                assert(spec_digits_val(pre) == acc * 10 + d);
                if spec_int_text(v@) {
                    assert(spec_all_digits(digits));
                    assert forall|k: int| 0 <= k < digits.len() implies is_digit(
                        #[trigger] digits[k],
                    ) by {}
                    lemma_digits_val_monotone(digits, i + 1 - start);
                    assert(spec_digits_val(digits) >= spec_digits_val(pre));
                    assert(spec_digits_val(digits) > 9223372036854775807);
                    if v@.len() >= 1 && v@[0] == '-' {
                        assert(spec_int_value(v@) == -spec_digits_val(digits));
                        assert(spec_int_value(v@) < i64::MIN);
                    } else {
                        assert(spec_int_value(v@) == spec_digits_val(digits));
                        assert(spec_int_value(v@) > i64::MAX);
                    }
                }
            }
            return None;
        }
        acc = acc * 10 + d;
        i += 1;
    }
    proof {
        assert(digits.take(v@.len() - start) =~= digits);
        assert(spec_all_digits(digits));
        assert(spec_int_text(v@));
    }
    if neg {
        if acc == 9223372036854775808i128 {
            return Some(i64::MIN);
        }
        Some(-(acc as i64))
    } else {
        if acc > 9223372036854775807i128 {
            proof {
                assert(spec_int_value(v@) > i64::MAX);
            }
            return None;
        }
        Some(acc as i64)
    }
}

/// Digits only, possibly none.
pub open spec fn spec_opt_digits(s: Seq<char>) -> bool {
    forall|i: int| 0 <= i < s.len() ==> is_digit(#[trigger] s[i])
}

/// The first exponent marker (`e` or `E`) at or after `from`, if any.
pub open spec fn spec_find_exp_from(s: Seq<char>, from: int) -> Option<int>
    decreases s.len() - from,
{
    if from < 0 || from >= s.len() {
        Option::None
    } else if s[from] == 'e' || s[from] == 'E' {
        Option::Some(from)
    } else {
        spec_find_exp_from(s, from + 1)
    }
}

/// A mantissa: digits with at most one decimal point and at least one
/// digit. `has_dot` tells whether the point is required.
pub open spec fn spec_mantissa(s: Seq<char>, need_dot: bool) -> bool {
    match spec_find_char(s, '.') {
        Option::None => !need_dot && spec_all_digits(s),
        Option::Some(i) => spec_opt_digits(s.take(i)) && spec_opt_digits(s.skip(i + 1))
            && s.len() >= 2,
    }
}

/// An exponent body: an optional sign followed by one or more digits.
pub open spec fn spec_exp_body(s: Seq<char>) -> bool {
    if s.len() >= 1 && (s[0] == '+' || s[0] == '-') {
        spec_all_digits(s.drop_first())
    } else {
        spec_all_digits(s)
    }
}

/// Whether the text is a float literal of the source language: an optional
/// sign, then either a mantissa containing a decimal point, or any mantissa
/// followed by an exponent. A plain digit string is an integer literal, not
/// a float.
pub open spec fn spec_float_text(s: Seq<char>) -> bool {
    let b = if s.len() >= 1 && (s[0] == '+' || s[0] == '-') {
        s.drop_first()
    } else {
        s
    };
    match spec_find_exp_from(b, 0) {
        Option::None => spec_mantissa(b, true),
        Option::Some(i) => spec_mantissa(b.take(i), false) && spec_exp_body(b.skip(i + 1)),
    }
}

/// Whether every character in `v[from..to]` is a digit.
fn all_digits_range(v: &Vec<char>, from: usize, to: usize) -> (r: bool)
    requires
        from <= to <= v@.len(),
    ensures
        r == spec_opt_digits(v@.subrange(from as int, to as int)),
{
    let mut i = from;
    while i < to
        invariant
            from <= i <= to <= v@.len(),
            forall|k: int| from <= k < i ==> is_digit(#[trigger] v@[k]),
        decreases to - i,
    {
        if !(v[i] >= '0' && v[i] <= '9') {
            proof {
                assert(v@.subrange(from as int, to as int)[i - from] == v@[i as int]);
            }
            return false;
        }
        i += 1;
    }
    proof {
        assert forall|k: int|
            0 <= k < (to - from) implies is_digit(
            #[trigger] v@.subrange(from as int, to as int)[k],
        ) by {
            assert(v@.subrange(from as int, to as int)[k] == v@[from + k]);
        }
    }
    true
}

/// The first exponent marker at or after `from`.
fn find_exp_from(v: &Vec<char>, from: usize) -> (r: Option<usize>)
    ensures
        match r {
            Option::Some(i) => spec_find_exp_from(v@, from as int) == Option::Some(i as int)
                && from <= i < v@.len(),
            Option::None => spec_find_exp_from(v@, from as int) is None,
        },
{
    let mut i = from;
    while i < v.len()
        invariant
            from <= i,
            spec_find_exp_from(v@, from as int) == spec_find_exp_from(v@, i as int),
        decreases v@.len() - i,
    {
        if v[i] == 'e' || v[i] == 'E' {
            return Some(i);
        }
        i += 1;
    }
    None
}

/// Whether `v[from..to]` is a mantissa (`need_dot` as in the spec).
fn mantissa_range(v: &Vec<char>, from: usize, to: usize, need_dot: bool) -> (r: bool)
    requires
        from <= to <= v@.len(),
    ensures
        r == spec_mantissa(v@.subrange(from as int, to as int), need_dot),
{
    let ghost sub = v@.subrange(from as int, to as int);
    match find_char_from(v, '.', from) {
        Option::Some(dot) if dot < to => {
            proof {
                lemma_find_char_bounds(v@, '.', from as int);
                assert forall|k: int| 0 <= k < dot - from implies sub[k] != '.' by {
                    assert(sub[k] == v@[from + k]);
                    assert(spec_find_char_from(v@, '.', from as int) == Option::Some(dot as int));
                    lemma_find_char_first(v@, '.', from as int, from + k);
                }
                assert(sub[dot - from] == '.');
                lemma_find_char_at(sub, '.', dot - from);
                assert(sub.take(dot - from) =~= v@.subrange(from as int, dot as int));
                assert(sub.skip(dot - from + 1) =~= v@.subrange(dot + 1 as int, to as int));
            }
            let before = all_digits_range(v, from, dot);
            let after = all_digits_range(v, dot + 1, to);
            before && after && to - from >= 2
        },
        _ => {
            proof {
                if spec_find_char_from(v@, '.', from as int) is Some {
                    assert forall|k: int| 0 <= k < sub.len() implies sub[k] != '.' by {
                        assert(sub[k] == v@[from + k]);
                        lemma_find_char_first(v@, '.', from as int, from + k);
                    }
                } else {
                    assert forall|k: int| 0 <= k < sub.len() implies sub[k] != '.' by {
                        assert(sub[k] == v@[from + k]);
                        lemma_find_char_none(v@, '.', from as int, from + k);
                    }
                }
                lemma_find_char_no_hit(sub, '.');
            }
            if need_dot {
                false
            } else {
                if to == from {
                    false
                } else {
                    all_digits_range(v, from, to)
                }
            }
        },
    }
}

/// A found first occurrence means no earlier hit.
proof fn lemma_find_char_first(s: Seq<char>, c: char, from: int, k: int)
    requires
        0 <= from <= k,
        match spec_find_char_from(s, c, from) {
            Option::Some(i) => k < i,
            Option::None => k < s.len(),
        },
    ensures
        0 <= k < s.len() ==> s[k] != c,
    decreases k - from,
{
    if from < s.len() {
        if spec_find_char_from(s, c, from) matches Option::Some(i) {
            lemma_find_char_bounds(s, c, from);
        }
        if k > from {
            lemma_find_char_first(s, c, from + 1, k);
        }
    }
}

/// No occurrence at or after `from` means no hit anywhere in range.
proof fn lemma_find_char_none(s: Seq<char>, c: char, from: int, k: int)
    requires
        0 <= from <= k < s.len(),
        spec_find_char_from(s, c, from) is None,
    ensures
        s[k] != c,
    decreases k - from,
{
    if k > from && from >= 0 {
        lemma_find_char_none(s, c, from + 1, k);
    }
}

/// A sequence without the character finds nothing.
proof fn lemma_find_char_no_hit(s: Seq<char>, c: char)
    requires
        forall|k: int| 0 <= k < s.len() ==> s[k] != c,
    ensures
        spec_find_char(s, c) is None,
{
    lemma_find_char_no_hit_from(s, c, 0);
}

proof fn lemma_find_char_no_hit_from(s: Seq<char>, c: char, from: int)
    requires
        forall|k: int| 0 <= k < s.len() ==> s[k] != c,
        from >= 0,
    ensures
        spec_find_char_from(s, c, from) is None,
    decreases s.len() - from,
{
    if from < s.len() {
        lemma_find_char_no_hit_from(s, c, from + 1);
    }
}

/// An in-range hit with no earlier hit is what the scan finds.
proof fn lemma_find_char_at(s: Seq<char>, c: char, i: int)
    requires
        0 <= i < s.len(),
        s[i] == c,
        forall|k: int| 0 <= k < i ==> s[k] != c,
    ensures
        spec_find_char(s, c) == Option::Some(i),
{
    lemma_find_char_at_from(s, c, i, 0);
}

proof fn lemma_find_char_at_from(s: Seq<char>, c: char, i: int, from: int)
    requires
        0 <= from <= i < s.len(),
        s[i] == c,
        forall|k: int| from <= k < i ==> s[k] != c,
    ensures
        spec_find_char_from(s, c, from) == Option::Some(i),
    decreases i - from,
{
    if from < i {
        lemma_find_char_at_from(s, c, i, from + 1);
    }
}

/// Whether `v` is a float literal of the source language.
pub fn is_float_text(v: &Vec<char>) -> (r: bool)
    ensures
        r == spec_float_text(v@),
{
    let start: usize = if v.len() >= 1 && (v[0] == '+' || v[0] == '-') {
        1
    } else {
        0
    };
    let ghost b = if v@.len() >= 1 && (v@[0] == '+' || v@[0] == '-') {
        v@.drop_first()
    } else {
        v@
    };
    proof {
        assert(b =~= v@.subrange(start as int, v@.len() as int));
    }
    match find_exp_from(v, start) {
        Option::Some(i) if i >= start => {
            proof {
                lemma_find_exp_shift(v@, start as int, i as int);
                assert(b.take(i - start) =~= v@.subrange(start as int, i as int));
                assert(b.skip(i - start + 1) =~= v@.subrange(i + 1 as int, v@.len() as int));
            }
            let mant = mantissa_range(v, start, i, false);
            let eb = exp_body_range(v, i + 1);
            mant && eb
        },
        _ => {
            proof {
                if spec_find_exp_from(v@, start as int) is None {
                    lemma_find_exp_shift_none(v@, start as int);
                }
            }
            mantissa_range(v, start, v.len(), true)
        },
    }
}

/// Whether `v[from..]` is an exponent body.
fn exp_body_range(v: &Vec<char>, from: usize) -> (r: bool)
    requires
        from <= v@.len(),
    ensures
        r == spec_exp_body(v@.subrange(from as int, v@.len() as int)),
{
    let ghost sub = v@.subrange(from as int, v@.len() as int);
    let s2: usize = if from < v.len() && (v[from] == '+' || v[from] == '-') {
        from + 1
    } else {
        from
    };
    proof {
        if sub.len() >= 1 && (sub[0] == '+' || sub[0] == '-') {
            assert(sub.drop_first() =~= v@.subrange(s2 as int, v@.len() as int));
        } else {
            assert(sub =~= v@.subrange(s2 as int, v@.len() as int));
        }
    }
    if s2 == v.len() {
        return false;
    }
    all_digits_range(v, s2, v.len())
}

/// Scanning for an exponent marker from `start` in the whole text equals
/// scanning the sign-stripped suffix.
proof fn lemma_find_exp_shift(s: Seq<char>, start: int, i: int)
    requires
        0 <= start <= i,
        start <= s.len(),
        spec_find_exp_from(s, start) == Option::Some(i),
    ensures
        spec_find_exp_from(s.subrange(start, s.len() as int), 0) == Option::Some(i - start),
{
    lemma_find_exp_shift_gen(s, start, start);
}

proof fn lemma_find_exp_shift_none(s: Seq<char>, start: int)
    requires
        0 <= start <= s.len(),
        spec_find_exp_from(s, start) is None,
    ensures
        spec_find_exp_from(s.subrange(start, s.len() as int), 0) is None,
{
    lemma_find_exp_shift_gen(s, start, start);
}

proof fn lemma_find_exp_shift_gen(s: Seq<char>, start: int, from: int)
    requires
        0 <= start <= from,
        start <= s.len(),
    ensures
        spec_find_exp_from(s.subrange(start, s.len() as int), from - start) == (match
            spec_find_exp_from(s, from) {
            Option::Some(i) => Option::Some(i - start),
            Option::None => Option::<int>::None,
        }),
    decreases s.len() - from,
{
    let sub = s.subrange(start, s.len() as int);
    if from < s.len() {
        assert(sub[from - start] == s[from]);
        if s[from] == 'e' || s[from] == 'E' {
            assert(spec_find_exp_from(s, from) == Option::Some(from));
            assert(spec_find_exp_from(sub, from - start) == Option::Some(from - start));
        } else {
            lemma_find_exp_shift_gen(s, start, from + 1);
            assert(spec_find_exp_from(s, from) == spec_find_exp_from(s, from + 1));
            assert(spec_find_exp_from(sub, from - start) == spec_find_exp_from(
                sub,
                from + 1 - start,
            ));
        }
    } else {
        assert(spec_find_exp_from(s, from) is None);
        assert(from - start >= sub.len());
        assert(spec_find_exp_from(sub, from - start) is None);
    }
}

/// Relies on `String::from_iter` over chars: collecting yields exactly the
/// input characters.
#[verifier::external_body]
pub fn string_from_chars(v: &Vec<char>) -> (r: String)
    ensures
        r@ == v@,
{
    v.iter().collect()
}

/// Pushing a fresh element keeps a sequence duplicate-free and grows its
/// membership by exactly that element.
pub proof fn lemma_push_fresh<T>(s0: Seq<T>, s1: Seq<T>, e: T)
    requires
        s1 == s0.push(e),
        !s0.contains(e),
        forall|i: int, j: int| 0 <= i < j < s0.len() ==> s0[i] != s0[j],
    ensures
        forall|d: T| s1.contains(d) == (s0.contains(d) || d == e),
        forall|i: int, j: int| 0 <= i < j < s1.len() ==> s1[i] != s1[j],
{
    assert forall|d: T| s1.contains(d) == (s0.contains(d) || d == e) by {
        if s0.contains(d) {
            let w = choose|w: int| 0 <= w < s0.len() && s0[w] == d;
            assert(s1[w] == d);
        }
        if d == e {
            assert(s1[s0.len() as int] == d);
        }
        if s1.contains(d) {
            let w = choose|w: int| 0 <= w < s1.len() && s1[w] == d;
            if w < s0.len() {
                assert(s0[w] == d);
            }
        }
    }
    assert forall|i: int, j: int| 0 <= i < j < s1.len() implies s1[i] != s1[j] by {
        if j < s0.len() {
            assert(s0[i] == s1[i] && s0[j] == s1[j]);
        } else {
            assert(s1[j] == e);
            if s1[i] == e {
                assert(s0[i] == e);
                assert(s0.contains(e));
            }
        }
    }
}

/// Trims ASCII whitespace from both ends.
pub fn trim_chars(v: &Vec<char>) -> (r: Vec<char>)
    ensures
        r@ == spec_trim(v@),
{
    let n = v.len();
    let mut start: usize = 0;
    while start < n && space_char(v[start])
        invariant
            start <= n,
            n == v@.len(),
            forall|k: int| 0 <= k < start ==> is_space(v@[k]),
        decreases n - start,
    {
        start += 1;
    }
    proof {
        lemma_trim_start_at(v@, start as int);
    }
    let mut end: usize = n;
    while end > start && space_char(v[end - 1])
        invariant
            start <= end <= n,
            n == v@.len(),
            forall|k: int| end <= k < n ==> is_space(v@[k]),
        decreases end,
    {
        end -= 1;
    }
    let r = subvec(v, start, end);
    proof {
        let t = v@.subrange(start as int, n as int);
        lemma_trim_end_at(t, end - start);
        assert(t.subrange(0, end - start) =~= v@.subrange(start as int, end as int));
    }
    r
}

} // verus!
