//! Character-level helpers shared by the line grammars: literal matching,
//! runs of digits and blanks, and decimal numerals.

use vstd::prelude::*;
use vstd::string::StrSliceExecFns;
use vstd::string::StringExecFns;

verus! {

/// `c` is one of the ASCII digits `0` to `9`.
pub open spec fn is_digit(c: char) -> bool {
    '0' <= c && c <= '9'
}

/// The number that the digit `c` stands for.
pub open spec fn digit_value(c: char) -> nat {
    (c as int - '0' as int) as nat
}

/// Every character of `s` is an ASCII digit.
pub open spec fn all_digits(s: Seq<char>) -> bool {
    forall|i: int| 0 <= i < s.len() ==> is_digit(#[trigger] s[i])
}

/// The value of a run of digits read as a base-ten numeral; the empty run is 0.
pub open spec fn digits_value(s: Seq<char>) -> nat
    decreases s.len(),
{
    if s.len() == 0 {
        0
    } else {
        digits_value(s.drop_last()) * 10 + digit_value(s.last())
    }
}

/// `lit` occurs in `s` starting at index `at`.
pub open spec fn has_at(s: Seq<char>, at: int, lit: Seq<char>) -> bool {
    0 <= at && at + lit.len() <= s.len() && s.subrange(at, at + lit.len()) == lit
}

/// The index just past the longest run of digits that starts at `from`.
pub open spec fn digits_end(s: Seq<char>, from: int) -> int
    decreases s.len() - from,
{
    if 0 <= from < s.len() && is_digit(s[from]) {
        digits_end(s, from + 1)
    } else {
        from
    }
}

/// `c` has the Unicode property White_Space.
pub open spec fn is_space(c: char) -> bool {
    ||| ('\u{9}' <= c && c <= '\u{d}')
    ||| c == ' '
    ||| c == '\u{85}'
    ||| c == '\u{a0}'
    ||| c == '\u{1680}'
    ||| ('\u{2000}' <= c && c <= '\u{200a}')
    ||| c == '\u{2028}'
    ||| c == '\u{2029}'
    ||| c == '\u{202f}'
    ||| c == '\u{205f}'
    ||| c == '\u{3000}'
}

/// `c` is ASCII white space: blank, tab, line feed, vertical tab, form feed
/// or carriage return.
pub open spec fn is_ascii_space(c: char) -> bool {
    c == ' ' || ('\u{9}' <= c && c <= '\u{d}')
}

/// The index just past the longest run of white space that starts at `from`.
pub open spec fn spaces_end(s: Seq<char>, from: int) -> int
    decreases s.len() - from,
{
    if 0 <= from < s.len() && is_space(s[from]) {
        spaces_end(s, from + 1)
    } else {
        from
    }
}

/// The index just past the longest run of ASCII white space that starts at
/// `from`.
pub open spec fn ascii_spaces_end(s: Seq<char>, from: int) -> int
    decreases s.len() - from,
{
    if 0 <= from < s.len() && is_ascii_space(s[from]) {
        ascii_spaces_end(s, from + 1)
    } else {
        from
    }
}

/// `c` may occur in a decimal number: a digit or the point.
pub open spec fn is_number_char(c: char) -> bool {
    is_digit(c) || c == '.'
}

/// The index at which the longest run of digits and points that ends just
/// before `end` begins.
pub open spec fn number_start(s: Seq<char>, end: int) -> int
    decreases end,
{
    if 0 < end <= s.len() && is_number_char(s[end - 1]) {
        number_start(s, end - 1)
    } else {
        end
    }
}

/// `s` is a non-negative decimal: one or more digits, optionally followed by
/// a point and one or more digits.
pub open spec fn is_decimal(s: Seq<char>) -> bool {
    let k = digits_end(s, 0);
    &&& 0 < k
    &&& k == s.len() || (s[k] == '.' && k + 1 < s.len() && digits_end(s, k + 1) == s.len())
}

/// The digits of a decimal before its point.
pub open spec fn whole_digits(s: Seq<char>) -> Seq<char> {
    s.take(digits_end(s, 0))
}

/// The digits of a decimal after its point; empty where it has none.
pub open spec fn fraction_digits(s: Seq<char>) -> Seq<char> {
    let k = digits_end(s, 0);
    if k + 1 <= s.len() {
        s.skip(k + 1)
    } else {
        Seq::empty()
    }
}

/// The texts of `lines`.
pub open spec fn line_texts(lines: Seq<String>) -> Seq<Seq<char>> {
    Seq::new(lines.len(), |i: int| lines[i]@)
}

/// The characters of `s`, in order.
pub fn chars_of(s: &str) -> (v: Vec<char>)
    ensures
        v@ == s@,
{
    let mut v: Vec<char> = Vec::new();
    for c in it: s.chars()
        invariant
            v@ == it.seq().take(it.index()),
            it.seq() == s@,
    {
        v.push(c);
    }
    v
}

/// The characters of `v` from index `from` up to `to`.
pub fn slice_chars(v: &Vec<char>, from: usize, to: usize) -> (r: Vec<char>)
    requires
        from <= to <= v.len(),
    ensures
        r@ == v@.subrange(from as int, to as int),
{
    let mut r: Vec<char> = Vec::new();
    let mut i: usize = from;
    while i < to
        invariant
            from <= i <= to <= v.len(),
            r@ == v@.subrange(from as int, i as int),
        decreases to - i,
    {
        r.push(v[i]);
        assert(r@ =~= v@.subrange(from as int, i + 1));
        i += 1;
    }
    r
}

/// Tells whether `c` is an ASCII digit.
pub fn is_digit_char(c: char) -> (b: bool)
    ensures
        b == is_digit(c),
{
    '0' <= c && c <= '9'
}

/// Tells whether `c` is Unicode white space.
pub fn is_space_char(c: char) -> (b: bool)
    ensures
        b == is_space(c),
{
    ('\u{9}' <= c && c <= '\u{d}') || c == ' ' || c == '\u{85}' || c == '\u{a0}' || c
        == '\u{1680}' || ('\u{2000}' <= c && c <= '\u{200a}') || c == '\u{2028}' || c
        == '\u{2029}' || c == '\u{202f}' || c == '\u{205f}' || c == '\u{3000}'
}

/// Tells whether `c` is ASCII white space.
pub fn is_ascii_space_char(c: char) -> (b: bool)
    ensures
        b == is_ascii_space(c),
{
    c == ' ' || ('\u{9}' <= c && c <= '\u{d}')
}

/// Tells whether the literal `lit` occurs in `v` at index `at`.
pub fn matches_at(v: &Vec<char>, at: usize, lit: &str) -> (b: bool)
    ensures
        b == has_at(v@, at as int, lit@),
{
    let pat = chars_of(lit);
    if pat.len() > v.len() || at > v.len() - pat.len() {
        return false;
    }
    let mut i: usize = 0;
    while i < pat.len()
        invariant
            pat@ == lit@,
            at + pat.len() <= v.len(),
            i <= pat.len(),
            forall|j: int| 0 <= j < i ==> v@[at + j] == pat@[j],
        decreases pat.len() - i,
    {
        if v[at + i] != pat[i] {
            assert(v@.subrange(at as int, at + pat.len())[i as int] != pat@[i as int]);
            return false;
        }
        i += 1;
    }
    assert(v@.subrange(at as int, at + pat.len()) =~= pat@);
    true
}

/// Finds the end of the run of digits that starts at `from`.
pub fn scan_digits(v: &Vec<char>, from: usize) -> (end: usize)
    requires
        from <= v.len(),
    ensures
        end == digits_end(v@, from as int),
        from <= end <= v.len(),
        forall|j: int| from <= j < end ==> is_digit(#[trigger] v@[j]),
        end == v.len() || !is_digit(v@[end as int]),
{
    let mut i: usize = from;
    while i < v.len() && is_digit_char(v[i])
        invariant
            from <= i <= v.len(),
            digits_end(v@, from as int) == digits_end(v@, i as int),
            forall|j: int| from <= j < i ==> is_digit(#[trigger] v@[j]),
        decreases v.len() - i,
    {
        i += 1;
    }
    i
}

/// Finds the end of the run of white space that starts at `from`.
pub fn scan_spaces(v: &Vec<char>, from: usize) -> (end: usize)
    requires
        from <= v.len(),
    ensures
        end == spaces_end(v@, from as int),
        from <= end <= v.len(),
{
    let mut i: usize = from;
    while i < v.len() && is_space_char(v[i])
        invariant
            from <= i <= v.len(),
            spaces_end(v@, from as int) == spaces_end(v@, i as int),
        decreases v.len() - i,
    {
        i += 1;
    }
    i
}

/// Finds the end of the run of ASCII white space that starts at `from`.
pub fn scan_ascii_spaces(v: &Vec<char>, from: usize) -> (end: usize)
    requires
        from <= v.len(),
    ensures
        end == ascii_spaces_end(v@, from as int),
        from <= end <= v.len(),
{
    let mut i: usize = from;
    while i < v.len() && is_ascii_space_char(v[i])
        invariant
            from <= i <= v.len(),
            ascii_spaces_end(v@, from as int) == ascii_spaces_end(v@, i as int),
        decreases v.len() - i,
    {
        i += 1;
    }
    i
}

/// Finds the start of the run of digits and points that ends before `end`.
pub fn scan_number_back(v: &Vec<char>, end: usize) -> (start: usize)
    requires
        end <= v.len(),
    ensures
        start == number_start(v@, end as int),
        start <= end,
{
    let mut i: usize = end;
    while i > 0 && (is_digit_char(v[i - 1]) || v[i - 1] == '.')
        invariant
            i <= end <= v.len(),
            number_start(v@, end as int) == number_start(v@, i as int),
        decreases i,
    {
        i -= 1;
    }
    i
}

/// A longer run of digits never stands for a smaller number than its prefix.
pub proof fn lemma_digits_value_prefix(s: Seq<char>, k: int)
    requires
        0 <= k <= s.len(),
    ensures
        digits_value(s.take(k)) <= digits_value(s),
    decreases s.len(),
{
    if k < s.len() {
        lemma_digits_value_prefix(s.drop_last(), k);
        assert(s.drop_last().take(k) =~= s.take(k));
    } else {
        assert(s.take(k) =~= s);
    }
}

/// Reads the digits of `v` between `from` and `to` as a number, unless it
/// exceeds `limit`.
pub fn parse_digits(v: &Vec<char>, from: usize, to: usize, limit: u128) -> (r: Option<u128>)
    requires
        from <= to <= v.len(),
        all_digits(v@.subrange(from as int, to as int)),
    ensures
        r == if digits_value(v@.subrange(from as int, to as int)) <= limit {
            Some(digits_value(v@.subrange(from as int, to as int)) as u128)
        } else {
            None
        },
{
    let ghost run = v@.subrange(from as int, to as int);
    let mut acc: u128 = 0;
    let mut i: usize = from;
    while i < to
        invariant
            from <= i <= to <= v.len(),
            run == v@.subrange(from as int, to as int),
            all_digits(run),
            acc == digits_value(run.take(i - from)),
            acc <= limit,
        decreases to - i,
    {
        let c = v[i];
        assert(c == run[i - from]);
        let d: u128 = (c as u32 - '0' as u32) as u128;
        proof {
            let next = run.take(i - from + 1);
            assert(next.drop_last() =~= run.take(i - from));
            assert(next.last() == c);
            assert(digits_value(next) == acc * 10 + d);
            lemma_digits_value_prefix(run, i - from + 1);
        }
        if d > limit || acc > (limit - d) / 10 {
            return None;
        }
        acc = acc * 10 + d;
        i += 1;
    }
    assert(run.take(to - from) =~= run);
    Some(acc)
}

/// The digit that stands for `d`, a number below ten.
pub open spec fn digit_char(d: nat) -> char {
    (d + '0' as nat) as char
}

/// The decimal numeral of `n`, without leading zeros.
pub open spec fn decimal_text(n: nat) -> Seq<char>
    decreases n,
{
    if n < 10 {
        seq![digit_char(n)]
    } else {
        decimal_text(n / 10).push(digit_char(n % 10))
    }
}

/// The decimal numeral of a number is made of digits and stands for it.
pub proof fn lemma_decimal_text_value(n: nat)
    ensures
        decimal_text(n).len() > 0,
        all_digits(decimal_text(n)),
        digits_value(decimal_text(n)) == n,
    decreases n,
{
    if n < 10 {
        let t = decimal_text(n);
        assert(t.drop_last().len() == 0);
        assert(digits_value(t.drop_last()) == 0);
    } else {
        lemma_decimal_text_value(n / 10);
        let t = decimal_text(n);
        assert(t.drop_last() =~= decimal_text(n / 10));
        assert(t.last() == digit_char(n % 10));
    }
}

/// The one-character text of the digit `d`.
fn digit_str(d: u128) -> (s: &'static str)
    requires
        d < 10,
    ensures
        s@ == seq![digit_char(d as nat)],
{
    proof {
        reveal_strlit("0");
        reveal_strlit("1");
        reveal_strlit("2");
        reveal_strlit("3");
        reveal_strlit("4");
        reveal_strlit("5");
        reveal_strlit("6");
        reveal_strlit("7");
        reveal_strlit("8");
        reveal_strlit("9");
    }
    let s = if d == 0 {
        "0"
    } else if d == 1 {
        "1"
    } else if d == 2 {
        "2"
    } else if d == 3 {
        "3"
    } else if d == 4 {
        "4"
    } else if d == 5 {
        "5"
    } else if d == 6 {
        "6"
    } else if d == 7 {
        "7"
    } else if d == 8 {
        "8"
    } else {
        "9"
    };
    assert(s@ =~= seq![digit_char(d as nat)]);
    s
}

/// Appends the decimal numeral of `n` to `out`.
pub fn push_decimal(out: &mut String, n: u128)
    ensures
        final(out)@ == old(out)@ + decimal_text(n as nat),
    decreases n,
{
    if n >= 10 {
        push_decimal(out, n / 10);
    }
    out.append(digit_str(n % 10));
    proof {
        if n >= 10 {
            assert(old(out)@ + decimal_text(n as nat / 10) + seq![digit_char(n as nat % 10)]
                =~= old(out)@ + decimal_text(n as nat));
        }
    }
}

/// The decimal numeral of `n`.
pub fn decimal_string(n: u128) -> (s: String)
    ensures
        s@ == decimal_text(n as nat),
{
    let mut s = String::new();
    push_decimal(&mut s, n);
    assert(Seq::<char>::empty() + decimal_text(n as nat) =~= decimal_text(n as nat));
    s
}

/// The index of the first line feed of `s` at or after `from`, or the
/// length of `s` where there is none.
pub open spec fn line_end(s: Seq<char>, from: int) -> int
    decreases s.len() - from,
{
    if 0 <= from < s.len() && s[from] != '\n' {
        line_end(s, from + 1)
    } else {
        from
    }
}

/// `line` without the carriage return at its end, if it has one.
pub open spec fn strip_cr(line: Seq<char>) -> Seq<char> {
    if line.len() > 0 && line.last() == '\r' {
        line.drop_last()
    } else {
        line
    }
}

/// The lines of `s` from index `from` on. A line ends at a line feed, which
/// is left out together with a carriage return just before it. What follows
/// the last line feed is a line as it stands, unless it is empty.
pub open spec fn lines_from(s: Seq<char>, from: int) -> Seq<Seq<char>>
    decreases s.len() - from,
{
    if from < 0 || from >= s.len() {
        Seq::empty()
    } else {
        let end = line_end(s, from);
        proof {
            lemma_line_end_bounds(s, from);
        }
        if end < s.len() {
            seq![strip_cr(s.subrange(from, end))] + lines_from(s, end + 1)
        } else {
            seq![s.subrange(from, end)]
        }
    }
}

/// The lines of `s`.
pub open spec fn lines_of(s: Seq<char>) -> Seq<Seq<char>> {
    lines_from(s, 0)
}

/// A line ends at or after the place where it starts.
pub proof fn lemma_line_end_bounds(s: Seq<char>, from: int)
    requires
        0 <= from <= s.len(),
    ensures
        from <= line_end(s, from) <= s.len(),
    decreases s.len() - from,
{
    if from < s.len() && s[from] != '\n' {
        lemma_line_end_bounds(s, from + 1);
    }
}

/// Finds the end of the line that starts at `from`.
fn scan_line(v: &Vec<char>, from: usize) -> (end: usize)
    requires
        from <= v.len(),
    ensures
        end == line_end(v@, from as int),
        from <= end <= v.len(),
{
    let mut i: usize = from;
    while i < v.len() && v[i] != '\n'
        invariant
            from <= i <= v.len(),
            line_end(v@, from as int) == line_end(v@, i as int),
        decreases v.len() - i,
    {
        i += 1;
    }
    i
}

/// Splits `text` into its lines.
pub fn split_lines(text: &str) -> (lines: Vec<String>)
    ensures
        line_texts(lines@) == lines_of(text@),
{
    let v = chars_of(text);
    let n = v.len();
    let mut lines: Vec<String> = Vec::new();
    let mut from: usize = 0;
    assert(line_texts(lines@) + lines_from(v@, 0) =~= lines_of(text@));
    while from < n
        invariant
            from <= n,
            n == v.len(),
            v@ == text@,
            line_texts(lines@) + lines_from(v@, from as int) == lines_of(text@),
        decreases n - from,
    {
        let end = scan_line(&v, from);
        let ghost before = lines@;
        if end < n {
            let stop = if end > from && v[end - 1] == '\r' {
                (end - 1) as usize
            } else {
                end
            };
            lines.push(String::from_str(text.substring_char(from, stop)));
            proof {
                let whole = v@.subrange(from as int, end as int);
                assert(v@.subrange(from as int, stop as int) =~= strip_cr(whole));
                assert(line_texts(lines@) =~= line_texts(before).push(strip_cr(whole)));
                assert(line_texts(lines@) + lines_from(v@, end + 1) =~= line_texts(before) + (
                seq![strip_cr(whole)] + lines_from(v@, end + 1)));
            }
            from = end + 1;
        } else {
            lines.push(String::from_str(text.substring_char(from, end)));
            proof {
                let whole = v@.subrange(from as int, end as int);
                assert(line_texts(lines@) =~= line_texts(before).push(whole));
                assert(lines_from(v@, n as int) =~= Seq::<Seq<char>>::empty());
                assert(line_texts(lines@) + lines_from(v@, n as int) =~= line_texts(before)
                    + seq![whole]);
            }
            from = n;
        }
    }
    assert(lines_from(v@, n as int) =~= Seq::<Seq<char>>::empty());
    assert(line_texts(lines@) + Seq::<Seq<char>>::empty() =~= line_texts(lines@));
    lines
}

/// The number that `s` stands for when read as an unsigned decimal: an
/// optional `+` and one or more digits, with nothing before or after.
pub open spec fn unsigned_text(s: Seq<char>) -> Option<nat> {
    let digits = if s.len() > 0 && s[0] == '+' {
        s.skip(1)
    } else {
        s
    };
    if digits.len() > 0 && all_digits(digits) {
        Some(digits_value(digits))
    } else {
        None
    }
}

/// The number that `s` stands for, where it is at most `limit`.
pub open spec fn unsigned_up_to(s: Seq<char>, limit: u128) -> Option<u128> {
    match unsigned_text(s) {
        Some(value) => if value <= limit {
            Some(value as u128)
        } else {
            None
        },
        None => None,
    }
}

/// Reads `s` as an unsigned decimal of at most `limit`.
pub fn parse_unsigned(s: &str, limit: u128) -> (r: Option<u128>)
    ensures
        r == unsigned_up_to(s@, limit),
{
    let v = chars_of(s);
    let n = v.len();
    let from: usize = if n > 0 && v[0] == '+' {
        1
    } else {
        0
    };
    let end = scan_digits(&v, from);
    proof {
        let digits = v@.subrange(from as int, n as int);
        assert(digits =~= if from == 1 {
            v@.skip(1)
        } else {
            v@
        });
        if end == n {
            assert forall|j: int| 0 <= j < digits.len() implies is_digit(#[trigger] digits[j]) by {
                assert(digits[j] == v@[from + j]);
            }
        } else {
            assert(digits[end - from] == v@[end as int]);
        }
    }
    if end != n || from == n {
        return None;
    }
    parse_digits(&v, from, n, limit)
}

/// Reads `s` as a `u32`, as the standard library does: an optional `+` and
/// one or more digits that stand for a number within range.
pub fn parse_u32(s: &str) -> (r: Option<u32>)
    ensures
        r == match unsigned_up_to(s@, u32::MAX as u128) {
            Some(value) => Some(value as u32),
            None => None,
        },
{
    match parse_unsigned(s, u32::MAX as u128) {
        Some(value) => Some(value as u32),
        None => None,
    }
}

/// The index at which the longest run of digits that ends just before `end`
/// begins.
pub open spec fn digits_start(s: Seq<char>, end: int) -> int
    decreases end,
{
    if 0 < end <= s.len() && is_digit(s[end - 1]) {
        digits_start(s, end - 1)
    } else {
        end
    }
}

/// Finds the start of the run of digits that ends before `end`.
pub fn scan_digits_back(v: &Vec<char>, end: usize) -> (start: usize)
    requires
        end <= v.len(),
    ensures
        start == digits_start(v@, end as int),
        start <= end,
        forall|j: int| start <= j < end ==> is_digit(#[trigger] v@[j]),
{
    let mut i: usize = end;
    while i > 0 && is_digit_char(v[i - 1])
        invariant
            i <= end <= v.len(),
            digits_start(v@, end as int) == digits_start(v@, i as int),
            forall|j: int| i <= j < end ==> is_digit(#[trigger] v@[j]),
        decreases i,
    {
        i -= 1;
    }
    i
}

/// A run of digits that is followed by no digit ends where it ends.
pub proof fn lemma_digits_end_of_run(s: Seq<char>, from: int, to: int)
    requires
        0 <= from <= to <= s.len(),
        forall|j: int| from <= j < to ==> is_digit(#[trigger] s[j]),
        to == s.len() || !is_digit(s[to]),
    ensures
        digits_end(s, from) == to,
    decreases to - from,
{
    if from < to {
        lemma_digits_end_of_run(s, from + 1, to);
    }
}

/// Up to where a run of digits ends there are digits only.
pub proof fn lemma_digits_end_is_run(s: Seq<char>, from: int)
    requires
        0 <= from <= s.len(),
    ensures
        from <= digits_end(s, from) <= s.len(),
        forall|j: int| from <= j < digits_end(s, from) ==> is_digit(#[trigger] s[j]),
    decreases s.len() - from,
{
    if from < s.len() && is_digit(s[from]) {
        lemma_digits_end_is_run(s, from + 1);
    }
}

/// A decimal is made of digits and points only.
pub proof fn lemma_decimal_chars(s: Seq<char>)
    requires
        is_decimal(s),
    ensures
        s.len() > 0,
        forall|j: int| 0 <= j < s.len() ==> is_number_char(#[trigger] s[j]),
{
    lemma_digits_end_is_run(s, 0);
    let k = digits_end(s, 0);
    if k < s.len() {
        lemma_digits_end_is_run(s, k + 1);
    }
}

/// A run of digits and points that no digit or point precedes begins where
/// it begins.
pub proof fn lemma_number_start_of_run(s: Seq<char>, from: int, end: int)
    requires
        0 <= from <= end <= s.len(),
        forall|j: int| from <= j < end ==> is_number_char(#[trigger] s[j]),
        from == 0 || !is_number_char(s[from - 1]),
    ensures
        number_start(s, end) == from,
    decreases end - from,
{
    if from < end {
        lemma_number_start_of_run(s, from, end - 1);
    }
}

/// A run of digits and points begins at or before the place where it ends.
pub proof fn lemma_number_start_bounds(s: Seq<char>, end: int)
    requires
        0 <= end <= s.len(),
    ensures
        0 <= number_start(s, end) <= end,
    decreases end,
{
    if 0 < end && is_number_char(s[end - 1]) {
        lemma_number_start_bounds(s, end - 1);
    }
}

} // verus!
