//! Reading progress out of one line of the downloader's output.
//!
//! A line such as `[download]  42.0% of 10MiB at 512KiB/s ETA 00:10` carries
//! a percentage and a speed.
//!
//! The percentage is what stands between the first `%` and the last space
//! before it, or the start of the line if no space comes before. Only the
//! space itself counts there: a tab or any other white space before the
//! number makes the text no number. The text is a number if it is made of
//! digits with at most one decimal point among them and at least one digit,
//! possibly after a plus sign and possibly before an exponent, as in `42`,
//! `42.5`, `.5`, `5.`, `+5`, `1e1` or `4.2E+1`. Negative numbers are not
//! read, nor numbers above one hundred, however little, nor the words for
//! infinity and for no number. The percentage is kept in hundredths; what
//! is less than a hundredth is cut off.
//!
//! The speed is the word that follows the word `at`. Words are separated by
//! white space of any kind.

use vstd::prelude::*;
use vstd::string::*;
use crate::task::FULL_PROGRESS;

verus! {

/// The characters that separate words: the white space of Unicode. These
/// are the controls from tab to carriage return, the space, the next-line
/// control, the no-break space, the Ogham space mark, the spaces from en
/// quad to hair space, the line and the paragraph separator, the narrow
/// no-break space, the medium mathematical space and the ideographic space.
pub open spec fn is_space(c: char) -> bool {
    ||| '\u{9}' <= c <= '\u{d}'
    ||| c == '\u{20}'
    ||| c == '\u{85}'
    ||| c == '\u{a0}'
    ||| c == '\u{1680}'
    ||| '\u{2000}' <= c <= '\u{200a}'
    ||| c == '\u{2028}'
    ||| c == '\u{2029}'
    ||| c == '\u{202f}'
    ||| c == '\u{205f}'
    ||| c == '\u{3000}'
}

/// The decimal digits.
pub open spec fn is_digit(c: char) -> bool {
    '0' <= c && c <= '9'
}

/// The number that a decimal digit stands for.
pub open spec fn digit_value(c: char) -> nat {
    (c as int - '0' as int) as nat
}

/// The first index at or after `i` at which `c` stands, or the length of
/// `s` if there is none.
pub open spec fn find_from(s: Seq<char>, c: char, i: int) -> int
    decreases s.len() - i,
{
    if i >= s.len() {
        s.len() as int
    } else if s[i] == c {
        i
    } else {
        find_from(s, c, i + 1)
    }
}

/// Where the text begins that follows the last space before index `p`: just
/// after that space, or at the start if no space comes before `p`. Only
/// the space itself counts, no other white space.
pub open spec fn token_start(s: Seq<char>, p: int) -> int
    decreases p,
{
    if p <= 0 {
        0
    } else if s[p - 1] == ' ' {
        p
    } else {
        token_start(s, p - 1)
    }
}

/// Where the word ends that begins at index `i`.
pub open spec fn word_end(s: Seq<char>, i: int) -> int
    decreases s.len() - i,
{
    if i >= s.len() {
        s.len() as int
    } else if is_space(s[i]) {
        i
    } else {
        word_end(s, i + 1)
    }
}

/// The first index at or after `i` that holds no white space, or the length
/// of `s` if only white space follows.
pub open spec fn skip_spaces(s: Seq<char>, i: int) -> int
    decreases s.len() - i,
{
    if i >= s.len() {
        s.len() as int
    } else if !is_space(s[i]) {
        i
    } else {
        skip_spaces(s, i + 1)
    }
}

/// Whether every character of `s` is a decimal digit.
pub open spec fn all_digits(s: Seq<char>) -> bool {
    forall|i: int| 0 <= i < s.len() ==> is_digit(#[trigger] s[i])
}

/// The number that a sequence of decimal digits denotes.
pub open spec fn decimal_value(s: Seq<char>) -> nat
    decreases s.len(),
{
    if s.len() == 0 {
        0
    } else {
        decimal_value(s.drop_last()) * 10 + digit_value(s.last())
    }
}

/// Ten to the power of `k`.
pub open spec fn pow10(k: nat) -> nat
    decreases k,
{
    if k == 0 {
        1
    } else {
        10 * pow10((k - 1) as nat)
    }
}

/// The first index at or after `i` at which the mark of an exponent stands,
/// an `e` or an `E`, or the length of `s` if there is none.
pub open spec fn mark_from(s: Seq<char>, i: int) -> int
    decreases s.len() - i,
{
    if i >= s.len() {
        s.len() as int
    } else if s[i] == 'e' || s[i] == 'E' {
        i
    } else {
        mark_from(s, i + 1)
    }
}

/// Whether a numeral has an exponent.
pub open spec fn has_exponent(body: Seq<char>) -> bool {
    mark_from(body, 0) < body.len()
}

/// The part of a numeral before the mark of its exponent.
pub open spec fn mantissa_part(body: Seq<char>) -> Seq<char> {
    body.subrange(0, mark_from(body, 0))
}

/// The part of a numeral after the mark of its exponent; empty if it has
/// none.
pub open spec fn exponent_part(body: Seq<char>) -> Seq<char> {
    if has_exponent(body) {
        body.subrange(mark_from(body, 0) + 1, body.len() as int)
    } else {
        Seq::<char>::empty()
    }
}

/// Whether the exponent of a numeral has a minus sign.
pub open spec fn exponent_is_negative(body: Seq<char>) -> bool {
    exponent_part(body).len() > 0 && exponent_part(body)[0] == '-'
}

/// The exponent of a numeral without its sign.
pub open spec fn exponent_digits(body: Seq<char>) -> Seq<char> {
    let e = exponent_part(body);
    if e.len() > 0 && (e[0] == '+' || e[0] == '-') {
        e.subrange(1, e.len() as int)
    } else {
        e
    }
}

/// The exponent of a numeral; zero if it has none.
pub open spec fn exponent_value(body: Seq<char>) -> int {
    if exponent_is_negative(body) {
        -(decimal_value(exponent_digits(body)) as int)
    } else {
        decimal_value(exponent_digits(body)) as int
    }
}

/// The part of a mantissa before its decimal point.
pub open spec fn whole_part(mantissa: Seq<char>) -> Seq<char> {
    mantissa.subrange(0, find_from(mantissa, '.', 0))
}

/// The part of a mantissa after its decimal point; empty if it has none.
pub open spec fn fraction_part(mantissa: Seq<char>) -> Seq<char> {
    let dot = find_from(mantissa, '.', 0);
    if dot < mantissa.len() {
        mantissa.subrange(dot + 1, mantissa.len() as int)
    } else {
        Seq::<char>::empty()
    }
}

/// Whether `mantissa` is made of digits, possibly with one decimal point
/// before, among or after them, and has at least one digit.
pub open spec fn is_mantissa(mantissa: Seq<char>) -> bool {
    &&& all_digits(whole_part(mantissa))
    &&& all_digits(fraction_part(mantissa))
    &&& whole_part(mantissa).len() + fraction_part(mantissa).len() > 0
}

/// Whether `body` is a numeral without a sign: a mantissa, and then
/// possibly the mark of an exponent, a sign and one or more digits.
pub open spec fn is_unsigned_numeral(body: Seq<char>) -> bool {
    &&& is_mantissa(mantissa_part(body))
    &&& has_exponent(body) ==> exponent_digits(body).len() > 0 && all_digits(
        exponent_digits(body),
    )
}

/// The digits of the mantissa of a numeral, without the point.
pub open spec fn mantissa_digits(body: Seq<char>) -> Seq<char> {
    whole_part(mantissa_part(body)) + fraction_part(mantissa_part(body))
}

/// Where the point stands among the digits of the mantissa once the
/// numeral is counted in hundredths: as many digits from the left as the
/// whole part has, and the exponent, and two.
pub open spec fn point_place(body: Seq<char>) -> int {
    whole_part(mantissa_part(body)).len() + exponent_value(body) + 2
}

/// The number that digits denote with the point after the first `place`
/// of them, what comes after the point cut off: nothing if the point
/// stands before all digits, and the digits followed by zeros if it stands
/// after all of them.
pub open spec fn scaled_value(digits: Seq<char>, place: int) -> nat {
    if place <= 0 {
        0
    } else if place <= digits.len() {
        decimal_value(digits.subrange(0, place))
    } else {
        decimal_value(digits) * pow10((place - digits.len()) as nat)
    }
}

/// The digits that stand after the point if it stands after the first
/// `place` of them.
pub open spec fn digits_after(digits: Seq<char>, place: int) -> Seq<char> {
    if place <= 0 {
        digits
    } else if place <= digits.len() {
        digits.subrange(place, digits.len() as int)
    } else {
        Seq::<char>::empty()
    }
}

/// The value of a numeral without a sign in hundredths, what is less than
/// a hundredth cut off.
pub open spec fn unsigned_hundredths(body: Seq<char>) -> nat {
    scaled_value(mantissa_digits(body), point_place(body))
}

/// What is left of `token` without the plus sign in front of it, if it has
/// one.
pub open spec fn unsigned_part(token: Seq<char>) -> Seq<char> {
    if token.len() > 0 && token[0] == '+' {
        token.subrange(1, token.len() as int)
    } else {
        token
    }
}

/// Whether `token` is a numeral: a numeral without a sign, possibly after
/// a plus sign.
pub open spec fn is_numeral(token: Seq<char>) -> bool {
    is_unsigned_numeral(unsigned_part(token))
}

/// The value of a numeral in hundredths, what is less than a hundredth cut
/// off.
pub open spec fn numeral_hundredths(token: Seq<char>) -> nat {
    unsigned_hundredths(unsigned_part(token))
}

/// Whether every character of `s` is the digit zero.
pub open spec fn all_zeros(s: Seq<char>) -> bool {
    forall|i: int| 0 <= i < s.len() ==> #[trigger] s[i] == '0'
}

/// Whether a numeral without a sign denotes at most one hundred: it has
/// less than ten thousand hundredths, or just as many and nothing but
/// zeros after them.
pub open spec fn at_most_full(body: Seq<char>) -> bool {
    &&& unsigned_hundredths(body) <= FULL_PROGRESS
    &&& unsigned_hundredths(body) == FULL_PROGRESS ==> all_zeros(
        digits_after(mantissa_digits(body), point_place(body)),
    )
}

/// The percentage that `token` denotes, in hundredths of a percent: defined
/// for a numeral of at most one hundred.
pub open spec fn percent_hundredths(token: Seq<char>) -> Option<nat> {
    if is_numeral(token) && at_most_full(unsigned_part(token)) {
        Some(numeral_hundredths(token))
    } else {
        None
    }
}

/// Whether `line` holds a percent sign.
pub open spec fn has_percent(line: Seq<char>) -> bool {
    find_from(line, '%', 0) < line.len()
}

/// The text between the first percent sign of `line` and the last space
/// before it.
pub open spec fn percent_token(line: Seq<char>) -> Seq<char> {
    let p = find_from(line, '%', 0);
    line.subrange(token_start(line, p), p)
}

/// The percentage that `line` reports, in hundredths of a percent.
pub open spec fn progress_of(line: Seq<char>) -> Option<nat> {
    if has_percent(line) {
        percent_hundredths(percent_token(line))
    } else {
        None
    }
}

/// Whether the word `at` stands at index `i` of `line`.
pub open spec fn keyword_at(line: Seq<char>, i: int) -> bool {
    &&& 0 <= i
    &&& i + 2 <= line.len()
    &&& (i == 0 || is_space(line[i - 1]))
    &&& line[i] == 'a'
    &&& line[i + 1] == 't'
    &&& (i + 2 == line.len() || is_space(line[i + 2]))
}

/// The first index at or after `i` at which the word `at` stands, or the
/// length of `line` if it does not occur.
pub open spec fn keyword_from(line: Seq<char>, i: int) -> int
    decreases line.len() - i,
{
    if i >= line.len() {
        line.len() as int
    } else if keyword_at(line, i) {
        i
    } else {
        keyword_from(line, i + 1)
    }
}

/// The word after the first word `at` of `line`, if there is one.
pub open spec fn word_after_keyword(line: Seq<char>) -> Option<Seq<char>> {
    let k = keyword_from(line, 0);
    let a = skip_spaces(line, k + 2);
    if k < line.len() && a < line.len() {
        Some(line.subrange(a, word_end(line, a)))
    } else {
        None
    }
}

/// The speed that `line` reports: the word after the first word `at`, in a
/// line that holds a percent sign. A line without a percent sign is no
/// progress line and reports no speed, whatever else it holds.
pub open spec fn speed_of(line: Seq<char>) -> Option<Seq<char>> {
    if has_percent(line) {
        word_after_keyword(line)
    } else {
        None
    }
}

/// What one line of output reports: its percentage and its speed, each as
/// far as it is there, and neither without a percent sign.
pub open spec fn line_report(line: Seq<char>) -> (Option<nat>, Option<Seq<char>>) {
    (progress_of(line), speed_of(line))
}

/// `find_from` stays within `i..=len` and names the first occurrence.
pub proof fn lemma_find_from(s: Seq<char>, c: char, i: int)
    requires
        0 <= i <= s.len(),
    ensures
        i <= find_from(s, c, i) <= s.len(),
        find_from(s, c, i) < s.len() ==> s[find_from(s, c, i)] == c,
        forall|k: int| i <= k < find_from(s, c, i) ==> s[k] != c,
    decreases s.len() - i,
{
    if i < s.len() && s[i] != c {
        lemma_find_from(s, c, i + 1);
    }
}

/// The text before `p` begins after a space or at the start of the line,
/// and holds no space.
pub proof fn lemma_token_start(s: Seq<char>, p: int)
    requires
        0 <= p <= s.len(),
    ensures
        0 <= token_start(s, p) <= p,
        token_start(s, p) == 0 || s[token_start(s, p) - 1] == ' ',
        forall|k: int| token_start(s, p) <= k < p ==> s[k] != ' ',
    decreases p,
{
    if p > 0 && s[p - 1] != ' ' {
        lemma_token_start(s, p - 1);
    }
}

/// The word from `i` ends before white space or at the end of the line, and
/// holds no white space.
pub proof fn lemma_word_end(s: Seq<char>, i: int)
    requires
        0 <= i <= s.len(),
    ensures
        i <= word_end(s, i) <= s.len(),
        word_end(s, i) == s.len() || is_space(s[word_end(s, i)]),
        forall|k: int| i <= k < word_end(s, i) ==> !is_space(s[k]),
    decreases s.len() - i,
{
    if i < s.len() && !is_space(s[i]) {
        lemma_word_end(s, i + 1);
    }
}

/// `skip_spaces` passes over white space only and stops at a word.
pub proof fn lemma_skip_spaces(s: Seq<char>, i: int)
    requires
        0 <= i <= s.len(),
    ensures
        i <= skip_spaces(s, i) <= s.len(),
        skip_spaces(s, i) < s.len() ==> !is_space(s[skip_spaces(s, i)]),
        forall|k: int| i <= k < skip_spaces(s, i) ==> is_space(s[k]),
    decreases s.len() - i,
{
    if i < s.len() && is_space(s[i]) {
        lemma_skip_spaces(s, i + 1);
    }
}

/// `keyword_from` names the first place at or after `i` where the word
/// `at` stands.
pub proof fn lemma_keyword_from(line: Seq<char>, i: int)
    requires
        0 <= i <= line.len(),
    ensures
        i <= keyword_from(line, i) <= line.len(),
        keyword_from(line, i) < line.len() ==> keyword_at(line, keyword_from(line, i)),
        forall|k: int| i <= k < keyword_from(line, i) ==> !keyword_at(line, k),
    decreases line.len() - i,
{
    if i < line.len() && !keyword_at(line, i) {
        lemma_keyword_from(line, i + 1);
    }
}

/// A line without a percent sign reports nothing.
pub proof fn lemma_no_percent_reports_nothing(line: Seq<char>)
    requires
        forall|i: int| 0 <= i < line.len() ==> line[i] != '%',
    ensures
        line_report(line) == (None::<nat>, None::<Seq<char>>),
        progress_of(line) is None,
        speed_of(line) is None,
{
    lemma_find_from(line, '%', 0);
}

/// What a line reports depends on its characters alone: two readings of
/// equal lines agree.
pub proof fn lemma_report_is_function_of_line(first: Seq<char>, second: Seq<char>)
    requires
        first =~= second,
    ensures
        line_report(first) == line_report(second),
        progress_of(first) == progress_of(second),
        speed_of(first) == speed_of(second),
{
}

/// A reported percentage is at most one hundred percent.
pub proof fn lemma_progress_in_range(line: Seq<char>)
    ensures
        progress_of(line) matches Some(p) ==> p <= FULL_PROGRESS,
        line_report(line).0 matches Some(p) ==> p <= FULL_PROGRESS,
{
}

/// A reported speed is a word: it is not empty and holds no white space.
pub proof fn lemma_speed_is_word(line: Seq<char>)
    ensures
        speed_of(line) matches Some(w) ==> w.len() > 0 && forall|i: int|
            0 <= i < w.len() ==> !is_space(#[trigger] w[i]),
{
    let k = keyword_from(line, 0);
    lemma_keyword_from(line, 0);
    if k < line.len() {
        lemma_skip_spaces(line, k + 2);
        let a = skip_spaces(line, k + 2);
        if a < line.len() {
            lemma_word_end(line, a);
        }
    }
}

/// The characters of a string slice, in order.
pub fn chars_of(s: &str) -> (v: Vec<char>)
    ensures
        v@ == s@,
{
    let mut v: Vec<char> = Vec::new();
    for c in it: s.chars()
        invariant
            v@ == it.seq().take(it.index() as int),
            it.seq() == s@,
    {
        v.push(c);
    }
    v
}

/// Tells whether `c` separates words.
pub fn space(c: char) -> (r: bool)
    ensures
        r == is_space(c),
{
    ('\u{9}' <= c && c <= '\u{d}') || c == '\u{20}' || c == '\u{85}' || c == '\u{a0}' || c
        == '\u{1680}' || ('\u{2000}' <= c && c <= '\u{200a}') || c == '\u{2028}' || c
        == '\u{2029}' || c == '\u{202f}' || c == '\u{205f}' || c == '\u{3000}'
}

/// The value of `c` if it is a decimal digit.
pub fn digit(c: char) -> (r: Option<u32>)
    ensures
        r is Some <==> is_digit(c),
        r matches Some(d) ==> d == digit_value(c) && d <= 9,
{
    if '0' <= c && c <= '9' {
        Some(c as u32 - '0' as u32)
    } else {
        None
    }
}

/// Searches `s` from index `i` on for the character `c`.
pub(crate) fn find_char(s: &Vec<char>, c: char, i: usize) -> (r: usize)
    requires
        i <= s@.len(),
    ensures
        r == find_from(s@, c, i as int),
        i <= r <= s@.len(),
{
    let mut j: usize = i;
    while j < s.len()
        invariant
            i <= j <= s@.len(),
            find_from(s@, c, i as int) == find_from(s@, c, j as int),
        decreases s@.len() - j,
    {
        if s[j] == c {
            return j;
        }
        j += 1;
    }
    j
}

/// A copy of the characters of `s` from index `a` up to index `b`.
fn copy_range(s: &Vec<char>, a: usize, b: usize) -> (r: Vec<char>)
    requires
        a <= b <= s@.len(),
    ensures
        r@ == s@.subrange(a as int, b as int),
{
    let mut r: Vec<char> = Vec::new();
    let mut j: usize = a;
    while j < b
        invariant
            a <= j <= b <= s@.len(),
            r@ == s@.subrange(a as int, j as int),
        decreases b - j,
    {
        r.push(s[j]);
        j += 1;
    }
    r
}

/// Reads a numeral of at most one hundred as hundredths.
pub fn parse_percent(token: &Vec<char>) -> (r: Option<u32>)
    ensures
        r is Some <==> percent_hundredths(token@) is Some,
        r matches Some(v) ==> percent_hundredths(token@) == Some(v as nat),
{
    if token.len() > 0 && token[0] == '+' {
        let body = copy_range(token, 1, token.len());
        parse_unsigned(&body)
    } else {
        parse_unsigned(token)
    }
}

/// Ten to a power grows with the power and is never zero.
pub proof fn lemma_pow10(a: nat, b: nat)
    requires
        a <= b,
    ensures
        1 <= pow10(a) <= pow10(b),
    decreases b,
{
    if a < b {
        lemma_pow10(a, (b - 1) as nat);
    } else if a > 0 {
        lemma_pow10((a - 1) as nat, (a - 1) as nat);
    }
}

fn find_mark(s: &Vec<char>) -> (r: usize)
    ensures
        r == mark_from(s@, 0),
        r <= s@.len(),
{
    let mut j: usize = 0;
    while j < s.len()
        invariant
            j <= s@.len(),
            mark_from(s@, 0) == mark_from(s@, j as int),
        decreases s@.len() - j,
    {
        if s[j] == 'e' || s[j] == 'E' {
            return j;
        }
        j += 1;
    }
    j
}

fn digits_only(s: &Vec<char>) -> (r: bool)
    ensures
        r == all_digits(s@),
{
    let mut j: usize = 0;
    while j < s.len()
        invariant
            j <= s@.len(),
            forall|k: int| 0 <= k < j ==> is_digit(#[trigger] s@[k]),
        decreases s@.len() - j,
    {
        if digit(s[j]).is_none() {
            return false;
        }
        j += 1;
    }
    true
}

fn zeros_from(s: &Vec<char>, from: usize) -> (r: bool)
    requires
        from <= s@.len(),
    ensures
        r == all_zeros(s@.subrange(from as int, s@.len() as int)),
{
    let ghost rest = s@.subrange(from as int, s@.len() as int);
    let mut j: usize = from;
    while j < s.len()
        invariant
            from <= j <= s@.len(),
            rest == s@.subrange(from as int, s@.len() as int),
            forall|k: int| 0 <= k < j - from ==> #[trigger] rest[k] == '0',
        decreases s@.len() - j,
    {
        if s[j] != '0' {
            assert(rest[j - from] == s@[j as int]);
            return false;
        }
        j += 1;
    }
    true
}

/// The number that the first `upto` digits denote, or `cap` if it is above
/// `cap`.
fn capped_value(digits: &Vec<char>, upto: usize, cap: u128) -> (r: u128)
    requires
        all_digits(digits@),
        upto <= digits@.len(),
        cap <= 0x1_0000_0000_0000_0000_0000,
    ensures
        r <= cap,
        r == if decimal_value(digits@.subrange(0, upto as int)) <= cap {
            decimal_value(digits@.subrange(0, upto as int))
        } else {
            cap as nat
        },
{
    let mut acc: u128 = 0;
    let mut i: usize = 0;
    while i < upto
        invariant
            i <= upto <= digits@.len(),
            all_digits(digits@),
            cap <= 0x1_0000_0000_0000_0000_0000,
            acc <= cap,
            acc == if decimal_value(digits@.subrange(0, i as int)) <= cap {
                decimal_value(digits@.subrange(0, i as int))
            } else {
                cap as nat
            },
        decreases upto - i,
    {
        let d = match digit(digits[i]) {
            Some(d) => d,
            None => 0,
        };
        proof {
            assert(digits@.subrange(0, i + 1).drop_last() =~= digits@.subrange(0, i as int));
            assert(digits@.subrange(0, i + 1).last() == digits@[i as int]);
        }
        let next = acc * 10 + d as u128;
        acc = if next > cap {
            cap
        } else {
            next
        };
        i += 1;
    }
    acc
}

/// The digits of the mantissa of a numeral and the length of its whole
/// part, if it has a mantissa.
fn mantissa_of(body: &Vec<char>) -> (r: Option<(Vec<char>, usize)>)
    ensures
        r is Some <==> is_mantissa(mantissa_part(body@)),
        r matches Some(m) ==> {
            &&& m.0@ == mantissa_digits(body@)
            &&& m.1 == whole_part(mantissa_part(body@)).len()
            &&& all_digits(m.0@)
            &&& m.1 <= m.0@.len() <= body@.len()
        },
{
    let mark = find_mark(body);
    let mantissa = copy_range(body, 0, mark);
    let dot = find_char(&mantissa, '.', 0);
    let whole = copy_range(&mantissa, 0, dot);
    let frac = if dot < mantissa.len() {
        copy_range(&mantissa, dot + 1, mantissa.len())
    } else {
        Vec::new()
    };
    assert(frac@ =~= fraction_part(mantissa@));
    if !digits_only(&whole) || !digits_only(&frac) || (whole.len() == 0 && frac.len() == 0) {
        return None;
    }
    let mut all = copy_range(&whole, 0, whole.len());
    let mut i: usize = 0;
    assert(all@ =~= whole@ + frac@.subrange(0, 0));
    while i < frac.len()
        invariant
            i <= frac@.len(),
            whole@.len() + frac@.len() <= body@.len(),
            all@ == whole@ + frac@.subrange(0, i as int),
        decreases frac@.len() - i,
    {
        all.push(frac[i]);
        assert(all@ =~= whole@ + frac@.subrange(0, i + 1));
        i += 1;
    }
    assert(all@ =~= mantissa_digits(body@));
    assert(all_digits(all@)) by {
        assert forall|k: int| 0 <= k < all@.len() implies is_digit(#[trigger] all@[k]) by {
            if k < whole@.len() {
                assert(all@[k] == whole@[k]);
            } else {
                assert(all@[k] == frac@[k - whole@.len()]);
            }
        }
    }
    Some((all, whole.len()))
}

/// The sign of the exponent of a numeral and its size, capped a little
/// above the length of the numeral, if the exponent is well written or
/// there is none.
fn exponent_of(body: &Vec<char>) -> (r: Option<(bool, u128)>)
    ensures
        r is Some <==> (has_exponent(body@) ==> exponent_digits(body@).len() > 0 && all_digits(
            exponent_digits(body@),
        )),
        r matches Some(e) ==> {
            &&& e.0 == exponent_is_negative(body@)
            &&& e.1 == if decimal_value(exponent_digits(body@)) <= body@.len() + 8 {
                decimal_value(exponent_digits(body@))
            } else {
                (body@.len() + 8) as nat
            }
        },
{
    let n = body.len();
    let mark = find_mark(body);
    if mark >= n {
        assert(exponent_digits(body@) =~= Seq::<char>::empty());
        return Some((false, 0));
    }
    let exponent = copy_range(body, mark + 1, n);
    let signed = exponent.len() > 0 && (exponent[0] == '+' || exponent[0] == '-');
    let negative = exponent.len() > 0 && exponent[0] == '-';
    let digits = if signed {
        copy_range(&exponent, 1, exponent.len())
    } else {
        copy_range(&exponent, 0, exponent.len())
    };
    assert(digits@ =~= exponent_digits(body@));
    if digits.len() == 0 || !digits_only(&digits) {
        return None;
    }
    let magnitude = capped_value(&digits, digits.len(), n as u128 + 8);
    assert(digits@.subrange(0, digits@.len() as int) =~= digits@);
    Some((negative, magnitude))
}

/// The number that digits denote with the point after the first `whole`
/// of them, moved by an exponent, in hundredths, if that is at most one
/// hundred. The exponent is given by its sign and its size, capped at
/// `cap`, which lies above the number of digits.
fn scale(
    digits: &Vec<char>,
    whole: usize,
    negative: bool,
    magnitude: u128,
    cap: u128,
    Ghost(exponent): Ghost<int>,
) -> (r: Option<u32>)
    requires
        all_digits(digits@),
        whole <= digits@.len(),
        digits@.len() + 8 <= cap <= 0x1_0000_0000_0000_0000 + 8,
        negative ==> exponent <= 0,
        !negative ==> exponent >= 0,
        magnitude == if exponent <= cap && -exponent <= cap {
            if negative {
                -exponent
            } else {
                exponent
            }
        } else {
            cap as int
        },
    ensures
        r is Some <==> {
            &&& scaled_value(digits@, whole + exponent + 2) <= FULL_PROGRESS
            &&& scaled_value(digits@, whole + exponent + 2) == FULL_PROGRESS ==> all_zeros(
                digits_after(digits@, whole + exponent + 2),
            )
        },
        r matches Some(v) ==> v == scaled_value(digits@, whole + exponent + 2),
{
    let ghost place_exact = whole + exponent + 2;
    let length = digits.len();
    let place: i128 = if negative {
        whole as i128 + 2 - magnitude as i128
    } else {
        whole as i128 + 2 + magnitude as i128
    };
    if place <= 0 {
        assert(place_exact <= 0);
        return Some(0);
    }
    if place <= length as i128 {
        assert(place == place_exact);
        let value = capped_value(digits, place as usize, 10_001);
        if value > 10_000 {
            return None;
        }
        if value == 10_000 && !zeros_from(digits, place as usize) {
            return None;
        }
        return Some(value as u32);
    }
    // The point stands after all digits: zeros follow them.
    let zeros = place - length as i128;
    let ghost zeros_exact = (place_exact - length) as nat;
    assert(zeros_exact >= zeros);
    let value = capped_value(digits, length, 10_001);
    assert(digits@.subrange(0, length as int) =~= digits@);
    if value == 0 {
        assert(decimal_value(digits@) * pow10(zeros_exact) == 0) by (nonlinear_arith)
            requires
                decimal_value(digits@) == 0,
        ;
        return Some(0);
    }
    if zeros > 4 {
        proof {
            reveal_with_fuel(pow10, 6);
            lemma_pow10(5, zeros_exact);
            assert(decimal_value(digits@) * pow10(zeros_exact) >= 100_000) by (nonlinear_arith)
                requires
                    decimal_value(digits@) >= 1,
                    pow10(zeros_exact) >= 100_000,
            ;
        }
        return None;
    }
    assert(zeros == zeros_exact);
    let factor: u128 = if zeros == 1 {
        10
    } else if zeros == 2 {
        100
    } else if zeros == 3 {
        1_000
    } else {
        10_000
    };
    proof {
        reveal_with_fuel(pow10, 6);
        assert(factor == pow10(zeros_exact));
        lemma_pow10(0, zeros_exact);
    }
    if value > 10_000 {
        assert(decimal_value(digits@) * pow10(zeros_exact) > 10_000) by (nonlinear_arith)
            requires
                decimal_value(digits@) > 10_000,
                pow10(zeros_exact) >= 1,
        ;
        return None;
    }
    assert(value * factor <= 100_000_000) by (nonlinear_arith)
        requires
            value <= 10_000,
            factor <= 10_000,
    ;
    let product = value * factor;
    if product > 10_000 {
        None
    } else {
        Some(product as u32)
    }
}

/// Reads a numeral without a sign of at most one hundred as hundredths.
fn parse_unsigned(body: &Vec<char>) -> (r: Option<u32>)
    ensures
        r is Some <==> is_unsigned_numeral(body@) && at_most_full(body@),
        r matches Some(v) ==> v == unsigned_hundredths(body@),
{
    let (digits, whole) = match mantissa_of(body) {
        Some(m) => m,
        None => {
            return None;
        },
    };
    let (negative, magnitude) = match exponent_of(body) {
        Some(e) => e,
        None => {
            return None;
        },
    };
    scale(
        &digits,
        whole,
        negative,
        magnitude,
        body.len() as u128 + 8,
        Ghost(exponent_value(body@)),
    )
}

/// Finds where the text begins that follows the last space before index
/// `p`.
fn find_token_start(s: &Vec<char>, p: usize) -> (r: usize)
    requires
        p <= s@.len(),
    ensures
        r == token_start(s@, p as int),
        r <= p,
{
    let mut j: usize = p;
    while j > 0
        invariant
            j <= p <= s@.len(),
            token_start(s@, p as int) == token_start(s@, j as int),
        decreases j,
    {
        if s[j - 1] == ' ' {
            return j;
        }
        j -= 1;
    }
    j
}

/// Finds where the word ends that begins at index `i`.
pub(crate) fn find_word_end(s: &Vec<char>, i: usize) -> (r: usize)
    requires
        i <= s@.len(),
    ensures
        r == word_end(s@, i as int),
        i <= r <= s@.len(),
{
    let mut j: usize = i;
    while j < s.len()
        invariant
            i <= j <= s@.len(),
            word_end(s@, i as int) == word_end(s@, j as int),
        decreases s@.len() - j,
    {
        if space(s[j]) {
            return j;
        }
        j += 1;
    }
    j
}

/// Passes over white space from index `i` on.
pub(crate) fn find_word(s: &Vec<char>, i: usize) -> (r: usize)
    requires
        i <= s@.len(),
    ensures
        r == skip_spaces(s@, i as int),
        i <= r <= s@.len(),
{
    let mut j: usize = i;
    while j < s.len()
        invariant
            i <= j <= s@.len(),
            skip_spaces(s@, i as int) == skip_spaces(s@, j as int),
        decreases s@.len() - j,
    {
        if !space(s[j]) {
            return j;
        }
        j += 1;
    }
    j
}

/// Tells whether the word `at` stands at index `i`.
fn is_keyword(line: &Vec<char>, i: usize) -> (r: bool)
    requires
        i < line@.len(),
    ensures
        r == keyword_at(line@, i as int),
{
    let n = line.len();
    if n - i < 2 {
        return false;
    }
    (i == 0 || space(line[i - 1])) && line[i] == 'a' && line[i + 1] == 't' && (n - i == 2 || space(
        line[i + 2],
    ))
}

/// Searches the line for the first word `at`.
pub fn find_keyword(line: &Vec<char>) -> (r: usize)
    ensures
        r == keyword_from(line@, 0),
        r <= line@.len(),
{
    let mut j: usize = 0;
    while j < line.len()
        invariant
            j <= line@.len(),
            keyword_from(line@, 0) == keyword_from(line@, j as int),
        decreases line@.len() - j,
    {
        if is_keyword(line, j) {
            return j;
        }
        j += 1;
    }
    j
}

fn progress_in(chars: &Vec<char>) -> (r: Option<u32>)
    ensures
        r is Some <==> progress_of(chars@) is Some,
        r matches Some(p) ==> progress_of(chars@) == Some(p as nat) && p <= FULL_PROGRESS,
{
    let p = find_char(chars, '%', 0);
    if p >= chars.len() {
        return None;
    }
    let start = find_token_start(chars, p);
    let token = copy_range(chars, start, p);
    parse_percent(&token)
}

fn speed_in(chars: &Vec<char>) -> (r: Option<(usize, usize)>)
    ensures
        r is Some <==> speed_of(chars@) is Some,
        r matches Some(span) ==> span.0 <= span.1 <= chars@.len() && speed_of(chars@) == Some(
            chars@.subrange(span.0 as int, span.1 as int),
        ),
{
    if find_char(chars, '%', 0) >= chars.len() {
        return None;
    }
    let k = find_keyword(chars);
    if k >= chars.len() {
        return None;
    }
    proof {
        lemma_keyword_from(chars@, 0);
    }
    let a = find_word(chars, k + 2);
    if a >= chars.len() {
        return None;
    }
    let b = find_word_end(chars, a);
    Some((a, b))
}

/// The percentage that a line of output reports, in hundredths of a
/// percent.
pub fn parse_progress(line: &str) -> (r: Option<u32>)
    ensures
        r is Some <==> progress_of(line@) is Some,
        r matches Some(p) ==> progress_of(line@) == Some(p as nat) && p <= FULL_PROGRESS,
{
    let chars = chars_of(line);
    progress_in(&chars)
}

/// The speed that a line of output reports. A line without a percent sign
/// reports none.
pub fn parse_speed(line: &str) -> (r: Option<String>)
    ensures
        r is Some <==> speed_of(line@) is Some,
        r matches Some(w) ==> speed_of(line@) == Some(w@),
        r is Some <==> line_report(line@).1 is Some,
        r matches Some(w) ==> line_report(line@).1 == Some(w@),
        !has_percent(line@) ==> r is None,
{
    let chars = chars_of(line);
    match speed_in(&chars) {
        Some((a, b)) => Some(line.substring_char(a, b).to_string()),
        None => None,
    }
}

/// What a line of output reports: its percentage and its speed, or nothing
/// at all if it holds no percent sign. The result depends on the
/// characters of the line alone.
pub fn parse_line(line: &str) -> (r: (Option<u32>, Option<String>))
    ensures
        r.0 is Some <==> line_report(line@).0 is Some,
        r.0 matches Some(p) ==> line_report(line@).0 == Some(p as nat) && p <= FULL_PROGRESS,
        r.1 is Some <==> line_report(line@).1 is Some,
        r.1 matches Some(w) ==> line_report(line@).1 == Some(w@),
        !has_percent(line@) ==> r.0 is None && r.1 is None,
{
    let chars = chars_of(line);
    let progress = progress_in(&chars);
    let speed = match speed_in(&chars) {
        Some((a, b)) => Some(line.substring_char(a, b).to_string()),
        None => None,
    };
    (progress, speed)
}

} // verus!
