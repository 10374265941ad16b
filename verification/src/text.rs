//! Plain-text vocabulary shared by the parsers and the screen writers.
//!
//! Text is modelled as `Seq<char>`; the executable side works on `&[char]` and
//! hands out `String`s. Everything here is total: malformed input is answered
//! with `None`, never with a panic.

use vstd::prelude::*;

verus! {

// ---------------------------------------------------------------------------
// Model
// ---------------------------------------------------------------------------

/// Unicode `White_Space`.
pub open spec fn is_whitespace(c: char) -> bool {
    ||| '\u{9}' <= c <= '\u{d}'
    ||| c == ' '
    ||| c == '\u{85}'
    ||| c == '\u{a0}'
    ||| c == '\u{1680}'
    ||| '\u{2000}' <= c <= '\u{200a}'
    ||| c == '\u{2028}'
    ||| c == '\u{2029}'
    ||| c == '\u{202f}'
    ||| c == '\u{205f}'
    ||| c == '\u{3000}'
}

/// `s` without its leading white space.
pub open spec fn trimmed_start(s: Seq<char>) -> Seq<char>
    decreases s.len(),
{
    if s.len() > 0 && is_whitespace(s[0]) {
        trimmed_start(s.drop_first())
    } else {
        s
    }
}

/// `s` without its trailing white space.
pub open spec fn trimmed_end(s: Seq<char>) -> Seq<char>
    decreases s.len(),
{
    if s.len() > 0 && is_whitespace(s.last()) {
        trimmed_end(s.drop_last())
    } else {
        s
    }
}

/// `s` without the white space around it.
pub open spec fn trimmed(s: Seq<char>) -> Seq<char> {
    trimmed_end(trimmed_start(s))
}

/// Position of the first `c` in `s`, or `s.len()` when there is none.
pub open spec fn index_of<T>(s: Seq<T>, c: T) -> int
    decreases s.len(),
{
    if s.len() == 0 || s[0] == c {
        0
    } else {
        1 + index_of(s.drop_first(), c)
    }
}

/// What stands in `s` before the first `c` (all of it when there is none).
pub open spec fn before(s: Seq<char>, c: char) -> Seq<char> {
    s.take(index_of(s, c))
}

/// What stands in `s` after the first `c`.
pub open spec fn after(s: Seq<char>, c: char) -> Seq<char> {
    s.skip(index_of(s, c) + 1)
}

/// The texts of `f` that are not empty, in order.
pub open spec fn nonempty(f: Seq<Seq<char>>) -> Seq<Seq<char>>
    decreases f.len(),
{
    if f.len() == 0 {
        f
    } else if f.last().len() == 0 {
        nonempty(f.drop_last())
    } else {
        nonempty(f.drop_last()).push(f.last())
    }
}

/// The fields of `s` between occurrences of `sep` (always at least one).
pub open spec fn fields(s: Seq<char>, sep: char) -> Seq<Seq<char>>
    decreases s.len(),
{
    let i = index_of(s, sep);
    if 0 <= i < s.len() {
        seq![s.take(i)] + fields(s.skip(i + 1), sep)
    } else {
        seq![s]
    }
}

/// `s` without one trailing carriage return.
pub open spec fn without_cr(s: Seq<char>) -> Seq<char> {
    if s.len() > 0 && s.last() == '\r' {
        s.drop_last()
    } else {
        s
    }
}

/// The lines of `s`: each ends at a line feed (or carriage return and line
/// feed), which is not part of it; the last line ending is optional.
pub open spec fn lines(s: Seq<char>) -> Seq<Seq<char>>
    decreases s.len(),
{
    let i = index_of(s, '\n');
    if s.len() == 0 {
        Seq::empty()
    } else if 0 <= i < s.len() {
        seq![without_cr(s.take(i))] + lines(s.skip(i + 1))
    } else {
        seq![s]
    }
}

/// `p` is a prefix of `s`.
pub open spec fn begins_with(s: Seq<char>, p: Seq<char>) -> bool {
    p.len() <= s.len() && s.take(p.len() as int) == p
}

/// `p` occurs somewhere in `s`.
pub open spec fn has_part(s: Seq<char>, p: Seq<char>) -> bool {
    exists|i: int| 0 <= i <= s.len() - p.len() && #[trigger] s.subrange(i, i + p.len()) == p
}

pub open spec fn is_digit(c: char) -> bool {
    '0' <= c <= '9'
}

/// `s` is a non-empty run of decimal digits.
pub open spec fn is_digits(s: Seq<char>) -> bool {
    s.len() > 0 && forall|i: int| 0 <= i < s.len() ==> is_digit(#[trigger] s[i])
}

/// Value of a run of decimal digits.
pub open spec fn digits_value(s: Seq<char>) -> nat
    decreases s.len(),
{
    if s.len() == 0 {
        0
    } else {
        digits_value(s.drop_last()) * 10 + (s.last() as nat - '0' as nat) as nat
    }
}

/// The number that `s` spells: digits, with at most one `+` before them, whose
/// value is at most `max`.
pub open spec fn number(s: Seq<char>, max: nat) -> Option<nat> {
    let d = if s.len() > 0 && s[0] == '+' {
        s.drop_first()
    } else {
        s
    };
    if is_digits(d) && digits_value(d) <= max {
        Some(digits_value(d))
    } else {
        None
    }
}

pub open spec fn digit(d: nat) -> char {
    ('0' as nat + d) as char
}

/// Decimal spelling of `n`.
pub open spec fn decimal(n: nat) -> Seq<char>
    decreases n,
{
    if n < 10 {
        seq![digit(n)]
    } else {
        decimal(n / 10).push(digit(n % 10))
    }
}

/// `n` zeros.
pub open spec fn zeros(n: int) -> Seq<char> {
    Seq::new(
        if n < 0 {
            0
        } else {
            n as nat
        },
        |i: int| '0',
    )
}

/// Decimal spelling of `n`, zeros before it up to `width`.
pub open spec fn zero_padded(n: nat, width: nat) -> Seq<char> {
    zeros(width - decimal(n).len()) + decimal(n)
}

/// `n` spaces.
pub open spec fn spaces(n: int) -> Seq<char> {
    Seq::new(
        if n < 0 {
            0
        } else {
            n as nat
        },
        |i: int| ' ',
    )
}

/// `s`, spaces behind it up to `width`.
pub open spec fn padded(s: Seq<char>, width: nat) -> Seq<char> {
    s + spaces(width - s.len())
}

/// The characters of `s`, one byte each.
pub open spec fn bytes_of(s: Seq<char>) -> Seq<u8> {
    Seq::new(s.len(), |i: int| s[i] as u8)
}

/// Views of a list of texts.
pub open spec fn texts(v: Seq<Vec<char>>) -> Seq<Seq<char>> {
    v.map_values(|t: Vec<char>| t@)
}

pub open spec fn ascii_lower(c: char) -> char {
    if 'A' <= c <= 'Z' {
        (c as u32 + 32) as char
    } else {
        c
    }
}

/// `s` with its ASCII capitals made small.
pub open spec fn ascii_lowered(s: Seq<char>) -> Seq<char> {
    s.map_values(|c: char| ascii_lower(c))
}

pub open spec fn is_ascii(s: Seq<char>) -> bool {
    forall|i: int| 0 <= i < s.len() ==> (#[trigger] s[i] as u32) < 128
}

/// Letters and digits of ASCII.
pub open spec fn is_alphanumeric(c: char) -> bool {
    is_digit(c) || 'a' <= c <= 'z' || 'A' <= c <= 'Z'
}

/// `key` with every character that is not an ASCII letter or digit folded to `_`.
pub open spec fn sanitized(key: Seq<char>) -> Seq<char> {
    key.map_values(
        |c: char|
            if is_alphanumeric(c) {
                c
            } else {
                '_'
            },
    )
}

// ---------------------------------------------------------------------------
// Trusted: functions of the standard library
// ---------------------------------------------------------------------------

/// What `str::to_lowercase` gives for a text.
pub uninterp spec fn lowercase(s: Seq<char>) -> Seq<char>;

/// Calls `str::to_lowercase`. Its result is a function of the text alone; of
/// that function it is stated that on ASCII text it makes the capitals `A` to
/// `Z` small and keeps every other character.
#[verifier::external_body]
pub(crate) fn to_lowercase(s: &str) -> (r: String)
    ensures
        r@ == lowercase(s@),
        is_ascii(s@) ==> r@ == ascii_lowered(s@),
{
    s.to_lowercase()
}

/// A text in lower case: on ASCII text the capitals `A` to `Z` are made small and
/// every other character is kept, and else it is what `lowercase` stands for.
pub open spec fn folded(s: Seq<char>) -> Seq<char> {
    if is_ascii(s) {
        ascii_lowered(s)
    } else {
        lowercase(s)
    }
}

/// `String::push` appends one character.
pub assume_specification[ String::push ](s: &mut String, ch: char)
    ensures
        final(s)@ == old(s)@.push(ch),
;

// ---------------------------------------------------------------------------
// Lemmas
// ---------------------------------------------------------------------------

pub proof fn lemma_index_of<T>(s: Seq<T>, c: T, i: int)
    requires
        0 <= i <= s.len(),
        forall|k: int| 0 <= k < i ==> s[k] != c,
        i < s.len() ==> s[i] == c,
    ensures
        index_of(s, c) == i,
    decreases s.len(),
{
    if s.len() != 0 && s[0] != c {
        assert forall|k: int| 0 <= k < i - 1 implies s.drop_first()[k] != c by {
            assert(s.drop_first()[k] == s[k + 1]);
        }
        lemma_index_of(s.drop_first(), c, i - 1);
    }
}

pub proof fn lemma_index_of_bounds<T>(s: Seq<T>, c: T)
    ensures
        0 <= index_of(s, c) <= s.len(),
        index_of(s, c) < s.len() ==> s[index_of(s, c)] == c,
        forall|k: int| 0 <= k < index_of(s, c) ==> s[k] != c,
    decreases s.len(),
{
    if s.len() != 0 && s[0] != c {
        lemma_index_of_bounds(s.drop_first(), c);
        assert forall|k: int| 0 <= k < index_of(s, c) implies s[k] != c by {
            if k > 0 {
                assert(s.drop_first()[k - 1] == s[k]);
            }
        }
    }
}

pub proof fn lemma_contains<T>(s: Seq<T>, c: T)
    ensures
        s.contains(c) == (index_of(s, c) < s.len()),
{
    lemma_index_of_bounds(s, c);
    if index_of(s, c) < s.len() {
        assert(s[index_of(s, c)] == c);
    }
}

pub proof fn lemma_digits_value_push(s: Seq<char>, i: int)
    requires
        0 <= i < s.len(),
    ensures
        digits_value(s.take(i + 1)) == digits_value(s.take(i)) * 10 + (s[i] as nat
            - '0' as nat) as nat,
{
    assert(s.take(i + 1).drop_last() =~= s.take(i));
}

/// More digits never make the value smaller.
pub proof fn lemma_digits_value_grows(s: Seq<char>, i: int)
    requires
        0 <= i <= s.len(),
    ensures
        digits_value(s.take(i)) <= digits_value(s),
    decreases s.len() - i,
{
    if i < s.len() {
        lemma_digits_value_push(s, i);
        lemma_digits_value_grows(s, i + 1);
    } else {
        assert(s.take(i) =~= s);
    }
}

/// A decimal spelling is made of digits and has the value it spells.
pub proof fn lemma_decimal(n: nat)
    ensures
        is_digits(decimal(n)),
        digits_value(decimal(n)) == n,
    decreases n,
{
    if n < 10 {
        assert(decimal(n).drop_last() == Seq::<char>::empty());
        assert(digits_value(Seq::<char>::empty()) == 0);
    } else {
        lemma_decimal(n / 10);
        let head = decimal(n / 10);
        let d = digit(n % 10);
        assert(decimal(n).drop_last() == head);
        assert forall|i: int| 0 <= i < decimal(n).len() implies is_digit(#[trigger] decimal(n)[i]) by {
            if i < head.len() {
                assert(decimal(n)[i] == head[i]);
            }
        }
    }
}

/// Reading back a decimal spelling gives the number.
pub proof fn lemma_number_of_decimal(n: nat, max: nat)
    requires
        n <= max,
    ensures
        number(decimal(n), max) == Some(n),
{
    lemma_decimal(n);
    assert(is_digit(decimal(n)[0]));
}

/// Zeros before the digits change nothing.
pub proof fn lemma_leading_zeros(k: int, s: Seq<char>)
    ensures
        digits_value(zeros(k) + s) == digits_value(s),
    decreases s.len(),
{
    if s.len() > 0 {
        lemma_leading_zeros(k, s.drop_last());
        assert((zeros(k) + s).drop_last() == zeros(k) + s.drop_last());
    } else {
        assert(zeros(k) + s == zeros(k));
        lemma_zeros_value(k);
    }
}

proof fn lemma_zeros_value(k: int)
    ensures
        digits_value(zeros(k)) == 0,
    decreases k,
{
    if k > 0 {
        lemma_zeros_value(k - 1);
        assert(zeros(k).drop_last() == zeros(k - 1));
    }
}

/// A padded spelling still has the value it spells.
pub proof fn lemma_zero_padded(n: nat, width: nat)
    ensures
        is_digits(zero_padded(n, width)),
        digits_value(zero_padded(n, width)) == n,
        zero_padded(n, width).len() >= width,
{
    lemma_decimal(n);
    let k = width - decimal(n).len();
    lemma_leading_zeros(k, decimal(n));
    let z = zero_padded(n, width);
    assert forall|i: int| 0 <= i < z.len() implies is_digit(#[trigger] z[i]) by {
        let m = zeros(k).len();
        if i >= m {
            assert(z[i] == decimal(n)[i - m]);
        }
    }
}

/// A line feed ends the first line.
pub proof fn lemma_lines_cons(a: Seq<char>, b: Seq<char>)
    requires
        !a.contains('\n'),
    ensures
        lines(a + seq!['\n'] + b) == seq![without_cr(a)] + lines(b),
{
    let s = a + seq!['\n'] + b;
    assert forall|k: int| 0 <= k < a.len() implies s[k] != '\n' by {
        assert(s[k] == a[k]);
        assert(a.contains(a[k]));
    }
    lemma_index_of(s, '\n', a.len() as int);
    assert(s.take(a.len() as int) == a);
    assert(s.skip(a.len() as int + 1) == b);
}

pub proof fn lemma_trimmed_end_len(s: Seq<char>)
    ensures
        trimmed_end(s).len() <= s.len(),
    decreases s.len(),
{
    if s.len() > 0 && is_whitespace(s.last()) {
        lemma_trimmed_end_len(s.drop_last());
    }
}

pub proof fn lemma_trimmed_start_len(s: Seq<char>)
    ensures
        trimmed_start(s).len() <= s.len(),
        trimmed_start(s).len() == s.len() ==> trimmed_start(s) == s,
    decreases s.len(),
{
    if s.len() > 0 && is_whitespace(s[0]) {
        lemma_trimmed_start_len(s.drop_first());
    }
}

/// A text that trimming leaves alone is trimmed at both ends.
pub proof fn lemma_trimmed_is_trimmed(s: Seq<char>)
    requires
        trimmed(s) == s,
    ensures
        trimmed_start(s) == s,
        trimmed_end(s) == s,
{
    lemma_trimmed_start_len(s);
    lemma_trimmed_end_len(trimmed_start(s));
}

/// A text without the separator is one field.
pub proof fn lemma_single_field(s: Seq<char>, sep: char)
    requires
        !s.contains(sep),
    ensures
        fields(s, sep) == seq![s],
{
    lemma_contains(s, sep);
    lemma_index_of_bounds(s, sep);
}

/// A separator ends the first field.
pub proof fn lemma_fields_cons(a: Seq<char>, sep: char, b: Seq<char>)
    requires
        !a.contains(sep),
    ensures
        fields(a + seq![sep] + b, sep) == seq![a] + fields(b, sep),
{
    let s = a + seq![sep] + b;
    assert forall|k: int| 0 <= k < a.len() implies s[k] != sep by {
        assert(s[k] == a[k]);
        assert(a.contains(a[k]));
    }
    lemma_index_of(s, sep, a.len() as int);
    assert(s.take(a.len() as int) == a);
    assert(s.skip(a.len() as int + 1) == b);
}

/// Digits are file-name characters.
pub proof fn lemma_sanitized_digits(s: Seq<char>)
    requires
        is_digits(s),
    ensures
        sanitized(s) == s,
{
    assert forall|i: int| 0 <= i < s.len() implies sanitized(s)[i] == s[i] by {
        assert(is_digit(s[i]));
    }
}

/// Digits hold no separator.
pub proof fn lemma_digits_without(s: Seq<char>, c: char)
    requires
        is_digits(s),
        !is_digit(c),
    ensures
        !s.contains(c),
{
    if s.contains(c) {
        let i = choose|i: int| 0 <= i < s.len() && s[i] == c;
        assert(is_digit(s[i]));
    }
}

// ---------------------------------------------------------------------------
// Executable side
// ---------------------------------------------------------------------------

pub fn chars_of(s: &str) -> (v: Vec<char>)
    ensures
        v@ == s@,
{
    let mut v: Vec<char> = Vec::new();
    for c in it: s.chars()
        invariant
            v@ == it.seq().take(it.index() as int),
            it.seq() == s@,
    {
        v.push(c);
    }
    v
}

pub fn string_of(v: &[char]) -> (s: String)
    ensures
        s@ == v@,
{
    let mut s = String::new();
    let mut i: usize = 0;
    while i < v.len()
        invariant
            i <= v.len(),
            s@ == v@.take(i as int),
        decreases v.len() - i,
    {
        s.push(v[i]);
        i += 1;
    }
    assert(v@.take(i as int) == v@);
    s
}

/// Are the two texts the same?
pub fn same(a: &[char], b: &[char]) -> (r: bool)
    ensures
        r == (a@ == b@),
{
    if a.len() != b.len() {
        return false;
    }
    let mut i: usize = 0;
    while i < a.len()
        invariant
            a.len() == b.len(),
            i <= a.len(),
            a@.take(i as int) == b@.take(i as int),
        decreases a.len() - i,
    {
        if a[i] != b[i] {
            return false;
        }
        i += 1;
        assert(a@.take(i as int) == a@.take(i - 1).push(a@[i - 1]));
        assert(b@.take(i as int) == b@.take(i - 1).push(b@[i - 1]));
    }
    assert(a@.take(i as int) == a@);
    assert(b@.take(i as int) == b@);
    true
}

/// Is `a` the word `w`?
pub fn is_word(a: &[char], w: &str) -> (r: bool)
    ensures
        r == (a@ == w@),
{
    let v = chars_of(w);
    same(a, v.as_slice())
}

pub fn same_str(a: &str, b: &str) -> (r: bool)
    ensures
        r == (a@ == b@),
{
    let v = chars_of(a);
    is_word(v.as_slice(), b)
}

fn lower_char(c: char) -> (r: char)
    ensures
        r == ascii_lower(c),
{
    if 'A' <= c && c <= 'Z' {
        ((c as u8) + 32) as char
    } else {
        c
    }
}

/// Is `a` the word `w`, but for the case of ASCII letters?
pub fn same_ignoring_case(a: &[char], w: &str) -> (r: bool)
    ensures
        r == (ascii_lowered(a@) == ascii_lowered(w@)),
{
    let b = chars_of(w);
    if a.len() != b.len() {
        assert(ascii_lowered(a@).len() != ascii_lowered(w@).len());
        return false;
    }
    let mut i: usize = 0;
    while i < a.len()
        invariant
            b@ == w@,
            a.len() == b.len(),
            i <= a.len(),
            forall|k: int| 0 <= k < i ==> ascii_lower(#[trigger] a@[k]) == ascii_lower(b@[k]),
        decreases a.len() - i,
    {
        if lower_char(a[i]) != lower_char(b[i]) {
            assert(ascii_lowered(a@)[i as int] != ascii_lowered(w@)[i as int]);
            return false;
        }
        i += 1;
    }
    assert(ascii_lowered(a@) =~= ascii_lowered(w@));
    true
}

pub fn whitespace(c: char) -> (r: bool)
    ensures
        r == is_whitespace(c),
{
    ('\u{9}' <= c && c <= '\u{d}') || c == ' ' || c == '\u{85}' || c == '\u{a0}' || c == '\u{1680}'
        || ('\u{2000}' <= c && c <= '\u{200a}') || c == '\u{2028}' || c == '\u{2029}' || c
        == '\u{202f}' || c == '\u{205f}' || c == '\u{3000}'
}

/// The text without the white space around it.
pub fn trim(s: &[char]) -> (r: &[char])
    ensures
        r@ == trimmed(s@),
{
    let mut i: usize = 0;
    assert(s@.skip(0) == s@);
    while i < s.len() && whitespace(s[i])
        invariant
            i <= s.len(),
            trimmed_start(s@) == trimmed_start(s@.skip(i as int)),
        decreases s.len() - i,
    {
        assert(s@.skip(i as int).drop_first() == s@.skip(i + 1));
        i += 1;
    }
    let ghost a = s@.skip(i as int);
    assert(trimmed_start(s@) == a);
    let mut j: usize = s.len();
    assert(a == s@.subrange(i as int, j as int));
    while j > i && whitespace(s[j - 1])
        invariant
            i <= j <= s.len(),
            trimmed_end(a) == trimmed_end(s@.subrange(i as int, j as int)),
        decreases j - i,
    {
        assert(s@.subrange(i as int, j as int).drop_last() == s@.subrange(i as int, j - 1));
        assert(s@.subrange(i as int, j as int).last() == s@[j - 1]);
        j -= 1;
    }
    proof {
        let t = s@.subrange(i as int, j as int);
        if j > i {
            assert(t.last() == s@[j - 1]);
        }
        assert(trimmed_end(t) == t);
    }
    &s[i..j]
}

/// The text without the white space behind it.
pub fn trim_end(s: &[char]) -> (r: &[char])
    ensures
        r@ == trimmed_end(s@),
{
    let mut j: usize = s.len();
    assert(s@.take(j as int) == s@);
    while j > 0 && whitespace(s[j - 1])
        invariant
            j <= s.len(),
            trimmed_end(s@) == trimmed_end(s@.take(j as int)),
        decreases j,
    {
        assert(s@.take(j as int).drop_last() == s@.take(j - 1));
        j -= 1;
    }
    &s[0..j]
}

/// The text in lower case, without the white space around it.
pub fn lower_trimmed(s: &str) -> (r: String)
    ensures
        r@ == lowercase(trimmed(s@)),
        is_ascii(trimmed(s@)) ==> r@ == ascii_lowered(trimmed(s@)),
{
    let v = chars_of(s);
    let t = string_of(trim(v.as_slice()));
    to_lowercase(t.as_str())
}

/// Position of the first `c`, or the length.
pub fn position(s: &[char], c: char) -> (i: usize)
    ensures
        i == index_of(s@, c),
        i <= s.len(),
{
    let mut i: usize = 0;
    while i < s.len() && s[i] != c
        invariant
            i <= s.len(),
            forall|k: int| 0 <= k < i ==> s@[k] != c,
        decreases s.len() - i,
    {
        i += 1;
    }
    proof {
        lemma_index_of(s@, c, i as int);
    }
    i
}

/// What stands before the first `c`.
pub fn text_before(s: &[char], c: char) -> (r: &[char])
    ensures
        r@ == before(s@, c),
{
    let i = position(s, c);
    &s[0..i]
}

/// What stands after the first `c`, if there is one.
pub fn text_after(s: &[char], c: char) -> (r: Option<&[char]>)
    ensures
        match r {
            Some(t) => s@.contains(c) && t@ == after(s@, c),
            None => !s@.contains(c),
        },
{
    proof {
        lemma_contains(s@, c);
    }
    let i = position(s, c);
    if i < s.len() {
        assert(s@.subrange(i + 1, s@.len() as int) == s@.skip(i + 1));
        Some(&s[i + 1..s.len()])
    } else {
        None
    }
}

pub fn copy_of(s: &[char]) -> (v: Vec<char>)
    ensures
        v@ == s@,
{
    let mut v: Vec<char> = Vec::new();
    let mut i: usize = 0;
    while i < s.len()
        invariant
            i <= s.len(),
            v@ == s@.take(i as int),
        decreases s.len() - i,
    {
        v.push(s[i]);
        i += 1;
    }
    assert(s@.take(i as int) == s@);
    v
}

/// The fields between occurrences of `sep`.
pub fn split(s: &[char], sep: char) -> (v: Vec<Vec<char>>)
    ensures
        texts(v@) == fields(s@, sep),
{
    let mut v: Vec<Vec<char>> = Vec::new();
    let mut i: usize = 0;
    assert(s@.skip(0) == s@);
    assert(texts(v@) == Seq::<Seq<char>>::empty());
    loop
        invariant_except_break
            i <= s.len(),
            texts(v@) + fields(s@.skip(i as int), sep) == fields(s@, sep),
        ensures
            texts(v@) == fields(s@, sep),
        decreases s.len() - i + 1,
    {
        let rest = &s[i..s.len()];
        assert(rest@ == s@.skip(i as int));
        let n = position(rest, sep);
        let ghost before = texts(v@);
        if n == rest.len() {
            v.push(copy_of(rest));
            assert(texts(v@) == before.push(rest@));
            assert(texts(v@) == before + seq![rest@]);
            break;
        }
        let field = copy_of(&rest[0..n]);
        assert(field@ == rest@.take(n as int));
        v.push(field);
        assert(texts(v@) == before.push(rest@.take(n as int)));
        assert(rest@.skip(n + 1) == s@.skip(i + n + 1));
        assert(texts(v@) + fields(s@.skip(i + n + 1), sep) == before + fields(rest@, sep));
        i = i + n + 1;
    }
    v
}

/// The lines of a text.
pub fn split_lines(s: &[char]) -> (v: Vec<Vec<char>>)
    ensures
        texts(v@) == lines(s@),
{
    let mut v: Vec<Vec<char>> = Vec::new();
    let mut i: usize = 0;
    assert(s@.skip(0) == s@);
    assert(texts(v@) == Seq::<Seq<char>>::empty());
    while i < s.len()
        invariant
            i <= s.len(),
            texts(v@) + lines(s@.skip(i as int)) == lines(s@),
        decreases s.len() - i,
    {
        let rest = &s[i..s.len()];
        assert(rest@ == s@.skip(i as int));
        let n = position(rest, '\n');
        let ghost before = texts(v@);
        if n == rest.len() {
            v.push(copy_of(rest));
            assert(texts(v@) == before.push(rest@));
            i = s.len();
            assert(s@.skip(i as int) == Seq::<char>::empty());
            assert(lines(s@.skip(i as int)) == Seq::<Seq<char>>::empty());
            assert(texts(v@) + lines(s@.skip(i as int)) == before + lines(rest@));
        } else {
            let mut line = copy_of(&rest[0..n]);
            assert(line@ == rest@.take(n as int));
            if line.len() > 0 && line[line.len() - 1] == '\r' {
                line.pop();
            }
            assert(line@ == without_cr(rest@.take(n as int)));
            v.push(line);
            assert(texts(v@) == before.push(without_cr(rest@.take(n as int))));
            assert(rest@.skip(n + 1) == s@.skip(i + n + 1));
            assert(texts(v@) + lines(s@.skip(i + n + 1)) == before + lines(rest@));
            i = i + n + 1;
        }
    }
    assert(lines(s@.skip(i as int)) == Seq::<Seq<char>>::empty());
    assert(texts(v@) + Seq::<Seq<char>>::empty() == texts(v@));
    v
}

/// What follows the prefix `p`, when `s` begins with it.
pub fn after_prefix<'a>(s: &'a [char], p: &str) -> (r: Option<&'a [char]>)
    ensures
        match r {
            Some(t) => begins_with(s@, p@) && t@ == s@.skip(p@.len() as int),
            None => !begins_with(s@, p@),
        },
{
    let w = chars_of(p);
    let n = w.len();
    if s.len() < n {
        return None;
    }
    assert(s@.subrange(0, n as int) == s@.take(n as int));
    if same(&s[0..n], w.as_slice()) {
        assert(s@.subrange(n as int, s@.len() as int) == s@.skip(n as int));
        Some(&s[n..s.len()])
    } else {
        None
    }
}

/// Does `p` occur in `s`?
pub fn includes(s: &[char], p: &str) -> (r: bool)
    ensures
        r == has_part(s@, p@),
{
    let w = chars_of(p);
    let n = w.len();
    if s.len() < n {
        return false;
    }
    let mut i: usize = 0;
    while i <= s.len() - n
        invariant
            n == w.len(),
            w@ == p@,
            n <= s.len(),
            i <= s.len() - n + 1,
            forall|k: int| 0 <= k < i ==> #[trigger] s@.subrange(k, k + n) != p@,
        decreases s.len() - n + 1 - i,
    {
        if same(&s[i..i + n], w.as_slice()) {
            assert(s@.subrange(i as int, i + n) == p@);
            return true;
        }
        if i == s.len() - n {
            return false;
        }
        i += 1;
    }
    false
}

/// The number that `s` spells, if it is one and at most `max`.
pub fn parse_number(s: &[char], max: u64) -> (r: Option<u64>)
    ensures
        match r {
            Some(n) => number(s@, max as nat) == Some(n as nat),
            None => number(s@, max as nat) is None,
        },
{
    let start: usize = if s.len() > 0 && s[0] == '+' {
        1
    } else {
        0
    };
    let d = &s[start..s.len()];
    proof {
        if start == 1 {
            assert(d@ == s@.drop_first());
        } else {
            assert(d@ == s@);
        }
    }
    if d.len() == 0 {
        return None;
    }
    let mut i: usize = 0;
    let mut n: u64 = 0;
    while i < d.len()
        invariant
            i <= d.len(),
            d.len() > 0,
            d@ == (if s@.len() > 0 && s@[0] == '+' {
                s@.drop_first()
            } else {
                s@
            }),
            forall|k: int| 0 <= k < i ==> is_digit(#[trigger] d@[k]),
            n == digits_value(d@.take(i as int)),
            n <= max,
        decreases d.len() - i,
    {
        let c = d[i];
        if c < '0' || c > '9' {
            assert(!is_digit(d@[i as int]));
            return None;
        }
        let v: u64 = c as u64 - '0' as u64;
        proof {
            lemma_digits_value_push(d@, i as int);
            lemma_digits_value_grows(d@, i + 1);
        }
        if n > max / 10 || v > max - n * 10 {
            assert(digits_value(d@.take(i + 1)) > max);
            return None;
        }
        n = n * 10 + v;
        i += 1;
    }
    assert(d@.take(i as int) == d@);
    Some(n)
}

/// Append the decimal spelling of `n`.
pub fn push_decimal(out: &mut String, n: u64)
    ensures
        final(out)@ == old(out)@ + decimal(n as nat),
    decreases n,
{
    let d: u8 = (n % 10) as u8;
    let c: char = ('0' as u8 + d) as char;
    assert(c == digit(n as nat % 10));
    if n >= 10 {
        push_decimal(out, n / 10);
    }
    out.push(c);
    assert(out@ == old(out)@ + decimal(n as nat));
}

/// Append a text, spaces behind it up to `width`.
pub fn push_padded(out: &mut String, s: &str, width: usize)
    ensures
        final(out)@ == old(out)@ + padded(s@, width as nat),
{
    let len: usize = chars_of(s).len();
    out.append(s);
    let mut k: usize = len;
    while k < width
        invariant
            len <= k,
            k <= width || k == len,
            out@ == old(out)@ + s@ + spaces(k - len),
        decreases width - k,
    {
        out.push(' ');
        k += 1;
        assert(spaces(k - len) == spaces(k - 1 - len).push(' '));
    }
    assert(spaces(k - len) == spaces(width - len));
    assert(out@ == old(out)@ + padded(s@, width as nat));
}

/// Append the decimal spelling of `n`, zeros before it up to `width`.
pub fn push_zero_padded(out: &mut String, n: u64, width: usize)
    ensures
        final(out)@ == old(out)@ + zero_padded(n as nat, width as nat),
{
    let mut digits = String::new();
    push_decimal(&mut digits, n);
    let len: usize = chars_of(digits.as_str()).len();
    let mut k: usize = len;
    while k < width
        invariant
            len <= k,
            k <= width || k == len,
            out@ == old(out)@ + zeros(k - len),
        decreases width - k,
    {
        out.push('0');
        k += 1;
        assert(zeros(k - len) == zeros(k - 1 - len).push('0'));
    }
    assert(zeros(k - len) == zeros(width - len));
    out.append(digits.as_str());
    assert(out@ == old(out)@ + zero_padded(n as nat, width as nat));
}

/// Append the decimal spelling of `n`, as bytes.
pub fn push_decimal_bytes(out: &mut Vec<u8>, n: u64)
    ensures
        final(out)@ == old(out)@ + bytes_of(decimal(n as nat)),
    decreases n,
{
    let d: u8 = (n % 10) as u8;
    if n >= 10 {
        push_decimal_bytes(out, n / 10);
    }
    out.push('0' as u8 + d);
    assert(digit(n as nat % 10) as u8 == '0' as u8 + d);
    assert(out@ == old(out)@ + bytes_of(decimal(n as nat)));
}

/// Append text, one byte per character.
pub fn push_bytes(out: &mut Vec<u8>, s: &str)
    ensures
        final(out)@ == old(out)@ + bytes_of(s@),
{
    let v = chars_of(s);
    let mut i: usize = 0;
    while i < v.len()
        invariant
            v@ == s@,
            i <= v.len(),
            out@ == old(out)@ + bytes_of(s@).take(i as int),
        decreases v.len() - i,
    {
        out.push(#[verifier::truncate] (v[i] as u8));
        i += 1;
        assert(bytes_of(s@).take(i as int) == bytes_of(s@).take(i - 1).push(s@[i - 1] as u8));
    }
    assert(bytes_of(s@).take(i as int) == bytes_of(s@));
}

/// Fold every character that is not an ASCII letter or digit to `_`.
pub fn sanitize(key: &str) -> (r: String)
    ensures
        r@ == sanitized(key@),
{
    let v = chars_of(key);
    let mut out = String::new();
    let mut i: usize = 0;
    while i < v.len()
        invariant
            v@ == key@,
            i <= v.len(),
            out@ == sanitized(key@).take(i as int),
        decreases v.len() - i,
    {
        let c = v[i];
        let keep = ('0' <= c && c <= '9') || ('a' <= c && c <= 'z') || ('A' <= c && c <= 'Z');
        out.push(
            if keep {
                c
            } else {
                '_'
            },
        );
        i += 1;
        assert(sanitized(key@).take(i as int) == sanitized(key@).take(i - 1).push(
            sanitized(key@)[i - 1],
        ));
    }
    assert(sanitized(key@).take(i as int) == sanitized(key@));
    out
}

/// Lines, each with its end behind it.
pub open spec fn ended(l: Seq<Seq<char>>, crlf: bool) -> Seq<char>
    decreases l.len(),
{
    if l.len() == 0 {
        Seq::empty()
    } else {
        l[0] + (if crlf {
            seq!['\r', '\n']
        } else {
            seq!['\n']
        }) + ended(l.drop_first(), crlf)
    }
}

/// The lines of a text are those it was put together from, with LF or CR LF behind
/// each.
pub proof fn law_lines_come_back(l: Seq<Seq<char>>, crlf: bool)
    requires
        forall|i: int|
            0 <= i < l.len() ==> !(#[trigger] l[i]).contains('\n') && (crlf || l[i].len() == 0
                || l[i].last() != '\r'),
    ensures
        lines(ended(l, crlf)) == l,
    decreases l.len(),
{
    if l.len() > 0 {
        let rest = l.drop_first();
        assert forall|i: int| 0 <= i < rest.len() implies !(#[trigger] rest[i]).contains('\n') && (
        crlf || rest[i].len() == 0 || rest[i].last() != '\r') by {
            assert(rest[i] == l[i + 1]);
        }
        law_lines_come_back(rest, crlf);
        let first = l[0];
        assert(!first.contains('\n'));
        let a = if crlf {
            first + seq!['\r']
        } else {
            first
        };
        assert(!a.contains('\n')) by {
            if a.contains('\n') {
                let k = choose|k: int| 0 <= k < a.len() && a[k] == '\n';
                if k < first.len() {
                    assert(first.contains(first[k]));
                }
            }
        }
        assert(ended(l, crlf) == a + seq!['\n'] + ended(rest, crlf));
        lemma_lines_cons(a, ended(rest, crlf));
        assert(without_cr(a) == first);
        assert(seq![first] + rest == l);
    }
}

/// Fields, with separators between them.
pub open spec fn separated_by(f: Seq<Seq<char>>, sep: char) -> Seq<char>
    decreases f.len(),
{
    if f.len() == 0 {
        Seq::empty()
    } else if f.len() == 1 {
        f[0]
    } else {
        f[0] + seq![sep] + separated_by(f.drop_first(), sep)
    }
}

/// The fields of a text are those it was put together from.
pub proof fn law_fields_come_back(f: Seq<Seq<char>>, sep: char)
    requires
        f.len() > 0,
        forall|i: int| 0 <= i < f.len() ==> !(#[trigger] f[i]).contains(sep),
    ensures
        fields(separated_by(f, sep), sep) == f,
    decreases f.len(),
{
    assert(!f[0].contains(sep));
    if f.len() == 1 {
        lemma_single_field(f[0], sep);
        assert(seq![f[0]] == f);
    } else {
        let rest = f.drop_first();
        assert forall|i: int| 0 <= i < rest.len() implies !(#[trigger] rest[i]).contains(sep) by {
            assert(rest[i] == f[i + 1]);
        }
        law_fields_come_back(rest, sep);
        lemma_fields_cons(f[0], sep, separated_by(rest, sep));
        assert(seq![f[0]] + rest == f);
    }
}

/// `t` stands in `s` at `i`, and there is nothing but white space around it.
pub open spec fn stands_alone(s: Seq<char>, t: Seq<char>, i: int) -> bool {
    &&& 0 <= i && i + t.len() <= s.len()
    &&& s.subrange(i, i + t.len()) == t
    &&& forall|k: int| 0 <= k < i ==> is_whitespace(#[trigger] s[k])
    &&& forall|k: int| i + t.len() <= k < s.len() ==> is_whitespace(#[trigger] s[k])
}

/// Trimming takes white space off both ends and nothing else: what is left neither
/// begins nor ends with it, and stands in the text between white space.
pub proof fn law_trimming(s: Seq<char>)
    ensures
        ({
            let t = trimmed(s);
            &&& t.len() > 0 ==> !is_whitespace(t[0]) && !is_whitespace(t.last())
            &&& exists|i: int| stands_alone(s, t, i)
        }),
{
    lemma_trimmed_start_part(s);
    let a = trimmed_start(s);
    lemma_trimmed_end_part(a);
    let t = trimmed_end(a);
    let i = s.len() - a.len();
    assert(a == s.skip(i));
    assert(t == a.take(t.len() as int));
    assert(s.subrange(i, i + t.len()) == t);
    assert forall|k: int| i + t.len() <= k < s.len() implies is_whitespace(#[trigger] s[k]) by {
        assert(a[k - i] == s[k]);
    }
    if t.len() > 0 {
        assert(t[0] == a[0]);
    }
    assert(stands_alone(s, t, i));
}

proof fn lemma_trimmed_start_part(s: Seq<char>)
    ensures
        trimmed_start(s).len() <= s.len(),
        trimmed_start(s) == s.skip(s.len() - trimmed_start(s).len()),
        forall|k: int|
            0 <= k < s.len() - trimmed_start(s).len() ==> is_whitespace(#[trigger] s[k]),
        trimmed_start(s).len() > 0 ==> !is_whitespace(trimmed_start(s)[0]),
    decreases s.len(),
{
    if s.len() > 0 && is_whitespace(s[0]) {
        let r = s.drop_first();
        lemma_trimmed_start_part(r);
        let n = s.len() - trimmed_start(s).len();
        assert(r.skip(n - 1) == s.skip(n));
        assert forall|k: int| 0 <= k < n implies is_whitespace(#[trigger] s[k]) by {
            if k > 0 {
                assert(r[k - 1] == s[k]);
            }
        }
    } else {
        assert(s.skip(0) == s);
    }
}

proof fn lemma_trimmed_end_part(s: Seq<char>)
    ensures
        trimmed_end(s).len() <= s.len(),
        trimmed_end(s) == s.take(trimmed_end(s).len() as int),
        forall|k: int| trimmed_end(s).len() <= k < s.len() ==> is_whitespace(#[trigger] s[k]),
        trimmed_end(s).len() > 0 ==> !is_whitespace(trimmed_end(s).last()),
    decreases s.len(),
{
    if s.len() > 0 && is_whitespace(s.last()) {
        let r = s.drop_last();
        lemma_trimmed_end_part(r);
        let n = trimmed_end(s).len() as int;
        assert(r.take(n) == s.take(n));
        assert forall|k: int| n <= k < s.len() implies is_whitespace(#[trigger] s[k]) by {
            if k < r.len() {
                assert(r[k] == s[k]);
            }
        }
    } else {
        assert(s.take(s.len() as int) == s);
    }
}

/// A number reads back from its spelling, also with a `+` in front, where it is within
/// the bound; above it, and with a character that is no digit, it is none.
pub proof fn law_numbers_read_back(n: nat, max: nat, s: Seq<char>, i: int)
    ensures
        n <= max ==> number(decimal(n), max) == Some(n) && number(seq!['+'] + decimal(n), max)
            == Some(n),
        n > max ==> number(decimal(n), max) is None,
        1 <= i < s.len() && !('0' <= s[i] <= '9') ==> number(s, max) is None,
        number(Seq::empty(), max) is None,
        is_digits(decimal(n)),
        n < 10 ==> decimal(n).len() == 1,
{
    lemma_decimal(n);
    let d = decimal(n);
    assert(is_digit(d[0]));
    assert((seq!['+'] + d).drop_first() == d);
    if 1 <= i < s.len() && !is_digit(s[i]) {
        assert(s.drop_first()[i - 1] == s[i]);
    }
}

/// A user's key as a file name: as long, with every ASCII letter and digit kept and an
/// underscore for everything else.
pub proof fn law_sanitized_names(key: Seq<char>, i: int)
    requires
        0 <= i < key.len(),
    ensures
        sanitized(key).len() == key.len(),
        sanitized(key)[i] == (if '0' <= key[i] <= '9' || 'a' <= key[i] <= 'z' || 'A' <= key[i]
            <= 'Z' {
            key[i]
        } else {
            '_'
        }),
{
}

} // verus!
