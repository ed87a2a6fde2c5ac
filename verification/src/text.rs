//! Character-level text helpers with exact specifications: whitespace
//! trimming, ASCII case folding, decimal rendering and parsing, and
//! splitting on a separator character.

use vstd::prelude::*;

verus! {

/// The characters of a string slice, in order.
pub fn str_chars(s: &str) -> (chars: Vec<char>)
    ensures
        chars@ == s@,
{
    let mut chars: Vec<char> = Vec::new();
    for c in it: s.chars()
        invariant
            chars@ == it.seq().take(it.index() as int),
    {
        chars.push(c);
    }
    chars
}

/// Appends one character (`String::push`).
#[verifier::external_body]
pub(crate) fn push_char(s: &mut String, c: char)
    ensures
        final(s)@ == old(s)@.push(c),
{
    s.push(c);
}

/// Appends a sequence of characters.
pub fn push_chars(s: &mut String, chars: &Vec<char>)
    ensures
        final(s)@ == old(s)@ + chars@,
{
    let n = chars.len();
    for i in 0..n
        invariant
            n == chars@.len(),
            s@ == old(s)@ + chars@.take(i as int),
    {
        push_char(s, chars[i]);
        assert(chars@.take(i + 1) =~= chars@.take(i as int).push(chars@[i as int]));
    }
    assert(chars@.take(n as int) =~= chars@);
}

/// Appends a string slice.
pub fn push_str(s: &mut String, t: &str)
    ensures
        final(s)@ == old(s)@ + t@,
{
    let chars = str_chars(t);
    push_chars(s, &chars);
}

/// A string holding the given characters.
pub fn string_from_chars(chars: &Vec<char>) -> (s: String)
    ensures
        s@ == chars@,
{
    let mut s = String::new();
    push_chars(&mut s, chars);
    assert(s@ =~= chars@);
    s
}

/// A string holding the characters of a string slice.
pub fn string_from_str(t: &str) -> (s: String)
    ensures
        s@ == t@,
{
    let mut s = String::new();
    push_str(&mut s, t);
    assert(s@ =~= t@);
    s
}

/// A copy of `chars[lo..hi]`.
pub fn sub_chars(chars: &Vec<char>, lo: usize, hi: usize) -> (r: Vec<char>)
    requires
        lo <= hi <= chars@.len(),
    ensures
        r@ == chars@.subrange(lo as int, hi as int),
{
    let mut r: Vec<char> = Vec::new();
    let mut i = lo;
    while i < hi
        invariant
            lo <= i <= hi <= chars@.len(),
            r@ == chars@.subrange(lo as int, i as int),
        decreases hi - i,
    {
        r.push(chars[i]);
        assert(chars@.subrange(lo as int, i + 1) =~= chars@.subrange(lo as int, i as int).push(
            chars@[i as int],
        ));
        i = i + 1;
    }
    r
}

// ---------------------------------------------------------------------
// Whitespace and trimming
// ---------------------------------------------------------------------
/// Unicode `White_Space` characters, the set `char::is_whitespace` tests.
pub open spec fn is_white_space(c: char) -> bool {
    let u = c as u32;
    (0x09 <= u && u <= 0x0D) || u == 0x20 || u == 0x85 || u == 0xA0 || u == 0x1680 || (0x2000 <= u
        && u <= 0x200A) || u == 0x2028 || u == 0x2029 || u == 0x202F || u == 0x205F || u == 0x3000
}

pub fn char_is_white_space(c: char) -> (r: bool)
    ensures
        r == is_white_space(c),
{
    let u = c as u32;
    (0x09 <= u && u <= 0x0D) || u == 0x20 || u == 0x85 || u == 0xA0 || u == 0x1680 || (0x2000 <= u
        && u <= 0x200A) || u == 0x2028 || u == 0x2029 || u == 0x202F || u == 0x205F || u == 0x3000
}

/// The double quote character, the one `trim_matches('"')` removes.
pub open spec fn is_quote(c: char) -> bool {
    c == '"'
}

/// The characters a strip removes: double quotes when `quotes`, else white space.
pub open spec fn stripped(c: char, quotes: bool) -> bool {
    if quotes {
        is_quote(c)
    } else {
        is_white_space(c)
    }
}

/// Drops the leading characters that `stripped` selects.
pub open spec fn strip_start(s: Seq<char>, p: bool) -> Seq<char>
    decreases s.len(),
{
    if s.len() > 0 && stripped(s[0], p) {
        strip_start(s.drop_first(), p)
    } else {
        s
    }
}

/// Drops the trailing characters that `stripped` selects.
pub open spec fn strip_end(s: Seq<char>, p: bool) -> Seq<char>
    decreases s.len(),
{
    if s.len() > 0 && stripped(s.last(), p) {
        strip_end(s.drop_last(), p)
    } else {
        s
    }
}

/// `str::trim`: leading and trailing white space removed.
pub open spec fn trim(s: Seq<char>) -> Seq<char> {
    strip_end(strip_start(s, false), false)
}

/// `str::trim_matches('"')`: leading and trailing double quotes removed.
pub open spec fn trim_quotes(s: Seq<char>) -> Seq<char> {
    strip_end(strip_start(s, true), true)
}

proof fn lemma_strip_start_step(s: Seq<char>, p: bool, i: int, j: int)
    requires
        0 <= i < j <= s.len(),
        stripped(s[i], p),
    ensures
        strip_start(s.subrange(i, j), p) == strip_start(s.subrange(i + 1, j), p),
{
    assert(s.subrange(i, j).drop_first() =~= s.subrange(i + 1, j));
}

proof fn lemma_strip_end_step(s: Seq<char>, p: bool, i: int, j: int)
    requires
        0 <= i < j <= s.len(),
        stripped(s[j - 1], p),
    ensures
        strip_end(s.subrange(i, j), p) == strip_end(s.subrange(i, j - 1), p),
{
    assert(s.subrange(i, j).drop_last() =~= s.subrange(i, j - 1));
}

/// The bounds of `chars` after removing white space on both ends.
pub fn trim_bounds(chars: &Vec<char>) -> (r: (usize, usize))
    ensures
        r.0 <= r.1 <= chars@.len(),
        chars@.subrange(r.0 as int, r.1 as int) == trim(chars@),
{
    let n = chars.len();
    let mut a: usize = 0;
    assert(chars@.subrange(0, n as int) =~= chars@);
    while a < n && char_is_white_space(chars[a])
        invariant
            a <= n == chars@.len(),
            strip_start(chars@, false) == strip_start(chars@.subrange(a as int, n as int), false),
        decreases n - a,
    {
        proof {
            lemma_strip_start_step(chars@, false, a as int, n as int);
        }
        a = a + 1;
    }
    let ghost started = chars@.subrange(a as int, n as int);
    assert(strip_start(chars@, false) == started);
    let mut b: usize = n;
    while b > a && char_is_white_space(chars[b - 1])
        invariant
            a <= b <= n == chars@.len(),
            started == chars@.subrange(a as int, n as int),
            strip_end(started, false) == strip_end(chars@.subrange(a as int, b as int), false),
        decreases b - a,
    {
        proof {
            lemma_strip_end_step(chars@, false, a as int, b as int);
        }
        b = b - 1;
    }
    (a, b)
}

/// `chars` with white space removed on both ends.
pub fn trim_chars(chars: &Vec<char>) -> (r: Vec<char>)
    ensures
        r@ == trim(chars@),
{
    let (a, b) = trim_bounds(chars);
    sub_chars(chars, a, b)
}

/// `chars` with double quotes removed on both ends.
pub fn trim_quote_chars(chars: &Vec<char>) -> (r: Vec<char>)
    ensures
        r@ == trim_quotes(chars@),
{
    let n = chars.len();
    let mut a: usize = 0;
    assert(chars@.subrange(0, n as int) =~= chars@);
    while a < n && chars[a] == '"'
        invariant
            a <= n == chars@.len(),
            strip_start(chars@, true) == strip_start(chars@.subrange(a as int, n as int), true),
        decreases n - a,
    {
        proof {
            lemma_strip_start_step(chars@, true, a as int, n as int);
        }
        a = a + 1;
    }
    let ghost started = chars@.subrange(a as int, n as int);
    let mut b: usize = n;
    while b > a && chars[b - 1] == '"'
        invariant
            a <= b <= n == chars@.len(),
            started == chars@.subrange(a as int, n as int),
            strip_start(chars@, true) == started,
            strip_end(started, true) == strip_end(chars@.subrange(a as int, b as int), true),
        decreases b - a,
    {
        proof {
            lemma_strip_end_step(chars@, true, a as int, b as int);
        }
        b = b - 1;
    }
    sub_chars(chars, a, b)
}

// ---------------------------------------------------------------------
// ASCII case
// ---------------------------------------------------------------------
/// ASCII lowercase mapping of one character; other characters are kept.
pub open spec fn ascii_lower(c: char) -> char {
    if 'A' <= c && c <= 'Z' {
        ((c as u32) + 32) as char
    } else {
        c
    }
}

pub fn char_to_ascii_lower(c: char) -> (r: char)
    ensures
        r == ascii_lower(c),
{
    if 'A' <= c && c <= 'Z' {
        let code: u32 = c as u32;
        let b: u8 = (code + 32) as u8;
        b as char
    } else {
        c
    }
}

/// `to_ascii_lowercase` on a character sequence.
pub open spec fn lower(s: Seq<char>) -> Seq<char> {
    s.map_values(|c: char| ascii_lower(c))
}

/// ASCII uppercase mapping of one character; other characters are kept.
pub open spec fn ascii_upper(c: char) -> char {
    if 'a' <= c && c <= 'z' {
        ((c as u32) - 32) as char
    } else {
        c
    }
}

pub fn char_to_ascii_upper(c: char) -> (r: char)
    ensures
        r == ascii_upper(c),
{
    if 'a' <= c && c <= 'z' {
        let code: u32 = c as u32;
        let b: u8 = (code - 32) as u8;
        b as char
    } else {
        c
    }
}

/// `to_ascii_uppercase` on a character sequence.
pub open spec fn upper(s: Seq<char>) -> Seq<char> {
    s.map_values(|c: char| ascii_upper(c))
}

pub fn upper_chars(chars: &Vec<char>) -> (r: Vec<char>)
    ensures
        r@ == upper(chars@),
{
    let mut r: Vec<char> = Vec::new();
    let n = chars.len();
    for i in 0..n
        invariant
            n == chars@.len(),
            r@ == upper(chars@.take(i as int)),
    {
        let c = char_to_ascii_upper(chars[i]);
        r.push(c);
        assert(upper(chars@.take(i + 1)) =~= upper(chars@.take(i as int)).push(c));
    }
    assert(chars@.take(n as int) =~= chars@);
    r
}

/// `eq_ignore_ascii_case`: equal after ASCII lowercasing.
pub open spec fn eq_ignore_case(a: Seq<char>, b: Seq<char>) -> bool {
    lower(a) == lower(b)
}

pub fn lower_chars(chars: &Vec<char>) -> (r: Vec<char>)
    ensures
        r@ == lower(chars@),
{
    let mut r: Vec<char> = Vec::new();
    let n = chars.len();
    for i in 0..n
        invariant
            n == chars@.len(),
            r@ == lower(chars@.take(i as int)),
    {
        let c = char_to_ascii_lower(chars[i]);
        r.push(c);
        assert(lower(chars@.take(i + 1)) =~= lower(chars@.take(i as int)).push(c));
    }
    assert(chars@.take(n as int) =~= chars@);
    r
}

pub fn chars_eq_ignore_case(a: &Vec<char>, b: &Vec<char>) -> (r: bool)
    ensures
        r == eq_ignore_case(a@, b@),
{
    if a.len() != b.len() {
        assert(lower(a@).len() != lower(b@).len());
        return false;
    }
    let n = a.len();
    for i in 0..n
        invariant
            n == a@.len() == b@.len(),
            forall|j: int| 0 <= j < i ==> ascii_lower(a@[j]) == ascii_lower(b@[j]),
    {
        if char_to_ascii_lower(a[i]) != char_to_ascii_lower(b[i]) {
            assert(lower(a@)[i as int] != lower(b@)[i as int]);
            return false;
        }
    }
    assert(lower(a@) =~= lower(b@));
    true
}

/// Compares a character sequence with a string slice, ignoring ASCII case.
pub fn chars_eq_ignore_case_str(a: &Vec<char>, b: &str) -> (r: bool)
    ensures
        r == eq_ignore_case(a@, b@),
{
    let bc = str_chars(b);
    chars_eq_ignore_case(a, &bc)
}

/// Exact comparison of a character sequence with a string slice.
pub fn chars_eq_str(a: &Vec<char>, b: &str) -> (r: bool)
    ensures
        r == (a@ == b@),
{
    let bc = str_chars(b);
    if a.len() != bc.len() {
        assert(a@.len() != bc@.len());
        return false;
    }
    let n = a.len();
    for i in 0..n
        invariant
            n == a@.len() == bc@.len(),
            bc@ == b@,
            forall|j: int| 0 <= j < i ==> a@[j] == bc@[j],
    {
        if a[i] != bc[i] {
            assert(a@[i as int] != bc@[i as int]);
            return false;
        }
    }
    assert(a@ =~= bc@);
    true
}

/// `needle` occurs in `text`.
pub open spec fn contains_seq(text: Seq<char>, needle: Seq<char>) -> bool {
    exists|i: int|
        0 <= i && i + needle.len() <= text.len() && #[trigger] text.subrange(i, i + needle.len()) == needle
}

fn matches_at(text: &Vec<char>, needle: &Vec<char>, at: usize) -> (r: bool)
    requires
        at + needle@.len() <= text@.len(),
    ensures
        r == (text@.subrange(at as int, at + needle@.len()) == needle@),
{
    let m = needle.len();
    let n = text.len();
    for j in 0..m
        invariant
            m == needle@.len(),
            n == text@.len(),
            at + m <= n,
            forall|k: int| 0 <= k < j ==> text@[at + k] == needle@[k],
    {
        let idx: usize = at + j;
        if text[idx] != needle[j] {
            assert(text@.subrange(at as int, at + m)[j as int] != needle@[j as int]);
            return false;
        }
    }
    assert(text@.subrange(at as int, at + m) =~= needle@);
    true
}

/// Whether `needle` occurs in `text` (`str::contains`).
pub fn chars_contain(text: &Vec<char>, needle: &Vec<char>) -> (r: bool)
    ensures
        r == contains_seq(text@, needle@),
{
    let n = text.len();
    let m = needle.len();
    if m > n {
        return false;
    }
    if m == 0 {
        assert(text@.subrange(0, 0 + needle@.len() as int) =~= needle@);
        return true;
    }
    let mut i: usize = 0;
    while i <= n - m
        invariant
            n == text@.len(),
            m == needle@.len(),
            1 <= m <= n,
            i <= n - m + 1,
            forall|j: int| 0 <= j < i ==> #[trigger] text@.subrange(j, j + m) != needle@,
        decreases n - m + 1 - i,
    {
        if matches_at(text, needle, i) {
            return true;
        }
        i = i + 1;
    }
    assert forall|j: int| 0 <= j && j + m <= text@.len() implies #[trigger] text@.subrange(j, j + m)
        != needle@ by {
        assert(j < i);
    }
    false
}

// ---------------------------------------------------------------------
// Decimal rendering and parsing
// ---------------------------------------------------------------------
pub open spec fn digit_char(d: nat) -> char
    recommends
        d < 10,
{
    ((d + 48) as u32) as char
}

/// Decimal digits of a natural number, most significant first.
pub open spec fn decimal(n: nat) -> Seq<char>
    decreases n,
{
    if n < 10 {
        seq![digit_char(n)]
    } else {
        decimal(n / 10).push(digit_char(n % 10))
    }
}

/// Decimal rendering of an integer, with a leading `-` when negative.
pub open spec fn int_decimal(i: int) -> Seq<char> {
    if i < 0 {
        seq!['-'] + decimal((-i) as nat)
    } else {
        decimal(i as nat)
    }
}

fn digit(d: u64) -> (c: char)
    requires
        d < 10,
    ensures
        c == digit_char(d as nat),
{
    let b: u8 = (d + 48) as u8;
    b as char
}

/// Appends the decimal digits of `n`.
pub fn push_decimal(s: &mut String, n: u64)
    ensures
        final(s)@ == old(s)@ + decimal(n as nat),
    decreases n,
{
    if n >= 10 {
        push_decimal(s, n / 10);
    }
    push_char(s, digit(n % 10));
    proof {
        if n >= 10 {
            assert(decimal(n as nat) == decimal((n / 10) as nat).push(digit_char((n % 10) as nat)));
        }
    }
}

/// Appends the decimal rendering of a signed integer.
pub fn push_int_decimal(s: &mut String, i: i64)
    ensures
        final(s)@ == old(s)@ + int_decimal(i as int),
{
    if i < 0 {
        push_char(s, '-');
        let m: u64 = (0i128 - (i as i128)) as u64;
        push_decimal(s, m);
        assert(final(s)@ =~= old(s)@ + (seq!['-'] + decimal(m as nat)));
    } else {
        push_decimal(s, i as u64);
    }
}

pub open spec fn is_digit(c: char) -> bool {
    48 <= (c as u32) && (c as u32) <= 57
}

/// Value of a run of decimal digits.
pub open spec fn digits_value(s: Seq<char>) -> nat
    decreases s.len(),
{
    if s.len() == 0 {
        0
    } else {
        digits_value(s.drop_last()) * 10 + ((s.last() as u32) - 48) as nat
    }
}

pub open spec fn all_digits(s: Seq<char>) -> bool {
    forall|i: int| 0 <= i < s.len() ==> is_digit(#[trigger] s[i])
}

/// The digits that `usize::from_str` reads: an optional leading `+`.
pub open spec fn unsigned_body(s: Seq<char>) -> Seq<char> {
    if s.len() > 0 && s[0] == '+' {
        s.drop_first()
    } else {
        s
    }
}

/// `str::parse::<usize>().ok()`.
pub open spec fn parse_usize(s: Seq<char>) -> Option<usize> {
    let body = unsigned_body(s);
    if body.len() > 0 && all_digits(body) && digits_value(body) <= usize::MAX {
        Some(digits_value(body) as usize)
    } else {
        None
    }
}

/// `str::parse::<u64>().ok()`.
pub open spec fn parse_u64(s: Seq<char>) -> Option<u64> {
    let body = unsigned_body(s);
    if body.len() > 0 && all_digits(body) && digits_value(body) <= u64::MAX {
        Some(digits_value(body) as u64)
    } else {
        None
    }
}

proof fn lemma_digits_value_monotone(s: Seq<char>, i: int, j: int)
    requires
        0 <= i <= j <= s.len(),
        all_digits(s),
    ensures
        digits_value(s.take(i)) <= digits_value(s.take(j)),
    decreases j - i,
{
    if i < j {
        lemma_digits_value_monotone(s, i, j - 1);
        assert(s.take(j).drop_last() =~= s.take(j - 1));
    }
}

/// Parses decimal digits (after an optional `+`) into a `u64`.
pub fn parse_u64_chars(chars: &Vec<char>) -> (r: Option<u64>)
    ensures
        r == parse_u64(chars@),
{
    let n = chars.len();
    let start: usize = if n > 0 && chars[0] == '+' {
        1
    } else {
        0
    };
    let ghost body = unsigned_body(chars@);
    assert(body =~= chars@.subrange(start as int, n as int));
    if start == n {
        return None;
    }
    let mut acc: u64 = 0;
    let mut i = start;
    while i < n
        invariant
            start <= i <= n == chars@.len(),
            start < n,
            body == unsigned_body(chars@),
            body == chars@.subrange(start as int, n as int),
            all_digits(body.take(i - start)),
            acc as nat == digits_value(body.take(i - start)),
        decreases n - i,
    {
        let c = chars[i];
        let u = c as u32;
        if u < 48 || u > 57 {
            assert(u == c as u32);
            assert(body[i - start] == c);
            assert(!is_digit(body[i - start]));
            assert(!all_digits(body));
            return None;
        }
        let d: u64 = (u - 48) as u64;
        assert(body.take(i - start + 1).drop_last() =~= body.take(i - start));
        if acc > (u64::MAX - d) / 10 {
            proof {
                assert(digits_value(body.take(i - start + 1)) > u64::MAX) by (nonlinear_arith)
                    requires
                        digits_value(body.take(i - start + 1)) == acc * 10 + d,
                        acc > (u64::MAX - d) / 10,
                        d < 10,
                ;
                if all_digits(body) {
                    lemma_digits_value_monotone(body, i - start + 1, body.len() as int);
                    assert(body.take(body.len() as int) =~= body);
                    assert(digits_value(body) > u64::MAX);
                }
            }
            return None;
        }
        acc = acc * 10 + d;
        i = i + 1;
        assert(all_digits(body.take(i - start)));
    }
    assert(body.take(n - start) =~= body);
    Some(acc)
}

/// Parses decimal digits (after an optional `+`) into a `usize`.
pub fn parse_usize_chars(chars: &Vec<char>) -> (r: Option<usize>)
    ensures
        r == parse_usize(chars@),
{
    match parse_u64_chars(chars) {
        Some(v) => {
            if v <= usize::MAX as u64 {
                Some(v as usize)
            } else {
                None
            }
        },
        None => {
            proof {
                let body = unsigned_body(chars@);
                if body.len() > 0 && all_digits(body) {
                    assert(digits_value(body) > u64::MAX);
                }
            }
            None
        },
    }
}

// ---------------------------------------------------------------------
// Splitting
// ---------------------------------------------------------------------
/// `str::split(sep)`: the pieces between separators, always at least one.
pub open spec fn split(s: Seq<char>, sep: char) -> Seq<Seq<char>>
    decreases s.len(),
{
    if s.len() == 0 {
        seq![Seq::<char>::empty()]
    } else {
        let prev = split(s.drop_last(), sep);
        if s.last() == sep {
            prev.push(Seq::<char>::empty())
        } else {
            prev.update(prev.len() - 1, prev.last().push(s.last()))
        }
    }
}

proof fn lemma_split_len(s: Seq<char>, sep: char)
    ensures
        split(s, sep).len() >= 1,
    decreases s.len(),
{
    if s.len() > 0 {
        lemma_split_len(s.drop_last(), sep);
    }
}

/// The character sequences of a sequence of character vectors.
pub open spec fn views(v: Seq<Vec<char>>) -> Seq<Seq<char>> {
    v.map_values(|x: Vec<char>| x@)
}

/// The character sequences of a sequence of strings.
pub open spec fn string_views(v: Seq<String>) -> Seq<Seq<char>> {
    v.map_values(|x: String| x@)
}

/// Splits `chars` at every `sep`.
pub fn split_chars(chars: &Vec<char>, sep: char) -> (r: Vec<Vec<char>>)
    ensures
        views(r@) == split(chars@, sep),
        r@.len() >= 1,
{
    let mut done: Vec<Vec<char>> = Vec::new();
    let mut cur: Vec<char> = Vec::new();
    let n = chars.len();
    for i in 0..n
        invariant
            n == chars@.len(),
            views(done@).push(cur@) == split(chars@.take(i as int), sep),
    {
        let c = chars[i];
        proof {
            lemma_split_len(chars@.take(i as int), sep);
            assert(chars@.take(i + 1).drop_last() =~= chars@.take(i as int));
        }
        if c == sep {
            let finished = cur;
            done.push(finished);
            cur = Vec::new();
            assert(views(done@).push(cur@) =~= split(chars@.take(i + 1), sep));
        } else {
            let ghost before = views(done@);
            cur.push(c);
            assert(views(done@) =~= before);
            assert(views(done@).push(cur@) =~= split(chars@.take(i + 1), sep));
        }
    }
    assert(chars@.take(n as int) =~= chars@);
    done.push(cur);
    assert(views(done@) =~= split(chars@, sep));
    done
}

// ---------------------------------------------------------------------
// Lines
// ---------------------------------------------------------------------
/// One trailing carriage return removed.
pub open spec fn strip_cr(l: Seq<char>) -> Seq<char> {
    if l.len() > 0 && l.last() == '\r' {
        l.drop_last()
    } else {
        l
    }
}

/// `str::lines`: pieces between newlines, a final empty piece dropped, and
/// a carriage return before each newline removed.
pub open spec fn lines(s: Seq<char>) -> Seq<Seq<char>> {
    let pieces = split(s, '\n');
    let kept = if pieces.last().len() == 0 {
        pieces.len() - 1
    } else {
        pieces.len() as int
    };
    Seq::new(
        kept as nat,
        |i: int|
            if i < pieces.len() - 1 {
                strip_cr(pieces[i])
            } else {
                pieces[i]
            },
    )
}

/// The lines that hold something besides white space, in order.
pub open spec fn nonblank(ls: Seq<Seq<char>>) -> Seq<Seq<char>>
    decreases ls.len(),
{
    if ls.len() == 0 {
        ls
    } else {
        let prev = nonblank(ls.drop_last());
        if trim(ls.last()).len() > 0 {
            prev.push(ls.last())
        } else {
            prev
        }
    }
}

/// The non-blank lines of a text.
pub fn nonblank_lines(chars: &Vec<char>) -> (r: Vec<Vec<char>>)
    ensures
        views(r@) == nonblank(lines(chars@)),
{
    let pieces = split_chars(chars, '\n');
    let ghost all = lines(chars@);
    let np = pieces.len();
    let kept: usize = if pieces[np - 1].len() == 0 {
        np - 1
    } else {
        np
    };
    assert(all.len() == kept);
    let mut r: Vec<Vec<char>> = Vec::new();
    for i in 0..kept
        invariant
            kept <= np == pieces@.len(),
            views(pieces@) == split(chars@, '\n'),
            all == lines(chars@),
            all.len() == kept,
            views(r@) == nonblank(all.take(i as int)),
    {
        let piece = &pieces[i];
        let len = piece.len();
        let line: Vec<char> = if i + 1 < np && len > 0 && piece[len - 1] == '\r' {
            sub_chars(piece, 0, len - 1)
        } else {
            sub_chars(piece, 0, len)
        };
        assert(piece@ == views(pieces@)[i as int]);
        assert(line@ == all[i as int]) by {
            if i + 1 < np && len > 0 && piece@[len - 1] == '\r' {
                assert(piece@.drop_last() =~= piece@.subrange(0, len - 1));
            } else {
                assert(piece@ =~= piece@.subrange(0, len as int));
            }
        }
        assert(all.take(i + 1).drop_last() =~= all.take(i as int));
        let (a, b) = trim_bounds(&line);
        if a < b {
            r.push(line);
        }
        assert(views(r@) =~= nonblank(all.take(i + 1)));
    }
    assert(all.take(kept as int) =~= all);
    r
}

// ---------------------------------------------------------------------
// Joining
// ---------------------------------------------------------------------
/// `slice::join`: the pieces with `sep` between neighbours.
pub open spec fn join(parts: Seq<Seq<char>>, sep: Seq<char>) -> Seq<char>
    decreases parts.len(),
{
    if parts.len() == 0 {
        Seq::empty()
    } else if parts.len() == 1 {
        parts[0]
    } else {
        join(parts.drop_last(), sep) + sep + parts.last()
    }
}

/// Joins strings with a separator.
pub fn join_strings(parts: &Vec<String>, sep: &str) -> (r: String)
    ensures
        r@ == join(string_views(parts@), sep@),
{
    let mut r = String::new();
    let n = parts.len();
    for i in 0..n
        invariant
            n == parts@.len(),
            r@ == join(string_views(parts@).take(i as int), sep@),
    {
        let ghost prev = string_views(parts@).take(i as int);
        assert(string_views(parts@).take(i + 1).drop_last() =~= prev);
        assert(string_views(parts@).take(i + 1).last() == parts@[i as int]@);
        if i > 0 {
            push_str(&mut r, sep);
        }
        push_str(&mut r, parts[i].as_str());
        proof {
            if i == 0 {
                assert(r@ =~= parts@[0]@);
            }
        }
    }
    assert(string_views(parts@).take(n as int) =~= string_views(parts@));
    r
}

} // verus!
