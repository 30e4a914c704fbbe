//! Character-level string helpers shared by the rest of the library.
use vstd::prelude::*;

verus! {

/// Appends a single character to a `String` (std `String::push`).
#[verifier::external_body]
pub(crate) fn push_char(s: &mut String, c: char)
    ensures
        final(s)@ == old(s)@.push(c),
{
    s.push(c)
}

/// Collects the characters of `s`, in order.
pub fn chars_of(s: &str) -> (v: Vec<char>)
    ensures
        v@ == s@,
{
    let mut v: Vec<char> = Vec::new();
    for c in it: s.chars()
        invariant
            v@ == it.seq().take(it.index() as int),
    {
        v.push(c);
    }
    v
}

} // verus!

verus! {

/// An owned copy of `s`.
pub fn string_of(s: &str) -> (out: String)
    ensures
        out@ == s@,
{
    s.to_owned()
}

} // verus!

verus! {

/// Whether two character sequences are equal.
pub fn chars_eq(a: &Vec<char>, b: &Vec<char>) -> (r: bool)
    ensures
        r == (a@ == b@),
{
    if a.len() != b.len() {
        return false;
    }
    let mut i: usize = 0;
    while i < a.len()
        invariant
            i <= a@.len(),
            a@.len() == b@.len(),
            forall|j: int| 0 <= j < i ==> a@[j] == b@[j],
        decreases a@.len() - i,
    {
        if a[i] != b[i] {
            return false;
        }
        i = i + 1;
    }
    assert(a@ =~= b@);
    true
}

/// Whether two strings hold the same characters.
pub fn str_eq(a: &str, b: &str) -> (r: bool)
    ensures
        r == (a@ == b@),
{
    let ca = chars_of(a);
    let cb = chars_of(b);
    chars_eq(&ca, &cb)
}

/// Appends all of `t` to `s`.
pub fn push_str(s: &mut String, t: &str)
    ensures
        final(s)@ == old(s)@ + t@,
{
    s.append(t);
}

} // verus!

verus! {

/// The suffix of `s` starting at character index `from`.
pub fn substring_from(s: &str, from: usize) -> (r: &str)
    requires
        from <= s@.len(),
    ensures
        r@ == s@.skip(from as int),
{
    let n = s.unicode_len();
    let r = s.substring_char(from, n);
    assert(r@ =~= s@.skip(from as int));
    r
}

} // verus!

verus! {

/// The decimal digit character for `d < 10`.
pub open spec fn digit_char(d: nat) -> char {
    if d == 0 {
        '0'
    } else if d == 1 {
        '1'
    } else if d == 2 {
        '2'
    } else if d == 3 {
        '3'
    } else if d == 4 {
        '4'
    } else if d == 5 {
        '5'
    } else if d == 6 {
        '6'
    } else if d == 7 {
        '7'
    } else if d == 8 {
        '8'
    } else {
        '9'
    }
}

/// The decimal representation of a natural number, without leading zeros.
pub open spec fn decimal_spec(n: nat) -> Seq<char>
    decreases n,
{
    if n < 10 {
        seq![digit_char(n)]
    } else {
        decimal_spec(n / 10).push(digit_char(n % 10))
    }
}

/// The decimal representation of an integer, with a leading `-` when negative.
pub open spec fn signed_decimal_spec(n: int) -> Seq<char> {
    if n < 0 {
        seq!['-'] + decimal_spec((-n) as nat)
    } else {
        decimal_spec(n as nat)
    }
}

fn digit(d: u64) -> (c: char)
    requires
        d < 10,
    ensures
        c == digit_char(d as nat),
{
    if d == 0 {
        '0'
    } else if d == 1 {
        '1'
    } else if d == 2 {
        '2'
    } else if d == 3 {
        '3'
    } else if d == 4 {
        '4'
    } else if d == 5 {
        '5'
    } else if d == 6 {
        '6'
    } else if d == 7 {
        '7'
    } else if d == 8 {
        '8'
    } else {
        '9'
    }
}

/// Appends the decimal representation of `n` to `s`.
pub fn push_decimal(s: &mut String, n: u64)
    ensures
        final(s)@ == old(s)@ + decimal_spec(n as nat),
{
    let mut m: u64 = n;
    let mut rev: Vec<char> = Vec::new();
    let ghost mut suffix: Seq<char> = Seq::empty();
    while m >= 10
        invariant
            decimal_spec(n as nat) == decimal_spec(m as nat) + suffix,
            suffix.len() == rev@.len(),
            forall|i: int| 0 <= i < suffix.len() ==> suffix[i] == rev@[rev@.len() - 1 - i],
        decreases m,
    {
        let d = m % 10;
        let c = digit(d);
        proof {
            let old_suffix = suffix;
            suffix = seq![c] + suffix;
            assert(decimal_spec(m as nat) == decimal_spec((m / 10) as nat).push(c));
            assert(decimal_spec((m / 10) as nat).push(c) + old_suffix =~= decimal_spec(
                (m / 10) as nat,
            ) + suffix);
        }
        rev.push(c);
        m = m / 10;
    }
    let c = digit(m);
    proof {
        suffix = seq![c] + suffix;
    }
    rev.push(c);
    assert(decimal_spec(n as nat) =~= suffix);
    let ghost start = s@;
    let mut k: usize = rev.len();
    while k > 0
        invariant
            k <= rev@.len(),
            suffix.len() == rev@.len(),
            forall|i: int| 0 <= i < suffix.len() ==> suffix[i] == rev@[rev@.len() - 1 - i],
            s@ == start + suffix.take(rev@.len() - k),
        decreases k,
    {
        k = k - 1;
        push_char(s, rev[k]);
        assert(suffix.take(rev@.len() - k) =~= suffix.take(rev@.len() - k - 1).push(rev@[k as int]));
    }
    assert(suffix.take(rev@.len() as int) =~= suffix);
}

/// Appends the decimal representation of a signed integer to `s`.
pub fn push_signed_decimal(s: &mut String, n: i64)
    ensures
        final(s)@ == old(s)@ + signed_decimal_spec(n as int),
{
    if n < 0 {
        push_char(s, '-');
        let magnitude: u64 = if n == i64::MIN {
            9223372036854775808u64
        } else {
            (-n) as u64
        };
        push_decimal(s, magnitude);
        assert(old(s)@.push('-') + decimal_spec(magnitude as nat) =~= old(s)@ + (seq!['-']
            + decimal_spec(magnitude as nat)));
    } else {
        push_decimal(s, n as u64);
    }
}

} // verus!

verus! {

/// Unicode `White_Space`, the property that std's `char::is_whitespace` tests.
pub open spec fn is_whitespace_spec(c: char) -> bool {
    let u = c as u32;
    (0x9 <= u <= 0xD) || u == 0x20 || u == 0x85 || u == 0xA0 || u == 0x1680 || (0x2000 <= u
        <= 0x200A) || u == 0x2028 || u == 0x2029 || u == 0x202F || u == 0x205F || u == 0x3000
}

/// Whether `c` is Unicode white space.
pub fn is_whitespace(c: char) -> (r: bool)
    ensures
        r == is_whitespace_spec(c),
{
    let u = c as u32;
    (0x9 <= u && u <= 0xD) || u == 0x20 || u == 0x85 || u == 0xA0 || u == 0x1680 || (0x2000 <= u
        && u <= 0x200A) || u == 0x2028 || u == 0x2029 || u == 0x202F || u == 0x205F || u == 0x3000
}

/// Number of leading white-space characters.
pub open spec fn leading_ws(s: Seq<char>) -> nat
    decreases s.len(),
{
    if s.len() > 0 && is_whitespace_spec(s[0]) {
        1 + leading_ws(s.skip(1))
    } else {
        0
    }
}

/// Number of trailing white-space characters.
pub open spec fn trailing_ws(s: Seq<char>) -> nat
    decreases s.len(),
{
    if s.len() > 0 && is_whitespace_spec(s.last()) {
        1 + trailing_ws(s.drop_last())
    } else {
        0
    }
}

/// `s` without leading white space (std `str::trim_start`).
pub open spec fn trim_start_spec(s: Seq<char>) -> Seq<char> {
    s.skip(leading_ws(s) as int)
}

/// `s` without trailing white space (std `str::trim_end`).
pub open spec fn trim_end_spec(s: Seq<char>) -> Seq<char> {
    s.take(s.len() - trailing_ws(s))
}

/// `s` without leading and trailing white space (std `str::trim`).
pub open spec fn trim_spec(s: Seq<char>) -> Seq<char> {
    trim_end_spec(trim_start_spec(s))
}

proof fn lemma_leading_ws(s: Seq<char>, i: int)
    requires
        0 <= i <= s.len(),
        forall|j: int| 0 <= j < i ==> is_whitespace_spec(s[j]),
        i == s.len() || !is_whitespace_spec(s[i]),
    ensures
        leading_ws(s) == i,
    decreases i,
{
    if i > 0 {
        lemma_leading_ws(s.skip(1), i - 1);
    }
}

proof fn lemma_trailing_ws(s: Seq<char>, k: int)
    requires
        0 <= k <= s.len(),
        forall|j: int| k <= j < s.len() ==> is_whitespace_spec(s[j]),
        k == 0 || !is_whitespace_spec(s[k - 1]),
    ensures
        trailing_ws(s) == s.len() - k,
    decreases s.len() - k,
{
    if k < s.len() {
        lemma_trailing_ws(s.drop_last(), k);
    }
}

/// Index of the first non-white-space character at or after `from`, in a
/// character vector.
pub fn skip_ws(cs: &Vec<char>, from: usize) -> (i: usize)
    requires
        from <= cs@.len(),
    ensures
        from <= i <= cs@.len(),
        forall|j: int| from <= j < i ==> is_whitespace_spec(cs@[j]),
        i == cs@.len() || !is_whitespace_spec(cs@[i as int]),
{
    let mut i = from;
    while i < cs.len() && is_whitespace(cs[i])
        invariant
            from <= i <= cs@.len(),
            forall|j: int| from <= j < i ==> is_whitespace_spec(cs@[j]),
        decreases cs@.len() - i,
    {
        i = i + 1;
    }
    i
}

/// The characters `cs[from..to]` as a string.
pub fn string_from_range(cs: &Vec<char>, from: usize, to: usize) -> (s: String)
    requires
        from <= to <= cs@.len(),
    ensures
        s@ == cs@.subrange(from as int, to as int),
{
    let mut s = String::new();
    let mut i = from;
    while i < to
        invariant
            from <= i <= to,
            to <= cs@.len(),
            s@ == cs@.subrange(from as int, i as int),
        decreases to - i,
    {
        push_char(&mut s, cs[i]);
        assert(cs@.subrange(from as int, i + 1) =~= cs@.subrange(from as int, i as int).push(
            cs@[i as int],
        ));
        i = i + 1;
    }
    s
}

/// `s` without leading and trailing white space.
pub fn trim(s: &str) -> (r: String)
    ensures
        r@ == trim_spec(s@),
{
    let cs = chars_of(s);
    let a = skip_ws(&cs, 0);
    proof {
        lemma_leading_ws(cs@, a as int);
    }
    let mut b = cs.len();
    while b > a && is_whitespace(cs[b - 1])
        invariant
            a <= b <= cs@.len(),
            forall|j: int| b <= j < cs@.len() ==> is_whitespace_spec(cs@[j]),
        decreases b,
    {
        b = b - 1;
    }
    let ghost t = cs@.skip(a as int);
    proof {
        assert forall|j: int| b - a <= j < t.len() implies is_whitespace_spec(t[j]) by {
            assert(t[j] == cs@[a + j]);
        }
        if b > a {
            assert(t[b - a - 1] == cs@[b - 1]);
        }
        lemma_trailing_ws(t, b - a);
        assert(trim_spec(s@) =~= cs@.subrange(a as int, b as int));
    }
    string_from_range(&cs, a, b)
}

} // verus!

verus! {

/// Index of the first occurrence of `c` in `s`, or -1.
pub open spec fn find_char(s: Seq<char>, c: char) -> int
    decreases s.len(),
{
    if s.len() == 0 {
        -1
    } else if s[0] == c {
        0
    } else {
        let r = find_char(s.skip(1), c);
        if r < 0 {
            -1
        } else {
            r + 1
        }
    }
}

/// `find_char` is -1 or a valid index holding `c`, with no earlier `c`.
pub proof fn lemma_find_char(s: Seq<char>, c: char)
    ensures
        -1 <= find_char(s, c) < s.len(),
        find_char(s, c) >= 0 ==> s[find_char(s, c)] == c,
        forall|j: int| 0 <= j < s.len() && (find_char(s, c) < 0 || j < find_char(s, c)) ==> s[j]
            != c,
    decreases s.len(),
{
    if s.len() > 0 && s[0] != c {
        lemma_find_char(s.skip(1), c);
        assert forall|j: int|
            0 <= j < s.len() && (find_char(s, c) < 0 || j < find_char(s, c)) implies s[j] != c by {
            if j > 0 {
                assert(s[j] == s.skip(1)[j - 1]);
            }
        }
    }
}

/// `find_char` in terms of a scan: the first `c` is at `k` (or nowhere).
pub proof fn lemma_find_char_at(s: Seq<char>, c: char, k: int)
    requires
        0 <= k <= s.len(),
        forall|j: int| 0 <= j < k ==> s[j] != c,
        k == s.len() || s[k] == c,
    ensures
        find_char(s, c) == (if k == s.len() {
            -1
        } else {
            k
        }),
    decreases k,
{
    if k > 0 {
        lemma_find_char_at(s.skip(1), c, k - 1);
    } else if s.len() == 0 {
    }
}

/// A line without its trailing carriage return, if any.
pub open spec fn strip_cr(line: Seq<char>) -> Seq<char> {
    if line.len() > 0 && line.last() == '\r' {
        line.drop_last()
    } else {
        line
    }
}

/// The lines of `s` as std's `str::lines` yields them: split at `\n`, a
/// `\r` before the `\n` dropped, and no empty line after a final `\n`.
pub open spec fn lines_spec(s: Seq<char>) -> Seq<Seq<char>>
    decreases s.len(),
{
    if s.len() == 0 {
        Seq::empty()
    } else {
        let i = find_char(s, '\n');
        if i < 0 {
            seq![s]
        } else {
            proof {
                lemma_find_char(s, '\n');
            }
            seq![strip_cr(s.take(i))] + lines_spec(s.skip(i + 1))
        }
    }
}

/// The lines of a character vector.
pub fn split_lines_chars(cs: &Vec<char>) -> (r: Vec<String>)
    ensures
        r@.len() == lines_spec(cs@).len(),
        forall|j: int| 0 <= j < r@.len() ==> (#[trigger] r@[j])@ == lines_spec(cs@)[j],
{
    let n = cs.len();
    let mut out: Vec<String> = Vec::new();
    let ghost mut acc: Seq<Seq<char>> = Seq::empty();
    let mut start: usize = 0;
    let mut i: usize = 0;
    assert(cs@.skip(0) =~= cs@);
    assert(acc + lines_spec(cs@) =~= lines_spec(cs@));
    while i < n
        invariant
            n == cs@.len(),
            start <= i <= n,
            lines_spec(cs@) == acc + lines_spec(cs@.skip(start as int)),
            forall|j: int| start <= j < i ==> cs@[j] != '\n',
            out@.len() == acc.len(),
            forall|j: int| 0 <= j < out@.len() ==> (#[trigger] out@[j])@ == acc[j],
        decreases n - i,
    {
        if cs[i] == '\n' {
            let ghost rest = cs@.skip(start as int);
            proof {
                lemma_find_char_at(rest, '\n', i - start);
                assert(rest.take(i - start) =~= cs@.subrange(start as int, i as int));
                assert(rest.skip(i - start + 1) =~= cs@.skip(i + 1));
            }
            let end = if i > start && cs[i - 1] == '\r' {
                i - 1
            } else {
                i
            };
            let line = string_from_range(cs, start, end);
            proof {
                let piece = cs@.subrange(start as int, i as int);
                assert(strip_cr(piece) =~= cs@.subrange(start as int, end as int));
                acc = acc.push(line@);
                assert(lines_spec(rest) == seq![strip_cr(piece)] + lines_spec(cs@.skip(i + 1)));
            }
            out.push(line);
            start = i + 1;
        }
        i = i + 1;
    }
    if start < n {
        let ghost rest = cs@.skip(start as int);
        proof {
            lemma_find_char_at(rest, '\n', n - start);
            assert(rest =~= cs@.subrange(start as int, n as int));
        }
        let line = string_from_range(cs, start, n);
        proof {
            acc = acc.push(line@);
        }
        out.push(line);
    } else {
        assert(cs@.skip(start as int).len() == 0);
    }
    assert(lines_spec(cs@) =~= acc);
    out
}

/// The lines of `s` (std `str::lines`).
pub fn split_lines(s: &str) -> (r: Vec<String>)
    ensures
        r@.len() == lines_spec(s@).len(),
        forall|j: int| 0 <= j < r@.len() ==> (#[trigger] r@[j])@ == lines_spec(s@)[j],
{
    let cs = chars_of(s);
    split_lines_chars(&cs)
}

} // verus!

verus! {

/// Number of leading characters that are not white space.
pub open spec fn token_len(s: Seq<char>) -> nat
    decreases s.len(),
{
    if s.len() > 0 && !is_whitespace_spec(s[0]) {
        1 + token_len(s.skip(1))
    } else {
        0
    }
}

/// A token spans `i` characters when the first `i` are not white space and
/// the next one (if any) is.
pub proof fn lemma_token_len(s: Seq<char>, i: int)
    requires
        0 <= i <= s.len(),
        forall|j: int| 0 <= j < i ==> !is_whitespace_spec(s[j]),
        i == s.len() || is_whitespace_spec(s[i]),
    ensures
        token_len(s) == i,
    decreases i,
{
    if i > 0 {
        lemma_token_len(s.skip(1), i - 1);
    }
}

/// A token is no longer than its text, and not empty when the text starts
/// with a character that is not white space.
pub proof fn lemma_token_len_bound(s: Seq<char>)
    ensures
        token_len(s) <= s.len(),
        s.len() > 0 && !is_whitespace_spec(s[0]) ==> token_len(s) >= 1,
    decreases s.len(),
{
    if s.len() > 0 && !is_whitespace_spec(s[0]) {
        lemma_token_len_bound(s.skip(1));
    }
}

/// The first white-space separated token of `s` (std
/// `split_whitespace().next()`).
pub open spec fn first_token_spec(s: Seq<char>) -> Option<Seq<char>> {
    let t = trim_start_spec(s);
    if t.len() == 0 {
        None
    } else {
        Some(t.take(token_len(t) as int))
    }
}

/// The first white-space separated token of a character vector.
pub fn first_token(cs: &Vec<char>) -> (r: Option<String>)
    ensures
        r is Some <==> first_token_spec(cs@) is Some,
        r matches Some(t) ==> t@ == first_token_spec(cs@)->0,
{
    let a = skip_ws(cs, 0);
    proof {
        lemma_leading_ws(cs@, a as int);
    }
    if a == cs.len() {
        return None;
    }
    let mut b = a;
    while b < cs.len() && !is_whitespace(cs[b])
        invariant
            a <= b <= cs@.len(),
            forall|j: int| a <= j < b ==> !is_whitespace_spec(cs@[j]),
        decreases cs@.len() - b,
    {
        b = b + 1;
    }
    proof {
        let t = cs@.skip(a as int);
        assert forall|j: int| 0 <= j < b - a implies !is_whitespace_spec(t[j]) by {
            assert(t[j] == cs@[a + j]);
        }
        if b < cs@.len() {
            assert(t[b - a] == cs@[b as int]);
        }
        lemma_token_len(t, b - a);
        assert(t.take(b - a) =~= cs@.subrange(a as int, b as int));
    }
    Some(string_from_range(cs, a, b))
}

/// The value of a sequence of decimal digit characters.
pub open spec fn digits_value(d: Seq<char>) -> nat
    decreases d.len(),
{
    if d.len() == 0 {
        0
    } else {
        digits_value(d.drop_last()) * 10 + ((d.last() as u32) - 48) as nat
    }
}

/// Whether every character is an ASCII digit.
pub open spec fn all_digits(d: Seq<char>) -> bool {
    forall|i: int| 0 <= i < d.len() ==> '0' <= #[trigger] d[i] <= '9'
}

/// The digits of an unsigned integer literal: an optional leading `+`
/// is dropped.
pub open spec fn unsigned_digits(t: Seq<char>) -> Seq<char> {
    if t.len() > 0 && t[0] == '+' {
        t.skip(1)
    } else {
        t
    }
}

/// std's `u64::from_str`: an optional `+`, then one or more ASCII digits
/// whose value fits in 64 bits.
pub open spec fn parse_u64_spec(t: Seq<char>) -> Option<u64> {
    let d = unsigned_digits(t);
    if d.len() > 0 && all_digits(d) && digits_value(d) <= u64::MAX {
        Some(digits_value(d) as u64)
    } else {
        None
    }
}

proof fn lemma_digits_value_monotone(d: Seq<char>, k: int)
    requires
        0 <= k <= d.len(),
        all_digits(d),
    ensures
        digits_value(d.take(k)) <= digits_value(d),
    decreases d.len() - k,
{
    if k < d.len() {
        lemma_digits_value_monotone(d, k + 1);
        assert(d.take(k + 1).drop_last() =~= d.take(k));
        assert(d.take(k + 1).last() == d[k]);
        assert('0' <= d[k] <= '9');
        let x = digits_value(d.take(k));
        let y = digits_value(d.take(k + 1));
        assert(y == x * 10 + ((d[k] as u32) - 48) as nat);
        assert(x <= x * 10) by (nonlinear_arith)
            requires
                x >= 0,
        ;
    } else {
        assert(d.take(k) =~= d);
    }
}

/// Parses an unsigned 64-bit decimal integer the way `str::parse::<u64>` does.
pub fn parse_u64(t: &str) -> (r: Option<u64>)
    ensures
        r == parse_u64_spec(t@),
{
    let cs = chars_of(t);
    let start: usize = if cs.len() > 0 && cs[0] == '+' {
        1
    } else {
        0
    };
    let ghost d = unsigned_digits(cs@);
    assert(d =~= cs@.skip(start as int));
    if start == cs.len() {
        return None;
    }
    let mut v: u64 = 0;
    let mut i = start;
    while i < cs.len()
        invariant
            start <= i <= cs@.len(),
            start < cs@.len(),
            cs@ == t@,
            d == unsigned_digits(t@),
            d == cs@.skip(start as int),
            all_digits(d.take(i - start)),
            v as nat == digits_value(d.take(i - start)),
        decreases cs@.len() - i,
    {
        let c = cs[i];
        assert(d.take(i - start + 1).drop_last() =~= d.take(i - start));
        assert(d[i - start] == c);
        if !('0' <= c && c <= '9') {
            assert(!all_digits(d)) by {
                assert(!('0' <= d[i - start] <= '9'));
            }
            assert(parse_u64_spec(t@) is None);
            return None;
        }
        let digit = (c as u32 - 48) as u64;
        if v > (u64::MAX - digit) / 10 {
            proof {
                assert(digits_value(d.take(i - start + 1)) == v * 10 + digit);
                assert(v * 10 + digit > u64::MAX) by (nonlinear_arith)
                    requires
                        v > (u64::MAX - digit) / 10,
                        digit < 10,
                ;
                assert forall|j: int| 0 <= j < d.take(i - start + 1).len() implies '0' <= #[trigger] d.take(
                    i - start + 1,
                )[j] <= '9' by {
                    if j < i - start {
                        assert(d.take(i - start + 1)[j] == d.take(i - start)[j]);
                    }
                }
                if all_digits(d) {
                    lemma_digits_value_monotone(d, i - start + 1);
                }
                assert(parse_u64_spec(t@) is None);
            }
            return None;
        }
        proof {
            assert(v * 10 + digit <= u64::MAX) by (nonlinear_arith)
                requires
                    v <= (u64::MAX - digit) / 10,
                    digit < 10,
            ;
            assert forall|j: int| 0 <= j < d.take(i - start + 1).len() implies '0' <= #[trigger] d.take(
                i - start + 1,
            )[j] <= '9' by {
                if j < i - start {
                    assert(d.take(i - start + 1)[j] == d.take(i - start)[j]);
                }
            }
        }
        v = v * 10 + digit;
        i = i + 1;
    }
    assert(d.take(cs@.len() - start) =~= d);
    Some(v)
}

} // verus!

verus! {

/// `pat` occurs in `s` starting at index `i`.
pub open spec fn occurs_at(s: Seq<char>, pat: Seq<char>, i: int) -> bool {
    0 <= i && i + pat.len() <= s.len() && s.subrange(i, i + pat.len()) == pat
}

/// `pat` occurs somewhere in `s` (`str::contains`).
pub open spec fn contains_spec(s: Seq<char>, pat: Seq<char>) -> bool {
    exists|i: int| occurs_at(s, pat, i)
}

fn chars_match_at(s: &Vec<char>, pat: &Vec<char>, i: usize) -> (r: bool)
    requires
        i + pat@.len() <= s@.len(),
    ensures
        r == (s@.subrange(i as int, i + pat@.len()) == pat@),
{
    let n = s.len();
    let mut k: usize = 0;
    while k < pat.len()
        invariant
            k <= pat@.len(),
            n == s@.len(),
            i + pat@.len() <= n,
            s@.subrange(i as int, i + k) == pat@.take(k as int),
        decreases pat@.len() - k,
    {
        if s[i + k] != pat[k] {
            assert(s@.subrange(i as int, i + pat@.len())[k as int] != pat@[k as int]);
            return false;
        }
        assert(s@.subrange(i as int, i + k + 1) =~= pat@.take(k + 1));
        k = k + 1;
    }
    assert(pat@.take(k as int) =~= pat@);
    true
}

/// Whether `pat` occurs in `s`.
pub fn contains_str(s: &str, pat: &str) -> (r: bool)
    ensures
        r == contains_spec(s@, pat@),
{
    let cs = chars_of(s);
    let cp = chars_of(pat);
    if cp.len() > cs.len() {
        assert(forall|i: int| !occurs_at(s@, pat@, i));
        return false;
    }
    let last = cs.len() - cp.len();
    let mut i: usize = 0;
    while i <= last
        invariant
            last + cp@.len() == cs@.len(),
            cs@ == s@,
            cp@ == pat@,
            forall|j: int| 0 <= j < i ==> !occurs_at(s@, pat@, j),
        decreases last + 1 - i,
    {
        if chars_match_at(&cs, &cp, i) {
            assert(occurs_at(s@, pat@, i as int));
            return true;
        }
        if i == last {
            assert forall|j: int| !occurs_at(s@, pat@, j) by {
                if occurs_at(s@, pat@, j) {
                    assert(j <= last);
                }
            }
            return false;
        }
        i = i + 1;
    }
    false
}

} // verus!

verus! {

/// Lexicographic order of character sequences by code point (the order of
/// `str`'s `Ord`, since UTF-8 preserves code point order).
pub open spec fn chars_lt(a: Seq<char>, b: Seq<char>) -> bool
    decreases a.len(),
{
    if a.len() == 0 {
        b.len() > 0
    } else if b.len() == 0 {
        false
    } else if a[0] < b[0] {
        true
    } else if a[0] > b[0] {
        false
    } else {
        chars_lt(a.skip(1), b.skip(1))
    }
}

/// Law: the order is a strict total order: irreflexive, and of two distinct
/// sequences exactly one is less.
pub proof fn chars_lt_total(a: Seq<char>, b: Seq<char>)
    ensures
        !chars_lt(a, a),
        a != b ==> (chars_lt(a, b) != chars_lt(b, a)),
        a == b ==> !chars_lt(a, b),
    decreases a.len(),
{
    if a.len() > 0 {
        chars_lt_total(a.skip(1), a.skip(1));
        if b.len() > 0 {
            chars_lt_total(a.skip(1), b.skip(1));
            if a[0] == b[0] && a.skip(1) == b.skip(1) {
                assert(a =~= b) by {
                    assert forall|i: int| 0 <= i < a.len() implies a[i] == b[i] by {
                        if i > 0 {
                            assert(a[i] == a.skip(1)[i - 1]);
                            assert(b[i] == b.skip(1)[i - 1]);
                        }
                    }
                }
            }
        }
    } else if b.len() == 0 {
        assert(a =~= b);
    }
}

/// Law: the order is transitive.
pub proof fn chars_lt_transitive(a: Seq<char>, b: Seq<char>, c: Seq<char>)
    requires
        chars_lt(a, b),
        chars_lt(b, c),
    ensures
        chars_lt(a, c),
    decreases a.len(),
{
    if a.len() > 0 && b.len() > 0 && c.len() > 0 {
        if a[0] == b[0] && b[0] == c[0] {
            chars_lt_transitive(a.skip(1), b.skip(1), c.skip(1));
        }
    }
}

/// Whether `a` sorts strictly before `b`.
pub fn str_lt(a: &str, b: &str) -> (r: bool)
    ensures
        r == chars_lt(a@, b@),
{
    let ca = chars_of(a);
    let cb = chars_of(b);
    let mut i: usize = 0;
    assert(ca@.skip(0) =~= ca@);
    assert(cb@.skip(0) =~= cb@);
    while i < ca.len() && i < cb.len()
        invariant
            i <= ca@.len(),
            i <= cb@.len(),
            ca@ == a@,
            cb@ == b@,
            chars_lt(a@, b@) == chars_lt(ca@.skip(i as int), cb@.skip(i as int)),
        decreases ca@.len() - i,
    {
        let x = ca[i];
        let y = cb[i];
        assert(ca@.skip(i as int)[0] == x);
        assert(cb@.skip(i as int)[0] == y);
        if x < y {
            return true;
        }
        if x > y {
            return false;
        }
        assert(ca@.skip(i as int).skip(1) =~= ca@.skip(i + 1));
        assert(cb@.skip(i as int).skip(1) =~= cb@.skip(i + 1));
        i = i + 1;
    }
    i < cb.len()
}

/// Number of leading characters equal to `c`.
pub open spec fn leading_count(s: Seq<char>, c: char) -> nat
    decreases s.len(),
{
    if s.len() > 0 && s[0] == c {
        1 + leading_count(s.skip(1), c)
    } else {
        0
    }
}

/// Number of trailing characters equal to `c`.
pub open spec fn trailing_count(s: Seq<char>, c: char) -> nat
    decreases s.len(),
{
    if s.len() > 0 && s.last() == c {
        1 + trailing_count(s.drop_last(), c)
    } else {
        0
    }
}

/// `s` without all leading and trailing `c` (`str::trim_matches` with a char).
pub open spec fn trim_char_spec(s: Seq<char>, c: char) -> Seq<char> {
    let a = leading_count(s, c);
    if a >= s.len() {
        Seq::empty()
    } else {
        s.subrange(a as int, s.len() - trailing_count(s, c))
    }
}

proof fn lemma_leading_count(s: Seq<char>, c: char, i: int)
    requires
        0 <= i <= s.len(),
        forall|j: int| 0 <= j < i ==> s[j] == c,
        i == s.len() || s[i] != c,
    ensures
        leading_count(s, c) == i,
    decreases i,
{
    if i > 0 {
        lemma_leading_count(s.skip(1), c, i - 1);
    }
}

proof fn lemma_trailing_count(s: Seq<char>, c: char, k: int)
    requires
        0 <= k <= s.len(),
        forall|j: int| s.len() - k <= j < s.len() ==> s[j] == c,
        k == s.len() || s[s.len() - k - 1] != c,
    ensures
        trailing_count(s, c) == k,
    decreases k,
{
    if k > 0 {
        lemma_trailing_count(s.drop_last(), c, k - 1);
    }
}

/// `s` with every leading and trailing `c` removed.
pub fn trim_char(s: &str, c: char) -> (r: String)
    ensures
        r@ == trim_char_spec(s@, c),
{
    let cs = chars_of(s);
    let n = cs.len();
    let mut a: usize = 0;
    while a < n && cs[a] == c
        invariant
            a <= n,
            n == cs@.len(),
            forall|j: int| 0 <= j < a ==> cs@[j] == c,
        decreases n - a,
    {
        a = a + 1;
    }
    proof {
        lemma_leading_count(cs@, c, a as int);
    }
    if a >= n {
        return String::new();
    }
    let mut b: usize = n;
    while b > a && cs[b - 1] == c
        invariant
            a < n,
            a <= b <= n,
            n == cs@.len(),
            cs@[a as int] != c,
            forall|j: int| b <= j < n ==> cs@[j] == c,
        decreases b,
    {
        b = b - 1;
    }
    proof {
        lemma_trailing_count(cs@, c, (n - b) as int);
    }
    string_from_range(&cs, a, b)
}

} // verus!
