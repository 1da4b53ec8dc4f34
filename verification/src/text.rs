//! Small text helpers: comparing string slices and building strings from
//! characters.

use vstd::prelude::*;

verus! {

/// `a` and `b` hold the same characters.
pub fn str_equals(a: &str, b: &str) -> (r: bool)
    ensures
        r == (a@ == b@),
{
    let n = a.unicode_len();
    let m = b.unicode_len();
    if n != m {
        return false;
    }
    let mut k: usize = 0;
    while k < n
        invariant
            n == a@.len(),
            m == b@.len(),
            n == m,
            k <= n,
            forall|j: int| 0 <= j < k ==> a@[j] == b@[j],
        decreases n - k,
    {
        if a.get_char(k) != b.get_char(k) {
            return false;
        }
        k = k + 1;
    }
    assert(a@ =~= b@);
    true
}

/// The characters of `s`, in order.
pub fn chars_of(s: &str) -> (v: Vec<char>)
    ensures
        v@ == s@,
{
    let n = s.unicode_len();
    let mut v: Vec<char> = Vec::new();
    let mut k: usize = 0;
    while k < n
        invariant
            n == s@.len(),
            k <= n,
            v@ == s@.subrange(0, k as int),
        decreases n - k,
    {
        v.push(s.get_char(k));
        k = k + 1;
        assert(v@ =~= s@.subrange(0, k as int));
    }
    assert(s@.subrange(0, n as int) =~= s@);
    v
}

/// The string made of the characters `v`, in order (std's
/// `FromIterator<char> for String`).
#[verifier::external_body]
pub(crate) fn string_from_chars(v: &Vec<char>) -> (s: String)
    ensures
        s@ == v@,
{
    v.iter().collect()
}

/// The decimal digit character for `d < 10`.
pub open spec fn digit_char(d: int) -> char {
    ((d + 48) as u8) as char
}

/// `c` is an ASCII decimal digit.
pub open spec fn is_digit(c: char) -> bool {
    '0' <= c <= '9'
}

/// The value of an ASCII decimal digit.
pub open spec fn digit_value(c: char) -> int {
    (c as u32) - 48
}

pub proof fn lemma_digit_char(d: int)
    requires
        0 <= d < 10,
    ensures
        is_digit(digit_char(d)),
        digit_value(digit_char(d)) == d,
        digit_char(d) != '+',
{
    let b = (d + 48) as u8;
    assert(b == d + 48);
    assert(b as char as u32 == b);
}

/// The decimal writing of `n`, without leading zeros (`0` is written `0`).
pub open spec fn decimal(n: nat) -> Seq<char>
    decreases n,
{
    if n < 10 {
        seq![digit_char(n as int)]
    } else {
        decimal(n / 10).push(digit_char((n % 10) as int))
    }
}

/// The number written by the decimal digits `s`.
pub open spec fn digits_value(s: Seq<char>) -> int
    decreases s.len(),
{
    if s.len() == 0 {
        0
    } else {
        digits_value(s.drop_last()) * 10 + digit_value(s.last())
    }
}

/// All of `s` are decimal digits.
pub open spec fn all_digits(s: Seq<char>) -> bool {
    forall|i: int| 0 <= i < s.len() ==> is_digit(#[trigger] s[i])
}

/// What `str::parse::<u32>` gives for `s`: an optional `+` sign, then at
/// least one decimal digit, the value fitting in `u32`.
pub open spec fn parse_u32_spec(s: Seq<char>) -> Option<u32> {
    let digits = if s.len() > 0 && s[0] == '+' {
        s.drop_first()
    } else {
        s
    };
    if digits.len() > 0 && all_digits(digits) && digits_value(digits) <= u32::MAX {
        Some(digits_value(digits) as u32)
    } else {
        None
    }
}

pub proof fn lemma_decimal_digits(n: nat)
    ensures
        all_digits(decimal(n)),
        decimal(n).len() > 0,
        digits_value(decimal(n)) == n,
        decimal(n)[0] != '+',
    decreases n,
{
    if n >= 10 {
        lemma_decimal_digits(n / 10);
        lemma_digit_char((n % 10) as int);
        let d = decimal(n / 10).push(digit_char((n % 10) as int));
        assert(decimal(n) == d);
        assert(d.drop_last() =~= decimal(n / 10));
        assert(d.last() == digit_char((n % 10) as int));
        assert(d[0] == decimal(n / 10)[0]);
        assert(digits_value(d) == digits_value(d.drop_last()) * 10 + digit_value(d.last()));
        assert(n == (n / 10) * 10 + n % 10);
    } else {
        lemma_digit_char(n as int);
        let d = decimal(n);
        assert(d.drop_last() =~= Seq::<char>::empty());
        assert(d.last() == digit_char(n as int));
        assert(digits_value(d) == digits_value(d.drop_last()) * 10 + digit_value(d.last()));
    }
}

/// Reading back the decimal writing of a `u32` gives the number.
pub proof fn lemma_parse_decimal(n: u32)
    ensures
        parse_u32_spec(decimal(n as nat)) == Some(n),
{
    lemma_decimal_digits(n as nat);
}

/// The decimal writing of `n` (as `n.to_string()`).
pub fn decimal_chars(n: u32) -> (v: Vec<char>)
    ensures
        v@ == decimal(n as nat),
    decreases n,
{
    if n < 10 {
        let mut v: Vec<char> = Vec::new();
        v.push(((n + 48) as u8) as char);
        proof {
            assert(v@ =~= decimal(n as nat));
        }
        v
    } else {
        let mut v = decimal_chars(n / 10);
        v.push((((n % 10) + 48) as u8) as char);
        proof {
            assert(v@ =~= decimal(n as nat));
        }
        v
    }
}

/// Parses `s` as `str::parse::<u32>` does.
pub fn parse_u32(s: &[char]) -> (r: Option<u32>)
    ensures
        r == parse_u32_spec(s@),
{
    let n = s.len();
    let start: usize = if n > 0 && s[0] == '+' {
        1
    } else {
        0
    };
    let ghost digits = s@.subrange(start as int, n as int);
    proof {
        if n > 0 && s@[0] == '+' {
            assert(digits =~= s@.drop_first());
        } else {
            assert(digits =~= s@);
        }
    }
    if start >= n {
        return None;
    }
    let mut value: u64 = 0;
    let mut i: usize = start;
    while i < n
        invariant
            start <= i <= n,
            n == s@.len(),
            digits == s@.subrange(start as int, n as int),
            digits == (if s@.len() > 0 && s@[0] == '+' {
                s@.drop_first()
            } else {
                s@
            }),
            digits.len() > 0,
            all_digits(s@.subrange(start as int, i as int)),
            value as int == digits_value(s@.subrange(start as int, i as int)),
            value <= u32::MAX,
        decreases n - i,
    {
        let c = s[i];
        let ghost pre = s@.subrange(start as int, i as int);
        let ghost pre2 = s@.subrange(start as int, i + 1);
        assert(pre2.drop_last() =~= pre);
        if !('0' <= c && c <= '9') {
            proof {
                assert(digits[i - start] == c);
                assert(!all_digits(digits));
            }
            return None;
        }
        value = value * 10 + ((c as u32) - 48) as u64;
        if value > 4294967295u64 {
            proof {
                if all_digits(digits) {
                    assert(s@.subrange(start as int, i + 1) =~= digits.subrange(0, i + 1 - start));
                    lemma_digits_value_grows(s@.subrange(start as int, i + 1), digits);
                }
            }
            return None;
        }
        i = i + 1;
    }
    assert(s@.subrange(start as int, n as int) =~= digits);
    Some(value as u32)
}

/// Appending digits never makes the value smaller.
proof fn lemma_digits_value_grows(pre: Seq<char>, s: Seq<char>)
    requires
        pre.len() <= s.len(),
        pre =~= s.subrange(0, pre.len() as int),
        all_digits(s),
    ensures
        digits_value(pre) <= digits_value(s),
    decreases s.len(),
{
    if s.len() > pre.len() {
        assert(s.drop_last().subrange(0, pre.len() as int) =~= pre);
        lemma_digits_value_grows(pre, s.drop_last());
        lemma_digits_value_nonneg(s.drop_last());
        assert(digits_value(s.drop_last()) * 10 >= digits_value(s.drop_last())) by (nonlinear_arith)
            requires
                digits_value(s.drop_last()) >= 0,
        ;
    } else {
        assert(pre =~= s);
    }
}

proof fn lemma_digits_value_nonneg(s: Seq<char>)
    requires
        all_digits(s),
    ensures
        digits_value(s) >= 0,
    decreases s.len(),
{
    if s.len() > 0 {
        lemma_digits_value_nonneg(s.drop_last());
    }
}

/// `a` holds the characters of `b`.
pub fn chars_equal_str(a: &[char], b: &str) -> (r: bool)
    ensures
        r == (a@ == b@),
{
    let n = b.unicode_len();
    if a.len() != n {
        return false;
    }
    let mut k: usize = 0;
    while k < n
        invariant
            n == b@.len(),
            a@.len() == n,
            k <= n,
            forall|j: int| 0 <= j < k ==> a@[j] == b@[j],
        decreases n - k,
    {
        if a[k] != b.get_char(k) {
            return false;
        }
        k = k + 1;
    }
    assert(a@ =~= b@);
    true
}

/// `a` begins with the characters of `p`.
pub open spec fn starts_with(a: Seq<char>, p: Seq<char>) -> bool {
    p.len() <= a.len() && a.subrange(0, p.len() as int) == p
}

/// Whether `a` begins with the characters of `p`.
pub fn starts_with_str(a: &[char], p: &str) -> (r: bool)
    ensures
        r == starts_with(a@, p@),
{
    let n = p.unicode_len();
    if a.len() < n {
        return false;
    }
    let mut k: usize = 0;
    while k < n
        invariant
            n == p@.len(),
            n <= a@.len(),
            k <= n,
            forall|j: int| 0 <= j < k ==> a@[j] == p@[j],
        decreases n - k,
    {
        if a[k] != p.get_char(k) {
            assert(a@.subrange(0, n as int)[k as int] != p@[k as int]);
            return false;
        }
        k = k + 1;
    }
    assert(a@.subrange(0, n as int) =~= p@);
    true
}

/// The characters `a[from..to]`.
pub fn sub_chars(a: &[char], from: usize, to: usize) -> (v: Vec<char>)
    requires
        from <= to <= a@.len(),
    ensures
        v@ == a@.subrange(from as int, to as int),
{
    let mut v: Vec<char> = Vec::new();
    let mut k: usize = from;
    while k < to
        invariant
            from <= k <= to,
            to <= a@.len(),
            v@ == a@.subrange(from as int, k as int),
        decreases to - k,
    {
        v.push(a[k]);
        k = k + 1;
        assert(v@ =~= a@.subrange(from as int, k as int));
    }
    v
}

/// A white-space character (Unicode's `White_Space`, as `char::is_whitespace`).
pub open spec fn is_white(c: char) -> bool {
    ||| '\u{9}' <= c <= '\u{d}'
    ||| c == ' '
    ||| c == '\u{85}'
    ||| c == '\u{a0}'
    ||| c == '\u{1680}'
    ||| '\u{2000}' <= c <= '\u{200a}'
    ||| c == '\u{2028}'
    ||| c == '\u{2029}'
    ||| c == '\u{202f}'
    ||| c == '\u{205f}'
    ||| c == '\u{3000}'
}

/// Whether `c` is white space.
pub fn is_white_exec(c: char) -> (r: bool)
    ensures
        r == is_white(c),
{
    ('\u{9}' <= c && c <= '\u{d}') || c == ' ' || c == '\u{85}' || c == '\u{a0}' || c == '\u{1680}'
        || ('\u{2000}' <= c && c <= '\u{200a}') || c == '\u{2028}' || c == '\u{2029}' || c == '\u{202f}'
        || c == '\u{205f}' || c == '\u{3000}'
}

/// `s` without its leading white space.
pub open spec fn trim_front(s: Seq<char>) -> Seq<char>
    decreases s.len(),
{
    if s.len() > 0 && is_white(s[0]) {
        trim_front(s.drop_first())
    } else {
        s
    }
}

/// `s` without its trailing white space.
pub open spec fn trim_back(s: Seq<char>) -> Seq<char>
    decreases s.len(),
{
    if s.len() > 0 && is_white(s.last()) {
        trim_back(s.drop_last())
    } else {
        s
    }
}

/// `s` without its leading and trailing white space (as `str::trim`).
pub open spec fn trim(s: Seq<char>) -> Seq<char> {
    trim_back(trim_front(s))
}

proof fn lemma_trim_front_from(s: Seq<char>, i: int)
    requires
        0 <= i <= s.len(),
        forall|k: int| 0 <= k < i ==> is_white(#[trigger] s[k]),
    ensures
        trim_front(s) == trim_front(s.subrange(i, s.len() as int)),
    decreases i,
{
    if i > 0 {
        assert(s.drop_first().subrange(i - 1, s.drop_first().len() as int) =~= s.subrange(i, s.len() as int));
        lemma_trim_front_from(s.drop_first(), i - 1);
    } else {
        assert(s.subrange(0, s.len() as int) =~= s);
    }
}

proof fn lemma_trim_back_to(s: Seq<char>, j: int)
    requires
        0 <= j <= s.len(),
        forall|k: int| j <= k < s.len() ==> is_white(#[trigger] s[k]),
    ensures
        trim_back(s) == trim_back(s.subrange(0, j)),
    decreases s.len() - j,
{
    if j < s.len() {
        assert(s.drop_last().subrange(0, j) =~= s.subrange(0, j));
        lemma_trim_back_to(s.drop_last(), j);
    } else {
        assert(s.subrange(0, j) =~= s);
    }
}

/// `s[from..to]` without its leading and trailing white space.
pub fn trim_chars(s: &[char], from: usize, to: usize) -> (r: Vec<char>)
    requires
        from <= to <= s@.len(),
    ensures
        r@ == trim(s@.subrange(from as int, to as int)),
{
    let ghost t = s@.subrange(from as int, to as int);
    let mut i = from;
    while i < to && is_white_exec(s[i])
        invariant
            from <= i <= to,
            to <= s@.len(),
            t == s@.subrange(from as int, to as int),
            forall|k: int| 0 <= k < i - from ==> is_white(#[trigger] t[k]),
        decreases to - i,
    {
        i = i + 1;
    }
    proof {
        lemma_trim_front_from(t, i - from);
        assert(t.subrange(i - from, t.len() as int) =~= s@.subrange(i as int, to as int));
        let u = s@.subrange(i as int, to as int);
        if u.len() > 0 {
            assert(!is_white(u[0]));
        }
    }
    let ghost u = s@.subrange(i as int, to as int);
    let mut j = to;
    while j > i && is_white_exec(s[j - 1])
        invariant
            i <= j <= to,
            to <= s@.len(),
            u == s@.subrange(i as int, to as int),
            forall|k: int| j - i <= k < u.len() ==> is_white(#[trigger] u[k]),
        decreases j - i,
    {
        j = j - 1;
    }
    proof {
        lemma_trim_back_to(u, j - i);
        assert(u.subrange(0, j - i) =~= s@.subrange(i as int, j as int));
        assert(trim_front(t) == u);
    }
    sub_chars(s, i, j)
}

/// `s` cut at each `\n`: the pieces between them, the last one after the
/// last `\n` (empty when `s` ends with one).
pub open spec fn split_lines(s: Seq<char>) -> Seq<Seq<char>>
    decreases s.len(),
{
    if s.len() == 0 {
        seq![Seq::empty()]
    } else {
        let r = split_lines(s.drop_last());
        if s.last() == '\n' {
            r.push(Seq::empty())
        } else {
            r.update(r.len() - 1, r.last().push(s.last()))
        }
    }
}

proof fn lemma_split_lines_nonempty(s: Seq<char>)
    ensures
        split_lines(s).len() > 0,
    decreases s.len(),
{
    if s.len() > 0 {
        lemma_split_lines_nonempty(s.drop_last());
    }
}

/// The position of the first `c` in `s` from `i` on, if any.
pub open spec fn find_from(s: Seq<char>, c: char, i: int) -> Option<int>
    decreases s.len() - i,
{
    if i < 0 || i >= s.len() {
        None
    } else if s[i] == c {
        Some(i)
    } else {
        find_from(s, c, i + 1)
    }
}

/// The position of the first `c` in `s`, if any.
pub fn find_char(s: &[char], c: char) -> (r: Option<usize>)
    ensures
        match r {
            Some(i) => find_from(s@, c, 0) == Some(i as int) && i < s@.len() && s@[i as int] == c,
            None => find_from(s@, c, 0) is None,
        },
{
    let mut i: usize = 0;
    while i < s.len()
        invariant
            i <= s@.len(),
            find_from(s@, c, 0) == find_from(s@, c, i as int),
        decreases s@.len() - i,
    {
        if s[i] == c {
            return Some(i);
        }
        i = i + 1;
    }
    None
}

} // verus!
