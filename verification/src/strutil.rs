//! Verified text scanning helpers: character search, prefix and equality
//! tests, decimal parsing and rendering of unsigned 32-bit integers.

use vstd::prelude::*;

verus! {

/// Index of the first occurrence of `c` in `s` at or after `from`.
pub open spec fn find_from(s: Seq<char>, c: char, from: int) -> Option<int>
    decreases s.len() - from,
{
    if from < 0 || from >= s.len() {
        None::<int>
    } else if s[from] == c {
        Some(from)
    } else {
        find_from(s, c, from + 1)
    }
}

/// Index of the last occurrence of `c` in `s` strictly before `upto`.
pub open spec fn rfind_in(s: Seq<char>, c: char, upto: int) -> Option<int>
    decreases upto,
{
    if upto <= 0 || upto > s.len() {
        None::<int>
    } else if s[upto - 1] == c {
        Some(upto - 1)
    } else {
        rfind_in(s, c, upto - 1)
    }
}

/// A found occurrence lies between `from` and the end of the sequence.
pub proof fn lemma_find_from_bounds(s: Seq<char>, c: char, from: int)
    ensures
        find_from(s, c, from) is Some ==> from <= find_from(s, c, from)->Some_0 < s.len(),
    decreases s.len() - from,
{
    if from < 0 || from >= s.len() {
    } else if s[from] == c {
    } else {
        lemma_find_from_bounds(s, c, from + 1);
    }
}

/// Searching the tail of a sequence finds the same occurrence, shifted.
pub proof fn lemma_find_from_shift(s: Seq<char>, c: char, base: int, k: int)
    requires
        0 <= base <= k,
        base <= s.len(),
    ensures
        find_from(s, c, k) == match find_from(s.subrange(base, s.len() as int), c, k - base) {
            Some(i) => Some(i + base),
            None => None::<int>,
        },
    decreases s.len() - k,
{
    let sub = s.subrange(base, s.len() as int);
    if k >= s.len() {
    } else if s[k] == c {
        assert(sub[k - base] == s[k]);
    } else {
        assert(sub[k - base] == s[k]);
        lemma_find_from_shift(s, c, base, k + 1);
    }
}

/// First occurrence of `c` in `s` at or after index `from`.
pub fn find_char(s: &str, c: char, from: usize) -> (r: Option<usize>)
    ensures
        match r {
            Some(i) => from <= i < s@.len() && find_from(s@, c, from as int) == Some(i as int),
            None => find_from(s@, c, from as int) is None,
        },
{
    let n = s.unicode_len();
    let mut i = from;
    while i < n
        invariant
            from <= i,
            n == s@.len(),
            i <= n || i == from,
            find_from(s@, c, from as int) == find_from(s@, c, i as int),
        decreases n - i,
    {
        if s.get_char(i) == c {
            return Some(i);
        }
        i += 1;
    }
    None
}

/// Last occurrence of `c` in `s`.
pub fn rfind_char(s: &str, c: char) -> (r: Option<usize>)
    ensures
        match r {
            Some(i) => i < s@.len() && rfind_in(s@, c, s@.len() as int) == Some(i as int),
            None => rfind_in(s@, c, s@.len() as int) is None,
        },
{
    let n = s.unicode_len();
    let mut i = n;
    while i > 0
        invariant
            i <= n,
            n == s@.len(),
            rfind_in(s@, c, n as int) == rfind_in(s@, c, i as int),
        decreases i,
    {
        if s.get_char(i - 1) == c {
            return Some(i - 1);
        }
        i -= 1;
    }
    None
}

/// Whether `p` is a prefix of `s`.
pub fn str_has_prefix(s: &str, p: &str) -> (r: bool)
    ensures
        r <==> (s@.len() >= p@.len() && s@.subrange(0, p@.len() as int) == p@),
{
    let n = s.unicode_len();
    let m = p.unicode_len();
    if m > n {
        return false;
    }
    let mut j: usize = 0;
    while j < m
        invariant
            j <= m,
            m <= n,
            n == s@.len(),
            m == p@.len(),
            forall|k: int| 0 <= k < j ==> s@[k] == p@[k],
        decreases m - j,
    {
        if s.get_char(j) != p.get_char(j) {
            assert(s@.subrange(0, p@.len() as int) != p@) by {
                assert(s@.subrange(0, p@.len() as int)[j as int] == s@[j as int]);
            }
            return false;
        }
        j += 1;
    }
    assert(s@.subrange(0, p@.len() as int) =~= p@);
    true
}

/// Whether two strings hold the same characters.
pub fn str_eq(a: &str, b: &str) -> (r: bool)
    ensures
        r <==> a@ == b@,
{
    let n = a.unicode_len();
    let m = b.unicode_len();
    if n != m {
        return false;
    }
    let mut j: usize = 0;
    while j < n
        invariant
            j <= n,
            n == a@.len(),
            n == b@.len(),
            forall|k: int| 0 <= k < j ==> a@[k] == b@[k],
        decreases n - j,
    {
        if a.get_char(j) != b.get_char(j) {
            return false;
        }
        j += 1;
    }
    assert(a@ =~= b@);
    true
}

/// Whether `c` is a decimal digit.
pub open spec fn is_dec_digit(c: char) -> bool {
    48 <= c as u32 <= 57
}

/// The value of the digits of `s` accumulated onto `acc`, or `None` on a
/// non-digit or once the value leaves the unsigned 32-bit range.
pub open spec fn parse_digits(s: Seq<char>, acc: int) -> Option<int>
    decreases s.len(),
{
    if s.len() == 0 {
        Some(acc)
    } else if !is_dec_digit(s[0]) {
        None::<int>
    } else {
        let acc2 = acc * 10 + (s[0] as u32 - 48);
        if acc2 > u32::MAX as int {
            None::<int>
        } else {
            parse_digits(s.subrange(1, s.len() as int), acc2)
        }
    }
}

/// The unsigned 32-bit value written in decimal in `s`: defined only when
/// `s` is non-empty, all digits, and the value fits.
pub open spec fn parse_u32(s: Seq<char>) -> Option<u32> {
    if s.len() == 0 {
        None::<u32>
    } else {
        match parse_digits(s, 0) {
            Some(v) => Some(v as u32),
            None => None::<u32>,
        }
    }
}

/// Parse `s` as a decimal unsigned 32-bit integer.
pub fn parse_u32_exec(s: &str) -> (r: Option<u32>)
    ensures
        r == parse_u32(s@),
{
    let n = s.unicode_len();
    if n == 0 {
        return None;
    }
    let mut i: usize = 0;
    let mut acc: u64 = 0;
    assert(s@.subrange(0, n as int) =~= s@);
    while i < n
        invariant
            i <= n,
            n == s@.len(),
            n > 0,
            acc <= u32::MAX,
            parse_digits(s@, 0) == parse_digits(s@.subrange(i as int, n as int), acc as int),
        decreases n - i,
    {
        let ghost pre = s@.subrange(i as int, n as int);
        let c = s.get_char(i);
        let cu = c as u32;
        assert(pre[0] == s@[i as int]);
        if cu < 48 || cu > 57 {
            assert(parse_digits(pre, acc as int) is None);
            return None;
        }
        let d = (cu - 48) as u64;
        let acc2 = acc * 10 + d;
        if acc2 > u32::MAX as u64 {
            assert(parse_digits(pre, acc as int) is None);
            return None;
        }
        acc = acc2;
        i += 1;
        assert(pre.subrange(1, pre.len() as int) =~= s@.subrange(i as int, n as int));
    }
    assert(s@.subrange(n as int, n as int) =~= Seq::<char>::empty());
    Some(acc as u32)
}

/// The decimal digit character for a value below ten.
pub open spec fn dec_digit_char(d: int) -> char {
    if d == 0 { '0' }
    else if d == 1 { '1' }
    else if d == 2 { '2' }
    else if d == 3 { '3' }
    else if d == 4 { '4' }
    else if d == 5 { '5' }
    else if d == 6 { '6' }
    else if d == 7 { '7' }
    else if d == 8 { '8' }
    else { '9' }
}

/// The decimal rendering of a non-negative integer.
pub open spec fn u32_dec(n: int) -> Seq<char>
    decreases n,
{
    if n < 10 {
        seq![dec_digit_char(n)]
    } else {
        u32_dec(n / 10).push(dec_digit_char(n % 10))
    }
}

/// The one-character string for a decimal digit.
fn digit_str(d: u32) -> (r: &'static str)
    requires
        d < 10,
    ensures
        r@ == seq![dec_digit_char(d as int)],
{
    proof {
        reveal_strlit("0");
        reveal_strlit("1");
        reveal_strlit("2");
        reveal_strlit("3");
        reveal_strlit("4");
        reveal_strlit("5");
        reveal_strlit("6");
        reveal_strlit("7");
        reveal_strlit("8");
        reveal_strlit("9");
    }
    let r = match d {
        0 => "0",
        1 => "1",
        2 => "2",
        3 => "3",
        4 => "4",
        5 => "5",
        6 => "6",
        7 => "7",
        8 => "8",
        _ => "9",
    };
    assert(r@ =~= seq![dec_digit_char(d as int)]);
    r
}

/// Render `n` in decimal.
pub fn u32_to_string(n: u32) -> (r: String)
    ensures
        r@ == u32_dec(n as int),
    decreases n,
{
    if n < 10 {
        digit_str(n).to_owned()
    } else {
        let mut s = u32_to_string(n / 10);
        s.append(digit_str(n % 10));
        assert(s@ =~= u32_dec((n / 10) as int).push(dec_digit_char((n % 10) as int)));
        s
    }
}

/// Appending one character to the digits parses as one more decimal step.
proof fn lemma_parse_digits_push(s: Seq<char>, c: char, acc: int)
    ensures
        parse_digits(s.push(c), acc) == match parse_digits(s, acc) {
            Some(a) => if is_dec_digit(c) && a * 10 + (c as u32 - 48) <= u32::MAX as int {
                Some(a * 10 + (c as u32 - 48))
            } else {
                None::<int>
            },
            None => None::<int>,
        },
    decreases s.len(),
{
    if s.len() == 0 {
        assert(s.push(c)[0] == c);
        assert(s.push(c).subrange(1, 1) =~= Seq::<char>::empty());
        assert(s =~= Seq::<char>::empty());
    } else {
        assert(s.push(c)[0] == s[0]);
        if !is_dec_digit(s[0]) {
        } else {
            let acc2 = acc * 10 + (s[0] as u32 - 48);
            if acc2 > u32::MAX as int {
            } else {
                assert(s.push(c).subrange(1, s.len() as int + 1) =~= s.subrange(1, s.len() as int).push(
                    c,
                ));
                lemma_parse_digits_push(s.subrange(1, s.len() as int), c, acc2);
            }
        }
    }
}

/// The decimal digits of `v` parse back to `v`.
proof fn lemma_parse_dec(v: int)
    requires
        0 <= v <= u32::MAX as int,
    ensures
        parse_digits(u32_dec(v), 0) == Some(v),
        u32_dec(v).len() > 0,
    decreases v,
{
    if v < 10 {
        reveal_with_fuel(parse_digits, 3);
        assert(is_dec_digit(dec_digit_char(v)));
        assert(dec_digit_char(v) as u32 - 48 == v);
        assert(u32_dec(v) == seq![dec_digit_char(v)]);
        assert(u32_dec(v)[0] == dec_digit_char(v));
        assert(u32_dec(v).subrange(1, 1) =~= Seq::<char>::empty());
    } else {
        lemma_parse_dec(v / 10);
        vstd::arithmetic::div_mod::lemma_fundamental_div_mod(v, 10);
        assert(is_dec_digit(dec_digit_char(v % 10)));
        assert(dec_digit_char(v % 10) as u32 - 48 == v % 10);
        lemma_parse_digits_push(u32_dec(v / 10), dec_digit_char(v % 10), 0);
    }
}

/// Round trip: rendering a nonce in decimal and parsing the rendering back
/// yields the same nonce, so the `state` written into the authorize URL is
/// exactly the value the listener expects to see echoed.
pub proof fn lemma_u32_round_trip(n: u32)
    ensures
        parse_u32(u32_dec(n as int)) == Some(n),
{
    lemma_parse_dec(n as int);
}

/// Strip exactly one leading `/` from a path, if one is present.
pub open spec fn spec_strip_one_leading_slash(path: Seq<char>) -> Seq<char> {
    if path.len() > 0 && path[0] == '/' {
        path.subrange(1, path.len() as int)
    } else {
        path
    }
}

/// Strip exactly one leading `/` from `path`, if one is present.
pub fn strip_one_leading_slash(path: &str) -> (r: &str)
    ensures
        r@ == spec_strip_one_leading_slash(path@),
{
    let n = path.unicode_len();
    if n > 0 && path.get_char(0) == '/' {
        path.substring_char(1, n)
    } else {
        path
    }
}

} // verus!
