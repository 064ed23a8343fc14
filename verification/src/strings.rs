//! Small executable helpers for working with strings as sequences of
//! characters: equality, conversion to and from `Vec<char>`, ASCII case
//! folding and trimming.
use vstd::prelude::*;

verus! {

/// Relies on `String::push`: appends one character to the end of the string.
pub assume_specification[ String::push ](s: &mut String, c: char)
    ensures
        final(s)@ == old(s)@.push(c),
;

/// True exactly when `a` and `b` hold the same characters.
pub fn str_eq(a: &str, b: &str) -> (r: bool)
    ensures
        r == (a@ == b@),
{
    let na = a.unicode_len();
    let nb = b.unicode_len();
    if na != nb {
        assert(a@ != b@) by {
            assert(a@.len() != b@.len());
        }
        return false;
    }
    let mut i: usize = 0;
    while i < na
        invariant
            na == a@.len(),
            nb == b@.len(),
            na == nb,
            i <= na,
            forall|j: int| 0 <= j < i ==> a@[j] == b@[j],
        decreases na - i,
    {
        if a.get_char(i) != b.get_char(i) {
            return false;
        }
        i += 1;
    }
    proof {
        assert(a@ =~= b@);
    }
    true
}

/// Copies the characters of `s` into a vector, in order.
pub fn str_to_chars(s: &str) -> (v: Vec<char>)
    ensures
        v@ == s@,
{
    let n = s.unicode_len();
    let mut v: Vec<char> = Vec::new();
    let mut i: usize = 0;
    while i < n
        invariant
            n == s@.len(),
            i <= n,
            v@ == s@.subrange(0, i as int),
        decreases n - i,
    {
        let c = s.get_char(i);
        v.push(c);
        proof {
            assert(v@ =~= s@.subrange(0, i + 1 as int));
        }
        i += 1;
    }
    proof {
        assert(v@ =~= s@);
    }
    v
}

/// Builds a `String` out of a vector of characters, in order.
pub fn chars_to_string(v: &Vec<char>) -> (s: String)
    ensures
        s@ == v@,
{
    let mut s = String::new();
    let mut i: usize = 0;
    while i < v.len()
        invariant
            i <= v@.len(),
            s@ == v@.subrange(0, i as int),
        decreases v@.len() - i,
    {
        s.push(v[i]);
        proof {
            assert(s@ =~= v@.subrange(0, i + 1 as int));
        }
        i += 1;
    }
    proof {
        assert(s@ =~= v@);
    }
    s
}

/// The lower-case form of an ASCII letter; any other character is unchanged.
pub open spec fn lower_char(c: char) -> char {
    if 'A' <= c <= 'Z' {
        ((c as u32) + 32) as char
    } else {
        c
    }
}

/// Case-folds one character as `lower_char` describes.
pub fn lower_char_exec(c: char) -> (r: char)
    ensures
        r == lower_char(c),
{
    match c {
        'A' => 'a',
        'B' => 'b',
        'C' => 'c',
        'D' => 'd',
        'E' => 'e',
        'F' => 'f',
        'G' => 'g',
        'H' => 'h',
        'I' => 'i',
        'J' => 'j',
        'K' => 'k',
        'L' => 'l',
        'M' => 'm',
        'N' => 'n',
        'O' => 'o',
        'P' => 'p',
        'Q' => 'q',
        'R' => 'r',
        'S' => 's',
        'T' => 't',
        'U' => 'u',
        'V' => 'v',
        'W' => 'w',
        'X' => 'x',
        'Y' => 'y',
        'Z' => 'z',
        _ => c,
    }
}

/// Case-folds `s` and drops spaces and dashes: the form in which style
/// keywords are compared.
pub open spec fn normalized(s: Seq<char>) -> Seq<char>
    decreases s.len(),
{
    if s.len() == 0 {
        Seq::empty()
    } else {
        let p = normalized(s.drop_last());
        let c = lower_char(s.last());
        if c == ' ' || c == '-' {
            p
        } else {
            p.push(c)
        }
    }
}

/// Computes the `normalized` form of `s`.
pub fn normalize(s: &str) -> (v: Vec<char>)
    ensures
        v@ == normalized(s@),
{
    let n = s.unicode_len();
    let mut v: Vec<char> = Vec::new();
    let mut i: usize = 0;
    proof {
        assert(s@.subrange(0, 0) =~= Seq::<char>::empty());
    }
    while i < n
        invariant
            n == s@.len(),
            i <= n,
            v@ == normalized(s@.subrange(0, i as int)),
        decreases n - i,
    {
        let c = lower_char_exec(s.get_char(i));
        proof {
            assert(s@.subrange(0, i + 1 as int).drop_last() =~= s@.subrange(0, i as int));
            assert(s@.subrange(0, i + 1 as int).last() == s@[i as int]);
        }
        if !(c == ' ' || c == '-') {
            v.push(c);
        }
        i += 1;
    }
    proof {
        assert(s@.subrange(0, n as int) =~= s@);
    }
    v
}

/// True exactly when the characters of `a` equal those of `b`.
pub fn chars_eq(a: &Vec<char>, b: &str) -> (r: bool)
    ensures
        r == (a@ == b@),
{
    let nb = b.unicode_len();
    if a.len() != nb {
        return false;
    }
    let mut i: usize = 0;
    while i < nb
        invariant
            nb == b@.len(),
            a@.len() == nb,
            i <= nb,
            forall|j: int| 0 <= j < i ==> a@[j] == b@[j],
        decreases nb - i,
    {
        if a[i] != b.get_char(i) {
            return false;
        }
        i += 1;
    }
    proof {
        assert(a@ =~= b@);
    }
    true
}

/// Builds a `String` holding `s`'s characters from `lo` to `hi`.
pub fn substring(s: &Vec<char>, lo: usize, hi: usize) -> (r: String)
    requires
        lo <= hi <= s@.len(),
    ensures
        r@ == s@.subrange(lo as int, hi as int),
{
    let mut r = String::new();
    let mut i: usize = lo;
    proof {
        assert(s@.subrange(lo as int, lo as int) =~= Seq::<char>::empty());
    }
    while i < hi
        invariant
            lo <= i <= hi <= s@.len(),
            r@ == s@.subrange(lo as int, i as int),
        decreases hi - i,
    {
        r.push(s[i]);
        proof {
            assert(s@.subrange(lo as int, i + 1 as int) =~= s@.subrange(lo as int, i as int).push(
                s@[i as int],
            ));
        }
        i += 1;
    }
    r
}

/// ASCII whitespace: the characters that field trimming removes.
pub open spec fn is_ascii_space(c: char) -> bool {
    c == ' ' || c == '\t' || c == '\n' || c == '\r' || c == '\u{b}' || c == '\u{c}'
}

/// Tests a character against `is_ascii_space`.
pub fn is_ascii_space_exec(c: char) -> (r: bool)
    ensures
        r == is_ascii_space(c),
{
    c == ' ' || c == '\t' || c == '\n' || c == '\r' || c == '\u{b}' || c == '\u{c}'
}

/// `s` without its leading whitespace.
pub open spec fn trim_left(s: Seq<char>) -> Seq<char>
    decreases s.len(),
{
    if s.len() > 0 && is_ascii_space(s[0]) {
        trim_left(s.drop_first())
    } else {
        s
    }
}

/// `s` without its trailing whitespace.
pub open spec fn trim_right(s: Seq<char>) -> Seq<char>
    decreases s.len(),
{
    if s.len() > 0 && is_ascii_space(s.last()) {
        trim_right(s.drop_last())
    } else {
        s
    }
}

/// `s` without leading and trailing whitespace.
pub open spec fn trimmed(s: Seq<char>) -> Seq<char> {
    trim_right(trim_left(s))
}

proof fn lemma_trim_left_skip(s: Seq<char>, k: int)
    requires
        0 <= k <= s.len(),
        forall|j: int| 0 <= j < k ==> is_ascii_space(#[trigger] s[j]),
        k < s.len() ==> !is_ascii_space(s[k]),
    ensures
        trim_left(s) == s.skip(k),
    decreases k,
{
    if k == 0 {
        assert(s.skip(0) =~= s);
    } else {
        lemma_trim_left_skip(s.drop_first(), k - 1);
        assert(s.drop_first().skip(k - 1) =~= s.skip(k));
    }
}

proof fn lemma_trim_right_take(s: Seq<char>, k: int)
    requires
        0 <= k <= s.len(),
        forall|j: int| k <= j < s.len() ==> is_ascii_space(#[trigger] s[j]),
        k > 0 ==> !is_ascii_space(s[k - 1]),
    ensures
        trim_right(s) == s.take(k),
    decreases s.len() - k,
{
    if k == s.len() {
        assert(s.take(k) =~= s);
    } else {
        lemma_trim_right_take(s.drop_last(), k);
        assert(s.drop_last().take(k) =~= s.take(k));
    }
}

/// Finds the range of `s` between `lo` and `hi` left after trimming
/// whitespace from both ends.
pub fn trim_range(s: &Vec<char>, lo: usize, hi: usize) -> (r: (usize, usize))
    requires
        lo <= hi <= s@.len(),
    ensures
        lo <= r.0 <= r.1 <= hi,
        s@.subrange(r.0 as int, r.1 as int) == trimmed(s@.subrange(lo as int, hi as int)),
{
    let ghost whole = s@.subrange(lo as int, hi as int);
    let mut a = lo;
    while a < hi && is_ascii_space_exec(s[a])
        invariant
            lo <= a <= hi <= s@.len(),
            forall|j: int| lo <= j < a ==> is_ascii_space(#[trigger] s@[j]),
        decreases hi - a,
    {
        a += 1;
    }
    proof {
        lemma_trim_left_skip(whole, a - lo);
        assert(whole.skip(a - lo) =~= s@.subrange(a as int, hi as int));
    }
    let ghost left = s@.subrange(a as int, hi as int);
    let mut b = hi;
    while b > a && is_ascii_space_exec(s[b - 1])
        invariant
            lo <= a <= b <= hi <= s@.len(),
            forall|j: int| b <= j < hi ==> is_ascii_space(#[trigger] s@[j]),
        decreases b,
    {
        b -= 1;
    }
    proof {
        lemma_trim_right_take(left, b - a);
        assert(left.take(b - a) =~= s@.subrange(a as int, b as int));
    }
    (a, b)
}

/// A decimal digit.
pub open spec fn is_digit(c: char) -> bool {
    '0' <= c <= '9'
}

/// The value of one decimal digit.
pub open spec fn digit_val(c: char) -> int {
    (c as u32) - 48
}

/// The value of a decimal digit string, most significant digit first.
pub open spec fn dec_value(s: Seq<char>) -> int
    decreases s.len(),
{
    if s.len() == 0 {
        0
    } else {
        dec_value(s.drop_last()) * 10 + digit_val(s.last())
    }
}

proof fn lemma_dec_value_nonneg(s: Seq<char>)
    requires
        forall|i: int| 0 <= i < s.len() ==> is_digit(#[trigger] s[i]),
    ensures
        dec_value(s) >= 0,
    decreases s.len(),
{
    if s.len() > 0 {
        lemma_dec_value_nonneg(s.drop_last());
    }
}

/// `t` without one optional leading `+` sign.
pub open spec fn plus_stripped(t: Seq<char>) -> Seq<char> {
    if t.len() > 0 && t[0] == '+' {
        t.drop_first()
    } else {
        t
    }
}

/// Every character of `d` is a decimal digit.
pub open spec fn all_digits(d: Seq<char>) -> bool {
    forall|i: int| 0 <= i < d.len() ==> is_digit(#[trigger] d[i])
}

/// The number a text stands for under the rules of unsigned decimal parsing:
/// optional leading `+`, then one or more digits, no other characters, value
/// at most `max`.
pub open spec fn unsigned_decimal(t: Seq<char>, max: int) -> Option<int> {
    if plus_stripped(t).len() > 0 && all_digits(plus_stripped(t)) && 0 <= dec_value(
        plus_stripped(t),
    ) <= max {
        Some(dec_value(plus_stripped(t)))
    } else {
        None
    }
}

/// Parses the characters of `s` between `lo` and `hi` as an unsigned decimal
/// number of at most `max`.
pub fn parse_unsigned(s: &Vec<char>, lo: usize, hi: usize, max: u64) -> (r: Option<u64>)
    requires
        lo <= hi <= s@.len(),
        max < u64::MAX / 10,
    ensures
        match unsigned_decimal(s@.subrange(lo as int, hi as int), max as int) {
            Some(v) => r == Some(v as u64),
            None => r is None,
        },
{
    let ghost whole = s@.subrange(lo as int, hi as int);
    let mut a = lo;
    if a < hi && s[a] == '+' {
        a += 1;
        proof {
            assert(whole.drop_first() =~= s@.subrange(a as int, hi as int));
        }
    } else {
        proof {
            assert(whole =~= s@.subrange(a as int, hi as int));
        }
    }
    let ghost d = s@.subrange(a as int, hi as int);
    if a == hi {
        return None;
    }
    let mut value: u64 = 0;
    let mut over: bool = false;
    let mut i = a;
    proof {
        assert(d.subrange(0, 0) =~= Seq::<char>::empty());
    }
    while i < hi
        invariant
            lo <= a <= i <= hi <= s@.len(),
            whole == s@.subrange(lo as int, hi as int),
            d == s@.subrange(a as int, hi as int),
            d == plus_stripped(whole),
            max < u64::MAX / 10,
            forall|j: int| a <= j < i ==> is_digit(#[trigger] s@[j]),
            !over ==> value == dec_value(d.subrange(0, i - a)) && value <= max,
            over ==> dec_value(d.subrange(0, i - a)) > max,
        decreases hi - i,
    {
        let c = s[i];
        if !('0' <= c && c <= '9') {
            proof {
                assert(!is_digit(d[i - a]));
                assert(!all_digits(d));
            }
            return None;
        }
        let dv: u64 = (c as u64) - 48;
        proof {
            assert(d.subrange(0, i - a + 1).drop_last() =~= d.subrange(0, i - a));
            assert(d.subrange(0, i - a + 1).last() == s@[i as int]);
            lemma_dec_value_nonneg(d.subrange(0, i - a));
        }
        if !over {
            let next = value * 10 + dv;
            if next > max {
                over = true;
            } else {
                value = next;
            }
        }
        i += 1;
    }
    proof {
        assert(d.subrange(0, hi - a) =~= d);
    }
    if over {
        None
    } else {
        Some(value)
    }
}

} // verus!
