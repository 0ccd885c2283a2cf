//! Text helpers shared by the parsers: the characters of a string, Unicode
//! whitespace, trimming, and unsigned decimal numbers.

use vstd::prelude::*;
use vstd::string::StrSliceExecFns;
use vstd::string::StringExecFns;

verus! {

/// The characters of `s`, in order.
pub fn chars_of(s: &str) -> (v: Vec<char>)
    ensures
        v@ == s@,
{
    let mut v: Vec<char> = Vec::new();
    for c in it: s.chars()
        invariant
            v@ == it.seq().take(it.index()),
            it.seq() == s@,
    {
        v.push(c);
    }
    v
}

/// The characters with the Unicode property `White_Space`.
pub open spec fn is_whitespace(c: char) -> bool {
    let u = c as u32;
    ||| 0x09 <= u <= 0x0D
    ||| u == 0x20
    ||| u == 0x85
    ||| u == 0xA0
    ||| u == 0x1680
    ||| 0x2000 <= u <= 0x200A
    ||| u == 0x2028
    ||| u == 0x2029
    ||| u == 0x202F
    ||| u == 0x205F
    ||| u == 0x3000
}

/// Whether `c` is Unicode whitespace.
pub fn char_is_whitespace(c: char) -> (b: bool)
    ensures
        b == is_whitespace(c),
{
    let u: u32 = c as u32;
    (0x09 <= u && u <= 0x0D) || u == 0x20 || u == 0x85 || u == 0xA0 || u == 0x1680 || (0x2000 <= u
        && u <= 0x200A) || u == 0x2028 || u == 0x2029 || u == 0x202F || u == 0x205F || u == 0x3000
}

/// `s` without its leading whitespace.
pub open spec fn trim_start(s: Seq<char>) -> Seq<char>
    decreases s.len(),
{
    if s.len() > 0 && is_whitespace(s[0]) {
        trim_start(s.skip(1))
    } else {
        s
    }
}

/// `s` without its trailing whitespace.
pub open spec fn trim_end(s: Seq<char>) -> Seq<char>
    decreases s.len(),
{
    if s.len() > 0 && is_whitespace(s.last()) {
        trim_end(s.drop_last())
    } else {
        s
    }
}

/// `s` without leading and trailing whitespace.
pub open spec fn trimmed(s: Seq<char>) -> Seq<char> {
    trim_end(trim_start(s))
}

/// The bounds of the trimmed part of `v[lo..hi]`.
pub fn trim_range(v: &Vec<char>, lo: usize, hi: usize) -> (r: (usize, usize))
    requires
        lo <= hi <= v.len(),
    ensures
        lo <= r.0 <= r.1 <= hi,
        v@.subrange(r.0 as int, r.1 as int) == trimmed(v@.subrange(lo as int, hi as int)),
{
    let mut a: usize = lo;
    while a < hi && char_is_whitespace(v[a])
        invariant
            lo <= a <= hi <= v.len(),
            trim_start(v@.subrange(lo as int, hi as int)) == trim_start(
                v@.subrange(a as int, hi as int),
            ),
        decreases hi - a,
    {
        assert(v@.subrange(a as int, hi as int).skip(1) == v@.subrange(a + 1, hi as int));
        a = a + 1;
    }
    assert(trim_start(v@.subrange(a as int, hi as int)) == v@.subrange(a as int, hi as int));
    let mut b: usize = hi;
    while a < b && char_is_whitespace(v[b - 1])
        invariant
            a <= b <= hi <= v.len(),
            trimmed(v@.subrange(lo as int, hi as int)) == trim_end(v@.subrange(a as int, b as int)),
        decreases b - a,
    {
        assert(v@.subrange(a as int, b as int).drop_last() == v@.subrange(a as int, b - 1));
        b = b - 1;
    }
    (a, b)
}

/// Whether `c` is one of the ten ASCII digits.
pub open spec fn is_digit(c: char) -> bool {
    '0' <= c <= '9'
}

/// The value of the ASCII digit `c`.
pub open spec fn digit_value(c: char) -> nat {
    (c as u32 - '0' as u32) as nat
}

/// Whether `s` holds ASCII digits only.
pub open spec fn all_digits(s: Seq<char>) -> bool {
    forall|i: int| 0 <= i < s.len() ==> is_digit(#[trigger] s[i])
}

/// The number that the digits of `s` spell in base ten.
pub open spec fn decimal_value(s: Seq<char>) -> nat
    decreases s.len(),
{
    if s.len() == 0 {
        0
    } else {
        decimal_value(s.drop_last()) * 10 + digit_value(s.last())
    }
}

/// What `s` denotes as an unsigned decimal number: an optional `+`, then at
/// least one digit, and nothing else.
pub open spec fn parse_decimal(s: Seq<char>) -> Option<nat> {
    let digits = if s.len() > 0 && s[0] == '+' {
        s.skip(1)
    } else {
        s
    };
    if digits.len() > 0 && all_digits(digits) {
        Some(decimal_value(digits))
    } else {
        None
    }
}

/// `parse_decimal`, kept only where the number is at most `max`.
pub open spec fn parse_decimal_bounded(s: Seq<char>, max: nat) -> Option<nat> {
    match parse_decimal(s) {
        Some(n) => if n <= max {
            Some(n)
        } else {
            None
        },
        None => None,
    }
}

/// A longer run of digits never spells a smaller number than its prefix.
pub proof fn lemma_decimal_value_prefix(s: Seq<char>, i: int)
    requires
        0 <= i <= s.len(),
    ensures
        decimal_value(s.take(i)) <= decimal_value(s),
    decreases s.len(),
{
    if i < s.len() {
        assert(s.drop_last().take(i) == s.take(i));
        lemma_decimal_value_prefix(s.drop_last(), i);
    } else {
        assert(s.take(i) == s);
    }
}

/// Reads `v[lo..hi]` as an unsigned decimal number that fits in 64 bits.
pub fn parse_u64_range(v: &Vec<char>, lo: usize, hi: usize) -> (r: Option<u64>)
    requires
        lo <= hi <= v.len(),
    ensures
        match r {
            Some(n) => parse_decimal_bounded(v@.subrange(lo as int, hi as int), u64::MAX as nat)
                == Some(n as nat),
            None => parse_decimal_bounded(v@.subrange(lo as int, hi as int), u64::MAX as nat)
                is None,
        },
{
    let ghost s = v@.subrange(lo as int, hi as int);
    let start: usize = if lo < hi && v[lo] == '+' {
        lo + 1
    } else {
        lo
    };
    let ghost digits = v@.subrange(start as int, hi as int);
    assert(digits == if s.len() > 0 && s[0] == '+' {
        s.skip(1)
    } else {
        s
    });
    if start == hi {
        return None;
    }
    assert(parse_decimal(s) == if all_digits(digits) {
        Some(decimal_value(digits))
    } else {
        None
    });
    let mut acc: u64 = 0;
    let mut i: usize = start;
    while i < hi
        invariant
            lo <= start <= i <= hi <= v.len(),
            s == v@.subrange(lo as int, hi as int),
            digits == v@.subrange(start as int, hi as int),
            parse_decimal(s) == if all_digits(digits) {
                Some(decimal_value(digits))
            } else {
                None
            },
            all_digits(digits.take(i - start)),
            acc as nat == decimal_value(digits.take(i - start)),
        decreases hi - i,
    {
        let c = v[i];
        let ghost next = digits.take(i - start + 1);
        assert(next.drop_last() == digits.take(i - start));
        assert(next.last() == c);
        if !('0' <= c && c <= '9') {
            assert(!is_digit(digits[i - start]));
            return None;
        }
        let d: u64 = (c as u32 - '0' as u32) as u64;
        proof {
            lemma_decimal_value_prefix(digits, i - start + 1);
            assert forall|j: int| 0 <= j < next.len() implies is_digit(#[trigger] next[j]) by {
                if j < i - start {
                    assert(next[j] == digits.take(i - start)[j]);
                }
            }
        }
        let scaled = match acc.checked_mul(10) {
            Some(x) => x,
            None => {
                return None;
            },
        };
        acc = match scaled.checked_add(d) {
            Some(x) => x,
            None => {
                return None;
            },
        };
        i = i + 1;
    }
    assert(digits.take(hi - start) == digits);
    Some(acc)
}

/// Reads `s` as an unsigned decimal number that fits in 64 bits.
pub fn parse_u64(s: &str) -> (r: Option<u64>)
    ensures
        match r {
            Some(n) => parse_decimal_bounded(s@, u64::MAX as nat) == Some(n as nat),
            None => parse_decimal_bounded(s@, u64::MAX as nat) is None,
        },
{
    let v = chars_of(s);
    assert(v@.subrange(0, v.len() as int) == v@);
    parse_u64_range(&v, 0, v.len())
}

/// The index of the first `c` in `s`, or the length of `s` where it holds
/// none.
pub open spec fn index_of(s: Seq<char>, c: char) -> int
    decreases s.len(),
{
    if s.len() == 0 {
        0
    } else if s[0] == c {
        0
    } else {
        1 + index_of(s.skip(1), c)
    }
}

/// `index_of` points at the first occurrence and nowhere else.
pub proof fn lemma_index_of(s: Seq<char>, c: char)
    ensures
        0 <= index_of(s, c) <= s.len(),
        index_of(s, c) < s.len() ==> s[index_of(s, c)] == c,
        forall|i: int| 0 <= i < index_of(s, c) ==> s[i] != c,
    decreases s.len(),
{
    if s.len() > 0 && s[0] != c {
        lemma_index_of(s.skip(1), c);
        assert forall|i: int| 0 <= i < index_of(s, c) implies s[i] != c by {
            if i > 0 {
                assert(s.skip(1)[i - 1] == s[i]);
            }
        }
    }
}

/// The position of the first `c` in `v[lo..hi]`, or `hi` where it holds none.
pub fn find_char(v: &Vec<char>, lo: usize, hi: usize, c: char) -> (at: usize)
    requires
        lo <= hi <= v.len(),
    ensures
        lo <= at <= hi,
        at - lo == index_of(v@.subrange(lo as int, hi as int), c),
{
    let mut i: usize = lo;
    while i < hi && v[i] != c
        invariant
            lo <= i <= hi <= v.len(),
            index_of(v@.subrange(lo as int, hi as int), c) == (i - lo) + index_of(
                v@.subrange(i as int, hi as int),
                c,
            ),
        decreases hi - i,
    {
        assert(v@.subrange(i as int, hi as int).skip(1) == v@.subrange(i + 1, hi as int));
        i = i + 1;
    }
    i
}

/// Whether `v[lo..hi]` begins with `prefix`.
pub fn starts_with(v: &Vec<char>, lo: usize, hi: usize, prefix: &str) -> (r: bool)
    requires
        lo <= hi <= v.len(),
    ensures
        r == prefix@.is_prefix_of(v@.subrange(lo as int, hi as int)),
{
    let p = chars_of(prefix);
    let ghost s = v@.subrange(lo as int, hi as int);
    if p.len() > hi - lo {
        return false;
    }
    let mut i: usize = 0;
    while i < p.len()
        invariant
            i <= p.len() <= hi - lo,
            lo <= hi <= v.len(),
            p@ == prefix@,
            s == v@.subrange(lo as int, hi as int),
            forall|j: int| 0 <= j < i ==> p@[j] == s[j],
        decreases p.len() - i,
    {
        if p[i] != v[lo + i] {
            assert(p@[i as int] != s[i as int]);
            assert(!(p@ =~= s.subrange(0, p@.len() as int)));
            return false;
        }
        i = i + 1;
    }
    assert(p@ =~= s.subrange(0, p@.len() as int));
    true
}

/// Whether `v[lo..hi]` ends with `suffix`.
pub fn ends_with(v: &Vec<char>, lo: usize, hi: usize, suffix: &str) -> (r: bool)
    requires
        lo <= hi <= v.len(),
    ensures
        r == suffix@.is_suffix_of(v@.subrange(lo as int, hi as int)),
{
    let p = chars_of(suffix);
    let ghost s = v@.subrange(lo as int, hi as int);
    if p.len() > hi - lo {
        return false;
    }
    let base: usize = hi - p.len();
    let mut i: usize = 0;
    while i < p.len()
        invariant
            i <= p.len() <= hi - lo,
            lo <= hi <= v.len(),
            base == hi - p.len(),
            p@ == suffix@,
            s == v@.subrange(lo as int, hi as int),
            forall|j: int| 0 <= j < i ==> p@[j] == s[s.len() - p@.len() + j],
        decreases p.len() - i,
    {
        if p[i] != v[base + i] {
            assert(p@[i as int] != s[s.len() - p@.len() + i]);
            assert(!(p@ =~= s.subrange(s.len() - p@.len(), s.len() as int)));
            return false;
        }
        i = i + 1;
    }
    assert(p@ =~= s.subrange(s.len() - p@.len(), s.len() as int));
    true
}

/// Reads the trimmed text of `v[lo..hi]` as a number that fits in 64 bits.
pub fn parse_trimmed_u64(v: &Vec<char>, lo: usize, hi: usize) -> (r: Option<u64>)
    requires
        lo <= hi <= v.len(),
    ensures
        match r {
            Some(n) => parse_decimal_bounded(
                trimmed(v@.subrange(lo as int, hi as int)),
                u64::MAX as nat,
            ) == Some(n as nat),
            None => parse_decimal_bounded(
                trimmed(v@.subrange(lo as int, hi as int)),
                u64::MAX as nat,
            ) is None,
        },
{
    let (a, b) = trim_range(v, lo, hi);
    parse_u64_range(v, a, b)
}

/// What `s` denotes as a number of the machine's word size.
pub open spec fn parse_usize_text(s: Seq<char>) -> Option<usize> {
    match parse_decimal_bounded(s, usize::MAX as nat) {
        Some(n) => Some(n as usize),
        None => None,
    }
}

/// What `s` denotes as a 64-bit number.
pub open spec fn parse_u64_text(s: Seq<char>) -> Option<u64> {
    match parse_decimal_bounded(s, u64::MAX as nat) {
        Some(n) => Some(n as u64),
        None => None,
    }
}

/// Reads `v[lo..hi]` as a number that fits the machine word.
pub fn parse_usize_range(v: &Vec<char>, lo: usize, hi: usize) -> (r: Option<usize>)
    requires
        lo <= hi <= v.len(),
    ensures
        match r {
            Some(n) => parse_decimal_bounded(v@.subrange(lo as int, hi as int), usize::MAX as nat)
                == Some(n as nat),
            None => parse_decimal_bounded(v@.subrange(lo as int, hi as int), usize::MAX as nat)
                is None,
        },
        r == parse_usize_text(v@.subrange(lo as int, hi as int)),
{
    match parse_u64_range(v, lo, hi) {
        Some(n) => if n <= usize::MAX as u64 {
            Some(n as usize)
        } else {
            None
        },
        None => None,
    }
}

/// Reads the trimmed text of `v[lo..hi]` as a number that fits the machine
/// word.
pub fn parse_trimmed_usize(v: &Vec<char>, lo: usize, hi: usize) -> (r: Option<usize>)
    requires
        lo <= hi <= v.len(),
    ensures
        r == parse_usize_text(trimmed(v@.subrange(lo as int, hi as int))),
{
    let (a, b) = trim_range(v, lo, hi);
    parse_usize_range(v, a, b)
}

/// The text without the first run of characters that are no whitespace.
pub open spec fn drop_token(s: Seq<char>) -> Seq<char>
    decreases s.len(),
{
    if s.len() > 0 && !is_whitespace(s[0]) {
        drop_token(s.skip(1))
    } else {
        s
    }
}

/// The `n`-th run of characters that are no whitespace, counted from zero:
/// what splitting at whitespace gives as its `n`-th piece.
pub open spec fn field(s: Seq<char>, n: nat) -> Option<Seq<char>>
    decreases n, s.len(),
{
    if s.len() == 0 {
        None
    } else if is_whitespace(s[0]) {
        field(s.skip(1), n)
    } else if n == 0 {
        Some(s.take(s.len() - drop_token(s).len()))
    } else {
        field(drop_token(s), (n - 1) as nat)
    }
}

/// Dropping a token leaves a suffix of the text.
pub proof fn lemma_drop_token(s: Seq<char>)
    ensures
        drop_token(s).len() <= s.len(),
        drop_token(s) == s.skip(s.len() - drop_token(s).len()),
        s.len() > 0 && !is_whitespace(s[0]) ==> drop_token(s).len() < s.len(),
    decreases s.len(),
{
    if s.len() > 0 && !is_whitespace(s[0]) {
        lemma_drop_token(s.skip(1));
        let t = s.skip(1);
        assert(t.skip(t.len() - drop_token(t).len()) == s.skip(s.len() - drop_token(s).len()));
    } else {
        assert(s.skip(0) == s);
    }
}

/// The bounds of the `n`-th whitespace-separated field of `v[lo..hi]`.
pub fn find_field(v: &Vec<char>, lo: usize, hi: usize, n: usize) -> (r: Option<(usize, usize)>)
    requires
        lo <= hi <= v.len(),
    ensures
        match r {
            Some((a, b)) => lo <= a <= b <= hi && field(
                v@.subrange(lo as int, hi as int),
                n as nat,
            ) == Some(v@.subrange(a as int, b as int)),
            None => field(v@.subrange(lo as int, hi as int), n as nat) is None,
        },
{
    let ghost whole = v@.subrange(lo as int, hi as int);
    let mut pos: usize = lo;
    let mut left: usize = n;
    loop
        invariant
            lo <= pos <= hi <= v.len(),
            left <= n,
            whole == v@.subrange(lo as int, hi as int),
            field(whole, n as nat) == field(v@.subrange(pos as int, hi as int), left as nat),
        decreases left, hi - pos,
    {
        let ghost rest = v@.subrange(pos as int, hi as int);
        if pos == hi {
            return None;
        }
        if crate::text::char_is_whitespace(v[pos]) {
            assert(rest.skip(1) == v@.subrange(pos + 1, hi as int));
            pos = pos + 1;
        } else {
            let mut end: usize = pos;
            while end < hi && !crate::text::char_is_whitespace(v[end])
                invariant
                    pos <= end <= hi <= v.len(),
                    drop_token(v@.subrange(pos as int, hi as int)) == drop_token(
                        v@.subrange(end as int, hi as int),
                    ),
                decreases hi - end,
            {
                assert(v@.subrange(end as int, hi as int).skip(1) == v@.subrange(
                    end + 1,
                    hi as int,
                ));
                end = end + 1;
            }
            assert(drop_token(rest) == v@.subrange(end as int, hi as int));
            if left == 0 {
                assert(rest.take(rest.len() - drop_token(rest).len()) == v@.subrange(
                    pos as int,
                    end as int,
                ));
                return Some((pos, end));
            }
            proof {
                lemma_drop_token(rest);
            }
            left = left - 1;
            pos = end;
        }
    }
}

/// Whether `v[lo..hi]` is the text `literal`.
pub fn range_eq(v: &Vec<char>, lo: usize, hi: usize, literal: &str) -> (r: bool)
    requires
        lo <= hi <= v.len(),
    ensures
        r == (v@.subrange(lo as int, hi as int) == literal@),
{
    let n = literal.unicode_len();
    let ghost s = v@.subrange(lo as int, hi as int);
    if n != hi - lo {
        return false;
    }
    let r = starts_with(v, lo, hi, literal);
    assert(s.subrange(0, s.len() as int) == s);
    r
}

/// The character that stands for the digit `d`.
pub open spec fn digit_char(d: nat) -> char {
    if d == 0 {
        '0'
    } else if d == 1 {
        '1'
    } else if d == 2 {
        '2'
    } else if d == 3 {
        '3'
    } else if d == 4 {
        '4'
    } else if d == 5 {
        '5'
    } else if d == 6 {
        '6'
    } else if d == 7 {
        '7'
    } else if d == 8 {
        '8'
    } else {
        '9'
    }
}

/// The digits of `n` in base ten, without leading zeros.
pub open spec fn decimal_text(n: nat) -> Seq<char>
    decreases n,
{
    if n < 10 {
        seq![digit_char(n)]
    } else {
        decimal_text(n / 10).push(digit_char(n % 10))
    }
}

fn digit_str(d: u64) -> (s: &'static str)
    requires
        d < 10,
    ensures
        s@ == seq![digit_char(d as nat)],
{
    proof {
        reveal_strlit("0");
        reveal_strlit("1");
        reveal_strlit("2");
        reveal_strlit("3");
        reveal_strlit("4");
        reveal_strlit("5");
        reveal_strlit("6");
        reveal_strlit("7");
        reveal_strlit("8");
        reveal_strlit("9");
    }
    let s = if d == 0 {
        "0"
    } else if d == 1 {
        "1"
    } else if d == 2 {
        "2"
    } else if d == 3 {
        "3"
    } else if d == 4 {
        "4"
    } else if d == 5 {
        "5"
    } else if d == 6 {
        "6"
    } else if d == 7 {
        "7"
    } else if d == 8 {
        "8"
    } else {
        "9"
    };
    assert(s@ =~= seq![digit_char(d as nat)]);
    s
}

/// Writes `n` in base ten at the end of `out`.
pub fn append_decimal(out: &mut String, n: u64)
    ensures
        final(out)@ == old(out)@ + decimal_text(n as nat),
    decreases n,
{
    if n >= 10 {
        append_decimal(out, n / 10);
    }
    out.append(digit_str(n % 10));
    proof {
        if n >= 10 {
            assert(old(out)@ + decimal_text((n / 10) as nat) + seq![digit_char((n % 10) as nat)]
                == old(out)@ + decimal_text((n / 10) as nat).push(digit_char((n % 10) as nat)));
        }
    }
}

/// `n` in base ten.
pub fn decimal_string(n: u64) -> (text: String)
    ensures
        text@ == decimal_text(n as nat),
{
    let mut text = String::new();
    append_decimal(&mut text, n);
    assert(Seq::<char>::empty() + decimal_text(n as nat) == decimal_text(n as nat));
    text
}

/// A number of hundredths as a decimal fraction with two places, such as
/// `93.50` for 9350.
pub open spec fn hundredths_text(n: nat) -> Seq<char> {
    decimal_text(n / 100) + seq!['.', digit_char((n / 10) % 10), digit_char(n % 10)]
}

/// Writes a number of hundredths as a decimal fraction with two places at
/// the end of `out`.
pub fn append_hundredths(out: &mut String, n: u64)
    ensures
        final(out)@ == old(out)@ + hundredths_text(n as nat),
{
    proof {
        reveal_strlit(".");
    }
    append_decimal(out, n / 100);
    out.append(".");
    out.append(digit_str((n / 10) % 10));
    out.append(digit_str(n % 10));
    assert(out@ =~= old(out)@ + hundredths_text(n as nat));
}

/// A number written in base ten reads back as itself.
pub proof fn lemma_decimal_round_trip(n: nat)
    ensures
        parse_decimal(decimal_text(n)) == Some(n),
{
    lemma_decimal_text(n);
    let s = decimal_text(n);
    assert(s[0] != '+');
}

/// The digits of a number in base ten are digits, at least one of them, and
/// spell the number.
pub proof fn lemma_decimal_text(n: nat)
    ensures
        decimal_text(n).len() > 0,
        all_digits(decimal_text(n)),
        decimal_value(decimal_text(n)) == n,
    decreases n,
{
    let s = decimal_text(n);
    if n < 10 {
        assert(s.drop_last() =~= Seq::<char>::empty());
        assert(decimal_value(s.drop_last()) == 0);
        assert(digit_value(digit_char(n)) == n);
    } else {
        lemma_decimal_text(n / 10);
        let front = decimal_text(n / 10);
        assert(s.drop_last() =~= front);
        assert(digit_value(digit_char(n % 10)) == n % 10);
        assert forall|i: int| 0 <= i < s.len() implies is_digit(#[trigger] s[i]) by {
            if i < front.len() {
                assert(s[i] == front[i]);
            }
        }
    }
}

} // verus!
