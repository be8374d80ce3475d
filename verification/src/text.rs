//! Text building blocks: decimal numbers, trimming, ASCII case, first matches.

use vstd::prelude::*;
use vstd::string::{StrSliceExecFns, StringExecFns};

verus! {

/// The first element of `s` that satisfies `p`.
pub open spec fn first<T>(s: Seq<T>, p: spec_fn(T) -> bool) -> Option<T>
    decreases s.len(),
{
    if s.len() == 0 {
        None
    } else if p(s[0]) {
        Some(s[0])
    } else {
        first(s.drop_first(), p)
    }
}

/// The first match stands where `p` holds and held nowhere before.
pub proof fn lemma_first_at<T>(s: Seq<T>, p: spec_fn(T) -> bool, i: int)
    requires
        0 <= i < s.len(),
        p(s[i]),
        forall|j: int| 0 <= j < i ==> !p(#[trigger] s[j]),
    ensures
        first(s, p) == Some(s[i]),
    decreases i,
{
    if i > 0 {
        assert(!p(s[0]));
        let rest = s.drop_first();
        assert forall|j: int| 0 <= j < i - 1 implies !p(#[trigger] rest[j]) by {
            assert(rest[j] == s[j + 1]);
        }
        lemma_first_at(rest, p, i - 1);
    }
}

/// There is no first match where `p` holds of no element.
pub proof fn lemma_first_none<T>(s: Seq<T>, p: spec_fn(T) -> bool)
    requires
        forall|j: int| 0 <= j < s.len() ==> !p(#[trigger] s[j]),
    ensures
        first(s, p) is None,
    decreases s.len(),
{
    if s.len() > 0 {
        assert(!p(s[0]));
        let rest = s.drop_first();
        assert forall|j: int| 0 <= j < rest.len() implies !p(#[trigger] rest[j]) by {
            assert(rest[j] == s[j + 1]);
        }
        lemma_first_none(rest, p);
    }
}

/// Whether two strings hold the same characters.
pub fn same(a: &str, b: &str) -> (r: bool)
    ensures
        r == (a@ == b@),
{
    a.to_owned() == b.to_owned()
}

/// The lower case form of an ASCII letter; any other character is itself.
pub open spec fn ascii_lower(c: char) -> char {
    if 'A' <= c && c <= 'Z' {
        (c as u32 + 32) as char
    } else {
        c
    }
}

/// Every character of `s` in its ASCII lower case form.
pub open spec fn lower_ascii(s: Seq<char>) -> Seq<char> {
    s.map_values(|c: char| ascii_lower(c))
}

fn ascii_lower_code(c: char) -> (r: u32)
    ensures
        r == ascii_lower(c) as u32,
{
    if 'A' <= c && c <= 'Z' {
        c as u32 + 32
    } else {
        c as u32
    }
}

/// Whether two strings agree up to the case of ASCII letters.
pub fn eq_ignore_ascii_case(a: &str, b: &str) -> (r: bool)
    ensures
        r == (lower_ascii(a@) == lower_ascii(b@)),
{
    let n: usize = a.unicode_len();
    if n != b.unicode_len() {
        assert(lower_ascii(a@).len() != lower_ascii(b@).len());
        return false;
    }
    for i in 0..n
        invariant
            n == a@.len(),
            n == b@.len(),
            forall|j: int| 0 <= j < i ==> ascii_lower(a@[j]) == ascii_lower(b@[j]),
    {
        if ascii_lower_code(a.get_char(i)) != ascii_lower_code(b.get_char(i)) {
            assert(lower_ascii(a@)[i as int] != lower_ascii(b@)[i as int]);
            return false;
        }
    }
    assert(lower_ascii(a@) =~= lower_ascii(b@));
    true
}

/// The decimal digit of value `d`.
pub open spec fn digit_char(d: nat) -> char {
    ('0' as u32 + d) as char
}

/// `n` in decimal, without leading zeros.
pub open spec fn decimal(n: nat) -> Seq<char>
    decreases n,
{
    if n < 10 {
        seq![digit_char(n)]
    } else {
        decimal(n / 10).push(digit_char(n % 10))
    }
}

fn digit_text(d: u64) -> (r: &'static str)
    requires
        d < 10,
    ensures
        r@ == seq![digit_char(d as nat)],
{
    proof {
        reveal_strlit("0");
        reveal_strlit("1");
        reveal_strlit("2");
        reveal_strlit("3");
        reveal_strlit("4");
        reveal_strlit("5");
        reveal_strlit("6");
        reveal_strlit("7");
        reveal_strlit("8");
        reveal_strlit("9");
    }
    let r = match d {
        0 => "0",
        1 => "1",
        2 => "2",
        3 => "3",
        4 => "4",
        5 => "5",
        6 => "6",
        7 => "7",
        8 => "8",
        _ => "9",
    };
    assert(r@ =~= seq![digit_char(d as nat)]);
    r
}

/// A number as decimal text.
pub fn decimal_text(n: u64) -> (r: String)
    ensures
        r@ == decimal(n as nat),
    decreases n,
{
    if n < 10 {
        digit_text(n).to_owned()
    } else {
        let mut r = decimal_text(n / 10);
        r.append(digit_text(n % 10));
        assert(r@ =~= decimal(n as nat));
        r
    }
}

/// The value of a row of decimal digits.
pub open spec fn digits_value(s: Seq<char>) -> nat
    decreases s.len(),
{
    if s.len() == 0 {
        0
    } else {
        digits_value(s.drop_last()) * 10 + (s.last() as u32 - '0' as u32) as nat
    }
}

/// Whether `s` holds nothing but decimal digits.
pub open spec fn all_digits(s: Seq<char>) -> bool {
    forall|i: int| 0 <= i < s.len() ==> '0' <= #[trigger] s[i] && s[i] <= '9'
}

/// A decimal text holds digits only, and their value is the number.
pub proof fn lemma_decimal_value(n: nat)
    ensures
        decimal(n).len() > 0,
        all_digits(decimal(n)),
        digits_value(decimal(n)) == n,
    decreases n,
{
    reveal_with_fuel(digits_value, 2);
    if n < 10 {
        assert(decimal(n).drop_last() =~= Seq::<char>::empty());
        assert(digits_value(Seq::<char>::empty()) == 0);
    } else {
        lemma_decimal_value(n / 10);
        assert(decimal(n).drop_last() =~= decimal(n / 10));
        assert(decimal(n).last() == digit_char(n % 10));
    }
}

/// Two numbers with the same decimal text are the same number.
pub proof fn decimal_is_injective(a: nat, b: nat)
    requires
        decimal(a) == decimal(b),
    ensures
        a == b,
{
    lemma_decimal_value(a);
    lemma_decimal_value(b);
}

/// `n` in decimal, with a leading minus where it is negative.
pub open spec fn signed_decimal(n: int) -> Seq<char> {
    if n < 0 {
        seq!['-'] + decimal((-n) as nat)
    } else {
        decimal(n as nat)
    }
}

/// A signed number as decimal text.
pub fn signed_decimal_text(n: i32) -> (r: String)
    ensures
        r@ == signed_decimal(n as int),
{
    if n < 0 {
        proof {
            reveal_strlit("-");
        }
        let mut r = "-".to_owned();
        let positive: i64 = -(n as i64);
        r.append(decimal_text(positive as u64).as_str());
        assert(r@ =~= signed_decimal(n as int));
        r
    } else {
        decimal_text(n as u64)
    }
}

/// `c` over and over, `n` times.
pub open spec fn repeated(c: char, n: nat) -> Seq<char> {
    Seq::new(n, |i: int| c)
}

/// Appends `n` spaces.
pub fn append_spaces(out: &mut String, n: usize)
    ensures
        final(out)@ == old(out)@ + repeated(' ', n as nat),
{
    proof {
        reveal_strlit(" ");
    }
    let ghost start = out@;
    assert(start =~= start + repeated(' ', 0));
    for i in 0..n
        invariant
            out@ == start + repeated(' ', i as nat),
            " "@ =~= seq![' '],
    {
        out.append(" ");
        assert(out@ =~= start + repeated(' ', (i + 1) as nat));
    }
}

/// Appends `n` carets.
pub fn append_carets(out: &mut String, n: usize)
    ensures
        final(out)@ == old(out)@ + repeated('^', n as nat),
{
    proof {
        reveal_strlit("^");
    }
    let ghost start = out@;
    assert(start =~= start + repeated('^', 0));
    for i in 0..n
        invariant
            out@ == start + repeated('^', i as nat),
            "^"@ =~= seq!['^'],
    {
        out.append("^");
        assert(out@ =~= start + repeated('^', (i + 1) as nat));
    }
}

/// The value of `s` read as an unsigned 32 bit number: an optional plus sign,
/// then at least one digit and nothing else.
pub open spec fn number(s: Seq<char>) -> Option<nat> {
    let digits = if s.len() > 0 && s[0] == '+' {
        s.drop_first()
    } else {
        s
    };
    if digits.len() > 0 && all_digits(digits) && digits_value(digits) <= u32::MAX {
        Some(digits_value(digits))
    } else {
        None
    }
}

/// Reads an unsigned 32 bit number.
pub fn parse_number(s: &str) -> (r: Option<u32>)
    ensures
        r matches Some(v) ==> number(s@) == Some(v as nat),
        r is None ==> number(s@) is None,
{
    let n: usize = s.unicode_len();
    let from: usize = if n > 0 && s.get_char(0) == '+' {
        1
    } else {
        0
    };
    let ghost digits = s@.skip(from as int);
    assert(from == 1 ==> digits =~= s@.drop_first());
    assert(from == 0 ==> digits =~= s@);
    if from == n {
        return None;
    }
    let mut value: u64 = 0;
    let mut too_large: bool = false;
    assert(digits.take(0) =~= Seq::<char>::empty());
    for i in from..n
        invariant
            n == s@.len(),
            from <= n,
            digits == s@.skip(from as int),
            from == 1 ==> s@.len() > 0 && s@[0] == '+' && digits == s@.drop_first(),
            from == 0 ==> !(s@.len() > 0 && s@[0] == '+') && digits == s@,
            from == 0 || from == 1,
            all_digits(digits.take(i - from)),
            !too_large ==> value == digits_value(digits.take(i - from)) && value <= u32::MAX,
            too_large ==> digits_value(digits.take(i - from)) > u32::MAX,
    {
        let c: char = s.get_char(i);
        assert(c == digits[i - from]);
        if c < '0' || '9' < c {
            assert(!all_digits(digits));
            return None;
        }
        let ghost before = digits.take(i - from);
        let ghost after = digits.take(i - from + 1);
        assert(after.drop_last() =~= before);
        assert(after.last() == c);
        assert forall|j: int| 0 <= j < after.len() implies '0' <= #[trigger] after[j] && after[j]
            <= '9' by {
            if j < before.len() {
                assert(after[j] == before[j]);
            }
        }
        if !too_large {
            value = value * 10 + (c as u32 - '0' as u32) as u64;
            too_large = value > u32::MAX as u64;
        }
    }
    assert(digits.take(n - from) =~= digits);
    if too_large {
        None
    } else {
        Some(value as u32)
    }
}

/// A set of characters that trimming removes.
#[derive(Copy, Clone, Debug, PartialEq, Eq, Structural)]
pub enum Margin {
    /// The characters with the Unicode property `White_Space`.
    WhiteSpace,
    /// Line feed and carriage return.
    LineEnd,
}

impl Margin {
    /// Whether `c` belongs to the set.
    pub open spec fn has_char(self, c: char) -> bool {
        match self {
            Margin::WhiteSpace => {
                ||| '\u{9}' <= c && c <= '\u{d}'
                ||| c == ' '
                ||| c == '\u{85}'
                ||| c == '\u{a0}'
                ||| c == '\u{1680}'
                ||| '\u{2000}' <= c && c <= '\u{200a}'
                ||| c == '\u{2028}'
                ||| c == '\u{2029}'
                ||| c == '\u{202f}'
                ||| c == '\u{205f}'
                ||| c == '\u{3000}'
            },
            Margin::LineEnd => c == '\n' || c == '\r',
        }
    }

    /// Whether `c` belongs to the set.
    pub fn has(&self, c: char) -> (r: bool)
        ensures
            r == self.has_char(c),
    {
        match self {
            Margin::WhiteSpace => ('\u{9}' <= c && c <= '\u{d}') || c == ' ' || c == '\u{85}' || c
                == '\u{a0}' || c == '\u{1680}' || ('\u{2000}' <= c && c <= '\u{200a}') || c
                == '\u{2028}' || c == '\u{2029}' || c == '\u{202f}' || c == '\u{205f}' || c
                == '\u{3000}',
            Margin::LineEnd => c == '\n' || c == '\r',
        }
    }
}

/// `s` without the characters of `margin` at its end.
pub open spec fn trimmed_end(s: Seq<char>, margin: Margin) -> Seq<char>
    decreases s.len(),
{
    if s.len() > 0 && margin.has_char(s.last()) {
        trimmed_end(s.drop_last(), margin)
    } else {
        s
    }
}

/// `s` without the characters of `margin` at its start.
pub open spec fn trimmed_start(s: Seq<char>, margin: Margin) -> Seq<char>
    decreases s.len(),
{
    if s.len() > 0 && margin.has_char(s[0]) {
        trimmed_start(s.drop_first(), margin)
    } else {
        s
    }
}

/// Trimming the end leaves a prefix that does not end in the margin.
pub proof fn lemma_trimmed_end(s: Seq<char>, margin: Margin)
    ensures
        trimmed_end(s, margin).len() <= s.len(),
        trimmed_end(s, margin) == s.take(trimmed_end(s, margin).len() as int),
        trimmed_end(s, margin).len() > 0 ==> !margin.has_char(trimmed_end(s, margin).last()),
    decreases s.len(),
{
    if s.len() > 0 && margin.has_char(s.last()) {
        lemma_trimmed_end(s.drop_last(), margin);
        let r = trimmed_end(s, margin);
        assert(s.drop_last().take(r.len() as int) =~= s.take(r.len() as int));
    } else {
        assert(s.take(s.len() as int) =~= s);
    }
}

/// Drops the characters of `margin` at the end of `s`.
pub fn trim_end(s: &str, margin: Margin) -> (r: &str)
    ensures
        r@ == trimmed_end(s@, margin),
{
    let mut n: usize = s.unicode_len();
    assert(s@.take(n as int) =~= s@);
    while n > 0 && margin.has(s.get_char(n - 1))
        invariant
            n <= s@.len(),
            trimmed_end(s@.take(n as int), margin) == trimmed_end(s@, margin),
        decreases n,
    {
        assert(s@.take(n as int).drop_last() =~= s@.take(n - 1));
        n = n - 1;
    }
    let r = s.substring_char(0, n);
    assert(r@ =~= s@.take(n as int));
    r
}

/// Drops the characters of `margin` at both ends of `s`.
pub fn trim(s: &str, margin: Margin) -> (r: &str)
    ensures
        r@ == trimmed_end(trimmed_start(s@, margin), margin),
{
    let n: usize = s.unicode_len();
    let mut from: usize = 0;
    assert(s@.skip(0) =~= s@);
    while from < n && margin.has(s.get_char(from))
        invariant
            n == s@.len(),
            from <= n,
            trimmed_start(s@.skip(from as int), margin) == trimmed_start(s@, margin),
        decreases n - from,
    {
        assert(s@.skip(from as int).drop_first() =~= s@.skip(from + 1));
        from = from + 1;
    }
    let rest = s.substring_char(from, n);
    assert(rest@ =~= s@.skip(from as int));
    trim_end(rest, margin)
}

/// Where `c` stands in `s` for the first time.
pub fn find_char(s: &str, c: char) -> (r: Option<usize>)
    ensures
        r matches Some(i) ==> s@.index_of_first(c) == Some(i as int) && i < s@.len(),
        r is None ==> s@.index_of_first(c) is None && !s@.contains(c),
{
    let n: usize = s.unicode_len();
    for i in 0..n
        invariant
            n == s@.len(),
            forall|j: int| 0 <= j < i ==> s@[j] != c,
    {
        if s.get_char(i) == c {
            proof {
                assert(s@.contains(c));
                s@.index_of_first_ensures(c);
                let k = s@.index_of_first(c)->0;
                assert(k == i);
            }
            return Some(i);
        }
    }
    proof {
        s@.index_of_first_ensures(c);
    }
    None
}

}
