//! Text helpers shared by the lexer, the parser and the renderers:
//! conversions between strings and character vectors, decimal numerals,
//! and joining of rendered pieces.

use vstd::prelude::*;

verus! {

/// `String::push` appends exactly one character to the end of the string.
pub assume_specification[ String::push ](s: &mut String, ch: char)
    ensures
        final(s)@ == old(s)@.push(ch),
;

/// The characters of a string slice, in order.
pub fn chars_of(s: &str) -> (v: Vec<char>)
    ensures
        v@ == s@,
{
    let mut v: Vec<char> = Vec::new();
    for c in it: s.chars()
        invariant
            v@ == it.seq().take(it.index() as int),
            it.seq() == s@,
    {
        v.push(c);
    }
    v
}

/// The string made of the characters `v[from..to]`.
pub fn string_of_range(v: &Vec<char>, from: usize, to: usize) -> (s: String)
    requires
        from <= to <= v.len(),
    ensures
        s@ == v@.subrange(from as int, to as int),
{
    let mut s = String::new();
    let mut i: usize = from;
    while i < to
        invariant
            from <= i <= to <= v.len(),
            s@ == v@.subrange(from as int, i as int),
        decreases to - i,
    {
        s.push(v[i]);
        assert(v@.subrange(from as int, i as int).push(v@[i as int]) =~= v@.subrange(
            from as int,
            i + 1,
        ));
        i += 1;
    }
    s
}

/// The string made of all characters of `v`.
pub fn string_of(v: &Vec<char>) -> (s: String)
    ensures
        s@ == v@,
{
    let s = string_of_range(v, 0, v.len());
    assert(v@.subrange(0, v.len() as int) =~= v@);
    s
}

/// Whether two character vectors hold the same text.
pub fn chars_eq(a: &Vec<char>, b: &Vec<char>) -> (r: bool)
    ensures
        r == (a@ == b@),
{
    if a.len() != b.len() {
        return false;
    }
    let mut i: usize = 0;
    while i < a.len()
        invariant
            i <= a.len(),
            a.len() == b.len(),
            forall|j: int| 0 <= j < i ==> a@[j] == b@[j],
        decreases a.len() - i,
    {
        if a[i] != b[i] {
            return false;
        }
        i += 1;
    }
    assert(a@ =~= b@);
    true
}

/// Whether two string slices hold the same text.
pub fn str_eq(a: &str, b: &str) -> (r: bool)
    ensures
        r == (a@ == b@),
{
    let x = chars_of(a);
    let y = chars_of(b);
    chars_eq(&x, &y)
}

/// The pieces of `parts` one after another, with `sep` between neighbours.
pub open spec fn join(parts: Seq<Seq<char>>, sep: Seq<char>) -> Seq<char>
    decreases parts.len(),
{
    if parts.len() == 0 {
        Seq::empty()
    } else if parts.len() == 1 {
        parts[0]
    } else {
        join(parts.drop_last(), sep) + sep + parts.last()
    }
}

/// The pieces of `parts` one after another.
pub open spec fn concat(parts: Seq<Seq<char>>) -> Seq<char>
    decreases parts.len(),
{
    if parts.len() == 0 {
        Seq::empty()
    } else {
        concat(parts.drop_last()) + parts.last()
    }
}

/// The character that writes the decimal digit `d`.
pub open spec fn digit_char(d: int) -> char {
    ((48 + d) as u8) as char
}

/// The decimal numeral of a natural number, without leading zeros.
pub open spec fn nat_digits(n: nat) -> Seq<char>
    decreases n,
{
    if n < 10 {
        seq![digit_char(n as int)]
    } else {
        nat_digits(n / 10).push(digit_char((n % 10) as int))
    }
}

/// The decimal numeral of an integer: a minus sign for negative numbers,
/// then the digits of its magnitude.
pub open spec fn decimal(n: int) -> Seq<char> {
    if n < 0 {
        seq!['-'] + nat_digits((-n) as nat)
    } else {
        nat_digits(n as nat)
    }
}

proof fn lemma_reverse_push(s: Seq<char>, c: char)
    ensures
        s.push(c).reverse() =~= seq![c] + s.reverse(),
{
}

/// The decimal digits of `m`, least significant first.
fn digits_reversed(m: u64) -> (buf: Vec<char>)
    ensures
        buf@.reverse() == nat_digits(m as nat),
        buf.len() >= 1,
{
    let mut buf: Vec<char> = Vec::new();
    let mut cur: u64 = m;
    while cur >= 10
        invariant
            nat_digits(m as nat) == nat_digits(cur as nat) + buf@.reverse(),
        decreases cur,
    {
        let d: u8 = (cur % 10) as u8;
        let c: char = (48u8 + d) as char;
        proof {
            lemma_reverse_push(buf@, c);
            assert(nat_digits(cur as nat) == nat_digits((cur / 10) as nat).push(c));
            assert(nat_digits((cur / 10) as nat).push(c) + buf@.reverse() =~= nat_digits(
                (cur / 10) as nat,
            ) + (seq![c] + buf@.reverse()));
        }
        buf.push(c);
        cur = cur / 10;
    }
    let c: char = (48u8 + (cur as u8)) as char;
    proof {
        lemma_reverse_push(buf@, c);
        assert(nat_digits(cur as nat) == seq![c]);
    }
    buf.push(c);
    buf
}

/// Renders a signed 64-bit integer as its decimal numeral.
pub fn i64_to_string(v: i64) -> (s: String)
    ensures
        s@ == decimal(v as int),
{
    let mut s = String::new();
    let m: u64 = if v < 0 {
        s.push('-');
        (0 - (v as i128)) as u64
    } else {
        v as u64
    };
    let ghost sign = s@;
    let buf = digits_reversed(m);
    let mut i: usize = buf.len();
    while i > 0
        invariant
            i <= buf.len(),
            s@ == sign + buf@.reverse().take(buf.len() - i),
        decreases i,
    {
        i -= 1;
        s.push(buf[i]);
        assert(buf@.reverse().take(buf.len() - (i + 1)).push(buf@[i as int]) =~= buf@.reverse().take(
            buf.len() - i,
        ));
        assert(sign + buf@.reverse().take(buf.len() - (i + 1)).push(buf@[i as int]) =~= (sign
            + buf@.reverse().take(buf.len() - (i + 1))).push(buf@[i as int]));
    }
    assert(buf@.reverse().take(buf.len() as int) =~= buf@.reverse());
    assert(sign + nat_digits(m as nat) =~= decimal(v as int));
    s
}

/// Whether `c` is one of the ten ASCII decimal digits.
pub open spec fn is_digit_char(c: char) -> bool {
    '0' <= c && c <= '9'
}

/// Whether every character of `s` is a decimal digit.
pub open spec fn all_digits(s: Seq<char>) -> bool {
    forall|i: int| 0 <= i < s.len() ==> is_digit_char(#[trigger] s[i])
}

/// The number that a run of decimal digits writes.
pub open spec fn digits_value(s: Seq<char>) -> nat
    decreases s.len(),
{
    if s.len() == 0 {
        0
    } else {
        (digits_value(s.drop_last()) * 10 + (s.last() as nat - 48)) as nat
    }
}

/// The part of a numeral that follows its optional sign.
pub open spec fn numeral_body(s: Seq<char>) -> Seq<char> {
    if s.len() > 0 && (s[0] == '-' || s[0] == '+') {
        s.drop_first()
    } else {
        s
    }
}

/// The integer that a numeral writes: an optional `+` or `-`, then one or
/// more decimal digits.
pub open spec fn numeral_value(s: Seq<char>) -> int {
    if s.len() > 0 && s[0] == '-' {
        -(digits_value(numeral_body(s)) as int)
    } else {
        digits_value(numeral_body(s)) as int
    }
}

/// Reading a numeral as a signed 32-bit integer: `None` when the text is
/// not a numeral or its value does not fit.
pub open spec fn parse_i32_spec(s: Seq<char>) -> Option<i32> {
    let body = numeral_body(s);
    if body.len() == 0 || !all_digits(body) {
        None
    } else if i32::MIN <= numeral_value(s) <= i32::MAX {
        Some(numeral_value(s) as i32)
    } else {
        None
    }
}

/// A run of digits is worth at least as much as any of its prefixes.
proof fn lemma_digits_value_prefix(s: Seq<char>, k: int)
    requires
        0 <= k <= s.len(),
        all_digits(s),
    ensures
        digits_value(s.take(k)) <= digits_value(s),
    decreases s.len() - k,
{
    if k == s.len() {
        assert(s.take(k) =~= s);
    } else {
        lemma_digits_value_prefix(s, k + 1);
        assert(s.take(k + 1).drop_last() =~= s.take(k));
        assert(is_digit_char(s.take(k + 1).last()));
    }
}

/// Reads a numeral as a signed 32-bit integer.
#[verifier::loop_isolation(false)]
pub fn parse_i32(text: &str) -> (r: Option<i32>)
    ensures
        r == parse_i32_spec(text@),
{
    let v = chars_of(text);
    let n = v.len();
    let negative = n > 0 && v[0] == '-';
    let start: usize = if n > 0 && (v[0] == '-' || v[0] == '+') {
        1
    } else {
        0
    };
    let ghost body = numeral_body(v@);
    assert(body =~= v@.subrange(start as int, n as int));
    if start == n {
        return None;
    }
    let mut acc: u64 = 0;
    let mut i: usize = start;
    while i < n
        invariant
            start <= i <= n == v.len(),
            body == v@.subrange(start as int, n as int),
            all_digits(body.take(i - start)),
            acc == digits_value(body.take(i - start)),
            acc <= 2147483648,
        decreases n - i,
    {
        let c = v[i];
        if !('0' <= c && c <= '9') {
            assert(!is_digit_char(body[i - start]));
            return None;
        }
        let d: u64 = (c as u32 - 48) as u64;
        let next: u64 = acc * 10 + d;
        proof {
            let t = body.take(i + 1 - start);
            assert(t.drop_last() =~= body.take(i - start));
            assert(t.last() == c);
            assert(next == digits_value(t));
            assert forall|j: int| 0 <= j < t.len() implies is_digit_char(#[trigger] t[j]) by {
                if j < t.len() - 1 {
                    assert(t[j] == body.take(i - start)[j]);
                }
            }
        }
        if next > 2147483648 {
            // The rest can only make the value larger: decide now if the rest are digits.
            let mut j: usize = i + 1;
            while j < n
                invariant
                    i < j <= n == v.len(),
                    body == v@.subrange(start as int, n as int),
                    all_digits(body.take(j - start)),
                decreases n - j,
            {
                let cj = v[j];
                if !('0' <= cj && cj <= '9') {
                    assert(!is_digit_char(body[j - start]));
                    return None;
                }
                proof {
                    let t = body.take(j + 1 - start);
                    assert forall|k: int| 0 <= k < t.len() implies is_digit_char(
                        #[trigger] t[k],
                    ) by {
                        if k < t.len() - 1 {
                            assert(t[k] == body.take(j - start)[k]);
                        }
                    }
                }
                j += 1;
            }
            proof {
                assert(body.take(n - start) =~= body);
                lemma_digits_value_prefix(body, i + 1 - start);
            }
            return None;
        }
        acc = next;
        i += 1;
    }
    proof {
        assert(body.take(n - start) =~= body);
    }
    if negative {
        Some((0 - (acc as i64)) as i32)
    } else if acc <= 2147483647 {
        Some(acc as i32)
    } else {
        None
    }
}

/// The text that `Debug` formatting writes for a string: the string
/// between double quotes, with the characters that need it escaped.
pub uninterp spec fn debug_quoted(text: Seq<char>) -> Seq<char>;

/// Formats a string slice with `Debug`, as `format!("{:#?}", text)` does.
/// The result is the quoted form of the text; its characters are named by
/// `debug_quoted`, not described.
#[verifier::external_body]
pub(crate) fn debug_quote(text: &str) -> (r: String)
    ensures
        r@ == debug_quoted(text@),
{
    format!("{:#?}", text)
}

} // verus!
