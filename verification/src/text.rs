//! Character-level helpers shared by the parsers and encoders: character
//! sequences, decimal and hexadecimal text, and decimal parsing with the
//! same acceptance rules as the standard integer parsers.

use vstd::prelude::*;

verus! {

/// A machine index as a mathematical integer.
pub open spec fn idx(i: usize) -> int {
    i as int
}

/// The characters of `s`, in order.
pub fn chars_of(s: &str) -> (out: Vec<char>)
    ensures
        out@ == s@,
{
    let mut out: Vec<char> = Vec::new();
    for c in iter: s.chars()
        invariant
            out@ == iter.seq().take(iter.index() as int),
    {
        out.push(c);
    }
    out
}

/// Appends one character to a string.
///
/// Calls `String::push`, which the standard library documents as
/// appending the character at the end; the contract states just that.
#[verifier::external_body]
pub(crate) fn push_char(s: &mut String, c: char)
    ensures
        final(s)@ == old(s)@.push(c),
{
    s.push(c);
}

/// The text std's `Debug` formatter writes for a string: quoted, with
/// quotes, backslashes and control characters escaped.
pub uninterp spec fn debug_text(s: Seq<char>) -> Seq<char>;

/// The `Debug` form of a string.
///
/// Calls `format!("{:?}", s)`. The contract names the result and says
/// nothing of which characters std escapes or how.
#[verifier::external_body]
pub(crate) fn debug_quote(s: &str) -> (r: String)
    ensures
        r@ == debug_text(s@),
{
    format!("{:?}", s)
}

/// Appends a run of characters to a string.
pub fn push_chars(s: &mut String, chars: &[char])
    ensures
        final(s)@ == old(s)@ + chars@,
{
    let mut i: usize = 0;
    while i < chars.len()
        invariant
            i <= chars@.len(),
            s@ == old(s)@ + chars@.take(i as int),
        decreases chars@.len() - i,
    {
        push_char(s, chars[i]);
        i = i + 1;
        assert(chars@.take(i as int) == chars@.take((i - 1) as int).push(chars@[i - 1]));
    }
    assert(chars@.take(chars@.len() as int) == chars@);
}

/// Appends the characters of `t` to a string.
pub fn push_str(s: &mut String, t: &str)
    ensures
        final(s)@ == old(s)@ + t@,
{
    let cs = chars_of(t);
    push_chars(s, cs.as_slice());
}

/// A string holding exactly `chars`.
pub fn string_of(chars: &[char]) -> (out: String)
    ensures
        out@ == chars@,
{
    let mut out = String::new();
    push_chars(&mut out, chars);
    out
}

/// A fresh string with the same characters as `s`.
pub fn owned(s: &str) -> (out: String)
    ensures
        out@ == s@,
{
    let mut out = String::new();
    push_str(&mut out, s);
    out
}

/// Whether two strings hold the same characters.
pub fn str_eq(a: &str, b: &str) -> (r: bool)
    ensures
        r == (a@ == b@),
{
    let x = chars_of(a);
    let y = chars_of(b);
    chars_eq(x.as_slice(), y.as_slice())
}

/// Whether two character runs are equal.
pub fn chars_eq(x: &[char], y: &[char]) -> (r: bool)
    ensures
        r == (x@ == y@),
{
    if x.len() != y.len() {
        return false;
    }
    let mut i: usize = 0;
    while i < x.len()
        invariant
            x@.len() == y@.len(),
            i <= x@.len(),
            forall|j: int| 0 <= j < i ==> x@[j] == y@[j],
        decreases x@.len() - i,
    {
        if x[i] != y[i] {
            return false;
        }
        i = i + 1;
    }
    assert(x@ =~= y@);
    true
}

/// Whether `s` begins with `prefix`.
pub open spec fn has_prefix(s: Seq<char>, prefix: Seq<char>) -> bool {
    prefix.len() <= s.len() && s.take(prefix.len() as int) == prefix
}

/// Whether `s` ends with `suffix`.
pub open spec fn has_suffix(s: Seq<char>, suffix: Seq<char>) -> bool {
    suffix.len() <= s.len() && s.skip(s.len() - suffix.len()) == suffix
}

/// Whether the run `x` begins with `prefix`.
pub fn starts_with(x: &[char], prefix: &[char]) -> (r: bool)
    ensures
        r == has_prefix(x@, prefix@),
{
    if prefix.len() > x.len() {
        return false;
    }
    let mut i: usize = 0;
    while i < prefix.len()
        invariant
            prefix@.len() <= x@.len(),
            i <= prefix@.len(),
            forall|j: int| 0 <= j < i ==> x@[j] == prefix@[j],
        decreases prefix@.len() - i,
    {
        if x[i] != prefix[i] {
            assert(x@.take(prefix@.len() as int)[i as int] != prefix@[i as int]);
            return false;
        }
        i = i + 1;
    }
    assert(x@.take(prefix@.len() as int) =~= prefix@);
    true
}

/// Whether the run `x` ends with `suffix`.
pub fn ends_with(x: &[char], suffix: &[char]) -> (r: bool)
    ensures
        r == has_suffix(x@, suffix@),
{
    if suffix.len() > x.len() {
        return false;
    }
    let off = x.len() - suffix.len();
    let mut i: usize = 0;
    while i < suffix.len()
        invariant
            suffix@.len() <= x@.len(),
            off == x@.len() - suffix@.len(),
            x@.len() == x.len(),
            i <= suffix@.len(),
            forall|j: int| 0 <= j < i ==> x@[off + j] == suffix@[j],
        decreases suffix@.len() - i,
    {
        if x[off + i] != suffix[i] {
            assert(x@.skip(off as int)[i as int] != suffix@[i as int]);
            return false;
        }
        i = i + 1;
    }
    assert(x@.skip(off as int) =~= suffix@);
    true
}

/// A copy of `x[from..to]`.
pub fn slice_chars(x: &[char], from: usize, to: usize) -> (out: Vec<char>)
    requires
        from <= to <= x@.len(),
    ensures
        out@ == x@.subrange(from as int, to as int),
{
    let mut out: Vec<char> = Vec::new();
    let mut i = from;
    while i < to
        invariant
            from <= i <= to <= x@.len(),
            out@ == x@.subrange(from as int, i as int),
        decreases to - i,
    {
        out.push(x[i]);
        i = i + 1;
        assert(out@ =~= x@.subrange(from as int, i as int));
    }
    out
}

/// Whether `c` is an ASCII decimal digit.
pub open spec fn is_digit(c: char) -> bool {
    '0' <= c <= '9'
}

/// Whether every character of `s` is an ASCII decimal digit.
pub open spec fn all_digits(s: Seq<char>) -> bool {
    forall|i: int| 0 <= i < s.len() ==> is_digit(#[trigger] s[i])
}

/// The numeric value of a decimal digit.
pub open spec fn digit_value(c: char) -> nat {
    (c as int - '0' as int) as nat
}

/// The character for a decimal digit value.
pub open spec fn digit_char(d: nat) -> char {
    ((d + '0' as nat) as u32) as char
}

/// The number that a run of decimal digits denotes.
pub open spec fn digits_value(s: Seq<char>) -> nat
    decreases s.len(),
{
    if s.len() == 0 {
        0
    } else {
        digits_value(s.drop_last()) * 10 + digit_value(s.last())
    }
}

/// The shortest decimal text of `n`.
pub open spec fn nat_text(n: nat) -> Seq<char>
    decreases n,
{
    if n < 10 {
        seq![digit_char(n)]
    } else {
        nat_text(n / 10).push(digit_char(n % 10))
    }
}

/// The decimal text of `n`, with a leading `-` when negative.
pub open spec fn int_text(n: int) -> Seq<char> {
    if n < 0 {
        seq!['-'] + nat_text((-n) as nat)
    } else {
        nat_text(n as nat)
    }
}

/// What the standard unsigned 64-bit parser accepts: an optional `+`,
/// then one or more ASCII digits whose value fits.
pub open spec fn parse_u64_spec(s: Seq<char>) -> Option<u64> {
    let digits = if s.len() > 0 && s[0] == '+' { s.drop_first() } else { s };
    if digits.len() > 0 && all_digits(digits) && digits_value(digits) <= u64::MAX {
        Some(digits_value(digits) as u64)
    } else {
        None
    }
}

/// What the standard unsigned 32-bit parser accepts.
pub open spec fn parse_u32_spec(s: Seq<char>) -> Option<u32> {
    match parse_u64_spec(s) {
        Some(v) => if v <= u32::MAX {
            Some(v as u32)
        } else {
            None
        },
        None => None,
    }
}

/// What the standard signed 64-bit parser accepts: an optional sign, then
/// one or more ASCII digits whose signed value fits.
pub open spec fn parse_i64_spec(s: Seq<char>) -> Option<i64> {
    let negative = s.len() > 0 && s[0] == '-';
    let digits = if s.len() > 0 && (s[0] == '+' || s[0] == '-') {
        s.drop_first()
    } else {
        s
    };
    if digits.len() > 0 && all_digits(digits) {
        let v = if negative {
            -(digits_value(digits) as int)
        } else {
            digits_value(digits) as int
        };
        if i64::MIN <= v <= i64::MAX {
            Some(v as i64)
        } else {
            None
        }
    } else {
        None
    }
}

proof fn lemma_digits_value_monotone(s: Seq<char>, i: int)
    requires
        0 <= i <= s.len(),
    ensures
        digits_value(s.take(i)) <= digits_value(s),
    decreases s.len() - i,
{
    if i < s.len() {
        lemma_digits_value_monotone(s, i + 1);
        assert(s.take(i + 1).drop_last() == s.take(i));
    } else {
        assert(s.take(i) == s);
    }
}

/// The value of the decimal digits `digits`, or `None` when some character
/// is not a digit or the value exceeds `u64::MAX`.
fn digits_u64(digits: &[char]) -> (r: Option<u64>)
    ensures
        r == (if all_digits(digits@) && digits_value(digits@) <= u64::MAX {
            Some(digits_value(digits@) as u64)
        } else {
            None::<u64>
        }),
{
    let mut acc: u64 = 0;
    let mut i: usize = 0;
    while i < digits.len()
        invariant
            i <= digits@.len(),
            all_digits(digits@.take(i as int)),
            acc == digits_value(digits@.take(i as int)),
        decreases digits@.len() - i,
    {
        let c = digits[i];
        assert(digits@.take(i + 1).drop_last() == digits@.take(i as int));
        if !('0' <= c && c <= '9') {
            assert(!is_digit(digits@[i as int]));
            return None;
        }
        let d = ((c as u32) - ('0' as u32)) as u64;
        if acc > (u64::MAX - d) / 10 {
            proof {
                lemma_digits_value_monotone(digits@, i + 1);
            }
            return None;
        }
        acc = acc * 10 + d;
        i = i + 1;
        assert(all_digits(digits@.take(i as int)));
    }
    assert(digits@.take(i as int) == digits@);
    Some(acc)
}

/// Parses like the standard unsigned 64-bit parser.
pub fn parse_u64(s: &[char]) -> (r: Option<u64>)
    ensures
        r == parse_u64_spec(s@),
{
    if s.len() > 0 && s[0] == '+' {
        let rest = slice_chars(s, 1, s.len());
        assert(rest@ == s@.drop_first());
        if rest.len() == 0 {
            return None;
        }
        digits_u64(rest.as_slice())
    } else {
        if s.len() == 0 {
            return None;
        }
        digits_u64(s)
    }
}

/// Parses like the standard unsigned 32-bit parser.
pub fn parse_u32(s: &[char]) -> (r: Option<u32>)
    ensures
        r == parse_u32_spec(s@),
{
    match parse_u64(s) {
        Some(v) => if v <= 0xffff_ffff {
            Some(v as u32)
        } else {
            None
        },
        None => None,
    }
}

/// Parses like the standard signed 64-bit parser.
pub fn parse_i64(s: &[char]) -> (r: Option<i64>)
    ensures
        r == parse_i64_spec(s@),
{
    let signed = s.len() > 0 && (s[0] == '+' || s[0] == '-');
    let negative = s.len() > 0 && s[0] == '-';
    let digits = if signed {
        slice_chars(s, 1, s.len())
    } else {
        slice_chars(s, 0, s.len())
    };
    assert(signed ==> digits@ == s@.drop_first());
    assert(!signed ==> digits@ == s@);
    if digits.len() == 0 {
        return None;
    }
    match digits_u64(digits.as_slice()) {
        None => None,
        Some(v) => {
            if negative {
                if v <= 0x8000_0000_0000_0000u64 {
                    if v == 0x8000_0000_0000_0000u64 {
                        Some(i64::MIN)
                    } else {
                        Some(-(v as i64))
                    }
                } else {
                    None
                }
            } else {
                if v <= 0x7fff_ffff_ffff_ffffu64 {
                    Some(v as i64)
                } else {
                    None
                }
            }
        },
    }
}

proof fn lemma_nat_text_nonempty(n: nat)
    ensures
        nat_text(n).len() > 0,
    decreases n,
{
    if n >= 10 {
        lemma_nat_text_nonempty(n / 10);
    }
}

/// The decimal text of `n` is a run of digits that denotes `n`.
pub proof fn lemma_nat_text_value(n: nat)
    ensures
        nat_text(n).len() > 0,
        all_digits(nat_text(n)),
        digits_value(nat_text(n)) == n,
    decreases n,
{
    lemma_nat_text_nonempty(n);
    let s = nat_text(n);
    if n < 10 {
        assert(s =~= seq![digit_char(n)]);
        assert(s.drop_last() =~= Seq::<char>::empty());
        assert(digits_value(s.drop_last()) == 0);
        assert(digit_value(digit_char(n)) == n);
        assert(digits_value(s) == digits_value(s.drop_last()) * 10 + digit_value(s.last()));
    } else {
        lemma_nat_text_value(n / 10);
        assert(s.drop_last() =~= nat_text(n / 10));
        assert(s.last() == digit_char(n % 10));
        assert(digit_value(digit_char(n % 10)) == n % 10);
        assert(n == (n / 10) * 10 + n % 10) by (nonlinear_arith);
        assert(digits_value(s) == digits_value(s.drop_last()) * 10 + digit_value(s.last()));
        assert forall|i: int| 0 <= i < s.len() implies is_digit(#[trigger] s[i]) by {
            if i < s.len() - 1 {
                assert(s[i] == nat_text(n / 10)[i]);
            }
        }
    }
}

/// Leading zeros do not change the value of a run of digits.
pub proof fn lemma_leading_zeros_value(z: Seq<char>, t: Seq<char>)
    requires
        forall|i: int| 0 <= i < z.len() ==> #[trigger] z[i] == '0',
    ensures
        digits_value(z + t) == digits_value(t),
    decreases t.len(),
{
    if t.len() == 0 {
        lemma_zeros_value(z);
        assert(z + t =~= z);
    } else {
        lemma_leading_zeros_value(z, t.drop_last());
        assert((z + t).drop_last() =~= z + t.drop_last());
        assert((z + t).last() == t.last());
    }
}

/// A run of zeros denotes zero.
pub proof fn lemma_zeros_value(z: Seq<char>)
    requires
        forall|i: int| 0 <= i < z.len() ==> #[trigger] z[i] == '0',
    ensures
        digits_value(z) == 0,
    decreases z.len(),
{
    if z.len() > 0 {
        lemma_zeros_value(z.drop_last());
    }
}

fn push_u64_text(out: &mut Vec<char>, n: u64)
    ensures
        final(out)@ == old(out)@ + nat_text(n as nat),
    decreases n,
{
    if n >= 10 {
        push_u64_text(out, n / 10);
    }
    let d = (n % 10) as u8;
    let c = (d + 48) as char;
    out.push(c);
    proof {
        assert(d + 48 == (n % 10) as nat + '0' as nat);
        if n >= 10 {
            assert(nat_text(n as nat) == nat_text((n / 10) as nat).push(digit_char((n % 10) as nat)));
        } else {
            assert(nat_text(n as nat) == seq![digit_char(n as nat)]);
        }
    }
}

/// The decimal text of an unsigned integer.
pub fn u64_text(n: u64) -> (out: Vec<char>)
    ensures
        out@ == nat_text(n as nat),
{
    let mut out: Vec<char> = Vec::new();
    push_u64_text(&mut out, n);
    assert(out@ =~= nat_text(n as nat));
    out
}

/// The decimal text of a signed integer.
pub fn i64_text(n: i64) -> (out: Vec<char>)
    ensures
        out@ == int_text(n as int),
{
    let mut out: Vec<char> = Vec::new();
    if n < 0 {
        out.push('-');
        let magnitude: u64 = if n == i64::MIN {
            0x8000_0000_0000_0000u64
        } else {
            (-n) as u64
        };
        push_u64_text(&mut out, magnitude);
        assert(out@ =~= seq!['-'] + nat_text((-(n as int)) as nat));
    } else {
        push_u64_text(&mut out, n as u64);
        assert(out@ =~= nat_text(n as nat));
    }
    out
}

/// The lowercase hexadecimal digit for a value below sixteen.
pub open spec fn hex_char(d: nat) -> char {
    if d < 10 {
        digit_char(d)
    } else {
        ((d - 10 + 'a' as nat) as u32) as char
    }
}

/// The lowercase hexadecimal text of a byte run, two digits per byte.
pub open spec fn hex_text(bytes: Seq<u8>) -> Seq<char>
    decreases bytes.len(),
{
    if bytes.len() == 0 {
        seq![]
    } else {
        hex_text(bytes.drop_last()) + seq![
            hex_char((bytes.last() / 16) as nat),
            hex_char((bytes.last() % 16) as nat),
        ]
    }
}

/// Whether `c` is a lowercase hexadecimal digit.
pub open spec fn is_lower_hex(c: char) -> bool {
    ('0' <= c && c <= '9') || ('a' <= c && c <= 'f')
}

/// The hexadecimal text of a byte run has two lowercase hexadecimal
/// digits per byte.
pub proof fn lemma_hex_text_shape(bytes: Seq<u8>)
    ensures
        hex_text(bytes).len() == 2 * bytes.len(),
        forall|i: int| 0 <= i < hex_text(bytes).len() ==> is_lower_hex(#[trigger] hex_text(bytes)[i]),
    decreases bytes.len(),
{
    if bytes.len() > 0 {
        lemma_hex_text_shape(bytes.drop_last());
        let b = bytes.last();
        assert(b / 16 < 16 && b % 16 < 16);
        let hi = (b / 16) as nat;
        let lo = (b % 16) as nat;
        assert(is_lower_hex(hex_char(hi))) by {
            if hi >= 10 {
                assert(((hi - 10 + 'a' as nat) as u32) as char == hex_char(hi));
            }
        }
        assert(is_lower_hex(hex_char(lo))) by {
            if lo >= 10 {
                assert(((lo - 10 + 'a' as nat) as u32) as char == hex_char(lo));
            }
        }
        let prev = hex_text(bytes.drop_last());
        let t = hex_text(bytes);
        assert(t == prev + seq![hex_char(hi), hex_char(lo)]);
        assert forall|i: int| 0 <= i < t.len() implies is_lower_hex(#[trigger] t[i]) by {
            if i < prev.len() {
                assert(t[i] == prev[i]);
            }
        }
    }
}

fn hex_digit(d: u8) -> (c: char)
    requires
        d < 16,
    ensures
        c == hex_char(d as nat),
{
    if d < 10 {
        (d + 48) as char
    } else {
        (d - 10 + 97) as char
    }
}

/// Appends the lowercase hexadecimal text of `bytes` to `out`.
pub fn push_hex(out: &mut Vec<char>, bytes: &[u8])
    ensures
        final(out)@ == old(out)@ + hex_text(bytes@),
{
    let mut i: usize = 0;
    while i < bytes.len()
        invariant
            i <= bytes@.len(),
            out@ == old(out)@ + hex_text(bytes@.take(i as int)),
        decreases bytes@.len() - i,
    {
        let b = bytes[i];
        out.push(hex_digit(b / 16));
        out.push(hex_digit(b % 16));
        i = i + 1;
        assert(bytes@.take(i as int).drop_last() == bytes@.take((i - 1) as int));
        assert(out@ =~= old(out)@ + hex_text(bytes@.take(i as int)));
    }
    assert(bytes@.take(i as int) == bytes@);
}


/// The position of the first `c` in `s`, if any.
pub open spec fn first_index(s: Seq<char>, c: char) -> Option<int>
    decreases s.len(),
{
    if s.len() == 0 {
        None
    } else if s[0] == c {
        Some(0)
    } else {
        match first_index(s.drop_first(), c) {
            Some(i) => Some(i + 1),
            None => None,
        }
    }
}

proof fn lemma_first_index_found(s: Seq<char>, c: char, i: int)
    requires
        0 <= i < s.len(),
        s[i] == c,
        forall|j: int| 0 <= j < i ==> s[j] != c,
    ensures
        first_index(s, c) == Some(i),
    decreases i,
{
    if i > 0 {
        lemma_first_index_found(s.drop_first(), c, i - 1);
    }
}

proof fn lemma_first_index_absent(s: Seq<char>, c: char)
    requires
        forall|j: int| 0 <= j < s.len() ==> s[j] != c,
    ensures
        first_index(s, c) is None,
    decreases s.len(),
{
    if s.len() > 0 {
        lemma_first_index_absent(s.drop_first(), c);
    }
}

/// Facts about a found position: it is in range, holds `c`, and no earlier
/// position does.
pub proof fn lemma_first_index_facts(s: Seq<char>, c: char)
    ensures
        first_index(s, c) matches Some(i) ==> {
            &&& 0 <= i < s.len()
            &&& s[i] == c
            &&& forall|j: int| 0 <= j < i ==> s[j] != c
        },
        first_index(s, c) is None ==> forall|j: int| 0 <= j < s.len() ==> s[j] != c,
    decreases s.len(),
{
    if s.len() > 0 {
        lemma_first_index_facts(s.drop_first(), c);
        if s[0] != c {
            assert forall|j: int| 0 <= j < s.len() && first_index(s, c) is None implies s[j] != c by {
                if j > 0 {
                    assert(s.drop_first()[j - 1] == s[j]);
                }
            }
            if let Some(i) = first_index(s, c) {
                assert forall|j: int| 0 <= j < i implies s[j] != c by {
                    if j > 0 {
                        assert(s.drop_first()[j - 1] == s[j]);
                    }
                }
            }
        }
    }
}

/// The position of the first `c` in `x`, if any.
pub fn find_char(x: &[char], c: char) -> (r: Option<usize>)
    ensures
        r matches Some(i) ==> first_index(x@, c) == Some(i as int),
        r is None ==> first_index(x@, c) is None,
{
    let mut i: usize = 0;
    while i < x.len()
        invariant
            i <= x@.len(),
            forall|j: int| 0 <= j < i ==> x@[j] != c,
        decreases x@.len() - i,
    {
        if x[i] == c {
            proof {
                lemma_first_index_found(x@, c, i as int);
            }
            return Some(i);
        }
        i = i + 1;
    }
    proof {
        lemma_first_index_absent(x@, c);
    }
    None
}

/// The pieces of `s` between occurrences of `c`, as `str::split` yields
/// them: one more piece than there are separators, empty pieces kept.
pub open spec fn split_spec(s: Seq<char>, c: char) -> Seq<Seq<char>>
    decreases s.len(),
{
    if s.len() == 0 {
        seq![seq![]]
    } else {
        let prev = split_spec(s.drop_last(), c);
        if s.last() == c {
            prev.push(seq![])
        } else {
            prev.update(prev.len() - 1, prev.last().push(s.last()))
        }
    }
}

/// `split_spec` always yields at least one piece.
pub proof fn lemma_split_nonempty(s: Seq<char>, c: char)
    ensures
        split_spec(s, c).len() >= 1,
    decreases s.len(),
{
    if s.len() > 0 {
        lemma_split_nonempty(s.drop_last(), c);
    }
}

/// Whether two runs of runs hold the same characters piece by piece.
pub open spec fn pieces_match(v: Seq<Vec<char>>, s: Seq<Seq<char>>) -> bool {
    v.len() == s.len() && forall|i: int| 0 <= i < v.len() ==> #[trigger] v[i]@ == s[i]
}

/// The pieces of `x` between occurrences of `c`.
pub fn split_chars(x: &[char], c: char) -> (r: Vec<Vec<char>>)
    ensures
        pieces_match(r@, split_spec(x@, c)),
{
    let mut done: Vec<Vec<char>> = Vec::new();
    let mut cur: Vec<char> = Vec::new();
    let mut i: usize = 0;
    while i < x.len()
        invariant
            i <= x@.len(),
            pieces_match(done@.push(cur), split_spec(x@.take(i as int), c)),
        decreases x@.len() - i,
    {
        let ghost prev = split_spec(x@.take(i as int), c);
        assert(x@.take(i + 1).drop_last() == x@.take(i as int));
        assert(x@.take(i + 1).last() == x@[i as int]);
        proof {
            lemma_split_nonempty(x@.take(i as int), c);
        }
        if x[i] == c {
            let finished = cur;
            done.push(finished);
            cur = Vec::new();
            assert(pieces_match(done@.push(cur), prev.push(seq![])));
        } else {
            let ghost old_cur = cur@;
            let ghost before = done@.push(cur);
            assert(done@.push(cur)[done@.len() as int] == cur);
            assert(old_cur == prev[prev.len() - 1]);
            cur.push(x[i]);
            let ghost next = prev.update(prev.len() - 1, prev.last().push(x@[i as int]));
            assert(cur@ == old_cur.push(x@[i as int]));
            assert forall|k: int| 0 <= k < done@.push(cur).len() implies #[trigger] done@.push(cur)[k]@ == next[k] by {
                if k < done@.len() {
                    assert(done@.push(cur)[k] == done@[k]);
                    assert(before[k] == done@[k]);
                    assert(before[k]@ == prev[k]);
                }
            }
            assert(pieces_match(done@.push(cur), next));
        }
        i = i + 1;
    }
    assert(x@.take(i as int) == x@);
    done.push(cur);
    done
}


/// Whether `pat` occurs in `s` starting at position `i`.
pub open spec fn occurs_at(s: Seq<char>, pat: Seq<char>, i: int) -> bool {
    0 <= i && i + pat.len() <= s.len() && s.subrange(i, i + pat.len()) == pat
}

/// The first position at or after `from` where `pat` occurs in `s`.
pub open spec fn find_sub_from(s: Seq<char>, pat: Seq<char>, from: int) -> Option<int>
    decreases s.len() + 1 - from,
{
    if from < 0 || from + pat.len() > s.len() {
        None
    } else if occurs_at(s, pat, from) {
        Some(from)
    } else {
        find_sub_from(s, pat, from + 1)
    }
}

/// The first position where `pat` occurs in `s`.
pub open spec fn find_sub(s: Seq<char>, pat: Seq<char>) -> Option<int> {
    find_sub_from(s, pat, 0)
}

/// Whether `pat` occurs anywhere in `s`.
pub open spec fn contains_sub(s: Seq<char>, pat: Seq<char>) -> bool {
    find_sub(s, pat) is Some
}

fn occurs_at_exec(s: &[char], pat: &[char], i: usize) -> (r: bool)
    requires
        i + pat@.len() <= s@.len(),
    ensures
        r == occurs_at(s@, pat@, i as int),
{
    let mut j: usize = 0;
    while j < pat.len()
        invariant
            i + pat@.len() <= s@.len(),
            s@.len() == s.len(),
            j <= pat@.len(),
            forall|k: int| 0 <= k < j ==> s@[i + k] == pat@[k],
        decreases pat@.len() - j,
    {
        if s[i + j] != pat[j] {
            assert(s@.subrange(i as int, i + pat@.len())[j as int] != pat@[j as int]);
            return false;
        }
        j = j + 1;
    }
    assert(s@.subrange(i as int, i + pat@.len()) =~= pat@);
    true
}

/// The first position where `pat` occurs in `s`.
pub fn find_sub_exec(s: &[char], pat: &[char]) -> (r: Option<usize>)
    ensures
        r matches Some(i) ==> find_sub(s@, pat@) == Some(i as int),
        r is None ==> find_sub(s@, pat@) is None,
{
    if pat.len() > s.len() {
        return None;
    }
    let last = s.len() - pat.len();
    let mut i: usize = 0;
    while i <= last
        invariant
            last == s@.len() - pat@.len(),
            i <= last + 1,
            find_sub(s@, pat@) == find_sub_from(s@, pat@, i as int),
        decreases last + 1 - i,
    {
        if occurs_at_exec(s, pat, i) {
            return Some(i);
        }
        if i == last {
            assert(find_sub_from(s@, pat@, (i + 1) as int) is None);
            return None;
        }
        i = i + 1;
    }
    None
}

/// Facts about a found occurrence.
pub proof fn lemma_find_sub_facts(s: Seq<char>, pat: Seq<char>, from: int)
    ensures
        find_sub_from(s, pat, from) matches Some(i) ==> from <= i && occurs_at(s, pat, i),
    decreases s.len() + 1 - from,
{
    if !(from < 0 || from + pat.len() > s.len()) && !occurs_at(s, pat, from) {
        lemma_find_sub_facts(s, pat, from + 1);
    }
}


/// Lexicographic order of character runs, comparing characters by code
/// point; a proper prefix comes first. This is the order of Rust's `str`
/// comparison, since UTF-8 keeps code-point order byte by byte.
pub open spec fn text_lt(a: Seq<char>, b: Seq<char>) -> bool
    decreases a.len(),
{
    if a.len() == 0 {
        b.len() > 0
    } else if b.len() == 0 {
        false
    } else if a[0] != b[0] {
        a[0] < b[0]
    } else {
        text_lt(a.drop_first(), b.drop_first())
    }
}

/// `text_lt` is a strict total order.
pub proof fn lemma_text_lt_order(a: Seq<char>, b: Seq<char>, c: Seq<char>)
    ensures
        !text_lt(a, a),
        text_lt(a, b) ==> !text_lt(b, a),
        a != b ==> text_lt(a, b) || text_lt(b, a),
        text_lt(a, b) && text_lt(b, c) ==> text_lt(a, c),
    decreases a.len(),
{
    if a.len() > 0 && b.len() > 0 && c.len() > 0 {
        lemma_text_lt_order(a.drop_first(), b.drop_first(), c.drop_first());
    } else if a.len() > 0 && b.len() > 0 {
        lemma_text_lt_order(a.drop_first(), b.drop_first(), b.drop_first());
    } else if a.len() > 0 {
        lemma_text_lt_order(a.drop_first(), a.drop_first(), a.drop_first());
    }
    if a.len() > 0 && b.len() > 0 && a[0] == b[0] && a != b {
        assert(a.drop_first() != b.drop_first()) by {
            if a.drop_first() == b.drop_first() {
                assert(a =~= seq![a[0]] + a.drop_first());
                assert(b =~= seq![b[0]] + b.drop_first());
            }
        }
    }
    if a.len() == 0 && b.len() == 0 {
        assert(a =~= b);
    }
}

/// Whether `a` sorts before `b` under `text_lt`.
pub fn text_less(a: &[char], b: &[char]) -> (r: bool)
    ensures
        r == text_lt(a@, b@),
{
    let mut i: usize = 0;
    assert(a@.skip(0) =~= a@ && b@.skip(0) =~= b@);
    while i < a.len() && i < b.len() && a[i] == b[i]
        invariant
            i <= a@.len(),
            i <= b@.len(),
            text_lt(a@, b@) == text_lt(a@.skip(i as int), b@.skip(i as int)),
        decreases a@.len() - i,
    {
        assert(a@.skip(i as int).drop_first() =~= a@.skip(i + 1));
        assert(b@.skip(i as int).drop_first() =~= b@.skip(i + 1));
        i = i + 1;
    }
    if i >= a.len() {
        return i < b.len();
    }
    if i >= b.len() {
        return false;
    }
    a[i] < b[i]
}

/// Whether string `a` sorts before string `b`.
pub fn str_less(a: &str, b: &str) -> (r: bool)
    ensures
        r == text_lt(a@, b@),
{
    let x = chars_of(a);
    let y = chars_of(b);
    text_less(x.as_slice(), y.as_slice())
}

/// `view:generation`, the text that names a generation of a view.
pub open spec fn scoped_text(view: Seq<char>, generation: int) -> Seq<char> {
    view + seq![':'] + int_text(generation)
}

/// The text `view:generation`.
pub fn scoped_name(view: &str, generation: i64) -> (r: String)
    ensures
        r@ == scoped_text(view@, generation as int),
{
    let mut out = owned(view);
    push_char(&mut out, ':');
    let digits = i64_text(generation);
    push_chars(&mut out, digits.as_slice());
    out
}


/// `s` without `suffix`, when it ends with it.
pub open spec fn without_suffix(s: Seq<char>, suffix: Seq<char>) -> Option<Seq<char>> {
    if has_suffix(s, suffix) {
        Some(s.take(s.len() - suffix.len()))
    } else {
        None
    }
}

/// `s` without `prefix`, when it begins with it.
pub open spec fn without_prefix(s: Seq<char>, prefix: Seq<char>) -> Option<Seq<char>> {
    if has_prefix(s, prefix) {
        Some(s.skip(prefix.len() as int))
    } else {
        None
    }
}

/// The run `x` without `suffix`, when it ends with it.
pub fn strip_suffix(x: &[char], suffix: &str) -> (r: Option<Vec<char>>)
    ensures
        r is Some <==> without_suffix(x@, suffix@) is Some,
        r matches Some(v) ==> v@ == without_suffix(x@, suffix@)->0,
{
    let tail = chars_of(suffix);
    if ends_with(x, tail.as_slice()) {
        Some(slice_chars(x, 0, x.len() - tail.len()))
    } else {
        None
    }
}

/// The run `x` without `prefix`, when it begins with it.
pub fn strip_prefix(x: &[char], prefix: &str) -> (r: Option<Vec<char>>)
    ensures
        r is Some <==> without_prefix(x@, prefix@) is Some,
        r matches Some(v) ==> v@ == without_prefix(x@, prefix@)->0,
{
    let head = chars_of(prefix);
    if starts_with(x, head.as_slice()) {
        let v = slice_chars(x, head.len(), x.len());
        assert(v@ =~= x@.skip(head@.len() as int));
        Some(v)
    } else {
        None
    }
}

/// The last position of `c` in `s` below `n`.
pub open spec fn last_index_below(s: Seq<char>, c: char, n: int) -> Option<int>
    decreases n,
{
    if n <= 0 {
        None
    } else if s[n - 1] == c {
        Some(n - 1)
    } else {
        last_index_below(s, c, n - 1)
    }
}

/// The last position of `c` in `s`.
pub open spec fn last_index(s: Seq<char>, c: char) -> Option<int> {
    last_index_below(s, c, s.len() as int)
}

proof fn lemma_last_index_below(s: Seq<char>, c: char, n: int)
    requires
        0 <= n <= s.len(),
    ensures
        last_index_below(s, c, n) matches Some(i) ==> 0 <= i < n && s[i] == c,
    decreases n,
{
    if n > 0 {
        lemma_last_index_below(s, c, n - 1);
    }
}

/// The last position of `c` in `x`.
pub fn rfind_char(x: &[char], c: char) -> (r: Option<usize>)
    ensures
        r matches Some(i) ==> last_index(x@, c) == Some(i as int) && i < x@.len() && x@[i as int] == c,
        r is None ==> last_index(x@, c) is None,
{
    let mut i: usize = x.len();
    while i > 0
        invariant
            i <= x@.len(),
            last_index(x@, c) == last_index_below(x@, c, i as int),
        decreases i,
    {
        if x[i - 1] == c {
            return Some(i - 1);
        }
        i = i - 1;
    }
    None
}


/// The length of a text in UTF-8 bytes, as the standard `len` reports it.
pub open spec fn utf8_len(s: Seq<char>) -> usize {
    vstd::utf8::encode_utf8(s).len() as usize
}

/// The UTF-8 bytes of a text.
pub open spec fn utf8_bytes(s: Seq<char>) -> Seq<u8> {
    vstd::utf8::encode_utf8(s)
}

/// The eight big-endian bytes of `x`.
pub open spec fn be_u64(x: u64) -> Seq<u8> {
    seq![
        ((x >> 56u64) & 0xffu64) as u8,
        ((x >> 48u64) & 0xffu64) as u8,
        ((x >> 40u64) & 0xffu64) as u8,
        ((x >> 32u64) & 0xffu64) as u8,
        ((x >> 24u64) & 0xffu64) as u8,
        ((x >> 16u64) & 0xffu64) as u8,
        ((x >> 8u64) & 0xffu64) as u8,
        (x & 0xffu64) as u8,
    ]
}

/// Appends the big-endian bytes of `x`.
pub fn push_be_u64(out: &mut Vec<u8>, x: u64)
    ensures
        final(out)@ == old(out)@ + be_u64(x),
{
    out.push(((x >> 56u64) & 0xffu64) as u8);
    out.push(((x >> 48u64) & 0xffu64) as u8);
    out.push(((x >> 40u64) & 0xffu64) as u8);
    out.push(((x >> 32u64) & 0xffu64) as u8);
    out.push(((x >> 24u64) & 0xffu64) as u8);
    out.push(((x >> 16u64) & 0xffu64) as u8);
    out.push(((x >> 8u64) & 0xffu64) as u8);
    out.push((x & 0xffu64) as u8);
    assert(out@ =~= old(out)@ + be_u64(x));
}

/// The eight little-endian bytes of `x`.
pub open spec fn le_u64(x: u64) -> Seq<u8> {
    seq![
        (x & 0xffu64) as u8,
        ((x >> 8u64) & 0xffu64) as u8,
        ((x >> 16u64) & 0xffu64) as u8,
        ((x >> 24u64) & 0xffu64) as u8,
        ((x >> 32u64) & 0xffu64) as u8,
        ((x >> 40u64) & 0xffu64) as u8,
        ((x >> 48u64) & 0xffu64) as u8,
        ((x >> 56u64) & 0xffu64) as u8,
    ]
}

/// Appends the little-endian bytes of `x`.
pub fn push_le_u64(out: &mut Vec<u8>, x: u64)
    ensures
        final(out)@ == old(out)@ + le_u64(x),
{
    out.push((x & 0xffu64) as u8);
    out.push(((x >> 8u64) & 0xffu64) as u8);
    out.push(((x >> 16u64) & 0xffu64) as u8);
    out.push(((x >> 24u64) & 0xffu64) as u8);
    out.push(((x >> 32u64) & 0xffu64) as u8);
    out.push(((x >> 40u64) & 0xffu64) as u8);
    out.push(((x >> 48u64) & 0xffu64) as u8);
    out.push(((x >> 56u64) & 0xffu64) as u8);
    assert(out@ =~= old(out)@ + le_u64(x));
}

/// Appends a byte run.
pub fn push_bytes(out: &mut Vec<u8>, bytes: &[u8])
    ensures
        final(out)@ == old(out)@ + bytes@,
{
    let mut i: usize = 0;
    while i < bytes.len()
        invariant
            i <= bytes@.len(),
            out@ == old(out)@ + bytes@.take(i as int),
        decreases bytes@.len() - i,
    {
        out.push(bytes[i]);
        i = i + 1;
        assert(out@ =~= old(out)@ + bytes@.take(i as int));
    }
    assert(bytes@.take(i as int) =~= bytes@);
}

/// A text framed by its byte length: eight big-endian length bytes, then
/// the UTF-8 bytes.
pub open spec fn framed(s: Seq<char>) -> Seq<u8> {
    be_u64(utf8_len(s) as u64) + utf8_bytes(s)
}

/// Appends a text framed by its byte length.
pub fn push_framed(out: &mut Vec<u8>, s: &str)
    ensures
        final(out)@ == old(out)@ + framed(s@),
{
    push_be_u64(out, s.len() as u64);
    push_bytes(out, s.as_bytes());
    assert(out@ =~= old(out)@ + framed(s@));
}

} // verus!
