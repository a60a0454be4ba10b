//! Numbers as text: decimal and hexadecimal digits, parsing, and file sizes.

use vstd::prelude::*;

verus! {

broadcast use vstd::string::group_string_axioms;

// ---------------------------------------------------------------------------
// Models
// ---------------------------------------------------------------------------

/// The character of a decimal digit.
pub open spec fn digit_char(d: int) -> char {
    (48 + d) as char
}

/// A natural number in decimal, without leading zeros.
pub open spec fn nat_text(n: nat) -> Seq<char>
    decreases n,
{
    if n < 10 {
        seq![digit_char(n as int)]
    } else {
        nat_text(n / 10).push(digit_char((n % 10) as int))
    }
}

/// An integer in decimal, a minus sign in front of a negative one.
pub open spec fn int_text(n: int) -> Seq<char> {
    if n < 0 {
        seq!['-'] + nat_text((-n) as nat)
    } else {
        nat_text(n as nat)
    }
}

/// `count` zeros.
pub open spec fn zeros(count: int) -> Seq<char> {
    Seq::new(
        if count < 0 {
            0
        } else {
            count as nat
        },
        |i: int| '0',
    )
}

/// An integer in decimal, filled with zeros between the sign and the digits up to `width`
/// characters.
pub open spec fn padded_text(n: int, width: int) -> Seq<char> {
    if n < 0 {
        let digits = nat_text((-n) as nat);
        seq!['-'] + zeros(width - 1 - digits.len()) + digits
    } else {
        let digits = nat_text(n as nat);
        zeros(width - digits.len()) + digits
    }
}

/// Whether a character is a decimal digit.
pub open spec fn is_digit(c: char) -> bool {
    '0' <= c <= '9'
}

/// The value of a decimal digit.
pub open spec fn digit_value(c: char) -> int {
    c as int - 48
}

/// Whether a text is made of one or more decimal digits.
pub open spec fn is_number(s: Seq<char>) -> bool {
    s.len() > 0 && forall|i: int| 0 <= i < s.len() ==> is_digit(#[trigger] s[i])
}

/// The number that decimal digits stand for.
pub open spec fn number_value(s: Seq<char>) -> int
    decreases s.len(),
{
    if s.len() == 0 {
        0
    } else {
        number_value(s.drop_last()) * 10 + digit_value(s.last())
    }
}

/// What an unsigned 32-bit number reads as: an optional plus sign, then digits.
pub open spec fn read_u32(s: Seq<char>) -> Option<int> {
    let body = if s.len() > 0 && s[0] == '+' {
        s.subrange(1, s.len() as int)
    } else {
        s
    };
    if is_number(body) && number_value(body) <= u32::MAX {
        Some(number_value(body))
    } else {
        None
    }
}

/// What a signed 32-bit number reads as: an optional sign, then digits.
pub open spec fn read_i32(s: Seq<char>) -> Option<int> {
    let signed = s.len() > 0 && (s[0] == '+' || s[0] == '-');
    let body = if signed {
        s.subrange(1, s.len() as int)
    } else {
        s
    };
    let value = if s.len() > 0 && s[0] == '-' {
        -number_value(body)
    } else {
        number_value(body)
    };
    if is_number(body) && i32::MIN <= value <= i32::MAX {
        Some(value)
    } else {
        None
    }
}

/// `a / b` rounded to the nearest integer, a tie to the even one.
pub open spec fn rounded(a: nat, b: nat) -> nat {
    let q = a / b;
    let r = a % b;
    if 2 * r < b || (2 * r == b && q % 2 == 0) {
        q
    } else {
        q + 1
    }
}

/// The distance between neighbouring 53-bit floating point numbers at `n`, at least one.
pub open spec fn float_unit(n: nat) -> nat
    decreases n,
{
    if n < 0x20_0000_0000_0000 {
        1
    } else {
        2 * float_unit(n / 2)
    }
}

/// The double precision number nearest to `n`, a tie to the even one.
pub open spec fn float_nearest(n: nat) -> nat {
    rounded(n, float_unit(n)) * float_unit(n)
}

/// `n` hundredths as a number with two decimal places.
pub open spec fn hundredths_text(n: nat) -> Seq<char> {
    nat_text(n / 100) + seq!['.', digit_char((n / 10 % 10) as int), digit_char((n % 10) as int)]
}

/// `n` tenths as a number with one decimal place.
pub open spec fn tenths_text(n: nat) -> Seq<char> {
    nat_text(n / 10) + seq!['.', digit_char((n % 10) as int)]
}

/// One KiB.
pub const KB: u64 = 1024;

/// One MiB.
pub const MB: u64 = 1048576;

/// One GiB.
pub const GB: u64 = 1073741824;

/// A number of bytes for display: in the largest unit of which there is at least one, two
/// decimal places for GB and MB, one for KB, and plain bytes below that.
pub open spec fn size_text(bytes: nat) -> Seq<char> {
    if bytes >= GB {
        hundredths_text(rounded(float_nearest(bytes) * 100, GB as nat)) + " GB"@
    } else if bytes >= MB {
        hundredths_text(rounded(bytes * 100, MB as nat)) + " MB"@
    } else if bytes >= KB {
        tenths_text(rounded(bytes * 10, KB as nat)) + " KB"@
    } else {
        nat_text(bytes) + " B"@
    }
}

/// The character of a hexadecimal digit, in lower case.
pub open spec fn hex_char(d: int) -> char {
    if d < 10 {
        (48 + d) as char
    } else {
        (87 + d) as char
    }
}

/// Bytes as pairs of hexadecimal digits.
pub open spec fn hex_text(bytes: Seq<u8>) -> Seq<char>
    decreases bytes.len(),
{
    if bytes.len() == 0 {
        seq![]
    } else {
        hex_text(bytes.drop_last()) + seq![
            hex_char(bytes.last() as int / 16),
            hex_char(bytes.last() as int % 16),
        ]
    }
}

// ---------------------------------------------------------------------------
// Laws
// ---------------------------------------------------------------------------

/// A natural number's decimal text is made of digits and reads back as the number.
pub proof fn nat_text_reads_back(n: nat)
    ensures
        is_number(nat_text(n)),
        number_value(nat_text(n)) == n,
    decreases n,
{
    if n < 10 {
        let s = nat_text(n);
        assert(s.drop_last() == Seq::<char>::empty());
        assert(number_value(s.drop_last()) == 0);
    } else {
        nat_text_reads_back(n / 10);
        let s = nat_text(n);
        let front = nat_text(n / 10);
        assert(s.drop_last() == front);
        assert forall|i: int| 0 <= i < s.len() implies is_digit(#[trigger] s[i]) by {
            if i < front.len() {
                assert(s[i] == front[i]);
            }
        }
    }
}

/// A signed 32-bit number written in decimal reads back as itself.
pub proof fn int_text_reads_back(n: int)
    requires
        i32::MIN <= n <= i32::MAX,
    ensures
        read_i32(int_text(n)) == Some(n),
{
    let s = int_text(n);
    if n < 0 {
        nat_text_reads_back((-n) as nat);
        assert(s.subrange(1, s.len() as int) == nat_text((-n) as nat));
    } else {
        nat_text_reads_back(n as nat);
        assert(is_digit(s[0]));
    }
}

/// An unsigned 32-bit number written in decimal reads back as itself.
pub proof fn nat_text_reads_back_u32(n: nat)
    requires
        n <= u32::MAX,
    ensures
        read_u32(nat_text(n)) == Some(n as int),
{
    nat_text_reads_back(n);
    assert(is_digit(nat_text(n)[0]));
}

/// Two digits stand for each byte.
pub proof fn hex_text_len(bytes: Seq<u8>)
    ensures
        hex_text(bytes).len() == 2 * bytes.len(),
    decreases bytes.len(),
{
    if bytes.len() > 0 {
        hex_text_len(bytes.drop_last());
    }
}

/// Different byte strings have different hexadecimal texts.
pub proof fn hex_text_injective(a: Seq<u8>, b: Seq<u8>)
    requires
        hex_text(a) == hex_text(b),
    ensures
        a == b,
    decreases a.len(),
{
    hex_text_len(a);
    hex_text_len(b);
    if a.len() > 0 {
        let ha = hex_text(a.drop_last());
        let hb = hex_text(b.drop_last());
        let n = 2 * (a.len() - 1);
        hex_text_len(a.drop_last());
        hex_text_len(b.drop_last());
        assert(hex_text(a).subrange(0, n) == ha);
        assert(hex_text(b).subrange(0, n) == hb);
        hex_text_injective(a.drop_last(), b.drop_last());
        let (x, y) = (a.last(), b.last());
        assert(hex_text(a)[n] == hex_char(x as int / 16));
        assert(hex_text(b)[n] == hex_char(y as int / 16));
        assert(hex_text(a)[n + 1] == hex_char(x as int % 16));
        assert(hex_text(b)[n + 1] == hex_char(y as int % 16));
        lemma_hex_char(x as int / 16, y as int / 16);
        lemma_hex_char(x as int % 16, y as int % 16);
        assert(x == y);
        assert(a == a.drop_last().push(x));
        assert(b == b.drop_last().push(y));
    } else {
        assert(b.len() == 0);
        assert(a == b);
    }
}

proof fn lemma_hex_char(d: int, e: int)
    requires
        0 <= d < 16,
        0 <= e < 16,
        hex_char(d) == hex_char(e),
    ensures
        d == e,
{
}

proof fn lemma_float_unit(n: nat)
    ensures
        float_unit(n) >= 1,
        n < 0x1_0000_0000_0000_0000 ==> float_unit(n) <= 0x1000,
        n < 0x20_0000_0000_0000 ==> float_unit(n) == 1,
    decreases n,
{
    reveal_with_fuel(float_unit, 13);
    lemma_float_unit_pos(n);
}

proof fn lemma_float_unit_pos(n: nat)
    ensures
        float_unit(n) >= 1,
    decreases n,
{
    if n >= 0x20_0000_0000_0000 {
        lemma_float_unit_pos(n / 2);
    }
}

proof fn lemma_rounded_bound(a: nat, b: nat)
    requires
        b > 0,
    ensures
        rounded(a, b) <= a / b + 1,
        rounded(a, b) * b <= a + b,
{
    let q = a / b;
    vstd::arithmetic::div_mod::lemma_fundamental_div_mod(a as int, b as int);
    assert(b * q <= a);
    assert((q + 1) * b == q * b + b) by (nonlinear_arith);
    assert(q * b == b * q) by (nonlinear_arith);
    assert(rounded(a, b) * b <= (q + 1) * b) by (nonlinear_arith)
        requires
            rounded(a, b) <= q + 1,
            b > 0,
    ;
}

// ---------------------------------------------------------------------------
// Executable conversions
// ---------------------------------------------------------------------------

fn digit(d: u8) -> (c: char)
    requires
        d < 10,
    ensures
        c == digit_char(d as int),
{
    (48 + d) as char
}

/// A number in decimal.
pub fn decimal(n: u64) -> (r: String)
    ensures
        r@ == nat_text(n as nat),
    decreases n,
{
    if n < 10 {
        let mut s = String::new();
        s.push(digit(n as u8));
        assert(s@ =~= seq![digit_char(n as int)]);
        s
    } else {
        let mut s = decimal(n / 10);
        s.push(digit((n % 10) as u8));
        s
    }
}

/// A count in decimal.
pub fn decimal_usize(n: usize) -> (r: String)
    ensures
        r@ == nat_text(n as nat),
{
    decimal(n as u64)
}

/// A signed number in decimal.
pub fn decimal_i32(n: i32) -> (r: String)
    ensures
        r@ == int_text(n as int),
{
    if n < 0 {
        let mut s = String::new();
        s.push('-');
        let digits = decimal((-(n as i64)) as u64);
        s.append(digits.as_str());
        assert(s@ =~= int_text(n as int));
        s
    } else {
        decimal(n as u64)
    }
}

/// A signed number in decimal, filled with zeros up to `width` characters.
pub fn padded(n: i64, width: usize) -> (r: String)
    ensures
        r@ == padded_text(n as int, width as int),
{
    let magnitude: u64 = if n < 0 {
        (-(n as i128)) as u64
    } else {
        n as u64
    };
    let digits = decimal(magnitude);
    let count = digits.as_str().unicode_len();
    let sign: usize = if n < 0 {
        1
    } else {
        0
    };
    let mut out = String::new();
    if n < 0 {
        out.push('-');
    }
    let ghost head = out@;
    let fill: usize = if width > sign && width - sign > count {
        width - sign - count
    } else {
        0
    };
    let mut i: usize = 0;
    while i < fill
        invariant
            i <= fill,
            out@ == head + zeros(i as int),
        decreases fill - i,
    {
        out.push('0');
        assert(head + zeros(i + 1) =~= (head + zeros(i as int)).push('0'));
        i += 1;
    }
    out.append(digits.as_str());
    proof {
        assert(zeros(fill as int) =~= zeros(width - sign - count));
        if n >= 0 {
            assert(head + zeros(fill as int) =~= zeros(fill as int));
        } else {
            assert(head =~= seq!['-']);
        }
    }
    out
}

/// Whether a character is a decimal digit.
pub fn is_decimal_digit(c: char) -> (r: bool)
    ensures
        r == is_digit(c),
{
    '0' <= c && c <= '9'
}

/// The number that `v[from..]` stands for, where it is made of one or more digits and is at
/// most `limit`.
fn read_digits(v: &Vec<char>, from: usize, limit: u64) -> (r: Option<u64>)
    requires
        from <= v.len(),
        limit <= 0xffff_ffff,
    ensures
        ({
            let body = v@.subrange(from as int, v.len() as int);
            r == if is_number(body) && number_value(body) <= limit {
                Some(number_value(body) as u64)
            } else {
                None
            }
        }),
{
    let ghost body = v@.subrange(from as int, v.len() as int);
    if from == v.len() {
        return None;
    }
    let mut value: u64 = 0;
    let mut i: usize = from;
    assert(body.take(0) == Seq::<char>::empty());
    while i < v.len()
        invariant
            from <= i <= v.len(),
            from < v.len(),
            limit <= 0xffff_ffff,
            body == v@.subrange(from as int, v.len() as int),
            forall|k: int| 0 <= k < i - from ==> is_digit(#[trigger] body[k]),
            value == number_value(body.take(i - from)),
            value <= limit,
        decreases v.len() - i,
    {
        let c = v[i];
        proof {
            assert(body[i - from] == c);
            assert(body.take(i - from + 1).drop_last() == body.take(i - from));
            assert(body.take(i - from + 1).last() == c);
        }
        if !is_decimal_digit(c) {
            return None;
        }
        let next: u64 = value * 10 + (c as u64 - 48);
        if next > limit {
            proof {
                if is_number(body) {
                    lemma_value_grows(body, i - from + 1);
                }
            }
            return None;
        }
        value = next;
        i += 1;
    }
    assert(body.take(body.len() as int) == body);
    Some(value)
}

/// Further digits never make a number smaller.
proof fn lemma_value_grows(s: Seq<char>, k: int)
    requires
        is_number(s),
        0 <= k <= s.len(),
    ensures
        0 <= number_value(s.take(k)) <= number_value(s),
    decreases s.len() - k,
{
    lemma_value_nonneg(s, k);
    if k < s.len() {
        lemma_value_grows(s, k + 1);
        lemma_value_nonneg(s, k);
        let t = s.take(k + 1);
        assert(t.drop_last() == s.take(k));
        assert(t.last() == s[k]);
        assert(is_digit(s[k]));
    } else {
        assert(s.take(k) == s);
    }
}

proof fn lemma_value_nonneg(s: Seq<char>, k: int)
    requires
        is_number(s),
        0 <= k <= s.len(),
    ensures
        number_value(s.take(k)) >= 0,
    decreases k,
{
    if k > 0 {
        lemma_value_nonneg(s, k - 1);
        let t = s.take(k);
        assert(t.drop_last() == s.take(k - 1));
        assert(t.last() == s[k - 1]);
        assert(is_digit(s[k - 1]));
    }
}

/// Reads an unsigned 32-bit number.
pub fn parse_u32(s: &str) -> (r: Option<u32>)
    ensures
        r is Some == read_u32(s@) is Some,
        r matches Some(n) ==> read_u32(s@) == Some(n as int),
{
    let v = crate::text::chars_of(s);
    let from: usize = if v.len() > 0 && v[0] == '+' {
        1
    } else {
        0
    };
    assert(from == 0 ==> v@.subrange(0, v.len() as int) == s@);
    proof {
        let body = v@.subrange(from as int, v.len() as int);
        if is_number(body) {
            lemma_value_grows(body, 0);
        }
    }
    match read_digits(&v, from, 0xffff_ffff) {
        Some(n) => Some(n as u32),
        None => None,
    }
}

/// Reads a signed 32-bit number.
pub fn parse_i32(s: &str) -> (r: Option<i32>)
    ensures
        r is Some == read_i32(s@) is Some,
        r matches Some(n) ==> read_i32(s@) == Some(n as int),
{
    let v = crate::text::chars_of(s);
    let negative = v.len() > 0 && v[0] == '-';
    let from: usize = if v.len() > 0 && (v[0] == '+' || v[0] == '-') {
        1
    } else {
        0
    };
    assert(from == 0 ==> v@.subrange(0, v.len() as int) == s@);
    let limit: u64 = if negative {
        0x8000_0000
    } else {
        0x7fff_ffff
    };
    proof {
        let body = v@.subrange(from as int, v.len() as int);
        if is_number(body) {
            lemma_value_grows(body, 0);
        }
    }
    match read_digits(&v, from, limit) {
        Some(n) => {
            if negative {
                Some((-(n as i64)) as i32)
            } else {
                Some(n as i32)
            }
        },
        None => None,
    }
}

/// `a / b` rounded to the nearest integer, a tie to the even one.
fn round_div(a: u128, b: u128) -> (r: u128)
    requires
        b > 0,
        a <= 0xffff_ffff_ffff_ffff_ffff_ffff,
        b <= 0xffff_ffff_ffff,
    ensures
        r == rounded(a as nat, b as nat),
{
    let q = a / b;
    let rest = a % b;
    if 2 * rest < b || (2 * rest == b && q % 2 == 0) {
        q
    } else {
        proof {
            lemma_rounded_bound(a as nat, b as nat);
            assert(a as int / b as int <= a as int) by (nonlinear_arith)
                requires
                    a >= 0,
                    b > 0,
            ;
        }
        q + 1
    }
}

fn unit_of(n: u64) -> (r: u64)
    ensures
        r == float_unit(n as nat),
        1 <= r <= 0x1000,
    decreases n,
{
    proof {
        lemma_float_unit(n as nat);
    }
    if n < 0x20_0000_0000_0000 {
        1
    } else {
        let half = unit_of(n / 2);
        2 * half
    }
}

/// A number of bytes for display.
pub fn format_size(bytes: u64) -> (r: String)
    ensures
        r@ == size_text(bytes as nat),
{
    if bytes >= GB {
        let unit: u64 = unit_of(bytes);
        let steps: u128 = round_div(bytes as u128, unit as u128);
        proof {
            lemma_rounded_bound(bytes as nat, unit as nat);
            assert(steps * unit <= bytes + unit);
        }
        let near: u128 = steps * unit as u128;
        let h: u128 = round_div(near * 100, GB as u128);
        proof {
            lemma_rounded_bound((near * 100) as nat, GB as nat);
        }
        let mut s = two_places(h as u64);
        s.append(" GB");
        s
    } else if bytes >= MB {
        let h: u128 = round_div(bytes as u128 * 100, MB as u128);
        proof {
            lemma_rounded_bound((bytes * 100) as nat, MB as nat);
        }
        let mut s = two_places(h as u64);
        s.append(" MB");
        s
    } else if bytes >= KB {
        let t: u128 = round_div(bytes as u128 * 10, KB as u128);
        proof {
            lemma_rounded_bound((bytes * 10) as nat, KB as nat);
        }
        let n = t as u64;
        let mut s = decimal(n / 10);
        s.push('.');
        s.push(digit((n % 10) as u8));
        assert(s@ =~= tenths_text(n as nat));
        s.append(" KB");
        s
    } else {
        let mut s = decimal(bytes);
        s.append(" B");
        s
    }
}

fn two_places(n: u64) -> (r: String)
    ensures
        r@ == hundredths_text(n as nat),
{
    let mut s = decimal(n / 100);
    s.push('.');
    s.push(digit((n / 10 % 10) as u8));
    s.push(digit((n % 10) as u8));
    assert(s@ =~= hundredths_text(n as nat));
    s
}

fn hex_digit(d: u8) -> (c: char)
    requires
        d < 16,
    ensures
        c == hex_char(d as int),
{
    if d < 10 {
        (48 + d) as char
    } else {
        (87 + d) as char
    }
}

/// Bytes as pairs of hexadecimal digits in lower case.
pub fn bytes_to_hex(bytes: &[u8]) -> (r: String)
    ensures
        r@ == hex_text(bytes@),
{
    let mut out = String::new();
    let mut i: usize = 0;
    assert(bytes@.take(0) == Seq::<u8>::empty());
    while i < bytes.len()
        invariant
            i <= bytes.len(),
            out@ == hex_text(bytes@.take(i as int)),
        decreases bytes.len() - i,
    {
        let b = bytes[i];
        let ghost front = out@;
        out.push(hex_digit(b / 16));
        out.push(hex_digit(b % 16));
        proof {
            let t = bytes@.take(i + 1);
            assert(t.drop_last() == bytes@.take(i as int));
            assert(t.last() == b);
            assert(out@ =~= front + seq![hex_char(b as int / 16), hex_char(b as int % 16)]);
        }
        i += 1;
    }
    assert(bytes@.take(bytes.len() as int) == bytes@);
    out
}

/// A number of one figure is that figure; behind a number, a further figure is one place more.
pub proof fn figures_by_places(n: nat, d: nat)
    requires
        d < 10,
    ensures
        nat_text(d).len() == 1,
        nat_text(d)[0] as int == '0' as int + d,
        n > 0 ==> nat_text(10 * n + d) == nat_text(n) + nat_text(d),
{
    if n > 0 {
        let m: nat = 10 * n + d;
        assert(m / 10 == n);
        assert(m % 10 == d);
        assert(nat_text(n).push(digit_char(d as int)) =~= nat_text(n) + nat_text(d));
    }
}

proof fn lemma_value_zeros(count: int, s: Seq<char>)
    requires
        is_number(s),
    ensures
        is_number(zeros(count) + s),
        number_value(zeros(count) + s) == number_value(s),
    decreases s.len(),
{
    let all = zeros(count) + s;
    assert forall|i: int| 0 <= i < all.len() implies is_digit(#[trigger] all[i]) by {
        if i >= zeros(count).len() {
            assert(is_digit(s[i - zeros(count).len()]));
        }
    }
    assert(all.drop_last() =~= zeros(count) + s.drop_last());
    assert(all.last() == s.last());
    if s.len() > 1 {
        assert forall|i: int| 0 <= i < s.drop_last().len() implies is_digit(
            #[trigger] s.drop_last()[i],
        ) by {
            assert(is_digit(s[i]));
        }
        lemma_value_zeros(count, s.drop_last());
    } else {
        assert(s.drop_last() =~= seq![]);
        assert(zeros(count) + s.drop_last() =~= zeros(count));
        lemma_zeros_are_nothing(count);
    }
}

proof fn lemma_zeros_are_nothing(count: int)
    ensures
        number_value(zeros(count)) == 0,
    decreases count,
{
    if count > 0 {
        assert(zeros(count).drop_last() =~= zeros(count - 1));
        lemma_zeros_are_nothing(count - 1);
    }
}

/// A padded number has the value of the number and at least the width asked for; one that is as
/// long without padding gets none, and one below zero has its sign in front.
pub proof fn padding_keeps_the_number(n: nat, width: int)
    ensures
        is_number(padded_text(n as int, width)),
        number_value(padded_text(n as int, width)) == n,
        padded_text(n as int, width).len() >= width,
        padded_text(n as int, width).len() > width ==> padded_text(n as int, width) == nat_text(n),
        n > 0 ==> padded_text(-n, width) == seq!['-'] + padded_text(n as int, width - 1),
{
    nat_text_reads_back(n);
    lemma_value_zeros(width - nat_text(n).len(), nat_text(n));
    if padded_text(n as int, width).len() > width {
        assert(zeros(width - nat_text(n).len()) =~= seq![]);
        assert(padded_text(n as int, width) =~= nat_text(n));
    }
    if n > 0 {
        assert(padded_text(-n, width) =~= seq!['-'] + padded_text(n as int, width - 1));
    }
}

/// A typed number is read with or without a plus sign, and leading zeros do not matter; what
/// holds anything but figures behind the sign is no number, nor is nothing at all.
pub proof fn typed_numbers(s: Seq<char>, zs: int)
    requires
        is_number(s),
    ensures
        read_u32(zeros(zs) + s) == read_u32(s),
        read_u32(seq!['+'] + s) == read_u32(s),
        read_i32(seq!['+'] + s) == read_i32(s),
        read_i32(zeros(zs) + s) == read_i32(s),
        read_u32(seq!['-'] + s) is None,
        read_i32(s) matches Some(v) ==> v > 0 ==> read_i32(seq!['-'] + s) == Some(-v),
        read_u32(Seq::<char>::empty()) is None,
        read_i32(Seq::<char>::empty()) is None,
{
    lemma_value_zeros(zs, s);
    lemma_value_nonneg_all(s);
    assert(is_digit(s[0]));
    assert((zeros(zs) + s)[0] == '0' || zeros(zs) + s =~= s);
    assert((seq!['+'] + s).subrange(1, (s.len() + 1) as int) =~= s);
    assert((seq!['-'] + s).subrange(1, (s.len() + 1) as int) =~= s);
    let neg = seq!['-'] + s;
    assert(!is_digit(neg[0]));
}

proof fn lemma_value_nonneg_all(s: Seq<char>)
    requires
        forall|i: int| 0 <= i < s.len() ==> is_digit(#[trigger] s[i]),
    ensures
        number_value(s) >= 0,
    decreases s.len(),
{
    if s.len() > 0 {
        assert forall|i: int| 0 <= i < s.drop_last().len() implies is_digit(
            #[trigger] s.drop_last()[i],
        ) by {
            assert(is_digit(s[i]));
        }
        assert(is_digit(s.last()));
        lemma_value_nonneg_all(s.drop_last());
    }
}

/// A text with anything but figures, a sign in front aside, is not read as a number.
pub proof fn other_texts_are_no_numbers(s: Seq<char>, i: int)
    requires
        0 <= i < s.len(),
        !('0' <= s[i] <= '9'),
        i > 0 || (s[0] != '+' && s[0] != '-') || s.len() == 1,
    ensures
        read_u32(s) is None,
        read_i32(s) is None,
{
    let tail = s.subrange(1, s.len() as int);
    assert(!is_digit(s[i]));
    assert(!is_number(s));
    if i > 0 {
        assert(!is_digit(tail[i - 1]));
        assert(!is_number(tail));
    }
}

/// Rounding gives the nearest whole number, and of two that are equally near the even one.
pub proof fn rounding_is_nearest(a: nat, b: nat)
    requires
        b > 0,
    ensures
        2 * (a - rounded(a, b) * b) <= b,
        2 * (rounded(a, b) * b - a) <= b,
        2 * (a - rounded(a, b) * b) == b || 2 * (rounded(a, b) * b - a) == b ==> rounded(a, b) % 2
            == 0,
{
    let q = a / b;
    let r = a % b;
    vstd::arithmetic::div_mod::lemma_fundamental_div_mod(a as int, b as int);
    assert(a == q * b + r) by (nonlinear_arith)
        requires
            a as int == b as int * (a as int / b as int) + a as int % b as int,
            q == a / b,
            r == a % b,
    ;
    assert(r < b) by (nonlinear_arith)
        requires
            r == a % b,
            b > 0,
    ;
    assert((q + 1) * b == q * b + b) by (nonlinear_arith);
}

/// A size is shown in the largest unit of which it makes at least one, in bytes as it is.
pub proof fn size_text_units(bytes: nat)
    ensures
        bytes < 1024 ==> size_text(bytes) == nat_text(bytes) + " B"@,
        1024 <= bytes < 1024 * 1024 ==> exists|t: nat|
            size_text(bytes) == #[trigger] tenths_text(t) + " KB"@ && 2 * (t * 1024 - bytes * 10)
                <= 1024 && 2 * (bytes * 10 - t * 1024) <= 1024,
        1024 * 1024 <= bytes < 1024 * 1024 * 1024 ==> exists|t: nat|
            size_text(bytes) == #[trigger] hundredths_text(t) + " MB"@ && 2 * (t * 1048576 - bytes
                * 100) <= 1048576 && 2 * (bytes * 100 - t * 1048576) <= 1048576,
        1024 * 1024 * 1024 <= bytes < 0x20_0000_0000_0000 ==> exists|t: nat|
            size_text(bytes) == #[trigger] hundredths_text(t) + " GB"@ && 2 * (t * 1073741824
                - bytes * 100) <= 1073741824 && 2 * (bytes * 100 - t * 1073741824) <= 1073741824,
        bytes >= 1024 * 1024 * 1024 ==> exists|t: nat|
            size_text(bytes) == #[trigger] hundredths_text(t) + " GB"@,
{
    if 1024 <= bytes < 1024 * 1024 {
        rounding_is_nearest(bytes * 10, 1024);
        assert(size_text(bytes) == tenths_text(rounded(bytes * 10, 1024)) + " KB"@);
    } else if 1024 * 1024 <= bytes < 1024 * 1024 * 1024 {
        rounding_is_nearest(bytes * 100, 1048576);
        assert(size_text(bytes) == hundredths_text(rounded(bytes * 100, 1048576)) + " MB"@);
    } else if bytes >= 1024 * 1024 * 1024 {
        if bytes < 0x20_0000_0000_0000 {
            assert(rounded(bytes, 1) == bytes) by {
                assert(bytes / 1 == bytes);
                assert(bytes % 1 == 0);
            }
            assert(float_unit(bytes) == 1);
            assert(float_nearest(bytes) == bytes * 1);
            rounding_is_nearest(bytes * 100, 1073741824);
        }
        assert(size_text(bytes) == hundredths_text(
            rounded(float_nearest(bytes) * 100, 1073741824),
        ) + " GB"@);
    }
}

/// A number of tenths or hundredths is the whole part, a point and the figures behind it.
pub proof fn fractions_by_places(n: nat, d: nat, e: nat)
    requires
        d < 10,
        e < 10,
    ensures
        tenths_text(10 * n + d) == nat_text(n) + seq!['.'] + nat_text(d),
        hundredths_text(100 * n + 10 * d + e) == nat_text(n) + seq!['.'] + nat_text(d) + nat_text(
            e,
        ),
{
    let a: nat = 10 * n + d;
    assert(a / 10 == n && a % 10 == d);
    assert(tenths_text(a) =~= nat_text(n) + seq!['.'] + nat_text(d));
    let b: nat = 100 * n + 10 * d + e;
    assert(b / 100 == n && b / 10 % 10 == d && b % 10 == e);
    assert(hundredths_text(b) =~= nat_text(n) + seq!['.'] + nat_text(d) + nat_text(e));
}

/// Bytes are written one behind the other, each as two figures of the base sixteen, the letters
/// small.
pub proof fn hex_text_by_bytes(a: Seq<u8>, b: Seq<u8>, h: int, l: int)
    requires
        0 <= h < 16,
        0 <= l < 16,
    ensures
        hex_text(a + b) == hex_text(a) + hex_text(b),
        hex_text(seq![(16 * h + l) as u8]) == seq![hex_char(h), hex_char(l)],
        h < 10 ==> hex_char(h) as int == '0' as int + h,
        h >= 10 ==> hex_char(h) as int == 'a' as int + (h - 10),
    decreases b.len(),
{
    if b.len() == 0 {
        assert(a + b =~= a);
        assert(hex_text(a) + hex_text(b) =~= hex_text(a));
    } else {
        assert((a + b).drop_last() =~= a + b.drop_last());
        hex_text_by_bytes(a, b.drop_last(), h, l);
        assert(hex_text(a + b) =~= hex_text(a) + hex_text(b));
    }
    let one = seq![(16 * h + l) as u8];
    assert(one.drop_last() =~= seq![]);
    assert(hex_text(one.drop_last()) =~= seq![]);
    assert(one.last() as int / 16 == h && one.last() as int % 16 == l);
    assert(hex_text(one) =~= seq![hex_char(h), hex_char(l)]);
}

proof fn lemma_unit(n: nat)
    ensures
        float_unit(n) >= 1,
        n < 0x20_0000_0000_0000 ==> float_unit(n) == 1,
        n >= 0x20_0000_0000_0000 ==> float_unit(n) == 2 * float_unit(n / 2),
        n < float_unit(n) * 0x20_0000_0000_0000,
        float_unit(n) > 1 ==> float_unit(n) * 0x10_0000_0000_0000 <= n,
    decreases n,
{
    if n >= 0x20_0000_0000_0000 {
        lemma_unit(n / 2);
        if float_unit(n / 2) == 1 {
            assert(n / 2 >= 0x10_0000_0000_0000);
        }
    }
}

/// The nearest number with a mantissa of 53 bits is off by at most half of its last place, and
/// numbers that fit are kept.
pub proof fn nearest_float_is_near(n: nat)
    ensures
        n < 0x20_0000_0000_0000 ==> float_nearest(n) == n,
        2 * (n - float_nearest(n)) <= float_unit(n),
        2 * (float_nearest(n) - n) <= float_unit(n),
        n < float_unit(n) * 0x20_0000_0000_0000,
        float_unit(n) > 1 ==> float_unit(n) * 0x10_0000_0000_0000 <= n,
{
    lemma_unit(n);
    rounding_is_nearest(n, float_unit(n));
    if n < 0x20_0000_0000_0000 {
        assert(n / 1 == n && n % 1 == 0);
        assert(rounded(n, 1) == n);
        assert(float_nearest(n) == n * 1);
    }
}

} // verus!
