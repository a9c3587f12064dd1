//! Integer parsing and printing as `str::parse::<i32>`, `u32::from_str_radix`
//! and the `{:#x}` format do it, specified over `Seq<char>`.

use vstd::prelude::*;

verus! {

/// The value of `c` as a digit in base `radix` (2 to 36), as `char::to_digit`
/// gives it.
pub open spec fn digit_value(c: char, radix: nat) -> Option<nat> {
    let d: int = if '0' <= c && c <= '9' {
        c as int - '0' as int
    } else if 'a' <= c && c <= 'z' {
        c as int - 'a' as int + 10
    } else if 'A' <= c && c <= 'Z' {
        c as int - 'A' as int + 10
    } else {
        -1
    };
    if 0 <= d && d < radix {
        Some(d as nat)
    } else {
        None
    }
}

/// Whether every character of `s` is a digit in base `radix`.
pub open spec fn all_digits(s: Seq<char>, radix: nat) -> bool {
    forall|i: int| 0 <= i < s.len() ==> (#[trigger] digit_value(s[i], radix)) is Some
}

/// The number that the digits `s` spell in base `radix`.
pub open spec fn radix_value(s: Seq<char>, radix: nat) -> nat
    decreases s.len(),
{
    if s.len() == 0 {
        0
    } else {
        radix_value(s.drop_last(), radix) * radix + match digit_value(s.last(), radix) {
            Some(d) => d,
            None => 0,
        }
    }
}

/// The digits of an unsigned number text: what follows an optional `+`.
pub open spec fn unsigned_digits(s: Seq<char>) -> Seq<char> {
    if s.len() > 0 && s[0] == '+' {
        s.skip(1)
    } else {
        s
    }
}

/// A nonempty run of digits whose value is at most `max`.
pub open spec fn bounded_digits(digits: Seq<char>, radix: nat, max: nat) -> Option<nat> {
    if digits.len() > 0 && all_digits(digits, radix) && radix_value(digits, radix) <= max {
        Some(radix_value(digits, radix))
    } else {
        None
    }
}

/// What `u32::from_str_radix(s, 16)` accepts and gives.
pub open spec fn spec_parse_hex_u32(s: Seq<char>) -> Option<u32> {
    match bounded_digits(unsigned_digits(s), 16, u32::MAX as nat) {
        Some(v) => Some(v as u32),
        None => None,
    }
}

/// What `str::parse::<i32>` accepts and gives.
pub open spec fn spec_parse_i32(s: Seq<char>) -> Option<i32> {
    if s.len() > 0 && s[0] == '-' {
        match bounded_digits(s.skip(1), 10, 0x8000_0000) {
            Some(v) => Some((0 - v) as i32),
            None => None,
        }
    } else {
        match bounded_digits(unsigned_digits(s), 10, i32::MAX as nat) {
            Some(v) => Some(v as i32),
            None => None,
        }
    }
}

proof fn lemma_radix_value_step(s: Seq<char>, k: int, radix: nat)
    requires
        0 <= k < s.len(),
    ensures
        radix_value(s.take(k + 1), radix) == radix_value(s.take(k), radix) * radix + match digit_value(s[k], radix) {
            Some(d) => d,
            None => 0,
        },
{
    assert(s.take(k + 1).drop_last() =~= s.take(k));
}

/// Longer digit runs never have a smaller value.
proof fn lemma_radix_value_monotone(s: Seq<char>, k: int, radix: nat)
    requires
        0 <= k <= s.len(),
        radix >= 1,
    ensures
        radix_value(s.take(k), radix) <= radix_value(s, radix),
    decreases s.len(),
{
    if k < s.len() {
        assert(s.drop_last().take(k) =~= s.take(k));
        lemma_radix_value_monotone(s.drop_last(), k, radix);
        let v = radix_value(s.drop_last(), radix);
        assert(v <= v * radix) by (nonlinear_arith)
            requires
                radix >= 1,
        ;
    } else {
        assert(s.take(k) =~= s);
    }
}

/// The digit run `s[start..]` read in base `radix` if it is nonempty, made of
/// digits only and at most `max`.
fn parse_bounded_digits(s: &[char], start: usize, radix: u64, max: u64) -> (r: Option<u64>)
    requires
        start <= s@.len(),
        2 <= radix <= 16,
        max <= 0x1_0000_0000,
    ensures
        r matches Some(v) ==> bounded_digits(s@.skip(start as int), radix as nat, max as nat)
            == Some(v as nat),
        r is None ==> bounded_digits(s@.skip(start as int), radix as nat, max as nat) is None,
{
    let ghost digits = s@.skip(start as int);
    if start == s.len() {
        return None;
    }
    let mut acc: u64 = 0;
    let mut i: usize = start;
    while i < s.len()
        invariant
            start <= i <= s@.len(),
            digits == s@.skip(start as int),
            2 <= radix <= 16,
            max <= 0x1_0000_0000,
            acc <= max,
            all_digits(digits.take(i - start), radix as nat),
            acc == radix_value(digits.take(i - start), radix as nat),
        decreases s.len() - i,
    {
        let c = s[i];
        let d: u64 = if '0' <= c && c <= '9' {
            (c as u64) - ('0' as u64)
        } else if 'a' <= c && c <= 'z' {
            (c as u64) - ('a' as u64) + 10
        } else if 'A' <= c && c <= 'Z' {
            (c as u64) - ('A' as u64) + 10
        } else {
            radix
        };
        if d >= radix {
            assert(digits[i - start] == c);
            assert(digit_value(digits[i - start], radix as nat) is None);
            return None;
        }
        proof {
            lemma_radix_value_step(digits, i - start, radix as nat);
            assert(digits[i - start] == c);
            assert(acc * radix <= 0x1_0000_0000 * 16) by (nonlinear_arith)
                requires
                    acc <= 0x1_0000_0000,
                    radix <= 16,
            ;
        }
        let next = acc * radix + d;
        if next > max {
            proof {
                assert(digits.take(i - start + 1).take(i - start + 1) =~= digits.take(i - start + 1));
                if all_digits(digits, radix as nat) {
                    lemma_radix_value_monotone(digits, i - start + 1, radix as nat);
                }
            }
            return None;
        }
        assert forall|j: int| 0 <= j < i - start + 1 implies (#[trigger] digit_value(
            digits.take(i - start + 1)[j],
            radix as nat,
        )) is Some by {
            if j < i - start {
                assert(digits.take(i - start + 1)[j] == digits.take(i - start)[j]);
            }
        }
        acc = next;
        i = i + 1;
    }
    assert(digits.take(i - start) =~= digits);
    Some(acc)
}

/// Parses a workspace or event number as `str::parse::<i32>` does.
pub fn parse_i32(s: &[char]) -> (r: Option<i32>)
    ensures
        r == spec_parse_i32(s@),
{
    if s.len() > 0 && s[0] == '-' {
        match parse_bounded_digits(s, 1, 10, 0x8000_0000) {
            Some(v) => Some((0i64 - v as i64) as i32),
            None => None,
        }
    } else {
        let start: usize = if s.len() > 0 && s[0] == '+' {
            1
        } else {
            0
        };
        assert(s@.skip(0) =~= s@);
        match parse_bounded_digits(s, start, 10, 0x7fff_ffff) {
            Some(v) => Some(v as i32),
            None => None,
        }
    }
}

/// Parses a hexadecimal number as `u32::from_str_radix(s, 16)` does.
pub fn parse_hex_u32(s: &[char]) -> (r: Option<u32>)
    ensures
        r == spec_parse_hex_u32(s@),
{
    let start: usize = if s.len() > 0 && s[0] == '+' {
        1
    } else {
        0
    };
    assert(s@.skip(0) =~= s@);
    match parse_bounded_digits(s, start, 16, 0xffff_ffff) {
        Some(v) => Some(v as u32),
        None => None,
    }
}

/// The lowercase hexadecimal digit of `d`.
pub open spec fn hex_digit(d: nat) -> char {
    if d == 0 { '0' } else if d == 1 { '1' } else if d == 2 { '2' } else if d == 3 { '3' }
    else if d == 4 { '4' } else if d == 5 { '5' } else if d == 6 { '6' } else if d == 7 { '7' }
    else if d == 8 { '8' } else if d == 9 { '9' } else if d == 10 { 'a' } else if d == 11 { 'b' }
    else if d == 12 { 'c' } else if d == 13 { 'd' } else if d == 14 { 'e' } else { 'f' }
}

/// `n` in lowercase hexadecimal, without leading zeros.
pub open spec fn hex_text(n: nat) -> Seq<char>
    decreases n,
{
    if n < 16 {
        seq![hex_digit(n)]
    } else {
        hex_text(n / 16).push(hex_digit(n % 16))
    }
}

fn hex_digit_exec(d: u32) -> (c: char)
    requires
        d < 16,
    ensures
        c == hex_digit(d as nat),
{
    if d == 0 { '0' } else if d == 1 { '1' } else if d == 2 { '2' } else if d == 3 { '3' }
    else if d == 4 { '4' } else if d == 5 { '5' } else if d == 6 { '6' } else if d == 7 { '7' }
    else if d == 8 { '8' } else if d == 9 { '9' } else if d == 10 { 'a' } else if d == 11 { 'b' }
    else if d == 12 { 'c' } else if d == 13 { 'd' } else if d == 14 { 'e' } else { 'f' }
}

/// Appends `n` in lowercase hexadecimal to `s`.
pub fn push_hex(s: &mut String, n: u32)
    ensures
        final(s)@ == old(s)@ + hex_text(n as nat),
    decreases n,
{
    if n >= 16 {
        push_hex(s, n / 16);
    }
    crate::text::push_char(s, hex_digit_exec(n % 16));
    assert(s@ =~= old(s)@ + hex_text(n as nat));
}

proof fn lemma_hex_digit_value(d: nat)
    requires
        d < 16,
    ensures
        digit_value(hex_digit(d), 16) == Some(d),
        hex_digit(d) != '+',
{
}

proof fn lemma_hex_text(n: nat)
    ensures
        hex_text(n).len() > 0,
        hex_text(n)[0] != '+',
        all_digits(hex_text(n), 16),
        radix_value(hex_text(n), 16) == n,
    decreases n,
{
    if n < 16 {
        lemma_hex_digit_value(n);
        assert(hex_text(n).drop_last() =~= Seq::<char>::empty());
        assert(radix_value(Seq::<char>::empty(), 16) == 0);
        assert(hex_text(n).last() == hex_digit(n));
        assert(radix_value(hex_text(n), 16) == radix_value(hex_text(n).drop_last(), 16) * 16 + n);
    } else {
        lemma_hex_text(n / 16);
        lemma_hex_digit_value(n % 16);
        let t = hex_text(n);
        assert(t.drop_last() == hex_text(n / 16));
        assert(t.last() == hex_digit(n % 16));
        assert(radix_value(t, 16) == radix_value(hex_text(n / 16), 16) * 16 + n % 16);
        assert(n == (n / 16) * 16 + n % 16) by (nonlinear_arith);
        assert forall|i: int| 0 <= i < t.len() implies (#[trigger] digit_value(t[i], 16)) is Some by {
            if i < t.len() - 1 {
                assert(t[i] == hex_text(n / 16)[i]);
            }
        }
    }
}

/// Reading the hexadecimal digits of a number gives the number back.
pub proof fn law_hex_roundtrip(n: u32)
    ensures
        spec_parse_hex_u32(hex_text(n as nat)) == Some(n),
{
    lemma_hex_text(n as nat);
}


/// The uppercase hexadecimal digit of `d`.
pub open spec fn upper_hex_digit(d: nat) -> char {
    if d < 10 {
        hex_digit(d)
    } else if d == 10 { 'A' } else if d == 11 { 'B' } else if d == 12 { 'C' } else if d == 13 { 'D' }
    else if d == 14 { 'E' } else { 'F' }
}

/// `n` in uppercase hexadecimal, without leading zeros, as `{:X}` writes it.
pub open spec fn upper_hex_text(n: nat) -> Seq<char>
    decreases n,
{
    if n < 16 {
        seq![upper_hex_digit(n)]
    } else {
        upper_hex_text(n / 16).push(upper_hex_digit(n % 16))
    }
}

/// `k` zeros, as a width such as `{:08x}` puts in front.
pub open spec fn zeros(k: nat) -> Seq<char> {
    Seq::new(k, |i: int| '0')
}

proof fn lemma_upper_hex_text(n: nat)
    ensures
        upper_hex_text(n).len() > 0,
        upper_hex_text(n)[0] != '+',
        all_digits(upper_hex_text(n), 16),
        radix_value(upper_hex_text(n), 16) == n,
    decreases n,
{
    let t = upper_hex_text(n);
    if n < 16 {
        assert(t.drop_last() =~= Seq::<char>::empty());
        assert(radix_value(Seq::<char>::empty(), 16) == 0);
        assert(t.last() == upper_hex_digit(n));
        assert(digit_value(upper_hex_digit(n), 16) == Some(n));
    } else {
        lemma_upper_hex_text(n / 16);
        assert(digit_value(upper_hex_digit(n % 16), 16) == Some(n % 16));
        assert(t.drop_last() == upper_hex_text(n / 16));
        assert(t.last() == upper_hex_digit(n % 16));
        assert(radix_value(t, 16) == radix_value(upper_hex_text(n / 16), 16) * 16 + n % 16);
        assert(n == (n / 16) * 16 + n % 16) by (nonlinear_arith);
        assert forall|i: int| 0 <= i < t.len() implies (#[trigger] digit_value(t[i], 16)) is Some by {
            if i < t.len() - 1 {
                assert(t[i] == upper_hex_text(n / 16)[i]);
            }
        }
    }
}

/// Zeros in front of digits change neither that they are digits nor their
/// value.
proof fn lemma_zeros_prefix(k: nat, t: Seq<char>)
    requires
        all_digits(t, 16),
    ensures
        all_digits(zeros(k) + t, 16),
        radix_value(zeros(k) + t, 16) == radix_value(t, 16),
    decreases t.len() + k,
{
    let s = zeros(k) + t;
    assert forall|i: int| 0 <= i < s.len() implies (#[trigger] digit_value(s[i], 16)) is Some by {
        if i >= k {
            assert(s[i] == t[i - k]);
        }
    }
    if t.len() > 0 {
        assert(s.drop_last() =~= zeros(k) + t.drop_last());
        assert(s.last() == t.last());
        assert(all_digits(t.drop_last(), 16)) by {
            assert forall|i: int| 0 <= i < t.drop_last().len() implies (#[trigger] digit_value(
                t.drop_last()[i],
                16,
            )) is Some by {
                assert(t.drop_last()[i] == t[i]);
            }
        }
        lemma_zeros_prefix(k, t.drop_last());
    } else if k > 0 {
        assert(s =~= zeros(k));
        assert(s.drop_last() =~= zeros((k - 1) as nat) + t);
        lemma_zeros_prefix((k - 1) as nat, t);
        assert(digit_value(s.last(), 16) == Some(0nat));
    } else {
        assert(s =~= t);
    }
}

/// Law: a window address written in hexadecimal reads back whatever the
/// case of its digits and however many zeros pad it: `{:x}`, `{:X}`,
/// `{:08x}` and `{:08X}` all give `n` back.
pub proof fn law_hex_forms_roundtrip(n: u32, k: nat)
    ensures
        spec_parse_hex_u32(zeros(k) + hex_text(n as nat)) == Some(n),
        spec_parse_hex_u32(zeros(k) + upper_hex_text(n as nat)) == Some(n),
{
    lemma_hex_text(n as nat);
    lemma_upper_hex_text(n as nat);
    lemma_zeros_prefix(k, hex_text(n as nat));
    lemma_zeros_prefix(k, upper_hex_text(n as nat));
    let a = zeros(k) + hex_text(n as nat);
    let b = zeros(k) + upper_hex_text(n as nat);
    if k > 0 {
        assert(a[0] == '0');
        assert(b[0] == '0');
    } else {
        assert(a =~= hex_text(n as nat));
        assert(b =~= upper_hex_text(n as nat));
    }
    assert(unsigned_digits(a) == a);
    assert(unsigned_digits(b) == b);
}

} // verus!
