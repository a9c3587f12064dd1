//! Decimal facts about integers, and integers written with Japanese numerals.

use vstd::prelude::*;

use crate::text::push_char;
use crate::workspaces::{japanese_text, spec_japanese_u32};

verus! {

/// The number of decimal digits of `m` (1 for 0).
pub open spec fn decimal_digits(m: nat) -> nat
    decreases m,
{
    if m < 10 {
        1
    } else {
        1 + decimal_digits(m / 10)
    }
}

/// The leading decimal digit of `m`.
pub open spec fn leading_digit(m: nat) -> nat
    decreases m,
{
    if m < 10 {
        m
    } else {
        leading_digit(m / 10)
    }
}

/// The magnitude of `n`.
pub open spec fn magnitude(n: int) -> nat {
    if n < 0 {
        (-n) as nat
    } else {
        n as nat
    }
}

/// The leading digit of `n`, with the sign of `n`.
pub open spec fn signed_leading_digit(n: int) -> int {
    if n < 0 {
        -(leading_digit(magnitude(n)) as int)
    } else {
        leading_digit(magnitude(n)) as int
    }
}

/// `10` to the power `e`.
pub open spec fn pow10(e: nat) -> nat
    decreases e,
{
    if e == 0 {
        1
    } else {
        10 * pow10((e - 1) as nat)
    }
}

pub proof fn lemma_leading_digit_bound(m: nat)
    ensures
        leading_digit(m) < 10,
        m > 0 ==> leading_digit(m) > 0,
        leading_digit(m) <= m,
    decreases m,
{
    if m >= 10 {
        lemma_leading_digit_bound(m / 10);
    }
}

pub proof fn lemma_decimal_digits_bound(m: nat)
    ensures
        1 <= decimal_digits(m),
        leading_digit(m) * pow10((decimal_digits(m) - 1) as nat) <= m,
        m < pow10(decimal_digits(m)),
    decreases m,
{
    if m >= 10 {
        lemma_decimal_digits_bound(m / 10);
        let e = (decimal_digits(m / 10) - 1) as nat;
        assert(pow10((decimal_digits(m) - 1) as nat) == 10 * pow10(e));
        let l = leading_digit(m);
        let p = pow10(e);
        assert(l * (10 * p) == 10 * (l * p)) by (nonlinear_arith);
        assert(l == leading_digit(m / 10));
        assert(l * p <= m / 10);
        assert(10 * ((m / 10) as int) <= m);
        assert(l * (10 * p) <= m);
        assert(leading_digit(m) * pow10((decimal_digits(m) - 1) as nat) == l * (10 * p));
        assert(m < 10 * (m / 10) + 10);
        assert(pow10(decimal_digits(m)) == 10 * pow10(decimal_digits(m / 10)));
    } else {
        assert(pow10(0) == 1);
        assert(pow10(1) == 10);
        assert(leading_digit(m) * pow10(0) == m) by (nonlinear_arith)
            requires
                pow10(0) == 1,
                leading_digit(m) == m,
        ;
    }
}

pub proof fn lemma_pow10_positive(e: nat)
    ensures
        pow10(e) >= 1,
    decreases e,
{
    if e > 0 {
        lemma_pow10_positive((e - 1) as nat);
    }
}

/// Taking away the leading digit's part of a number of two or more digits
/// leaves a smaller number.
pub proof fn lemma_leading_part(n: nat)
    requires
        n >= 10,
    ensures
        1 <= leading_digit(n) * pow10((decimal_digits(n) - 1) as nat) <= n,
{
    lemma_leading_digit_bound(n);
    lemma_decimal_digits_bound(n);
    let b = leading_digit(n);
    let m = pow10((decimal_digits(n) - 1) as nat);
    lemma_pow10_positive((decimal_digits(n) - 1) as nat);
    assert(b * m >= 1) by (nonlinear_arith)
        requires
            b >= 1,
            m >= 1,
    ;
}

proof fn lemma_digits_below_power(m: nat, k: nat)
    requires
        m < pow10(k),
        k >= 1,
    ensures
        decimal_digits(m) <= k,
    decreases k,
{
    if m >= 10 {
        assert(pow10(k) == 10 * pow10((k - 1) as nat));
        if k == 1 {
            assert(pow10(0) == 1);
        } else {
            lemma_digits_below_power(m / 10, (k - 1) as nat);
        }
    }
}

proof fn lemma_digits_of_u128(m: nat)
    requires
        m < 0x1_0000_0000_0000_0000_0000_0000_0000_0000,
    ensures
        decimal_digits(m) <= 39,
{
    reveal_with_fuel(pow10, 40);
    assert(pow10(39) == 1_000_000_000_000_000_000_000_000_000_000_000_000_000);
    lemma_digits_below_power(m, 39);
}

/// The number of decimal digits of `m`.
fn digits_u128(m: u128) -> (r: u32)
    ensures
        r == decimal_digits(m as nat),
{
    proof {
        lemma_digits_of_u128(m as nat);
    }
    let mut v = m;
    let mut count: u32 = 1;
    while v >= 10
        invariant
            count + decimal_digits(v as nat) == 1 + decimal_digits(m as nat),
            decimal_digits(m as nat) <= 39,
            count >= 1,
        decreases v,
    {
        v = v / 10;
        count = count + 1;
    }
    count
}

/// The leading decimal digit of `m`.
fn leading_u128(m: u128) -> (r: u128)
    ensures
        r == leading_digit(m as nat),
{
    let mut v = m;
    while v >= 10
        invariant
            leading_digit(v as nat) == leading_digit(m as nat),
        decreases v,
    {
        v = v / 10;
    }
    v
}

/// Decimal facts about an integer.
pub trait Utils: Sized {
    /// The value of `self` as a mathematical integer.
    spec fn value(self) -> int;

    /// The number of decimal digits of `self`, its sign left out.
    fn digit_count(self) -> (r: u32)
        ensures
            r == decimal_digits(magnitude(self.value())),
    ;

    /// The leading decimal digit of `self`, with its sign.
    fn first_digit(self) -> (r: Self)
        ensures
            r.value() == signed_leading_digit(self.value()),
    ;
}

impl Utils for u8 {
    open spec fn value(self) -> int {
        self as int
    }

    fn digit_count(self) -> (r: u32) {
        proof {
            lemma_decimal_digits_bound(self as nat);
        }
        digits_u128(self as u128)
    }

    fn first_digit(self) -> (r: Self) {
        proof {
            lemma_leading_digit_bound(self as nat);
        }
        leading_u128(self as u128) as u8
    }
}

impl Utils for u16 {
    open spec fn value(self) -> int {
        self as int
    }

    fn digit_count(self) -> (r: u32) {
        proof {
            lemma_decimal_digits_bound(self as nat);
        }
        digits_u128(self as u128)
    }

    fn first_digit(self) -> (r: Self) {
        proof {
            lemma_leading_digit_bound(self as nat);
        }
        leading_u128(self as u128) as u16
    }
}

impl Utils for u32 {
    open spec fn value(self) -> int {
        self as int
    }

    fn digit_count(self) -> (r: u32) {
        proof {
            lemma_decimal_digits_bound(self as nat);
        }
        digits_u128(self as u128)
    }

    fn first_digit(self) -> (r: Self) {
        proof {
            lemma_leading_digit_bound(self as nat);
        }
        leading_u128(self as u128) as u32
    }
}

impl Utils for u64 {
    open spec fn value(self) -> int {
        self as int
    }

    fn digit_count(self) -> (r: u32) {
        proof {
            lemma_decimal_digits_bound(self as nat);
        }
        digits_u128(self as u128)
    }

    fn first_digit(self) -> (r: Self) {
        proof {
            lemma_leading_digit_bound(self as nat);
        }
        leading_u128(self as u128) as u64
    }
}

impl Utils for usize {
    open spec fn value(self) -> int {
        self as int
    }

    fn digit_count(self) -> (r: u32) {
        proof {
            lemma_decimal_digits_bound(self as nat);
        }
        digits_u128(self as u128)
    }

    fn first_digit(self) -> (r: Self) {
        proof {
            lemma_leading_digit_bound(self as nat);
        }
        leading_u128(self as u128) as usize
    }
}

impl Utils for i8 {
    open spec fn value(self) -> int {
        self as int
    }

    fn digit_count(self) -> (r: u32) {
        let m: u128 = if self < 0 {
            (0 - (self as i128)) as u128
        } else {
            self as u128
        };
        proof {
            lemma_decimal_digits_bound(m as nat);
        }
        digits_u128(m)
    }

    fn first_digit(self) -> (r: Self) {
        let m: u128 = if self < 0 {
            (0 - (self as i128)) as u128
        } else {
            self as u128
        };
        proof {
            lemma_leading_digit_bound(m as nat);
        }
        let d = leading_u128(m) as i8;
        if self < 0 {
            0 - d
        } else {
            d
        }
    }
}

impl Utils for i16 {
    open spec fn value(self) -> int {
        self as int
    }

    fn digit_count(self) -> (r: u32) {
        let m: u128 = if self < 0 {
            (0 - (self as i128)) as u128
        } else {
            self as u128
        };
        proof {
            lemma_decimal_digits_bound(m as nat);
        }
        digits_u128(m)
    }

    fn first_digit(self) -> (r: Self) {
        let m: u128 = if self < 0 {
            (0 - (self as i128)) as u128
        } else {
            self as u128
        };
        proof {
            lemma_leading_digit_bound(m as nat);
        }
        let d = leading_u128(m) as i16;
        if self < 0 {
            0 - d
        } else {
            d
        }
    }
}

impl Utils for i32 {
    open spec fn value(self) -> int {
        self as int
    }

    fn digit_count(self) -> (r: u32) {
        let m: u128 = if self < 0 {
            (0 - (self as i128)) as u128
        } else {
            self as u128
        };
        proof {
            lemma_decimal_digits_bound(m as nat);
        }
        digits_u128(m)
    }

    fn first_digit(self) -> (r: Self) {
        let m: u128 = if self < 0 {
            (0 - (self as i128)) as u128
        } else {
            self as u128
        };
        proof {
            lemma_leading_digit_bound(m as nat);
        }
        let d = leading_u128(m) as i32;
        if self < 0 {
            0 - d
        } else {
            d
        }
    }
}

impl Utils for i64 {
    open spec fn value(self) -> int {
        self as int
    }

    fn digit_count(self) -> (r: u32) {
        let m: u128 = if self < 0 {
            (0 - (self as i128)) as u128
        } else {
            self as u128
        };
        proof {
            lemma_decimal_digits_bound(m as nat);
        }
        digits_u128(m)
    }

    fn first_digit(self) -> (r: Self) {
        let m: u128 = if self < 0 {
            (0 - (self as i128)) as u128
        } else {
            self as u128
        };
        proof {
            lemma_leading_digit_bound(m as nat);
        }
        let d = leading_u128(m) as i64;
        if self < 0 {
            0 - d
        } else {
            d
        }
    }
}

impl Utils for isize {
    open spec fn value(self) -> int {
        self as int
    }

    fn digit_count(self) -> (r: u32) {
        let m: u128 = if self < 0 {
            (0 - (self as i128)) as u128
        } else {
            self as u128
        };
        proof {
            lemma_decimal_digits_bound(m as nat);
        }
        digits_u128(m)
    }

    fn first_digit(self) -> (r: Self) {
        let m: u128 = if self < 0 {
            (0 - (self as i128)) as u128
        } else {
            self as u128
        };
        proof {
            lemma_leading_digit_bound(m as nat);
        }
        let d = leading_u128(m) as isize;
        if self < 0 {
            0 - d
        } else {
            d
        }
    }
}


/// The Japanese numeral that stands alone for `n`, for the numbers that have
/// one: the digits, ten, hundred, thousand, ten thousand and a hundred million.
pub open spec fn japanese_numeral(n: int) -> Option<char> {
    if n == 0 {
        Some('〇')
    } else if n == 1 {
        Some('一')
    } else if n == 2 {
        Some('二')
    } else if n == 3 {
        Some('三')
    } else if n == 4 {
        Some('四')
    } else if n == 5 {
        Some('五')
    } else if n == 6 {
        Some('六')
    } else if n == 7 {
        Some('七')
    } else if n == 8 {
        Some('八')
    } else if n == 9 {
        Some('九')
    } else if n == 10 {
        Some('十')
    } else if n == 100 {
        Some('百')
    } else if n == 1000 {
        Some('千')
    } else if n == 10000 {
        Some('万')
    } else if n == 100000000 {
        Some('億')
    } else {
        None
    }
}

/// The direct Japanese form of `n`, as a text.
pub open spec fn spec_japanese_direct(n: int) -> Option<Seq<char>> {
    match japanese_numeral(n) {
        Some(c) => Some(seq![c]),
        None => None,
    }
}

/// Law: each decimal digit has its own Japanese numeral, 〇 一 二 三 四 五
/// 六 七 八 九 from zero to nine; ten, a hundred, a thousand, ten thousand
/// and a hundred million are 十, 百, 千, 万 and 億; no other number has a
/// numeral of its own.
pub proof fn law_japanese_numerals(n: int)
    ensures
        0 <= n < 10 ==> spec_japanese_direct(n) == Some(
            seq![seq!['〇', '一', '二', '三', '四', '五', '六', '七', '八', '九'][n]],
        ),
        n == 10 ==> spec_japanese_direct(n) == Some(seq!['十']),
        n == 100 ==> spec_japanese_direct(n) == Some(seq!['百']),
        n == 1000 ==> spec_japanese_direct(n) == Some(seq!['千']),
        n == 10000 ==> spec_japanese_direct(n) == Some(seq!['万']),
        n == 100000000 ==> spec_japanese_direct(n) == Some(seq!['億']),
        spec_japanese_direct(n) is Some <==> (0 <= n <= 10 || n == 100 || n == 1000 || n == 10000
            || n == 100000000),
{
}

/// Whether `r` is the text that `s` specifies.
pub open spec fn direct_matches(r: Option<&'static str>, s: Option<Seq<char>>) -> bool {
    match s {
        Some(t) => r matches Some(x) && x@ == t,
        None => r is None,
    }
}

/// The direct Japanese form of `n`.
pub(crate) fn japanese_direct(n: i64) -> (r: Option<&'static str>)
    ensures
        direct_matches(r, spec_japanese_direct(n as int)),
{
    if n == 0 {
        let s = "〇";
        proof {
            reveal_strlit("〇");
            assert(s@ =~= seq!['〇']);
        }
        Some(s)
    } else if n == 1 {
        let s = "一";
        proof {
            reveal_strlit("一");
            assert(s@ =~= seq!['一']);
        }
        Some(s)
    } else if n == 2 {
        let s = "二";
        proof {
            reveal_strlit("二");
            assert(s@ =~= seq!['二']);
        }
        Some(s)
    } else if n == 3 {
        let s = "三";
        proof {
            reveal_strlit("三");
            assert(s@ =~= seq!['三']);
        }
        Some(s)
    } else if n == 4 {
        let s = "四";
        proof {
            reveal_strlit("四");
            assert(s@ =~= seq!['四']);
        }
        Some(s)
    } else if n == 5 {
        let s = "五";
        proof {
            reveal_strlit("五");
            assert(s@ =~= seq!['五']);
        }
        Some(s)
    } else if n == 6 {
        let s = "六";
        proof {
            reveal_strlit("六");
            assert(s@ =~= seq!['六']);
        }
        Some(s)
    } else if n == 7 {
        let s = "七";
        proof {
            reveal_strlit("七");
            assert(s@ =~= seq!['七']);
        }
        Some(s)
    } else if n == 8 {
        let s = "八";
        proof {
            reveal_strlit("八");
            assert(s@ =~= seq!['八']);
        }
        Some(s)
    } else if n == 9 {
        let s = "九";
        proof {
            reveal_strlit("九");
            assert(s@ =~= seq!['九']);
        }
        Some(s)
    } else if n == 10 {
        let s = "十";
        proof {
            reveal_strlit("十");
            assert(s@ =~= seq!['十']);
        }
        Some(s)
    } else if n == 100 {
        let s = "百";
        proof {
            reveal_strlit("百");
            assert(s@ =~= seq!['百']);
        }
        Some(s)
    } else if n == 1000 {
        let s = "千";
        proof {
            reveal_strlit("千");
            assert(s@ =~= seq!['千']);
        }
        Some(s)
    } else if n == 10000 {
        let s = "万";
        proof {
            reveal_strlit("万");
            assert(s@ =~= seq!['万']);
        }
        Some(s)
    } else if n == 100000000 {
        let s = "億";
        proof {
            reveal_strlit("億");
            assert(s@ =~= seq!['億']);
        }
        Some(s)
    } else {
        None
    }
}

/// Numbers written with Japanese numerals.
pub trait Japanese {
    /// The value written.
    spec fn number(&self) -> int;

    /// The Japanese text of the number, where it has one that
    /// [`Japanese::to_japanese`] can give.
    spec fn spec_to_japanese(&self) -> Option<Seq<char>>;

    /// The single numeral that stands for the number, if there is one.
    fn as_japanese_direct(&self) -> (r: Option<&'static str>)
        ensures
            direct_matches(r, spec_japanese_direct(self.number())),
    ;

    /// The number in Japanese numerals.
    fn to_japanese(&self) -> (r: String)
        requires
            self.spec_to_japanese() is Some,
        ensures
            self.spec_to_japanese() == Some(r@),
    ;
}

/// For `i32`, a number from zero on is written as the workspace strip
/// writes it ([`spec_japanese_u32`]): its leading digit, the numeral of its
/// power of ten, then the rest. A negative number has no text.
impl Japanese for i32 {
    open spec fn number(&self) -> int {
        *self as int
    }

    open spec fn spec_to_japanese(&self) -> Option<Seq<char>> {
        if *self >= 0 {
            spec_japanese_u32(*self as nat)
        } else {
            None
        }
    }

    fn as_japanese_direct(&self) -> (r: Option<&'static str>) {
        japanese_direct(*self as i64)
    }

    fn to_japanese(&self) -> (r: String) {
        match japanese_text(*self as u32) {
            Some(t) => t,
            None => String::new(),
        }
    }
}

/// The character of the decimal digit `d`.
pub open spec fn digit_char(d: nat) -> char {
    if d == 0 {
        '0'
    } else if d == 1 {
        '1'
    } else if d == 2 {
        '2'
    } else if d == 3 {
        '3'
    } else if d == 4 {
        '4'
    } else if d == 5 {
        '5'
    } else if d == 6 {
        '6'
    } else if d == 7 {
        '7'
    } else if d == 8 {
        '8'
    } else {
        '9'
    }
}

/// `n` written in decimal, without leading zeros.
pub open spec fn decimal_text(n: nat) -> Seq<char>
    decreases n,
{
    if n < 10 {
        seq![digit_char(n)]
    } else {
        decimal_text(n / 10).push(digit_char(n % 10))
    }
}

fn digit_char_exec(d: u64) -> (c: char)
    requires
        d < 10,
    ensures
        c == digit_char(d as nat),
{
    if d == 0 {
        '0'
    } else if d == 1 {
        '1'
    } else if d == 2 {
        '2'
    } else if d == 3 {
        '3'
    } else if d == 4 {
        '4'
    } else if d == 5 {
        '5'
    } else if d == 6 {
        '6'
    } else if d == 7 {
        '7'
    } else if d == 8 {
        '8'
    } else {
        '9'
    }
}

/// Appends `n` written in decimal to `s`.
pub fn push_decimal(s: &mut String, n: u64)
    ensures
        final(s)@ == old(s)@ + decimal_text(n as nat),
    decreases n,
{
    if n >= 10 {
        push_decimal(s, n / 10);
    }
    push_char(s, digit_char_exec(n % 10));
    assert(s@ =~= old(s)@ + decimal_text(n as nat));
}

} // verus!
