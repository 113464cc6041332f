//! The decimal notation of whole numbers.

use vstd::prelude::*;

use crate::text::chars_of;

verus! {

/// The character of a digit.
pub open spec fn digit_char(d: nat) -> char {
    (d + 0x30) as char
}

/// `c` is one of `0` to `9`.
pub open spec fn is_digit(c: char) -> bool {
    '0' <= c <= '9'
}

/// The value of a digit character.
pub open spec fn digit_value(c: char) -> nat {
    (c as nat - 0x30) as nat
}

/// The decimal notation of `n`: its digits, most significant first, without leading zeros.
pub open spec fn decimal(n: nat) -> Seq<char>
    decreases n,
{
    if n < 10 {
        seq![digit_char(n)]
    } else {
        decimal(n / 10).push(digit_char(n % 10))
    }
}

/// The number that a string of digits stands for.
pub open spec fn decimal_value(digits: Seq<char>) -> nat
    decreases digits.len(),
{
    if digits.len() == 0 {
        0
    } else {
        decimal_value(digits.drop_last()) * 10 + digit_value(digits.last())
    }
}

/// Nothing but digits.
pub open spec fn all_digits(s: Seq<char>) -> bool {
    forall|i: int| 0 <= i < s.len() ==> is_digit(#[trigger] s[i])
}

/// `s` without the plus sign it may begin with.
pub open spec fn unsigned_part(s: Seq<char>) -> Seq<char> {
    if s.len() > 0 && s[0] == '+' {
        s.drop_first()
    } else {
        s
    }
}

/// The number that `s` writes: an optional plus sign, then one or more digits whose value fits.
pub open spec fn read_u32(s: Seq<char>) -> Option<u32> {
    let digits = unsigned_part(s);
    if digits.len() > 0 && all_digits(digits) && decimal_value(digits) <= u32::MAX {
        Some(decimal_value(digits) as u32)
    } else {
        None
    }
}

/// Appends the decimal notation of `n` to `out`.
pub fn push_decimal(out: &mut String, n: u64)
    ensures
        final(out)@ == old(out)@ + decimal(n as nat),
    decreases n,
{
    if n >= 10 {
        push_decimal(out, n / 10);
    }
    let digit: u8 = (n % 10) as u8 + 0x30;
    out.push(digit as char);
    proof {
        assert(digit as char == digit_char((n % 10) as nat));
        if n >= 10 {
            assert(old(out)@ + decimal((n / 10) as nat).push(digit as char) =~= (old(out)@
                + decimal((n / 10) as nat)).push(digit as char));
        }
    }
}

/// The decimal notation of `n`.
pub fn decimal_text(n: u64) -> (res: String)
    ensures
        res@ == decimal(n as nat),
{
    let mut out: String = String::new();
    push_decimal(&mut out, n);
    assert(out@ =~= decimal(n as nat));
    out
}

/// A longer string of digits stands for no smaller a number.
proof fn lemma_value_grows(digits: Seq<char>, n: int)
    requires
        0 <= n <= digits.len(),
    ensures
        decimal_value(digits.take(n)) <= decimal_value(digits),
    decreases digits.len(),
{
    if n == digits.len() {
        assert(digits.take(n) =~= digits);
    } else {
        lemma_value_grows(digits.drop_last(), n);
        assert(digits.drop_last().take(n) =~= digits.take(n));
    }
}

/// Reads a 32-bit number in decimal notation.
pub fn parse_u32(s: &str) -> (res: Option<u32>)
    ensures
        res == read_u32(s@),
{
    let chars: Vec<char> = chars_of(s);
    let n: usize = chars.len();
    let from: usize = if n > 0 && chars[0] == '+' {
        1
    } else {
        0
    };
    let ghost digits = unsigned_part(s@);
    assert(digits =~= chars@.skip(from as int));
    if from == n {
        return None;
    }
    let mut value: u64 = 0;
    let mut i: usize = from;
    assert(digits.take(0).len() == 0);
    while i < n
        invariant
            from <= i <= n,
            n == chars@.len(),
            digits == chars@.skip(from as int),
            digits == unsigned_part(s@),
            value == decimal_value(digits.take(i - from)),
            value <= u32::MAX,
            all_digits(digits.take(i - from)),
        decreases n - i,
    {
        let c: char = chars[i];
        assert(digits[i - from] == c);
        if !('0' <= c && c <= '9') {
            assert(!is_digit(digits[i - from]));
            return None;
        }
        value = value * 10 + (c as u64 - 0x30);
        proof {
            let longer = digits.take(i - from + 1);
            assert(longer.drop_last() =~= digits.take(i - from));
            assert(longer.last() == c);
            assert forall|j: int| 0 <= j < longer.len() implies is_digit(#[trigger] longer[j]) by {
                if j < i - from {
                    assert(longer[j] == digits.take(i - from)[j]);
                }
            }
        }
        if value > 0xffff_ffff {
            proof {
                lemma_value_grows(digits, i - from + 1);
            }
            return None;
        }
        i += 1;
    }
    assert(digits.take(n - from) =~= digits);
    Some(value as u32)
}

/// The decimal notation of a number is a non-empty string of digits that stands for it.
pub proof fn decimal_stands_for_its_number(n: nat)
    ensures
        decimal(n).len() > 0,
        all_digits(decimal(n)),
        decimal_value(decimal(n)) == n,
    decreases n,
{
    if n < 10 {
        assert(decimal_value(decimal(n).drop_last()) == 0);
        assert(decimal(n).last() == digit_char(n));
    } else {
        decimal_stands_for_its_number(n / 10);
        assert(decimal(n).drop_last() =~= decimal(n / 10));
        assert(decimal(n).last() == digit_char(n % 10));
        assert forall|i: int| 0 <= i < decimal(n).len() implies is_digit(
            #[trigger] decimal(n)[i],
        ) by {
            if i < decimal(n / 10).len() {
                assert(decimal(n)[i] == decimal(n / 10)[i]);
            }
        }
    }
}

/// Reading the decimal notation of a 32-bit number gives the number back.
pub proof fn decimal_reads_back(n: u32)
    ensures
        read_u32(decimal(n as nat)) == Some(n),
{
    decimal_stands_for_its_number(n as nat);
    assert(is_digit(decimal(n as nat)[0]));
}

/// A digit stands for its number, and putting a digit behind a number that is not zero makes it
/// ten times as large and adds that digit.
pub proof fn decimal_grows_by_its_last_digit(n: nat, c: char)
    requires
        '0' <= c <= '9',
    ensures
        decimal((c as int - 48) as nat) == seq![c],
        n > 0 ==> decimal((n * 10 + (c as int - 48)) as nat) == decimal(n).push(c),
{
    let d: nat = (c as int - 48) as nat;
    assert(digit_char(d) == c);
    if n > 0 {
        let m: nat = (n * 10 + d) as nat;
        assert(m / 10 == n && m % 10 == d);
    }
}

/// Whether a text stands for a number is decided digit by digit: one digit stands for itself, and
/// one more digit behind a number makes it ten times as large and adds that digit, unless that
/// does not fit. Digits that do not fit still do not fit with more of them.
pub proof fn numbers_are_read_digit_by_digit(s: Seq<char>, c: char)
    requires
        '0' <= c <= '9',
        forall|i: int| 0 <= i < s.len() ==> '0' <= #[trigger] s[i] <= '9',
    ensures
        read_u32(seq![c]) == Some((c as int - 48) as u32),
        read_u32(s) matches Some(n) ==> (if n * 10 + (c as int - 48) <= 4294967295 {
            read_u32(s.push(c)) == Some((n * 10 + (c as int - 48)) as u32)
        } else {
            read_u32(s.push(c)) is None
        }),
        s.len() > 0 && read_u32(s) is None ==> read_u32(s.push(c)) is None,
{
    let one = seq![c];
    assert(one.drop_last().len() == 0);
    assert(decimal_value(one.drop_last()) == 0);
    assert(one.last() == c);
    assert(unsigned_part(one) == one);
    assert forall|i: int| 0 <= i < one.len() implies is_digit(#[trigger] one[i]) by {}
    let more = s.push(c);
    assert(more.drop_last() =~= s);
    assert(more.last() == c);
    assert forall|i: int| 0 <= i < s.len() implies is_digit(#[trigger] s[i]) by {}
    assert forall|i: int| 0 <= i < more.len() implies is_digit(#[trigger] more[i]) by {
        if i < s.len() {
            assert(more[i] == s[i]);
        }
    }
    if s.len() > 0 {
        assert(more[0] == s[0]);
    }
    assert(unsigned_part(s) == s);
    assert(unsigned_part(more) == more);
}

/// A plus sign before digits changes nothing. A text with any other character that is no digit
/// stands for no number, and neither does the empty text or a plus sign alone.
pub proof fn only_digits_are_read(s: Seq<char>, i: int)
    ensures
        read_u32(Seq::<char>::empty()) is None,
        read_u32(seq!['+']) is None,
        s.len() > 0 && s[0] != '+' ==> read_u32(seq!['+'] + s) == read_u32(s),
        0 <= i < s.len() && !('0' <= s[i] <= '9') && (i > 0 || s[i] != '+') ==> read_u32(s) is None,
{
    assert(unsigned_part(seq!['+']).len() == 0);
    if s.len() > 0 && s[0] != '+' {
        assert((seq!['+'] + s).drop_first() =~= s);
    }
    if 0 <= i < s.len() && !('0' <= s[i] <= '9') && (i > 0 || s[i] != '+') {
        let digits = unsigned_part(s);
        if s[0] == '+' {
            assert(digits[i - 1] == s[i]);
            assert(!is_digit(digits[i - 1]));
        } else {
            assert(!is_digit(digits[i]));
        }
    }
}

} // verus!
