//! Decimal and hexadecimal numbers as text.

use vstd::prelude::*;
use vstd::slice::slice_subrange;
use vstd::string::StringExecFns;

use crate::text::chars_of;

verus! {

/// The decimal digit of value `d`.
pub open spec fn digit(d: int) -> char {
    (48 + d) as char
}

/// `n` in decimal, without leading zeros.
pub open spec fn decimal(n: nat) -> Seq<char>
    decreases n,
{
    if n < 10 {
        seq![digit(n as int)]
    } else {
        decimal(n / 10).push(digit((n % 10) as int))
    }
}

/// `n` in decimal, with a minus sign where it is negative.
pub open spec fn signed_decimal(n: int) -> Seq<char> {
    if n < 0 {
        seq!['-'] + decimal((-n) as nat)
    } else {
        decimal(n as nat)
    }
}

/// The last three decimal digits of `n`, with zeros in front where there are fewer.
pub open spec fn three_digits(n: nat) -> Seq<char> {
    seq![
        digit(((n / 100) % 10) as int),
        digit(((n / 10) % 10) as int),
        digit((n % 10) as int),
    ]
}

/// The lower-case hexadecimal digit of value `d`.
pub open spec fn hex_digit(d: int) -> char {
    if d < 10 {
        (48 + d) as char
    } else {
        (87 + d) as char
    }
}

/// The bytes in lower-case hexadecimal, two digits each.
pub open spec fn hex(bytes: Seq<u8>) -> Seq<char>
    decreases bytes.len(),
{
    if bytes.len() == 0 {
        Seq::empty()
    } else {
        hex(bytes.drop_last()) + seq![
            hex_digit((bytes.last() / 16) as int),
            hex_digit((bytes.last() % 16) as int),
        ]
    }
}

/// Why a text is no unsigned number of the range asked for.
#[derive(Clone, Copy, Debug, PartialEq, Eq, Structural)]
pub enum NumberError {
    /// There is no character at all.
    Empty,
    /// A character is no digit, or there are no digits behind a sign.
    InvalidDigit,
    /// The number is too large.
    TooLarge,
}

impl NumberError {
    /// What `message` says.
    pub open spec fn text(self) -> Seq<char> {
        match self {
            NumberError::Empty => "cannot parse integer from empty string"@,
            NumberError::InvalidDigit => "invalid digit found in string"@,
            NumberError::TooLarge => "number too large to fit in target type"@,
        }
    }

    /// The reason in words.
    pub fn message(self) -> (res: &'static str)
        ensures
            res@ == self.text(),
    {
        match self {
            NumberError::Empty => "cannot parse integer from empty string",
            NumberError::InvalidDigit => "invalid digit found in string",
            NumberError::TooLarge => "number too large to fit in target type",
        }
    }
}

/// Whether `c` is an ASCII digit.
pub open spec fn is_digit(c: char) -> bool {
    '0' <= c <= '9'
}

/// The value of an ASCII digit.
pub open spec fn digit_value(c: char) -> nat {
    (c as u32 - 48) as nat
}

/// One digit more, read behind the value `v`.
pub open spec fn digit_step(v: nat, c: char, max: nat) -> Result<nat, NumberError> {
    if !is_digit(c) {
        Err(NumberError::InvalidDigit)
    } else if v * 10 + digit_value(c) > max {
        Err(NumberError::TooLarge)
    } else {
        Ok(v * 10 + digit_value(c))
    }
}

/// The value of a row of digits, read from the left, up to `max`; the error is
/// that of the first character at which reading stops.
pub open spec fn digits_value(s: Seq<char>, max: nat) -> Result<nat, NumberError>
    decreases s.len(),
{
    if s.len() == 0 {
        Ok(0)
    } else {
        match digits_value(s.drop_last(), max) {
            Ok(v) => digit_step(v, s.last(), max),
            Err(e) => Err(e),
        }
    }
}

/// The unsigned number that `s` stands for: digits, with one plus sign in front
/// or none, of a value up to `max`.
pub open spec fn unsigned_value(s: Seq<char>, max: nat) -> Result<nat, NumberError> {
    if s.len() == 0 {
        Err(NumberError::Empty)
    } else if s == seq!['+'] {
        Err(NumberError::InvalidDigit)
    } else if s[0] == '+' {
        digits_value(s.skip(1), max)
    } else {
        digits_value(s, max)
    }
}

/// The character of a decimal digit.
fn digit_of(d: u8) -> (res: char)
    requires
        d < 10,
    ensures
        res == digit(d as int),
{
    (48u8 + d) as char
}

/// `n` in decimal.
pub fn decimal_of(n: u64) -> (res: String)
    ensures
        res@ == decimal(n as nat),
    decreases n,
{
    if n < 10 {
        let mut out = String::new();
        out.push(digit_of(n as u8));
        assert(out@ == decimal(n as nat));
        out
    } else {
        let mut out = decimal_of(n / 10);
        out.push(digit_of((n % 10) as u8));
        out
    }
}

/// `n` in decimal, with a minus sign where it is negative.
pub fn signed_decimal_of(n: i64) -> (res: String)
    ensures
        res@ == signed_decimal(n as int),
{
    if n < 0 {
        let mut out = String::new();
        out.push('-');
        let size: u64 = (-(n as i128)) as u64;
        out.append(decimal_of(size).as_str());
        assert(out@ == signed_decimal(n as int));
        out
    } else {
        decimal_of(n as u64)
    }
}

/// The last three decimal digits of `n`.
pub fn three_digits_of(n: u64) -> (res: String)
    ensures
        res@ == three_digits(n as nat),
{
    let mut out = String::new();
    out.push(digit_of(((n / 100) % 10) as u8));
    out.push(digit_of(((n / 10) % 10) as u8));
    out.push(digit_of((n % 10) as u8));
    assert(out@ == three_digits(n as nat));
    out
}

/// The character of a hexadecimal digit.
fn hex_digit_of(d: u8) -> (res: char)
    requires
        d < 16,
    ensures
        res == hex_digit(d as int),
{
    if d < 10 {
        (48u8 + d) as char
    } else {
        (87u8 + d) as char
    }
}

/// The bytes in lower-case hexadecimal.
pub fn hex_of(bytes: &[u8]) -> (res: String)
    ensures
        res@ == hex(bytes@),
{
    let mut out = String::new();
    let mut i: usize = 0;
    while i < bytes.len()
        invariant
            i <= bytes@.len(),
            out@ == hex(bytes@.take(i as int)),
        decreases bytes@.len() - i,
    {
        let b = bytes[i];
        out.push(hex_digit_of(b / 16));
        out.push(hex_digit_of(b % 16));
        assert(bytes@.take(i + 1).drop_last() == bytes@.take(i as int));
        assert(out@ == hex(bytes@.take(i + 1)));
        i = i + 1;
    }
    assert(bytes@.take(bytes@.len() as int) == bytes@);
    out
}

/// Reading a row of digits that goes on ends in an error where its front does.
pub proof fn lemma_digits_value_front(s: Seq<char>, n: int, max: nat)
    requires
        0 <= n <= s.len(),
        digits_value(s.take(n), max) is Err,
    ensures
        digits_value(s, max) == digits_value(s.take(n), max),
    decreases s.len() - n,
{
    if n < s.len() {
        assert(s.take(n + 1).drop_last() == s.take(n));
        lemma_digits_value_front(s, n + 1, max);
    } else {
        assert(s.take(n) == s);
    }
}

/// The value of a row of digits.
fn digits_of(s: &[char], max: u64) -> (res: Result<u64, NumberError>)
    ensures
        match res {
            Ok(v) => digits_value(s@, max as nat) == Ok::<nat, NumberError>(v as nat) && v <= max,
            Err(e) => digits_value(s@, max as nat) == Err::<nat, NumberError>(e),
        },
{
    let mut v: u64 = 0;
    let mut i: usize = 0;
    assert(s@.take(0) == Seq::<char>::empty());
    while i < s.len()
        invariant
            i <= s@.len(),
            v <= max,
            digits_value(s@.take(i as int), max as nat) == Ok::<nat, NumberError>(v as nat),
        decreases s@.len() - i,
    {
        let c = s[i];
        assert(s@.take(i + 1).drop_last() == s@.take(i as int));
        if !('0' <= c && c <= '9') {
            proof {
                lemma_digits_value_front(s@, i + 1, max as nat);
            }
            return Err(NumberError::InvalidDigit);
        }
        let next: u128 = v as u128 * 10 + (c as u8 - 48) as u128;
        if next > max as u128 {
            proof {
                lemma_digits_value_front(s@, i + 1, max as nat);
            }
            return Err(NumberError::TooLarge);
        }
        v = next as u64;
        i = i + 1;
    }
    assert(s@.take(s@.len() as int) == s@);
    Ok(v)
}

/// The unsigned number, up to `max`, that a text stands for.
pub fn unsigned_of(s: &[char], max: u64) -> (res: Result<u64, NumberError>)
    ensures
        match res {
            Ok(v) => unsigned_value(s@, max as nat) == Ok::<nat, NumberError>(v as nat) && v <= max,
            Err(e) => unsigned_value(s@, max as nat) == Err::<nat, NumberError>(e),
        },
{
    if s.len() == 0 {
        return Err(NumberError::Empty);
    }
    if s[0] == '+' {
        if s.len() == 1 {
            assert(s@ == seq!['+']);
            return Err(NumberError::InvalidDigit);
        }
        let rest = slice_subrange(s, 1, s.len());
        assert(rest@ == s@.skip(1));
        digits_of(rest, max)
    } else {
        digits_of(s, max)
    }
}

/// The unsigned number, up to `max`, that a string stands for.
pub fn unsigned_in(s: &str, max: u64) -> (res: Result<u64, NumberError>)
    ensures
        match res {
            Ok(v) => unsigned_value(s@, max as nat) == Ok::<nat, NumberError>(v as nat) && v <= max,
            Err(e) => unsigned_value(s@, max as nat) == Err::<nat, NumberError>(e),
        },
{
    let chars = chars_of(s);
    unsigned_of(chars.as_slice(), max)
}

/// What a row of digits is read as is in range.
pub proof fn lemma_digits_value_fits(s: Seq<char>, max: nat)
    ensures
        digits_value(s, max) matches Ok(v) ==> v <= max,
    decreases s.len(),
{
    if s.len() > 0 {
        lemma_digits_value_fits(s.drop_last(), max);
    }
}

/// Decimal text is digits only.
pub proof fn lemma_decimal_digits(n: nat)
    ensures
        decimal(n).len() > 0,
        forall|i: int| 0 <= i < decimal(n).len() ==> is_digit(#[trigger] decimal(n)[i]),
    decreases n,
{
    if n >= 10 {
        lemma_decimal_digits(n / 10);
    }
}

/// A number written in decimal is read back as itself, wherever it is in range.
pub proof fn law_decimal_is_read_back(n: nat, max: nat)
    requires
        n <= max,
    ensures
        unsigned_value(decimal(n), max) == Ok::<nat, NumberError>(n),
{
    lemma_digits_of_decimal(n, max);
    lemma_decimal_digits(n);
    assert(is_digit(decimal(n)[0]));
}

proof fn lemma_digits_of_decimal(n: nat, max: nat)
    requires
        n <= max,
    ensures
        digits_value(decimal(n), max) == Ok::<nat, NumberError>(n),
    decreases n,
{
    if n < 10 {
        let s = decimal(n);
        assert(s.drop_last() == Seq::<char>::empty());
        assert(digits_value(s.drop_last(), max) == Ok::<nat, NumberError>(0));
        assert(digit_value(s.last()) == n);
    } else {
        lemma_digits_of_decimal(n / 10, max);
        let s = decimal(n);
        assert(s.drop_last() == decimal(n / 10));
        assert(digit_value(s.last()) == n % 10);
    }
}

/// Ten to the power of `k`.
spec fn tens(k: nat) -> nat
    decreases k,
{
    if k == 0 {
        1
    } else {
        10 * tens((k - 1) as nat)
    }
}

proof fn lemma_decimal_len(n: nat, k: nat)
    requires
        k > 0,
        n < tens(k),
    ensures
        decimal(n).len() <= k,
    decreases n,
{
    if n >= 10 {
        if k == 1 {
            assert(tens(0) == 1);
        }
        lemma_decimal_len(n / 10, (k - 1) as nat);
    }
}

/// A number of 64 bits has at most 20 decimal digits.
pub proof fn lemma_decimal_is_short(n: nat)
    requires
        n <= u64::MAX,
    ensures
        decimal(n).len() <= 20,
{
    assert(n < tens(20)) by {
        reveal_with_fuel(tens, 21);
    }
    lemma_decimal_len(n, 20);
}

/// A hexadecimal digit is one of `0` to `9` for the values under ten, and one of `a` to `f` for
/// the rest.
pub proof fn law_hex_digits_are_these(d: int)
    requires
        0 <= d < 16,
    ensures
        d < 10 ==> hex_digit(d) as int == '0' as int + d,
        d >= 10 ==> hex_digit(d) as int == 'a' as int + (d - 10),
{
}

/// Each byte stands as two digits, the higher half first, in the place of the byte.
pub proof fn law_hex_has_two_digits_a_byte(bytes: Seq<u8>, i: int)
    requires
        0 <= i < bytes.len(),
    ensures
        hex(bytes).len() == 2 * bytes.len(),
        hex(bytes)[2 * i] == hex_digit(bytes[i] as int / 16),
        hex(bytes)[2 * i + 1] == hex_digit(bytes[i] as int % 16),
    decreases bytes.len(),
{
    let front = bytes.drop_last();
    if front.len() > 0 {
        law_hex_has_two_digits_a_byte(front, 0);
        if i < front.len() {
            law_hex_has_two_digits_a_byte(front, i);
        }
    } else {
        assert(hex(front).len() == 0);
    }
    assert(hex(front).len() == 2 * front.len());
    let last = bytes.last();
    assert(hex(bytes) == hex(front) + seq![
        hex_digit((last / 16) as int),
        hex_digit((last % 16) as int),
    ]);
    if i == front.len() {
        assert(bytes[i] == last);
    } else {
        assert(front[i] == bytes[i]);
    }
}

/// A sign in front and zeros in front change no number.
pub proof fn law_plus_changes_nothing(s: Seq<char>, max: nat)
    requires
        s.len() > 0,
        s[0] != '+',
    ensures
        unsigned_value(seq!['+'] + s, max) == unsigned_value(s, max),
{
    assert((seq!['+'] + s).skip(1) == s);
    assert((seq!['+'] + s)[1] == s[0]);
}

/// A number is read only off digits, and never beyond its limit.
pub proof fn law_only_digits_are_read(s: Seq<char>, max: nat)
    ensures
        digits_value(s, max) matches Ok(v) ==> v <= max || s.len() == 0,
        digits_value(s, max) is Ok ==> forall|i: int|
            0 <= i < s.len() ==> '0' <= #[trigger] s[i] <= '9',
        s.len() > 0 && !('0' <= s[0] <= '9') ==> digits_value(s, max)
            == Err::<nat, NumberError>(NumberError::InvalidDigit),
    decreases s.len(),
{
    if s.len() > 0 {
        let front = s.drop_last();
        law_only_digits_are_read(front, max);
        if digits_value(s, max) is Ok {
            assert forall|i: int| 0 <= i < s.len() implies '0' <= #[trigger] s[i] <= '9' by {
                if i < front.len() {
                    assert(front[i] == s[i]);
                }
            }
        }
        if front.len() > 0 {
            assert(front[0] == s[0]);
        }
    }
}

/// The reasons are told in words of their own.
pub proof fn law_number_errors_have_their_words()
    ensures
        (NumberError::Empty).text() == "cannot parse integer from empty string"@,
        (NumberError::InvalidDigit).text() == "invalid digit found in string"@,
        (NumberError::TooLarge).text() == "number too large to fit in target type"@,
{
}

/// A negative number is the number without its sign behind a minus sign.
pub proof fn law_signs_are_written(n: int)
    requires
        n > 0,
    ensures
        signed_decimal(n) == decimal(n as nat),
        signed_decimal(-n) == seq!['-'] + decimal(n as nat),
        signed_decimal(0) == decimal(0),
{
}

/// The last three digits of a number under a thousand are the number, with zeros in front where it
/// has fewer digits.
pub proof fn law_three_digits_are_the_number(n: nat)
    requires
        n < 1000,
    ensures
        n >= 100 ==> three_digits(n) == decimal(n),
        10 <= n < 100 ==> three_digits(n) == seq!['0'] + decimal(n),
        n < 10 ==> three_digits(n) == seq!['0', '0'] + decimal(n),
{
    reveal_with_fuel(decimal, 4);
    assert(digit(0) == '0');
    if n >= 100 {
        assert((n / 10) / 10 == n / 100);
        assert((n / 10) % 10 == (n / 10) % 10);
        assert(n / 100 < 10);
        assert(three_digits(n) =~= decimal(n));
    } else if n >= 10 {
        assert(three_digits(n) =~= seq!['0'] + decimal(n));
    } else {
        assert(three_digits(n) =~= seq!['0', '0'] + decimal(n));
    }
}

/// The decimal digits are the ten characters from `0` to `9`, by value, and a number is its digits
/// from the highest to the lowest.
pub proof fn law_decimal_is_by_digits(n: nat, d: nat)
    requires
        d < 10,
    ensures
        decimal(d) == seq![('0' as int + d) as char],
        n > 0 ==> decimal(10 * n + d) == decimal(n).push(('0' as int + d) as char),
{
    assert((10 * n + d) / 10 == n);
    assert((10 * n + d) % 10 == d);
}

} // verus!
