//! Parsing and formatting of the hour, minute and second fields of a countdown.
//!
//! A duration is a whole number of seconds. A field is text: an optional `+`
//! followed by at least one ASCII digit, read in base ten. Formatting splits a
//! duration into hours, minutes and seconds and writes each with at least two
//! digits.

use vstd::prelude::*;

verus! {

/// Seconds in one minute.
pub const SECONDS_PER_MINUTE: u64 = 60;

/// Seconds in one hour.
pub const SECONDS_PER_HOUR: u64 = 3600;

/// Why three fields do not give a duration.
#[derive(Clone, Copy, Debug, PartialEq, Eq, Structural)]
pub enum ParseError {
    /// The hours field is not a number that fits 64 bits.
    Hours,
    /// The hours field is fine, the minutes field is not.
    Minutes,
    /// Hours and minutes are fine, the seconds field is not.
    Seconds,
    /// Each field is a number, but the total does not fit 64 bits of seconds.
    TooLong,
}

/// Whether `c` is one of the ASCII digits `'0'..='9'`.
pub open spec fn is_digit(c: char) -> bool {
    '0' <= c && c <= '9'
}

/// The value of the ASCII digit `c`.
pub open spec fn digit_value(c: char) -> nat {
    (c as int - '0' as int) as nat
}

/// The ASCII digit for `d`, where `d < 10`.
pub open spec fn digit_char(d: nat) -> char {
    ('0' as int + d) as char
}

/// Whether every character of `s` is an ASCII digit.
pub open spec fn all_digits(s: Seq<char>) -> bool {
    forall|i: int| 0 <= i < s.len() ==> is_digit(#[trigger] s[i])
}

/// The number that a sequence of ASCII digits denotes in base ten.
pub open spec fn digits_value(s: Seq<char>) -> nat
    decreases s.len(),
{
    if s.len() == 0 {
        0
    } else {
        digits_value(s.drop_last()) * 10 + digit_value(s.last())
    }
}

/// A field without its optional leading `+`.
pub open spec fn field_digits(s: Seq<char>) -> Seq<char> {
    if s.len() > 0 && s[0] == '+' {
        s.subrange(1, s.len() as int)
    } else {
        s
    }
}

/// The number that a field denotes: `None` unless the field is an optional
/// `+` followed by one or more ASCII digits.
pub open spec fn field_value(s: Seq<char>) -> Option<nat> {
    let digits = field_digits(s);
    if digits.len() > 0 && all_digits(digits) {
        Some(digits_value(digits))
    } else {
        None
    }
}

/// The number that a field denotes, where it fits 64 bits.
pub open spec fn field_u64(s: Seq<char>) -> Option<u64> {
    match field_value(s) {
        Some(n) => if n <= u64::MAX {
            Some(n as u64)
        } else {
            None
        },
        None => None,
    }
}

/// The duration in seconds that three fields give, or the first reason why
/// they give none.
pub open spec fn parse_spec(hours: Seq<char>, minutes: Seq<char>, seconds: Seq<char>) -> Result<
    u64,
    ParseError,
> {
    match (field_u64(hours), field_u64(minutes), field_u64(seconds)) {
        (None, _, _) => Err(ParseError::Hours),
        (Some(_), None, _) => Err(ParseError::Minutes),
        (Some(_), Some(_), None) => Err(ParseError::Seconds),
        (Some(h), Some(m), Some(s)) => {
            let total = h * 3600 + m * 60 + s;
            if total <= u64::MAX {
                Ok(total as u64)
            } else {
                Err(ParseError::TooLong)
            }
        },
    }
}

/// The shortest base-ten writing of `n`.
pub open spec fn decimal(n: nat) -> Seq<char>
    decreases n,
{
    if n < 10 {
        seq![digit_char(n)]
    } else {
        decimal(n / 10).push(digit_char(n % 10))
    }
}

/// `n` in base ten with at least two digits: a leading zero below ten, and
/// every digit of a number of three digits or more.
pub open spec fn two_digits(n: nat) -> Seq<char> {
    if n < 10 {
        seq!['0', digit_char(n)]
    } else {
        decimal(n)
    }
}

/// The hours, minutes and seconds fields of a duration of `secs` seconds.
pub open spec fn format_spec(secs: nat) -> (Seq<char>, Seq<char>, Seq<char>) {
    (two_digits(secs / 3600), two_digits((secs % 3600) / 60), two_digits(secs % 60))
}

/// Whether three fields are written the way `format` writes them: each with
/// two digits or more and no spare leading zero, minutes and seconds below 60.
pub open spec fn is_canonical(hours: Seq<char>, minutes: Seq<char>, seconds: Seq<char>) -> bool {
    &&& field_value(hours) matches Some(h) && hours == two_digits(h)
    &&& field_value(minutes) matches Some(m) && m < 60 && minutes == two_digits(m)
    &&& field_value(seconds) matches Some(s) && s < 60 && seconds == two_digits(s)
}

/// A prefix of a digit sequence denotes no more than the whole sequence.
proof fn lemma_digits_value_prefix(s: Seq<char>, k: int)
    requires
        0 <= k <= s.len(),
    ensures
        digits_value(s.take(k)) <= digits_value(s),
    decreases s.len() - k,
{
    if k == s.len() {
        assert(s.take(k) == s);
    } else {
        lemma_digits_value_prefix(s, k + 1);
        assert(s.take(k + 1).drop_last() == s.take(k));
    }
}

/// Reads one field.
///
/// Returns the number when the field is an optional `+` followed by at
/// least one ASCII digit and the number fits 64 bits; `None` for every other
/// text, the empty one included.
pub fn parse_field(s: &str) -> (r: Option<u64>)
    ensures
        r == field_u64(s@),
{
    let mut plus = false;
    let mut any = false;
    let mut started = false;
    let mut acc: u64 = 0;
    for c in it: s.chars()
        invariant
            it.seq() == s@,
            started <==> it.index() > 0,
            plus ==> started && s@[0] == '+',
            !plus && started ==> s@[0] != '+',
            any <==> it.index() > (if plus { 1int } else { 0int }),
            all_digits(s@.subrange(if plus { 1int } else { 0int }, it.index())),
            acc == digits_value(s@.subrange(if plus { 1int } else { 0int }, it.index())),
    {
        let ghost k = it.index();
        let ghost start = if plus { 1int } else { 0int };
        let ghost digits = field_digits(s@);
        if !started && c == '+' {
            plus = true;
            started = true;
            assert(s@.subrange(1, 1) == s@.subrange(0, 0));
        } else if c >= '0' && c <= '9' {
            let d: u64 = (c as u32 - '0' as u32) as u64;
            let ghost before = s@.subrange(start, k);
            let ghost after = s@.subrange(start, k + 1);
            proof {
                assert(after.drop_last() == before);
                assert(after.last() == c);
                assert(digits_value(after) == digits_value(before) * 10 + d);
                assert(digits == s@.subrange(start, s@.len() as int));
                assert(digits.take(k + 1 - start) == after);
            }
            let next = match acc.checked_mul(10) {
                Some(tens) => tens.checked_add(d),
                None => None,
            };
            match next {
                Some(v) => {
                    acc = v;
                },
                None => {
                    proof {
                        if all_digits(digits) {
                            lemma_digits_value_prefix(digits, k + 1 - start);
                        }
                    }
                    return None;
                },
            }
            started = true;
            any = true;
        } else {
            proof {
                assert(digits == s@.subrange(start, s@.len() as int));
                assert(digits[k - start] == c);
                assert(!is_digit(digits[k - start]));
            }
            return None;
        }
    }
    proof {
        let start = if plus { 1int } else { 0int };
        assert(field_digits(s@) == s@.subrange(start, s@.len() as int));
    }
    if any {
        Some(acc)
    } else {
        None
    }
}

/// Reads the three fields of a duration: `hours * 3600 + minutes * 60 +
/// seconds` seconds.
///
/// Fails with the first field, in this order, that is not a number fitting
/// 64 bits, and with `TooLong` when the fields are numbers whose total does
/// not fit.
pub fn parse(hours: &str, minutes: &str, seconds: &str) -> (r: Result<u64, ParseError>)
    ensures
        r == parse_spec(hours@, minutes@, seconds@),
{
    let h = match parse_field(hours) {
        Some(h) => h,
        None => {
            return Err(ParseError::Hours);
        },
    };
    let m = match parse_field(minutes) {
        Some(m) => m,
        None => {
            return Err(ParseError::Minutes);
        },
    };
    let s = match parse_field(seconds) {
        Some(s) => s,
        None => {
            return Err(ParseError::Seconds);
        },
    };
    let total: u128 = h as u128 * 3600 + m as u128 * 60 + s as u128;
    if total <= u64::MAX as u128 {
        Ok(total as u64)
    } else {
        Err(ParseError::TooLong)
    }
}

/// The one-character text of the digit `d`.
fn digit_str(d: u64) -> (r: &'static str)
    requires
        d < 10,
    ensures
        r@ == seq![digit_char(d as nat)],
{
    proof {
        reveal_strlit("0");
        reveal_strlit("1");
        reveal_strlit("2");
        reveal_strlit("3");
        reveal_strlit("4");
        reveal_strlit("5");
        reveal_strlit("6");
        reveal_strlit("7");
        reveal_strlit("8");
        reveal_strlit("9");
    }
    let r = if d == 0 {
        "0"
    } else if d == 1 {
        "1"
    } else if d == 2 {
        "2"
    } else if d == 3 {
        "3"
    } else if d == 4 {
        "4"
    } else if d == 5 {
        "5"
    } else if d == 6 {
        "6"
    } else if d == 7 {
        "7"
    } else if d == 8 {
        "8"
    } else {
        "9"
    };
    assert(r@ =~= seq![digit_char(d as nat)]);
    r
}

/// Appends the shortest base-ten writing of `n` to `out`.
fn push_decimal(out: &mut String, n: u64)
    ensures
        final(out)@ == old(out)@ + decimal(n as nat),
    decreases n,
{
    if n >= 10 {
        push_decimal(out, n / 10);
    }
    out.append(digit_str(n % 10));
    assert(out@ =~= old(out)@ + decimal(n as nat));
}

/// Writes one field: `n` in base ten, with a leading zero below ten. A number
/// of three digits or more keeps all its digits.
pub fn format_field(n: u64) -> (r: String)
    ensures
        r@ == two_digits(n as nat),
{
    let mut out = String::new();
    if n < 10 {
        proof {
            reveal_strlit("0");
        }
        out.append("0");
    }
    push_decimal(&mut out, n);
    assert(out@ =~= two_digits(n as nat));
    out
}

/// Splits a duration of `secs` seconds into its hours, minutes and seconds
/// fields: whole hours, then minutes and seconds below 60, each written by
/// `format_field`.
pub fn format(secs: u64) -> (r: (String, String, String))
    ensures
        (r.0@, r.1@, r.2@) == format_spec(secs as nat),
{
    let hours = format_field(secs / SECONDS_PER_HOUR);
    let minutes = format_field((secs % SECONDS_PER_HOUR) / SECONDS_PER_MINUTE);
    let seconds = format_field(secs % SECONDS_PER_MINUTE);
    (hours, minutes, seconds)
}

/// The shortest writing of `n` has one digit exactly below ten and two
/// exactly from ten to 99, holds digits only, and denotes `n`.
pub proof fn lemma_decimal(n: nat)
    ensures
        decimal(n).len() >= 1,
        n < 10 <==> decimal(n).len() == 1,
        10 <= n < 100 <==> decimal(n).len() == 2,
        all_digits(decimal(n)),
        digits_value(decimal(n)) == n,
    decreases n,
{
    if n < 10 {
        assert(decimal(n).drop_last().len() == 0);
        assert(digits_value(decimal(n).drop_last()) == 0);
    } else {
        lemma_decimal(n / 10);
        assert(decimal(n).drop_last() == decimal(n / 10));
        assert(decimal(n).last() == digit_char(n % 10));
    }
}

/// A written field reads back as the number it was written from; it has two
/// digits exactly when the number is below 100, and more above.
pub proof fn lemma_two_digits(n: nat)
    ensures
        field_value(two_digits(n)) == Some(n),
        n < 100 <==> two_digits(n).len() == 2,
        n >= 100 <==> two_digits(n).len() >= 3,
{
    lemma_decimal(n);
    let t = two_digits(n);
    if n < 10 {
        assert(t.drop_last() == seq!['0']);
        assert(t.drop_last().drop_last().len() == 0);
        assert(digits_value(t.drop_last().drop_last()) == 0);
        assert(digits_value(t.drop_last()) == 0);
    } else {
        assert(is_digit(t[0]));
    }
    assert(field_digits(t) == t);
}

/// Formatting then parsing: the fields written for a duration are canonical
/// and read back as that duration.
pub proof fn lemma_format_parse(secs: u64)
    ensures
        ({
            let (hours, minutes, seconds) = format_spec(secs as nat);
            &&& parse_spec(hours, minutes, seconds) == Ok::<u64, ParseError>(secs)
            &&& is_canonical(hours, minutes, seconds)
        }),
{
    let n = secs as nat;
    lemma_two_digits(n / 3600);
    lemma_two_digits((n % 3600) / 60);
    lemma_two_digits(n % 60);
}

/// Hours, minutes below 60 and seconds below 60 are what dividing their
/// total brings back.
proof fn lemma_split_total(h: nat, m: nat, s: nat)
    requires
        m < 60,
        s < 60,
    ensures
        (h * 3600 + m * 60 + s) / 3600 == h,
        ((h * 3600 + m * 60 + s) % 3600) / 60 == m,
        (h * 3600 + m * 60 + s) % 60 == s,
{
}

/// Parsing then formatting: three fields that give a duration are written
/// back unchanged exactly when they are canonical. Fields such as `"5"`,
/// `"+05"` or a seconds field of `"75"` give a duration and come back
/// rewritten.
pub proof fn lemma_parse_format(hours: Seq<char>, minutes: Seq<char>, seconds: Seq<char>)
    requires
        parse_spec(hours, minutes, seconds) is Ok,
    ensures
        format_spec(parse_spec(hours, minutes, seconds)->Ok_0 as nat) == (hours, minutes, seconds)
            <==> is_canonical(hours, minutes, seconds),
{
    let secs = parse_spec(hours, minutes, seconds)->Ok_0 as nat;
    let h = field_value(hours)->Some_0;
    let m = field_value(minutes)->Some_0;
    let s = field_value(seconds)->Some_0;
    assert(secs == h * 3600 + m * 60 + s);
    lemma_two_digits(secs / 3600);
    lemma_two_digits((secs % 3600) / 60);
    lemma_two_digits(secs % 60);
    if is_canonical(hours, minutes, seconds) {
        lemma_split_total(h, m, s);
    }
}

} // verus!
