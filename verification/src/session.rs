//! The session cookie: a user id written in decimal.

use vstd::prelude::*;

verus! {

/// Name of the cookie that carries the session.
pub const COOKIE_USER_KEY: &'static str = "user";

/// `c` is one of the ten ASCII digits.
pub open spec fn is_digit(c: char) -> bool {
    48 <= c as u32 <= 57
}

/// The number that the digit `c` stands for.
pub open spec fn digit_value(c: char) -> int {
    (c as u32) as int - 48
}

/// The digit that stands for `d`, for `d` from 0 to 9.
pub open spec fn digit_char(d: int) -> char {
    if d == 0 {
        '0'
    } else if d == 1 {
        '1'
    } else if d == 2 {
        '2'
    } else if d == 3 {
        '3'
    } else if d == 4 {
        '4'
    } else if d == 5 {
        '5'
    } else if d == 6 {
        '6'
    } else if d == 7 {
        '7'
    } else if d == 8 {
        '8'
    } else {
        '9'
    }
}

/// The decimal digits of `n`, most significant first, without leading zeros.
pub open spec fn digits(n: nat) -> Seq<char>
    decreases n,
{
    if n < 10 {
        seq![digit_char(n as int)]
    } else {
        digits(n / 10).push(digit_char((n % 10) as int))
    }
}

/// The decimal numeral of `n`: a minus sign for a negative number, then its
/// digits.
pub open spec fn decimal(n: int) -> Seq<char> {
    if n < 0 {
        seq!['-'] + digits((-n) as nat)
    } else {
        digits(n as nat)
    }
}

/// Every character of `s` is a digit.
pub open spec fn all_digits(s: Seq<char>) -> bool {
    forall|i: int| 0 <= i < s.len() ==> is_digit(#[trigger] s[i])
}

/// The number that a sequence of digits denotes.
pub open spec fn digits_value(s: Seq<char>) -> nat
    decreases s.len(),
{
    if s.len() == 0 {
        0
    } else {
        (10 * digits_value(s.drop_last()) + digit_value(s.last())) as nat
    }
}

/// The `i32` that a numeral denotes: an optional sign, then at least one
/// digit and nothing else; none where the number does not fit.
pub open spec fn parsed(s: Seq<char>) -> Option<i32> {
    let signed = s.len() > 0 && (s[0] == '-' || s[0] == '+');
    let body = if signed { s.skip(1) } else { s };
    let magnitude = digits_value(body) as int;
    let value = if s.len() > 0 && s[0] == '-' { -magnitude } else { magnitude };
    if body.len() > 0 && all_digits(body) && i32::MIN <= value <= i32::MAX {
        Some(value as i32)
    } else {
        None
    }
}

/// The user id that a request's session cookie names, if it has one that
/// reads as a number.
pub open spec fn cookie_user(cookie: Option<Seq<char>>) -> Option<i32> {
    match cookie {
        Some(value) => parsed(value),
        None => None,
    }
}

/// The digits of a number are digits, at least one, and denote the number.
pub proof fn lemma_digits(n: nat)
    ensures
        digits(n).len() > 0,
        all_digits(digits(n)),
        digits_value(digits(n)) == n,
        is_digit(digits(n)[0]),
    decreases n,
{
    if n < 10 {
        let s = digits(n);
        assert(s.drop_last() =~= Seq::<char>::empty());
        assert(digits_value(s.drop_last()) == 0);
    } else {
        lemma_digits(n / 10);
        let s = digits(n);
        assert(s.drop_last() =~= digits(n / 10));
        assert(s.last() == digit_char((n % 10) as int));
        assert(s[0] == digits(n / 10)[0]);
    }
}

/// A session cookie written for a user id reads back as that id.
pub proof fn lemma_cookie_round_trip(user_id: i32)
    ensures
        parsed(decimal(user_id as int)) == Some(user_id),
        cookie_user(Some(decimal(user_id as int))) == Some(user_id),
{
    let s = decimal(user_id as int);
    if user_id < 0 {
        let n = (-(user_id as int)) as nat;
        lemma_digits(n);
        assert(s.skip(1) =~= digits(n));
        assert(s[0] == '-');
    } else {
        lemma_digits(user_id as nat);
    }
}

/// `str::parse::<i32>`, with its error dropped: the number that `s` denotes
/// in decimal, where `s` is an optional sign followed by digits alone and
/// the number fits.
#[verifier::external_body]
fn parse_i32(s: &str) -> (r: Option<i32>)
    ensures
        r == parsed(s@),
{
    s.parse::<i32>().ok()
}

/// `i32::to_string`: the decimal numeral of `n`.
#[verifier::external_body]
fn i32_to_string(n: i32) -> (s: String)
    ensures
        s@ == decimal(n as int),
{
    n.to_string()
}

/// The decimal numeral of `n`.
pub fn decimal_string(n: i32) -> (s: String)
    ensures
        s@ == decimal(n as int),
{
    i32_to_string(n)
}

/// The value of the session cookie of the user `user_id`.
pub fn session_cookie(user_id: i32) -> (value: String)
    ensures
        value@ == decimal(user_id as int),
        cookie_user(Some(value@)) == Some(user_id),
{
    proof {
        lemma_cookie_round_trip(user_id);
    }
    i32_to_string(user_id)
}

/// Reads the user id out of a request's session cookie.
pub fn session_user_id(cookie: Option<&str>) -> (id: Option<i32>)
    ensures
        id == cookie_user(
            match cookie {
                Some(v) => Some(v@),
                None => None,
            },
        ),
{
    match cookie {
        Some(value) => parse_i32(value),
        None => None,
    }
}

} // verus!
