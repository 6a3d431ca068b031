//! Tracking tokens in a document store.
//!
//! A query model keeps the position of the last event it processed (its
//! tracking token) in a document store, written as lowercase hexadecimal text
//! (`format!("{:x}", token)`) and read back with `i64::from_str_radix(_, 16)`.
//! A missing token reads as -1, so that processing restarts from the
//! beginning of the event stream.
use vstd::prelude::*;

verus! {

/// The lowercase hexadecimal digit for a value below 16.
pub open spec fn hex_digit(d: nat) -> char {
    if d < 10 {
        (48 + d) as char
    } else {
        (87 + d) as char
    }
}

/// The lowercase hexadecimal notation of a number, without leading zeros.
pub open spec fn hex_digits(n: nat) -> Seq<char>
    decreases n,
{
    if n < 16 {
        seq![hex_digit(n)]
    } else {
        hex_digits(n / 16).push(hex_digit(n % 16))
    }
}

/// The text that `{:x}` gives for a token: the hexadecimal notation of its
/// 64-bit two's complement bits, so a negative token reads as a number of
/// 2^63 or more.
pub open spec fn token_text(token: i64) -> Seq<char> {
    if token >= 0 {
        hex_digits(token as nat)
    } else {
        hex_digits((token + 0x1_0000_0000_0000_0000) as nat)
    }
}

/// The value of a hexadecimal digit of either case.
pub open spec fn hex_value(c: char) -> Option<nat> {
    if '0' <= c && c <= '9' {
        Some((c as nat - 48) as nat)
    } else if 'a' <= c && c <= 'f' {
        Some((c as nat - 87) as nat)
    } else if 'A' <= c && c <= 'F' {
        Some((c as nat - 55) as nat)
    } else {
        None
    }
}

/// The value of a sequence of hexadecimal digits (0 for none), if all of them
/// are digits.
pub open spec fn hex_digits_value(s: Seq<char>) -> Option<nat>
    decreases s.len(),
{
    if s.len() == 0 {
        Some(0)
    } else {
        match (hex_digits_value(s.drop_last()), hex_value(s.last())) {
            (Some(v), Some(d)) => Some(v * 16 + d),
            _ => None,
        }
    }
}

/// What `i64::from_str_radix(text, 16)` gives: an optional `+` or `-` sign
/// followed by at least one hexadecimal digit (of either case) and nothing
/// else, whose value fits in an `i64`.
pub open spec fn parse_token(text: Seq<char>) -> Option<i64> {
    let negative = text.len() > 0 && text[0] == '-';
    let digits = if text.len() > 0 && (text[0] == '-' || text[0] == '+') {
        text.drop_first()
    } else {
        text
    };
    if digits.len() == 0 {
        None
    } else {
        match hex_digits_value(digits) {
            Some(v) => {
                let x: int = if negative {
                    -v
                } else {
                    v as int
                };
                if i64::MIN <= x <= i64::MAX {
                    Some(x as i64)
                } else {
                    None
                }
            },
            None => None,
        }
    }
}

/// The one-character text of a digit below 16: lowercase hexadecimal, which
/// for a digit below 10 is also its decimal digit.
pub(crate) fn hex_digit_text(d: u64) -> (r: &'static str)
    requires
        d < 16,
    ensures
        r@ == seq![hex_digit(d as nat)],
{
    proof {
        reveal_strlit("0");
        reveal_strlit("1");
        reveal_strlit("2");
        reveal_strlit("3");
        reveal_strlit("4");
        reveal_strlit("5");
        reveal_strlit("6");
        reveal_strlit("7");
        reveal_strlit("8");
        reveal_strlit("9");
        reveal_strlit("a");
        reveal_strlit("b");
        reveal_strlit("c");
        reveal_strlit("d");
        reveal_strlit("e");
        reveal_strlit("f");
    }
    let r = if d == 0 {
        "0"
    } else if d == 1 {
        "1"
    } else if d == 2 {
        "2"
    } else if d == 3 {
        "3"
    } else if d == 4 {
        "4"
    } else if d == 5 {
        "5"
    } else if d == 6 {
        "6"
    } else if d == 7 {
        "7"
    } else if d == 8 {
        "8"
    } else if d == 9 {
        "9"
    } else if d == 10 {
        "a"
    } else if d == 11 {
        "b"
    } else if d == 12 {
        "c"
    } else if d == 13 {
        "d"
    } else if d == 14 {
        "e"
    } else {
        "f"
    };
    assert(r@ =~= seq![hex_digit(d as nat)]);
    r
}

/// The lowercase hexadecimal text of a number.
fn hex_text(n: u64) -> (r: String)
    ensures
        r@ == hex_digits(n as nat),
    decreases n,
{
    if n < 16 {
        hex_digit_text(n).to_owned()
    } else {
        let mut r = hex_text(n / 16);
        r.append(hex_digit_text(n % 16));
        assert(r@ =~= hex_digits((n / 16) as nat).push(hex_digit((n % 16) as nat)));
        r
    }
}

/// Formats a token as `format!("{:x}", token)` does: a negative token is
/// written as its 64-bit two's complement, 2^64 more than its value.
fn format_token(token: i64) -> (r: String)
    ensures
        r@ == token_text(token),
{
    if token >= 0 {
        hex_text(token as u64)
    } else {
        let low = (token - i64::MIN) as u64;
        hex_text(low + 0x8000_0000_0000_0000u64)
    }
}

/// The value of a character as a hexadecimal digit of either case, if it is
/// one.
fn hex_char_value(c: char) -> (r: Option<u64>)
    ensures
        match r {
            Some(d) => hex_value(c) == Some(d as nat),
            None => hex_value(c) is None,
        },
{
    let u = c as u32;
    if 48 <= u && u <= 57 {
        Some((u - 48) as u64)
    } else if 97 <= u && u <= 102 {
        Some((u - 87) as u64)
    } else if 65 <= u && u <= 70 {
        Some((u - 55) as u64)
    } else {
        None
    }
}

proof fn lemma_invalid_digit(s: Seq<char>, j: int)
    requires
        0 <= j < s.len(),
        hex_value(s[j]) is None,
    ensures
        hex_digits_value(s) is None,
    decreases s.len(),
{
    if j < s.len() - 1 {
        assert(s.drop_last()[j] == s[j]);
        lemma_invalid_digit(s.drop_last(), j);
    }
}

proof fn lemma_digits_value_grows(s: Seq<char>, k: int)
    requires
        0 <= k <= s.len(),
        hex_digits_value(s.take(k)) is Some,
    ensures
        hex_digits_value(s) matches Some(w) ==> w >= hex_digits_value(s.take(k))->0,
    decreases s.len(),
{
    if k < s.len() {
        assert(s.drop_last().take(k) =~= s.take(k));
        lemma_digits_value_grows(s.drop_last(), k);
    } else {
        assert(s.take(k) =~= s);
    }
}

/// Parses a token as `i64::from_str_radix(text, 16)` does: an optional sign,
/// then at least one hexadecimal digit of either case and nothing else, whose
/// value fits in an `i64`.
fn parse_token_text(text: &str) -> (r: Option<i64>)
    ensures
        r == parse_token(text@),
{
    let n = text.unicode_len();
    let mut start: usize = 0;
    let mut negative = false;
    if n > 0 {
        let c0 = text.get_char(0);
        if c0 == '-' {
            negative = true;
            start = 1;
        } else if c0 == '+' {
            start = 1;
        }
    }
    if start == n {
        proof {
            if n > 0 {
                assert(text@.drop_first().len() == 0);
            }
        }
        return None;
    }
    let ghost digits = text@.subrange(start as int, n as int);
    proof {
        if start == 1 {
            assert(text@.drop_first() =~= digits);
        } else {
            assert(text@ =~= digits);
        }
        assert(text@.subrange(start as int, start as int) =~= Seq::<char>::empty());
    }
    let mut v: u128 = 0;
    let mut i: usize = start;
    while i < n
        invariant
            start <= i <= n,
            start <= 1,
            n == text@.len(),
            digits == text@.subrange(start as int, n as int),
            digits.len() > 0,
            digits == (if text@.len() > 0 && (text@[0] == '-' || text@[0] == '+') {
                text@.drop_first()
            } else {
                text@
            }),
            negative == (text@.len() > 0 && text@[0] == '-'),
            hex_digits_value(text@.subrange(start as int, i as int)) == Some(v as nat),
            v <= 0x8000_0000_0000_0000,
        decreases n - i,
    {
        let c = text.get_char(i);
        match hex_char_value(c) {
            None => {
                proof {
                    assert(digits[i - start] == c);
                    lemma_invalid_digit(digits, i - start);
                }
                return None;
            },
            Some(d) => {
                proof {
                    let prefix = text@.subrange(start as int, i + 1);
                    assert(prefix.drop_last() =~= text@.subrange(start as int, i as int));
                    assert(prefix.last() == c);
                }
                v = v * 16 + d as u128;
                i = i + 1;
                if v > 0x8000_0000_0000_0000 {
                    proof {
                        assert(digits.take(i - start) =~= text@.subrange(start as int, i as int));
                        lemma_digits_value_grows(digits, i - start);
                    }
                    return None;
                }
            },
        }
    }
    proof {
        assert(text@.subrange(start as int, i as int) =~= digits);
    }
    if negative {
        Some((0 - (v as i128)) as i64)
    } else if v <= 0x7fff_ffff_ffff_ffff {
        Some(v as i64)
    } else {
        None
    }
}

/// Why a stored token could not be read.
#[derive(Debug)]
pub enum TokenError {
    /// The stored text is not a hexadecimal number that fits in an `i64`.
    Unreadable(String),
}

/// The text under which a token is stored.
pub fn token_to_text(token: i64) -> (r: String)
    ensures
        r@ == token_text(token),
{
    format_token(token)
}

/// The token read back from the store: -1 when none is stored, the number that
/// the stored text denotes otherwise, or an error when it denotes none.
pub fn token_from_stored(stored: Option<String>) -> (r: Result<i64, TokenError>)
    ensures
        match stored {
            None => r == Ok::<i64, TokenError>(-1i64),
            Some(text) => match parse_token(text@) {
                Some(t) => r == Ok::<i64, TokenError>(t),
                None => r matches Err(TokenError::Unreadable(s)) && s == text,
            },
        },
{
    match stored {
        None => Ok(-1),
        Some(text) => match parse_token_text(text.as_str()) {
            Some(t) => Ok(t),
            None => Err(TokenError::Unreadable(text)),
        },
    }
}

proof fn lemma_hex_digit_value(d: nat)
    requires
        d < 16,
    ensures
        hex_value(hex_digit(d)) == Some(d),
{
}

proof fn lemma_hex_digits_value(n: nat)
    ensures
        hex_digits_value(hex_digits(n)) == Some(n),
        hex_digits(n).len() > 0,
        hex_digits(n)[0] != '-' && hex_digits(n)[0] != '+',
    decreases n,
{
    if n < 16 {
        lemma_hex_digit_value(n);
        let s = hex_digits(n);
        assert(s.drop_last() =~= Seq::<char>::empty());
        assert(hex_digits_value(s.drop_last()) == Some(0nat));
        assert(s.last() == hex_digit(n));
    } else {
        lemma_hex_digits_value(n / 16);
        lemma_hex_digit_value(n % 16);
        let s = hex_digits(n);
        assert(s.drop_last() =~= hex_digits(n / 16));
        assert(s[0] == hex_digits(n / 16)[0]);
        assert(s.last() == hex_digit(n % 16));
        assert(n == (n / 16) * 16 + n % 16) by (nonlinear_arith);
    }
}

/// Whether a character is a lowercase hexadecimal digit.
pub open spec fn is_lower_hex_digit(c: char) -> bool {
    ('0' <= c && c <= '9') || ('a' <= c && c <= 'f')
}

proof fn lemma_hex_digits_notation(n: nat)
    ensures
        hex_digits(n).len() > 0,
        forall|i: int| 0 <= i < hex_digits(n).len() ==> is_lower_hex_digit(#[trigger] hex_digits(n)[i]),
        hex_digits_value(hex_digits(n)) == Some(n),
        hex_digits(n)[0] == '0' ==> n == 0,
    decreases n,
{
    lemma_hex_digits_value(n);
    if n >= 16 {
        lemma_hex_digits_notation(n / 16);
        let s = hex_digits(n);
        let h = hex_digits(n / 16);
        assert(s.drop_last() =~= h);
        assert forall|i: int| 0 <= i < s.len() implies is_lower_hex_digit(#[trigger] s[i]) by {
            if i < h.len() {
                assert(s[i] == h[i]);
            }
        }
        assert(s[0] == h[0]);
    }
}

/// The text of a token is lowercase hexadecimal notation without leading
/// zeros: of the token itself when it is zero or more, and of the token plus
/// 2^64 (its two's complement bits) when it is negative.
pub proof fn lemma_token_text_is_hex_notation(token: i64)
    ensures
        token_text(token).len() > 0,
        forall|i: int|
            0 <= i < token_text(token).len() ==> is_lower_hex_digit(#[trigger] token_text(token)[i]),
        token >= 0 ==> hex_digits_value(token_text(token)) == Some(token as nat),
        token < 0 ==> hex_digits_value(token_text(token)) == Some((token + 0x1_0000_0000_0000_0000) as nat),
        token_text(token)[0] == '0' ==> token == 0,
{
    if token >= 0 {
        lemma_hex_digits_notation(token as nat);
    } else {
        lemma_hex_digits_notation((token + 0x1_0000_0000_0000_0000) as nat);
    }
}

proof fn lemma_all_hex_digits_have_value(s: Seq<char>)
    requires
        forall|i: int| 0 <= i < s.len() ==> #[trigger] hex_value(s[i]) is Some,
    ensures
        hex_digits_value(s) is Some,
    decreases s.len(),
{
    if s.len() > 0 {
        assert forall|i: int| 0 <= i < s.drop_last().len() implies #[trigger] hex_value(
            s.drop_last()[i],
        ) is Some by {
            assert(s.drop_last()[i] == s[i]);
        }
        lemma_all_hex_digits_have_value(s.drop_last());
        assert(hex_value(s[s.len() - 1]) is Some);
    }
}

/// A text made of an optional sign (`-` or `+`) and at least one
/// hexadecimal digit of either case reads as the signed value of its digits
/// when that value fits in an `i64`, and as nothing otherwise.
pub proof fn lemma_parse_token_reads_signed_hex(sign: Seq<char>, digits: Seq<char>)
    requires
        sign == Seq::<char>::empty() || sign == seq!['-'] || sign == seq!['+'],
        digits.len() > 0,
        forall|i: int| 0 <= i < digits.len() ==> #[trigger] hex_value(digits[i]) is Some,
    ensures
        hex_digits_value(digits) is Some,
        ({
            let v = hex_digits_value(digits)->0 as int;
            let x = if sign == seq!['-'] { -v } else { v };
            parse_token(sign + digits) == if i64::MIN <= x && x <= i64::MAX {
                Some(x as i64)
            } else {
                None::<i64>
            }
        }),
{
    lemma_all_hex_digits_have_value(digits);
    let text = sign + digits;
    if sign.len() == 0 {
        assert(text =~= digits);
        assert(hex_value(digits[0]) is Some);
    } else {
        assert(text[0] == sign[0]);
        assert(text.drop_first() =~= digits);
    }
}

/// A text that holds anything but a hexadecimal digit after its optional
/// leading sign reads as nothing; so do the empty text and a lone sign.
pub proof fn lemma_parse_token_rejects(text: Seq<char>, i: int)
    requires
        0 <= i < text.len(),
        hex_value(text[i]) is None,
        i == 0 ==> text[0] != '-' && text[0] != '+',
    ensures
        parse_token(text) is None,
        parse_token(Seq::<char>::empty()) is None,
        parse_token(seq!['-']) is None,
        parse_token(seq!['+']) is None,
{
    assert(seq!['-'].drop_first() =~= Seq::<char>::empty());
    assert(seq!['+'].drop_first() =~= Seq::<char>::empty());
    if text.len() > 0 && (text[0] == '-' || text[0] == '+') {
        assert(i > 0);
        assert(text.drop_first()[i - 1] == text[i]);
        lemma_invalid_digit(text.drop_first(), i - 1);
    } else {
        lemma_invalid_digit(text, i);
    }
}

/// A token of zero or more survives storing and reading back; a negative one
/// does not: its text denotes a number of 2^63 or more, which reading rejects.
pub proof fn lemma_token_round_trip(token: i64)
    ensures
        token >= 0 ==> parse_token(token_text(token)) == Some(token),
        token < 0 ==> parse_token(token_text(token)) is None,
{
    if token >= 0 {
        lemma_hex_digits_value(token as nat);
    } else {
        lemma_hex_digits_value((token + 0x1_0000_0000_0000_0000) as nat);
    }
}

} // verus!
