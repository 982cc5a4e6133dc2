//! Signed decimal integers read from text.

use vstd::prelude::*;

verus! {

/// Why a text is not a signed decimal integer that fits in 64 bits.
#[derive(Debug, Clone, Copy, PartialEq, Eq, Structural)]
pub enum NumberError {
    /// The text is empty.
    Empty,
    /// The text holds a character that is no decimal digit, or nothing after its sign.
    InvalidDigit,
    /// The number is above `i64::MAX`.
    TooLarge,
    /// The number is below `i64::MIN`.
    TooSmall,
}

/// Whether `c` is one of the ten ASCII decimal digits.
pub open spec fn is_digit(c: char) -> bool {
    '0' <= c && c <= '9'
}

/// The value of a decimal digit; zero for any other character.
pub open spec fn digit_value(c: char) -> nat {
    if is_digit(c) {
        (c as nat - '0' as nat) as nat
    } else {
        0
    }
}

/// How many characters at the front of `s` are decimal digits.
pub open spec fn digit_run(s: Seq<char>) -> nat
    decreases s.len(),
{
    if s.len() > 0 && is_digit(s[0]) {
        1 + digit_run(s.drop_first())
    } else {
        0
    }
}

/// The number that the digits of `s` write in base ten, most significant first.
pub open spec fn decimal(s: Seq<char>) -> nat
    decreases s.len(),
{
    if s.len() == 0 {
        0
    } else {
        decimal(s.drop_last()) * 10 + digit_value(s.last())
    }
}

/// Whether `text` opens with a sign.
pub open spec fn has_sign(text: Seq<char>) -> bool {
    text.len() > 0 && (text[0] == '+' || text[0] == '-')
}

/// `text` without its sign, if it has one.
pub open spec fn unsigned_part(text: Seq<char>) -> Seq<char> {
    if has_sign(text) {
        text.drop_first()
    } else {
        text
    }
}

/// What `text` reads as: an optional `+` or `-`, then one or more decimal digits and nothing
/// else, the number within the range of `i64`.
///
/// The digits at the front are judged first: where they alone leave the range the text is
/// too large or too small, whatever follows them. Otherwise a character that is no digit, or
/// a sign with nothing behind it, makes the text invalid.
pub open spec fn parsed(text: Seq<char>) -> Result<i64, NumberError> {
    let negative = text.len() > 0 && text[0] == '-';
    let body = unsigned_part(text);
    let run = digit_run(body);
    let magnitude = decimal(body.take(run as int));
    if text.len() == 0 {
        Err(NumberError::Empty)
    } else if body.len() == 0 {
        Err(NumberError::InvalidDigit)
    } else if !negative && magnitude > i64::MAX {
        Err(NumberError::TooLarge)
    } else if negative && magnitude > -i64::MIN {
        Err(NumberError::TooSmall)
    } else if run < body.len() {
        Err(NumberError::InvalidDigit)
    } else if negative {
        Ok((-magnitude) as i64)
    } else {
        Ok(magnitude as i64)
    }
}

/// `n` characters at the front of `s` are digits and the next one, if any, is not.
pub open spec fn ends_digit_run(s: Seq<char>, n: int) -> bool {
    &&& 0 <= n <= s.len()
    &&& forall|j: int| 0 <= j < n ==> is_digit(#[trigger] s[j])
    &&& n < s.len() ==> !is_digit(s[n])
}

/// Where the first `n` characters of `s` are digits, its digit run is at least `n` long.
pub proof fn lemma_digit_run_covers(s: Seq<char>, n: int)
    requires
        0 <= n <= s.len(),
        forall|j: int| 0 <= j < n ==> is_digit(#[trigger] s[j]),
    ensures
        n <= digit_run(s) <= s.len(),
    decreases s.len(),
{
    let rest = s.drop_first();
    if n > 0 {
        assert forall|j: int| 0 <= j < n - 1 implies is_digit(#[trigger] rest[j]) by {
            assert(rest[j] == s[j + 1]);
        }
        lemma_digit_run_covers(rest, n - 1);
    } else if s.len() > 0 {
        lemma_digit_run_covers(rest, 0);
    }
}

/// The digit run of `s` is the one place where the digits at its front end.
pub proof fn lemma_digit_run_unique(s: Seq<char>, n: int)
    requires
        ends_digit_run(s, n),
    ensures
        digit_run(s) == n,
    decreases s.len(),
{
    if n > 0 {
        let rest = s.drop_first();
        assert forall|j: int| 0 <= j < n - 1 implies is_digit(#[trigger] rest[j]) by {
            assert(rest[j] == s[j + 1]);
        }
        if n - 1 < rest.len() {
            assert(rest[n - 1] == s[n]);
        }
        lemma_digit_run_unique(rest, n - 1);
    }
}

/// A longer prefix of `s` never writes a smaller number.
pub proof fn lemma_decimal_grows(s: Seq<char>, a: int, b: int)
    requires
        0 <= a <= b <= s.len(),
    ensures
        decimal(s.take(a)) <= decimal(s.take(b)),
    decreases b - a,
{
    if a < b {
        lemma_decimal_grows(s, a, b - 1);
        assert(s.take(b).drop_last() =~= s.take(b - 1));
    }
}

/// Appending one character to a prefix multiplies its number by ten and adds the digit.
pub proof fn lemma_decimal_step(s: Seq<char>, i: int)
    requires
        0 <= i < s.len(),
    ensures
        decimal(s.take(i + 1)) == decimal(s.take(i)) * 10 + digit_value(s[i]),
{
    assert(s.take(i + 1).drop_last() =~= s.take(i));
    assert(s.take(i + 1).last() == s[i]);
}

/// The value of the decimal digit `c`.
fn digit_of(c: char) -> (d: i64)
    requires
        is_digit(c),
    ensures
        d == digit_value(c),
        0 <= d <= 9,
{
    (c as u8 - 48u8) as i64
}

/// Reads `text` as a signed decimal integer.
pub fn parse_i64(text: &str) -> (r: Result<i64, NumberError>)
    ensures
        r == parsed(text@),
{
    let mut first = true;
    let mut signed = false;
    let mut negative = false;
    let mut any = false;
    let mut acc: i64 = 0;
    let ghost body = unsigned_part(text@);
    let ghost mut done: int = 0;
    proof {
        assert(body.take(0) =~= Seq::<char>::empty());
    }
    for c in it: text.chars()
        invariant
            it.seq() == text@,
            body == unsigned_part(text@),
            0 <= done <= body.len(),
            first <==> it.index() == 0,
            signed ==> has_sign(text@),
            !first && !signed ==> !has_sign(text@),
            it.index() == done + if signed { 1int } else { 0int },
            negative <==> signed && text@[0] == '-',
            any <==> done > 0,
            forall|j: int| 0 <= j < done ==> is_digit(#[trigger] body[j]),
            acc == if negative { -decimal(body.take(done)) } else { decimal(body.take(done)) as int },
    {
        if first && (c == '+' || c == '-') {
            signed = true;
            negative = c == '-';
        } else if c >= '0' && c <= '9' {
            let d = digit_of(c);
            proof {
                assert(body[done] == c);
                lemma_decimal_step(body, done);
                lemma_digit_run_covers(body, done + 1);
                lemma_decimal_grows(body, done + 1, digit_run(body) as int);
            }
            let stepped = match acc.checked_mul(10) {
                Some(m) => if negative {
                    m.checked_sub(d)
                } else {
                    m.checked_add(d)
                },
                None => None,
            };
            match stepped {
                Some(v) => {
                    acc = v;
                },
                None => {
                    return Err(
                        if negative {
                            NumberError::TooSmall
                        } else {
                            NumberError::TooLarge
                        },
                    );
                },
            }
            any = true;
            proof {
                done = done + 1;
            }
        } else {
            proof {
                assert(body[done] == c);
                lemma_digit_run_unique(body, done);
            }
            return Err(NumberError::InvalidDigit);
        }
        first = false;
    }
    proof {
        assert(body.take(done) =~= body);
        lemma_digit_run_unique(body, done);
    }
    if first {
        Err(NumberError::Empty)
    } else if !any {
        Err(NumberError::InvalidDigit)
    } else {
        Ok(acc)
    }
}

} // verus!
