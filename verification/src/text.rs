//! Decimal numerals and the ordering of text, over `Seq<char>`.

use vstd::prelude::*;
use vstd::std_specs::iter::IteratorSpec;

verus! {

/// The character that writes the digit `d`, for `0 <= d <= 9`.
pub open spec fn digit_char(d: int) -> char {
    seq!['0', '1', '2', '3', '4', '5', '6', '7', '8', '9'][d]
}

/// The decimal numeral of `n`: no sign, no leading zero, `"0"` for zero.
pub open spec fn decimal(n: nat) -> Seq<char>
    decreases n,
{
    if n < 10 {
        seq![digit_char(n as int)]
    } else {
        decimal(n / 10).push(digit_char((n % 10) as int))
    }
}

fn digit_text(d: usize) -> (r: &'static str)
    requires
        d < 10,
    ensures
        r@ == seq![digit_char(d as int)],
{
    proof {
        reveal_strlit("0");
        reveal_strlit("1");
        reveal_strlit("2");
        reveal_strlit("3");
        reveal_strlit("4");
        reveal_strlit("5");
        reveal_strlit("6");
        reveal_strlit("7");
        reveal_strlit("8");
        reveal_strlit("9");
    }
    let r = if d == 0 {
        "0"
    } else if d == 1 {
        "1"
    } else if d == 2 {
        "2"
    } else if d == 3 {
        "3"
    } else if d == 4 {
        "4"
    } else if d == 5 {
        "5"
    } else if d == 6 {
        "6"
    } else if d == 7 {
        "7"
    } else if d == 8 {
        "8"
    } else {
        "9"
    };
    assert(r@ =~= seq![digit_char(d as int)]);
    r
}

/// Appends the decimal numeral of `n` to `out`.
pub fn push_decimal(out: &mut String, n: usize)
    ensures
        final(out)@ == old(out)@ + decimal(n as nat),
    decreases n,
{
    if n >= 10 {
        push_decimal(out, n / 10);
    }
    out.append(digit_text(n % 10));
}

/// The decimal numeral of `n` as a string.
pub fn to_decimal(n: usize) -> (r: String)
    ensures
        r@ == decimal(n as nat),
{
    let mut out = String::new();
    push_decimal(&mut out, n);
    out
}

/// Why a text is not the decimal numeral of a machine integer.
#[derive(Clone, Copy, Debug, PartialEq, Eq, Structural)]
pub enum NumberError {
    /// The text is empty.
    Empty,
    /// A character other than a digit stands in the text, or the text is a
    /// sign alone.
    InvalidDigit,
    /// The digits write a number above the largest one that fits.
    Overflow,
}

/// Whether `c` is one of the ten ASCII digits.
pub open spec fn is_digit(c: char) -> bool {
    '0' <= c <= '9'
}

/// The value of the digit `c`; zero for any other character.
pub open spec fn digit_value(c: char) -> nat {
    if is_digit(c) {
        (c as int - '0' as int) as nat
    } else {
        0
    }
}

/// The number that a text of digits writes, the empty text writing zero.
pub open spec fn digits_value(s: Seq<char>) -> nat
    decreases s.len(),
{
    if s.len() == 0 {
        0
    } else {
        digits_value(s.drop_last()) * 10 + digit_value(s.last())
    }
}

/// The length of the longest prefix of `s` that holds digits only.
pub open spec fn digit_run(s: Seq<char>) -> nat
    decreases s.len(),
{
    if s.len() == 0 || !is_digit(s[0]) {
        0
    } else {
        1 + digit_run(s.skip(1))
    }
}

/// `s` without the one `+` that may lead it.
pub open spec fn unsigned_part(s: Seq<char>) -> Seq<char> {
    if s.len() > 0 && s[0] == '+' {
        s.skip(1)
    } else {
        s
    }
}

/// What reading `s` as an unsigned decimal number no larger than `max`
/// gives. The text is an optional `+` and then digits, at least one. A text
/// that fails in two ways reports the failure met first when it is read from
/// the left: digits that already exceed `max` before a bad character give
/// `Overflow`.
pub open spec fn parsed_number(s: Seq<char>, max: nat) -> Result<nat, NumberError> {
    let body = unsigned_part(s);
    let run = body.take(digit_run(body) as int);
    if s.len() == 0 {
        Err(NumberError::Empty)
    } else if body.len() == 0 {
        Err(NumberError::InvalidDigit)
    } else if digits_value(run) > max {
        Err(NumberError::Overflow)
    } else if run.len() < body.len() {
        Err(NumberError::InvalidDigit)
    } else {
        Ok(digits_value(body))
    }
}

/// The digit run of `s` is at most as long as `s`, covers every leading
/// digit, and stops at the first character that is no digit.
pub proof fn lemma_digit_run(s: Seq<char>, k: int)
    requires
        0 <= k <= s.len(),
        forall|i: int| 0 <= i < k ==> is_digit(#[trigger] s[i]),
    ensures
        k <= digit_run(s) <= s.len(),
        k < s.len() && !is_digit(s[k]) ==> digit_run(s) == k,
    decreases s.len(),
{
    if s.len() == 0 || !is_digit(s[0]) {
    } else if k == 0 {
        lemma_digit_run(s.skip(1), 0);
    } else {
        assert forall|i: int| 0 <= i < k - 1 implies is_digit(#[trigger] s.skip(1)[i]) by {
            assert(s.skip(1)[i] == s[i + 1]);
        }
        lemma_digit_run(s.skip(1), k - 1);
    }
}

/// A longer prefix of a text writes no smaller a number.
pub proof fn lemma_digits_value_grows(s: Seq<char>, j: int, k: int)
    requires
        0 <= j <= k <= s.len(),
    ensures
        digits_value(s.take(j)) <= digits_value(s.take(k)),
    decreases k - j,
{
    if j < k {
        lemma_digits_value_grows(s, j, k - 1);
        assert(s.take(k).drop_last() =~= s.take(k - 1));
    }
}

/// The decimal numeral of `n` holds digits only, at least one, and they
/// write `n`.
pub proof fn lemma_decimal_writes(n: nat)
    ensures
        decimal(n).len() > 0,
        forall|i: int| 0 <= i < decimal(n).len() ==> is_digit(#[trigger] decimal(n)[i]),
        digits_value(decimal(n)) == n,
    decreases n,
{
    let d = (n % 10) as int;
    assert(is_digit(digit_char(d)) && digit_value(digit_char(d)) == d);
    if n < 10 {
        assert(decimal(n).drop_last() =~= Seq::<char>::empty());
        assert(digits_value(decimal(n).drop_last()) == 0);
        assert(decimal(n).last() == digit_char(d));
    } else {
        lemma_decimal_writes(n / 10);
        assert(decimal(n).drop_last() =~= decimal(n / 10));
        assert(decimal(n).last() == digit_char(d));
        assert(digits_value(decimal(n)) == digits_value(decimal(n / 10)) * 10 + d);
    }
}

/// Reading the decimal numeral of a number gives the number back.
pub proof fn lemma_parse_inverts_decimal(n: nat, max: nat)
    requires
        n <= max,
    ensures
        parsed_number(decimal(n), max) == Ok::<nat, NumberError>(n),
{
    let s = decimal(n);
    lemma_decimal_writes(n);
    assert(is_digit(s[0]));
    lemma_digit_run(s, s.len() as int);
    assert(s.take(s.len() as int) =~= s);
}

/// Reads `s` as the decimal numeral of a `usize`.
pub fn parse_decimal(s: &str) -> (r: Result<usize, NumberError>)
    ensures
        match r {
            Ok(n) => parsed_number(s@, usize::MAX as nat) == Ok::<nat, NumberError>(n as nat),
            Err(e) => parsed_number(s@, usize::MAX as nat) == Err::<nat, NumberError>(e),
        },
{
    let mut it = s.chars();
    let mut pending = it.next();
    if pending.is_none() {
        return Err(NumberError::Empty);
    }
    if pending == Some('+') {
        pending = it.next();
        if pending.is_none() {
            return Err(NumberError::InvalidDigit);
        }
    }
    let ghost body = unsigned_part(s@);
    let ghost mut k: int = 0;
    let mut acc: usize = 0;
    assert(body.skip(0) =~= body);
    assert(body.take(0) =~= Seq::<char>::empty());
    loop
        invariant
            it.obeys_prophetic_iter_laws(),
            body == unsigned_part(s@),
            s@.len() > 0,
            0 <= k <= body.len(),
            pending is Some ==> k < body.len() && pending == Some(body[k]) && it.remaining()
                == body.skip(k + 1),
            pending is None ==> k == body.len(),
            body.len() > 0,
            forall|i: int| 0 <= i < k ==> is_digit(#[trigger] body[i]),
            acc as nat == digits_value(body.take(k)),
        decreases body.len() - k,
    {
        match pending {
            None => {
                proof {
                    lemma_digit_run(body, k);
                    assert(body.take(k) =~= body);
                }
                return Ok(acc);
            },
            Some(c) => {
                proof {
                    lemma_digit_run(body, k);
                }
                if !(c >= '0' && c <= '9') {
                    return Err(NumberError::InvalidDigit);
                }
                let d: usize = (c as u32 - '0' as u32) as usize;
                proof {
                    lemma_digit_run(body, k + 1);
                    lemma_digits_value_grows(body, k + 1, digit_run(body) as int);
                    assert(body.take(k + 1).drop_last() =~= body.take(k));
                    assert(digits_value(body.take(k + 1)) == acc * 10 + d);
                }
                let shifted = match acc.checked_mul(10) {
                    Some(m) => m,
                    None => {
                        return Err(NumberError::Overflow);
                    },
                };
                acc = match shifted.checked_add(d) {
                    Some(n) => n,
                    None => {
                        return Err(NumberError::Overflow);
                    },
                };
                pending = it.next();
                proof {
                    if k + 1 < body.len() {
                        assert(body.skip(k + 1)[0] == body[k + 1]);
                        assert(body.skip(k + 1).drop_first() =~= body.skip(k + 2));
                    }
                    k = k + 1;
                }
            },
        }
    }
}


/// Whether `a` stands strictly before `b` in dictionary order: the texts are
/// compared character by character, by code point, and a text stands before
/// every longer text that it begins.
pub open spec fn text_before(a: Seq<char>, b: Seq<char>) -> bool
    decreases a.len(),
{
    if b.len() == 0 {
        false
    } else if a.len() == 0 {
        true
    } else if a[0] == b[0] {
        text_before(a.skip(1), b.skip(1))
    } else {
        a[0] < b[0]
    }
}

/// No text stands before itself.
pub proof fn lemma_text_before_irreflexive(a: Seq<char>)
    ensures
        !text_before(a, a),
    decreases a.len(),
{
    if a.len() > 0 {
        lemma_text_before_irreflexive(a.skip(1));
    }
}

/// Of two different texts exactly one stands before the other; of two equal
/// texts neither does.
pub proof fn lemma_text_before_total(a: Seq<char>, b: Seq<char>)
    ensures
        a == b || (text_before(a, b) != text_before(b, a)),
        a == b ==> !text_before(a, b) && !text_before(b, a),
    decreases a.len(),
{
    lemma_text_before_irreflexive(a);
    if a.len() == 0 || b.len() == 0 {
        if a.len() == 0 && b.len() == 0 {
            assert(a =~= b);
        }
    } else if a[0] == b[0] {
        lemma_text_before_total(a.skip(1), b.skip(1));
        if a.skip(1) == b.skip(1) {
            assert(a =~= seq![a[0]] + a.skip(1));
            assert(b =~= seq![b[0]] + b.skip(1));
        }
    }
}

/// Dictionary order is transitive.
pub proof fn lemma_text_before_transitive(a: Seq<char>, b: Seq<char>, c: Seq<char>)
    requires
        text_before(a, b),
        text_before(b, c),
    ensures
        text_before(a, c),
    decreases a.len(),
{
    if a.len() > 0 && a[0] == b[0] && b[0] == c[0] {
        lemma_text_before_transitive(a.skip(1), b.skip(1), c.skip(1));
    }
}

/// Whether `a` stands strictly before `b` in dictionary order.
pub fn text_less(a: &str, b: &str) -> (r: bool)
    ensures
        r == text_before(a@, b@),
{
    let mut left = a.chars();
    let mut right = b.chars();
    let ghost mut k: int = 0;
    assert(a@.skip(0) =~= a@);
    assert(b@.skip(0) =~= b@);
    loop
        invariant
            left.obeys_prophetic_iter_laws(),
            right.obeys_prophetic_iter_laws(),
            0 <= k <= a@.len(),
            k <= b@.len(),
            left.remaining() == a@.skip(k),
            right.remaining() == b@.skip(k),
            text_before(a@, b@) == text_before(a@.skip(k), b@.skip(k)),
        decreases a@.len() - k,
    {
        let y = match right.next() {
            Some(y) => y,
            None => {
                return false;
            },
        };
        let x = match left.next() {
            Some(x) => x,
            None => {
                return true;
            },
        };
        if x != y {
            return x < y;
        }
        proof {
            assert(a@.skip(k).skip(1) =~= a@.skip(k + 1));
            assert(b@.skip(k).skip(1) =~= b@.skip(k + 1));
            assert(a@.skip(k).drop_first() =~= a@.skip(k + 1));
            assert(b@.skip(k).drop_first() =~= b@.skip(k + 1));
            k = k + 1;
        }
    }
}

/// Whether `a` and `b` hold the same characters.
pub fn text_equal(a: &str, b: &str) -> (r: bool)
    ensures
        r == (a@ == b@),
{
    let mut left = a.chars();
    let mut right = b.chars();
    let ghost mut k: int = 0;
    assert(a@.skip(0) =~= a@);
    assert(b@.skip(0) =~= b@);
    loop
        invariant
            left.obeys_prophetic_iter_laws(),
            right.obeys_prophetic_iter_laws(),
            0 <= k <= a@.len(),
            k <= b@.len(),
            left.remaining() == a@.skip(k),
            right.remaining() == b@.skip(k),
            a@.take(k) == b@.take(k),
        decreases a@.len() - k,
    {
        let x = left.next();
        let y = right.next();
        match (x, y) {
            (None, None) => {
                assert(a@.take(k) =~= a@);
                assert(b@.take(k) =~= b@);
                return true;
            },
            (Some(x), Some(y)) => {
                if x != y {
                    assert(a@[k] != b@[k]);
                    return false;
                }
                proof {
                    assert(a@.skip(k).drop_first() =~= a@.skip(k + 1));
                    assert(b@.skip(k).drop_first() =~= b@.skip(k + 1));
                    assert(a@.take(k + 1) =~= a@.take(k).push(a@[k]));
                    assert(b@.take(k + 1) =~= b@.take(k).push(b@[k]));
                    k = k + 1;
                }
            },
            _ => {
                assert(a@.len() != b@.len());
                return false;
            },
        }
    }
}

} // verus!
