//! Text that arrives from the environment or from the game: comparison, NUL detection and
//! decimal numbers.

use vstd::prelude::*;

verus! {

/// Whether two texts hold the same characters.
pub fn same_text(a: &str, b: &str) -> (same: bool)
    ensures
        same == (a@ == b@),
{
    a.to_owned() == b.to_owned()
}

/// Whether `text` can be handed to C code as it stands: no character of it is NUL.
pub open spec fn nul_free(text: Seq<char>) -> bool {
    !text.contains('\0')
}

/// Whether `text` has no NUL character.
pub fn is_nul_free(text: &str) -> (free: bool)
    ensures
        free == nul_free(text@),
{
    let count: usize = text.unicode_len();
    let mut i: usize = 0;
    while i < count
        invariant
            i <= count == text@.len(),
            forall|j: int| 0 <= j < i ==> text@[j] != '\0',
        decreases count - i,
    {
        if text.get_char(i) == '\0' {
            assert(text@[i as int] == '\0');
            return false;
        }
        i = i + 1;
    }
    true
}

/// Whether a character is a decimal digit.
pub open spec fn is_digit(c: char) -> bool {
    '0' <= c <= '9'
}

/// Whether every character is a decimal digit.
pub open spec fn all_digits(text: Seq<char>) -> bool {
    forall|i: int| 0 <= i < text.len() ==> is_digit(#[trigger] text[i])
}

/// The number that a row of decimal digits writes down.
pub open spec fn decimal_value(digits: Seq<char>) -> int
    decreases digits.len(),
{
    if digits.len() == 0 {
        0
    } else {
        10 * decimal_value(digits.drop_last()) + (digits.last() as int - '0' as int)
    }
}

/// What follows the one `+` that may lead a number.
pub open spec fn without_plus(text: Seq<char>) -> Seq<char> {
    if text.len() > 0 && text[0] == '+' {
        text.drop_first()
    } else {
        text
    }
}

/// The unsigned 64-bit number that `text` writes down: an optional `+`, then at least one decimal
/// digit and nothing else, with a value that fits.
pub open spec fn number_of(text: Seq<char>) -> Option<int> {
    let digits = without_plus(text);
    if digits.len() > 0 && all_digits(digits) && decimal_value(digits) <= u64::MAX {
        Some(decimal_value(digits))
    } else {
        None
    }
}

/// A longer row of digits writes down no smaller number.
proof fn lemma_prefix_value(digits: Seq<char>, n: int)
    requires
        all_digits(digits),
        0 <= n <= digits.len(),
    ensures
        0 <= decimal_value(digits.take(n)) <= decimal_value(digits),
    decreases digits.len(),
{
    if digits.len() == 0 {
        assert(digits.take(n) =~= digits);
    } else {
        assert(is_digit(digits.last()));
        let shorter = digits.drop_last();
        assert(all_digits(shorter)) by {
            assert forall|i: int| 0 <= i < shorter.len() implies is_digit(#[trigger] shorter[i]) by {
                assert(is_digit(digits[i]));
            }
        }
        lemma_prefix_value(shorter, shorter.len() as int);
        assert(shorter.take(shorter.len() as int) =~= shorter);
        if n < digits.len() {
            lemma_prefix_value(shorter, n);
            assert(shorter.take(n) =~= digits.take(n));
        } else {
            assert(digits.take(n) =~= digits);
        }
    }
}

/// Reads an unsigned 64-bit number.
pub fn parse_number(text: &str) -> (number: Option<u64>)
    ensures
        match number {
            Some(n) => number_of(text@) == Some(n as int),
            None => number_of(text@) is None,
        },
{
    let count: usize = text.unicode_len();
    let start: usize = if count > 0 && text.get_char(0) == '+' {
        1
    } else {
        0
    };
    let ghost digits = without_plus(text@);
    assert(digits =~= text@.skip(start as int));
    if start == count {
        return None;
    }
    let mut value: u64 = 0;
    let mut i: usize = start;
    while i < count
        invariant
            start <= i <= count == text@.len(),
            digits == text@.skip(start as int),
            digits == without_plus(text@),
            all_digits(digits.take(i - start)),
            value == decimal_value(digits.take(i - start)),
        decreases count - i,
    {
        let c: char = text.get_char(i);
        assert(c == digits[i - start]);
        if !('0' <= c && c <= '9') {
            assert(!is_digit(digits[i - start]));
            return None;
        }
        let digit: u64 = c as u64 - '0' as u64;
        let ghost next = digits.take(i - start + 1);
        assert(next.drop_last() =~= digits.take(i - start));
        assert(all_digits(next)) by {
            assert forall|j: int| 0 <= j < next.len() implies is_digit(#[trigger] next[j]) by {
                if j < i - start {
                    assert(is_digit(digits.take(i - start)[j]));
                }
            }
        }
        if value > (u64::MAX - digit) / 10 {
            proof {
                assert(decimal_value(next) > u64::MAX);
                if all_digits(digits) {
                    lemma_prefix_value(digits, i - start + 1);
                }
            }
            return None;
        }
        value = value * 10 + digit;
        i = i + 1;
    }
    assert(digits.take(count - start) =~= digits);
    Some(value)
}

} // verus!
