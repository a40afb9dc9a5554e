//! How numbers are written down, and that they are read back.

use vstd::prelude::*;

verus! {

/// The character of a decimal digit.
pub open spec fn digit(d: int) -> char {
    seq!['0', '1', '2', '3', '4', '5', '6', '7', '8', '9'][d]
}

/// A number in decimal digits, without leading zeros.
pub open spec fn decimal_text(n: int) -> Seq<char>
    decreases n,
{
    if n < 10 {
        seq![digit(n)]
    } else {
        decimal_text(n / 10).push(digit(n % 10))
    }
}

/// A number in decimal digits, with `zeros` zeros in front, and a `+` in front of these if there is
/// one.
pub open spec fn written(n: int, zeros: nat, plus: bool) -> Seq<char> {
    let digits = Seq::new(zeros, |i: int| '0') + decimal_text(n);
    if plus {
        seq!['+'] + digits
    } else {
        digits
    }
}

/// Whether a text writes down a number that an unsigned 64-bit integer can hold.
pub open spec fn writes_a_number(text: Seq<char>) -> bool {
    exists|n: int, zeros: nat, plus: bool|
        0 <= n <= u64::MAX && text == #[trigger] written(n, zeros, plus)
}

proof fn lemma_digit(d: int)
    requires
        0 <= d < 10,
    ensures
        '0' <= digit(d) <= '9',
        digit(d) as int == '0' as int + d,
{
}

proof fn lemma_zeros(zeros: nat)
    ensures
        crate::text::decimal_value(Seq::new(zeros, |i: int| '0')) == 0,
    decreases zeros,
{
    let row = Seq::new(zeros, |i: int| '0');
    if zeros > 0 {
        lemma_zeros((zeros - 1) as nat);
        assert(row.drop_last() =~= Seq::new((zeros - 1) as nat, |i: int| '0'));
    }
}

proof fn lemma_written_digits(n: int, zeros: nat)
    requires
        0 <= n,
    ensures
        written(n, zeros, false).len() > 0,
        crate::text::all_digits(written(n, zeros, false)),
        crate::text::decimal_value(written(n, zeros, false)) == n,
    decreases n,
{
    let text = written(n, zeros, false);
    if n < 10 {
        lemma_digit(n);
        lemma_zeros(zeros);
        assert(text.drop_last() =~= Seq::new(zeros, |i: int| '0'));
    } else {
        lemma_digit(n % 10);
        lemma_written_digits(n / 10, zeros);
        assert(text.drop_last() =~= written(n / 10, zeros, false));
        assert forall|i: int| 0 <= i < text.len() implies crate::text::is_digit(
            #[trigger] text[i],
        ) by {
            if i < text.len() - 1 {
                assert(text[i] == written(n / 10, zeros, false)[i]);
            }
        }
    }
}

proof fn lemma_written_number(n: int, zeros: nat, plus: bool)
    requires
        0 <= n,
    ensures
        crate::text::without_plus(written(n, zeros, plus)) == written(n, zeros, false),
{
    lemma_written_digits(n, zeros);
    let digits = written(n, zeros, false);
    assert(crate::text::is_digit(digits[0]));
    if plus {
        assert(written(n, zeros, plus).drop_first() =~= digits);
    }
}

/// Every number that fits is read back from its digits, whatever zeros and whether or not a `+`
/// stand in front of them.
pub proof fn number_reads_back(n: int, zeros: nat, plus: bool)
    requires
        0 <= n <= u64::MAX,
    ensures
        crate::text::number_of(written(n, zeros, plus)) == Some(n),
{
    lemma_written_digits(n, zeros);
    lemma_written_number(n, zeros, plus);
}

/// A number that does not fit is not read.
pub proof fn large_number_is_not_read(n: int, zeros: nat, plus: bool)
    requires
        n > u64::MAX,
    ensures
        crate::text::number_of(written(n, zeros, plus)) is None,
{
    lemma_written_digits(n, zeros);
    lemma_written_number(n, zeros, plus);
}

proof fn lemma_digits_are_written(digits: Seq<char>) -> (zeros: nat)
    requires
        digits.len() > 0,
        crate::text::all_digits(digits),
    ensures
        crate::text::decimal_value(digits) >= 0,
        digits == written(crate::text::decimal_value(digits), zeros, false),
    decreases digits.len(),
{
    let shorter = digits.drop_last();
    let last = digits.last();
    let d: int = last as int - '0' as int;
    assert(crate::text::is_digit(digits[digits.len() - 1]));
    lemma_digit(d);
    assert(digit(d) == last);
    if shorter.len() == 0 {
        assert(crate::text::decimal_value(shorter) == 0);
        assert(digits =~= written(d, 0, false));
        0
    } else {
        assert forall|i: int| 0 <= i < shorter.len() implies crate::text::is_digit(
            #[trigger] shorter[i],
        ) by {
            assert(crate::text::is_digit(digits[i]));
        }
        let zeros = lemma_digits_are_written(shorter);
        assert(digits =~= shorter.push(digit(d)));
        let value = crate::text::decimal_value(shorter);
        if value == 0 {
            assert(decimal_text(0) == seq![digit(0)] && digit(0) == '0');
            assert(decimal_text(d) == seq![digit(d)]);
            assert(shorter =~= Seq::new(zeros + 1, |i: int| '0'));
            assert(digits =~= written(d, zeros + 1, false));
            zeros + 1
        } else {
            let whole: int = 10 * value + d;
            assert(whole / 10 == value && whole % 10 == d);
            assert(decimal_text(whole) == decimal_text(value).push(digit(d)));
            assert(digits =~= written(whole, zeros, false));
            zeros
        }
    }
}

/// Nothing else is read: a text that is read as a number is that number in digits, with at most
/// zeros and a `+` in front.
pub proof fn only_numbers_are_read(text: Seq<char>)
    ensures
        crate::text::number_of(text) is Some <==> writes_a_number(text),
        crate::text::number_of(text) matches Some(n) ==> exists|zeros: nat, plus: bool|
            text == #[trigger] written(n, zeros, plus),
{
    if crate::text::number_of(text) is Some {
        let n = crate::text::number_of(text)->0;
        let digits = crate::text::without_plus(text);
        let zeros = lemma_digits_are_written(digits);
        let plus = text[0] == '+';
        assert(text =~= written(n, zeros, plus));
    }
    if writes_a_number(text) {
        let (n, zeros, plus) = choose|n: int, zeros: nat, plus: bool|
            0 <= n <= u64::MAX && text == #[trigger] written(n, zeros, plus);
        number_reads_back(n, zeros, plus);
    }
}

/// A text with a character that is neither a digit nor a `+` at its very front is not read, nor is
/// one without any digit.
pub proof fn other_text_is_not_read(text: Seq<char>, at: int)
    requires
        0 <= at < text.len() ==> !('0' <= text[at] <= '9') && (at > 0 || text[at] != '+'),
        !(0 <= at < text.len()) ==> text.len() == 0 || text == seq!['+'],
    ensures
        crate::text::number_of(text) is None,
{
    let digits = crate::text::without_plus(text);
    if 0 <= at < text.len() {
        if text[0] == '+' {
            assert(digits[at - 1] == text[at]);
            assert(!crate::text::is_digit(digits[at - 1]));
        } else {
            assert(!crate::text::is_digit(digits[at]));
        }
    }
}

/// A text can be handed to C code exactly where none of its characters is NUL, the first and the
/// last included.
pub proof fn nul_free_text_has_no_nul(text: Seq<char>)
    ensures
        crate::text::nul_free(text) <==> forall|i: int|
            0 <= i < text.len() ==> #[trigger] text[i] != '\0',
{
    if !crate::text::nul_free(text) {
        let i = text.index_of('\0');
        assert(text[i] == '\0');
    }
}

} // verus!
