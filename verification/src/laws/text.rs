//! Numbers in reports say what they stand for.
use vstd::prelude::*;

verus! {

/// The value of a digit, letters standing for ten and more.
pub open spec fn digit_value(c: char) -> nat {
    if '0' <= c <= '9' {
        (c as nat - '0' as nat) as nat
    } else {
        (c as nat - 'a' as nat + 10) as nat
    }
}

/// Whether a character is a digit in the given base.
pub open spec fn is_digit_in(c: char, base: nat) -> bool {
    ('0' <= c <= '9' || 'a' <= c <= 'f') && digit_value(c) < base
}

/// The number that a text of digits stands for.
pub open spec fn read_back(text: Seq<char>, base: nat) -> nat
    decreases text.len(),
{
    if text.len() == 0 {
        0
    } else {
        read_back(text.drop_last(), base) * base + digit_value(text.last())
    }
}

/// Whether a text is the number `n` in digits of the given base, with no zeros in front.
pub open spec fn says(text: Seq<char>, n: nat, base: nat) -> bool {
    &&& text.len() > 0
    &&& forall|i: int| 0 <= i < text.len() ==> is_digit_in(#[trigger] text[i], base)
    &&& text.len() > 1 ==> text[0] != '0'
    &&& read_back(text, base) == n
}

proof fn lemma_numeral_says(n: nat, base: nat)
    requires
        2 <= base <= 16,
    ensures
        says(crate::text::numeral(n, base), n, base),
        n > 0 ==> crate::text::numeral(n, base)[0] != '0',
    decreases n,
{
    let text = crate::text::numeral(n, base);
    if n < base {
        assert(text =~= seq![crate::text::digit_char(n)]);
        assert(text.drop_last() =~= Seq::empty());
        assert(read_back(Seq::<char>::empty(), base) == 0);
        assert(0nat * base == 0) by (nonlinear_arith);
    } else {
        assert(n / base < n && n / base > 0) by (nonlinear_arith)
            requires
                2 <= base <= n,
        ;
        assert(n % base < base && (n / base) * base + n % base == n) by (nonlinear_arith)
            requires
                2 <= base,
        ;
        lemma_numeral_says(n / base, base);
        let front = crate::text::numeral(n / base, base);
        let last = crate::text::digit_char(n % base);
        assert(text =~= front.push(last));
        assert(text.drop_last() =~= front);
        assert forall|i: int| 0 <= i < text.len() implies is_digit_in(#[trigger] text[i], base) by {
            if i < front.len() {
                assert(text[i] == front[i]);
            }
        }
        assert(text[0] == front[0]);
    }
}

/// Every number reads back from its decimal and from its hexadecimal form, which have no zeros in
/// front.
pub proof fn law_numbers_read_back(n: nat)
    ensures
        says(crate::text::decimal(n), n, 10),
        says(crate::text::hexadecimal(n), n, 16),
{
    lemma_numeral_says(n, 10);
    lemma_numeral_says(n, 16);
}

/// Different numbers are written differently.
pub proof fn law_different_numbers_are_written_differently(a: nat, b: nat)
    requires
        a != b,
    ensures
        crate::text::decimal(a) != crate::text::decimal(b),
        crate::text::hexadecimal(a) != crate::text::hexadecimal(b),
{
    law_numbers_read_back(a);
    law_numbers_read_back(b);
}

/// A text of printable ASCII characters without quotes and backslashes stands in quotes as it is.
pub proof fn law_plain_text_stands_in_quotes_as_it_is(text: Seq<char>)
    requires
        forall|i: int|
            0 <= i < text.len() ==> '\u{20}' <= #[trigger] text[i] <= '\u{7e}' && text[i] != '"'
                && text[i] != '\'' && text[i] != '\\',
    ensures
        crate::text::in_quotes(text).len() == text.len() + 2,
        crate::text::in_quotes(text)[0] == '"',
        crate::text::in_quotes(text)[(text.len() + 1) as int] == '"',
        crate::text::in_quotes(text).subrange(1, (text.len() + 1) as int) == text,
{
    assert(crate::text::is_plain(text));
    assert(crate::text::in_quotes(text).subrange(1, (text.len() + 1) as int) =~= text);
}

} // verus!
