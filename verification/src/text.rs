//! Building report text: numbers in decimal and hexadecimal, and substring search.
use vstd::prelude::*;

verus! {

/// `String::push`: appends one character to the end of the string.
pub assume_specification[ String::push ](s: &mut String, c: char)
    ensures
        final(s)@ == old(s)@.push(c),
;

/// Whether `needle` occurs in `haystack` as a run of consecutive characters.
pub open spec fn occurs_in(needle: Seq<char>, haystack: Seq<char>) -> bool {
    exists|i: int|
        0 <= i <= haystack.len() - needle.len() && #[trigger] haystack.subrange(
            i,
            i + needle.len(),
        ) == needle
}

/// `str::contains` with a string pattern: whether the pattern matches a substring of the text.
#[verifier::external_body]
pub(crate) fn contains_str(haystack: &str, needle: &str) -> (found: bool)
    ensures
        found == occurs_in(needle@, haystack@),
{
    haystack.contains(needle)
}

/// Whether a text is made of printable ASCII characters other than quotes and backslashes.
pub open spec fn is_plain(text: Seq<char>) -> bool {
    forall|i: int|
        0 <= i < text.len() ==> ' ' <= #[trigger] text[i] <= '~' && text[i] != '"' && text[i] != '\''
            && text[i] != '\\'
}

/// The text of a string in double quotes, with everything that does not print escaped, as the
/// standard `Debug` form writes it.
pub uninterp spec fn quoted(text: Seq<char>) -> Seq<char>;

/// A text in double quotes: as it is where it is plain, and otherwise with what has to be escaped
/// escaped.
pub open spec fn in_quotes(text: Seq<char>) -> Seq<char> {
    if is_plain(text) {
        seq!['"'] + text + seq!['"']
    } else {
        quoted(text)
    }
}

/// The `{:?}` form of a string slice (`<str as Debug>::fmt`), which depends on the text alone: a
/// plain text stands in double quotes as it is.  Which other characters are escaped, and how, is not
/// stated.
#[verifier::external_body]
pub(crate) fn quote(text: &str) -> (r: String)
    ensures
        is_plain(text@) ==> r@ == seq!['"'] + text@ + seq!['"'],
        !is_plain(text@) ==> r@ == quoted(text@),
{
    format!("{:?}", text)
}

/// The character for one digit in a base up to sixteen, letters in lower case.
pub open spec fn digit_char(d: nat) -> char {
    if d < 10 {
        (48 + d) as char
    } else {
        (87 + d) as char
    }
}

/// A number written in the given base, most significant digit first, without leading zeros.
pub open spec fn numeral(n: nat, base: nat) -> Seq<char>
    decreases n,
{
    if base < 2 || n < base {
        seq![digit_char(n)]
    } else {
        proof {
            assert(n / base < n) by (nonlinear_arith)
                requires
                    2 <= base <= n,
            ;
        }
        numeral(n / base, base).push(digit_char(n % base))
    }
}

/// A number in decimal.
pub open spec fn decimal(n: nat) -> Seq<char> {
    numeral(n, 10)
}

/// A number in lower-case hexadecimal.
pub open spec fn hexadecimal(n: nat) -> Seq<char> {
    numeral(n, 16)
}

fn append_numeral(out: &mut String, n: u64, base: u64)
    requires
        2 <= base <= 16,
    ensures
        final(out)@ == old(out)@ + numeral(n as nat, base as nat),
    decreases n,
{
    let ghost before = out@;
    if n >= base {
        assert(n / base < n) by (nonlinear_arith)
            requires
                2 <= base <= n,
        ;
        append_numeral(out, n / base, base);
    }
    assert(n % base < base) by (nonlinear_arith)
        requires
            2 <= base,
    ;
    let digit: u8 = (n % base) as u8;
    if digit < 10 {
        out.push((48 + digit) as char);
    } else {
        out.push((87 + digit) as char);
    }
    proof {
        if n < base {
            assert(n % base == n) by (nonlinear_arith)
                requires
                    n < base,
            ;
        }
        assert(out@ =~= before + numeral(n as nat, base as nat));
    }
}

/// Appends `n` in decimal.
pub(crate) fn append_decimal(out: &mut String, n: u64)
    ensures
        final(out)@ == old(out)@ + decimal(n as nat),
{
    append_numeral(out, n, 10);
}

/// Appends `n` in lower-case hexadecimal.
pub(crate) fn append_hexadecimal(out: &mut String, n: u64)
    ensures
        final(out)@ == old(out)@ + hexadecimal(n as nat),
{
    append_numeral(out, n, 16);
}

} // verus!
