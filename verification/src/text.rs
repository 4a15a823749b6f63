//! Pieces of text that the token readers and the renderers share: decimal
//! numerals, comparison of spellings, and joining with a separator.

use vstd::prelude::*;
use vstd::string::{is_ascii, StrSliceExecFns, StringExecFns};

verus! {

/// Whether `c` is one of the ten decimal digits.
pub open spec fn is_digit(c: char) -> bool {
    '0' <= c && c <= '9'
}

/// The number that the digit `c` stands for.
pub open spec fn digit_value(c: char) -> nat {
    (c as int - '0' as int) as nat
}

/// The digit that stands for `d`, a number below ten.
pub open spec fn digit_char(d: nat) -> char {
    (d + '0' as nat) as char
}

/// Whether all characters of `text` are decimal digits.
pub open spec fn all_digits(text: Seq<char>) -> bool {
    forall|i: int| 0 <= i < text.len() ==> is_digit(#[trigger] text[i])
}

/// The number that a row of decimal digits spells, most significant digit
/// first; the empty row spells zero.
pub open spec fn decimal_value(digits: Seq<char>) -> nat
    decreases digits.len(),
{
    if digits.len() == 0 {
        0
    } else {
        10 * decimal_value(digits.drop_last()) + digit_value(digits.last())
    }
}

/// The decimal numeral of `n`, without leading zeros.
pub open spec fn decimal_digits(n: nat) -> Seq<char>
    decreases n,
{
    if n < 10 {
        seq![digit_char(n)]
    } else {
        decimal_digits(n / 10).push(digit_char(n % 10))
    }
}

/// A numeral spells the number it was written for.
pub proof fn lemma_decimal_round_trip(n: nat)
    ensures
        all_digits(decimal_digits(n)),
        decimal_value(decimal_digits(n)) == n,
        decimal_digits(n).len() >= 1,
    decreases n,
{
    if n < 10 {
        let s = decimal_digits(n);
        assert(s.drop_last() =~= Seq::<char>::empty());
        assert(decimal_value(s.drop_last()) == 0);
    } else {
        lemma_decimal_round_trip(n / 10);
        let s = decimal_digits(n);
        assert(s.drop_last() =~= decimal_digits(n / 10));
    }
}

/// `String::push` of the standard library: the text grows by the one
/// character `c` at its end, and nothing else of it changes.
#[verifier::external_body]
pub(crate) fn push_char(text: &mut String, c: char)
    ensures
        final(text)@ == old(text)@.push(c),
{
    text.push(c);
}

/// Appends the decimal numeral of `n` to `text`.
pub fn push_decimal(text: &mut String, n: usize)
    ensures
        final(text)@ == old(text)@ + decimal_digits(n as nat),
    decreases n,
{
    if n >= 10 {
        push_decimal(text, n / 10);
    }
    let d: u8 = (n % 10) as u8;
    let c: char = (d + 48u8) as char;
    assert(c == digit_char((n % 10) as nat));
    push_char(text, c);
    assert(text@ =~= old(text)@ + decimal_digits(n as nat));
}

/// The decimal numeral of `n`.
pub fn decimal_string(n: usize) -> (text: String)
    ensures
        text@ == decimal_digits(n as nat),
{
    let mut text = String::new();
    push_decimal(&mut text, n);
    assert(text@ =~= decimal_digits(n as nat));
    text
}

/// Whether two texts are spelled the same.
pub fn same_text(a: &str, b: &str) -> (same: bool)
    ensures
        same == (a@ == b@),
{
    let x = String::from_str(a);
    let y = String::from_str(b);
    x == y
}

/// The number that `token` spells in decimal digits between `prefix` and
/// a closing round bracket. There is none where `token` does not begin with
/// `prefix`, does not end in the bracket, or holds anything but one digit
/// or more between them.
pub open spec fn bracketed_number(token: Seq<char>, prefix: Seq<char>) -> Option<nat> {
    let digits = token.subrange(prefix.len() as int, token.len() - 1);
    if token.len() >= prefix.len() + 2 && token.subrange(0, prefix.len() as int) == prefix
        && token.last() == ')' && all_digits(digits) {
        Some(decimal_value(digits))
    } else {
        None
    }
}

/// A number as a `usize`, where there is one and it is small enough.
pub open spec fn fitting(number: Option<nat>) -> Option<usize> {
    match number {
        Some(n) => if n <= usize::MAX {
            Some(n as usize)
        } else {
            None
        },
        None => None,
    }
}

/// The first digits of a numeral spell no more than all of them.
pub proof fn lemma_decimal_value_grows(digits: Seq<char>, k: int)
    requires
        0 <= k <= digits.len(),
    ensures
        decimal_value(digits.take(k)) <= decimal_value(digits),
    decreases digits.len() - k,
{
    if k < digits.len() {
        lemma_decimal_value_grows(digits.drop_last(), k);
        assert(digits.drop_last().take(k) =~= digits.take(k));
    } else {
        assert(digits.take(k) =~= digits);
    }
}

/// Reads the number that `token` spells between `prefix` and a closing
/// round bracket, where it fits a `usize`.
pub(crate) fn parse_bracketed_number(token: &str, prefix: &str) -> (number: Option<usize>)
    requires
        is_ascii(prefix),
    ensures
        number == fitting(bracketed_number(token@, prefix@)),
{
    let ghost digits = token@.subrange(prefix@.len() as int, token@.len() - 1);
    if !token.is_ascii() {
        proof {
            if bracketed_number(token@, prefix@) is Some {
                assert forall|i: int| 0 <= i < token@.len() implies '\0' <= #[trigger] token@[i]
                    <= '\u{7f}' by {
                    if i < prefix@.len() {
                        assert(token@[i] == token@.subrange(0, prefix@.len() as int)[i]);
                    } else if i < token@.len() - 1 {
                        assert(token@[i] == digits[i - prefix@.len()]);
                    }
                }
            }
        }
        return None;
    }
    let n = token.unicode_len();
    let p = prefix.unicode_len();
    if n < 2 || n - 2 < p {
        return None;
    }
    let mut i: usize = 0;
    while i < p
        invariant
            i <= p,
            p + 2 <= n,
            n == token@.len(),
            p == prefix@.len(),
            is_ascii(token),
            is_ascii(prefix),
            forall|j: int| 0 <= j < i ==> token@[j] == prefix@[j],
        decreases p - i,
    {
        if token.get_ascii(i) != prefix.get_ascii(i) {
            proof {
                assert(token@.subrange(0, p as int)[i as int] == token@[i as int]);
            }
            return None;
        }
        i += 1;
    }
    assert(token@.subrange(0, p as int) =~= prefix@);
    if token.get_ascii(n - 1) != 41u8 {
        return None;
    }
    let mut value: usize = 0;
    let mut k: usize = p;
    while k < n - 1
        invariant
            p <= k <= n - 1,
            n == token@.len(),
            p == prefix@.len(),
            is_ascii(token),
            digits == token@.subrange(p as int, n - 1),
            all_digits(digits.take(k - p)),
            value == decimal_value(digits.take(k - p)),
        decreases n - k,
    {
        let b = token.get_ascii(k);
        if b < 48u8 || b > 57u8 {
            proof {
                assert(digits[k - p] == token@[k as int]);
                assert(!is_digit(digits[k - p]));
            }
            return None;
        }
        let d: usize = (b - 48u8) as usize;
        proof {
            assert(digits[k - p] == token@[k as int]);
            assert(is_digit(digits[k - p]));
            assert(digits.take(k - p + 1).drop_last() =~= digits.take(k - p));
            assert(digits.take(k - p + 1).last() == digits[k - p]);
            assert(decimal_value(digits.take(k - p + 1)) == 10 * value + d);
        }
        if value > (usize::MAX - d) / 10 {
            proof {
                if all_digits(digits) {
                    lemma_decimal_value_grows(digits, k - p + 1);
                }
            }
            return None;
        }
        value = value * 10 + d;
        k += 1;
    }
    assert(digits.take(k - p) =~= digits);
    Some(value)
}

/// The texts of `parts` in a row, with `separator` between each two.
pub open spec fn joined(parts: Seq<Seq<char>>, separator: Seq<char>) -> Seq<char>
    decreases parts.len(),
{
    if parts.len() == 0 {
        Seq::empty()
    } else if parts.len() == 1 {
        parts[0]
    } else {
        joined(parts.drop_last(), separator) + separator + parts.last()
    }
}

/// Appends to `text` the texts of `parts`, with `separator` between each
/// two.
pub fn push_joined(text: &mut String, parts: &Vec<String>, separator: &str)
    ensures
        final(text)@ == old(text)@ + joined(parts.deep_view(), separator@),
{
    let ghost all = parts.deep_view();
    let mut i: usize = 0;
    assert(all.take(0) =~= Seq::<Seq<char>>::empty());
    assert(text@ =~= old(text)@ + joined(all.take(0), separator@));
    while i < parts.len()
        invariant
            i <= parts.len(),
            all == parts.deep_view(),
            text@ == old(text)@ + joined(all.take(i as int), separator@),
        decreases parts.len() - i,
    {
        proof {
            assert(all.take(i + 1).drop_last() =~= all.take(i as int));
            assert(all.take(i + 1).last() == parts[i as int]@);
            assert(all.take(i + 1).len() == i + 1);
            if i == 0 {
                assert(all.take(1)[0] == parts[0]@);
            }
        }
        if i > 0 {
            text.append(separator);
        }
        text.append(parts[i].as_str());
        assert(text@ =~= old(text)@ + joined(all.take(i + 1), separator@));
        i += 1;
    }
    assert(all.take(i as int) =~= all);
}

} // verus!
