//! Text built from characters, with exact specifications.
use vstd::prelude::*;
use vstd::std_specs::iter::IteratorSpec;

verus! {

broadcast use vstd::string::axiom_spec_iter;

/// Appends the characters of `text` to `out`.
pub fn push_str(out: &mut Vec<char>, text: &str)
    ensures
        final(out)@ == old(out)@ + text@,
{
    let ghost start = out@;
    for c in iter: text.chars()
        invariant
            iter.seq() == text@,
            out@ == start + iter.seq().take(iter.index() as int),
    {
        proof {
            assert(iter.seq().take(iter.index() + 1) =~= iter.seq().take(iter.index() as int).push(c));
        }
        out.push(c);
    }
}

/// The lower-case hexadecimal digit of `digit`, which is below 16.
pub open spec fn hex_digit(digit: nat) -> char {
    if digit < 10 {
        (digit + 48) as char
    } else {
        (digit + 87) as char
    }
}

/// The decimal digit of `digit`, which is below 10.
pub open spec fn decimal_digit(digit: nat) -> char {
    (digit + 48) as char
}

/// The lower-case hexadecimal numeral of `value`, without leading zeros.
pub open spec fn hex_text(value: nat) -> Seq<char>
    decreases value,
{
    if value < 16 {
        seq![hex_digit(value)]
    } else {
        hex_text(value / 16).push(hex_digit(value % 16))
    }
}

/// The decimal numeral of `value`, without leading zeros.
pub open spec fn decimal_text(value: nat) -> Seq<char>
    decreases value,
{
    if value < 10 {
        seq![decimal_digit(value)]
    } else {
        decimal_text(value / 10).push(decimal_digit(value % 10))
    }
}

/// Whether a byte is shown as itself: an ASCII letter or digit, `_`, `-`,
/// `.` or `/`.
pub open spec fn is_plain_byte(byte: u8) -> bool {
    ||| 48 <= byte <= 57
    ||| 65 <= byte <= 90
    ||| 97 <= byte <= 122
    ||| byte == 95
    ||| byte == 45
    ||| byte == 46
    ||| byte == 47
}

/// A byte shown as itself, or as `\x` and two lower-case hexadecimal digits.
pub open spec fn escaped_byte(byte: u8) -> Seq<char> {
    if is_plain_byte(byte) {
        seq![byte as char]
    } else {
        seq!['\\', 'x', hex_digit(byte as nat / 16), hex_digit(byte as nat % 16)]
    }
}

/// The bytes shown one by one with [`escaped_byte`].
pub open spec fn escaped_text(bytes: Seq<u8>) -> Seq<char>
    decreases bytes.len(),
{
    if bytes.len() == 0 {
        Seq::empty()
    } else {
        escaped_text(bytes.drop_last()) + escaped_byte(bytes.last())
    }
}

fn hex_digit_char(digit: u8) -> (c: char)
    requires
        digit < 16,
    ensures
        c == hex_digit(digit as nat),
{
    if digit < 10 {
        (digit + 48) as char
    } else {
        (digit + 87) as char
    }
}

fn decimal_digit_char(digit: u8) -> (c: char)
    requires
        digit < 10,
    ensures
        c == decimal_digit(digit as nat),
{
    (digit + 48) as char
}

/// Appends the lower-case hexadecimal numeral of `value` to `out`.
pub fn push_hex(out: &mut Vec<char>, value: u64)
    ensures
        final(out)@ == old(out)@ + hex_text(value as nat),
    decreases value,
{
    if value >= 16 {
        push_hex(out, value / 16);
    }
    let digit = hex_digit_char((value % 16) as u8);
    out.push(digit);
    proof {
        if value < 16 {
            assert(hex_text(value as nat) == seq![hex_digit(value as nat)]);
        }
    }
}

/// Appends the decimal numeral of `value` to `out`.
pub fn push_decimal(out: &mut Vec<char>, value: u64)
    ensures
        final(out)@ == old(out)@ + decimal_text(value as nat),
    decreases value,
{
    if value >= 10 {
        push_decimal(out, value / 10);
    }
    let digit = decimal_digit_char((value % 10) as u8);
    out.push(digit);
    proof {
        if value < 10 {
            assert(decimal_text(value as nat) == seq![decimal_digit(value as nat)]);
        }
    }
}

/// Returns whether a byte is shown as itself.
fn is_plain(byte: u8) -> (plain: bool)
    ensures
        plain == is_plain_byte(byte),
{
    (48 <= byte && byte <= 57) || (65 <= byte && byte <= 90) || (97 <= byte && byte <= 122)
        || byte == 95 || byte == 45 || byte == 46 || byte == 47
}

/// Appends `bytes` to `out`, each shown with [`escaped_byte`].
pub fn push_escaped(out: &mut Vec<char>, bytes: &[u8])
    ensures
        final(out)@ == old(out)@ + escaped_text(bytes@),
{
    let ghost start = out@;
    let mut index: usize = 0;
    while index < bytes.len()
        invariant
            index <= bytes@.len(),
            out@ == start + escaped_text(bytes@.take(index as int)),
        decreases bytes@.len() - index,
    {
        let byte = bytes[index];
        if is_plain(byte) {
            out.push(byte as char);
        } else {
            out.push('\\');
            out.push('x');
            out.push(hex_digit_char(byte / 16));
            out.push(hex_digit_char(byte % 16));
        }
        proof {
            let next = bytes@.take(index + 1);
            assert(next.drop_last() =~= bytes@.take(index as int));
            assert(next.last() == byte);
            assert(out@ =~= start + escaped_text(next));
        }
        index = index + 1;
    }
    assert(bytes@.take(bytes@.len() as int) =~= bytes@);
}

/// Builds the string of `chars`, in order.
///
/// Calls `String::from_iter` on the characters; std documents that collecting
/// characters into a `String` yields exactly those characters in order.
#[verifier::external_body]
pub(crate) fn string_from_chars(chars: Vec<char>) -> (text: String)
    ensures
        text@ == chars@,
{
    String::from_iter(chars)
}

} // verus!
