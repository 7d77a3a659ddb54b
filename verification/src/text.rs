//! Display text: decimal numerals and minimum-width alignment.

use vstd::prelude::*;
use vstd::string::*;

verus! {

/// `String::push` of the standard library: the character is appended at the
/// end and the rest of the text is unchanged.
pub assume_specification[ String::push ](text: &mut String, ch: char)
    ensures
        final(text)@ == old(text)@.push(ch),
;

/// The glyph of one decimal digit.
pub open spec fn digit_glyph(d: int) -> char {
    seq!['0', '1', '2', '3', '4', '5', '6', '7', '8', '9'][d]
}

/// The decimal numeral of `n`, most significant digit first, without sign,
/// separators or leading zeros.
pub open spec fn decimal_text(n: nat) -> Seq<char>
    decreases n,
{
    if n < 10 {
        seq![digit_glyph(n as int)]
    } else {
        decimal_text(n / 10).push(digit_glyph((n % 10) as int))
    }
}

/// A decimal numeral has at least one digit.
pub proof fn lemma_decimal_not_empty(n: nat)
    ensures
        decimal_text(n).len() > 0,
{
}

/// `count` blanks.
pub open spec fn spaces(count: nat) -> Seq<char> {
    Seq::new(count, |i: int| ' ')
}

/// The blanks that bring a field of `len` characters up to `width`.
pub open spec fn padding(width: nat, len: nat) -> Seq<char> {
    spaces(
        if len < width {
            (width - len) as nat
        } else {
            0
        },
    )
}

/// `field` followed by the blanks that bring it up to `width` characters; a
/// longer field is kept whole.
pub open spec fn left_aligned(field: Seq<char>, width: nat) -> Seq<char> {
    field + padding(width, field.len())
}

/// `field` preceded by the blanks that bring it up to `width` characters; a
/// longer field is kept whole.
pub open spec fn right_aligned(field: Seq<char>, width: nat) -> Seq<char> {
    padding(width, field.len()) + field
}

fn digit_char(d: u64) -> (c: char)
    requires
        d < 10,
    ensures
        c == digit_glyph(d as int),
{
    if d == 0 {
        '0'
    } else if d == 1 {
        '1'
    } else if d == 2 {
        '2'
    } else if d == 3 {
        '3'
    } else if d == 4 {
        '4'
    } else if d == 5 {
        '5'
    } else if d == 6 {
        '6'
    } else if d == 7 {
        '7'
    } else if d == 8 {
        '8'
    } else {
        '9'
    }
}

/// Appends the decimal numeral of `n`.
pub fn push_decimal(text: &mut String, n: u64)
    ensures
        final(text)@ == old(text)@ + decimal_text(n as nat),
    decreases n,
{
    if n >= 10 {
        push_decimal(text, n / 10);
    }
    text.push(digit_char(n % 10));
}

/// The decimal numeral of `n` as a string.
pub fn decimal_string(n: u64) -> (text: String)
    ensures
        text@ == decimal_text(n as nat),
{
    let mut text = String::new();
    push_decimal(&mut text, n);
    text
}

/// Appends `count` blanks.
pub fn push_spaces(text: &mut String, count: usize)
    ensures
        final(text)@ == old(text)@ + spaces(count as nat),
{
    let mut done: usize = 0;
    while done < count
        invariant
            done <= count,
            text@ == old(text)@ + spaces(done as nat),
        decreases count - done,
    {
        text.push(' ');
        done = done + 1;
    }
}

/// Appends `field`, left-aligned in at least `width` columns.
pub fn push_left_aligned(text: &mut String, field: &str, width: usize)
    ensures
        final(text)@ == old(text)@ + left_aligned(field@, width as nat),
{
    let len = field.unicode_len();
    text.append(field);
    if len < width {
        push_spaces(text, width - len);
    }
}

/// Appends `field`, right-aligned in at least `width` columns.
pub fn push_right_aligned(text: &mut String, field: &str, width: usize)
    ensures
        final(text)@ == old(text)@ + right_aligned(field@, width as nat),
{
    let len = field.unicode_len();
    if len < width {
        push_spaces(text, width - len);
    }
    text.append(field);
}

/// Whether `target` occurs in `text`.
pub fn contains_char(text: &str, target: char) -> (found: bool)
    ensures
        found == text@.contains(target),
{
    let mut found = false;
    for c in it: text.chars()
        invariant
            it.seq() == text@,
            found == text@.take(it.index() as int).contains(target),
    {
        proof {
            let before = text@.take(it.index() as int);
            let after = text@.take(it.index() + 1);
            assert(after == before.push(c));
            assert(after.contains(target) <==> before.contains(target) || c == target) by {
                if before.contains(target) {
                    let i = choose|i: int| 0 <= i < before.len() && before[i] == target;
                    assert(after[i] == target);
                }
                if c == target {
                    assert(after[after.len() - 1] == target);
                }
            }
        }
        if c == target {
            found = true;
        }
    }
    assert(text@.take(text@.len() as int) == text@);
    found
}

/// Whether `text` begins with `first`.
pub fn starts_with_char(text: &str, first: char) -> (starts: bool)
    ensures
        starts == (text@.len() > 0 && text@[0] == first),
{
    if text.unicode_len() == 0 {
        false
    } else {
        text.get_char(0) == first
    }
}

} // verus!
