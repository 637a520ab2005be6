//! Building the short texts that the reader shows: decimal numbers, padding, and
//! cutting a line to a number of characters.
use vstd::prelude::*;
use vstd::string::StringExecFns;

verus! {

/// `String::push` appends one character at the end of the string.
pub assume_specification[ String::push ](text: &mut String, character: char)
    ensures
        final(text)@ == old(text)@.push(character),
;

/// The decimal digit of a number below ten.
pub open spec fn digit(value: int) -> char {
    (value + 0x30) as char
}

/// A natural number in decimal, without leading zeros.
pub open spec fn decimal(value: nat) -> Seq<char>
    decreases value,
{
    if value < 10 {
        seq![digit(value as int)]
    } else {
        decimal(value / 10).push(digit((value % 10) as int))
    }
}

/// `count` copies of one character.
pub open spec fn repeated(character: char, count: nat) -> Seq<char> {
    Seq::new(count, |i: int| character)
}

/// A natural number in decimal, with zeros before it up to `width` characters.
pub open spec fn padded_decimal(value: nat, width: nat) -> Seq<char> {
    if decimal(value).len() >= width {
        decimal(value)
    } else {
        repeated('0', (width - decimal(value).len()) as nat) + decimal(value)
    }
}

/// The first `count` characters, or all of them where there are fewer.
pub open spec fn first_chars(text: Seq<char>, count: nat) -> Seq<char> {
    if text.len() <= count {
        text
    } else {
        text.take(count as int)
    }
}

/// The digit character of a number below ten.
pub fn digit_char(value: u8) -> (character: char)
    requires
        value < 10,
    ensures
        character == digit(value as int),
{
    (value + 0x30) as char
}

/// Appends a number in decimal.
pub fn push_decimal(text: &mut String, value: u64)
    ensures
        final(text)@ == old(text)@ + decimal(value as nat),
    decreases value,
{
    if value >= 10 {
        push_decimal(text, value / 10);
    }
    text.push(digit_char((value % 10) as u8));
    proof {
        assert(final(text)@ =~= old(text)@ + decimal(value as nat));
    }
}

/// How many digits a number has in decimal.
pub fn decimal_len(value: u64) -> (len: usize)
    ensures
        len == decimal(value as nat).len(),
        1 <= len <= 20,
{
    proof {
        decimal_len_is_monotone(value as nat, u64::MAX as nat);
        reveal_with_fuel(decimal, 20);
        assert(decimal(u64::MAX as nat).len() == 20);
    }
    let mut rest: u64 = value;
    let mut len: usize = 1;
    while rest >= 10
        invariant
            1 <= len,
            len + decimal(rest as nat).len() == decimal(value as nat).len() + 1,
            decimal(value as nat).len() <= 20,
            decimal(rest as nat).len() >= 1,
        decreases rest,
    {
        proof {
            decimal_is_not_empty(rest as nat / 10);
        }
        rest = rest / 10;
        len = len + 1;
    }
    len
}

/// Appends `count` copies of a character.
pub fn push_repeated(text: &mut String, character: char, count: usize)
    ensures
        final(text)@ == old(text)@ + repeated(character, count as nat),
{
    let ghost before = text@;
    let mut done: usize = 0;
    proof {
        assert(before + repeated(character, 0) =~= before);
    }
    while done < count
        invariant
            done <= count,
            text@ == before + repeated(character, done as nat),
        decreases count - done,
    {
        text.push(character);
        done = done + 1;
        proof {
            assert(text@ =~= before + repeated(character, done as nat));
        }
    }
}

/// A number in decimal, with zeros before it up to `width` characters.
pub fn padded_decimal_text(value: u64, width: usize) -> (text: String)
    ensures
        text@ == padded_decimal(value as nat, width as nat),
{
    let mut text = String::new();
    let len: usize = decimal_len(value);
    if len < width {
        push_repeated(&mut text, '0', width - len);
    }
    push_decimal(&mut text, value);
    proof {
        assert(text@ =~= padded_decimal(value as nat, width as nat));
    }
    text
}

/// The first `count` characters of a text.
pub fn take_chars(text: &str, count: usize) -> (taken: String)
    ensures
        taken@ == first_chars(text@, count as nat),
{
    let mut taken = String::new();
    let mut len: usize = 0;
    for character in it: text.chars()
        invariant
            it.seq() == text@,
            len == smaller_nat(it.index() as nat, count as nat),
            taken@ == text@.take(len as int),
    {
        if len < count {
            taken.push(character);
            len = len + 1;
            proof {
                assert(taken@ =~= text@.take(len as int));
            }
        }
    }
    proof {
        assert(taken@ =~= first_chars(text@, count as nat));
    }
    taken
}

spec fn smaller_nat(a: nat, b: nat) -> nat {
    if a <= b {
        a
    } else {
        b
    }
}

/// Characters that are cut off at both ends of a text.
#[derive(Debug, Clone, Copy, PartialEq, Eq, Structural)]
pub enum Margin {
    /// White space.
    Blank,
    /// Hyphens, underscores and dots.
    Joint,
}

impl Margin {
    /// Whether a character is cut off.
    pub open spec fn spec_holds(self, character: char) -> bool {
        match self {
            Margin::Blank => {
                ||| '\u{9}' <= character <= '\u{d}'
                ||| character == ' '
                ||| character == '\u{85}'
                ||| character == '\u{a0}'
                ||| character == '\u{1680}'
                ||| '\u{2000}' <= character <= '\u{200a}'
                ||| character == '\u{2028}'
                ||| character == '\u{2029}'
                ||| character == '\u{202f}'
                ||| character == '\u{205f}'
                ||| character == '\u{3000}'
            },
            Margin::Joint => character == '-' || character == '_' || character == '.',
        }
    }

    /// Whether a character is cut off.
    pub fn holds(&self, character: char) -> (holds: bool)
        ensures
            holds == self.spec_holds(character),
    {
        match self {
            Margin::Blank => ('\u{9}' <= character && character <= '\u{d}') || character == ' '
                || character == '\u{85}' || character == '\u{a0}' || character == '\u{1680}' || (
            '\u{2000}' <= character && character <= '\u{200a}') || character == '\u{2028}'
                || character == '\u{2029}' || character == '\u{202f}' || character == '\u{205f}'
                || character == '\u{3000}',
            Margin::Joint => character == '-' || character == '_' || character == '.',
        }
    }
}

/// A text without the margin at its start.
pub open spec fn start_trimmed(text: Seq<char>, margin: Margin) -> Seq<char>
    decreases text.len(),
{
    if text.len() > 0 && margin.spec_holds(text.first()) {
        start_trimmed(text.drop_first(), margin)
    } else {
        text
    }
}

/// A text without the margin at its end.
pub open spec fn end_trimmed(text: Seq<char>, margin: Margin) -> Seq<char>
    decreases text.len(),
{
    if text.len() > 0 && margin.spec_holds(text.last()) {
        end_trimmed(text.drop_last(), margin)
    } else {
        text
    }
}

/// A text without the margins at both ends.
pub open spec fn trimmed(text: Seq<char>, margin: Margin) -> Seq<char> {
    end_trimmed(start_trimmed(text, margin), margin)
}

/// A text without the margins at both ends.
pub fn trim_text(text: &str, margin: Margin) -> (kept: String)
    ensures
        kept@ == trimmed(text@, margin),
{
    let mut characters: Vec<char> = Vec::new();
    for character in it: text.chars()
        invariant
            it.seq() == text@,
            characters@ == text@.take(it.index()),
    {
        characters.push(character);
        proof {
            assert(characters@ =~= text@.take(it.index() + 1));
        }
    }
    proof {
        assert(characters@ =~= text@);
    }
    let mut start: usize = 0;
    proof {
        assert(text@.skip(0) =~= text@);
    }
    while start < characters.len() && margin.holds(characters[start])
        invariant
            characters@ == text@,
            start <= characters@.len(),
            start_trimmed(text@, margin) == start_trimmed(text@.skip(start as int), margin),
        decreases characters@.len() - start,
    {
        proof {
            assert(text@.skip(start as int).drop_first() =~= text@.skip(start + 1));
        }
        start = start + 1;
    }
    let ghost rest = text@.skip(start as int);
    proof {
        assert(start_trimmed(text@, margin) == rest);
        assert(text@.subrange(start as int, text@.len() as int) =~= rest);
    }
    let mut end: usize = characters.len();
    while start < end && margin.holds(characters[end - 1])
        invariant
            characters@ == text@,
            start <= end <= characters@.len(),
            trimmed(text@, margin) == end_trimmed(
                text@.subrange(start as int, end as int),
                margin,
            ),
        decreases end,
    {
        proof {
            assert(text@.subrange(start as int, end as int).drop_last() =~= text@.subrange(
                start as int,
                end - 1,
            ));
        }
        end = end - 1;
    }
    let mut kept = String::new();
    let mut index: usize = start;
    while index < end
        invariant
            characters@ == text@,
            start <= index <= end <= characters@.len(),
            kept@ == text@.subrange(start as int, index as int),
        decreases end - index,
    {
        kept.push(characters[index]);
        index = index + 1;
        proof {
            assert(kept@ =~= text@.subrange(start as int, index as int));
        }
    }
    kept
}

/// Trimming leaves no margin at either end, and only margin is cut off: what is kept
/// is a part of the text with nothing but margin around it.
pub proof fn only_margins_are_cut(text: Seq<char>, margin: Margin)
    ensures
        trimmed(text, margin).len() > 0 ==> !margin.spec_holds(trimmed(text, margin).first())
            && !margin.spec_holds(trimmed(text, margin).last()),
        exists|start: int, end: int|
            {
                &&& 0 <= start <= end <= text.len()
                &&& trimmed(text, margin) == #[trigger] text.subrange(start, end)
                &&& forall|i: int|
                    (0 <= i < start || end <= i < text.len()) ==> margin.spec_holds(
                        #[trigger] text[i],
                    )
            },
{
    let start = start_is_cut(text, margin);
    let rest = text.skip(start);
    let kept = end_is_cut(rest, margin);
    let end = start + kept;
    assert(rest.take(kept) =~= text.subrange(start, end));
    assert forall|i: int| end <= i < text.len() implies margin.spec_holds(#[trigger] text[i]) by {
        assert(text[i] == rest[i - start]);
    }
    if trimmed(text, margin).len() > 0 {
        assert(trimmed(text, margin).first() == rest.first());
    }
}

proof fn start_is_cut(text: Seq<char>, margin: Margin) -> (start: int)
    ensures
        0 <= start <= text.len(),
        start_trimmed(text, margin) == text.skip(start),
        start < text.len() ==> !margin.spec_holds(text[start]),
        forall|i: int| 0 <= i < start ==> margin.spec_holds(#[trigger] text[i]),
    decreases text.len(),
{
    if text.len() > 0 && margin.spec_holds(text.first()) {
        let rest = text.drop_first();
        let start = start_is_cut(rest, margin);
        assert(rest.skip(start) =~= text.skip(start + 1));
        assert forall|i: int| 0 <= i < start + 1 implies margin.spec_holds(#[trigger] text[i]) by {
            if i > 0 {
                assert(text[i] == rest[i - 1]);
            }
        }
        start + 1
    } else {
        assert(text.skip(0) =~= text);
        0
    }
}

proof fn end_is_cut(text: Seq<char>, margin: Margin) -> (end: int)
    ensures
        0 <= end <= text.len(),
        end_trimmed(text, margin) == text.take(end),
        end > 0 ==> !margin.spec_holds(text[end - 1]),
        forall|i: int| end <= i < text.len() ==> margin.spec_holds(#[trigger] text[i]),
    decreases text.len(),
{
    if text.len() > 0 && margin.spec_holds(text.last()) {
        let rest = text.drop_last();
        let end = end_is_cut(rest, margin);
        assert(rest.take(end) =~= text.take(end));
        assert forall|i: int| end <= i < text.len() implies margin.spec_holds(
            #[trigger] text[i],
        ) by {
            if i < text.len() - 1 {
                assert(text[i] == rest[i]);
            }
        }
        end
    } else {
        assert(text.take(text.len() as int) =~= text);
        text.len() as int
    }
}

pub proof fn decimal_is_not_empty(value: nat)
    ensures
        decimal(value).len() >= 1,
{
}

/// The number of decimal digits grows with the number.
pub proof fn decimal_len_is_monotone(less: nat, more: nat)
    requires
        less <= more,
    ensures
        decimal(less).len() <= decimal(more).len(),
    decreases more,
{
    if less >= 10 {
        decimal_len_is_monotone(less / 10, more / 10);
    } else {
        decimal_is_not_empty(more);
    }
}

/// The number that digits stand for, whatever zeros they begin with.
pub open spec fn number(digits: Seq<char>) -> int
    decreases digits.len(),
{
    if digits.len() == 0 {
        0
    } else {
        10 * number(digits.drop_last()) + (digits.last() as int - 0x30)
    }
}

proof fn number_of_decimal(zeros: nat, value: nat)
    ensures
        number(repeated('0', zeros) + decimal(value)) == value,
    decreases value,
{
    let digits = repeated('0', zeros) + decimal(value);
    assert(digit((value % 10) as int) as int == value % 10 + 0x30);
    assert(digits.last() == digit((value % 10) as int));
    if value >= 10 {
        assert(digits.drop_last() =~= repeated('0', zeros) + decimal(value / 10));
        number_of_decimal(zeros, value / 10);
    } else {
        assert(digits.drop_last() =~= repeated('0', zeros));
        number_of_zeros(zeros);
    }
}

proof fn number_of_zeros(zeros: nat)
    ensures
        number(repeated('0', zeros)) == 0,
    decreases zeros,
{
    if zeros > 0 {
        assert(repeated('0', zeros).drop_last() =~= repeated('0', (zeros - 1) as nat));
        number_of_zeros((zeros - 1) as nat);
    }
}

/// A padded decimal stands for its number.
pub proof fn padded_decimal_is_the_number(value: nat, width: nat)
    ensures
        number(padded_decimal(value, width)) == value,
{
    if decimal(value).len() >= width {
        number_of_decimal(0, value);
        assert(repeated('0', 0) + decimal(value) =~= decimal(value));
    } else {
        number_of_decimal((width - decimal(value).len()) as nat, value);
    }
}

/// Distinct numbers have distinct decimals.
pub proof fn decimal_is_injective(a: nat, b: nat)
    requires
        decimal(a) == decimal(b),
    ensures
        a == b,
{
    padded_decimal_is_the_number(a, 0);
    padded_decimal_is_the_number(b, 0);
}

/// A decimal is written with the digits from zero to nine and begins with a zero only if
/// that is all of it.
pub proof fn decimals_are_plain_digits(value: nat)
    ensures
        decimal(value).len() >= 1,
        forall|i: int|
            0 <= i < decimal(value).len() ==> '0' <= (#[trigger] decimal(value)[i]) <= '9',
        value > 0 ==> decimal(value)[0] != '0',
        number(decimal(value)) == value,
    decreases value,
{
    padded_decimal_is_the_number(value, 0);
    if value >= 10 {
        decimals_are_plain_digits(value / 10);
        let head = decimal(value / 10);
        assert(decimal(value)[0] == head[0]);
        assert forall|i: int| 0 <= i < decimal(value).len() implies '0' <= (
        #[trigger] decimal(value)[i]) <= '9' by {
            if i < head.len() {
                assert(decimal(value)[i] == head[i]);
            }
        }
    }
}

/// A padded decimal has at least the width asked for and no more than that and its digits
/// need, and what stands before the digits is zeros.
pub proof fn padding_is_zeros(value: nat, width: nat)
    ensures
        padded_decimal(value, width).len() == if decimal(value).len() >= width {
            decimal(value).len()
        } else {
            width
        },
        ({
            let zeros = padded_decimal(value, width).len() - decimal(value).len();
            &&& padded_decimal(value, width).skip(zeros) == decimal(value)
            &&& forall|i: int| 0 <= i < zeros ==> #[trigger] padded_decimal(value, width)[i] == '0'
        }),
{
    let zeros = padded_decimal(value, width).len() - decimal(value).len();
    assert(padded_decimal(value, width).skip(zeros) =~= decimal(value));
}

/// The first characters of a text are the ones that it begins with, as many as were asked
/// for or as there are.
pub proof fn first_characters_begin_the_text(text: Seq<char>, count: nat)
    ensures
        first_chars(text, count).len() == if text.len() <= count {
            text.len()
        } else {
            count
        },
        forall|i: int|
            0 <= i < first_chars(text, count).len() ==> #[trigger] first_chars(text, count)[i]
                == text[i],
{
}

/// Repeating a character gives that many of it and nothing else.
pub proof fn repetitions_hold_one_character(character: char, count: nat)
    ensures
        repeated(character, count).len() == count,
        forall|i: int| 0 <= i < count ==> #[trigger] repeated(character, count)[i] == character,
{
}

/// Joints are hyphens, underscores and dots.
pub proof fn joints_are_three_characters(character: char)
    ensures
        Margin::Joint.spec_holds(character) <==> character == '-' || character == '_' || character
            == '.',
{
}

/// A decimal ends with the digit for the rest of a division by ten, behind the decimal of
/// the quotient.
pub proof fn decimals_grow_by_one_digit(value: nat)
    ensures
        decimal(value).last() as int == '0' as int + value % 10,
        value < 10 ==> decimal(value).len() == 1,
        value >= 10 ==> decimal(value).drop_last() == decimal(value / 10),
{
    if value >= 10 {
        assert(decimal(value).drop_last() =~= decimal(value / 10));
    }
}

/// Blank are the control characters from the tabulator to the carriage return, the space
/// and the other white space of Unicode.
pub proof fn blanks_are_white_space(character: char)
    ensures
        Margin::Blank.spec_holds(character) <==> {
            let code = character as int;
            ||| 9 <= code <= 13
            ||| code == 0x20
            ||| code == 0x85
            ||| code == 0xa0
            ||| code == 0x1680
            ||| 0x2000 <= code <= 0x200a
            ||| code == 0x2028
            ||| code == 0x2029
            ||| code == 0x202f
            ||| code == 0x205f
            ||| code == 0x3000
        },
{
}

} // verus!
