//! Text helpers: comparison, decimal numbers, lines and tokens.

use vstd::prelude::*;
use vstd::string::StrSliceExecFns;
use vstd::string::StringExecFns;

verus! {

/// Whether two texts hold the same characters.
pub fn same_text(left: &str, right: &str) -> (same: bool)
    ensures
        same == (left@ == right@),
{
    left.to_owned() == right.to_owned()
}

/// The characters of a text, in order.
pub fn chars_of(text: &str) -> (chars: Vec<char>)
    ensures
        chars@ == text@,
{
    let count: usize = text.unicode_len();
    let mut chars: Vec<char> = Vec::new();
    let mut index: usize = 0;
    while index < count
        invariant
            index <= count,
            count == text@.len(),
            chars@ == text@.take(index as int),
        decreases count - index,
    {
        chars.push(text.get_char(index));
        index = index + 1;
        assert(text@.take(index as int) =~= text@.take(index - 1).push(text@[index - 1]));
    }
    assert(text@.take(count as int) =~= text@);
    chars
}

/// The Unicode `White_Space` property.
pub open spec fn whitespace(c: char) -> bool {
    ||| 0x09 <= c as u32 <= 0x0d
    ||| c as u32 == 0x20
    ||| c as u32 == 0x85
    ||| c as u32 == 0xa0
    ||| c as u32 == 0x1680
    ||| 0x2000 <= c as u32 <= 0x200a
    ||| c as u32 == 0x2028
    ||| c as u32 == 0x2029
    ||| c as u32 == 0x202f
    ||| c as u32 == 0x205f
    ||| c as u32 == 0x3000
}

/// Whether a character is Unicode white space.
pub fn is_whitespace(c: char) -> (yes: bool)
    ensures
        yes == whitespace(c),
{
    let code: u32 = c as u32;
    (0x09 <= code && code <= 0x0d) || code == 0x20 || code == 0x85 || code == 0xa0 || code == 0x1680
        || (0x2000 <= code && code <= 0x200a) || code == 0x2028 || code == 0x2029 || code == 0x202f
        || code == 0x205f || code == 0x3000
}

/// Why a decimal number was refused.
#[derive(Clone, Copy, Debug, PartialEq, Eq, Structural)]
pub enum ParseFailure {
    /// The text is empty.
    Empty,
    /// A character is not a decimal digit.
    InvalidDigit,
    /// The value does not fit.
    TooLarge,
}

impl ParseFailure {
    /// The words that describe the failure.
    pub open spec fn words(self) -> Seq<char> {
        match self {
            ParseFailure::Empty => "cannot parse integer from empty string"@,
            ParseFailure::InvalidDigit => "invalid digit found in string"@,
            ParseFailure::TooLarge => "number too large to fit in target type"@,
        }
    }

    /// The words that describe the failure.
    pub fn message(&self) -> (text: String)
        ensures
            text@ == self.words(),
    {
        match self {
            ParseFailure::Empty => String::from_str("cannot parse integer from empty string"),
            ParseFailure::InvalidDigit => String::from_str("invalid digit found in string"),
            ParseFailure::TooLarge => String::from_str("number too large to fit in target type"),
        }
    }
}

/// Whether a character is an ASCII decimal digit.
pub open spec fn decimal_digit(c: char) -> bool {
    0x30 <= c as u32 <= 0x39
}

/// The value of a run of digits that continues a number whose digits so far
/// are worth `value`. The first character that cannot continue decides.
pub open spec fn digits_value(digits: Seq<char>, value: nat, max: nat) -> Result<nat, ParseFailure>
    decreases digits.len(),
{
    if digits.len() == 0 {
        Ok(value)
    } else if !decimal_digit(digits[0]) {
        Err(ParseFailure::InvalidDigit)
    } else {
        let next = (value * 10 + (digits[0] as u32 - 0x30)) as nat;
        if next > max {
            Err(ParseFailure::TooLarge)
        } else {
            digits_value(digits.drop_first(), next, max)
        }
    }
}

/// The unsigned number that a text denotes: digits, after an optional plus.
pub open spec fn unsigned_value(text: Seq<char>, max: nat) -> Result<nat, ParseFailure> {
    if text.len() == 0 {
        Err(ParseFailure::Empty)
    } else if text.len() > 1 && text[0] == '+' {
        digits_value(text.drop_first(), 0, max)
    } else {
        digits_value(text, 0, max)
    }
}

/// Reads an unsigned number no greater than `max`.
pub fn parse_unsigned(text: &Vec<char>, max: u64) -> (number: Result<u64, ParseFailure>)
    ensures
        match number {
            Ok(value) => unsigned_value(text@, max as nat) == Ok::<nat, ParseFailure>(value as nat),
            Err(failure) => unsigned_value(text@, max as nat) == Err::<nat, ParseFailure>(failure),
        },
{
    if text.len() == 0 {
        return Err(ParseFailure::Empty);
    }
    let mut index: usize = if text.len() > 1 && text[0] == '+' { 1 } else { 0 };
    let mut value: u64 = 0;
    proof {
        assert(text@.skip(0) =~= text@);
        assert(text@.skip(1) =~= text@.drop_first());
    }
    while index < text.len()
        invariant
            index <= text.len(),
            value <= max,
            unsigned_value(text@, max as nat) == digits_value(
                text@.skip(index as int),
                value as nat,
                max as nat,
            ),
        decreases text.len() - index,
    {
        let code: u32 = text[index] as u32;
        assert(text@.skip(index as int).drop_first() =~= text@.skip(index + 1));
        if code < 0x30 || code > 0x39 {
            return Err(ParseFailure::InvalidDigit);
        }
        let digit: u64 = (code - 0x30) as u64;
        if value > max / 10 {
            assert(value * 10 > max);
            return Err(ParseFailure::TooLarge);
        }
        let shifted: u64 = value * 10;
        if digit > max - shifted {
            return Err(ParseFailure::TooLarge);
        }
        value = shifted + digit;
        index = index + 1;
    }
    assert(text@.skip(index as int).len() == 0);
    Ok(value)
}

/// The signed number that a text denotes, where it denotes one of 64 bits:
/// digits, after an optional sign.
pub open spec fn signed_value(text: Seq<char>) -> Option<int> {
    if text.len() > 1 && text[0] == '-' {
        match digits_value(text.drop_first(), 0, 0x8000_0000_0000_0000) {
            Ok(value) => Some(-(value as int)),
            Err(_) => None,
        }
    } else {
        match unsigned_value(text, 0x7fff_ffff_ffff_ffff) {
            Ok(value) => Some(value as int),
            Err(_) => None,
        }
    }
}

/// Reads a signed number of 64 bits.
pub fn parse_signed(text: &str) -> (number: Option<i64>)
    ensures
        match number {
            Some(number) => signed_value(text@) == Some(number as int),
            None => signed_value(text@) is None,
        },
{
    let mut chars = chars_of(text);
    if chars.len() > 1 && chars[0] == '-' {
        if chars[1] == '+' {
            assert(text@.drop_first()[0] == '+');
            return None;
        }
        chars.remove(0);
        assert(chars@ =~= text@.drop_first());
        match parse_unsigned(&chars, 0x8000_0000_0000_0000) {
            Ok(value) => {
                proof {
                    lemma_digits_bounded(chars@, 0, 0x8000_0000_0000_0000);
                }
                if value == 0x8000_0000_0000_0000 {
                    Some(i64::MIN)
                } else {
                    Some(-(value as i64))
                }
            },
            Err(_) => None,
        }
    } else {
        match parse_unsigned(&chars, 0x7fff_ffff_ffff_ffff) {
            Ok(value) => {
                proof {
                    if chars@.len() > 1 && chars@[0] == '+' {
                        lemma_digits_bounded(chars@.drop_first(), 0, 0x7fff_ffff_ffff_ffff);
                    } else {
                        lemma_digits_bounded(chars@, 0, 0x7fff_ffff_ffff_ffff);
                    }
                }
                Some(value as i64)
            },
            Err(_) => None,
        }
    }
}

/// A number that was read is no greater than the greatest allowed.
proof fn lemma_digits_bounded(digits: Seq<char>, value: nat, max: nat)
    requires
        value <= max,
    ensures
        digits_value(digits, value, max) matches Ok(read) ==> read <= max,
    decreases digits.len(),
{
    if digits.len() > 0 && decimal_digit(digits[0]) {
        let next = (value * 10 + (digits[0] as u32 - 0x30)) as nat;
        if next <= max {
            lemma_digits_bounded(digits.drop_first(), next, max);
        }
    }
}

/// The decimal digits of a number.
pub open spec fn decimal(number: nat) -> Seq<char>
    decreases number,
{
    if number < 10 {
        seq![digit_char(number)]
    } else {
        decimal(number / 10).push(digit_char(number % 10))
    }
}

/// The character of one digit.
pub open spec fn digit_char(digit: nat) -> char {
    (0x30 + digit) as char
}

/// The text of one digit.
fn digit_text(digit: u64) -> (text: &'static str)
    requires
        digit < 10,
    ensures
        text@ == seq![digit_char(digit as nat)],
{
    proof {
        reveal_strlit("0");
        reveal_strlit("1");
        reveal_strlit("2");
        reveal_strlit("3");
        reveal_strlit("4");
        reveal_strlit("5");
        reveal_strlit("6");
        reveal_strlit("7");
        reveal_strlit("8");
        reveal_strlit("9");
    }
    let text: &'static str = if digit == 0 {
        "0"
    } else if digit == 1 {
        "1"
    } else if digit == 2 {
        "2"
    } else if digit == 3 {
        "3"
    } else if digit == 4 {
        "4"
    } else if digit == 5 {
        "5"
    } else if digit == 6 {
        "6"
    } else if digit == 7 {
        "7"
    } else if digit == 8 {
        "8"
    } else {
        "9"
    };
    assert(text@ =~= seq![digit_char(digit as nat)]);
    text
}

/// Writes a number in decimal.
pub fn render_decimal(number: u64) -> (text: String)
    ensures
        text@ == decimal(number as nat),
    decreases number,
{
    if number < 10 {
        String::from_str(digit_text(number))
    } else {
        let mut text = render_decimal(number / 10);
        text.append(digit_text(number % 10));
        assert(text@ =~= decimal(number as nat / 10).push(digit_char(number as nat % 10)));
        text
    }
}

/// A number's digits, read back after other digits, continue that number.
proof fn lemma_decimal_continues(number: nat, tail: Seq<char>, max: nat)
    requires
        number <= max,
    ensures
        digits_value(decimal(number) + tail, 0, max) == digits_value(tail, number, max),
        decimal(number).len() > 0,
        decimal_digit(decimal(number)[0]),
    decreases number,
{
    let digit = number % 10;
    if number < 10 {
        let all = decimal(number) + tail;
        assert(all[0] == digit_char(number));
        assert(all.drop_first() =~= tail);
    } else {
        let step = seq![digit_char(digit)] + tail;
        lemma_decimal_continues(number / 10, step, max);
        assert(decimal(number) + tail =~= decimal(number / 10) + step);
        assert(step[0] == digit_char(digit));
        assert(step.drop_first() =~= tail);
        assert((number / 10) * 10 + digit == number);
    }
}

/// Reading back a written number gives the number.
pub proof fn law_decimal_reads_back(number: nat, max: nat)
    requires
        number <= max,
    ensures
        unsigned_value(decimal(number), max) == Ok::<nat, ParseFailure>(number),
{
    lemma_decimal_continues(number, Seq::empty(), max);
    assert(decimal(number) + Seq::<char>::empty() =~= decimal(number));
}

/// The numbers of a list in decimal, separated by commas.
pub open spec fn comma_separated(numbers: Seq<u64>) -> Seq<char>
    decreases numbers.len(),
{
    if numbers.len() == 0 {
        Seq::empty()
    } else if numbers.len() == 1 {
        decimal(numbers[0] as nat)
    } else {
        comma_separated(numbers.drop_last()) + ","@ + decimal(numbers.last() as nat)
    }
}

/// Writes the numbers of a list in decimal, separated by commas.
pub fn join_decimals(numbers: &Vec<u64>) -> (text: String)
    ensures
        text@ == comma_separated(numbers@),
{
    let mut text = String::new();
    let mut index: usize = 0;
    while index < numbers.len()
        invariant
            index <= numbers.len(),
            text@ == comma_separated(numbers@.take(index as int)),
        decreases numbers.len() - index,
    {
        let ghost before = numbers@.take(index as int);
        if index > 0 {
            text.append(",");
        }
        text.append(render_decimal(numbers[index]).as_str());
        index = index + 1;
        proof {
            let after = numbers@.take(index as int);
            assert(after.drop_last() =~= before);
            assert(after.last() == numbers@[index - 1]);
            if before.len() == 0 {
                assert(text@ =~= decimal(numbers@[0] as nat));
            } else {
                assert(text@ =~= comma_separated(before) + ","@ + decimal(after.last() as nat));
            }
        }
    }
    assert(numbers@.take(numbers.len() as int) =~= numbers@);
    text
}

/// The place of the first `separator`, or the length where there is none.
pub open spec fn first_place(text: Seq<char>, separator: char) -> nat
    decreases text.len(),
{
    if text.len() == 0 || text[0] == separator {
        0
    } else {
        1 + first_place(text.drop_first(), separator)
    }
}

/// The first separator is within the text or behind its end.
pub proof fn lemma_first_place(text: Seq<char>, separator: char)
    ensures
        first_place(text, separator) <= text.len(),
        first_place(text, separator) < text.len() ==> text[first_place(text, separator) as int]
            == separator,
        forall|index: int|
            0 <= index < first_place(text, separator) ==> #[trigger] text[index] != separator,
    decreases text.len(),
{
    if text.len() > 0 && text[0] != separator {
        let rest = text.drop_first();
        lemma_first_place(rest, separator);
        assert forall|index: int| 0 <= index < first_place(text, separator) implies #[trigger]
            text[index] != separator by {
            if index > 0 {
                assert(rest[index - 1] == text[index]);
            }
        }
    }
}

/// The pieces of a text between its separators.
pub open spec fn pieces(text: Seq<char>, separator: char) -> Seq<Seq<char>>
    decreases text.len(),
    via pieces_shrink
{
    let place = first_place(text, separator);
    if place >= text.len() {
        seq![text]
    } else {
        seq![text.take(place as int)] + pieces(text.skip(place as int + 1), separator)
    }
}

#[via_fn]
proof fn pieces_shrink(text: Seq<char>, separator: char) {
    lemma_first_place(text, separator);
}

/// The views of a list of texts.
pub open spec fn text_views(texts: Seq<String>) -> Seq<Seq<char>> {
    texts.map_values(|text: String| text@)
}

/// Cuts a text at its separators.
pub fn split_on(text: &str, separator: char) -> (parts: Vec<String>)
    ensures
        text_views(parts@) == pieces(text@, separator),
{
    let chars = chars_of(text);
    let mut parts: Vec<String> = Vec::new();
    let mut from: usize = 0;
    assert(text@.skip(0) =~= text@);
    assert(text_views(parts@) + pieces(text@, separator) =~= pieces(text@, separator));
    loop
        invariant
            from <= chars@.len(),
            chars@ == text@,
            text_views(parts@) + pieces(text@.skip(from as int), separator) == pieces(
                text@,
                separator,
            ),
        decreases chars@.len() - from,
    {
        let ghost rest = text@.skip(from as int);
        let mut end: usize = from;
        while end < chars.len() && chars[end] != separator
            invariant
                from <= end <= chars@.len(),
                chars@ == text@,
                rest == text@.skip(from as int),
                first_place(rest, separator) == end - from + first_place(
                    text@.skip(end as int),
                    separator,
                ),
            decreases chars.len() - end,
        {
            assert(text@.skip(end as int).drop_first() =~= text@.skip(end + 1));
            end = end + 1;
        }
        let ghost before = text_views(parts@);
        parts.push(text.substring_char(from, end).to_owned());
        proof {
            assert(rest.take(end - from) =~= text@.subrange(from as int, end as int));
            assert(text_views(parts@) =~= before.push(rest.take(end - from)));
        }
        if end >= chars.len() {
            proof {
                assert(rest.take(end - from) =~= rest);
                assert(before + pieces(rest, separator) =~= text_views(parts@));
            }
            return parts;
        }
        proof {
            assert(rest.skip(end - from + 1) =~= text@.skip(end + 1));
            assert(before + pieces(rest, separator) =~= text_views(parts@) + pieces(
                text@.skip(end + 1),
                separator,
            ));
        }
        from = end + 1;
    }
}

/// The small letter for an ASCII capital; any other character is itself.
pub open spec fn ascii_lower(c: char) -> char {
    if 'A' <= c && c <= 'Z' {
        (c as u32 + 32) as char
    } else {
        c
    }
}

/// A text with small letters for ASCII capitals.
pub open spec fn lowered(text: Seq<char>) -> Seq<char> {
    text.map_values(|c: char| ascii_lower(c))
}

/// A text with small letters for ASCII capitals.
pub fn lower_text(text: &str) -> (lower: String)
    ensures
        lower@ == lowered(text@),
{
    let letters = "abcdefghijklmnopqrstuvwxyz";
    proof {
        reveal_strlit("abcdefghijklmnopqrstuvwxyz");
    }
    let chars = chars_of(text);
    let mut lower = String::new();
    let mut index: usize = 0;
    assert(lower@ =~= lowered(text@.take(0)));
    while index < chars.len()
        invariant
            index <= chars.len(),
            chars@ == text@,
            letters@.len() == 26,
            forall|i: int| 0 <= i < 26 ==> #[trigger] letters@[i] == (0x61 + i) as char,
            lower@ == lowered(text@.take(index as int)),
        decreases chars.len() - index,
    {
        let ghost before = lower@;
        let c = chars[index];
        if 'A' <= c && c <= 'Z' {
            let place: usize = (c as u32 - 0x41) as usize;
            lower.append(letters.substring_char(place, place + 1));
            assert(letters@[place as int] == ascii_lower(c));
            assert(lower@ =~= before.push(ascii_lower(c)));
        } else {
            lower.append(text.substring_char(index, index + 1));
            assert(lower@ =~= before.push(ascii_lower(c)));
        }
        index = index + 1;
        assert(lower@ =~= lowered(text@.take(index as int)));
    }
    assert(text@.take(index as int) =~= text@);
    lower
}

/// A text without its leading white space.
pub open spec fn without_leading_space(text: Seq<char>) -> Seq<char>
    decreases text.len(),
{
    if text.len() > 0 && whitespace(text[0]) {
        without_leading_space(text.drop_first())
    } else {
        text
    }
}

/// A text without its trailing white space.
pub open spec fn without_trailing_space(text: Seq<char>) -> Seq<char>
    decreases text.len(),
{
    if text.len() > 0 && whitespace(text.last()) {
        without_trailing_space(text.drop_last())
    } else {
        text
    }
}

/// A text without the white space around it.
pub open spec fn stripped(text: Seq<char>) -> Seq<char> {
    without_trailing_space(without_leading_space(text))
}

/// A text without the white space around it.
pub fn strip_space(text: &str) -> (inner: &str)
    ensures
        inner@ == stripped(text@),
{
    let chars = chars_of(text);
    let mut from: usize = 0;
    assert(text@.skip(0) =~= text@);
    while from < chars.len() && is_whitespace(chars[from])
        invariant
            from <= chars.len(),
            chars@ == text@,
            without_leading_space(text@) == without_leading_space(text@.skip(from as int)),
        decreases chars.len() - from,
    {
        assert(text@.skip(from as int).drop_first() =~= text@.skip(from + 1));
        from = from + 1;
    }
    let ghost rest = text@.skip(from as int);
    assert(without_leading_space(text@) == rest);
    let mut to: usize = chars.len();
    assert(rest.take(to - from) =~= rest);
    while to > from && is_whitespace(chars[to - 1])
        invariant
            from <= to <= chars.len(),
            chars@ == text@,
            rest == text@.skip(from as int),
            without_trailing_space(rest) == without_trailing_space(rest.take(to - from)),
        decreases to,
    {
        proof {
            let now = rest.take(to - from);
            assert(now.last() == chars@[to - 1]);
            assert(now.drop_last() =~= rest.take(to - 1 - from));
        }
        to = to - 1;
    }
    proof {
        let now = rest.take(to - from);
        if to > from {
            assert(now.last() == chars@[to - 1]);
        }
        assert(text@.subrange(from as int, to as int) =~= now);
    }
    text.substring_char(from, to)
}

/// Pieces with a separator between them.
pub open spec fn rejoined(pieces: Seq<Seq<char>>, separator: char) -> Seq<char>
    decreases pieces.len(),
{
    if pieces.len() == 0 {
        Seq::empty()
    } else if pieces.len() == 1 {
        pieces[0]
    } else {
        pieces[0] + seq![separator] + rejoined(pieces.drop_first(), separator)
    }
}

/// The pieces of a text make the text up again, with the separator between them,
/// and none of them holds it.
pub proof fn law_pieces_make_up_the_text(text: Seq<char>, separator: char)
    ensures
        rejoined(pieces(text, separator), separator) == text,
        pieces(text, separator).len() > 0,
        forall|index: int|
            0 <= index < pieces(text, separator).len() ==> !(#[trigger] pieces(
                text,
                separator,
            )[index]).contains(separator),
    decreases text.len(),
{
    lemma_first_place(text, separator);
    let place = first_place(text, separator);
    let all = pieces(text, separator);
    if place < text.len() {
        let rest = text.skip(place as int + 1);
        law_pieces_make_up_the_text(rest, separator);
        let first = text.take(place as int);
        let others = pieces(rest, separator);
        assert(all =~= seq![first] + others);
        assert(all.drop_first() =~= others);
        assert(first + seq![separator] + rest =~= text);
        assert forall|index: int| 0 <= index < all.len() implies !(#[trigger] all[index]).contains(
            separator,
        ) by {
            if index == 0 {
                assert(all[0] == first);
            } else {
                assert(all[index] == others[index - 1]);
            }
        }
    } else {
        assert(all =~= seq![text]);
    }
}

/// Lowering changes capital letters of ASCII and nothing else, and lowering twice
/// is lowering once.
pub proof fn law_lowering_changes_capital_letters(text: Seq<char>)
    ensures
        lowered(text).len() == text.len(),
        lowered(lowered(text)) == lowered(text),
        forall|index: int|
            0 <= index < text.len() ==> {
                let c = #[trigger] text[index];
                let low = lowered(text)[index];
                &&& 'A' <= c <= 'Z' ==> low as u32 == c as u32 + 32
                &&& !('A' <= c <= 'Z') ==> low == c
            },
{
    assert forall|index: int| 0 <= index < text.len() implies ({
        let c = #[trigger] text[index];
        let low = lowered(text)[index];
        &&& 'A' <= c <= 'Z' ==> low as u32 == c as u32 + 32
        &&& !('A' <= c <= 'Z') ==> low == c
    }) by {
        assert(lowered(text)[index] == ascii_lower(text[index]));
    }
    assert(lowered(lowered(text)) =~= lowered(text));
}

/// Whether a text is all white space.
pub open spec fn is_blank(text: Seq<char>) -> bool {
    forall|index: int| 0 <= index < text.len() ==> whitespace(#[trigger] text[index])
}

/// A text without its leading space is its rest behind nothing but white space.
proof fn lemma_without_leading_space(text: Seq<char>)
    ensures
        ({
            let rest = without_leading_space(text);
            &&& rest.len() <= text.len()
            &&& text == text.take(text.len() - rest.len()) + rest
            &&& is_blank(text.take(text.len() - rest.len()))
            &&& rest.len() > 0 ==> !whitespace(rest[0])
        }),
    decreases text.len(),
{
    let rest = without_leading_space(text);
    if text.len() > 0 && whitespace(text[0]) {
        lemma_without_leading_space(text.drop_first());
        let before = text.take(text.len() - rest.len());
        let less = text.drop_first().take(text.drop_first().len() - rest.len());
        assert(before =~= seq![text[0]] + less);
        assert forall|index: int| 0 <= index < before.len() implies whitespace(
            #[trigger] before[index],
        ) by {
            if index > 0 {
                assert(before[index] == less[index - 1]);
            }
        }
        assert(text =~= seq![text[0]] + text.drop_first());
        assert(before + rest =~= seq![text[0]] + (less + rest));
    } else {
        assert(text.take(0) + rest =~= text);
    }
}

/// A text without its trailing space is its beginning before nothing but white
/// space.
proof fn lemma_without_trailing_space(text: Seq<char>)
    ensures
        ({
            let rest = without_trailing_space(text);
            &&& rest.len() <= text.len()
            &&& text == rest + text.skip(rest.len() as int)
            &&& is_blank(text.skip(rest.len() as int))
            &&& rest.len() > 0 ==> !whitespace(rest.last()) && rest[0] == text[0]
        }),
    decreases text.len(),
{
    let rest = without_trailing_space(text);
    if text.len() > 0 && whitespace(text.last()) {
        lemma_without_trailing_space(text.drop_last());
        let behind = text.skip(rest.len() as int);
        let less = text.drop_last().skip(rest.len() as int);
        assert(behind =~= less.push(text.last()));
        assert forall|index: int| 0 <= index < behind.len() implies whitespace(
            #[trigger] behind[index],
        ) by {
            if index < less.len() {
                assert(behind[index] == less[index]);
            }
        }
        assert(text =~= text.drop_last().push(text.last()));
        assert(rest + behind =~= (rest + less).push(text.last()));
    } else {
        assert(rest + text.skip(rest.len() as int) =~= text);
    }
}

/// Stripping takes away white space at both ends and nothing else.
pub proof fn law_stripping_takes_white_space(text: Seq<char>)
    ensures
        exists|before: Seq<char>, after: Seq<char>|
            is_blank(before) && is_blank(after) && #[trigger] (before + stripped(text) + after)
                == text,
        stripped(text).len() > 0 ==> !whitespace(stripped(text)[0]) && !whitespace(
            stripped(text).last(),
        ),
{
    let middle = without_leading_space(text);
    let inner = stripped(text);
    lemma_without_leading_space(text);
    lemma_without_trailing_space(middle);
    let before = text.take(text.len() - middle.len());
    let after = middle.skip(inner.len() as int);
    assert(before + inner + after =~= before + (inner + after));
    assert(before + inner + after == text);
}

/// A number that was read is no greater than the greatest, and every character of
/// its text is a digit, a sign in front apart.
pub proof fn law_numbers_are_made_of_digits(text: Seq<char>, max: nat, number: nat)
    requires
        unsigned_value(text, max) == Ok::<nat, ParseFailure>(number),
    ensures
        number <= max,
        text.len() > 0,
        forall|index: int|
            1 <= index < text.len() ==> 0x30 <= (#[trigger] text[index]) as u32 <= 0x39,
        text[0] == '+' || 0x30 <= text[0] as u32 <= 0x39,
{
    if text.len() > 1 && text[0] == '+' {
        let digits = text.drop_first();
        lemma_digits_only(digits, 0, max);
        lemma_digits_bounded(digits, 0, max);
        assert forall|index: int| 1 <= index < text.len() implies 0x30
            <= (#[trigger] text[index]) as u32 <= 0x39 by {
            assert(text[index] == digits[index - 1]);
        }
    } else {
        lemma_digits_only(text, 0, max);
        lemma_digits_bounded(text, 0, max);
    }
}

/// What is read as a number is made of digits.
proof fn lemma_digits_only(digits: Seq<char>, value: nat, max: nat)
    ensures
        digits_value(digits, value, max) is Ok ==> forall|index: int|
            0 <= index < digits.len() ==> 0x30 <= (#[trigger] digits[index]) as u32 <= 0x39,
    decreases digits.len(),
{
    if digits.len() > 0 && digits_value(digits, value, max) is Ok {
        let rest = digits.drop_first();
        let next = (value * 10 + (digits[0] as u32 - 0x30)) as nat;
        lemma_digits_only(rest, next, max);
        assert forall|index: int| 0 <= index < digits.len() implies 0x30
            <= (#[trigger] digits[index]) as u32 <= 0x39 by {
            if index > 0 {
                assert(digits[index] == rest[index - 1]);
            }
        }
    }
}

/// A signed number reads back from its digits, behind a sign where it is
/// negative.
pub proof fn law_signed_numbers_read_back(number: nat)
    ensures
        number <= 0x7fff_ffff_ffff_ffff ==> signed_value(decimal(number)) == Some(number as int),
        number <= 0x8000_0000_0000_0000 ==> signed_value(seq!['-'] + decimal(number)) == Some(
            -(number as int),
        ),
{
    if number <= 0x7fff_ffff_ffff_ffff {
        law_decimal_reads_back(number, 0x7fff_ffff_ffff_ffff);
        lemma_decimal_continues(number, Seq::empty(), 0x7fff_ffff_ffff_ffff);
    }
    if number <= 0x8000_0000_0000_0000 {
        let text = seq!['-'] + decimal(number);
        lemma_decimal_continues(number, Seq::empty(), 0x8000_0000_0000_0000);
        assert(text.drop_first() =~= decimal(number));
        assert(decimal(number) + Seq::<char>::empty() =~= decimal(number));
    }
}

/// Numbers that are listed in two parts are separated by one more comma.
pub proof fn law_numbers_are_separated(first: Seq<u64>, second: Seq<u64>)
    requires
        first.len() > 0,
        second.len() > 0,
    ensures
        comma_separated(first + second) == comma_separated(first) + seq![','] + comma_separated(
            second,
        ),
        second.len() == 1 ==> comma_separated(second) == decimal(second[0] as nat),
    decreases second.len(),
{
    reveal_strlit(",");
    assert(","@ =~= seq![',']);
    let whole = first + second;
    assert(whole.drop_last() =~= first + second.drop_last());
    assert(whole.last() == second.last());
    if second.len() == 1 {
        assert(whole.drop_last() =~= first);
    } else {
        law_numbers_are_separated(first, second.drop_last());
        assert(comma_separated(whole) =~= comma_separated(first) + seq![','] + comma_separated(
            second,
        ));
    }
}

/// Each parse failure has its own words.
pub proof fn law_words_of_parse_failure()
    ensures
        ParseFailure::Empty.words() == "cannot parse integer from empty string"@,
        ParseFailure::InvalidDigit.words() == "invalid digit found in string"@,
        ParseFailure::TooLarge.words() == "number too large to fit in target type"@,
{
}

} // verus!
