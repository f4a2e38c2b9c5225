//! Text: case folding, trimming, ordering, searching and decimal numbers.
//!
//! The model of a string is the sequence of its characters.

use vstd::prelude::*;
use vstd::string::*;

verus! {

// ---------------------------------------------------------------------------
// What the standard library provides
// ---------------------------------------------------------------------------

/// Whether `text` holds ASCII characters only.
pub open spec fn is_ascii_text(text: Seq<char>) -> bool {
    forall|i: int| 0 <= i < text.len() ==> (#[trigger] text[i] as u32) < 128
}

/// The text with the small letter in place of each letter from `A` to `Z`.
pub open spec fn ascii_lowered(text: Seq<char>) -> Seq<char> {
    text.map_values(|character: char| ascii_lower(character))
}

/// The lower-case form of a text that is not all ASCII and has no letter from `A` to `Z`, under
/// the Unicode mapping of the standard library.
pub uninterp spec fn unicode_lowercase(text: Seq<char>) -> Seq<char>;

/// The lower-case form of `text`. Letters from `A` to `Z` count as their small letters.
#[verifier::opaque]
pub open spec fn lowercase(text: Seq<char>) -> Seq<char> {
    if is_ascii_text(text) {
        ascii_lowered(text)
    } else {
        unicode_lowercase(ascii_lowered(text))
    }
}

/// The lower-case form of ASCII text has the small letter of each letter.
pub proof fn lowercase_of_ascii(text: Seq<char>)
    requires
        is_ascii_text(text),
    ensures
        lowercase(text).len() == text.len(),
        forall|i: int|
            0 <= i < text.len() ==> #[trigger] lowercase(text)[i] == ascii_lower(text[i]),
{
    reveal(lowercase);
}

/// Texts that are the same but for the case of ASCII letters have the same lower-case form.
pub proof fn lowercase_ignores_ascii_case(left: Seq<char>, right: Seq<char>)
    requires
        same_ignoring_ascii_case(left, right),
    ensures
        lowercase(left) == lowercase(right),
{
    reveal(lowercase);
    assert(ascii_lowered(left) =~= ascii_lowered(right));
    assert forall|i: int| 0 <= i < left.len() implies ((#[trigger] left[i] as u32) < 128) == ((
    right[i] as u32) < 128) by {
        assert(ascii_lower(left[i]) == ascii_lower(right[i]));
    }
    if is_ascii_text(left) {
        assert forall|i: int| 0 <= i < right.len() implies (#[trigger] right[i] as u32) < 128 by {
            assert((left[i] as u32) < 128);
        }
    }
    if is_ascii_text(right) {
        assert forall|i: int| 0 <= i < left.len() implies (#[trigger] left[i] as u32) < 128 by {
            assert((right[i] as u32) < 128);
        }
    }
}

/// An ASCII character that is not a letter.
pub open spec fn is_ascii_sign(character: char) -> bool {
    (character as u32) < 128 && !('A' <= character <= 'Z') && !('a' <= character <= 'z')
}

/// The ASCII characters of `text` that are not letters, in order.
pub open spec fn ascii_signs(text: Seq<char>) -> Seq<char> {
    text.filter(|character: char| is_ascii_sign(character))
}

/// `str::to_lowercase` returns the lower-case form of the text, which depends on the text
/// alone: each character is mapped as Unicode has it. A letter from `A` to `Z` is mapped to its
/// small letter, and the characters around it are mapped as they are around that letter. The
/// other ASCII characters stay as they are, and no character is mapped to one of them. Which
/// characters other ones are mapped to is not said.
pub assume_specification[ str::to_lowercase ](s: &str) -> (lower: String)
    ensures
        lower@ == lowercase(s@),
        !is_ascii_text(s@) ==> lower@ == unicode_lowercase(ascii_lowered(s@)),
        ascii_signs(lower@) == ascii_signs(s@),
;

/// Whether the character has the Unicode property `White_Space`: the controls from tab to
/// carriage return, the next line, and the spaces and separators.
pub open spec fn is_white_space(character: char) -> bool {
    let code = character as u32;
    9 <= code <= 13 || code == 0x20 || code == 0x85 || code == 0xa0 || code == 0x1680 || 0x2000
        <= code <= 0x200a || code == 0x2028 || code == 0x2029 || code == 0x202f || code == 0x205f
        || code == 0x3000
}

/// `char::is_whitespace` tells whether the character has the Unicode property
/// `White_Space`.
pub assume_specification[ char::is_whitespace ](character: char) -> (white: bool)
    ensures
        white == is_white_space(character),
;

/// `String::push` appends one character to the end of the string.
pub assume_specification[ String::push ](s: &mut String, character: char)
    ensures
        final(s)@ == old(s)@.push(character),
;

// ---------------------------------------------------------------------------
// Characters and pieces
// ---------------------------------------------------------------------------

/// The characters of `text`, in order.
pub fn characters(text: &str) -> (characters: Vec<char>)
    ensures
        characters@ == text@,
{
    let mut characters: Vec<char> = Vec::new();
    for character in iter: text.chars()
        invariant
            iter.seq() == text@,
            characters@ == text@.take(iter.index()),
    {
        characters.push(character);
        assert(characters@ =~= text@.take(iter.index() + 1));
    }
    assert(text@.take(text@.len() as int) =~= text@);
    characters
}

/// The string made of the characters from index `from` up to index `to`.
pub fn text_between(characters: &Vec<char>, from: usize, to: usize) -> (text: String)
    requires
        from <= to <= characters@.len(),
    ensures
        text@ == characters@.subrange(from as int, to as int),
{
    let mut text = String::new();
    let mut index: usize = from;
    assert(characters@.subrange(from as int, from as int) =~= Seq::<char>::empty());
    while index < to
        invariant
            from <= index <= to <= characters@.len(),
            text@ == characters@.subrange(from as int, index as int),
        decreases to - index,
    {
        text.push(characters[index]);
        assert(characters@.subrange(from as int, index + 1) =~= characters@.subrange(
            from as int,
            index as int,
        ).push(characters@[index as int]));
        index += 1;
    }
    text
}

// ---------------------------------------------------------------------------
// Trimming
// ---------------------------------------------------------------------------

/// `text` without the leading characters that satisfy `matches`.
pub open spec fn without_leading(text: Seq<char>, matches: spec_fn(char) -> bool) -> Seq<char>
    decreases text.len(),
{
    if text.len() > 0 && matches(text[0]) {
        without_leading(text.drop_first(), matches)
    } else {
        text
    }
}

/// `text` without the trailing characters that satisfy `matches`.
pub open spec fn without_trailing(text: Seq<char>, matches: spec_fn(char) -> bool) -> Seq<char>
    decreases text.len(),
{
    if text.len() > 0 && matches(text.last()) {
        without_trailing(text.drop_last(), matches)
    } else {
        text
    }
}

/// `text` without leading and trailing white space.
pub open spec fn trimmed(text: Seq<char>) -> Seq<char> {
    without_trailing(
        without_leading(text, |c: char| is_white_space(c)),
        |c: char| is_white_space(c),
    )
}

/// Whether `text` holds nothing but white space.
pub open spec fn is_blank_text(text: Seq<char>) -> bool {
    trimmed(text).len() == 0
}

/// Trims the characters that are white space from both ends.
pub fn trim(text: &str) -> (result: String)
    ensures
        result@ == trimmed(text@),
{
    let all: Vec<char> = characters(text);
    let ghost white = |c: char| is_white_space(c);
    let mut from: usize = 0;
    assert(all@.skip(0) =~= all@);
    while from < all.len() && all[from].is_whitespace()
        invariant
            from <= all@.len(),
            white == (|c: char| is_white_space(c)),
            without_leading(all@, white) == without_leading(all@.skip(from as int), white),
        decreases all@.len() - from,
    {
        assert(all@.skip(from as int).drop_first() =~= all@.skip(from + 1));
        from += 1;
    }
    let ghost rest = all@.skip(from as int);
    assert(without_leading(all@, white) == rest);
    let mut to: usize = all.len();
    assert(all@.subrange(from as int, to as int) =~= rest);
    while from < to && all[to - 1].is_whitespace()
        invariant
            from <= to <= all@.len(),
            white == (|c: char| is_white_space(c)),
            without_trailing(rest, white) == without_trailing(
                all@.subrange(from as int, to as int),
                white,
            ),
        decreases to - from,
    {
        assert(all@.subrange(from as int, to as int).drop_last() =~= all@.subrange(
            from as int,
            to - 1,
        ));
        to -= 1;
    }
    text_between(&all, from, to)
}

/// Whether the text is empty once it is trimmed.
pub fn is_blank(text: &str) -> (blank: bool)
    ensures
        blank == is_blank_text(text@),
{
    let rest = trim(text);
    rest.as_str().is_empty()
}

// ---------------------------------------------------------------------------
// Decimal numbers
// ---------------------------------------------------------------------------

/// The character for the decimal digit `digit`.
pub open spec fn digit_character(digit: nat) -> char {
    ('0' as nat + digit) as char
}

/// The decimal digits of `number`, without leading zeros.
pub open spec fn decimal(number: nat) -> Seq<char>
    decreases number,
{
    if number < 10 {
        seq![digit_character(number)]
    } else {
        decimal(number / 10).push(digit_character(number % 10))
    }
}

/// The decimal digits of `number`, with zeros in front up to `width` characters.
pub open spec fn padded_decimal(number: nat, width: nat) -> Seq<char> {
    let digits = decimal(number);
    if digits.len() < width {
        Seq::new((width - digits.len()) as nat, |i: int| '0') + digits
    } else {
        digits
    }
}

/// Writes `number` in decimal.
pub fn decimal_text(number: u64) -> (text: String)
    ensures
        text@ == decimal(number as nat),
    decreases number,
{
    let mut text = if number < 10 {
        String::new()
    } else {
        decimal_text(number / 10)
    };
    let digit: u8 = (number % 10) as u8;
    text.push((48 + digit) as char);
    assert(text@ =~= decimal(number as nat));
    text
}

/// Writes `number` in decimal, with zeros in front up to `width` characters.
pub fn padded_decimal_text(number: u64, width: usize) -> (text: String)
    ensures
        text@ == padded_decimal(number as nat, width as nat),
{
    let digits = decimal_text(number);
    let length: usize = digits.as_str().unicode_len();
    let mut text = String::new();
    let mut count: usize = length;
    while count < width
        invariant
            length <= count,
            length < width ==> count <= width,
            length >= width ==> count == length,
            text@ == Seq::new((count - length) as nat, |i: int| '0'),
        decreases width - count,
    {
        text.push('0');
        count += 1;
        assert(text@ =~= Seq::new((count - length) as nat, |i: int| '0'));
    }
    text.append(digits.as_str());
    assert(text@ =~= padded_decimal(number as nat, width as nat));
    text
}

// ---------------------------------------------------------------------------
// Order
// ---------------------------------------------------------------------------

/// Lexicographic order by character: `left` comes before `right`.
pub open spec fn text_before(left: Seq<char>, right: Seq<char>) -> bool
    decreases left.len(),
{
    if right.len() == 0 {
        false
    } else if left.len() == 0 {
        true
    } else if left[0] == right[0] {
        text_before(left.drop_first(), right.drop_first())
    } else {
        left[0] < right[0]
    }
}

/// A text whose first differing character is less comes before the other, whatever follows.
pub proof fn less_in_front(left: Seq<char>, right: Seq<char>, rest: Seq<char>, other: Seq<char>)
    requires
        text_before(left, right),
        left.len() == right.len(),
    ensures
        text_before(left + rest, right + other),
    decreases left.len(),
{
    assert((left + rest)[0] == left[0]);
    assert((right + other)[0] == right[0]);
    if left[0] == right[0] {
        less_in_front(left.drop_first(), right.drop_first(), rest, other);
        assert((left + rest).drop_first() =~= left.drop_first() + rest);
        assert((right + other).drop_first() =~= right.drop_first() + other);
    }
}

/// A common beginning does not matter to the order of two texts.
pub proof fn same_in_front(front: Seq<char>, left: Seq<char>, right: Seq<char>)
    requires
        text_before(left, right),
    ensures
        text_before(front + left, front + right),
    decreases front.len(),
{
    if front.len() == 0 {
        assert(front + left =~= left);
        assert(front + right =~= right);
    } else {
        same_in_front(front.drop_first(), left, right);
        assert((front + left).drop_first() =~= front.drop_first() + left);
        assert((front + right).drop_first() =~= front.drop_first() + right);
    }
}

/// Of numbers that are written with as many digits, the lesser comes before the greater.
pub proof fn lesser_number_comes_before(left: nat, right: nat, width: nat)
    requires
        left < right,
        padded_decimal(left, width).len() == padded_decimal(right, width).len() == width,
    ensures
        text_before(padded_decimal(left, width), padded_decimal(right, width)),
    decreases width,
{
    padded_digits(left, width);
    padded_digits(right, width);
    let first = padded_decimal(left, width);
    let second = padded_decimal(right, width);
    let fewer = (width - 1) as nat;
    let lead = padded_decimal(left / 10, fewer);
    let other_lead = padded_decimal(right / 10, fewer);
    let last = seq![digit_character(left % 10)];
    let other_last = seq![digit_character(right % 10)];
    if width == 1 {
        assert(first =~= last);
        assert(second =~= other_last);
    } else if left / 10 < right / 10 {
        lesser_number_comes_before(left / 10, right / 10, fewer);
        less_in_front(lead, other_lead, last, other_last);
    } else {
        assert(left / 10 == right / 10 && left % 10 < right % 10);
        assert(last[0] < other_last[0]);
        same_in_front(lead, last, other_last);
    }
}

/// A number of several digits is written as the number without its last digit, and that digit.
proof fn padded_digits(number: nat, width: nat)
    requires
        padded_decimal(number, width).len() == width,
    ensures
        width > 0,
        width == 1 ==> number < 10 && padded_decimal(number, width) == seq![
            digit_character(number),
        ],
        width > 1 ==> {
            let lead = padded_decimal(number / 10, (width - 1) as nat);
            &&& lead.len() == width - 1
            &&& padded_decimal(number, width) == lead + seq![digit_character(number % 10)]
        },
{
    let digits = decimal(number);
    digits_are_there(number);
    digits_are_there(number / 10);
    if number < 10 && width > 1 {
        assert(number / 10 == 0);
        assert(decimal(0) =~= seq!['0']);
        assert(padded_decimal(0, (width - 1) as nat) =~= Seq::new((width - 1) as nat, |i: int| '0'));
    }
    if width > 1 {
        assert(padded_decimal(number, width) =~= padded_decimal(number / 10, (width - 1) as nat)
            + seq![digit_character(number % 10)]);
    }
}

/// Every number has a digit.
proof fn digits_are_there(number: nat)
    ensures
        decimal(number).len() > 0,
        number >= 10 ==> decimal(number).len() > 1,
{
    if number >= 10 {
        assert(decimal(number / 10).len() > 0);
    }
}

/// Of two different texts one comes before the other, never both.
pub proof fn text_order_total(left: Seq<char>, right: Seq<char>)
    ensures
        text_before(left, right) ==> !text_before(right, left) && left != right,
        left != right ==> text_before(left, right) || text_before(right, left),
    decreases left.len(),
{
    if left.len() > 0 && right.len() > 0 {
        if left[0] == right[0] {
            text_order_total(left.drop_first(), right.drop_first());
            if left.drop_first() == right.drop_first() {
                assert(left =~= seq![left[0]] + left.drop_first());
                assert(right =~= seq![right[0]] + right.drop_first());
            }
        }
    } else if left.len() == 0 && right.len() == 0 {
        assert(left =~= right);
    }
}

/// The order of texts is transitive.
pub proof fn text_order_transitive(first: Seq<char>, second: Seq<char>, third: Seq<char>)
    requires
        text_before(first, second),
        text_before(second, third),
    ensures
        text_before(first, third),
    decreases first.len(),
{
    if first.len() > 0 && first[0] == second[0] && second[0] == third[0] {
        text_order_transitive(first.drop_first(), second.drop_first(), third.drop_first());
    }
}

/// Whether `left` comes before `right`.
pub fn is_before(left: &str, right: &str) -> (before: bool)
    ensures
        before == text_before(left@, right@),
{
    let first: Vec<char> = characters(left);
    let second: Vec<char> = characters(right);
    let mut index: usize = 0;
    assert(first@.skip(0) =~= first@);
    assert(second@.skip(0) =~= second@);
    while index < first.len() && index < second.len() && first[index] == second[index]
        invariant
            index <= first@.len(),
            index <= second@.len(),
            text_before(first@, second@) == text_before(
                first@.skip(index as int),
                second@.skip(index as int),
            ),
        decreases first@.len() - index,
    {
        assert(first@.skip(index as int).drop_first() =~= first@.skip(index + 1));
        assert(second@.skip(index as int).drop_first() =~= second@.skip(index + 1));
        index += 1;
    }
    if index >= second.len() {
        false
    } else if index >= first.len() {
        true
    } else {
        first[index] < second[index]
    }
}

// ---------------------------------------------------------------------------
// Searching
// ---------------------------------------------------------------------------

/// Whether `text` starts with `prefix`.
pub open spec fn has_prefix(text: Seq<char>, prefix: Seq<char>) -> bool {
    prefix.len() <= text.len() && text.take(prefix.len() as int) == prefix
}

/// Whether `part` occurs in `text` as a run of consecutive characters.
pub open spec fn occurs_in(part: Seq<char>, text: Seq<char>) -> bool {
    exists|start: int|
        0 <= start <= text.len() && has_prefix(#[trigger] text.skip(start), part)
}

/// Whether the characters of `text` from `start` on begin with `prefix`.
fn starts_at(text: &Vec<char>, start: usize, prefix: &Vec<char>) -> (found: bool)
    requires
        start <= text@.len(),
    ensures
        found == has_prefix(text@.skip(start as int), prefix@),
{
    if text.len() - start < prefix.len() {
        return false;
    }
    let mut index: usize = 0;
    while index < prefix.len()
        invariant
            index <= prefix@.len(),
            prefix@.len() <= text.len() - start,
            text@.skip(start as int).take(index as int) == prefix@.take(index as int),
        decreases prefix@.len() - index,
    {
        if text[start + index] != prefix[index] {
            assert(text@.skip(start as int).take(prefix@.len() as int)[index as int]
                != prefix@[index as int]);
            return false;
        }
        assert(text@.skip(start as int).take(index + 1) =~= text@.skip(start as int).take(
            index as int,
        ).push(text@[start + index]));
        assert(prefix@.take(index + 1) =~= prefix@.take(index as int).push(prefix@[index as int]));
        index += 1;
    }
    assert(prefix@.take(prefix@.len() as int) =~= prefix@);
    true
}

/// Whether `text` starts with `prefix`.
pub fn starts_with(text: &str, prefix: &str) -> (found: bool)
    ensures
        found == has_prefix(text@, prefix@),
{
    let all: Vec<char> = characters(text);
    let part: Vec<char> = characters(prefix);
    assert(all@.skip(0) =~= all@);
    starts_at(&all, 0, &part)
}

/// Whether `part` occurs in `text`.
pub fn contains(text: &str, part: &str) -> (found: bool)
    ensures
        found == occurs_in(part@, text@),
{
    let all: Vec<char> = characters(text);
    let wanted: Vec<char> = characters(part);
    let mut start: usize = 0;
    loop
        invariant
            start <= all@.len(),
            all@ == text@,
            wanted@ == part@,
            forall|earlier: int| 0 <= earlier < start ==> !has_prefix(#[trigger] all@.skip(earlier), wanted@),
        decreases all@.len() - start,
    {
        if starts_at(&all, start, &wanted) {
            return true;
        }
        if start == all.len() {
            return false;
        }
        start += 1;
    }
}

/// ASCII lower case of one character; any other character is itself.
pub open spec fn ascii_lower(character: char) -> char {
    if 'A' <= character <= 'Z' {
        (character as u32 + 32) as char
    } else {
        character
    }
}

/// Whether two texts are the same but for the case of ASCII letters.
pub open spec fn same_ignoring_ascii_case(left: Seq<char>, right: Seq<char>) -> bool {
    left.len() == right.len() && forall|i: int|
        0 <= i < left.len() ==> ascii_lower(#[trigger] left[i]) == ascii_lower(right[i])
}

/// The ASCII lower case of `character`.
fn to_ascii_lower(character: char) -> (lower: char)
    ensures
        lower == ascii_lower(character),
{
    if 'A' <= character && character <= 'Z' {
        (character as u8 + 32) as char
    } else {
        character
    }
}

/// Whether two texts are the same but for the case of ASCII letters.
pub fn eq_ignore_ascii_case(left: &str, right: &str) -> (same: bool)
    ensures
        same == same_ignoring_ascii_case(left@, right@),
{
    let first: Vec<char> = characters(left);
    let second: Vec<char> = characters(right);
    if first.len() != second.len() {
        return false;
    }
    let mut index: usize = 0;
    while index < first.len()
        invariant
            index <= first@.len(),
            first@.len() == second@.len(),
            first@ == left@,
            second@ == right@,
            forall|i: int| 0 <= i < index ==> ascii_lower(#[trigger] first@[i]) == ascii_lower(second@[i]),
        decreases first@.len() - index,
    {
        if to_ascii_lower(first[index]) != to_ascii_lower(second[index]) {
            assert(ascii_lower(left@[index as int]) != ascii_lower(right@[index as int]));
            return false;
        }
        index += 1;
    }
    true
}

// ---------------------------------------------------------------------------
// Lists of texts
// ---------------------------------------------------------------------------

/// The texts that a list of strings holds.
pub open spec fn texts(strings: Seq<String>) -> Seq<Seq<char>> {
    strings.map_values(|s: String| s@)
}

/// The texts in order, with `separator` between each two.
pub open spec fn joined(parts: Seq<Seq<char>>, separator: Seq<char>) -> Seq<char>
    decreases parts.len(),
{
    if parts.len() == 0 {
        Seq::empty()
    } else if parts.len() == 1 {
        parts[0]
    } else {
        joined(parts.drop_last(), separator) + separator + parts.last()
    }
}

/// Joins the strings, with `separator` between each two.
pub fn join(parts: &Vec<String>, separator: &str) -> (result: String)
    ensures
        result@ == joined(texts(parts@), separator@),
{
    let mut result = String::new();
    let mut index: usize = 0;
    assert(texts(parts@).take(0) =~= Seq::<Seq<char>>::empty());
    while index < parts.len()
        invariant
            index <= parts@.len(),
            result@ == joined(texts(parts@).take(index as int), separator@),
        decreases parts@.len() - index,
    {
        if index > 0 {
            result.append(separator);
        }
        result.append(parts[index].as_str());
        proof {
            let next = texts(parts@).take(index + 1);
            assert(next.drop_last() =~= texts(parts@).take(index as int));
            assert(next.last() == parts@[index as int]@);
            assert(result@ =~= joined(next, separator@));
        }
        index += 1;
    }
    assert(texts(parts@).take(parts@.len() as int) =~= texts(parts@));
    result
}

/// Whether the list holds a string with the given text.
pub fn list_contains(strings: &Vec<String>, wanted: &str) -> (found: bool)
    ensures
        found == texts(strings@).contains(wanted@),
{
    let mut index: usize = 0;
    while index < strings.len()
        invariant
            index <= strings@.len(),
            forall|i: int| 0 <= i < index ==> #[trigger] strings@[i]@ != wanted@,
        decreases strings@.len() - index,
    {
        if same_text(strings[index].as_str(), wanted) {
            assert(texts(strings@)[index as int] == wanted@);
            return true;
        }
        index += 1;
    }
    assert forall|i: int| 0 <= i < texts(strings@).len() implies texts(strings@)[i] != wanted@ by {
        assert(strings@[i]@ != wanted@);
    }
    false
}

/// Whether two texts hold the same characters.
pub fn same_text(left: &str, right: &str) -> (same: bool)
    ensures
        same == (left@ == right@),
{
    let first = left.to_owned();
    let second = right.to_owned();
    first == second
}

/// A copy of a list of strings.
pub fn copy_list(strings: &Vec<String>) -> (copy: Vec<String>)
    ensures
        copy@ == strings@,
{
    let mut copy: Vec<String> = Vec::new();
    let mut index: usize = 0;
    while index < strings.len()
        invariant
            index <= strings@.len(),
            copy@ == strings@.take(index as int),
        decreases strings@.len() - index,
    {
        copy.push(strings[index].clone());
        assert(strings@.take(index + 1) =~= strings@.take(index as int).push(
            strings@[index as int],
        ));
        index += 1;
    }
    assert(strings@.take(strings@.len() as int) =~= strings@);
    copy
}

// ---------------------------------------------------------------------------
// File name segments
// ---------------------------------------------------------------------------

/// Whether `character` is a control code.
pub open spec fn is_control_code(character: char) -> bool {
    character <= '\u{1f}' || '\u{7f}' <= character <= '\u{9f}'
}

/// Whether `character` may not stand in a file name.
pub open spec fn is_forbidden_in_file_name(character: char) -> bool {
    character == '<' || character == '>' || character == ':' || character == '"' || character
        == '/' || character == '\\' || character == '|' || character == '?' || character == '*'
        || is_control_code(character)
}

/// `text` with a dash for each character that may not stand in a file name.
pub open spec fn with_dashes(text: Seq<char>) -> Seq<char> {
    text.map_values(|c: char| if is_forbidden_in_file_name(c) { '-' } else { c })
}

/// Whether `character` is dropped from the ends of a file name segment.
pub open spec fn is_dot_or_space(character: char) -> bool {
    character == '.' || character == ' '
}

/// `text` with dashes for forbidden characters and without dots and spaces at the ends;
/// `unknown` where nothing is left.
pub open spec fn sanitized_segment(text: Seq<char>) -> Seq<char> {
    let middle = without_trailing(
        without_leading(with_dashes(text), |c: char| is_dot_or_space(c)),
        |c: char| is_dot_or_space(c),
    );
    if middle.len() == 0 {
        "unknown"@
    } else {
        middle
    }
}

/// Whether `character` may not stand in a file name.
fn forbidden_in_file_name(character: char) -> (forbidden: bool)
    ensures
        forbidden == is_forbidden_in_file_name(character),
{
    character == '<' || character == '>' || character == ':' || character == '"' || character
        == '/' || character == '\\' || character == '|' || character == '?' || character == '*'
        || character <= '\u{1f}' || ('\u{7f}' <= character && character <= '\u{9f}')
}

/// Makes `value` usable as a segment of a file name.
pub fn sanitize_file_name_segment(value: &str) -> (segment: String)
    ensures
        segment@ == sanitized_segment(value@),
{
    let all: Vec<char> = characters(value);
    let mut dashed: Vec<char> = Vec::new();
    let mut index: usize = 0;
    while index < all.len()
        invariant
            index <= all@.len(),
            dashed@ == with_dashes(all@).take(index as int),
        decreases all@.len() - index,
    {
        if forbidden_in_file_name(all[index]) {
            dashed.push('-');
        } else {
            dashed.push(all[index]);
        }
        assert(with_dashes(all@).take(index + 1) =~= with_dashes(all@).take(index as int).push(
            with_dashes(all@)[index as int],
        ));
        index += 1;
    }
    assert(dashed@ =~= with_dashes(all@));

    let ghost ends = |c: char| is_dot_or_space(c);
    let mut from: usize = 0;
    assert(dashed@.skip(0) =~= dashed@);
    while from < dashed.len() && (dashed[from] == '.' || dashed[from] == ' ')
        invariant
            from <= dashed@.len(),
            ends == (|c: char| is_dot_or_space(c)),
            without_leading(dashed@, ends) == without_leading(dashed@.skip(from as int), ends),
        decreases dashed@.len() - from,
    {
        assert(dashed@.skip(from as int).drop_first() =~= dashed@.skip(from + 1));
        from += 1;
    }
    let ghost rest = dashed@.skip(from as int);
    assert(without_leading(dashed@, ends) == rest);
    let mut to: usize = dashed.len();
    assert(dashed@.subrange(from as int, to as int) =~= rest);
    while from < to && (dashed[to - 1] == '.' || dashed[to - 1] == ' ')
        invariant
            from <= to <= dashed@.len(),
            ends == (|c: char| is_dot_or_space(c)),
            without_trailing(rest, ends) == without_trailing(
                dashed@.subrange(from as int, to as int),
                ends,
            ),
        decreases to - from,
    {
        assert(dashed@.subrange(from as int, to as int).drop_last() =~= dashed@.subrange(
            from as int,
            to - 1,
        ));
        to -= 1;
    }
    if from == to {
        "unknown".to_owned()
    } else {
        text_between(&dashed, from, to)
    }
}

} // verus!
