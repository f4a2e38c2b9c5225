//! What holds of texts: white space, numbers and joined texts.

use crate::text;
use vstd::prelude::*;

verus! {

// ---------------------------------------------------------------------------
// White space
// ---------------------------------------------------------------------------

/// What is left without the leading characters is the end of the text from the first other
/// character on.
proof fn leading_is_cut(given: Seq<char>, matches: spec_fn(char) -> bool) -> (from: int)
    ensures
        0 <= from <= given.len(),
        text::without_leading(given, matches) == given.skip(from),
        forall|i: int| 0 <= i < from ==> matches(#[trigger] given[i]),
        from < given.len() ==> !matches(given[from]),
    decreases given.len(),
{
    if given.len() > 0 && matches(given[0]) {
        let rest = given.drop_first();
        let from = leading_is_cut(rest, matches);
        assert(given.skip(from + 1) =~= rest.skip(from));
        assert forall|i: int| 0 <= i < from + 1 implies matches(#[trigger] given[i]) by {
            if i > 0 {
                assert(matches(rest[i - 1]));
            }
        }
        from + 1
    } else {
        assert(given.skip(0) =~= given);
        0
    }
}

/// What is left without the trailing characters is the start of the text up to the last other
/// character.
proof fn trailing_is_cut(given: Seq<char>, matches: spec_fn(char) -> bool) -> (to: int)
    ensures
        0 <= to <= given.len(),
        text::without_trailing(given, matches) == given.take(to),
        forall|i: int| to <= i < given.len() ==> matches(#[trigger] given[i]),
        to > 0 ==> !matches(given[to - 1]),
    decreases given.len(),
{
    if given.len() > 0 && matches(given.last()) {
        let rest = given.drop_last();
        let to = trailing_is_cut(rest, matches);
        assert(given.take(to) =~= rest.take(to));
        assert forall|i: int| to <= i < given.len() implies matches(#[trigger] given[i]) by {
            if i < rest.len() {
                assert(matches(rest[i]));
            }
        }
        to
    } else {
        assert(given.take(given.len() as int) =~= given);
        given.len() as int
    }
}

/// A trimmed text is a run of the text that neither begins nor ends with white space, and there
/// is nothing but white space around it.
pub proof fn trimming_cuts_white_space(given: Seq<char>)
    ensures
        exists|from: int, to: int|
            {
                &&& 0 <= from <= to <= given.len()
                &&& text::trimmed(given) == #[trigger] given.subrange(from, to)
                &&& forall|i: int| 0 <= i < from ==> text::is_white_space(#[trigger] given[i])
                &&& forall|i: int|
                    to <= i < given.len() ==> text::is_white_space(#[trigger] given[i])
            },
        text::trimmed(given).len() > 0 ==> !text::is_white_space(text::trimmed(given)[0])
            && !text::is_white_space(text::trimmed(given).last()),
{
    let white = |c: char| text::is_white_space(c);
    let from = leading_is_cut(given, white);
    let rest = given.skip(from);
    let length = trailing_is_cut(rest, white);
    let to = from + length;
    assert(rest.take(length) =~= given.subrange(from, to));
    assert(text::trimmed(given) == given.subrange(from, to));
    assert forall|i: int| 0 <= i < from implies text::is_white_space(#[trigger] given[i]) by {
        assert(white(given[i]));
    }
    assert forall|i: int| to <= i < given.len() implies text::is_white_space(#[trigger] given[i]) by {
        assert(white(rest[i - from]));
    }
    if length > 0 {
        assert(!white(rest[length - 1]));
        assert(rest.take(length)[length - 1] == rest[length - 1]);
        assert(rest.take(length)[0] == given[from]);
        assert(!white(given[from]));
    }
}

/// A text is blank exactly where each of its characters is white space.
pub proof fn blank_is_white(given: Seq<char>)
    ensures
        text::is_blank_text(given) <==> forall|i: int|
            0 <= i < given.len() ==> text::is_white_space(#[trigger] given[i]),
{
    trimming_cuts_white_space(given);
    let (from, to) = choose|from: int, to: int|
        {
            &&& 0 <= from <= to <= given.len()
            &&& text::trimmed(given) == #[trigger] given.subrange(from, to)
            &&& forall|i: int| 0 <= i < from ==> text::is_white_space(#[trigger] given[i])
            &&& forall|i: int| to <= i < given.len() ==> text::is_white_space(#[trigger] given[i])
        };
    if to > from {
        assert(given.subrange(from, to)[0] == given[from]);
    }
}

/// A text that neither begins nor ends with white space stays as it is when it is trimmed.
pub proof fn trimmed_text_stays(given: Seq<char>)
    requires
        given.len() > 0,
        !text::is_white_space(given[0]),
        !text::is_white_space(given.last()),
    ensures
        text::trimmed(given) == given,
{
    trimming_cuts_white_space(given);
    let (from, to) = choose|from: int, to: int|
        {
            &&& 0 <= from <= to <= given.len()
            &&& text::trimmed(given) == #[trigger] given.subrange(from, to)
            &&& forall|i: int| 0 <= i < from ==> text::is_white_space(#[trigger] given[i])
            &&& forall|i: int| to <= i < given.len() ==> text::is_white_space(#[trigger] given[i])
        };
    if from > 0 {
        assert(text::is_white_space(given[0]));
    }
    if to < given.len() {
        assert(text::is_white_space(given[given.len() - 1]));
    }
    assert(given.subrange(from, to) =~= given);
}

// ---------------------------------------------------------------------------
// Numbers
// ---------------------------------------------------------------------------

/// The number that decimal digits stand for.
pub open spec fn number_of(digits: Seq<char>) -> int
    decreases digits.len(),
{
    if digits.len() == 0 {
        0
    } else {
        10 * number_of(digits.drop_last()) + (digits.last() as int - '0' as int)
    }
}

/// A number that is written in decimal can be read back, and is written with digits alone and
/// without a needless zero in front.
pub proof fn written_number_reads_back(number: nat)
    ensures
        number_of(text::decimal(number)) == number,
        text::decimal(number).len() > 0,
        forall|i: int|
            0 <= i < text::decimal(number).len() ==> '0' <= #[trigger] text::decimal(number)[i]
                <= '9',
        text::decimal(number).len() > 1 ==> text::decimal(number)[0] != '0',
        number > 0 ==> text::decimal(number)[0] != '0',
    decreases number,
{
    let digits = text::decimal(number);
    if number < 10 {
        assert(digits.drop_last() =~= Seq::empty());
        assert(number_of(digits.drop_last()) == 0);
    } else {
        let rest = text::decimal(number / 10);
        written_number_reads_back(number / 10);
        assert(digits.drop_last() =~= rest);
        assert forall|i: int| 0 <= i < digits.len() implies '0' <= #[trigger] digits[i] <= '9' by {
            if i < rest.len() {
                assert(digits[i] == rest[i]);
            }
        }
        assert(digits[0] == rest[0]);
    }
}

// ---------------------------------------------------------------------------
// Order and case
// ---------------------------------------------------------------------------

/// Of two texts the one with the smaller character at the first difference comes first; a text
/// comes before any longer one that begins with it, and not before itself.
pub proof fn first_difference_decides(left: Seq<char>, right: Seq<char>, place: int)
    requires
        0 <= place <= left.len(),
        place <= right.len(),
        left.take(place) == right.take(place),
    ensures
        place < left.len() && place < right.len() && left[place] < right[place]
            ==> text::text_before(left, right) && !text::text_before(right, left),
        place == left.len() && place < right.len() ==> text::text_before(left, right)
            && !text::text_before(right, left),
        place == left.len() && place == right.len() ==> !text::text_before(left, right),
    decreases place,
{
    if place > 0 {
        assert(left.take(place)[0] == left[0]);
        assert(right.take(place)[0] == right[0]);
        let a = left.drop_first();
        let b = right.drop_first();
        assert(a.take(place - 1) =~= left.take(place).drop_first());
        assert(b.take(place - 1) =~= right.take(place).drop_first());
        first_difference_decides(a, b, place - 1);
    }
}

/// In the lower-case form of ASCII text each capital letter is its small letter, and every other
/// character is itself.
pub proof fn capitals_become_small(given: Seq<char>, index: int)
    requires
        text::is_ascii_text(given),
        0 <= index < given.len(),
    ensures
        text::lowercase(given).len() == given.len(),
        'A' <= given[index] <= 'Z' ==> text::lowercase(given)[index] as int == given[index] as int
            + 32,
        !('A' <= given[index] <= 'Z') ==> text::lowercase(given)[index] == given[index],
{
    text::lowercase_of_ascii(given);
}

// ---------------------------------------------------------------------------
// Joined texts
// ---------------------------------------------------------------------------

/// Joining one text gives that text; one more text comes behind the separator.
pub proof fn joining_appends(parts: Seq<Seq<char>>, next: Seq<char>, separator: Seq<char>)
    ensures
        text::joined(seq![next], separator) == next,
        parts.len() > 0 ==> text::joined(parts.push(next), separator) == text::joined(
            parts,
            separator,
        ) + separator + next,
{
    assert(parts.push(next).drop_last() =~= parts);
}

/// A joined text without its first part: the separator and the other parts joined.
proof fn joined_by_first(parts: Seq<Seq<char>>, separator: Seq<char>)
    requires
        parts.len() > 1,
    ensures
        text::joined(parts, separator) == parts[0] + separator + text::joined(
            parts.drop_first(),
            separator,
        ),
    decreases parts.len(),
{
    let rest = parts.drop_last();
    let tail = parts.drop_first();
    if parts.len() == 2 {
        assert(rest =~= seq![parts[0]]);
        assert(tail =~= seq![parts[1]]);
        assert(text::joined(rest, separator) == parts[0]);
        assert(text::joined(tail, separator) == parts[1]);
    } else {
        joined_by_first(rest, separator);
        assert(tail.drop_last() =~= rest.drop_first());
        assert(text::joined(parts, separator) =~= parts[0] + separator + text::joined(
            tail,
            separator,
        ));
    }
}

/// Where texts do not hold the character in the middle of the separator, they can be told apart
/// once they are joined: different lists give different texts.
pub proof fn joined_parts_stay_apart(
    left: Seq<Seq<char>>,
    right: Seq<Seq<char>>,
    mark: char,
    side: char,
)
    requires
        mark != side,
        left.len() > 0,
        right.len() > 0,
        forall|i: int| 0 <= i < left.len() ==> !(#[trigger] left[i]).contains(mark),
        forall|i: int| 0 <= i < right.len() ==> !(#[trigger] right[i]).contains(mark),
        text::joined(left, seq![side, mark, side]) == text::joined(right, seq![side, mark, side]),
    ensures
        left == right,
    decreases left.len(),
{
    let separator = seq![side, mark, side];
    let whole = text::joined(left, separator);
    if left.len() > 1 {
        joined_by_first(left, separator);
        assert(whole[left[0].len() as int + 1] == mark);
    }
    if right.len() > 1 {
        joined_by_first(right, separator);
        assert(whole[right[0].len() as int + 1] == mark);
    }
    if left.len() == 1 && right.len() > 1 {
        assert(left[0][right[0].len() as int + 1] == mark);
        assert(left[0].contains(mark));
    } else if left.len() > 1 && right.len() == 1 {
        assert(right[0][left[0].len() as int + 1] == mark);
        assert(right[0].contains(mark));
    } else if left.len() == 1 {
        assert(left =~= right);
    } else {
        let a = left[0].len() as int;
        let b = right[0].len() as int;
        if a < b {
            if a + 1 < b {
                assert(right[0][a + 1] == whole[a + 1]);
                assert(right[0].contains(mark));
            } else {
                assert(whole[b] == side);
                assert(whole[a + 1] == mark);
            }
        } else if b < a {
            if b + 1 < a {
                assert(left[0][b + 1] == whole[b + 1]);
                assert(left[0].contains(mark));
            } else {
                assert(whole[a] == side);
                assert(whole[b + 1] == mark);
            }
        }
        assert(a == b);
        assert(left[0] =~= whole.take(a));
        assert(right[0] =~= whole.take(a));
        let more = left.drop_first();
        let others = right.drop_first();
        assert(text::joined(more, separator) =~= whole.skip(a + 3));
        assert(text::joined(others, separator) =~= whole.skip(a + 3));
        assert forall|i: int| 0 <= i < more.len() implies !(#[trigger] more[i]).contains(mark) by {
            assert(more[i] == left[i + 1]);
        }
        assert forall|i: int| 0 <= i < others.len() implies !(#[trigger] others[i]).contains(
            mark,
        ) by {
            assert(others[i] == right[i + 1]);
        }
        joined_parts_stay_apart(more, others, mark, side);
        assert(left =~= seq![left[0]] + more);
        assert(right =~= seq![right[0]] + others);
    }
}

} // verus!
