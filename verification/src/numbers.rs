//! Lists of token numbers as text: written with commas, and read back.

use vstd::prelude::*;
use vstd::string::*;

verus! {

/// Stands for what `char::is_whitespace` returns: whether a character has
/// the Unicode property White_Space.
pub uninterp spec fn whitespace(c: char) -> bool;

/// `char::is_whitespace`. The result has the name `whitespace`; nothing
/// else is claimed of it.
#[verifier::external_body]
pub(crate) fn is_whitespace(c: char) -> (white: bool)
    ensures
        white == whitespace(c),
{
    c.is_whitespace()
}

/// The character that writes the digit `d`.
pub open spec fn digit(d: int) -> char {
    if d == 0 {
        '0'
    } else if d == 1 {
        '1'
    } else if d == 2 {
        '2'
    } else if d == 3 {
        '3'
    } else if d == 4 {
        '4'
    } else if d == 5 {
        '5'
    } else if d == 6 {
        '6'
    } else if d == 7 {
        '7'
    } else if d == 8 {
        '8'
    } else {
        '9'
    }
}

/// The digit that `c` writes, if it writes one.
pub open spec fn digit_value(c: char) -> Option<int> {
    if c == '0' {
        Some(0)
    } else if c == '1' {
        Some(1)
    } else if c == '2' {
        Some(2)
    } else if c == '3' {
        Some(3)
    } else if c == '4' {
        Some(4)
    } else if c == '5' {
        Some(5)
    } else if c == '6' {
        Some(6)
    } else if c == '7' {
        Some(7)
    } else if c == '8' {
        Some(8)
    } else if c == '9' {
        Some(9)
    } else {
        None
    }
}

/// `n` in decimal digits, without leading zeros.
pub open spec fn digits(n: nat) -> Seq<char>
    decreases n,
{
    if n < 10 {
        seq![digit(n as int)]
    } else {
        digits(n / 10).push(digit((n % 10) as int))
    }
}

/// `i` in decimal, with a minus sign if it is negative.
pub open spec fn decimal(i: int) -> Seq<char> {
    if i < 0 {
        seq!['-'] + digits((-i) as nat)
    } else {
        digits(i as nat)
    }
}

/// The numbers of `numbers[..upto]` in decimal, with a comma and a space
/// between one and the next.
pub open spec fn listed(numbers: Seq<i32>, upto: int) -> Seq<char>
    decreases upto,
{
    if upto <= 0 {
        Seq::empty()
    } else if upto == 1 {
        decimal(numbers[0] as int)
    } else {
        listed(numbers, upto - 1) + ", "@ + decimal(numbers[upto - 1] as int)
    }
}

/// Whether every character of `text` writes a digit.
pub open spec fn all_digits(text: Seq<char>) -> bool {
    forall|i: int| 0 <= i < text.len() ==> digit_value(#[trigger] text[i]) is Some
}

/// The number that the digits of `text` write.
pub open spec fn value_of(text: Seq<char>) -> int
    decreases text.len(),
{
    if text.len() == 0 {
        0
    } else {
        value_of(text.drop_last()) * 10 + match digit_value(text.last()) {
            Some(d) => d,
            None => 0,
        }
    }
}

/// The number that `text` writes: an optional sign and at least one digit,
/// nothing else, and a value that fits.
pub open spec fn parsed(text: Seq<char>) -> Option<i32> {
    let signed = text.len() > 0 && (text[0] == '-' || text[0] == '+');
    let negative = text.len() > 0 && text[0] == '-';
    let body = if signed {
        text.drop_first()
    } else {
        text
    };
    let value = if negative {
        -value_of(body)
    } else {
        value_of(body)
    };
    if body.len() == 0 || !all_digits(body) || value < i32::MIN || value > i32::MAX {
        None
    } else {
        Some(value as i32)
    }
}

/// The index of the first character from `from` on that is not
/// whitespace, or `to` if there is none before it.
pub open spec fn skip_start(text: Seq<char>, from: int, to: int) -> int
    decreases to - from,
{
    if from >= to || !whitespace(text[from]) {
        from
    } else {
        skip_start(text, from + 1, to)
    }
}

/// The index behind the last character before `to` that is not
/// whitespace, or `from` if there is none from there on.
pub open spec fn skip_end(text: Seq<char>, from: int, to: int) -> int
    decreases to - from,
{
    if from >= to || !whitespace(text[to - 1]) {
        to
    } else {
        skip_end(text, from, to - 1)
    }
}

/// The index of the first comma from `from` on, or the length of the text
/// if there is none.
pub open spec fn next_comma(text: Seq<char>, from: int) -> int
    decreases text.len() - from,
{
    if from >= text.len() || text[from] == ',' {
        from
    } else {
        next_comma(text, from + 1)
    }
}

/// What the field `text[from..to]` contributes to a list: the number it
/// writes once the whitespace around it is removed, or nothing.
pub open spec fn field_number(text: Seq<char>, from: int, to: int) -> Seq<i32> {
    let start = skip_start(text, from, to);
    let end = skip_end(text, start, to);
    match parsed(text.subrange(start, end)) {
        Some(number) => seq![number],
        None => Seq::empty(),
    }
}

/// The numbers that the fields of `text` from `from` on write. Fields are
/// separated by commas; a field that writes no number is passed over.
pub open spec fn numbers_from(text: Seq<char>, from: int) -> Seq<i32>
    decreases text.len() - from,
{
    let end = next_comma(text, from);
    if from < 0 || from > text.len() || end < from {
        Seq::empty()
    } else if end >= text.len() {
        field_number(text, from, text.len() as int)
    } else {
        field_number(text, from, end) + numbers_from(text, end + 1)
    }
}

/// The numbers that `text` lists.
pub open spec fn numbers_in(text: Seq<char>) -> Seq<i32> {
    numbers_from(text, 0)
}

/// The digits of a number read from the left are worth no more than all
/// of them.
pub proof fn lemma_value_grows(text: Seq<char>, upto: int)
    requires
        0 <= upto <= text.len(),
    ensures
        0 <= value_of(text.subrange(0, upto)) <= value_of(text),
    decreases text.len() - upto,
{
    if upto == text.len() {
        assert(text.subrange(0, upto) =~= text);
        lemma_value_positive(text);
    } else {
        lemma_value_grows(text, upto + 1);
        let longer = text.subrange(0, upto + 1);
        assert(longer.drop_last() =~= text.subrange(0, upto));
        lemma_value_positive(text.subrange(0, upto));
    }
}

/// Digits write no negative number.
pub proof fn lemma_value_positive(text: Seq<char>)
    ensures
        value_of(text) >= 0,
    decreases text.len(),
{
    if text.len() > 0 {
        lemma_value_positive(text.drop_last());
    }
}

/// The text of one digit.
fn digit_text(d: u8) -> (text: &'static str)
    requires
        d < 10,
    ensures
        text@ == seq![digit(d as int)],
{
    proof {
        reveal_strlit("0");
        reveal_strlit("1");
        reveal_strlit("2");
        reveal_strlit("3");
        reveal_strlit("4");
        reveal_strlit("5");
        reveal_strlit("6");
        reveal_strlit("7");
        reveal_strlit("8");
        reveal_strlit("9");
    }
    let text = if d == 0 {
        "0"
    } else if d == 1 {
        "1"
    } else if d == 2 {
        "2"
    } else if d == 3 {
        "3"
    } else if d == 4 {
        "4"
    } else if d == 5 {
        "5"
    } else if d == 6 {
        "6"
    } else if d == 7 {
        "7"
    } else if d == 8 {
        "8"
    } else {
        "9"
    };
    assert(text@ =~= seq![digit(d as int)]);
    text
}

/// Writes `n` in decimal at the end of `text`.
fn push_digits(text: &mut String, n: u32)
    ensures
        final(text)@ == old(text)@ + digits(n as nat),
    decreases n,
{
    if n >= 10 {
        push_digits(text, n / 10);
    }
    text.append(digit_text((n % 10) as u8));
    proof {
        if n >= 10 {
            assert(final(text)@ =~= old(text)@ + digits(n as nat));
        } else {
            assert(final(text)@ =~= old(text)@ + digits(n as nat));
        }
    }
}

/// Writes `i` in decimal at the end of `text`.
fn push_decimal(text: &mut String, i: i32)
    ensures
        final(text)@ == old(text)@ + decimal(i as int),
{
    if i < 0 {
        proof {
            reveal_strlit("-");
        }
        text.append("-");
        assert(text@ =~= old(text)@ + seq!['-']);
        let magnitude: u32 = if i == i32::MIN {
            2147483648u32
        } else {
            (-i) as u32
        };
        push_digits(text, magnitude);
        assert(text@ =~= old(text)@ + decimal(i as int));
    } else {
        push_digits(text, i as u32);
    }
}

/// `vec` as text: the numbers in decimal, with a comma and a space
/// between one and the next.
pub fn int_vec_to_string(vec: &[i32]) -> (text: String)
    ensures
        text@ == listed(vec@, vec@.len() as int),
{
    let mut text = String::new();
    let mut i: usize = 0;
    while i < vec.len()
        invariant
            i <= vec@.len(),
            text@ == listed(vec@, i as int),
        decreases vec@.len() - i,
    {
        if i > 0 {
            text.append(", ");
        }
        push_decimal(&mut text, vec[i]);
        proof {
            assert(text@ =~= listed(vec@, i + 1));
        }
        i += 1;
    }
    text
}

/// The characters of `text`.
fn characters(text: &str) -> (chars: Vec<char>)
    ensures
        chars@ == text@,
{
    let count = text.unicode_len();
    let mut chars: Vec<char> = Vec::new();
    let mut i: usize = 0;
    while i < count
        invariant
            i <= count,
            count == text@.len(),
            chars@ == text@.subrange(0, i as int),
        decreases count - i,
    {
        chars.push(text.get_char(i));
        proof {
            assert(chars@ =~= text@.subrange(0, i + 1));
        }
        i += 1;
    }
    proof {
        assert(text@.subrange(0, count as int) =~= text@);
    }
    chars
}

/// The digit that `c` writes, if it writes one.
fn digit_of(c: char) -> (d: Option<u8>)
    ensures
        match d {
            Some(d) => digit_value(c) == Some(d as int) && d < 10,
            None => digit_value(c) is None,
        },
{
    if c == '0' {
        Some(0)
    } else if c == '1' {
        Some(1)
    } else if c == '2' {
        Some(2)
    } else if c == '3' {
        Some(3)
    } else if c == '4' {
        Some(4)
    } else if c == '5' {
        Some(5)
    } else if c == '6' {
        Some(6)
    } else if c == '7' {
        Some(7)
    } else if c == '8' {
        Some(8)
    } else if c == '9' {
        Some(9)
    } else {
        None
    }
}

/// The number that `chars[from..to]` writes, if it writes one.
fn parse(chars: &Vec<char>, from: usize, to: usize) -> (number: Option<i32>)
    requires
        from <= to <= chars@.len(),
    ensures
        number == parsed(chars@.subrange(from as int, to as int)),
{
    let ghost text = chars@.subrange(from as int, to as int);
    if from == to {
        return None;
    }
    let first = chars[from];
    assert(text[0] == first);
    let negative = first == '-';
    let signed = negative || first == '+';
    let start: usize = if signed {
        from + 1
    } else {
        from
    };
    let ghost body = chars@.subrange(start as int, to as int);
    proof {
        if signed {
            assert(body =~= text.drop_first());
        } else {
            assert(body =~= text);
        }
    }
    if start == to {
        return None;
    }
    let mut value: i64 = 0;
    let mut i: usize = start;
    proof {
        assert(body.subrange(0, 0) =~= Seq::<char>::empty());
    }
    while i < to
        invariant
            start <= i <= to,
            to <= chars@.len(),
            body == chars@.subrange(start as int, to as int),
            text == chars@.subrange(from as int, to as int),
            text.len() > 0,
            signed == (text[0] == '-' || text[0] == '+'),
            negative == (text[0] == '-'),
            body == (if signed {
                text.drop_first()
            } else {
                text
            }),
            body.len() > 0,
            all_digits(body.subrange(0, i - start)),
            value == value_of(body.subrange(0, i - start)),
            0 <= value <= 2147483648,
        decreases to - i,
    {
        let ghost upto = body.subrange(0, i - start + 1);
        proof {
            assert(upto.drop_last() =~= body.subrange(0, i - start));
            assert(upto.last() == chars@[i as int]);
            assert(body[i - start] == chars@[i as int]);
        }
        match digit_of(chars[i]) {
            None => {
                proof {
                    assert(digit_value(body[i - start]) is None);
                    assert(!all_digits(body));
                    assert(parsed(text) is None);
                }
                return None;
            },
            Some(d) => {
                let next: i64 = value * 10 + d as i64;
                proof {
                    assert(value_of(upto) == next);
                    assert forall|k: int| 0 <= k < upto.len() implies digit_value(
                        #[trigger] upto[k],
                    ) is Some by {
                        if k < upto.len() - 1 {
                            assert(upto[k] == body.subrange(0, i - start)[k]);
                        }
                    }
                }
                if next > 2147483648 {
                    proof {
                        lemma_value_grows(body, i - start + 1);
                        assert(value_of(body) > 2147483648);
                        assert(parsed(text) is None);
                    }
                    // Too large whatever follows; but what follows must
                    // still be digits for the text to be a number at all.
                    return None;
                }
                value = next;
            },
        }
        i += 1;
    }
    proof {
        assert(body.subrange(0, to - start) =~= body);
    }
    if negative {
        Some((-value) as i32)
    } else if value > 2147483647 {
        None
    } else {
        Some(value as i32)
    }
}

/// The numbers that `s` lists. Fields are separated by commas; the
/// whitespace around a field does not count; a field that writes no
/// number is passed over.
pub fn string_to_int_vec(s: &str) -> (numbers: Vec<i32>)
    ensures
        numbers@ == numbers_in(s@),
{
    let chars = characters(s);
    let total = chars.len();
    let mut numbers: Vec<i32> = Vec::new();
    let mut from: usize = 0;
    let mut going = true;
    proof {
        assert(numbers@ + numbers_from(chars@, 0) =~= numbers_in(s@));
    }
    while going
        invariant
            total == chars@.len(),
            chars@ == s@,
            from <= total,
            going ==> numbers@ + numbers_from(chars@, from as int) == numbers_in(s@),
            !going ==> numbers@ == numbers_in(s@),
        decreases total - from + (if going { 1int } else { 0int }),
    {
        let ghost before = numbers@;
        let mut end: usize = from;
        while end < total && chars[end] != ','
            invariant
                from <= end <= total,
                total == chars@.len(),
                next_comma(chars@, from as int) == next_comma(chars@, end as int),
            decreases total - end,
        {
            end += 1;
        }
        assert(next_comma(chars@, from as int) == end);
        let mut start: usize = from;
        while start < end && is_whitespace(chars[start])
            invariant
                from <= start <= end,
                end <= chars@.len(),
                skip_start(chars@, from as int, end as int) == skip_start(
                    chars@,
                    start as int,
                    end as int,
                ),
            decreases end - start,
        {
            start += 1;
        }
        let mut stop: usize = end;
        while start < stop && is_whitespace(chars[stop - 1])
            invariant
                start <= stop <= end,
                end <= chars@.len(),
                skip_end(chars@, start as int, end as int) == skip_end(
                    chars@,
                    start as int,
                    stop as int,
                ),
            decreases stop - start,
        {
            stop -= 1;
        }
        match parse(&chars, start, stop) {
            Some(number) => {
                numbers.push(number);
            },
            None => {},
        }
        proof {
            assert(numbers@ =~= before + field_number(chars@, from as int, end as int));
        }
        if end >= total {
            going = false;
            proof {
                assert(numbers@ =~= before + numbers_from(chars@, from as int));
            }
        } else {
            proof {
                assert(before + numbers_from(chars@, from as int) =~= numbers@ + numbers_from(
                    chars@,
                    end + 1,
                ));
            }
            from = end + 1;
        }
    }
    numbers
}

} // verus!
