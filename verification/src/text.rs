//! Text as a sequence of characters: comparison, joining, numbers, lines and trimming.

use vstd::prelude::*;

verus! {

// ---------------------------------------------------------------------------------------------
// Characters and equality
// ---------------------------------------------------------------------------------------------
/// The characters of `text`, in order.
pub fn chars_of(text: &str) -> (chars: Vec<char>)
    ensures
        chars@ == text@,
{
    let mut chars: Vec<char> = Vec::new();
    for c in it: text.chars()
        invariant
            it.seq() == text@,
            chars@ == text@.take(it.index() as int),
    {
        chars.push(c);
        assert(text@.take(it.index() as int + 1) =~= text@.take(it.index() as int).push(c));
    }
    assert(text@.take(text@.len() as int) =~= text@);
    chars
}

/// Whether the two texts hold the same characters.
pub fn text_equal(left: &str, right: &str) -> (equal: bool)
    ensures
        equal == (left@ == right@),
{
    let left: String = left.to_owned();
    let right: String = right.to_owned();
    left == right
}

// ---------------------------------------------------------------------------------------------
// Dictionary order
// ---------------------------------------------------------------------------------------------
/// Dictionary order on texts: by the first character that differs, a proper prefix first.
pub open spec fn text_le(left: Seq<char>, right: Seq<char>) -> bool
    decreases left.len(),
{
    if left.len() == 0 {
        true
    } else if right.len() == 0 {
        false
    } else if left[0] != right[0] {
        left[0] < right[0]
    } else {
        text_le(left.skip(1), right.skip(1))
    }
}

/// Dictionary order without equality.
pub open spec fn text_lt(left: Seq<char>, right: Seq<char>) -> bool {
    text_le(left, right) && left != right
}

/// Dictionary order as a relation that sequences can be sorted by.
pub open spec fn text_order() -> spec_fn(Seq<char>, Seq<char>) -> bool {
    |left: Seq<char>, right: Seq<char>| text_le(left, right)
}

pub proof fn lemma_text_le_reflexive(a: Seq<char>)
    ensures
        text_le(a, a),
    decreases a.len(),
{
    if a.len() > 0 {
        lemma_text_le_reflexive(a.skip(1));
    }
}

pub proof fn lemma_text_le_antisymmetric(a: Seq<char>, b: Seq<char>)
    requires
        text_le(a, b),
        text_le(b, a),
    ensures
        a == b,
    decreases a.len(),
{
    if a.len() > 0 && b.len() > 0 {
        lemma_text_le_antisymmetric(a.skip(1), b.skip(1));
        assert(a =~= seq![a[0]] + a.skip(1));
        assert(b =~= seq![b[0]] + b.skip(1));
    } else {
        assert(a =~= b);
    }
}

pub proof fn lemma_text_le_transitive(a: Seq<char>, b: Seq<char>, c: Seq<char>)
    requires
        text_le(a, b),
        text_le(b, c),
    ensures
        text_le(a, c),
    decreases a.len(),
{
    if a.len() > 0 && a[0] == b[0] && b[0] == c[0] {
        lemma_text_le_transitive(a.skip(1), b.skip(1), c.skip(1));
    }
}

pub proof fn lemma_text_le_total(a: Seq<char>, b: Seq<char>)
    ensures
        text_le(a, b) || text_le(b, a),
    decreases a.len(),
{
    if a.len() > 0 && b.len() > 0 {
        lemma_text_le_total(a.skip(1), b.skip(1));
    }
}

/// Dictionary order is a total order on texts.
pub proof fn lemma_text_order_is_total()
    ensures
        vstd::relations::total_ordering(text_order()),
{
    let order = text_order();
    assert forall|a: Seq<char>| #[trigger] order(a, a) by {
        lemma_text_le_reflexive(a);
    }
    assert forall|a: Seq<char>, b: Seq<char>| #[trigger] order(a, b) && #[trigger] order(b, a)
        implies a == b by {
        lemma_text_le_antisymmetric(a, b);
    }
    assert forall|a: Seq<char>, b: Seq<char>, c: Seq<char>|
        #[trigger] order(a, b) && #[trigger] order(b, c) implies order(a, c) by {
        lemma_text_le_transitive(a, b, c);
    }
    assert forall|a: Seq<char>, b: Seq<char>| #[trigger] order(a, b) || #[trigger] order(b, a) by {
        lemma_text_le_total(a, b);
    }
}

/// Whether `left` comes strictly before `right` in dictionary order.
pub fn text_before(left: &str, right: &str) -> (before: bool)
    ensures
        before == text_lt(left@, right@),
{
    let a: Vec<char> = chars_of(left);
    let b: Vec<char> = chars_of(right);
    let mut i: usize = 0;
    assert(a@.skip(0) =~= a@);
    assert(b@.skip(0) =~= b@);
    while i < a.len() && i < b.len() && a[i] == b[i]
        invariant
            i <= a@.len(),
            i <= b@.len(),
            a@ == left@,
            b@ == right@,
            text_le(left@, right@) == text_le(a@.skip(i as int), b@.skip(i as int)),
            a@.take(i as int) == b@.take(i as int),
        decreases a@.len() - i,
    {
        assert(a@.skip(i as int).skip(1) =~= a@.skip(i as int + 1));
        assert(b@.skip(i as int).skip(1) =~= b@.skip(i as int + 1));
        assert(a@.take(i as int + 1) =~= a@.take(i as int).push(a@[i as int]));
        assert(b@.take(i as int + 1) =~= b@.take(i as int).push(b@[i as int]));
        i += 1;
    }
    if i >= a.len() {
        proof {
            if b@.len() == i {
                assert(a@ =~= a@.take(i as int));
                assert(b@ =~= b@.take(i as int));
            }
        }
        i < b.len()
    } else if i >= b.len() {
        false
    } else {
        a[i] < b[i]
    }
}

/// The characters of each text.
pub open spec fn text_views(texts: Seq<String>) -> Seq<Seq<char>> {
    texts.map_values(|text: String| text@)
}

/// Sorts texts in dictionary order.
pub fn sort_texts(texts: Vec<String>) -> (sorted: Vec<String>)
    ensures
        text_views(sorted@) == text_views(texts@).sort_by(text_order()),
{
    let ghost all = text_views(texts@);
    let ghost order = text_order();
    let ghost given = texts@;
    let mut sorted: Vec<String> = Vec::new();
    proof {
        lemma_text_order_is_total();
        assert(all.take(0) =~= Seq::<Seq<char>>::empty());
        assert(text_views(sorted@) =~= Seq::<Seq<char>>::empty());
    }
    for text in it: texts
        invariant
            it.seq() == given,
            all == text_views(given),
            order == text_order(),
            vstd::relations::total_ordering(order),
            vstd::relations::sorted_by(text_views(sorted@), order),
            text_views(sorted@).to_multiset() == all.take(it.index() as int).to_multiset(),
    {
        let ghost before = text_views(sorted@);
        let ghost index = it.index() as int;
        let mut position: usize = sorted.len();
        while position > 0 && text_before(text.as_str(), sorted[position - 1].as_str())
            invariant
                position <= sorted@.len(),
                before == text_views(sorted@),
                vstd::relations::sorted_by(before, text_order()),
                forall|i: int| position <= i < before.len() ==> text_le(text@, #[trigger] before[i]),
            decreases position,
        {
            position -= 1;
        }
        proof {
            assert(text == given[index]);
            if position > 0 {
                let last = before[position - 1];
                lemma_text_le_total(text@, last);
                lemma_text_le_reflexive(last);
                assert(text_le(last, text@));
                assert forall|i: int| 0 <= i < position implies text_le(
                    #[trigger] before[i],
                    text@,
                ) by {
                    if i < position - 1 {
                        assert(order(before[i], before[position - 1]));
                        lemma_text_le_transitive(before[i], last, text@);
                    }
                }
            }
            let after = before.insert(position as int, text@);
            assert(vstd::relations::sorted_by(after, order)) by {
                assert forall|i: int, j: int| 0 <= i < j < after.len() implies #[trigger] order(
                    after[i],
                    after[j],
                ) by {
                    if i < position && j > position {
                        assert(order(before[i], before[j - 1]));
                    } else if j < position {
                        assert(order(before[i], before[j]));
                    } else if i > position {
                        assert(order(before[i - 1], before[j - 1]));
                    } else if i == position {
                        assert(text_le(text@, before[j - 1]));
                    } else {
                        assert(text_le(before[i], text@));
                    }
                }
            }
            vstd::seq_lib::to_multiset_insert(before, position as int, text@);
            vstd::seq_lib::to_multiset_build(all.take(index), text@);
            assert(all.take(index + 1) =~= all.take(index).push(text@));
        }
        let ghost inserted = text;
        sorted.insert(position, text);
        assert(text_views(sorted@) =~= before.insert(position as int, inserted@));
    }
    proof {
        assert(all.take(given.len() as int) =~= all);
        all.lemma_sort_by_ensures(order);
        vstd::seq_lib::lemma_sorted_unique(text_views(sorted@), all.sort_by(order), order);
    }
    sorted
}

// ---------------------------------------------------------------------------------------------
// Joining
// ---------------------------------------------------------------------------------------------
/// Joins two texts.
pub fn join2(a: &str, b: &str) -> (joined: String)
    ensures
        joined@ == a@ + b@,
{
    let mut joined: String = a.to_owned();
    joined.append(b);
    joined
}

/// Joins three texts.
pub fn join3(a: &str, b: &str, c: &str) -> (joined: String)
    ensures
        joined@ == a@ + b@ + c@,
{
    let mut joined: String = join2(a, b);
    joined.append(c);
    joined
}

/// Joins four texts.
pub fn join4(a: &str, b: &str, c: &str, d: &str) -> (joined: String)
    ensures
        joined@ == a@ + b@ + c@ + d@,
{
    let mut joined: String = join3(a, b, c);
    joined.append(d);
    joined
}

/// Joins five texts.
pub fn join5(a: &str, b: &str, c: &str, d: &str, e: &str) -> (joined: String)
    ensures
        joined@ == a@ + b@ + c@ + d@ + e@,
{
    let mut joined: String = join4(a, b, c, d);
    joined.append(e);
    joined
}

// ---------------------------------------------------------------------------------------------
// Numbers
// ---------------------------------------------------------------------------------------------
/// The decimal digit for a number below ten.
pub open spec fn decimal_digit(digit: nat) -> char {
    (48 + digit) as char
}

/// A number written in decimal, without leading zeros.
pub open spec fn decimal_text(number: nat) -> Seq<char>
    decreases number,
{
    if number < 10 {
        seq![decimal_digit(number)]
    } else {
        decimal_text(number / 10).push(decimal_digit(number % 10))
    }
}

fn digit_text(digit: u8) -> (text: &'static str)
    requires
        digit < 16,
    ensures
        text@ == seq![hex_digit(digit as nat)],
        digit < 10 ==> text@ == seq![decimal_digit(digit as nat)],
{
    proof {
        reveal_strlit("0");
        reveal_strlit("1");
        reveal_strlit("2");
        reveal_strlit("3");
        reveal_strlit("4");
        reveal_strlit("5");
        reveal_strlit("6");
        reveal_strlit("7");
        reveal_strlit("8");
        reveal_strlit("9");
        reveal_strlit("a");
        reveal_strlit("b");
        reveal_strlit("c");
        reveal_strlit("d");
        reveal_strlit("e");
        reveal_strlit("f");
    }
    match digit {
        0 => "0",
        1 => "1",
        2 => "2",
        3 => "3",
        4 => "4",
        5 => "5",
        6 => "6",
        7 => "7",
        8 => "8",
        9 => "9",
        10 => "a",
        11 => "b",
        12 => "c",
        13 => "d",
        14 => "e",
        _ => "f",
    }
}

/// Writes a number in decimal.
pub fn decimal(number: u128) -> (text: String)
    ensures
        text@ == decimal_text(number as nat),
    decreases number,
{
    let last: u8 = (number % 10) as u8;
    if number < 10 {
        digit_text(last).to_owned()
    } else {
        let mut text: String = decimal(number / 10);
        text.append(digit_text(last));
        assert(text@ =~= decimal_text(number as nat / 10).push(decimal_digit(number as nat % 10)));
        text
    }
}

/// The lower-case hexadecimal digit for a number below sixteen.
pub open spec fn hex_digit(digit: nat) -> char {
    if digit < 10 {
        (48 + digit) as char
    } else {
        (87 + digit) as char
    }
}

/// A byte as two lower-case hexadecimal digits.
pub open spec fn hex_byte_text(byte: u8) -> Seq<char> {
    seq![hex_digit(byte as nat / 16), hex_digit(byte as nat % 16)]
}

/// A 16-bit number as four lower-case hexadecimal digits.
pub open spec fn hex_word_text(word: u16) -> Seq<char> {
    hex_byte_text((word / 256) as u8) + hex_byte_text((word % 256) as u8)
}

/// Writes a byte as two hexadecimal digits.
pub fn hex_byte(byte: u8) -> (text: String)
    ensures
        text@ == hex_byte_text(byte),
{
    let text: String = join2(digit_text(byte / 16), digit_text(byte % 16));
    assert(text@ =~= hex_byte_text(byte));
    text
}

/// Writes a 16-bit number as four hexadecimal digits.
pub fn hex_word(word: u16) -> (text: String)
    ensures
        text@ == hex_word_text(word),
{
    join2(hex_byte((word / 256) as u8).as_str(), hex_byte((word % 256) as u8).as_str())
}

// ---------------------------------------------------------------------------------------------
// Padding
// ---------------------------------------------------------------------------------------------
/// `count` copies of one character.
pub open spec fn repeated(c: char, count: nat) -> Seq<char> {
    Seq::new(count, |i: int| c)
}

/// The text with `fill` in front, so that it has at least `width` characters.
pub open spec fn padded_left(text: Seq<char>, fill: char, width: nat) -> Seq<char> {
    if text.len() >= width {
        text
    } else {
        repeated(fill, (width - text.len()) as nat) + text
    }
}

/// The text with spaces behind, so that it has at least `width` characters.
pub open spec fn padded_right(text: Seq<char>, width: nat) -> Seq<char> {
    if text.len() >= width {
        text
    } else {
        text + repeated(' ', (width - text.len()) as nat)
    }
}

fn repeat_text(unit: &str, count: usize) -> (text: String)
    requires
        unit@.len() == 1,
    ensures
        text@ == repeated(unit@[0], count as nat),
{
    let mut text: String = String::new();
    let mut i: usize = 0;
    while i < count
        invariant
            i <= count,
            unit@.len() == 1,
            text@ == repeated(unit@[0], i as nat),
        decreases count - i,
    {
        text.append(unit);
        i += 1;
        assert(text@ =~= repeated(unit@[0], i as nat));
    }
    text
}

/// Right-aligns a text with spaces.
pub fn align_right(text: &str, width: usize) -> (padded: String)
    ensures
        padded@ == padded_left(text@, ' ', width as nat),
{
    let length: usize = text.unicode_len();
    if length >= width {
        text.to_owned()
    } else {
        proof {
            reveal_strlit(" ");
        }
        join2(repeat_text(" ", width - length).as_str(), text)
    }
}

/// Left-aligns a text with spaces.
pub fn align_left(text: &str, width: usize) -> (padded: String)
    ensures
        padded@ == padded_right(text@, width as nat),
{
    let length: usize = text.unicode_len();
    if length >= width {
        text.to_owned()
    } else {
        proof {
            reveal_strlit(" ");
        }
        join2(text, repeat_text(" ", width - length).as_str())
    }
}

/// A number in decimal with at least two digits.
pub open spec fn two_digit_text(number: nat) -> Seq<char> {
    padded_left(decimal_text(number), '0', 2)
}

/// Writes a number with at least two digits.
pub fn two_digits(number: u64) -> (text: String)
    ensures
        text@ == two_digit_text(number as nat),
{
    let digits: String = decimal(number as u128);
    proof {
        lemma_decimal_len(number as nat);
        reveal_strlit("0");
    }
    if number < 10 {
        let text: String = join2("0", digits.as_str());
        assert(text@ =~= two_digit_text(number as nat));
        text
    } else {
        digits
    }
}

proof fn lemma_decimal_len(number: nat)
    ensures
        number < 10 ==> decimal_text(number).len() == 1,
        number >= 10 ==> decimal_text(number).len() >= 2,
    decreases number,
{
    if number >= 10 {
        lemma_decimal_len(number / 10);
    }
}

// ---------------------------------------------------------------------------------------------
// White space
// ---------------------------------------------------------------------------------------------
/// The characters with the Unicode property White_Space.
pub open spec fn is_white_space(c: char) -> bool {
    ||| '\u{9}' <= c <= '\u{d}'
    ||| c == ' '
    ||| c == '\u{85}'
    ||| c == '\u{a0}'
    ||| c == '\u{1680}'
    ||| '\u{2000}' <= c <= '\u{200a}'
    ||| c == '\u{2028}'
    ||| c == '\u{2029}'
    ||| c == '\u{202f}'
    ||| c == '\u{205f}'
    ||| c == '\u{3000}'
}

fn white_space(c: char) -> (white: bool)
    ensures
        white == is_white_space(c),
{
    ('\u{9}' <= c && c <= '\u{d}') || c == ' ' || c == '\u{85}' || c == '\u{a0}' || c == '\u{1680}'
        || ('\u{2000}' <= c && c <= '\u{200a}') || c == '\u{2028}' || c == '\u{2029}' || c
        == '\u{202f}' || c == '\u{205f}' || c == '\u{3000}'
}

/// The text without the white space at its front.
pub open spec fn without_leading_space(text: Seq<char>) -> Seq<char>
    decreases text.len(),
{
    if text.len() > 0 && is_white_space(text[0]) {
        without_leading_space(text.skip(1))
    } else {
        text
    }
}

/// The text without the white space at its end.
pub open spec fn without_trailing_space(text: Seq<char>) -> Seq<char>
    decreases text.len(),
{
    if text.len() > 0 && is_white_space(text.last()) {
        without_trailing_space(text.drop_last())
    } else {
        text
    }
}

/// The text without the white space around it.
pub open spec fn trimmed(text: Seq<char>) -> Seq<char> {
    without_trailing_space(without_leading_space(text))
}

/// Removes the white space around a text.
pub fn trim<'a>(text: &'a str) -> (inner: &'a str)
    ensures
        inner@ == trimmed(text@),
{
    let chars: Vec<char> = chars_of(text);
    let mut start: usize = 0;
    assert(text@.skip(0) =~= text@);
    while start < chars.len() && white_space(chars[start])
        invariant
            chars@ == text@,
            start <= chars@.len(),
            without_leading_space(text@) == without_leading_space(text@.skip(start as int)),
        decreases chars@.len() - start,
    {
        assert(text@.skip(start as int).skip(1) =~= text@.skip(start as int + 1));
        start += 1;
    }
    let ghost front = text@.skip(start as int);
    let mut end: usize = chars.len();
    assert(text@.subrange(start as int, end as int) =~= front);
    while start < end && white_space(chars[end - 1])
        invariant
            chars@ == text@,
            start <= end <= chars@.len(),
            trimmed(text@) == without_trailing_space(text@.subrange(start as int, end as int)),
        decreases end,
    {
        let ghost part = text@.subrange(start as int, end as int);
        assert(part.last() == text@[end - 1]);
        assert(part.drop_last() =~= text@.subrange(start as int, end - 1));
        end -= 1;
    }
    proof {
        let part = text@.subrange(start as int, end as int);
        if start < end {
            assert(part.last() == text@[end - 1]);
        }
    }
    text.substring_char(start, end)
}

// ---------------------------------------------------------------------------------------------
// Lines and prefixes
// ---------------------------------------------------------------------------------------------
/// The position of the first `wanted` at or behind `from`, or the length where there is none.
pub open spec fn position_from(text: Seq<char>, wanted: char, from: int) -> int
    decreases text.len() - from,
{
    if from < 0 || from >= text.len() {
        text.len() as int
    } else if text[from] == wanted {
        from
    } else {
        position_from(text, wanted, from + 1)
    }
}

/// What is found is what was wanted, and nothing before it is.
pub proof fn lemma_position(text: Seq<char>, wanted: char, from: int)
    requires
        0 <= from <= text.len(),
    ensures
        from <= position_from(text, wanted, from) <= text.len(),
        position_from(text, wanted, from) < text.len() ==> text[position_from(text, wanted, from)]
            == wanted,
        forall|i: int| from <= i < position_from(text, wanted, from) ==> text[i] != wanted,
    decreases text.len() - from,
{
    if from < text.len() && text[from] != wanted {
        lemma_position(text, wanted, from + 1);
    }
}

/// Finds the first `wanted` at or behind `from`.
pub fn find_char(chars: &Vec<char>, wanted: char, from: usize) -> (position: usize)
    requires
        from <= chars@.len(),
    ensures
        position == position_from(chars@, wanted, from as int),
        from <= position <= chars@.len(),
{
    let mut position: usize = from;
    while position < chars.len() && chars[position] != wanted
        invariant
            from <= position <= chars@.len(),
            position_from(chars@, wanted, from as int) == position_from(
                chars@,
                wanted,
                position as int,
            ),
        decreases chars@.len() - position,
    {
        position += 1;
    }
    position
}

/// A line without the carriage return that belongs to its line ending.
pub open spec fn without_carriage_return(line: Seq<char>) -> Seq<char> {
    if line.len() > 0 && line.last() == '\r' {
        line.drop_last()
    } else {
        line
    }
}

/// The lines of a text. A line ends with a newline, or a carriage return and a newline, neither of
/// which belongs to it; the last line may go without.
pub open spec fn lines_of(text: Seq<char>) -> Seq<Seq<char>>
    decreases text.len(),
{
    let end = position_from(text, '\n', 0);
    if text.len() == 0 {
        seq![]
    } else if end >= text.len() || end < 0 {
        seq![text]
    } else {
        seq![without_carriage_return(text.take(end))] + lines_of(text.skip(end + 1))
    }
}

/// A text that ends with a newline and one behind it have the lines of both.
pub proof fn lemma_lines_of_both(front: Seq<char>, back: Seq<char>)
    requires
        front.len() > 0,
        front.last() == '\n',
    ensures
        lines_of(front + back) == lines_of(front) + lines_of(back),
    decreases front.len(),
{
    let both = front + back;
    lemma_position(front, '\n', 0);
    lemma_position(both, '\n', 0);
    let end = position_from(front, '\n', 0);
    let same = position_from(both, '\n', 0);
    assert(front[front.len() - 1] == '\n');
    if same < end {
        assert(front[same] == both[same]);
    } else if end < same {
        assert(both[end] == front[end]);
    }
    let rest = front.skip(end + 1);
    assert(both.take(end) =~= front.take(end));
    assert(both.skip(end + 1) =~= rest + back);
    let line = seq![without_carriage_return(front.take(end))];
    if rest.len() > 0 {
        lemma_lines_of_both(rest, back);
        assert(line + (lines_of(rest) + lines_of(back)) =~= line + lines_of(rest) + lines_of(back));
    } else {
        assert(rest + back =~= back);
        assert(lines_of(rest) =~= Seq::<Seq<char>>::empty());
        assert(line + lines_of(back) =~= line + lines_of(rest) + lines_of(back));
    }
}

/// Lines that do not start with a prefix can be left out of the search for it.
pub proof fn lemma_first_after_prefix(
    front: Seq<Seq<char>>,
    back: Seq<Seq<char>>,
    prefix: Seq<char>,
)
    requires
        forall|i: int| 0 <= i < front.len() ==> !starts_with(#[trigger] front[i], prefix),
    ensures
        first_after_prefix(front + back, prefix) == first_after_prefix(back, prefix),
    decreases front.len(),
{
    if front.len() == 0 {
        assert(front + back =~= back);
    } else {
        assert((front + back)[0] == front[0]);
        assert((front + back).skip(1) =~= front.skip(1) + back);
        assert forall|i: int| 0 <= i < front.len() - 1 implies !starts_with(
            #[trigger] front.skip(1)[i],
            prefix,
        ) by {
            assert(front.skip(1)[i] == front[i + 1]);
        }
        lemma_first_after_prefix(front.skip(1), back, prefix);
    }
}

/// Whether `text` starts with `prefix`.
pub open spec fn starts_with(text: Seq<char>, prefix: Seq<char>) -> bool {
    prefix.len() <= text.len() && text.take(prefix.len() as int) == prefix
}

/// What follows `prefix` in the first of the `lines` that starts with it.
pub open spec fn first_after_prefix(lines: Seq<Seq<char>>, prefix: Seq<char>) -> Option<Seq<char>>
    decreases lines.len(),
{
    if lines.len() == 0 {
        None
    } else if starts_with(lines[0], prefix) {
        Some(lines[0].skip(prefix.len() as int))
    } else {
        first_after_prefix(lines.skip(1), prefix)
    }
}

/// Whether the part of `chars` from `start` to `end` starts with `prefix`.
fn range_starts_with(chars: &Vec<char>, start: usize, end: usize, prefix: &Vec<char>) -> (found:
    bool)
    requires
        start <= end <= chars@.len(),
    ensures
        found == starts_with(chars@.subrange(start as int, end as int), prefix@),
{
    let ghost part = chars@.subrange(start as int, end as int);
    if prefix.len() > end - start {
        return false;
    }
    let mut i: usize = 0;
    while i < prefix.len()
        invariant
            start <= end <= chars@.len(),
            prefix@.len() <= end - start,
            i <= prefix@.len(),
            part == chars@.subrange(start as int, end as int),
            forall|j: int| 0 <= j < i ==> part[j] == prefix@[j],
        decreases prefix@.len() - i,
    {
        if chars[start + i] != prefix[i] {
            assert(part[i as int] != prefix@[i as int]);
            assert(part.take(prefix@.len() as int)[i as int] == part[i as int]);
            return false;
        }
        i += 1;
    }
    assert(part.take(prefix@.len() as int) =~= prefix@);
    true
}

/// Whether a text starts with another.
pub fn has_prefix(text: &str, prefix: &str) -> (found: bool)
    ensures
        found == starts_with(text@, prefix@),
{
    let chars: Vec<char> = chars_of(text);
    assert(chars@.subrange(0, chars@.len() as int) =~= chars@);
    range_starts_with(&chars, 0, chars.len(), &chars_of(prefix))
}

/// Whether `part` stands somewhere in `text`.
pub open spec fn has_part(text: Seq<char>, part: Seq<char>) -> bool {
    exists|start: int| 0 <= start <= text.len() && #[trigger] starts_with(text.skip(start), part)
}

/// Whether a text stands somewhere in another.
pub fn contains_part(text: &str, part: &str) -> (found: bool)
    ensures
        found == has_part(text@, part@),
{
    let chars: Vec<char> = chars_of(text);
    let wanted: Vec<char> = chars_of(part);
    let mut start: usize = 0;
    while start <= chars.len()
        invariant
            chars@ == text@,
            wanted@ == part@,
            start <= chars@.len() + 1,
            forall|i: int| 0 <= i < start ==> !#[trigger] starts_with(text@.skip(i), part@),
        decreases chars@.len() + 1 - start,
    {
        assert(chars@.subrange(start as int, chars@.len() as int) =~= text@.skip(start as int));
        if range_starts_with(&chars, start, chars.len(), &wanted) {
            return true;
        }
        if start == chars.len() {
            return false;
        }
        start += 1;
    }
    false
}

/// Finds what follows `prefix` in the first line of `text` that starts with it.
pub fn find_line_after_prefix<'a>(text: &'a str, prefix: &str) -> (rest: Option<&'a str>)
    ensures
        match rest {
            Some(rest) => first_after_prefix(lines_of(text@), prefix@) == Some(rest@),
            None => first_after_prefix(lines_of(text@), prefix@) is None,
        },
{
    let chars: Vec<char> = chars_of(text);
    let wanted: Vec<char> = chars_of(prefix);
    let mut start: usize = 0;
    assert(text@.skip(0) =~= text@);
    while start < chars.len()
        invariant
            chars@ == text@,
            wanted@ == prefix@,
            start <= chars@.len(),
            first_after_prefix(lines_of(text@), prefix@) == first_after_prefix(
                lines_of(text@.skip(start as int)),
                prefix@,
            ),
        decreases chars@.len() - start,
    {
        let newline: usize = find_char(&chars, '\n', start);
        let ghost rest = text@.skip(start as int);
        proof {
            lemma_position_skip(text@, '\n', start as int);
            lemma_position(rest, '\n', 0);
        }
        let mut end: usize = newline;
        if newline < chars.len() && newline > start && chars[newline - 1] == '\r' {
            end = newline - 1;
        }
        let ghost line = text@.subrange(start as int, end as int);
        proof {
            let lines = lines_of(rest);
            let taken = rest.take(newline - start);
            if newline < chars@.len() {
                assert(taken =~= text@.subrange(start as int, newline as int));
                if newline > start {
                    assert(taken.last() == text@[newline - 1]);
                }
                assert(without_carriage_return(taken) =~= line);
                assert(rest.skip(newline - start + 1) =~= text@.skip(newline as int + 1));
                assert(lines =~= seq![line] + lines_of(text@.skip(newline as int + 1)));
                assert(lines.skip(1) =~= lines_of(text@.skip(newline as int + 1)));
            } else {
                assert(rest =~= line);
                assert(lines =~= seq![line]);
                assert(lines.skip(1) =~= Seq::<Seq<char>>::empty());
            }
            assert(lines[0] == line);
        }
        if range_starts_with(&chars, start, end, &wanted) {
            let found: &'a str = text.substring_char(start + wanted.len(), end);
            assert(found@ =~= line.skip(prefix@.len() as int));
            return Some(found);
        }
        if newline >= chars.len() {
            assert(first_after_prefix(lines_of(rest).skip(1), prefix@) is None);
            return None;
        }
        start = newline + 1;
    }
    assert(lines_of(text@.skip(start as int)) =~= Seq::<Seq<char>>::empty());
    None
}

proof fn lemma_position_skip(text: Seq<char>, wanted: char, start: int)
    requires
        0 <= start <= text.len(),
    ensures
        position_from(text.skip(start), wanted, 0) == position_from(text, wanted, start) - start,
{
    let rest = text.skip(start);
    lemma_position(text, wanted, start);
    lemma_position(rest, wanted, 0);
    let a = position_from(rest, wanted, 0);
    let b = position_from(text, wanted, start) - start;
    if a < b {
        assert(text[start + a] == rest[a]);
    } else if b < a {
        assert(rest[b] == text[start + b]);
    }
}

// ---------------------------------------------------------------------------------------------
// Laws
// ---------------------------------------------------------------------------------------------
/// Of two texts the one comes first that has the smaller character where they first differ, or that
/// ends there.
pub proof fn law_first_difference_decides(a: Seq<char>, b: Seq<char>, difference: int)
    requires
        0 <= difference <= a.len(),
        difference <= b.len(),
        forall|i: int| 0 <= i < difference ==> a[i] == b[i],
        difference < a.len() && difference < b.len() ==> a[difference] != b[difference],
    ensures
        text_lt(a, b) <==> {
            ||| difference == a.len() && difference < b.len()
            ||| difference < a.len() && difference < b.len() && a[difference] < b[difference]
        },
    decreases difference,
{
    if difference > 0 {
        let front_a = a.skip(1);
        let front_b = b.skip(1);
        assert(a[0] == b[0]);
        assert forall|i: int| 0 <= i < difference - 1 implies front_a[i] == front_b[i] by {
            assert(a[i + 1] == b[i + 1]);
        }
        law_first_difference_decides(front_a, front_b, difference - 1);
        assert(a == b <==> front_a == front_b) by {
            assert(a =~= seq![a[0]] + front_a);
            assert(b =~= seq![b[0]] + front_b);
        }
    } else if a.len() == 0 && b.len() == 0 {
        assert(a =~= b);
    } else if a.len() > 0 && b.len() > 0 {
        assert(a[0] != b[0]);
    }
}

/// The number that decimal digits stand for.
pub open spec fn digits_value(digits: Seq<char>) -> nat
    decreases digits.len(),
{
    if digits.len() == 0 {
        0
    } else {
        10 * digits_value(digits.drop_last()) + (digits.last() as nat - '0' as nat) as nat
    }
}

/// A number is written in decimal digits that stand for it, without a zero in front.
pub proof fn law_decimal_stands_for_its_number(number: nat)
    ensures
        decimal_text(number).len() > 0,
        forall|i: int|
            0 <= i < decimal_text(number).len() ==> '0' <= #[trigger] decimal_text(number)[i]
                <= '9',
        digits_value(decimal_text(number)) == number,
        number > 0 ==> decimal_text(number)[0] != '0',
        number == 0 ==> decimal_text(number).len() == 1,
    decreases number,
{
    let text = decimal_text(number);
    if number < 10 {
        assert(text.drop_last() =~= Seq::<char>::empty());
        assert(digits_value(text.drop_last()) == 0);
    } else {
        law_decimal_stands_for_its_number(number / 10);
        let front = decimal_text(number / 10);
        assert(text.drop_last() =~= front);
        assert forall|i: int| 0 <= i < text.len() implies '0' <= #[trigger] text[i] <= '9' by {
            if i < front.len() {
                assert(text[i] == front[i]);
            }
        }
        assert(text[0] == front[0]);
    }
}

/// A number with at least two digits is its decimal digits, with a zero in front of a lone one.
pub proof fn law_two_digits(number: nat)
    ensures
        number < 10 ==> two_digit_text(number) == seq!['0'] + decimal_text(number),
        number >= 10 ==> two_digit_text(number) == decimal_text(number),
{
    lemma_decimal_len(number);
    if number < 10 {
        assert(two_digit_text(number) =~= seq!['0'] + decimal_text(number));
    }
}

/// A byte is written as two hexadecimal digits, the upper half first, and a 16-bit number as its
/// two bytes, the upper one first.
pub proof fn law_hexadecimal_digits(byte: u8, word: u16)
    ensures
        hex_byte_text(byte) == seq![
            "0123456789abcdef"@[byte as int / 16],
            "0123456789abcdef"@[byte as int % 16],
        ],
        hex_word_text(word) == hex_byte_text((word / 256) as u8) + hex_byte_text(
            (word % 256) as u8,
        ),
{
    reveal_strlit("0123456789abcdef");
    assert forall|digit: int| 0 <= digit < 16 implies #[trigger] "0123456789abcdef"@[digit]
        == hex_digit(digit as nat) by {}
}

/// Padding brings a text to a width and keeps the text at one end; a text that is as wide stays.
pub proof fn law_padding_fills_up(text: Seq<char>, fill: char, width: nat)
    ensures
        text.len() >= width ==> padded_left(text, fill, width) == text && padded_right(text, width)
            == text,
        text.len() < width ==> {
            let left = padded_left(text, fill, width);
            let right = padded_right(text, width);
            &&& left.len() == width && left.skip(width - text.len()) == text
            &&& forall|i: int| 0 <= i < width - text.len() ==> #[trigger] left[i] == fill
            &&& right.len() == width && right.take(text.len() as int) == text
            &&& forall|i: int| text.len() <= i < width ==> #[trigger] right[i] == ' '
        },
{
    if text.len() < width {
        assert(padded_left(text, fill, width).skip(width - text.len()) =~= text);
        assert(padded_right(text, width).take(text.len() as int) =~= text);
    }
}

/// Trimming takes white space off both ends, and nothing else: white space around a text that does
/// not begin or end with any comes off.
pub proof fn law_trimming_takes_white_space(
    front: Seq<char>,
    inner: Seq<char>,
    back: Seq<char>,
)
    requires
        forall|i: int| 0 <= i < front.len() ==> is_white_space(#[trigger] front[i]),
        forall|i: int| 0 <= i < back.len() ==> is_white_space(#[trigger] back[i]),
        inner.len() > 0 ==> !is_white_space(inner[0]) && !is_white_space(inner.last()),
    ensures
        trimmed(front + inner + back) == inner,
    decreases front.len() + back.len(),
{
    let text = front + inner + back;
    if front.len() > 0 {
        assert(is_white_space(front[0]));
        assert(text.skip(1) =~= front.skip(1) + inner + back);
        assert forall|i: int| 0 <= i < front.len() - 1 implies is_white_space(
            #[trigger] front.skip(1)[i],
        ) by {
            assert(front.skip(1)[i] == front[i + 1]);
        }
        law_trimming_takes_white_space(front.skip(1), inner, back);
    } else if inner.len() == 0 {
        assert(text =~= back);
        if back.len() > 0 {
            assert(is_white_space(back[0]));
            assert(text.skip(1) =~= back.skip(1) + inner + front);
            assert forall|i: int| 0 <= i < back.len() - 1 implies is_white_space(
                #[trigger] back.skip(1)[i],
            ) by {
                assert(back.skip(1)[i] == back[i + 1]);
            }
            law_trimming_takes_white_space(back.skip(1), inner, front);
        }
    } else if back.len() > 0 {
        let shorter = front + inner + back.drop_last();
        assert(text[0] == inner[0] && shorter[0] == inner[0]);
        assert(is_white_space(back.last()));
        assert(text.last() == back.last());
        assert(text.drop_last() =~= shorter);
        law_trimming_takes_white_space(front, inner, back.drop_last());
    } else {
        assert(text =~= inner);
    }
}

/// A text that starts with a line and its ending has that line, without a carriage return before
/// the newline, and then the lines of what follows. What has no newline is a line by itself, and an
/// empty text has none.
pub proof fn law_lines_end_at_newlines(line: Seq<char>, rest: Seq<char>)
    requires
        !line.contains('\n'),
    ensures
        line.len() == 0 || line.last() != '\r' ==> lines_of(line + seq!['\n'] + rest) == seq![line]
            + lines_of(rest),
        lines_of(line + seq!['\r', '\n'] + rest) == seq![line] + lines_of(rest),
        line.len() > 0 ==> lines_of(line) == seq![line],
        lines_of(Seq::empty()) == Seq::<Seq<char>>::empty(),
{
    let plain = line + seq!['\n'] + rest;
    let full = line + seq!['\r', '\n'] + rest;
    let returned = line.push('\r');
    lemma_newline_at(plain, line, rest);
    assert(plain.take(line.len() as int) =~= line);
    assert(plain.skip(line.len() as int + 1) =~= rest);
    assert(full =~= returned + seq!['\n'] + rest);
    assert forall|i: int| 0 <= i < returned.len() implies returned[i] != '\n' by {
        if i < line.len() {
            assert(line.contains(line[i]));
        }
    }
    assert(!returned.contains('\n'));
    lemma_newline_at(full, returned, rest);
    assert(full.take(returned.len() as int) =~= returned);
    assert(full.skip(returned.len() as int + 1) =~= rest);
    assert(returned.drop_last() =~= line);
    lemma_position(line, '\n', 0);
    if line.len() > 0 && position_from(line, '\n', 0) < line.len() {
        assert(line.contains(line[position_from(line, '\n', 0)]));
    }
}

proof fn lemma_newline_at(text: Seq<char>, line: Seq<char>, rest: Seq<char>)
    requires
        !line.contains('\n'),
        text == line + seq!['\n'] + rest,
    ensures
        position_from(text, '\n', 0) == line.len(),
{
    lemma_position(text, '\n', 0);
    let found = position_from(text, '\n', 0);
    assert(text[line.len() as int] == '\n');
    if found < line.len() {
        assert(line.contains(line[found]));
    }
}

/// A text starts with a prefix exactly where it is that prefix with something behind it.
pub proof fn law_prefix_comes_first(text: Seq<char>, prefix: Seq<char>, rest: Seq<char>)
    ensures
        starts_with(prefix + rest, prefix),
        starts_with(text, prefix) ==> text == prefix + text.skip(prefix.len() as int),
{
    assert((prefix + rest).take(prefix.len() as int) =~= prefix);
    if starts_with(text, prefix) {
        assert(text =~= text.take(prefix.len() as int) + text.skip(prefix.len() as int));
    }
}

/// What is found behind a prefix stands in the first line that starts with it; nothing is found
/// only where no line does.
pub proof fn law_first_line_with_prefix(
    lines: Seq<Seq<char>>,
    prefix: Seq<char>,
    rest: Seq<char>,
    position: int,
)
    requires
        0 <= position <= lines.len(),
        forall|i: int| 0 <= i < position ==> !starts_with(#[trigger] lines[i], prefix),
        position < lines.len() ==> lines[position] == prefix + rest,
    ensures
        position < lines.len() ==> first_after_prefix(lines, prefix) == Some(rest),
        position == lines.len() ==> first_after_prefix(lines, prefix) is None,
{
    let front = lines.take(position);
    let back = lines.skip(position);
    assert(lines =~= front + back);
    lemma_first_after_prefix(front, back, prefix);
    if position < lines.len() {
        assert(back[0] == prefix + rest);
        law_prefix_comes_first(back[0], prefix, rest);
        assert(back[0].skip(prefix.len() as int) =~= rest);
    }
}

/// A text has a part exactly where it is something, that part, and something.
pub proof fn law_part_stands_within(
    front: Seq<char>,
    part: Seq<char>,
    back: Seq<char>,
    text: Seq<char>,
)
    ensures
        has_part(front + part + back, part),
        has_part(text, part) ==> exists|a: Seq<char>, b: Seq<char>| text == #[trigger] (a + part + b),
{
    let whole = front + part + back;
    assert(whole.skip(front.len() as int) =~= part + back);
    law_prefix_comes_first(whole, part, back);
    assert(starts_with(whole.skip(front.len() as int), part));
    if has_part(text, part) {
        let start = choose|start: int|
            0 <= start <= text.len() && #[trigger] starts_with(text.skip(start), part);
        law_prefix_comes_first(text.skip(start), part, back);
        let a = text.take(start);
        let b = text.skip(start).skip(part.len() as int);
        assert(text =~= text.take(start) + text.skip(start));
        assert(text =~= a + part + b);
    }
}

/// The white space is made up of the tab, the line ends, the space and the other blanks of Unicode,
/// which are these code points and no others.
pub proof fn law_white_space_is_that_of_unicode(c: char)
    ensures
        is_white_space(c) <==> {
            let code = c as u32;
            ||| 9 <= code <= 13
            ||| code == 0x20
            ||| code == 0x85
            ||| code == 0xa0
            ||| code == 0x1680
            ||| 0x2000 <= code <= 0x200a
            ||| code == 0x2028
            ||| code == 0x2029
            ||| code == 0x202f
            ||| code == 0x205f
            ||| code == 0x3000
        },
{
}

proof fn lemma_trailing_space_ends(text: Seq<char>)
    requires
        text.len() > 0,
        !is_white_space(text[0]),
    ensures
        without_trailing_space(text).len() > 0,
    decreases text.len(),
{
    if is_white_space(text.last()) {
        lemma_trailing_space_ends(text.drop_last());
    }
}

/// Where a text has a character that is no white space, something is left of it.
pub proof fn law_trimming_keeps_other_characters(text: Seq<char>, position: int)
    requires
        0 <= position < text.len(),
        !is_white_space(text[position]),
    ensures
        trimmed(text).len() > 0,
    decreases text.len(),
{
    if is_white_space(text[0]) {
        assert(text.skip(1)[position - 1] == text[position]);
        law_trimming_keeps_other_characters(text.skip(1), position - 1);
    } else {
        lemma_trailing_space_ends(text);
    }
}

/// Dictionary order with equality is that without, or equality.
pub proof fn law_order_has_equal_texts(a: Seq<char>, b: Seq<char>)
    ensures
        text_le(a, b) <==> text_lt(a, b) || a == b,
        text_order()(a, b) == text_le(a, b),
{
    lemma_text_le_reflexive(a);
}

/// Texts stand in their order.
pub proof fn law_texts_stand_in_order(texts: Seq<String>, index: int)
    ensures
        text_views(texts).len() == texts.len(),
        0 <= index < texts.len() ==> text_views(texts)[index] == texts[index]@,
{
}

} // verus!
