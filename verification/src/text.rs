use vstd::prelude::*;
use vstd::string::StringExecFns;

verus! {

/// `String::push`: the character goes to the end of the string.
pub assume_specification[ String::push ](text: &mut String, character: char)
    ensures
        final(text)@ == old(text)@.push(character),
;

/// `str::eq`: two strings are equal exactly if they hold the same characters.
pub assume_specification[ <str as PartialEq>::eq ](left: &str, right: &str) -> (result: bool)
    ensures
        result == (left@ == right@),
;

/// The lowercase form that `str::to_lowercase` gives of a text.
pub uninterp spec fn lowercase_of(text: Seq<char>) -> Seq<char>;

/// `str::to_lowercase`: the result is a function of the text alone.
pub assume_specification[ str::to_lowercase ](text: &str) -> (result: String)
    ensures
        result@ == lowercase_of(text@),
;

/// What the strings of a list read.
pub open spec fn texts(list: Seq<String>) -> Seq<Seq<char>> {
    list.map_values(|item: String| item@)
}

/// Whether two strings hold the same characters.
pub fn same(left: &str, right: &str) -> (result: bool)
    ensures
        result == (left@ == right@),
{
    *left == *right
}

/// The characters of a string.
pub fn characters(text: &str) -> (result: Vec<char>)
    ensures
        result@ == text@,
{
    let mut result: Vec<char> = Vec::new();
    for c in it: text.chars()
        invariant
            result@ == it.seq().take(it.index()),
            it.seq() == text@,
    {
        result.push(c);
    }
    result
}

/// The string that holds the characters of a list from `start` up to, not with, `end`.
pub fn from_characters(chars: &Vec<char>, start: usize, end: usize) -> (result: String)
    requires
        start <= end <= chars@.len(),
    ensures
        result@ == chars@.subrange(start as int, end as int),
{
    let mut result = String::new();
    for i in start..end
        invariant
            start <= i <= end <= chars@.len(),
            result@ == chars@.subrange(start as int, i as int),
    {
        result.push(chars[i]);
    }
    result
}

/// A string followed by another.
pub fn join(left: &str, right: &str) -> (result: String)
    ensures
        result@ == left@ + right@,
{
    let mut result = left.to_owned();
    result.append(right);
    result
}

/// Whether a list holds a string that reads like `item`.
pub fn holds(list: &Vec<String>, item: &str) -> (result: bool)
    ensures
        result == texts(list@).contains(item@),
{
    for i in 0..list.len()
        invariant
            forall|j: int| 0 <= j < i ==> (#[trigger] list@[j])@ != item@,
    {
        if same(list[i].as_str(), item) {
            assert(texts(list@)[i as int] == item@);
            return true;
        }
    }
    false
}

/// Whether `text` begins with `prefix`.
pub open spec fn begins_with(text: Seq<char>, prefix: Seq<char>) -> bool {
    prefix.len() <= text.len() && text.take(prefix.len() as int) == prefix
}

/// Whether `text` begins with `prefix`.
pub fn starts_with(text: &str, prefix: &str) -> (result: bool)
    ensures
        result == begins_with(text@, prefix@),
{
    let text_chars = characters(text);
    let prefix_chars = characters(prefix);
    occurs_at(&text_chars, &prefix_chars, 0)
}

/// Whether `part` stands in `text` at the place `at`.
pub open spec fn stands_at(text: Seq<char>, part: Seq<char>, at: int) -> bool {
    0 <= at && at + part.len() <= text.len() && text.subrange(at, at + part.len()) == part
}

/// Whether `part` stands anywhere in `text`.
pub open spec fn stands_in(text: Seq<char>, part: Seq<char>) -> bool {
    exists|at: int| stands_at(text, part, at)
}

fn occurs_at(text: &Vec<char>, part: &Vec<char>, at: usize) -> (result: bool)
    requires
        at <= text@.len(),
    ensures
        result == stands_at(text@, part@, at as int),
{
    if part.len() > text.len() - at {
        return false;
    }
    let end: usize = at + part.len();
    for i in 0..part.len()
        invariant
            end == at + part@.len(),
            end <= text@.len(),
            forall|j: int| 0 <= j < i ==> text@[at + j] == part@[j],
    {
        if text[at + i] != part[i] {
            assert(text@.subrange(at as int, at + part@.len())[i as int] != part@[i as int]);
            return false;
        }
    }
    assert(text@.subrange(at as int, at + part@.len()) =~= part@);
    true
}

/// Whether `part` stands anywhere in `text`.
pub fn contains(text: &str, part: &str) -> (result: bool)
    ensures
        result == stands_in(text@, part@),
{
    let text_chars = characters(text);
    let part_chars = characters(part);
    let mut at: usize = 0;
    while at < text_chars.len()
        invariant
            at <= text_chars@.len(),
            text_chars@ == text@,
            part_chars@ == part@,
            forall|j: int| 0 <= j < at ==> !stands_at(text@, part@, j),
        decreases text_chars@.len() - at,
    {
        if occurs_at(&text_chars, &part_chars, at) {
            return true;
        }
        at = at + 1;
    }
    let found = occurs_at(&text_chars, &part_chars, at);
    assert(found == stands_in(text@, part@));
    found
}

/// A text without the slashes at its end.
pub open spec fn without_end_slashes(text: Seq<char>) -> Seq<char>
    decreases text.len(),
{
    if text.len() > 0 && text.last() == '/' {
        without_end_slashes(text.drop_last())
    } else {
        text
    }
}

/// A string without the slashes at its end.
pub fn trim_end_slashes(text: &str) -> (result: String)
    ensures
        result@ == without_end_slashes(text@),
{
    let chars = characters(text);
    let mut end: usize = chars.len();
    assert(chars@.take(end as int) =~= chars@);
    while end > 0 && chars[end - 1] == '/'
        invariant
            end <= chars@.len(),
            without_end_slashes(chars@.take(end as int)) == without_end_slashes(chars@),
        decreases end,
    {
        assert(chars@.take(end as int).drop_last() =~= chars@.take(end - 1));
        end = end - 1;
    }
    assert(chars@.take(end as int) =~= chars@.subrange(0, end as int));
    from_characters(&chars, 0, end)
}

/// Whether `left` comes before `right` in the order of their characters, the first
/// difference deciding and a beginning coming before the whole.
pub open spec fn precedes(left: Seq<char>, right: Seq<char>) -> bool
    decreases left.len(),
{
    if right.len() == 0 {
        false
    } else if left.len() == 0 {
        true
    } else if left[0] != right[0] {
        left[0] < right[0]
    } else {
        precedes(left.drop_first(), right.drop_first())
    }
}

/// Of two different texts exactly one comes before the other.
pub proof fn lemma_precedes_total(left: Seq<char>, right: Seq<char>)
    ensures
        left == right ==> !precedes(left, right) && !precedes(right, left),
        left != right ==> precedes(left, right) != precedes(right, left),
    decreases left.len(),
{
    if left.len() == 0 || right.len() == 0 {
        if left.len() == 0 && right.len() == 0 {
            assert(left =~= right);
        }
    } else if left[0] == right[0] {
        lemma_precedes_total(left.drop_first(), right.drop_first());
        if left.drop_first() == right.drop_first() {
            assert(left =~= seq![left[0]] + left.drop_first());
            assert(right =~= seq![right[0]] + right.drop_first());
        }
    }
}

/// The order of texts is transitive.
pub proof fn lemma_precedes_transitive(a: Seq<char>, b: Seq<char>, c: Seq<char>)
    requires
        precedes(a, b),
        precedes(b, c),
    ensures
        precedes(a, c),
    decreases a.len(),
{
    if a.len() != 0 && a[0] == b[0] && b[0] == c[0] {
        lemma_precedes_transitive(a.drop_first(), b.drop_first(), c.drop_first());
    }
}

/// Whether `left` comes before `right`.
pub fn before(left: &str, right: &str) -> (result: bool)
    ensures
        result == precedes(left@, right@),
{
    let left_chars = characters(left);
    let right_chars = characters(right);
    let mut i: usize = 0;
    assert(left@.skip(0) =~= left@);
    assert(right@.skip(0) =~= right@);
    while i < left_chars.len() && i < right_chars.len() && left_chars[i] == right_chars[i]
        invariant
            left_chars@ == left@,
            right_chars@ == right@,
            i <= left@.len(),
            i <= right@.len(),
            precedes(left@, right@) == precedes(left@.skip(i as int), right@.skip(i as int)),
        decreases left@.len() - i,
    {
        assert(left@.skip(i as int).drop_first() =~= left@.skip(i + 1));
        assert(right@.skip(i as int).drop_first() =~= right@.skip(i + 1));
        i = i + 1;
    }
    if i >= right_chars.len() {
        false
    } else if i >= left_chars.len() {
        true
    } else {
        left_chars[i] < right_chars[i]
    }
}

/// The decimal digit that stands for a number below ten.
pub open spec fn digit_of(number: nat) -> char {
    if number == 0 {
        '0'
    } else if number == 1 {
        '1'
    } else if number == 2 {
        '2'
    } else if number == 3 {
        '3'
    } else if number == 4 {
        '4'
    } else if number == 5 {
        '5'
    } else if number == 6 {
        '6'
    } else if number == 7 {
        '7'
    } else if number == 8 {
        '8'
    } else {
        '9'
    }
}

/// A number in decimal digits, without leading zeros.
pub open spec fn decimal_of(number: nat) -> Seq<char>
    decreases number,
{
    if number < 10 {
        seq![digit_of(number)]
    } else {
        decimal_of(number / 10).push(digit_of(number % 10))
    }
}

fn digit(number: u64) -> (result: char)
    requires
        number < 10,
    ensures
        result == digit_of(number as nat),
{
    match number {
        0 => '0',
        1 => '1',
        2 => '2',
        3 => '3',
        4 => '4',
        5 => '5',
        6 => '6',
        7 => '7',
        8 => '8',
        _ => '9',
    }
}

/// A number in decimal digits.
pub fn decimal(number: u64) -> (result: String)
    ensures
        result@ == decimal_of(number as nat),
    decreases number,
{
    if number < 10 {
        let mut result = String::new();
        result.push(digit(number));
        assert(result@ =~= seq![digit_of(number as nat)]);
        result
    } else {
        let mut result = decimal(number / 10);
        result.push(digit(number % 10));
        result
    }
}

/// The texts of a list, each once, in the order in which they first occur.
pub open spec fn distinct_of(list: Seq<Seq<char>>) -> Seq<Seq<char>>
    decreases list.len(),
{
    if list.len() == 0 {
        Seq::empty()
    } else {
        let rest = distinct_of(list.drop_last());
        if rest.contains(list.last()) {
            rest
        } else {
            rest.push(list.last())
        }
    }
}

/// Taking each text once loses none, adds none and leaves no two alike.
pub proof fn lemma_distinct(list: Seq<Seq<char>>)
    ensures
        distinct_of(list).no_duplicates(),
        forall|text: Seq<char>| #[trigger]
            distinct_of(list).contains(text) <==> list.contains(text),
        distinct_of(list).len() <= list.len(),
    decreases list.len(),
{
    if list.len() != 0 {
        let rest = distinct_of(list.drop_last());
        let result = distinct_of(list);
        lemma_distinct(list.drop_last());
        assert forall|text: Seq<char>| #[trigger]
            result.contains(text) <==> list.contains(text) by {
            if list.contains(text) {
                let i = list.index_of(text);
                if i < list.len() - 1 {
                    assert(list.drop_last()[i] == text);
                    assert(rest.contains(text));
                    let j = rest.index_of(text);
                    assert(result[j] == text);
                } else {
                    assert(text == list.last());
                    if !rest.contains(text) {
                        assert(result[rest.len() as int] == text);
                    }
                }
            }
            if result.contains(text) {
                if rest.contains(text) {
                    assert(list.drop_last().contains(text));
                    let i = list.drop_last().index_of(text);
                    assert(list[i] == text);
                } else {
                    assert(text == list.last());
                    assert(list[list.len() - 1] == text);
                }
            }
        }
    }
}

/// The strings of a list, each once.
pub fn distinct(list: &Vec<String>) -> (result: Vec<String>)
    ensures
        texts(result@) == distinct_of(texts(list@)),
{
    let mut result: Vec<String> = Vec::new();
    for i in 0..list.len()
        invariant
            texts(result@) == distinct_of(texts(list@).take(i as int)),
    {
        assert(texts(list@).take(i + 1).drop_last() =~= texts(list@).take(i as int));
        assert(texts(list@).take(i + 1).last() == list@[i as int]@);
        let seen = holds(&result, list[i].as_str());
        if !seen {
            let ghost earlier = result@;
            result.push(list[i].clone());
            assert(texts(result@) =~= texts(earlier).push(list@[i as int]@));
        }
    }
    assert(texts(list@).take(list@.len() as int) =~= texts(list@));
    result
}

/// The pieces of a text between its line breaks, at least one.
pub open spec fn lines_of(text: Seq<char>) -> Seq<Seq<char>>
    decreases text.len(),
{
    if text.len() == 0 {
        seq![Seq::empty()]
    } else {
        let rest = lines_of(text.drop_last());
        if text.last() == '\n' {
            rest.push(Seq::empty())
        } else {
            rest.drop_last().push(rest.last().push(text.last()))
        }
    }
}

/// Lines put together again, with a line break between each two.
pub open spec fn joined(lines: Seq<Seq<char>>) -> Seq<char>
    decreases lines.len(),
{
    if lines.len() == 0 {
        Seq::empty()
    } else if lines.len() == 1 {
        lines[0]
    } else {
        joined(lines.drop_last()).push('\n') + lines.last()
    }
}

proof fn lemma_lines_some(text: Seq<char>)
    ensures
        lines_of(text).len() >= 1,
    decreases text.len(),
{
    if text.len() != 0 {
        lemma_lines_some(text.drop_last());
    }
}

/// A text is its lines with the line breaks between them.
pub proof fn lemma_lines_joined(text: Seq<char>)
    ensures
        joined(lines_of(text)) == text,
    decreases text.len(),
{
    lemma_lines_some(text);
    if text.len() == 0 {
        assert(joined(lines_of(text)) =~= text);
    } else {
        let rest = lines_of(text.drop_last());
        lemma_lines_some(text.drop_last());
        lemma_lines_joined(text.drop_last());
        let lines = lines_of(text);
        assert(text =~= text.drop_last().push(text.last()));
        if text.last() == '\n' {
            assert(lines.drop_last() =~= rest);
            assert(joined(lines) =~= text);
        } else {
            assert(lines.drop_last() =~= rest.drop_last());
            assert(joined(lines) =~= joined(rest).push(text.last()));
        }
    }
}

/// The lines of a string.
pub fn lines(text: &str) -> (result: Vec<String>)
    ensures
        texts(result@) == lines_of(text@),
{
    let mut done: Vec<String> = Vec::new();
    let mut line = String::new();
    let chars = characters(text);
    assert(chars@.take(0) =~= Seq::empty());
    assert(texts(done@).push(line@) =~= seq![Seq::empty()]);
    for i in 0..chars.len()
        invariant
            texts(done@).push(line@) == lines_of(chars@.take(i as int)),
    {
        let ghost before = lines_of(chars@.take(i as int));
        assert(chars@.take(i + 1).drop_last() =~= chars@.take(i as int));
        let ghost earlier = done@;
        if chars[i] == '\n' {
            done.push(line);
            line = String::new();
            assert(texts(done@) =~= before);
            assert(texts(done@).push(line@) =~= lines_of(chars@.take(i + 1)));
        } else {
            assert(before.drop_last() =~= texts(done@));
            line.push(chars[i]);
        }
    }
    assert(chars@.take(chars@.len() as int) =~= text@);
    let ghost earlier = done@;
    done.push(line);
    assert(texts(done@) =~= lines_of(text@));
    done
}

/// The lines of a list put together.
pub fn join_lines(list: &Vec<String>) -> (result: String)
    ensures
        result@ == joined(texts(list@)),
{
    let mut result = String::new();
    for i in 0..list.len()
        invariant
            result@ == joined(texts(list@).take(i as int)),
    {
        assert(texts(list@).take(i + 1).drop_last() =~= texts(list@).take(i as int));
        assert(texts(list@).take(i + 1).last() == list@[i as int]@);
        if i > 0 {
            result.push('\n');
        }
        result.append(list[i].as_str());
        assert(result@ =~= joined(texts(list@).take(i + 1)));
    }
    assert(texts(list@).take(list@.len() as int) =~= texts(list@));
    result
}

/// A copy of an optional string.
pub fn copy_of(item: &Option<String>) -> (result: Option<String>)
    ensures
        result == *item,
{
    match item {
        Some(text) => Some(text.clone()),
        None => None,
    }
}

/// The number that decimal digits stand for.
pub open spec fn value_of(digits: Seq<char>) -> int
    decreases digits.len(),
{
    if digits.len() == 0 {
        0
    } else {
        10 * value_of(digits.drop_last()) + (digits.last() as int - '0' as int)
    }
}

/// Whether a text is a number in decimal digits, without zeros that could be left out.
pub open spec fn is_number(digits: Seq<char>) -> bool {
    &&& digits.len() > 0
    &&& forall|i: int| 0 <= i < digits.len() ==> '0' <= #[trigger] digits[i] <= '9'
    &&& digits.len() > 1 ==> digits[0] != '0'
}

/// A number in decimal digits reads as that number.
pub proof fn lemma_decimal(number: nat)
    ensures
        is_number(decimal_of(number)),
        value_of(decimal_of(number)) == number,
    decreases number,
{
    reveal_with_fuel(value_of, 2);
    if number >= 10 {
        lemma_decimal(number / 10);
        let digits = decimal_of(number);
        assert(digits.drop_last() =~= decimal_of(number / 10));
        assert(number / 10 != 0);
        if decimal_of(number / 10).len() == 1 {
            assert(decimal_of(number / 10)[0] != '0') by {
                if decimal_of(number / 10)[0] == '0' {
                    let one = decimal_of(number / 10);
                    assert(one.drop_last() =~= Seq::empty());
                    assert(value_of(one) == 0);
                }
            }
        }
    } else {
        assert(decimal_of(number).drop_last() =~= Seq::empty());
    }
}

/// A number is written in the decimal digits that stand for it, and no zeros before them.
pub proof fn law_decimal_reads_as_the_number(number: u64, result: String)
    requires
        call_ensures(decimal, (number,), result),
    ensures
        value_of(result@) == number,
        result@.len() > 0,
        forall|i: int| 0 <= i < result@.len() ==> '0' <= #[trigger] result@[i] <= '9',
        result@.len() > 1 ==> result@[0] != '0',
{
    lemma_decimal(number as nat);
}

/// A text begins with another exactly if it is that one followed by something.
pub proof fn law_begins_with_what_it_continues(text: &str, prefix: &str, result: bool)
    requires
        call_ensures(starts_with, (text, prefix), result),
    ensures
        result <==> exists|rest: Seq<char>| text@ == #[trigger] (prefix@ + rest),
{
    if result {
        assert(text@ =~= prefix@ + text@.skip(prefix@.len() as int));
    }
    if exists|rest: Seq<char>| text@ == #[trigger] (prefix@ + rest) {
        let rest = choose|rest: Seq<char>| text@ == #[trigger] (prefix@ + rest);
        assert(text@.take(prefix@.len() as int) =~= prefix@);
        assert(text@.subrange(0, prefix@.len() as int) =~= prefix@);
    }
}

/// A text holds another exactly if it is something, that one and something.
pub proof fn law_contains_what_stands_between(text: &str, part: &str, result: bool)
    requires
        call_ensures(contains, (text, part), result),
    ensures
        result <==> exists|head: Seq<char>, tail: Seq<char>| text@ == #[trigger] (head + part@
            + tail),
{
    if result {
        let at = choose|at: int| stands_at(text@, part@, at);
        assert(text@ =~= text@.take(at) + part@ + text@.skip(at + part@.len()));
    }
    if exists|head: Seq<char>, tail: Seq<char>| text@ == #[trigger] (head + part@ + tail) {
        let (head, tail) = choose|head: Seq<char>, tail: Seq<char>|
            text@ == #[trigger] (head + part@ + tail);
        let at = head.len() as int;
        assert(text@.subrange(at, at + part@.len()) =~= part@);
        assert(stands_at(text@, part@, at));
    }
}

proof fn lemma_end_slashes(text: Seq<char>)
    ensures
        ({
            let result = without_end_slashes(text);
            &&& result.len() <= text.len()
            &&& result == text.take(result.len() as int)
            &&& result.len() > 0 ==> result.last() != '/'
            &&& forall|i: int| result.len() <= i < text.len() ==> text[i] == '/'
        }),
    decreases text.len(),
{
    let result = without_end_slashes(text);
    if text.len() > 0 && text.last() == '/' {
        let rest = text.drop_last();
        lemma_end_slashes(rest);
        assert(rest.take(result.len() as int) =~= text.take(result.len() as int));
        assert forall|i: int| result.len() <= i < text.len() implies text[i] == '/' by {
            if i < rest.len() {
                assert(rest[i] == text[i]);
            }
        }
    } else {
        assert(text.take(text.len() as int) =~= text);
    }
}

/// What is cut off the end of a text is slashes, all of them and nothing else.
pub proof fn law_only_slashes_are_cut_off(text: &str, result: String)
    requires
        call_ensures(trim_end_slashes, (text,), result),
    ensures
        result@.len() <= text@.len(),
        result@ == text@.take(result@.len() as int),
        result@.len() > 0 ==> result@.last() != '/',
        forall|i: int| result@.len() <= i < text@.len() ==> text@[i] == '/',
{
    lemma_end_slashes(text@);
}

pub(crate) proof fn lemma_precedes(left: Seq<char>, right: Seq<char>)
    ensures
        precedes(left, right) <==> exists|n: int| #[trigger] first_differs(left, right, n),
    decreases left.len(),
{
    if left.len() > 0 && right.len() > 0 && left[0] == right[0] {
        let a = left.drop_first();
        let b = right.drop_first();
        lemma_precedes(a, b);
        if exists|n: int| #[trigger] first_differs(a, b, n) {
            let n = choose|n: int| #[trigger] first_differs(a, b, n);
            assert forall|i: int| 0 <= i < n + 1 implies #[trigger] left[i] == right[i] by {
                if i > 0 {
                    assert(a[i - 1] == b[i - 1]);
                }
            }
            assert(first_differs(left, right, n + 1));
        }
        if exists|n: int| #[trigger] first_differs(left, right, n) {
            let n = choose|n: int| #[trigger] first_differs(left, right, n);
            assert forall|i: int| 0 <= i < n - 1 implies #[trigger] a[i] == b[i] by {
                assert(left[i + 1] == right[i + 1]);
            }
            assert(first_differs(a, b, n - 1));
        }
    } else {
        if precedes(left, right) {
            assert(first_differs(left, right, 0));
        }
        if exists|n: int| #[trigger] first_differs(left, right, n) {
            let n = choose|n: int| #[trigger] first_differs(left, right, n);
            if n > 0 {
                assert(left[0] == right[0]);
            }
        }
    }
}

/// Whether two texts are alike before a place and the first ends there or has the lesser
/// character.
pub open spec fn first_differs(left: Seq<char>, right: Seq<char>, n: int) -> bool {
    &&& 0 <= n <= left.len()
    &&& n < right.len()
    &&& forall|i: int| 0 <= i < n ==> #[trigger] left[i] == right[i]
    &&& n < left.len() ==> left[n] < right[n]
}

/// One text comes before another exactly if, where they first differ, it ends or has the lesser
/// character.
pub proof fn law_first_difference_decides(left: &str, right: &str, result: bool)
    requires
        call_ensures(before, (left, right), result),
    ensures
        result <==> exists|n: int| #[trigger] first_differs(left@, right@, n),
{
    lemma_precedes(left@, right@);
}

/// Of texts that occur more than once, the order is that of their first occurrences.
pub proof fn lemma_distinct_order(list: Seq<Seq<char>>, early: int, late: int, at: int)
    requires
        0 <= early < late < distinct_of(list).len(),
        0 <= at < list.len(),
        list[at] == distinct_of(list)[late],
    ensures
        exists|earlier: int|
            0 <= earlier < at && #[trigger] list[earlier] == distinct_of(list)[early],
    decreases list.len(),
{
    let rest = list.drop_last();
    let once = distinct_of(rest);
    lemma_distinct(rest);
    if at < rest.len() {
        if late < once.len() {
            assert(rest[at] == once[late]);
            lemma_distinct_order(rest, early, late, at);
            let earlier = choose|earlier: int|
                0 <= earlier < at && #[trigger] rest[earlier] == once[early];
            assert(list[earlier] == distinct_of(list)[early]);
        } else {
            assert(rest[at] == list.last());
            assert(rest.contains(list.last()));
            assert(once.contains(list.last()));
        }
    } else {
        assert(early < once.len());
        assert(once.contains(once[early]));
        assert(rest.contains(once[early]));
        let earlier = rest.index_of(once[early]);
        assert(list[earlier] == distinct_of(list)[early]);
    }
}

/// No two of the strings that are kept are the same.
pub proof fn law_none_is_kept_twice(list: &Vec<String>, result: Vec<String>, i: int, j: int)
    requires
        call_ensures(distinct, (list,), result),
        0 <= i < j < result@.len(),
    ensures
        result@[i]@ != result@[j]@,
{
    lemma_distinct(texts(list@));
    assert(texts(result@)[i] == result@[i]@);
    assert(texts(result@)[j] == result@[j]@);
}

/// Every string of a list is kept.
pub proof fn law_each_is_kept(list: &Vec<String>, result: Vec<String>, at: int)
    requires
        call_ensures(distinct, (list,), result),
        0 <= at < list@.len(),
    ensures
        exists|i: int| 0 <= i < result@.len() && (#[trigger] result@[i])@ == list@[at]@,
{
    let all = texts(list@);
    let once = texts(result@);
    lemma_distinct(all);
    assert(all[at] == list@[at]@);
    assert(all.contains(all[at]));
    assert(once.contains(all[at]));
    let i = once.index_of(all[at]);
    assert(once[i] == result@[i]@);
}

/// Nothing is kept that was not in the list.
pub proof fn law_nothing_else_is_kept(list: &Vec<String>, result: Vec<String>, i: int)
    requires
        call_ensures(distinct, (list,), result),
        0 <= i < result@.len(),
    ensures
        exists|at: int| 0 <= at < list@.len() && (#[trigger] list@[at])@ == result@[i]@,
{
    let all = texts(list@);
    let once = texts(result@);
    lemma_distinct(all);
    assert(once[i] == result@[i]@);
    assert(once.contains(once[i]));
    assert(all.contains(once[i]));
    let at = all.index_of(once[i]);
    assert(all[at] == list@[at]@);
}

/// What is kept stands in the order in which it first occurs.
pub proof fn law_kept_in_the_order_of_first_occurrence(
    list: &Vec<String>,
    result: Vec<String>,
    i: int,
    j: int,
    at: int,
)
    requires
        call_ensures(distinct, (list,), result),
        0 <= i < j < result@.len(),
        0 <= at < list@.len(),
        list@[at]@ == result@[j]@,
    ensures
        exists|earlier: int| 0 <= earlier < at && (#[trigger] list@[earlier])@ == result@[i]@,
{
    let all = texts(list@);
    let once = texts(result@);
    assert(once[i] == result@[i]@ && once[j] == result@[j]@ && all[at] == list@[at]@);
    lemma_distinct_order(all, i, j, at);
    let earlier = choose|earlier: int| 0 <= earlier < at && #[trigger] all[earlier] == once[i];
    assert(all[earlier] == list@[earlier]@);
}

/// The lines of two texts with a line break between them are those of the one and those of the
/// other.
pub proof fn lemma_lines_apart(left: Seq<char>, right: Seq<char>)
    ensures
        lines_of(left.push('\n') + right) == lines_of(left) + lines_of(right),
    decreases right.len(),
{
    let whole = left.push('\n') + right;
    if right.len() == 0 {
        assert(whole =~= left.push('\n'));
        assert(whole.drop_last() =~= left);
        assert(lines_of(whole) =~= lines_of(left) + lines_of(right));
    } else {
        let fewer = right.drop_last();
        lemma_lines_apart(left, fewer);
        lemma_lines_some(fewer);
        assert(whole.drop_last() =~= left.push('\n') + fewer);
        assert(whole.last() == right.last());
        assert(lines_of(whole) =~= lines_of(left) + lines_of(right));
    }
}

/// A text without a line break is one line.
pub proof fn lemma_one_line(text: Seq<char>)
    requires
        !text.contains('\n'),
    ensures
        lines_of(text) == seq![text],
    decreases text.len(),
{
    if text.len() == 0 {
        assert(text =~= Seq::empty());
    } else {
        let rest = text.drop_last();
        assert(!rest.contains('\n')) by {
            if rest.contains('\n') {
                let i = rest.index_of('\n');
                assert(text[i] == '\n');
            }
        }
        lemma_one_line(rest);
        assert(text[text.len() - 1] != '\n');
        assert(rest.push(text.last()) =~= text);
        assert(lines_of(text) =~= seq![text]);
    }
}

/// Lines put together, and others behind them, with a line break in between.
pub proof fn lemma_joined_apart(left: Seq<Seq<char>>, right: Seq<Seq<char>>)
    requires
        left.len() > 0,
        right.len() > 0,
    ensures
        joined(left + right) == joined(left).push('\n') + joined(right),
    decreases right.len(),
{
    let whole = left + right;
    if right.len() == 1 {
        assert(whole.drop_last() =~= left);
        assert(joined(whole) =~= joined(left).push('\n') + joined(right));
    } else {
        let fewer = right.drop_last();
        lemma_joined_apart(left, fewer);
        assert(whole.drop_last() =~= left + fewer);
        assert(whole.last() == right.last());
        assert(joined(whole) =~= joined(left).push('\n') + joined(right));
    }
}

/// Lines that hold no line break are the lines of what they are put together to.
pub proof fn lemma_lines_again(list: Seq<Seq<char>>)
    requires
        list.len() > 0,
        forall|i: int| 0 <= i < list.len() ==> !(#[trigger] list[i]).contains('\n'),
    ensures
        lines_of(joined(list)) == list,
    decreases list.len(),
{
    let last = list.len() - 1;
    lemma_one_line(list[last]);
    if list.len() == 1 {
        assert(list =~= seq![list[0]]);
    } else {
        let rest = list.drop_last();
        assert forall|i: int| 0 <= i < rest.len() implies !(#[trigger] rest[i]).contains('\n') by {
            assert(rest[i] == list[i]);
        }
        lemma_lines_again(rest);
        lemma_lines_apart(joined(rest), list[last]);
        assert(rest + seq![list[last]] =~= list);
    }
}

/// No line holds a line break, and there is one line more than there are line breaks.
pub proof fn lemma_lines_count(text: Seq<char>)
    ensures
        lines_of(text).len() == text.to_multiset().count('\n') + 1,
        forall|i: int| 0 <= i < lines_of(text).len() ==> !(#[trigger] lines_of(text)[i]).contains(
            '\n',
        ),
    decreases text.len(),
{
    broadcast use vstd::seq_lib::group_to_multiset_ensures;

    if text.len() == 0 {
        assert(text.to_multiset() =~= vstd::multiset::Multiset::empty());
    } else {
        let rest = text.drop_last();
        lemma_lines_count(rest);
        lemma_lines_some(rest);
        assert(text =~= rest.push(text.last()));
        let all = lines_of(text);
        assert forall|i: int| 0 <= i < all.len() implies !(#[trigger] all[i]).contains('\n') by {
            if text.last() == '\n' {
                if i < lines_of(rest).len() {
                    assert(all[i] == lines_of(rest)[i]);
                }
            } else if i < all.len() - 1 {
                assert(all[i] == lines_of(rest)[i]);
            } else {
                let old_line = lines_of(rest).last();
                assert(!old_line.contains('\n')) by {
                    assert(lines_of(rest)[lines_of(rest).len() - 1] == old_line);
                }
                if all[i].contains('\n') {
                    let k = all[i].index_of('\n');
                    if k < old_line.len() {
                        assert(old_line[k] == '\n');
                    }
                }
            }
        }
    }
}

/// A string without line breaks is one line; the lines of two strings with a line break between
/// them are those of the one and then those of the other.
pub proof fn law_lines_are_between_line_breaks(
    left: &str,
    left_lines: Vec<String>,
    right: &str,
    right_lines: Vec<String>,
    whole: &str,
    lines_of_whole: Vec<String>,
)
    requires
        call_ensures(lines, (left,), left_lines),
        call_ensures(lines, (right,), right_lines),
        call_ensures(lines, (whole,), lines_of_whole),
        whole@ == left@.push('\n') + right@,
    ensures
        !left@.contains('\n') ==> left_lines@.len() == 1 && left_lines@[0]@ == left@,
        lines_of_whole@.len() == left_lines@.len() + right_lines@.len(),
        forall|i: int|
            0 <= i < left_lines@.len() ==> (#[trigger] left_lines@[i])@ == lines_of_whole@[i]@,
        forall|i: int|
            0 <= i < right_lines@.len() ==> (#[trigger] right_lines@[i])@
                == lines_of_whole@[left_lines@.len() + i]@,
{
    lemma_lines_apart(left@, right@);
    let a = texts(left_lines@);
    let b = texts(right_lines@);
    let all = texts(lines_of_whole@);
    assert(all == a + b);
    if !left@.contains('\n') {
        lemma_one_line(left@);
        assert(a[0] == left_lines@[0]@);
    }
    assert forall|i: int| 0 <= i < left_lines@.len() implies (#[trigger] left_lines@[i])@
        == lines_of_whole@[i]@ by {
        assert(all[i] == a[i]);
    }
    assert forall|i: int| 0 <= i < right_lines@.len() implies (#[trigger] right_lines@[i])@
        == lines_of_whole@[left_lines@.len() + i]@ by {
        assert(all[left_lines@.len() + i] == b[i]);
    }
}

/// A string taken apart into its lines and put together again is the string.
pub proof fn law_lines_make_up_the_text(text: &str, list: Vec<String>, result: String)
    requires
        call_ensures(lines, (text,), list),
        call_ensures(join_lines, (&list,), result),
    ensures
        result@ == text@,
{
    lemma_lines_joined(text@);
}

/// Two strings are the same exactly if they are so character for character.
pub proof fn law_same_is_character_for_character(left: &str, right: &str, result: bool)
    requires
        call_ensures(same, (left, right), result),
    ensures
        result <==> left@.len() == right@.len() && forall|i: int|
            0 <= i < left@.len() ==> #[trigger] left@[i] == right@[i],
{
    if left@.len() == right@.len() && forall|i: int|
        0 <= i < left@.len() ==> #[trigger] left@[i] == right@[i] {
        assert(left@ =~= right@);
    }
}

/// A list holds a string exactly if one of its strings reads like it.
pub proof fn law_list_holds_what_is_in_it(list: &Vec<String>, item: &str, result: bool)
    requires
        call_ensures(holds, (list, item), result),
    ensures
        result <==> exists|i: int| 0 <= i < list@.len() && (#[trigger] list@[i])@ == item@,
{
    let all = texts(list@);
    if all.contains(item@) {
        let i = all.index_of(item@);
        assert(all[i] == list@[i]@);
    }
    if exists|i: int| 0 <= i < list@.len() && (#[trigger] list@[i])@ == item@ {
        let i = choose|i: int| 0 <= i < list@.len() && (#[trigger] list@[i])@ == item@;
        assert(all[i] == item@);
    }
}

/// A string followed by another has the characters of the one and then those of the other.
pub proof fn law_joined_is_one_after_the_other(left: &str, right: &str, result: String, i: int)
    requires
        call_ensures(join, (left, right), result),
    ensures
        result@.len() == left@.len() + right@.len(),
        0 <= i < left@.len() ==> result@[i] == left@[i],
        0 <= i < right@.len() ==> result@[left@.len() + i] == right@[i],
{
}

/// The characters of a string, put together from one place to another, are that part of it; all of
/// them are the string.
pub proof fn law_characters_make_up_the_text(
    text: &str,
    chars: Vec<char>,
    start: usize,
    end: usize,
    result: String,
    i: int,
)
    requires
        call_ensures(characters, (text,), chars),
        start <= end <= chars@.len(),
        call_ensures(from_characters, (&chars, start, end), result),
    ensures
        chars@ == text@,
        result@.len() == end - start,
        0 <= i < end - start ==> result@[i] == text@[start + i],
{
}

/// A copy of what may be a string is what it is a copy of.
pub proof fn law_copy_is_the_same(item: &Option<String>, result: Option<String>)
    requires
        call_ensures(copy_of, (item,), result),
    ensures
        result is Some <==> *item is Some,
        result is Some ==> result->0@ == (*item)->0@,
{
}

/// Lines are put together with a line break between any two: one more is put behind a line break,
/// and the first stands by itself.
pub proof fn law_lines_are_joined_by_line_breaks(
    list: &Vec<String>,
    result: String,
    line: String,
    more: &Vec<String>,
    more_result: String,
)
    requires
        call_ensures(join_lines, (list,), result),
        call_ensures(join_lines, (more,), more_result),
        more@ == list@.push(line),
    ensures
        list@.len() == 0 ==> result@.len() == 0 && more_result@ == line@,
        list@.len() > 0 ==> more_result@ == result@.push('\n') + line@,
{
    let longer = texts(more@);
    assert(longer.drop_last() =~= texts(list@));
    assert(longer.last() == line@);
    if list@.len() == 0 {
        assert(texts(list@) =~= Seq::empty());
        assert(joined(longer) =~= line@);
    }
}

} // verus!
