//! Text as sequences of characters: searching, splitting, trimming and joining.
//!
//! Contracts speak of the characters of a string, `text@`. Executable code
//! works on a vector of them, so that every index is a character index.
use vstd::prelude::*;
use vstd::slice::slice_subrange;

verus! {

broadcast use vstd::seq_lib::group_seq_properties;

// ---------------------------------------------------------------------------
// Vocabulary

/// `needle` stands in `hay` at index `i`.
pub open spec fn occurs_at(hay: Seq<char>, needle: Seq<char>, i: int) -> bool {
    &&& 0 <= i
    &&& i + needle.len() <= hay.len()
    &&& hay.subrange(i, i + needle.len()) == needle
}

/// `needle` stands somewhere in `hay`.
pub open spec fn has(hay: Seq<char>, needle: Seq<char>) -> bool {
    exists|i: int| occurs_at(hay, needle, i)
}

/// The least index, `from` or later, at which `needle` stands in `hay`.
pub open spec fn find_from(hay: Seq<char>, needle: Seq<char>, from: int) -> Option<int>
    decreases hay.len() + 1 - from,
{
    if from < 0 || from + needle.len() > hay.len() {
        None
    } else if hay.subrange(from, from + needle.len()) == needle {
        Some(from)
    } else {
        find_from(hay, needle, from + 1)
    }
}

pub open spec fn begins(text: Seq<char>, prefix: Seq<char>) -> bool {
    text.len() >= prefix.len() && text.take(prefix.len() as int) == prefix
}

pub open spec fn ends(text: Seq<char>, suffix: Seq<char>) -> bool {
    text.len() >= suffix.len() && text.skip(text.len() - suffix.len()) == suffix
}

/// The text before and after the first `sep`.
pub open spec fn cut(text: Seq<char>, sep: Seq<char>) -> Option<(Seq<char>, Seq<char>)> {
    match find_from(text, sep, 0) {
        Some(i) => Some((text.take(i), text.skip(i + sep.len()))),
        None => None,
    }
}

/// The pieces of `text` between the occurrences of `sep`.
pub open spec fn pieces(text: Seq<char>, sep: char) -> Seq<Seq<char>> {
    pieces_rec(text, sep, 0, 0)
}

/// The pieces of `text` from `from` on, when no `sep` stands in `from..at`.
pub open spec fn pieces_rec(text: Seq<char>, sep: char, from: int, at: int) -> Seq<Seq<char>>
    decreases text.len() - at,
{
    if at < from || at >= text.len() {
        seq![text.subrange(from, text.len() as int)]
    } else if text[at] == sep {
        seq![text.subrange(from, at)] + pieces_rec(text, sep, at + 1, at + 1)
    } else {
        pieces_rec(text, sep, from, at + 1)
    }
}

/// The pieces of `text` between the occurrences of the text `sep`.
pub open spec fn parts_of(text: Seq<char>, sep: Seq<char>) -> Seq<Seq<char>>
    decreases text.len(),
{
    match cut(text, sep) {
        Some((left, right)) => if right.len() < text.len() {
            seq![left] + parts_of(right, sep)
        } else {
            seq![text]
        },
        None => seq![text],
    }
}

/// Characters with the Unicode property `White_Space`.
pub open spec fn is_space(c: char) -> bool {
    let n = c as int;
    ||| 0x9 <= n <= 0xd
    ||| n == 0x20
    ||| n == 0x85
    ||| n == 0xa0
    ||| n == 0x1680
    ||| 0x2000 <= n <= 0x200a
    ||| n == 0x2028
    ||| n == 0x2029
    ||| n == 0x202f
    ||| n == 0x205f
    ||| n == 0x3000
}

/// `text` without the white space it starts with.
pub open spec fn left_trimmed(text: Seq<char>) -> Seq<char>
    decreases text.len(),
{
    if text.len() > 0 && is_space(text[0]) {
        left_trimmed(text.skip(1))
    } else {
        text
    }
}

/// `text` without the white space it ends with.
pub open spec fn right_trimmed(text: Seq<char>) -> Seq<char>
    decreases text.len(),
{
    if text.len() > 0 && is_space(text.last()) {
        right_trimmed(text.drop_last())
    } else {
        text
    }
}

/// `text` without the white space at its two ends.
pub open spec fn trimmed(text: Seq<char>) -> Seq<char> {
    right_trimmed(left_trimmed(text))
}

/// A line without the carriage return that closed it.
pub open spec fn without_return(line: Seq<char>) -> Seq<char> {
    if line.len() > 0 && line.last() == '\r' {
        line.drop_last()
    } else {
        line
    }
}

/// The lines of `text`: a line ends at a line feed, or at a carriage return and
/// a line feed; what follows the last line feed is a line unless it is empty.
pub open spec fn lines_of(text: Seq<char>) -> Seq<Seq<char>> {
    lines_rec(text, 0, 0)
}

/// The lines of `text` from `from` on, when no line feed stands in `from..at`.
pub open spec fn lines_rec(text: Seq<char>, from: int, at: int) -> Seq<Seq<char>>
    decreases text.len() - at,
{
    if at < from || at >= text.len() {
        if from < text.len() {
            seq![text.subrange(from, text.len() as int)]
        } else {
            Seq::empty()
        }
    } else if text[at] == '\n' {
        seq![without_return(text.subrange(from, at))] + lines_rec(text, at + 1, at + 1)
    } else {
        lines_rec(text, from, at + 1)
    }
}

/// The parts, one after the other, with `sep` between two of them.
pub open spec fn joined(parts: Seq<Seq<char>>, sep: Seq<char>) -> Seq<char>
    decreases parts.len(),
{
    if parts.len() == 0 {
        Seq::empty()
    } else if parts.len() == 1 {
        parts[0]
    } else {
        joined(parts.drop_last(), sep) + sep + parts.last()
    }
}

/// The characters of each string.
pub open spec fn views(strings: Seq<String>) -> Seq<Seq<char>> {
    Seq::new(strings.len(), |i: int| strings[i]@)
}

pub open spec fn ascii_lower_char(c: char) -> char {
    if 'A' <= c && c <= 'Z' {
        ((c as u32 + 32) as u32) as char
    } else {
        c
    }
}

/// `text` with each of `A` to `Z` replaced by its small letter.
pub open spec fn ascii_lower(text: Seq<char>) -> Seq<char> {
    Seq::new(text.len(), |i: int| ascii_lower_char(text[i]))
}

pub open spec fn all_ascii(text: Seq<char>) -> bool {
    forall|i: int| 0 <= i < text.len() ==> (#[trigger] text[i] as int) < 128
}

pub open spec fn is_digit(c: char) -> bool {
    '0' <= c && c <= '9'
}

pub open spec fn all_digits(text: Seq<char>) -> bool {
    forall|i: int| 0 <= i < text.len() ==> is_digit(#[trigger] text[i])
}

/// `a` comes before `b` in the order of their first different characters.
pub open spec fn precedes(a: Seq<char>, b: Seq<char>) -> bool
    decreases b.len(),
{
    if b.len() == 0 {
        false
    } else if a.len() == 0 {
        true
    } else if a[0] == b[0] {
        precedes(a.skip(1), b.skip(1))
    } else {
        a[0] < b[0]
    }
}

/// Each text comes before the next.
pub open spec fn ascending(texts: Seq<Seq<char>>) -> bool {
    forall|i: int, j: int| 0 <= i < j < texts.len() ==> precedes(#[trigger] texts[i], #[trigger] texts[j])
}

/// `item` in its place among `list`: before the first text that comes after it.
pub open spec fn placed(list: Seq<Seq<char>>, item: Seq<char>) -> Seq<Seq<char>>
    decreases list.len(),
{
    if list.len() == 0 {
        seq![item]
    } else if precedes(item, list[0]) {
        seq![item] + list
    } else {
        seq![list[0]] + placed(list.skip(1), item)
    }
}

/// The texts in order.
pub open spec fn in_order(list: Seq<Seq<char>>) -> Seq<Seq<char>>
    decreases list.len(),
{
    if list.len() == 0 {
        Seq::empty()
    } else {
        placed(in_order(list.drop_last()), list.last())
    }
}

/// No text comes before one that stands ahead of it.
pub open spec fn ordered(texts: Seq<Seq<char>>) -> bool {
    forall|i: int, j: int|
        0 <= i < j < texts.len() ==> !precedes(#[trigger] texts[j], #[trigger] texts[i])
}

/// Among arguments, an option stands right before its value.
pub open spec fn given(args: Seq<Seq<char>>, option: Seq<char>, value: Seq<char>) -> bool {
    exists|i: int|
        0 <= i && i + 1 < args.len() && #[trigger] args[i] == option && args[i + 1] == value
}

/// The digits that `text` starts with.
pub open spec fn leading_digits(text: Seq<char>) -> Seq<char>
    decreases text.len(),
{
    if text.len() > 0 && is_digit(text[0]) {
        seq![text[0]] + leading_digits(text.skip(1))
    } else {
        Seq::empty()
    }
}

// ---------------------------------------------------------------------------
// Facts about the vocabulary

/// What `find_from` finds is the first occurrence.
pub proof fn find_is_first(hay: Seq<char>, needle: Seq<char>, from: int)
    requires
        0 <= from,
    ensures
        match find_from(hay, needle, from) {
            Some(i) => from <= i && occurs_at(hay, needle, i) && forall|j: int|
                from <= j < i ==> !occurs_at(hay, needle, j),
            None => forall|j: int| from <= j ==> !occurs_at(hay, needle, j),
        },
    decreases hay.len() + 1 - from,
{
    if from + needle.len() > hay.len() {
    } else if hay.subrange(from, from + needle.len()) == needle {
    } else {
        find_is_first(hay, needle, from + 1);
    }
}

/// A text holds the needle exactly when a search from its start finds it.
pub proof fn has_is_found(hay: Seq<char>, needle: Seq<char>)
    ensures
        has(hay, needle) == (find_from(hay, needle, 0) is Some),
{
    find_is_first(hay, needle, 0);
    if has(hay, needle) {
        let i = choose|i: int| occurs_at(hay, needle, i);
        assert(occurs_at(hay, needle, i));
    }
}

/// A text is cut at the first separator, and only the separator is taken out.
pub proof fn cut_is_at_the_first(left: Seq<char>, sep: char, right: Seq<char>)
    requires
        !left.contains(sep),
    ensures
        cut(left + seq![sep] + right, seq![sep]) == Some((left, right)),
        cut(left, seq![sep]) is None,
{
    let text = left + seq![sep] + right;
    let one = seq![sep];
    find_is_first(text, one, 0);
    find_is_first(left, one, 0);
    let at = left.len() as int;
    assert(text.subrange(at, at + 1) =~= one);
    assert(occurs_at(text, one, at));
    assert forall|j: int| 0 <= j < at implies !occurs_at(text, one, j) by {
        assert(text.subrange(j, j + 1)[0] == left[j]);
    }
    assert forall|j: int| 0 <= j implies !occurs_at(left, one, j) by {
        if j + 1 <= left.len() {
            assert(left.subrange(j, j + 1)[0] == left[j]);
        }
    }
    assert(find_from(text, one, 0) == Some(at));
    assert(text.take(at) =~= left);
    assert(text.skip(at + 1) =~= right);
}

/// A text is cut where the separator stands first.
pub proof fn cut_is_where_it_is_found(text: Seq<char>, sep: Seq<char>, at: int)
    requires
        occurs_at(text, sep, at),
        forall|j: int| 0 <= j < at ==> !occurs_at(text, sep, j),
    ensures
        cut(text, sep) == Some((text.take(at), text.skip(at + sep.len()))),
{
    find_is_first(text, sep, 0);
}

proof fn pieces_behind(left: Seq<char>, sep: char, right: Seq<char>, from: int, at: int)
    requires
        0 <= from <= at <= right.len(),
    ensures
        pieces_rec(left + right, sep, left.len() + from, left.len() + at) == pieces_rec(
            right,
            sep,
            from,
            at,
        ),
    decreases right.len() - at,
{
    let text = left + right;
    if at < right.len() {
        assert(text[left.len() + at] == right[at]);
        assert(text.subrange(left.len() + from, left.len() + at) =~= right.subrange(from, at));
        if right[at] == sep {
            pieces_behind(left, sep, right, at + 1, at + 1);
        } else {
            pieces_behind(left, sep, right, from, at + 1);
        }
    } else {
        assert(text.subrange(left.len() + from, text.len() as int) =~= right.subrange(
            from,
            right.len() as int,
        ));
    }
}

proof fn pieces_up_to(left: Seq<char>, sep: char, right: Seq<char>, at: int)
    requires
        0 <= at <= left.len(),
        !left.contains(sep),
    ensures
        pieces_rec(left + seq![sep] + right, sep, 0, at) == seq![left] + pieces_rec(
            left + seq![sep] + right,
            sep,
            left.len() as int + 1,
            left.len() as int + 1,
        ),
        pieces_rec(left, sep, 0, at) == seq![left],
    decreases left.len() - at,
{
    let text = left + seq![sep] + right;
    if at < left.len() {
        assert(text[at] == left[at]);
        assert(left.contains(left[at]));
        pieces_up_to(left, sep, right, at + 1);
    } else {
        assert(text[at] == sep);
        assert(text.subrange(0, at) =~= left);
        assert(left.subrange(0, left.len() as int) =~= left);
    }
}

/// A separator parts a text into what stands before it and the pieces of the
/// rest; a text without one is a single piece.
pub proof fn pieces_are_parted(left: Seq<char>, sep: char, right: Seq<char>)
    requires
        !left.contains(sep),
    ensures
        pieces(left + seq![sep] + right, sep) == seq![left] + pieces(right, sep),
        pieces(left, sep) == seq![left],
{
    pieces_up_to(left, sep, right, 0);
    pieces_behind(left + seq![sep], sep, right, 0, 0);
}

/// Trimming takes white space off both ends and nothing else.
pub proof fn trimmed_is_between(text: Seq<char>)
    ensures
        text.len() > 0 && !is_space(text[0]) && !is_space(text.last()) ==> trimmed(text) == text,
        text.len() > 0 && is_space(text[0]) ==> trimmed(text) == trimmed(text.skip(1)),
        trimmed(text).len() > 0 ==> !is_space(trimmed(text)[0]) && !is_space(trimmed(text).last()),
        trimmed(text).len() <= text.len(),
{
    left_is_taken(text);
    right_is_taken(left_trimmed(text));
}

proof fn left_is_taken(text: Seq<char>)
    ensures
        left_trimmed(text).len() > 0 ==> !is_space(left_trimmed(text)[0]),
        left_trimmed(text).len() <= text.len(),
    decreases text.len(),
{
    if text.len() > 0 && is_space(text[0]) {
        left_is_taken(text.skip(1));
    }
}

proof fn right_is_taken(text: Seq<char>)
    ensures
        right_trimmed(text).len() > 0 ==> !is_space(right_trimmed(text).last())
            && right_trimmed(text)[0] == text[0],
        right_trimmed(text).len() <= text.len(),
    decreases text.len(),
{
    if text.len() > 0 && is_space(text.last()) {
        right_is_taken(text.drop_last());
    }
}

/// Of two different texts exactly one comes before the other.
pub proof fn precedes_is_total(a: Seq<char>, b: Seq<char>)
    ensures
        precedes(a, b) || precedes(b, a) || a == b,
        precedes(a, b) ==> !precedes(b, a) && a != b,
    decreases b.len(),
{
    if a.len() > 0 && b.len() > 0 && a[0] == b[0] {
        precedes_is_total(a.skip(1), b.skip(1));
        if a.skip(1) == b.skip(1) {
            assert(a =~= seq![a[0]] + a.skip(1));
            assert(b =~= seq![b[0]] + b.skip(1));
        }
    }
    if a.len() == 0 && b.len() == 0 {
        assert(a =~= b);
    }
}

/// The order carries over.
pub proof fn precedes_is_transitive(a: Seq<char>, b: Seq<char>, c: Seq<char>)
    requires
        precedes(a, b),
        precedes(b, c),
    ensures
        precedes(a, c),
    decreases c.len(),
{
    if a.len() > 0 && a[0] == b[0] && b[0] == c[0] {
        precedes_is_transitive(a.skip(1), b.skip(1), c.skip(1));
    }
}

/// Where an item goes among texts.
pub proof fn placed_is_inserted(list: Seq<Seq<char>>, item: Seq<char>, at: int)
    requires
        0 <= at <= list.len(),
        forall|i: int| 0 <= i < at ==> !precedes(item, #[trigger] list[i]),
        at < list.len() ==> precedes(item, list[at]),
    ensures
        placed(list, item) == list.insert(at, item),
    decreases at,
{
    if list.len() == 0 {
        assert(list.insert(at, item) =~= seq![item]);
    } else if at == 0 {
        assert(list.insert(at, item) =~= seq![item] + list);
    } else {
        assert(!precedes(item, list[0]));
        assert forall|i: int| 0 <= i < at - 1 implies !precedes(
            item,
            #[trigger] list.skip(1)[i],
        ) by {
            assert(list.skip(1)[i] == list[i + 1]);
        }
        placed_is_inserted(list.skip(1), item, at - 1);
        assert(list.insert(at, item) =~= seq![list[0]] + list.skip(1).insert(at - 1, item));
    }
}

proof fn place_of(list: Seq<Seq<char>>, item: Seq<char>) -> (at: int)
    ensures
        0 <= at <= list.len(),
        forall|i: int| 0 <= i < at ==> !precedes(item, #[trigger] list[i]),
        at < list.len() ==> precedes(item, list[at]),
    decreases list.len(),
{
    if list.len() == 0 || precedes(item, list[0]) {
        0
    } else {
        let rest = place_of(list.skip(1), item);
        assert forall|i: int| 0 <= i < rest + 1 implies !precedes(item, #[trigger] list[i]) by {
            if i > 0 {
                assert(list.skip(1)[i - 1] == list[i]);
            }
        }
        rest + 1
    }
}

/// Putting texts in order keeps every one of them and leaves none before one
/// that it follows.
pub proof fn in_order_is_ordered(list: Seq<Seq<char>>)
    ensures
        ordered(in_order(list)),
        in_order(list).to_multiset() == list.to_multiset(),
    decreases list.len(),
{
    if list.len() == 0 {
        assert(in_order(list) =~= list);
    } else {
        let head = in_order(list.drop_last());
        let item = list.last();
        in_order_is_ordered(list.drop_last());
        let at = place_of(head, item);
        placed_is_inserted(head, item, at);
        let all = head.insert(at, item);
        assert forall|i: int, j: int| 0 <= i < j < all.len() implies !precedes(
            #[trigger] all[j],
            #[trigger] all[i],
        ) by {
            if i == at {
                precedes_is_total(item, head[at]);
                if j - 1 > at {
                    assert(!precedes(head[j - 1], head[at]));
                    precedes_is_total(head[j - 1], item);
                    if precedes(head[j - 1], item) {
                        precedes_is_transitive(head[j - 1], item, head[at]);
                    }
                }
            } else if j == at {
                assert(!precedes(item, head[i]));
            } else {
                let a = if i < at {
                    i
                } else {
                    i - 1
                };
                let b = if j < at {
                    j
                } else {
                    j - 1
                };
                assert(all[i] == head[a] && all[j] == head[b]);
            }
        }
        vstd::seq_lib::to_multiset_insert(head, at, item);
        assert(list =~= list.drop_last().push(item));
        vstd::seq_lib::to_multiset_build(list.drop_last(), item);
    }
}

/// One more text of a list adds that text to what the list holds.
pub proof fn take_adds(list: Seq<Seq<char>>, i: int)
    requires
        0 <= i < list.len(),
    ensures
        list.take(i + 1).to_set() == list.take(i).to_set().insert(list[i]),
{
    let longer = list.take(i + 1);
    let shorter = list.take(i);
    assert forall|x: Seq<char>| longer.contains(x) == (shorter.contains(x) || x == list[i]) by {
        if shorter.contains(x) {
            let k = choose|k: int| 0 <= k < shorter.len() && shorter[k] == x;
            assert(longer[k] == x);
        }
        if x == list[i] {
            assert(longer[i] == x);
        }
        if longer.contains(x) && x != list[i] {
            let k = choose|k: int| 0 <= k < longer.len() && longer[k] == x;
            assert(shorter[k] == x);
        }
    }
    assert(longer.to_set() =~= shorter.to_set().insert(list[i]));
}

/// A line break closes what stands before it: the lines of what follows are
/// those of that text alone.
pub proof fn lines_after_break(head: Seq<char>, tail: Seq<char>, from: int, at: int)
    requires
        0 <= from <= at <= head.len(),
        at < head.len() ==> head.last() == '\n',
        at == head.len() ==> from == at,
    ensures
        lines_rec(head + tail, from, at) == lines_rec(head, from, at) + lines_of(tail),
    decreases head.len() - at,
{
    let all = head + tail;
    if at == head.len() {
        lines_shifted(head, tail, 0, 0);
        assert(lines_rec(head, from, at) =~= Seq::empty());
        assert(lines_rec(all, from, at) =~= Seq::empty() + lines_of(tail));
    } else if head[at] == '\n' {
        lines_after_break(head, tail, at + 1, at + 1);
        assert(all.subrange(from, at) =~= head.subrange(from, at));
        let first = seq![without_return(head.subrange(from, at))];
        assert(lines_rec(all, from, at) == first + lines_rec(all, at + 1, at + 1));
        assert(first + (lines_rec(head, at + 1, at + 1) + lines_of(tail)) =~= (first + lines_rec(
            head,
            at + 1,
            at + 1,
        )) + lines_of(tail));
    } else {
        assert(at + 1 < head.len());
        lines_after_break(head, tail, from, at + 1);
    }
}

proof fn lines_shifted(head: Seq<char>, tail: Seq<char>, from: int, at: int)
    requires
        0 <= from <= at <= tail.len(),
    ensures
        lines_rec(head + tail, head.len() + from, head.len() + at) == lines_rec(tail, from, at),
    decreases tail.len() - at,
{
    let all = head + tail;
    let n = head.len();
    assert(all.subrange(n + from, n + at) =~= tail.subrange(from, at));
    if at >= tail.len() {
        assert(all.subrange(n + from, all.len() as int) =~= tail.subrange(from, tail.len() as int));
    } else if tail[at] == '\n' {
        lines_shifted(head, tail, at + 1, at + 1);
    } else {
        lines_shifted(head, tail, from, at + 1);
    }
}

/// Without a line feed in it, a text is passed over up to its end.
proof fn lines_unbroken(text: Seq<char>, from: int, at: int, end: int)
    requires
        0 <= from <= at <= end <= text.len(),
        forall|i: int| at <= i < end ==> text[i] != '\n',
    ensures
        lines_rec(text, from, at) == lines_rec(text, from, end),
    decreases end - at,
{
    if at < end {
        lines_unbroken(text, from, at + 1, end);
    }
}

/// Each part, closed by a line feed.
pub open spec fn closed_lines(parts: Seq<Seq<char>>) -> Seq<char>
    decreases parts.len(),
{
    if parts.len() == 0 {
        Seq::empty()
    } else {
        closed_lines(parts.drop_last()) + parts.last() + seq!['\n']
    }
}

/// A part that can stand on a line of its own.
pub open spec fn one_line(part: Seq<char>) -> bool {
    !part.contains('\n') && !(part.len() > 0 && part.last() == '\r')
}

/// The parts, each without a carriage return at its end.
pub open spec fn without_returns(parts: Seq<Seq<char>>) -> Seq<Seq<char>> {
    Seq::new(parts.len(), |i: int| without_return(parts[i]))
}

/// What was written line by line is read line by line, but that a carriage
/// return at the end of a line is taken for a part of the line break.
pub proof fn closed_lines_are_read(parts: Seq<Seq<char>>)
    requires
        forall|i: int| 0 <= i < parts.len() ==> !(#[trigger] parts[i]).contains('\n'),
    ensures
        lines_of(closed_lines(parts)) == without_returns(parts),
        closed_lines(parts).len() > 0 ==> closed_lines(parts).last() == '\n',
    decreases parts.len(),
{
    if parts.len() > 0 {
        let before = parts.drop_last();
        let head = closed_lines(before);
        let tail = parts.last() + seq!['\n'];
        assert forall|i: int| 0 <= i < before.len() implies !(#[trigger] before[i]).contains(
            '\n',
        ) by {
            assert(before[i] == parts[i]);
        }
        closed_lines_are_read(before);
        lines_after_break(head, tail, 0, 0);
        assert(closed_lines(parts) =~= head + tail);
        let n = parts.last().len() as int;
        assert(!parts[parts.len() - 1].contains('\n'));
        assert forall|i: int| 0 <= i < n implies tail[i] != '\n' by {
            assert(parts.last()[i] == tail[i]);
        }
        lines_unbroken(tail, 0, 0, n);
        assert(tail.subrange(0, n) =~= parts.last());
        assert(lines_rec(tail, n + 1, n + 1) =~= Seq::empty());
        assert(lines_of(tail) =~= seq![without_return(parts.last())]);
        assert(without_returns(before) + seq![without_return(parts.last())] =~= without_returns(
            parts,
        ));
    } else {
        assert(lines_of(Seq::empty()) =~= without_returns(parts));
    }
}

/// What was written line by line is read line by line.
pub proof fn closed_lines_are_lines(parts: Seq<Seq<char>>)
    requires
        forall|i: int| 0 <= i < parts.len() ==> one_line(#[trigger] parts[i]),
    ensures
        lines_of(closed_lines(parts)) == parts,
        closed_lines(parts).len() > 0 ==> closed_lines(parts).last() == '\n',
{
    assert forall|i: int| 0 <= i < parts.len() implies !(#[trigger] parts[i]).contains('\n') by {
        assert(one_line(parts[i]));
    }
    closed_lines_are_read(parts);
    assert(without_returns(parts) =~= parts) by {
        assert forall|i: int| 0 <= i < parts.len() implies without_returns(parts)[i] == parts[i] by {
            assert(one_line(parts[i]));
        }
    }
}

/// Joined by line feeds and closed by one, the parts are closed one by one.
pub proof fn joined_lines(parts: Seq<Seq<char>>)
    requires
        parts.len() > 0,
    ensures
        joined(parts, seq!['\n']) + seq!['\n'] == closed_lines(parts),
    decreases parts.len(),
{
    if parts.len() == 1 {
        assert(closed_lines(parts.drop_last()) =~= Seq::empty());
        assert(joined(parts, seq!['\n']) + seq!['\n'] =~= closed_lines(parts));
    } else {
        joined_lines(parts.drop_last());
    }
}

// ---------------------------------------------------------------------------
// Outside functions

/// `String::push` appends one character.
pub assume_specification[ String::push ](s: &mut String, c: char)
    ensures
        final(s)@ == old(s)@.push(c),
;

/// The letters of Western Europe: the first 256 characters of Unicode.
pub open spec fn all_latin(text: Seq<char>) -> bool {
    forall|i: int| 0 <= i < text.len() ==> (#[trigger] text[i] as int) < 256
}

/// The small letter of one of the first 256 characters: the capitals are `A`
/// to `Z` and, but for the multiplication sign, U+00C0 to U+00DE.
pub open spec fn latin_lower_char(c: char) -> char {
    if ('A' <= c && c <= 'Z') || (0xc0 <= c as int && c as int <= 0xde && c as int != 0xd7) {
        ((c as u32 + 32) as u32) as char
    } else {
        c
    }
}

/// `text` with each capital among the first 256 characters replaced by its
/// small letter.
pub open spec fn latin_lower(text: Seq<char>) -> Seq<char> {
    Seq::new(text.len(), |i: int| latin_lower_char(text[i]))
}

/// What `str::to_lowercase` makes of a text that goes beyond the first 256
/// characters.
pub uninterp spec fn unicode_lowercase(text: Seq<char>) -> Seq<char>;

/// `text` in small letters.
pub open spec fn lowercase(text: Seq<char>) -> Seq<char> {
    if all_ascii(text) {
        ascii_lower(text)
    } else if all_latin(text) {
        latin_lower(text)
    } else {
        unicode_lowercase(text)
    }
}

/// `str::to_lowercase` depends on the characters alone, and lowers each of them
/// as Unicode has it. Of the first 256 characters the capitals are replaced by
/// the letters 32 places on, and nothing else is changed.
#[verifier::external_body]
pub(crate) fn to_lowercase(text: &str) -> (r: String)
    ensures
        r@ == (if all_ascii(text@) {
            ascii_lower(text@)
        } else if all_latin(text@) {
            latin_lower(text@)
        } else {
            unicode_lowercase(text@)
        }),
{
    text.to_lowercase()
}

/// What `char::is_alphanumeric` answers for a character that is not ASCII.
pub uninterp spec fn unicode_alphanumeric(c: char) -> bool;

/// A letter or a digit.
pub open spec fn alphanumeric(c: char) -> bool {
    if (c as int) < 128 {
        is_digit(c) || ('a' <= c && c <= 'z') || ('A' <= c && c <= 'Z')
    } else {
        unicode_alphanumeric(c)
    }
}

/// `char::is_alphanumeric` depends on the character alone. Of the ASCII
/// characters it holds of the letters and the digits.
#[verifier::external_body]
pub(crate) fn is_alphanumeric(c: char) -> (r: bool)
    ensures
        r == (if (c as int) < 128 {
            is_digit(c) || ('a' <= c && c <= 'z') || ('A' <= c && c <= 'Z')
        } else {
            unicode_alphanumeric(c)
        }),
{
    c.is_alphanumeric()
}

/// What `char::to_uppercase` makes of a character that is not ASCII.
pub uninterp spec fn unicode_uppercase(c: char) -> Seq<char>;

/// The capital letter of an ASCII character; any other one as it is.
pub open spec fn ascii_capital(c: char) -> char {
    if 'a' <= c && c <= 'z' {
        ((c as u32 - 32) as u32) as char
    } else {
        c
    }
}

/// A character as a capital.
pub open spec fn uppercase(c: char) -> Seq<char> {
    if (c as int) < 128 {
        seq![ascii_capital(c)]
    } else {
        unicode_uppercase(c)
    }
}

/// `char::to_uppercase` depends on the character alone. Of the ASCII
/// characters it replaces `a` to `z` by the capital letter and nothing else.
#[verifier::external_body]
pub(crate) fn to_uppercase(c: char) -> (r: String)
    ensures
        r@ == (if (c as int) < 128 {
            seq![ascii_capital(c)]
        } else {
            unicode_uppercase(c)
        }),
{
    c.to_uppercase().collect::<String>()
}

// ---------------------------------------------------------------------------
// Strings and vectors of characters

/// The characters of `text`.
pub fn to_chars(text: &str) -> (r: Vec<char>)
    ensures
        r@ == text@,
{
    let mut out: Vec<char> = Vec::new();
    for c in it: text.chars()
        invariant
            out@ == it.seq().take(it.index() as int),
            it.seq() == text@,
    {
        out.push(c);
    }
    out
}

/// The string made of `chars`.
pub fn from_chars(chars: &[char]) -> (r: String)
    ensures
        r@ == chars@,
{
    let mut out: String = String::new();
    for i in 0..chars.len()
        invariant
            out@ == chars@.take(i as int),
    {
        out.push(chars[i]);
        assert(chars@.take(i as int).push(chars@[i as int]) =~= chars@.take(i + 1));
    }
    out
}

fn chars_same(a: &[char], b: &[char]) -> (r: bool)
    ensures
        r == (a@ == b@),
{
    if a.len() != b.len() {
        return false;
    }
    for i in 0..a.len()
        invariant
            a@.len() == b@.len(),
            forall|j: int| 0 <= j < i ==> a@[j] == b@[j],
    {
        if a[i] != b[i] {
            return false;
        }
    }
    assert(a@ =~= b@);
    true
}

/// Whether two strings hold the same characters.
pub fn same(a: &str, b: &str) -> (r: bool)
    ensures
        r == (a@ == b@),
{
    let left = to_chars(a);
    let right = to_chars(b);
    chars_same(left.as_slice(), right.as_slice())
}

/// Whether a string holds no character.
pub fn is_empty(text: &str) -> (r: bool)
    ensures
        r == (text@.len() == 0),
{
    to_chars(text).len() == 0
}

fn chars_at(hay: &[char], needle: &[char], at: usize) -> (r: bool)
    requires
        at + needle@.len() <= hay@.len(),
    ensures
        r == (hay@.subrange(at as int, at + needle@.len()) == needle@),
{
    let _bound: usize = hay.len();
    chars_same(slice_subrange(hay, at, at + needle.len()), needle)
}

/// The first index, `from` or later, at which `needle` stands in `hay`.
pub fn find_chars(hay: &[char], needle: &[char], from: usize) -> (r: Option<usize>)
    ensures
        r is Some == (find_from(hay@, needle@, from as int) is Some),
        r matches Some(i) ==> find_from(hay@, needle@, from as int) == Some(i as int) && i
            + needle@.len() <= hay@.len(),
{
    if needle.len() > hay.len() {
        return None;
    }
    let last = hay.len() - needle.len();
    let mut at = from;
    while at <= last
        invariant
            needle@.len() <= hay@.len() <= usize::MAX,
            last == hay@.len() - needle@.len(),
            from <= at,
            find_from(hay@, needle@, from as int) == find_from(hay@, needle@, at as int),
        decreases hay@.len() + 1 - at,
    {
        if chars_at(hay, needle, at) {
            return Some(at);
        }
        assert(needle@.len() == 0 ==> hay@.subrange(at as int, at as int) =~= needle@);
        at = at + 1;
    }
    None
}

/// Whether `needle` stands in `hay`.
pub fn contains(hay: &str, needle: &str) -> (r: bool)
    ensures
        r == has(hay@, needle@),
{
    let h = to_chars(hay);
    let n = to_chars(needle);
    proof {
        has_is_found(hay@, needle@);
    }
    find_chars(h.as_slice(), n.as_slice(), 0).is_some()
}

/// Whether `text` begins with `prefix`.
pub fn starts_with(text: &str, prefix: &str) -> (r: bool)
    ensures
        r == begins(text@, prefix@),
{
    let t = to_chars(text);
    let p = to_chars(prefix);
    if p.len() > t.len() {
        return false;
    }
    assert(text@.take(prefix@.len() as int) =~= text@.subrange(0, prefix@.len() as int));
    chars_at(t.as_slice(), p.as_slice(), 0)
}

/// What follows `prefix` in a text that begins with it.
pub fn strip_prefix(text: &str, prefix: &str) -> (r: Option<String>)
    ensures
        r is Some == begins(text@, prefix@),
        r matches Some(rest) ==> rest@ == text@.skip(prefix@.len() as int),
{
    if !starts_with(text, prefix) {
        return None;
    }
    let t = to_chars(text);
    let n = to_chars(prefix).len();
    let rest = from_chars(slice_subrange(t.as_slice(), n, t.len()));
    assert(rest@ =~= text@.skip(prefix@.len() as int));
    Some(rest)
}

/// What precedes `suffix` in a text that ends with it.
pub fn strip_suffix(text: &str, suffix: &str) -> (r: Option<String>)
    ensures
        r is Some == ends(text@, suffix@),
        r matches Some(rest) ==> rest@ == text@.take(text@.len() - suffix@.len()),
{
    let t = to_chars(text);
    let s = to_chars(suffix);
    if s.len() > t.len() {
        return None;
    }
    let at = t.len() - s.len();
    assert(text@.skip(at as int) =~= text@.subrange(at as int, at + suffix@.len()));
    if !chars_at(t.as_slice(), s.as_slice(), at) {
        return None;
    }
    let rest = from_chars(slice_subrange(t.as_slice(), 0, at));
    assert(rest@ =~= text@.take(at as int));
    Some(rest)
}

/// The text before and after the first `sep`.
pub fn split_once(text: &str, sep: &str) -> (r: Option<(String, String)>)
    ensures
        r is Some == (cut(text@, sep@) is Some),
        r matches Some((left, right)) ==> cut(text@, sep@) == Some((left@, right@)),
{
    let t = to_chars(text);
    let s = to_chars(sep);
    match find_chars(t.as_slice(), s.as_slice(), 0) {
        None => None,
        Some(i) => {
            let _bound: usize = t.len();
            let left = from_chars(slice_subrange(t.as_slice(), 0, i));
            let right = from_chars(slice_subrange(t.as_slice(), i + s.len(), t.len()));
            assert(left@ =~= text@.take(i as int));
            assert(right@ =~= text@.skip(i + sep@.len()));
            Some((left, right))
        },
    }
}

/// The pieces of `text` between the occurrences of `sep`.
pub fn split(text: &str, sep: char) -> (r: Vec<String>)
    ensures
        views(r@) == pieces(text@, sep),
        r@.len() >= 1,
{
    let t = to_chars(text);
    let mut out: Vec<String> = Vec::new();
    let mut from: usize = 0;
    let mut at: usize = 0;
    while at < t.len()
        invariant
            t@ == text@,
            from <= at <= t@.len(),
            pieces(text@, sep) == views(out@) + pieces_rec(text@, sep, from as int, at as int),
        decreases t@.len() - at,
    {
        if t[at] == sep {
            let piece = from_chars(slice_subrange(t.as_slice(), from, at));
            let ghost before = out@;
            out.push(piece);
            assert(views(out@) =~= views(before).push(piece@));
            assert(views(before) + (seq![piece@] + pieces_rec(text@, sep, at + 1, at + 1))
                =~= views(out@) + pieces_rec(text@, sep, at + 1, at + 1));
            from = at + 1;
        }
        at = at + 1;
    }
    let piece = from_chars(slice_subrange(t.as_slice(), from, t.len()));
    let ghost before = out@;
    out.push(piece);
    assert(views(out@) =~= views(before) + seq![piece@]);
    out
}

/// The pieces of `text` between the occurrences of the text `sep`.
pub fn split_text(text: &str, sep: &str) -> (r: Vec<String>)
    requires
        sep@.len() > 0,
    ensures
        views(r@) == parts_of(text@, sep@),
{
    let mut out: Vec<String> = Vec::new();
    let mut rest: String = text.to_owned();
    assert(views(out@) + parts_of(text@, sep@) =~= parts_of(text@, sep@));
    loop
        invariant_except_break
            sep@.len() > 0,
            parts_of(text@, sep@) == views(out@) + parts_of(rest@, sep@),
        ensures
            parts_of(text@, sep@) == views(out@) + parts_of(rest@, sep@),
            cut(rest@, sep@) is None,
        decreases rest@.len(),
    {
        match split_once(rest.as_str(), sep) {
            None => {
                break;
            },
            Some((left, right)) => {
                proof {
                    find_is_first(rest@, sep@, 0);
                }
                let ghost before = views(out@);
                let ghost piece = left@;
                out.push(left);
                assert(views(out@) =~= before.push(piece));
                assert(before + (seq![piece] + parts_of(right@, sep@)) =~= views(out@) + parts_of(
                    right@,
                    sep@,
                ));
                rest = right;
            },
        }
    }
    let ghost before = views(out@);
    let ghost last = rest@;
    out.push(rest);
    assert(views(out@) =~= before + seq![last]);
    out
}

/// Whether a character is white space.
pub fn space(c: char) -> (r: bool)
    ensures
        r == is_space(c),
{
    let n: u32 = c as u32;
    (0x9 <= n && n <= 0xd) || n == 0x20 || n == 0x85 || n == 0xa0 || n == 0x1680 || (0x2000 <= n && n
        <= 0x200a) || n == 0x2028 || n == 0x2029 || n == 0x202f || n == 0x205f || n == 0x3000
}

/// `text` without the white space it starts with.
pub fn trim_start(text: &str) -> (r: String)
    ensures
        r@ == left_trimmed(text@),
{
    let t = to_chars(text);
    let mut at: usize = 0;
    assert(text@.skip(0) =~= text@);
    while at < t.len() && space(t[at])
        invariant
            t@ == text@,
            at <= t@.len(),
            left_trimmed(text@) == left_trimmed(text@.skip(at as int)),
        decreases t@.len() - at,
    {
        assert(text@.skip(at as int).skip(1) =~= text@.skip(at + 1));
        at = at + 1;
    }
    let r = from_chars(slice_subrange(t.as_slice(), at, t.len()));
    assert(r@ =~= text@.skip(at as int));
    r
}

/// `text` without the white space it ends with.
pub fn trim_end(text: &str) -> (r: String)
    ensures
        r@ == right_trimmed(text@),
{
    let t = to_chars(text);
    let mut end: usize = t.len();
    assert(text@.take(end as int) =~= text@);
    while end > 0 && space(t[end - 1])
        invariant
            t@ == text@,
            end <= t@.len(),
            right_trimmed(text@) == right_trimmed(text@.take(end as int)),
        decreases end,
    {
        assert(text@.take(end as int).drop_last() =~= text@.take(end - 1));
        end = end - 1;
    }
    let r = from_chars(slice_subrange(t.as_slice(), 0, end));
    assert(r@ =~= text@.take(end as int));
    r
}

/// `text` without the white space at its two ends.
pub fn trim(text: &str) -> (r: String)
    ensures
        r@ == trimmed(text@),
{
    trim_end(trim_start(text).as_str())
}

/// The lines of `text`.
pub fn lines(text: &str) -> (r: Vec<String>)
    ensures
        views(r@) == lines_of(text@),
{
    let t = to_chars(text);
    let mut out: Vec<String> = Vec::new();
    let mut from: usize = 0;
    let mut at: usize = 0;
    while at < t.len()
        invariant
            t@ == text@,
            from <= at <= t@.len(),
            lines_of(text@) == views(out@) + lines_rec(text@, from as int, at as int),
        decreases t@.len() - at,
    {
        if t[at] == '\n' {
            let ghost line = text@.subrange(from as int, at as int);
            let end: usize = if at > from && t[at - 1] == '\r' {
                at - 1
            } else {
                at
            };
            let piece = from_chars(slice_subrange(t.as_slice(), from, end));
            assert(piece@ =~= without_return(line));
            let ghost before = out@;
            out.push(piece);
            assert(views(out@) =~= views(before).push(piece@));
            assert(views(before) + (seq![piece@] + lines_rec(text@, at + 1, at + 1)) =~= views(out@)
                + lines_rec(text@, at + 1, at + 1));
            from = at + 1;
        }
        at = at + 1;
    }
    if from < t.len() {
        let piece = from_chars(slice_subrange(t.as_slice(), from, t.len()));
        let ghost before = out@;
        out.push(piece);
        assert(views(out@) =~= views(before) + seq![piece@]);
    } else {
        assert(views(out@) + Seq::<Seq<char>>::empty() =~= views(out@));
    }
    out
}

/// The parts, one after the other, with `sep` between two of them.
pub fn join(parts: &Vec<String>, sep: &str) -> (r: String)
    ensures
        r@ == joined(views(parts@), sep@),
{
    let mut out: String = String::new();
    for i in 0..parts.len()
        invariant
            out@ == joined(views(parts@).take(i as int), sep@),
    {
        let ghost upto = views(parts@).take(i + 1);
        assert(upto.drop_last() =~= views(parts@).take(i as int));
        if i > 0 {
            out.append(sep);
            out.append(parts[i].as_str());
        } else {
            out.append(parts[i].as_str());
            assert(Seq::<char>::empty() + parts@[0]@ =~= parts@[0]@);
        }
    }
    assert(views(parts@).take(parts@.len() as int) =~= views(parts@));
    out
}

fn ascii_lower_of(c: char) -> (r: char)
    ensures
        r == ascii_lower_char(c),
{
    if 'A' <= c && c <= 'Z' {
        let n: u8 = c as u8;
        assert(n as int == c as int);
        (n + 32) as char
    } else {
        c
    }
}

/// `text` with each of `A` to `Z` replaced by its small letter.
pub fn to_ascii_lowercase(text: &str) -> (r: String)
    ensures
        r@ == ascii_lower(text@),
{
    let t = to_chars(text);
    let mut out: String = String::new();
    for i in 0..t.len()
        invariant
            t@ == text@,
            out@ == ascii_lower(text@).take(i as int),
    {
        out.push(ascii_lower_of(t[i]));
        assert(ascii_lower(text@).take(i as int).push(ascii_lower(text@)[i as int]) =~= ascii_lower(
            text@,
        ).take(i + 1));
    }
    assert(ascii_lower(text@).take(text@.len() as int) =~= ascii_lower(text@));
    out
}

/// Whether `a` comes before `b`.
pub fn less(a: &str, b: &str) -> (r: bool)
    ensures
        r == precedes(a@, b@),
{
    let left = to_chars(a);
    let right = to_chars(b);
    let mut i: usize = 0;
    assert(a@.skip(0) =~= a@);
    assert(b@.skip(0) =~= b@);
    while i < left.len() && i < right.len() && left[i] == right[i]
        invariant
            left@ == a@,
            right@ == b@,
            i <= a@.len(),
            i <= b@.len(),
            precedes(a@, b@) == precedes(a@.skip(i as int), b@.skip(i as int)),
        decreases a@.len() - i,
    {
        assert(a@.skip(i as int).skip(1) =~= a@.skip(i + 1));
        assert(b@.skip(i as int).skip(1) =~= b@.skip(i + 1));
        i = i + 1;
    }
    if i >= right.len() {
        false
    } else if i >= left.len() {
        true
    } else {
        left[i] < right[i]
    }
}

/// The texts in order.
pub fn sort(texts: &Vec<String>) -> (r: Vec<String>)
    ensures
        views(r@) == in_order(views(texts@)),
{
    let mut out: Vec<String> = Vec::new();
    assert(views(out@) =~= in_order(views(texts@).take(0)));
    for i in 0..texts.len()
        invariant
            views(out@) == in_order(views(texts@).take(i as int)),
    {
        let ghost before = views(out@);
        let item = texts[i].as_str();
        let mut at: usize = 0;
        while at < out.len() && !less(item, out[at].as_str())
            invariant
                at <= out@.len(),
                views(out@) == before,
                forall|j: int| 0 <= j < at ==> !precedes(item@, #[trigger] before[j]),
            decreases out@.len() - at,
        {
            assert(before[at as int] == out@[at as int]@);
            at = at + 1;
        }
        proof {
            if at < out@.len() {
                assert(before[at as int] == out@[at as int]@);
            }
            placed_is_inserted(before, item@, at as int);
        }
        out.insert(at, item.to_owned());
        assert(views(out@) =~= before.insert(at as int, item@));
        assert(views(texts@).take(i + 1).drop_last() =~= views(texts@).take(i as int));
    }
    assert(views(texts@).take(texts@.len() as int) =~= views(texts@));
    out
}

/// The digits that `text` starts with.
pub fn digits_prefix(text: &str) -> (r: String)
    ensures
        r@ == leading_digits(text@),
{
    let t = to_chars(text);
    let mut out: String = String::new();
    let mut i: usize = 0;
    assert(text@.skip(0) =~= text@);
    assert(Seq::<char>::empty() + leading_digits(text@) =~= leading_digits(text@));
    while i < t.len() && '0' <= t[i] && t[i] <= '9'
        invariant
            t@ == text@,
            i <= t@.len(),
            leading_digits(text@) == out@ + leading_digits(text@.skip(i as int)),
        decreases t@.len() - i,
    {
        let ghost before = out@;
        out.push(t[i]);
        assert(text@.skip(i as int).skip(1) =~= text@.skip(i + 1));
        assert(before + (seq![text@[i as int]] + leading_digits(text@.skip(i + 1))) =~= out@
            + leading_digits(text@.skip(i + 1)));
        i = i + 1;
    }
    assert(out@ + Seq::<char>::empty() =~= out@);
    out
}

/// Whether two strings are the same but for the case of ASCII letters.
pub fn eq_ignore_ascii_case(a: &str, b: &str) -> (r: bool)
    ensures
        r == (ascii_lower(a@) == ascii_lower(b@)),
{
    same(to_ascii_lowercase(a).as_str(), to_ascii_lowercase(b).as_str())
}

} // verus!
