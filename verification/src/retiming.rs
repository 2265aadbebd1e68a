//! Re-timing a `WebVTT` document twice is re-timing it once by the sum.
use vstd::prelude::*;

use crate::number::{decimal, decimal_denotes, digits_number, padded, value_of};
use crate::seconds::Seconds;
use crate::subtitles::{
    cue_split, cue_timing, first_space, judgements, new_timing, shifted, timestamp, verdict_on,
    CueTimes, CueVerdict,
};
use crate::text::{
    all_digits, closed_lines, closed_lines_are_read, cut, find_from, is_digit, is_space,
    left_trimmed, lines_of, lines_rec, one_line, pieces, pieces_rec, right_trimmed, trimmed,
    without_return, without_returns,
};

verus! {

// ---------------------------------------------------------------------------
// What lines say of time

/// A way to read the parts of a timestamp, in milliseconds.
pub type Clock = spec_fn(Seq<Seq<char>>) -> Option<int>;

/// The timestamp of a whole number of seconds is read as what it was written for.
pub open spec fn reads_back(clock: Clock) -> bool {
    forall|ms: nat|
        ms % 1000 == 0 ==> clock(#[trigger] pieces(timestamp(ms), ':')) == Some(ms as int)
}

/// The times that a line states.
#[verifier::opaque]
pub open spec fn stated(line: Seq<char>, clock: Clock) -> Option<(int, int)> {
    match cue_timing(line) {
        Some((first, second, _)) => match (clock(first), clock(second)) {
            (Some(start), Some(end)) => Some((start, end)),
            _ => None,
        },
        None => None,
    }
}

/// The times of a cue are these, in milliseconds.
pub open spec fn denotes(cue: CueTimes, start: int, end: int) -> bool {
    &&& cue.start.before(Seconds { bits: 0 }) == (start < 0)
    &&& cue.end.not_after(Seconds { bits: 0 }) == (end <= 0)
    &&& start >= 0 ==> cue.start_ms == start
    &&& end > 0 ==> cue.end_ms == end
}

/// `times` holds for each line what it states, counted from `shift` on.
pub open spec fn timed(
    lines: Seq<Seq<char>>,
    clock: Clock,
    shift: nat,
    times: Seq<Option<CueTimes>>,
) -> bool {
    &&& times.len() == lines.len()
    &&& forall|i: int|
        0 <= i < lines.len() ==> match stated(#[trigger] lines[i], clock) {
            Some((start, end)) => times[i] is Some && denotes(
                times[i]->0,
                start - shift,
                end - shift,
            ),
            None => times[i] is None,
        }
}

/// What a line states are whole seconds.
pub open spec fn whole_seconds(line: Seq<char>, clock: Clock) -> bool {
    stated(line, clock) matches Some((start, end)) ==> start % 1000 == 0 && end % 1000 == 0
}

/// The timing line of the block that the lines end in, if there has been one.
pub open spec fn open_cue(lines: Seq<Seq<char>>, clock: Clock) -> Option<Seq<char>>
    decreases lines.len(),
{
    if lines.len() == 0 || trimmed(lines.last()).len() == 0 {
        None
    } else if stated(lines.last(), clock) is Some {
        Some(lines.last())
    } else {
        open_cue(lines.drop_last(), clock)
    }
}

/// No block has more than one timing line.
pub open spec fn single_cues(lines: Seq<Seq<char>>, clock: Clock) -> bool
    decreases lines.len(),
{
    lines.len() > 0 ==> {
        &&& single_cues(lines.drop_last(), clock)
        &&& trimmed(lines.last()).len() > 0 && stated(lines.last(), clock) is Some ==> open_cue(
            lines.drop_last(),
            clock,
        ) is None
    }
}

// ---------------------------------------------------------------------------
// The lines that are kept

/// What becomes of a line when its cues are counted from `shift` on.
spec fn fate(line: Seq<char>, clock: Clock, shift: nat) -> CueVerdict {
    match stated(line, clock) {
        Some((start, end)) => if end <= shift {
            CueVerdict::Ended
        } else if start < shift {
            CueVerdict::Shown { start_ms: 0, end_ms: (end - shift) as u64 }
        } else {
            CueVerdict::Shown { start_ms: (start - shift) as u64, end_ms: (end - shift) as u64 }
        },
        None => CueVerdict::Text,
    }
}

#[verifier::ext_equal]
struct Kept {
    out: Seq<Seq<char>>,
    pending: Seq<Seq<char>>,
    dropping: bool,
}

impl Kept {
    spec fn after(self, line: Seq<char>, verdict: CueVerdict) -> Kept {
        if trimmed(line).len() == 0 {
            Kept {
                out: if self.dropping {
                    self.out
                } else {
                    (self.out + self.pending).push(Seq::empty())
                },
                pending: Seq::empty(),
                dropping: false,
            }
        } else if self.dropping {
            self
        } else {
            match verdict {
                CueVerdict::Text => Kept { pending: self.pending.push(line), ..self },
                CueVerdict::Ended => Kept { pending: Seq::empty(), dropping: true, ..self },
                CueVerdict::Shown { start_ms, end_ms } => Kept {
                    out: (self.out + self.pending).push(new_timing(line, start_ms, end_ms)),
                    pending: Seq::empty(),
                    ..self
                },
            }
        }
    }

    spec fn lines(self) -> Seq<Seq<char>> {
        if self.dropping {
            self.out
        } else {
            self.out + self.pending
        }
    }
}

spec fn kept(lines: Seq<Seq<char>>, clock: Clock, shift: nat) -> Kept
    decreases lines.len(),
{
    if lines.len() == 0 {
        Kept { out: Seq::empty(), pending: Seq::empty(), dropping: false }
    } else {
        kept(lines.drop_last(), clock, shift).after(
            lines.last(),
            fate(lines.last(), clock, shift),
        )
    }
}

proof fn closed_lines_add(a: Seq<Seq<char>>, b: Seq<Seq<char>>)
    ensures
        closed_lines(a + b) == closed_lines(a) + closed_lines(b),
    decreases b.len(),
{
    if b.len() == 0 {
        assert(a + b =~= a);
        assert(closed_lines(a) + closed_lines(b) =~= closed_lines(a));
    } else {
        closed_lines_add(a, b.drop_last());
        assert((a + b).drop_last() =~= a + b.drop_last());
        assert(closed_lines(a + b) =~= closed_lines(a) + closed_lines(b));
    }
}

proof fn closed_lines_push(a: Seq<Seq<char>>, b: Seq<Seq<char>>, line: Seq<char>)
    ensures
        closed_lines((a + b).push(line)) == (closed_lines(a) + closed_lines(b) + line).push('\n'),
{
    closed_lines_add(a, b);
    assert((a + b).push(line).drop_last() =~= a + b);
    assert(closed_lines((a + b).push(line)) =~= (closed_lines(a) + closed_lines(b) + line).push(
        '\n',
    ));
}

proof fn shifted_is_kept(
    lines: Seq<Seq<char>>,
    clock: Clock,
    shift: nat,
    verdicts: Seq<CueVerdict>,
)
    requires
        forall|i: int|
            0 <= i < lines.len() ==> #[trigger] verdict_on(verdicts, i) == fate(
                lines[i],
                clock,
                shift,
            ),
    ensures
        ({
            let state = shifted(lines, verdicts);
            let k = kept(lines, clock, shift);
            &&& state.out == closed_lines(k.out)
            &&& state.pending == k.pending
            &&& state.dropping == k.dropping
            &&& state.ended() == closed_lines(k.lines())
        }),
    decreases lines.len(),
{
    let k = kept(lines, clock, shift);
    if lines.len() > 0 {
        let head = lines.drop_last();
        assert forall|i: int| 0 <= i < head.len() implies #[trigger] verdict_on(verdicts, i)
            == fate(head[i], clock, shift) by {
            assert(head[i] == lines[i]);
        }
        shifted_is_kept(head, clock, shift, verdicts);
        let before = kept(head, clock, shift);
        assert(verdict_on(verdicts, lines.len() - 1) == fate(lines.last(), clock, shift));
        closed_lines_push(before.out, before.pending, Seq::empty());
        assert(closed_lines(before.out) + closed_lines(before.pending) + Seq::<char>::empty()
            =~= closed_lines(before.out) + closed_lines(before.pending));
        if let CueVerdict::Shown { start_ms, end_ms } = fate(lines.last(), clock, shift) {
            closed_lines_push(
                before.out,
                before.pending,
                new_timing(lines.last(), start_ms, end_ms),
            );
        }
    }
    closed_lines_add(k.out, k.pending);
}

proof fn judged_by_fate(
    lines: Seq<Seq<char>>,
    clock: Clock,
    shift: nat,
    times: Seq<Option<CueTimes>>,
)
    requires
        timed(lines, clock, shift, times),
    ensures
        shifted(lines, judgements(lines, times)).ended() == closed_lines(
            kept(lines, clock, shift).lines(),
        ),
{
    let verdicts = judgements(lines, times);
    assert forall|i: int| 0 <= i < lines.len() implies #[trigger] verdict_on(verdicts, i) == fate(
        lines[i],
        clock,
        shift,
    ) by {
        reveal(stated);
        assert(verdict_on(verdicts, i) == verdicts[i]);
        if let Some((start, end)) = stated(lines[i], clock) {
            assert(denotes(times[i]->0, start - shift, end - shift));
        }
    }
    shifted_is_kept(lines, clock, shift, verdicts);
}

// ---------------------------------------------------------------------------
// A timing line that was written is read again

proof fn found_at(hay: Seq<char>, needle: Seq<char>, from: int, at: int)
    requires
        0 <= from <= at,
        needle.len() > 0,
        at + needle.len() <= hay.len(),
        hay.subrange(at, at + needle.len()) == needle,
        forall|j: int| from <= j < at ==> #[trigger] hay[j] != needle[0],
    ensures
        find_from(hay, needle, from) == Some(at),
    decreases at - from,
{
    if from < at {
        assert(hay[from] != needle[0]);
        assert(hay.subrange(from, from + needle.len())[0] == hay[from]);
        found_at(hay, needle, from + 1, at);
    }
}

proof fn space_at(text: Seq<char>, from: int, at: int)
    requires
        0 <= from <= at <= text.len(),
        forall|j: int| from <= j < at ==> !is_space(#[trigger] text[j]),
        at < text.len() ==> is_space(text[at]),
    ensures
        first_space(text, from) == (if at < text.len() {
            Some(at)
        } else {
            None
        }),
    decreases at - from,
{
    if from < at {
        assert(!is_space(text[from]));
        space_at(text, from + 1, at);
    }
}

proof fn left_trimmed_within(text: Seq<char>)
    ensures
        left_trimmed(text).len() > 0 ==> !is_space(left_trimmed(text)[0]),
        forall|c: char| left_trimmed(text).contains(c) ==> #[trigger] text.contains(c),
    decreases text.len(),
{
    if text.len() > 0 && is_space(text[0]) {
        left_trimmed_within(text.skip(1));
        assert forall|c: char| left_trimmed(text).contains(c) implies #[trigger] text.contains(
            c,
        ) by {
            assert(text.skip(1).contains(c));
            let i = choose|i: int| 0 <= i < text.skip(1).len() && text.skip(1)[i] == c;
            assert(text[i + 1] == c);
        }
    }
}

proof fn right_trimmed_within(text: Seq<char>)
    ensures
        right_trimmed(text).len() <= text.len(),
        right_trimmed(text) == text.take(right_trimmed(text).len() as int),
        right_trimmed(text).len() > 0 ==> !is_space(right_trimmed(text).last()),
        text.len() > 0 && !is_space(text[0]) ==> right_trimmed(text).len() > 0,
    decreases text.len(),
{
    if text.len() > 0 && is_space(text.last()) {
        right_trimmed_within(text.drop_last());
        assert(right_trimmed(text) =~= text.take(right_trimmed(text).len() as int));
        if !is_space(text[0]) {
            assert(text.drop_last()[0] == text[0]);
        }
    } else {
        assert(text.take(text.len() as int) =~= text);
    }
}

/// Trimmed text has no white space at its ends, holds nothing new, and stays
/// as it is when it is trimmed again.
proof fn trimmed_within(text: Seq<char>)
    ensures
        forall|c: char| trimmed(text).contains(c) ==> #[trigger] text.contains(c),
        trimmed(text).len() > 0 ==> !is_space(trimmed(text)[0]) && !is_space(trimmed(text).last()),
        trimmed(trimmed(text)) == trimmed(text),
{
    let left = left_trimmed(text);
    let t = trimmed(text);
    left_trimmed_within(text);
    right_trimmed_within(left);
    assert forall|c: char| t.contains(c) implies #[trigger] text.contains(c) by {
        let i = choose|i: int| 0 <= i < t.len() && t[i] == c;
        assert(left[i] == c);
        assert(left.contains(c));
    }
    if t.len() > 0 {
        assert(t[0] == left[0]);
    }
}

proof fn not_blank(text: Seq<char>)
    requires
        text.len() > 0,
        !is_space(text[0]),
    ensures
        trimmed(text).len() > 0,
{
    right_trimmed_within(text);
}

/// A character of a timestamp.
spec fn in_stamp(c: char) -> bool {
    is_digit(c) || c == ':' || c == '.'
}

proof fn padded_digits(n: nat, width: nat)
    ensures
        all_digits(padded(n, width)),
        padded(n, width).len() > 0,
{
    decimal_denotes(n);
    let shown = decimal(n);
    let text = padded(n, width);
    assert forall|i: int| 0 <= i < text.len() implies is_digit(#[trigger] text[i]) by {
        if shown.len() < width {
            let fill = width - shown.len();
            if i >= fill {
                assert(text[i] == shown[i - fill]);
            }
        }
    }
}

proof fn pieces_without(text: Seq<char>, sep: char, from: int, at: int)
    requires
        0 <= from <= at <= text.len(),
        forall|j: int| at <= j < text.len() ==> #[trigger] text[j] != sep,
    ensures
        pieces_rec(text, sep, from, at) == seq![text.subrange(from, text.len() as int)],
    decreases text.len() - at,
{
    if at < text.len() {
        assert(text[at] != sep);
        pieces_without(text, sep, from, at + 1);
    }
}

proof fn pieces_up_to(text: Seq<char>, sep: char, from: int, at: int, next: int)
    requires
        0 <= from <= at <= next < text.len(),
        text[next] == sep,
        forall|j: int| at <= j < next ==> #[trigger] text[j] != sep,
    ensures
        pieces_rec(text, sep, from, at) == seq![text.subrange(from, next)] + pieces_rec(
            text,
            sep,
            next + 1,
            next + 1,
        ),
    decreases next - at,
{
    if at < next {
        assert(text[at] != sep);
        pieces_up_to(text, sep, from, at + 1, next);
    }
}

/// A timestamp is three numbers, and holds nothing but digits, colons and a dot.
proof fn stamp_is_plain(ms: nat)
    ensures
        timestamp(ms).len() > 0,
        forall|i: int| 0 <= i < timestamp(ms).len() ==> in_stamp(#[trigger] timestamp(ms)[i]),
        pieces(timestamp(ms), ':') == seq![
            padded(ms / 3_600_000, 2),
            padded((ms % 3_600_000) / 60_000, 2),
            padded((ms % 60_000) / 1000, 2) + "."@ + padded(ms % 1000, 3),
        ],
        is_digit(timestamp(ms)[0]),
        is_digit(timestamp(ms).last()),
{
    reveal_strlit(":");
    reveal_strlit(".");
    let t = timestamp(ms);
    let h = padded(ms / 3_600_000, 2);
    let m = padded((ms % 3_600_000) / 60_000, 2);
    let s = padded((ms % 60_000) / 1000, 2);
    let f = padded(ms % 1000, 3);
    padded_digits(ms / 3_600_000, 2);
    padded_digits((ms % 3_600_000) / 60_000, 2);
    padded_digits((ms % 60_000) / 1000, 2);
    padded_digits(ms % 1000, 3);
    let one = h.len() as int;
    let two = one + 1 + m.len();
    let dot = two + 1 + s.len();
    assert(t.len() == dot + 1 + f.len());
    assert forall|i: int| 0 <= i < t.len() implies in_stamp(#[trigger] t[i]) && (t[i] == ':') == (i
        == one || i == two) by {
        if i < one {
            assert(t[i] == h[i]);
        } else if i > one && i < two {
            assert(t[i] == m[i - one - 1]);
        } else if i > two && i < dot {
            assert(t[i] == s[i - two - 1]);
        } else if i > dot {
            assert(t[i] == f[i - dot - 1]);
        }
    }
    assert(t[0] == h[0]);
    assert(t.last() == f.last());
    pieces_up_to(t, ':', 0, 0, one);
    pieces_up_to(t, ':', one + 1, one + 1, two);
    pieces_without(t, ':', two + 1, two + 1);
    assert(t.subrange(0, one) =~= h);
    assert(t.subrange(one + 1, two) =~= m);
    assert(t.subrange(two + 1, t.len() as int) =~= s + "."@ + f);
    assert(pieces(t, ':') =~= seq![h, m, s + "."@ + f]);
}

proof fn stamp_is_trimmed(ms: nat)
    ensures
        trimmed(timestamp(ms)) == timestamp(ms),
        trimmed(timestamp(ms).push(' ')) == timestamp(ms),
        right_trimmed(timestamp(ms)) == timestamp(ms),
{
    stamp_is_plain(ms);
    let t = timestamp(ms);
    assert(!is_space(t[0]) && !is_space(t.last()));
    let u = t.push(' ');
    assert(u[0] == t[0]);
    assert(u.drop_last() =~= t);
    assert(is_space(u.last()));
}

/// The settings of a timing line.
spec fn settings_in(line: Seq<char>) -> Seq<char> {
    match cue_split(line) {
        Some((_, _, settings)) => settings,
        None => Seq::empty(),
    }
}

proof fn settings_are_plain(line: Seq<char>)
    ensures
        trimmed(settings_in(line)) == settings_in(line),
        settings_in(line).len() > 0 ==> !is_space(settings_in(line).last()),
        settings_in(line).contains('\n') ==> line.contains('\n'),
{
    let settings = settings_in(line);
    if let Some((start, after)) = cut(line, "-->"@) {
        let rest = left_trimmed(after);
        left_trimmed_within(after);
        if let Some(i) = first_space(rest, 0) {
            space_bounds(rest, 0);
            let tail = rest.skip(i + 1);
            trimmed_within(tail);
            if settings.contains('\n') {
                assert(tail.contains('\n'));
                let j = choose|j: int| 0 <= j < tail.len() && tail[j] == '\n';
                assert(rest[i + 1 + j] == '\n');
                assert(rest.contains('\n'));
                assert(after.contains('\n'));
                find_bounds(line, "-->"@, 0);
                let k = choose|k: int| 0 <= k < after.len() && after[k] == '\n';
                let at = find_from(line, "-->"@, 0)->0;
                assert(line[at + "-->"@.len() + k] == '\n');
            }
        }
    }
}

proof fn space_bounds(text: Seq<char>, from: int)
    ensures
        first_space(text, from) matches Some(i) ==> 0 <= i < text.len(),
    decreases text.len() - from,
{
    if 0 <= from < text.len() && !is_space(text[from]) {
        space_bounds(text, from + 1);
    }
}

proof fn find_bounds(hay: Seq<char>, needle: Seq<char>, from: int)
    ensures
        find_from(hay, needle, from) matches Some(i) ==> 0 <= i && i + needle.len() <= hay.len(),
    decreases hay.len() + 1 - from,
{
    if from >= 0 && from + needle.len() <= hay.len() && hay.subrange(from, from + needle.len())
        != needle {
        find_bounds(hay, needle, from + 1);
    }
}

/// A line with two timestamps, an arrow and perhaps settings.
spec fn laid_out(first: Seq<char>, second: Seq<char>, settings: Seq<char>) -> Seq<char> {
    first + " --> "@ + second + (if settings.len() > 0 {
        seq![' '] + settings
    } else {
        Seq::empty()
    })
}

spec fn all_in_stamp(text: Seq<char>) -> bool {
    text.len() > 0 && forall|i: int| 0 <= i < text.len() ==> in_stamp(#[trigger] text[i])
}

#[verifier::spinoff_prover]
proof fn arrow_is_found(first: Seq<char>, second: Seq<char>, settings: Seq<char>)
    requires
        all_in_stamp(first),
    ensures
        cut(laid_out(first, second, settings), "-->"@) == Some(
            (
                first.push(' '),
                seq![' '] + second + (if settings.len() > 0 {
                    seq![' '] + settings
                } else {
                    Seq::empty()
                }),
            ),
        ),
{
    reveal_strlit(" --> ");
    reveal_strlit("-->");
    let again = laid_out(first, second, settings);
    let tail = if settings.len() > 0 {
        seq![' '] + settings
    } else {
        Seq::empty()
    };
    let at: int = first.len() + 1int;
    assert(again.subrange(at, at + 3) =~= "-->"@);
    assert forall|j: int| 0 <= j < at implies #[trigger] again[j] != "-->"@[0] by {
        if j < first.len() {
            assert(again[j] == first[j]);
            assert(in_stamp(first[j]));
        }
    }
    found_at(again, "-->"@, 0, at);
    assert(again.take(at) =~= first.push(' '));
    assert(again.skip(at + 3) =~= seq![' '] + second + tail);
}

#[verifier::spinoff_prover]
proof fn layout_is_split(first: Seq<char>, second: Seq<char>, settings: Seq<char>)
    requires
        all_in_stamp(first),
        all_in_stamp(second),
        trimmed(settings) == settings,
    ensures
        cue_split(laid_out(first, second, settings)) == Some((first.push(' '), second, settings)),
{
    arrow_is_found(first, second, settings);
    let tail = if settings.len() > 0 {
        seq![' '] + settings
    } else {
        Seq::empty()
    };
    let after = seq![' '] + second + tail;
    let rest = second + tail;
    assert(after.skip(1) =~= rest);
    assert(rest[0] == second[0]);
    assert(in_stamp(second[0]));
    assert(left_trimmed(after.skip(1)) == rest);
    assert(left_trimmed(after) == rest);
    assert forall|j: int| 0 <= j < second.len() implies !is_space(#[trigger] rest[j]) by {
        assert(rest[j] == second[j]);
        assert(in_stamp(second[j]));
    }
    space_at(rest, 0, second.len() as int);
    if settings.len() > 0 {
        assert(rest.take(second.len() as int) =~= second);
        assert(rest.skip(second.len() + 1int) =~= settings);
    } else {
        assert(settings =~= Seq::empty());
        assert(rest =~= second);
        assert(in_stamp(second[second.len() - 1]));
        assert(right_trimmed(rest) == second);
    }
}

#[verifier::spinoff_prover]
proof fn layout_is_one_line(first: Seq<char>, second: Seq<char>, settings: Seq<char>)
    requires
        all_in_stamp(first),
        all_in_stamp(second),
        !settings.contains('\n'),
        settings.len() > 0 ==> !is_space(settings.last()),
    ensures
        one_line(laid_out(first, second, settings)),
        trimmed(laid_out(first, second, settings)).len() > 0,
{
    reveal_strlit(" --> ");
    let again = laid_out(first, second, settings);
    let two = first.len() + 5;
    if again.contains('\n') {
        let i = choose|i: int| 0 <= i < again.len() && again[i] == '\n';
        if i < first.len() {
            assert(in_stamp(first[i]));
        } else if two <= i < two + second.len() {
            assert(in_stamp(second[i - two]));
        } else if i > two + second.len() {
            assert(settings[i - two - second.len() - 1] == '\n');
            assert(settings.contains('\n'));
        }
    }
    if settings.len() > 0 {
        assert(again.last() == settings.last());
    } else {
        assert(again.last() == second.last());
        assert(in_stamp(second[second.len() - 1]));
    }
    assert(again[0] == first[0]);
    assert(in_stamp(first[0]));
    not_blank(again);
}

/// A timing line that was written states the times it was written for, keeps
/// its settings, and is one line that is not blank.
#[verifier::spinoff_prover]
proof fn rewritten(line: Seq<char>, start: u64, end: u64)
    requires
        cue_split(line) is Some,
    ensures
        ({
            let again = new_timing(line, start, end);
            &&& cue_timing(again) == Some(
                (
                    pieces(timestamp(start as nat), ':'),
                    pieces(timestamp(end as nat), ':'),
                    settings_in(line),
                ),
            )
            &&& cue_split(again) is Some
            &&& settings_in(again) == settings_in(line)
            &&& trimmed(again).len() > 0 || line.contains('\n')
            &&& one_line(again) || line.contains('\n')
        }),
{
    let first = timestamp(start as nat);
    let second = timestamp(end as nat);
    let settings = settings_in(line);
    let again = new_timing(line, start, end);
    stamp_is_plain(start as nat);
    stamp_is_plain(end as nat);
    stamp_is_trimmed(start as nat);
    stamp_is_trimmed(end as nat);
    settings_are_plain(line);
    assert(again =~= laid_out(first, second, settings));
    layout_is_split(first, second, settings);
    if !line.contains('\n') {
        layout_is_one_line(first, second, settings);
    }
}

/// What a timing line that was written states, and what it is written as again.
#[verifier::spinoff_prover]
proof fn stated_again(line: Seq<char>, clock: Clock, start: u64, end: u64)
    requires
        reads_back(clock),
        stated(line, clock) is Some,
        !line.contains('\n'),
        start % 1000 == 0,
        end % 1000 == 0,
    ensures
        ({
            let again = new_timing(line, start, end);
            &&& stated(again, clock) == Some((start as int, end as int))
            &&& one_line(again)
            &&& trimmed(again).len() > 0
            &&& forall|s: u64, e: u64|
                #[trigger] new_timing(again, s, e) == new_timing(line, s, e)
        }),
{
    reveal(stated);
    rewritten(line, start, end);
    assert(clock(pieces(timestamp(start as nat), ':')) == Some(start as int));
    assert(clock(pieces(timestamp(end as nat), ':')) == Some(end as int));
}

// ---------------------------------------------------------------------------
// A clock

/// The time that the parts of a timestamp in full notation denote: hours,
/// minutes, and seconds with thousandths.
pub open spec fn plain_ms(parts: Seq<Seq<char>>) -> Option<int> {
    if parts.len() != 3 {
        None
    } else {
        match cut(parts[2], "."@) {
            Some((seconds, thousandths)) => match (
                digits_number(parts[0]),
                digits_number(parts[1]),
                digits_number(seconds),
                digits_number(thousandths),
            ) {
                (Some(h), Some(m), Some(s), Some(f)) => if thousandths.len() == 3 {
                    Some((h * 3_600_000 + m * 60_000 + s * 1000 + f) as int)
                } else {
                    None
                },
                _ => None,
            },
            None => None,
        }
    }
}

proof fn leading_zeros(zeros: nat, digits: Seq<char>)
    requires
        all_digits(digits),
    ensures
        value_of(Seq::new(zeros, |i: int| '0') + digits) == value_of(digits),
    decreases zeros + digits.len(),
{
    let fill = Seq::new(zeros, |i: int| '0');
    let all = fill + digits;
    if digits.len() > 0 {
        let head = digits.drop_last();
        assert(all_digits(head)) by {
            assert forall|i: int| 0 <= i < head.len() implies is_digit(#[trigger] head[i]) by {
                assert(head[i] == digits[i]);
            }
        }
        leading_zeros(zeros, head);
        assert(all.drop_last() =~= fill + head);
        assert(all.last() == digits.last());
    } else if zeros > 0 {
        let fewer = Seq::new((zeros - 1) as nat, |i: int| '0');
        leading_zeros((zeros - 1) as nat, digits);
        assert(all.drop_last() =~= fewer + digits);
        assert(all.last() == '0');
    } else {
        assert(all =~= digits);
    }
}

/// A number that is filled up with zeros is still that number.
pub proof fn padded_denotes(n: nat, width: nat)
    ensures
        digits_number(padded(n, width)) == Some(n),
{
    decimal_denotes(n);
    padded_digits(n, width);
    let shown = decimal(n);
    if shown.len() < width {
        leading_zeros((width - shown.len()) as nat, shown);
    }
}

proof fn short_decimal(n: nat)
    requires
        n < 1000,
    ensures
        decimal(n).len() <= 3,
{
    reveal_with_fuel(decimal, 3);
}

proof fn parts_sum_up(ms: nat)
    ensures
        (ms / 3_600_000) * 3_600_000 + ((ms % 3_600_000) / 60_000) * 60_000 + ((ms % 60_000) / 1000)
            * 1000 + ms % 1000 == ms,
{
    assert((ms % 3_600_000) % 60_000 == ms % 60_000);
    assert((ms % 60_000) % 1000 == ms % 1000);
}

#[verifier::spinoff_prover]
proof fn last_part_is_cut(s: Seq<char>, f: Seq<char>)
    requires
        all_digits(s),
    ensures
        cut(s + "."@ + f, "."@) == Some((s, f)),
{
    reveal_strlit(".");
    let last = s + "."@ + f;
    let at = s.len() as int;
    assert(last.subrange(at, at + 1) =~= "."@);
    assert forall|j: int| 0 <= j < at implies #[trigger] last[j] != "."@[0] by {
        assert(last[j] == s[j]);
        assert(is_digit(s[j]));
    }
    found_at(last, "."@, 0, at);
    assert(last.take(at) =~= s);
    assert(last.skip(at + 1) =~= f);
}

#[verifier::spinoff_prover]
proof fn stamp_is_read_back(ms: nat)
    ensures
        plain_ms(pieces(timestamp(ms), ':')) == Some(ms as int),
{
    let s = padded((ms % 60_000) / 1000, 2);
    let f = padded(ms % 1000, 3);
    stamp_is_plain(ms);
    padded_denotes(ms / 3_600_000, 2);
    padded_denotes((ms % 3_600_000) / 60_000, 2);
    padded_denotes((ms % 60_000) / 1000, 2);
    padded_denotes(ms % 1000, 3);
    short_decimal(ms % 1000);
    last_part_is_cut(s, f);
    parts_sum_up(ms);
    assert(pieces(timestamp(ms), ':')[2] == s + "."@ + f);
}

/// A timestamp in full notation denotes the time that it was written for, so
/// there is a way to read timestamps back.
pub proof fn stamps_are_read_back()
    ensures
        forall|ms: nat| plain_ms(#[trigger] pieces(timestamp(ms), ':')) == Some(ms as int),
        reads_back(|parts: Seq<Seq<char>>| plain_ms(parts)),
{
    assert forall|ms: nat| plain_ms(#[trigger] pieces(timestamp(ms), ':')) == Some(ms as int) by {
        stamp_is_read_back(ms);
    }
}

// ---------------------------------------------------------------------------
// The law

/// A line that the law speaks of: one that states whole seconds, whose times
/// fit once they are counted from `shift` on.
spec fn ordinary(line: Seq<char>, clock: Clock, shift: nat) -> bool {
    &&& !line.contains('\n')
    &&& whole_seconds(line, clock)
    &&& stated(line, clock) matches Some((start, end)) ==> start - shift <= u64::MAX && end - shift
        <= u64::MAX
}

/// Lines of text: none is blank or states a time.
spec fn all_text(lines: Seq<Seq<char>>, clock: Clock) -> bool {
    forall|i: int|
        0 <= i < lines.len() ==> trimmed(#[trigger] lines[i]).len() > 0 && stated(lines[i], clock)
            is None
}

spec fn unbroken(lines: Seq<Seq<char>>) -> bool {
    forall|i: int| 0 <= i < lines.len() ==> !(#[trigger] lines[i]).contains('\n')
}

/// No line ends in a carriage return.
spec fn without_end(lines: Seq<Seq<char>>) -> bool {
    forall|i: int| 0 <= i < lines.len() ==> without_return(#[trigger] lines[i]) == lines[i]
}

proof fn nothing_to_take(lines: Seq<Seq<char>>)
    requires
        without_end(lines),
    ensures
        without_returns(lines) == lines,
{
    assert(without_returns(lines) =~= lines);
}

proof fn returns_add(a: Seq<Seq<char>>, b: Seq<Seq<char>>)
    ensures
        without_returns(a + b) == without_returns(a) + without_returns(b),
{
    assert(without_returns(a + b) =~= without_returns(a) + without_returns(b));
}

proof fn found_before(text: Seq<char>, last: char, needle: Seq<char>, from: int)
    requires
        needle.len() > 0,
        needle.last() != last,
    ensures
        find_from(text.push(last), needle, from) == find_from(text, needle, from),
    decreases text.len() + 1 - from,
{
    let all = text.push(last);
    if from >= 0 && from + needle.len() <= all.len() {
        let part = all.subrange(from, from + needle.len());
        if from + needle.len() == all.len() {
            assert(part.last() == last);
            assert(find_from(all, needle, from + 1) is None);
        } else {
            assert(part =~= text.subrange(from, from + needle.len()));
            if part != needle {
                found_before(text, last, needle, from + 1);
            }
        }
    }
}

proof fn left_trimmed_push(text: Seq<char>, last: char)
    requires
        is_space(last),
    ensures
        left_trimmed(text.push(last)) == (if left_trimmed(text).len() > 0 {
            left_trimmed(text).push(last)
        } else {
            Seq::empty()
        }),
    decreases text.len(),
{
    let all = text.push(last);
    if text.len() == 0 {
        assert(all.skip(1) =~= Seq::empty());
        assert(left_trimmed(all.skip(1)) =~= Seq::empty());
    } else {
        assert(all[0] == text[0]);
        if is_space(text[0]) {
            left_trimmed_push(text.skip(1), last);
            assert(all.skip(1) =~= text.skip(1).push(last));
        }
    }
}

proof fn trimmed_push(text: Seq<char>, last: char)
    requires
        is_space(last),
    ensures
        trimmed(text.push(last)) == trimmed(text),
{
    left_trimmed_push(text, last);
    let left = left_trimmed(text);
    if left.len() > 0 {
        assert(left.push(last).drop_last() =~= left);
    } else {
        assert(left =~= Seq::empty());
    }
}

proof fn space_before(text: Seq<char>, last: char, from: int)
    requires
        is_space(last),
        0 <= from <= text.len(),
    ensures
        first_space(text.push(last), from) == Some(
            match first_space(text, from) {
                Some(i) => i,
                None => text.len() as int,
            },
        ),
        first_space(text, from) is None ==> forall|j: int|
            from <= j < text.len() ==> !is_space(#[trigger] text[j]),
    decreases text.len() - from,
{
    let all = text.push(last);
    if from < text.len() {
        assert(all[from] == text[from]);
        if !is_space(text[from]) {
            space_before(text, last, from + 1);
        }
    }
}

/// A carriage return at the end of a line changes nothing of what it says.
#[verifier::spinoff_prover]
proof fn return_says_nothing(line: Seq<char>, clock: Clock)
    ensures
        stated(without_return(line), clock) == stated(line, clock),
        trimmed(without_return(line)) == trimmed(line),
        line.contains('\n') || !without_return(line).contains('\n'),
{
    reveal(stated);
    let less = without_return(line);
    if line.len() > 0 && line.last() == '\r' {
        assert(less.push('\r') =~= line);
        trimmed_push(less, '\r');
        reveal_strlit("-->");
        found_before(less, '\r', "-->"@, 0);
        find_bounds(less, "-->"@, 0);
        if let Some(i) = find_from(less, "-->"@, 0) {
            let after = less.skip(i + 3);
            assert(line.take(i) =~= less.take(i));
            assert(line.skip(i + 3) =~= after.push('\r'));
            left_trimmed_push(after, '\r');
            let rest = left_trimmed(after);
            if rest.len() > 0 {
                space_before(rest, '\r', 0);
                space_bounds(rest, 0);
                if let Some(j) = first_space(rest, 0) {
                    assert(rest.push('\r').take(j) =~= rest.take(j));
                    assert(rest.push('\r').skip(j + 1) =~= rest.skip(j + 1).push('\r'));
                    trimmed_push(rest.skip(j + 1), '\r');
                } else {
                    assert(!is_space(rest[rest.len() - 1]));
                    assert(rest.push('\r').take(rest.len() as int) =~= rest);
                    assert(rest.push('\r').skip(rest.len() + 1int) =~= Seq::empty());
                    assert(trimmed(Seq::empty()) =~= Seq::empty());
                }
            } else {
                assert(rest =~= Seq::empty());
            }
        }
        assert(cue_split(less) == cue_split(line));
        if less.contains('\n') {
            let j = choose|j: int| 0 <= j < less.len() && less[j] == '\n';
            assert(line[j] == '\n');
        }
    }
}

proof fn returns_are_text(lines: Seq<Seq<char>>, clock: Clock)
    requires
        all_text(lines, clock),
    ensures
        all_text(without_returns(lines), clock),
{
    let less = without_returns(lines);
    assert forall|i: int| 0 <= i < less.len() implies trimmed(#[trigger] less[i]).len() > 0
        && stated(less[i], clock) is None by {
        assert(trimmed(lines[i]).len() > 0);
        return_says_nothing(lines[i], clock);
    }
}

proof fn text_is_pending(base: Seq<Seq<char>>, text: Seq<Seq<char>>, clock: Clock, shift: nat)
    requires
        all_text(text, clock),
    ensures
        ({
            let before = kept(base, clock, shift);
            kept(base + text, clock, shift) == (if before.dropping {
                before
            } else {
                Kept { pending: before.pending + text, ..before }
            })
        }),
    decreases text.len(),
{
    let before = kept(base, clock, shift);
    if text.len() == 0 {
        assert(base + text =~= base);
        assert(before.pending + text =~= before.pending);
    } else {
        let head = text.drop_last();
        assert forall|i: int| 0 <= i < head.len() implies trimmed(#[trigger] head[i]).len() > 0
            && stated(head[i], clock) is None by {
            assert(head[i] == text[i]);
        }
        text_is_pending(base, head, clock, shift);
        assert((base + text).drop_last() =~= base + head);
        assert((base + text).last() == text[text.len() - 1]);
        assert((before.pending + head).push(text.last()) =~= before.pending + text);
    }
}

/// How two shifts, one after the other, stand to one by the sum, after some lines.
spec fn in_step(lines: Seq<Seq<char>>, clock: Clock, a: nat, b: nat) -> bool {
    let once = kept(lines, clock, a);
    let both = kept(lines, clock, a + b);
    let twice = kept(without_returns(once.out), clock, b);
    &&& all_text(once.pending, clock)
    &&& unbroken(once.pending)
    &&& unbroken(once.out)
    &&& twice.out == both.out
    &&& twice.pending == Seq::<Seq<char>>::empty()
    &&& match open_cue(lines, clock) {
        Some(cue) => {
            let end = (stated(cue, clock)->0).1;
            &&& once.dropping == (end <= a)
            &&& both.dropping == (end <= a + b)
            &&& twice.dropping == (a < end <= a + b)
            &&& both.pending == (if both.dropping {
                Seq::empty()
            } else {
                once.pending
            })
        },
        None => !once.dropping && !both.dropping && !twice.dropping && both.pending == once.pending,
    }
}

proof fn stays_in_step(lines: Seq<Seq<char>>, clock: Clock, a: nat, b: nat)
    requires
        reads_back(clock),
        a % 1000 == 0,
        b % 1000 == 0,
        b > 0,
        single_cues(lines, clock),
        forall|i: int| 0 <= i < lines.len() ==> ordinary(#[trigger] lines[i], clock, a),
        without_end(kept(lines, clock, a + b).out),
    ensures
        in_step(lines, clock, a, b),
    decreases lines.len(),
{
    if lines.len() > 0 {
        let head = lines.drop_last();
        let line = lines.last();
        assert forall|i: int| 0 <= i < head.len() implies ordinary(#[trigger] head[i], clock, a) by {
            assert(head[i] == lines[i]);
        }
        let before = kept(head, clock, a + b).out;
        let now = kept(lines, clock, a + b).out;
        assert forall|i: int| 0 <= i < before.len() implies without_return(#[trigger] before[i])
            == before[i] by {
            assert(now[i] == before[i]);
        }
        stays_in_step(head, clock, a, b);
        assert(ordinary(lines[lines.len() - 1], clock, a));
        if trimmed(line).len() == 0 {
            blank_in_step(lines, clock, a, b);
        } else if stated(line, clock) is Some {
            cue_in_step(lines, clock, a, b);
        } else {
            text_in_step(lines, clock, a, b);
        }
    } else {
        assert(without_returns(kept(lines, clock, a).out) =~= Seq::empty());
    }
}

/// The lines that wait are read as lines that wait.
proof fn pending_is_read(lines: Seq<Seq<char>>, clock: Clock, a: nat, b: nat)
    requires
        in_step(lines, clock, a, b),
    ensures
        ({
            let once = kept(lines, clock, a);
            let twice = kept(without_returns(once.out), clock, b);
            kept(without_returns(once.out + once.pending), clock, b) == (if twice.dropping {
                twice
            } else {
                Kept { pending: without_returns(once.pending), ..twice }
            })
        }),
{
    let once = kept(lines, clock, a);
    let twice = kept(without_returns(once.out), clock, b);
    let waiting = without_returns(once.pending);
    returns_are_text(once.pending, clock);
    returns_add(once.out, once.pending);
    text_is_pending(without_returns(once.out), waiting, clock, b);
    assert(twice.pending + waiting =~= waiting);
}

proof fn unbroken_add(a: Seq<Seq<char>>, b: Seq<Seq<char>>, line: Seq<char>)
    requires
        unbroken(a),
        unbroken(b),
        !line.contains('\n'),
    ensures
        unbroken((a + b).push(line)),
{
    let all = (a + b).push(line);
    assert forall|i: int| 0 <= i < all.len() implies !(#[trigger] all[i]).contains('\n') by {
        if i < a.len() {
            assert(all[i] == a[i]);
        } else if i < a.len() + b.len() {
            assert(all[i] == b[i - a.len()]);
        }
    }
}

/// Where lines are kept and none of them ends in a carriage return, neither
/// does one of those that waited.
proof fn waited_without_end(a: Seq<Seq<char>>, b: Seq<Seq<char>>, line: Seq<char>)
    requires
        without_end((a + b).push(line)),
    ensures
        without_returns(b) == b,
{
    let all = (a + b).push(line);
    assert forall|i: int| 0 <= i < b.len() implies without_return(#[trigger] b[i]) == b[i] by {
        assert(all[a.len() + i] == b[i]);
    }
    nothing_to_take(b);
}

#[verifier::spinoff_prover]
proof fn blank_in_step(lines: Seq<Seq<char>>, clock: Clock, a: nat, b: nat)
    requires
        lines.len() > 0,
        in_step(lines.drop_last(), clock, a, b),
        trimmed(lines.last()).len() == 0,
        without_end(kept(lines, clock, a + b).out),
    ensures
        in_step(lines, clock, a, b),
{
    let head = lines.drop_last();
    let once = kept(head, clock, a);
    let both = kept(head, clock, a + b);
    let next = kept(lines, clock, a);
    let empty = Seq::<char>::empty();
    if !once.dropping {
        pending_is_read(head, clock, a, b);
        unbroken_add(once.out, once.pending, empty);
        let read = without_returns(next.out);
        assert(next.out == (once.out + once.pending).push(empty));
        assert(read.drop_last() =~= without_returns(once.out + once.pending));
        assert(read.last() == empty);
        assert(trimmed(empty).len() == 0);
        if !both.dropping {
            waited_without_end(both.out, both.pending, empty);
        }
    }
}

proof fn text_in_step(lines: Seq<Seq<char>>, clock: Clock, a: nat, b: nat)
    requires
        lines.len() > 0,
        in_step(lines.drop_last(), clock, a, b),
        trimmed(lines.last()).len() > 0,
        stated(lines.last(), clock) is None,
        !lines.last().contains('\n'),
    ensures
        in_step(lines, clock, a, b),
{
    let once = kept(lines.drop_last(), clock, a);
    let next = kept(lines, clock, a);
    assert forall|i: int| 0 <= i < next.pending.len() implies trimmed(
        #[trigger] next.pending[i],
    ).len() > 0 && stated(next.pending[i], clock) is None && !next.pending[i].contains('\n') by {
        if i < once.pending.len() {
            assert(next.pending[i] == once.pending[i]);
        }
    }
}

/// What becomes of a timing line under two shifts, and under one by the sum.
#[verifier::spinoff_prover]
proof fn fates_add(line: Seq<char>, clock: Clock, a: nat, b: nat)
    requires
        reads_back(clock),
        a % 1000 == 0,
        b % 1000 == 0,
        b > 0,
        stated(line, clock) is Some,
        ordinary(line, clock, a),
    ensures
        ({
            let end = (stated(line, clock)->0).1;
            &&& !(fate(line, clock, a) is Text) && !(fate(line, clock, a + b) is Text)
            &&& (fate(line, clock, a) is Ended) == (end <= a)
            &&& (fate(line, clock, a + b) is Ended) == (end <= a + b)
            &&& fate(line, clock, a) matches CueVerdict::Shown { start_ms, end_ms } ==> {
                let again = new_timing(line, start_ms, end_ms);
                &&& one_line(again)
                &&& trimmed(again).len() > 0
                &&& fate(again, clock, b) == fate(line, clock, a + b)
                &&& fate(again, clock, b) matches CueVerdict::Shown { start_ms, end_ms }
                    ==> new_timing(again, start_ms, end_ms) == new_timing(line, start_ms, end_ms)
            }
        }),
{
    let (start, end) = stated(line, clock)->0;
    if end > a {
        let from: u64 = if start < a {
            0
        } else {
            (start - a) as u64
        };
        let to: u64 = (end - a) as u64;
        let again = new_timing(line, from, to);
        assert(fate(line, clock, a) == (CueVerdict::Shown { start_ms: from, end_ms: to }));
        whole_difference(start, a as int);
        whole_difference(end, a as int);
        stated_again(line, clock, from, to);
        assert(to == end - a && from == (if start < a {
            0
        } else {
            start - a
        }));
        assert(fate(again, clock, b) == fate(line, clock, a + b));
    }
}

proof fn whole_difference(x: int, y: int)
    requires
        x % 1000 == 0,
        y % 1000 == 0,
    ensures
        (x - y) % 1000 == 0,
{
}

#[verifier::spinoff_prover]
proof fn cue_in_step(lines: Seq<Seq<char>>, clock: Clock, a: nat, b: nat)
    requires
        reads_back(clock),
        a % 1000 == 0,
        b % 1000 == 0,
        b > 0,
        lines.len() > 0,
        in_step(lines.drop_last(), clock, a, b),
        open_cue(lines.drop_last(), clock) is None,
        trimmed(lines.last()).len() > 0,
        stated(lines.last(), clock) is Some,
        ordinary(lines.last(), clock, a),
        without_end(kept(lines, clock, a + b).out),
    ensures
        in_step(lines, clock, a, b),
{
    let line = lines.last();
    let head = lines.drop_last();
    let once = kept(head, clock, a);
    let both = kept(head, clock, a + b);
    let next = kept(lines, clock, a);
    fates_add(line, clock, a, b);
    if let CueVerdict::Shown { start_ms, end_ms } = fate(line, clock, a) {
        let again = new_timing(line, start_ms, end_ms);
        pending_is_read(head, clock, a, b);
        unbroken_add(once.out, once.pending, again);
        let read = without_returns(next.out);
        assert(next.out == (once.out + once.pending).push(again));
        assert(read.drop_last() =~= without_returns(once.out + once.pending));
        assert(read.last() == without_return(again));
        assert(without_return(again) == again);
        if let CueVerdict::Shown { start_ms, end_ms } = fate(line, clock, a + b) {
            waited_without_end(both.out, both.pending, new_timing(line, start_ms, end_ms));
        }
    }
}

proof fn lines_hold_no_break(text: Seq<char>, from: int, at: int)
    requires
        0 <= from <= at <= text.len(),
        forall|j: int| from <= j < at ==> #[trigger] text[j] != '\n',
    ensures
        forall|i: int|
            0 <= i < lines_rec(text, from, at).len() ==> !(#[trigger] lines_rec(
                text,
                from,
                at,
            )[i]).contains('\n'),
    decreases text.len() - at,
{
    let all = lines_rec(text, from, at);
    if at < text.len() && text[at] == '\n' {
        let rest = lines_rec(text, at + 1, at + 1);
        let whole = text.subrange(from, at);
        lines_hold_no_break(text, at + 1, at + 1);
        assert forall|i: int| 0 <= i < all.len() implies !(#[trigger] all[i]).contains('\n') by {
            if i == 0 {
                assert(all[0] == without_return(whole));
                if all[0].contains('\n') {
                    let j = choose|j: int| 0 <= j < all[0].len() && all[0][j] == '\n';
                    assert(whole[j] == '\n');
                    assert(text[from + j] == '\n');
                }
            } else {
                assert(all[i] == rest[i - 1]);
            }
        }
    } else if at < text.len() {
        let same = lines_rec(text, from, at + 1);
        lines_hold_no_break(text, from, at + 1);
        assert(all == same);
        assert forall|i: int| 0 <= i < all.len() implies !(#[trigger] all[i]).contains('\n') by {
            assert(!same[i].contains('\n'));
        }
    } else {
        assert forall|i: int| 0 <= i < all.len() implies !(#[trigger] all[i]).contains('\n') by {
            assert(all[i] == text.subrange(from, at));
            if all[i].contains('\n') {
                let j = choose|j: int| 0 <= j < all[i].len() && all[i][j] == '\n';
                assert(text[from + j] == '\n');
            }
        }
    }
}

/// A carriage return stands before no line feed.
pub open spec fn plain_breaks(text: Seq<char>) -> bool {
    forall|i: int| 0 <= i < text.len() - 1 && #[trigger] text[i] == '\r' ==> text[i + 1] != '\n'
}

proof fn plain_lines(lines: Seq<Seq<char>>)
    requires
        plain_breaks(closed_lines(lines)),
    ensures
        without_end(lines),
    decreases lines.len(),
{
    if lines.len() > 0 {
        let head = lines.drop_last();
        let last = lines.last();
        let before = closed_lines(head);
        let text = closed_lines(lines);
        assert forall|i: int|
            0 <= i < before.len() - 1 && #[trigger] before[i] == '\r' implies before[i + 1]
            != '\n' by {
            assert(text[i] == before[i] && text[i + 1] == before[i + 1]);
        }
        plain_lines(head);
        if last.len() > 0 && last.last() == '\r' {
            let at = before.len() + last.len() - 1;
            assert(text[at] == '\r' && text[at + 1] == '\n');
        }
        assert forall|i: int| 0 <= i < lines.len() implies without_return(#[trigger] lines[i])
            == lines[i] by {
            if i < head.len() {
                assert(head[i] == lines[i]);
            }
        }
    }
}

/// Re-timing a document by `a` and then by `b` is re-timing it by the sum of
/// both, where all times are whole seconds, no block has more than one timing
/// line, and no line of text that is kept ends in a carriage return besides its
/// line break: such a line would lose one each time. `first`, `second` and
/// `sum` are the times that the lines state, counted from `a` on, of the
/// re-timed document from `b` on, and from the sum on.
pub proof fn shifts_add_up(
    text: Seq<char>,
    clock: Clock,
    a: nat,
    b: nat,
    first: Seq<Option<CueTimes>>,
    second: Seq<Option<CueTimes>>,
    sum: Seq<Option<CueTimes>>,
)
    requires
        reads_back(clock),
        a > 0,
        b > 0,
        a % 1000 == 0,
        b % 1000 == 0,
        single_cues(lines_of(text), clock),
        forall|i: int|
            0 <= i < lines_of(text).len() ==> whole_seconds(#[trigger] lines_of(text)[i], clock),
        plain_breaks(shifted(lines_of(text), judgements(lines_of(text), sum)).ended()),
        timed(lines_of(text), clock, a, first),
        timed(
            lines_of(shifted(lines_of(text), judgements(lines_of(text), first)).ended()),
            clock,
            b,
            second,
        ),
        timed(lines_of(text), clock, a + b, sum),
    ensures
        ({
            let lines = lines_of(text);
            let once = lines_of(shifted(lines, judgements(lines, first)).ended());
            shifted(once, judgements(once, second)).ended() == shifted(
                lines,
                judgements(lines, sum),
            ).ended()
        }),
{
    let lines = lines_of(text);
    lines_hold_no_break(text, 0, 0);
    assert forall|i: int| 0 <= i < lines.len() implies ordinary(#[trigger] lines[i], clock, a) by {
        if let Some((start, end)) = stated(lines[i], clock) {
            assert(denotes(first[i]->0, start - a, end - a));
        }
    }
    judged_by_fate(lines, clock, a, first);
    judged_by_fate(lines, clock, a + b, sum);
    let k = kept(lines, clock, a);
    let both = kept(lines, clock, a + b);
    plain_lines(both.lines());
    assert forall|i: int| 0 <= i < both.out.len() implies without_return(#[trigger] both.out[i])
        == both.out[i] by {
        assert(both.lines()[i] == both.out[i]);
    }
    stays_in_step(lines, clock, a, b);
    pending_is_read(lines, clock, a, b);
    assert forall|i: int| 0 <= i < k.lines().len() implies !(#[trigger] k.lines()[i]).contains(
        '\n',
    ) by {
        if i < k.out.len() {
            assert(k.lines()[i] == k.out[i]);
        } else {
            assert(k.lines()[i] == k.pending[i - k.out.len()]);
        }
    }
    closed_lines_are_read(k.lines());
    judged_by_fate(without_returns(k.lines()), clock, b, second);
    if !both.dropping {
        assert forall|i: int| 0 <= i < both.pending.len() implies without_return(
            #[trigger] both.pending[i],
        ) == both.pending[i] by {
            assert(both.lines()[both.out.len() + i] == both.pending[i]);
        }
        nothing_to_take(both.pending);
    }
    assert(kept(without_returns(k.lines()), clock, b).lines() =~= both.lines());
}

} // verus!
