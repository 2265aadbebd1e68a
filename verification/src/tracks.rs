//! What is promised of the subtitle tracks that are found for a medium: which
//! files and streams are offered, in which language and under which label, and
//! how they are converted.
use vstd::prelude::*;

use crate::json::{integer_of, list_of, member, text_of, Json};
use crate::number::decimal;
use crate::seconds::Seconds;
use crate::subtitles::{
    attempts_for, capitalized, convert_view, cue_split, cue_timing, described, draft_file,
    embedded_entries, embedded_entry, embedded_in, embedded_label, flag, flags, first_language,
    folders_in, is_separator, judged, judgements, language_named, lined_up, needed, new_timing, pretty, probe_view, remarked,
    shifted, sidecars_beside, sidecars_for, sidecars_in_folders, sidecars_inside, subtitle_extension,
    subtitle_paths, text_codec, timestamp, title_words, tracks_of, verdict_on, vtt_file,
    without_separators,
    word, words, words_rec, CueTimes, CueVerdict, EmbeddedView, SidecarView, SourceView,
    Shifting, VttEvent, VttStep,
};
use crate::text::{
    all_digits, alphanumeric, ascii_lower, begins, closed_lines, ends, given, in_order, in_order_is_ordered,
    joined, lines_of, lowercase, trimmed, uppercase, views,
};
use crate::util::{below, extension_of, stem_of};

verus! {

// ---------------------------------------------------------------------------
// Words

proof fn words_in(text: Seq<char>, from: int, at: int)
    requires
        0 <= from <= at <= text.len(),
        forall|i: int| at <= i < text.len() ==> alphanumeric(#[trigger] text[i]),
    ensures
        words_rec(text, from, at) == word(text.subrange(from, text.len() as int)),
    decreases text.len() - at,
{
    if at < text.len() {
        assert(alphanumeric(text[at]));
        words_in(text, from, at + 1);
    }
}

/// A text of letters and digits is one word, in small letters.
pub proof fn one_word_is_one(text: Seq<char>)
    requires
        text.len() > 0,
        forall|i: int| 0 <= i < text.len() ==> alphanumeric(#[trigger] text[i]),
    ensures
        words(text) == seq![lowercase(text)],
{
    words_in(text, 0, 0);
    assert(text.subrange(0, text.len() as int) =~= text);
}

proof fn words_up_to(left: Seq<char>, sep: char, right: Seq<char>, from: int, at: int)
    requires
        0 <= from <= at <= left.len(),
        !alphanumeric(sep),
    ensures
        words_rec(left + seq![sep] + right, from, at) == words_rec(left, from, at) + words_rec(
            left + seq![sep] + right,
            left.len() as int + 1,
            left.len() as int + 1,
        ),
    decreases left.len() - at,
{
    let text = left + seq![sep] + right;
    let rest = words_rec(text, left.len() as int + 1, left.len() as int + 1);
    if at < left.len() {
        assert(text[at] == left[at]);
        if !alphanumeric(left[at]) {
            words_up_to(left, sep, right, at + 1, at + 1);
            assert(text.subrange(from, at) =~= left.subrange(from, at));
            assert(word(text.subrange(from, at)) + (words_rec(left, at + 1, at + 1) + rest) =~= (
            word(left.subrange(from, at)) + words_rec(left, at + 1, at + 1)) + rest);
        } else {
            words_up_to(left, sep, right, from, at + 1);
        }
    } else {
        assert(text[at] == sep);
        assert(text.subrange(from, at) =~= left.subrange(from, left.len() as int));
    }
}

proof fn words_behind(left: Seq<char>, right: Seq<char>, from: int, at: int)
    requires
        0 <= from <= at <= right.len(),
    ensures
        words_rec(left + right, left.len() + from, left.len() + at) == words_rec(right, from, at),
    decreases right.len() - at,
{
    let text = left + right;
    if at < right.len() {
        assert(text[left.len() + at] == right[at]);
        assert(text.subrange(left.len() + from, left.len() + at) =~= right.subrange(from, at));
        if !alphanumeric(right[at]) {
            words_behind(left, right, at + 1, at + 1);
        } else {
            words_behind(left, right, from, at + 1);
        }
    } else {
        assert(text.subrange(left.len() + from, text.len() as int) =~= right.subrange(
            from,
            right.len() as int,
        ));
    }
}

/// Any character that is neither a letter nor a digit parts the words on its
/// two sides, and is itself part of none.
pub proof fn words_are_parted(left: Seq<char>, sep: char, right: Seq<char>)
    requires
        !alphanumeric(sep),
    ensures
        words(left + seq![sep] + right) == words(left) + words(right),
{
    words_up_to(left, sep, right, 0, 0);
    words_behind(left + seq![sep], right, 0, 0);
}

// ---------------------------------------------------------------------------
// What a name says

/// The first word that stands for a language decides.
pub proof fn first_language_decides(parts: Seq<Seq<char>>, i: int)
    requires
        0 <= i < parts.len(),
        language_named(lowercase(parts[i])) is Some,
        forall|j: int| 0 <= j < i ==> language_named(lowercase(#[trigger] parts[j])) is None,
    ensures
        first_language(parts) == language_named(lowercase(parts[i])),
    decreases parts.len(),
{
    let head = parts.drop_last();
    if i < head.len() {
        assert(head[i] == parts[i]);
        assert forall|j: int| 0 <= j < i implies language_named(
            lowercase(#[trigger] head[j]),
        ) is None by {
            assert(head[j] == parts[j]);
        }
        first_language_decides(head, i);
    } else {
        assert forall|j: int| 0 <= j < head.len() implies language_named(
            lowercase(#[trigger] head[j]),
        ) is None by {
            assert(head[j] == parts[j]);
        }
        without_a_language(head);
    }
}

/// Where no word stands for a language, none is known.
pub proof fn without_a_language(parts: Seq<Seq<char>>)
    requires
        forall|j: int| 0 <= j < parts.len() ==> language_named(lowercase(#[trigger] parts[j])) is None,
    ensures
        first_language(parts) is None,
    decreases parts.len(),
{
    if parts.len() > 0 {
        let head = parts.drop_last();
        assert forall|j: int| 0 <= j < head.len() implies language_named(
            lowercase(#[trigger] head[j]),
        ) is None by {
            assert(head[j] == parts[j]);
        }
        without_a_language(head);
        assert(language_named(lowercase(parts[parts.len() - 1])) is None);
    }
}

/// A word says that subtitles are forced, or for the hard of hearing.
pub open spec fn marks(part: Seq<char>, remark: Seq<char>) -> bool {
    ||| part == "forced"@ && remark == "forced"@
    ||| (part == "sdh"@ || part == "hi"@ || part == "cc"@) && remark == "SDH"@
}

proof fn marks_are_flags(part: Seq<char>, remark: Seq<char>)
    ensures
        marks(part, remark) <==> flag(part) == Some(remark),
{
    reveal_strlit("forced");
    reveal_strlit("sdh");
    reveal_strlit("hi");
    reveal_strlit("cc");
    reveal_strlit("SDH");
    assert("forced"@.len() == 6);
    assert("sdh"@.len() == 3);
    assert("hi"@.len() == 2);
    assert("cc"@.len() == 2);
    assert("SDH"@.len() == 3);
    assert("sdh"@[0] != "SDH"@[0]);
    assert("hi"@[0] != "cc"@[0]);
}

/// A label remarks that subtitles are forced, or for the hard of hearing, where
/// and only where a word of the name says so.
pub proof fn remarks_are_what_words_say(parts: Seq<Seq<char>>, remark: Seq<char>)
    ensures
        flags(parts).contains(remark) <==> exists|i: int|
            0 <= i < parts.len() && marks(#[trigger] parts[i], remark),
    decreases parts.len(),
{
    if parts.len() > 0 {
        let head = parts.drop_last();
        let before = flags(head);
        let after = flags(parts);
        remarks_are_what_words_say(head, remark);
        marks_are_flags(parts.last(), remark);
        assert(parts[parts.len() - 1] == parts.last());
        assert forall|i: int| 0 <= i < head.len() implies head[i] == #[trigger] parts[i] by {}
        if flag(parts.last()) is Some && after != before {
            assert(after == before.push(flag(parts.last())->0));
            assert(after[before.len() as int] == flag(parts.last())->0);
            if before.contains(remark) {
                let k = choose|k: int| 0 <= k < before.len() && before[k] == remark;
                assert(after[k] == remark);
            }
            if after.contains(remark) {
                let k = choose|k: int| 0 <= k < after.len() && after[k] == remark;
                if k < before.len() {
                    assert(before[k] == remark);
                } else {
                    assert(marks(parts[parts.len() - 1], remark));
                }
            }
        }
        if before.contains(remark) {
            let i = choose|i: int| 0 <= i < head.len() && marks(#[trigger] head[i], remark);
            assert(marks(parts[i], remark));
        }
        if exists|i: int| 0 <= i < parts.len() && marks(#[trigger] parts[i], remark) {
            let i = choose|i: int| 0 <= i < parts.len() && marks(#[trigger] parts[i], remark);
            if i < head.len() {
                assert(marks(head[i], remark));
            } else {
                assert(flag(parts.last()) == Some(remark));
                if after == before {
                    assert(before[before.len() - 1] == remark);
                }
            }
        }
    }
}

/// A file is labelled with the English name of the language that its name
/// tells, under the code of that language, or as it would be called otherwise;
/// behind that stands what else the name says, and nothing where it says
/// nothing.
pub proof fn label_is_the_language(descriptor: Seq<char>, fallback: Seq<char>)
    ensures
        ({
            let (language, label) = described(descriptor, fallback);
            let told = first_language(words(descriptor));
            &&& told matches Some((code, name)) ==> language == code && begins(label, name)
            &&& told is None ==> language.len() == 0 && begins(label, fallback)
            &&& flags(words(descriptor)).len() == 0 ==> label == (match told {
                Some((_, name)) => name,
                None => fallback,
            })
            &&& flags(words(descriptor)).len() > 0 ==> ends(
                label,
                " ("@ + joined(flags(words(descriptor)), ", "@) + ")"@,
            )
        }),
{
    let told = first_language(words(descriptor));
    let base = match told {
        Some((_, name)) => name,
        None => fallback,
    };
    let remark = joined(flags(words(descriptor)), ", "@);
    let label = described(descriptor, fallback).1;
    let tail = " ("@ + remark + ")"@;
    assert(label.take(base.len() as int) =~= base);
    if flags(words(descriptor)).len() > 0 {
        assert(label =~= base + tail);
        assert(label.skip(label.len() - tail.len()) =~= tail);
    }
}

/// The name of an undescribed file is shown word by word, each with a capital,
/// but for the numbers in it; one without a word is called what it is.
pub proof fn shown_name_is_the_words(parts: Seq<Seq<char>>)
    ensures
        forall|i: int|
            0 <= i < parts.len() && !all_digits(#[trigger] parts[i]) ==> title_words(
                parts,
            ).contains(capitalized(parts[i])),
        (forall|i: int| 0 <= i < parts.len() ==> all_digits(#[trigger] parts[i])) ==> title_words(
            parts,
        ).len() == 0,
        title_words(parts).len() <= parts.len(),
    decreases parts.len(),
{
    if parts.len() > 0 {
        let head = parts.drop_last();
        let before = title_words(head);
        let after = title_words(parts);
        shown_name_is_the_words(head);
        assert forall|i: int| 0 <= i < head.len() implies head[i] == #[trigger] parts[i] by {}
        assert(parts[parts.len() - 1] == parts.last());
        assert forall|i: int| 0 <= i < parts.len() && !all_digits(
            #[trigger] parts[i],
        ) implies after.contains(capitalized(parts[i])) by {
            if i < head.len() {
                assert(!all_digits(head[i]));
                let k = choose|k: int|
                    0 <= k < before.len() && before[k] == capitalized(parts[i]);
                assert(after[k] == capitalized(parts[i]));
            } else {
                assert(after[after.len() - 1] == capitalized(parts[i]));
            }
        }
        if forall|i: int| 0 <= i < parts.len() ==> all_digits(#[trigger] parts[i]) {
            assert forall|i: int| 0 <= i < head.len() implies all_digits(#[trigger] head[i]) by {
                assert(all_digits(parts[i]));
            }
        }
    }
}

/// Only the first letter of a word is made a capital.
pub proof fn capital_is_the_first_letter(w: Seq<char>)
    requires
        w.len() > 0,
        'a' <= w[0] <= 'z',
    ensures
        capitalized(w).len() == w.len(),
        capitalized(w)[0] as int == w[0] as int - 32,
        capitalized(w).skip(1) == w.skip(1),
        pretty(Seq::empty()) == "Subtitles"@,
{
    assert(capitalized(w).skip(1) =~= w.skip(1));
    assert(words(Seq::empty()) =~= Seq::empty());
}

// ---------------------------------------------------------------------------
// Files

/// A file with subtitles is one whose name ends in the extension of one, in
/// whatever letters, and nothing else is taken for one.
pub proof fn files_are_told_by_extension(paths: Seq<Seq<char>>, path: Seq<char>)
    ensures
        subtitle_paths(paths).contains(path) <==> paths.contains(path) && seq![
            "srt"@,
            "vtt"@,
            "ass"@,
            "ssa"@,
        ].contains(extension_of(path)),
    decreases paths.len(),
{
    let known = seq!["srt"@, "vtt"@, "ass"@, "ssa"@];
    assert(known[0] == "srt"@ && known[1] == "vtt"@ && known[2] == "ass"@ && known[3] == "ssa"@);
    let ext = extension_of(path);
    if known.contains(ext) {
        let k = choose|k: int| 0 <= k < known.len() && known[k] == ext;
        assert(k == 0 || k == 1 || k == 2 || k == 3);
    }
    assert(known.contains(ext) <==> subtitle_extension(ext));
    if paths.len() > 0 {
        let head = paths.drop_last();
        let before = subtitle_paths(head);
        let after = subtitle_paths(paths);
        files_are_told_by_extension(head, path);
        assert(paths[paths.len() - 1] == paths.last());
        if head.contains(path) {
            let k = choose|k: int| 0 <= k < head.len() && head[k] == path;
            assert(paths[k] == path);
        }
        if paths.contains(path) {
            let k = choose|k: int| 0 <= k < paths.len() && paths[k] == path;
            if k < head.len() {
                assert(head[k] == path);
            }
        }
        if before.contains(path) {
            let k = choose|k: int| 0 <= k < before.len() && before[k] == path;
            assert(after[k] == path);
        }
        if after.contains(path) {
            let k = choose|k: int| 0 <= k < after.len() && after[k] == path;
            if k < before.len() {
                assert(before[k] == path);
            } else {
                assert(path == paths.last());
            }
        }
        if path == paths.last() && subtitle_extension(ext) {
            assert(after[after.len() - 1] == path);
        }
    }
}

/// A file is offered under a label and a language.
pub open spec fn offers(found: Seq<SidecarView>, path: Seq<char>) -> bool {
    exists|k: int| 0 <= k < found.len() && (#[trigger] found[k]).0 == path
}

proof fn offers_more(found: Seq<SidecarView>, item: SidecarView, path: Seq<char>)
    ensures
        offers(found.push(item), path) <==> offers(found, path) || item.0 == path,
{
    let more = found.push(item);
    assert(more[found.len() as int] == item);
    if offers(found, path) {
        let k = choose|k: int| 0 <= k < found.len() && (#[trigger] found[k]).0 == path;
        assert(more[k].0 == path);
    }
    if offers(more, path) {
        let k = choose|k: int| 0 <= k < more.len() && (#[trigger] more[k]).0 == path;
        if k < found.len() {
            assert(found[k].0 == path);
        }
    }
}

/// Beside a medium exactly the files are offered whose names begin with its
/// own, in whatever letters, and each under what the rest of its name says.
pub proof fn files_beside_begin_with_the_name(
    stem: Seq<char>,
    paths: Seq<Seq<char>>,
    path: Seq<char>,
)
    requires
        stem.len() > 0,
    ensures
        offers(sidecars_beside(stem, paths), path) <==> paths.contains(path) && begins(
            lowercase(stem_of(path)),
            stem,
        ),
        forall|k: int|
            0 <= k < sidecars_beside(stem, paths).len() ==> {
                let (found, label, language) = #[trigger] sidecars_beside(stem, paths)[k];
                (language, label) == described(
                    without_separators(lowercase(stem_of(found)).skip(stem.len() as int)),
                    "Subtitles"@,
                )
            },
    decreases paths.len(),
{
    if paths.len() > 0 {
        let head = paths.drop_last();
        let last = paths.last();
        let before = sidecars_beside(stem, head);
        let after = sidecars_beside(stem, paths);
        files_beside_begin_with_the_name(stem, head, path);
        assert(paths[paths.len() - 1] == last);
        if head.contains(path) {
            let k = choose|k: int| 0 <= k < head.len() && head[k] == path;
            assert(paths[k] == path);
        }
        if paths.contains(path) {
            let k = choose|k: int| 0 <= k < paths.len() && paths[k] == path;
            if k < head.len() {
                assert(head[k] == path);
            }
        }
        let name = lowercase(stem_of(last));
        if begins(name, stem) {
            let (language, label) = described(
                without_separators(name.skip(stem.len() as int)),
                "Subtitles"@,
            );
            assert(after == before.push((last, label, language)));
            offers_more(before, (last, label, language), path);
        }
    } else {
        assert(!paths.contains(path));
    }
}

/// In a folder of subtitles every file is offered, in order, under what its
/// name says.
pub proof fn files_in_folders_are_all_offered(paths: Seq<Seq<char>>, i: int)
    requires
        0 <= i < paths.len(),
    ensures
        sidecars_inside(paths).len() == paths.len(),
        ({
            let (found, label, language) = sidecars_inside(paths)[i];
            &&& found == paths[i]
            &&& (language, label) == described(stem_of(paths[i]), pretty(stem_of(paths[i])))
        }),
    decreases paths.len(),
{
    let head = paths.drop_last();
    if i < head.len() {
        files_in_folders_are_all_offered(head, i);
        assert(head[i] == paths[i]);
    } else if head.len() > 0 {
        files_in_folders_are_all_offered(head, 0);
    } else {
        assert(sidecars_inside(head).len() == 0);
    }
}

/// The files beside the medium come before those in the folders.
pub proof fn files_beside_come_first(
    media: Seq<char>,
    beside: Seq<Seq<char>>,
    folders: Seq<Seq<Seq<char>>>,
    i: int,
)
    ensures
        ({
            let first = sidecars_beside(
                lowercase(stem_of(media)),
                in_order(subtitle_paths(beside)),
            );
            &&& 0 <= i < first.len() ==> sidecars_for(media, beside, folders)[i] == first[i]
            &&& sidecars_for(media, beside, folders).len() == first.len() + sidecars_in_folders(
                folders,
            ).len()
        }),
{
}

/// The description of a file begins behind what parts it from the name of the
/// medium.
pub proof fn separators_are_passed_over(sep: char, rest: Seq<char>)
    ensures
        sep == '.' || sep == '_' || sep == '-' || sep == ' ' ==> without_separators(
            seq![sep] + rest,
        ) == without_separators(rest),
        rest.len() > 0 && rest[0] != '.' && rest[0] != '_' && rest[0] != '-' && rest[0] != ' '
            ==> without_separators(rest) == rest,
{
    assert((seq![sep] + rest).skip(1) =~= rest);
}

/// Subtitles are looked for in four folders beside the medium.
pub proof fn folders_are_beside_the_medium(dir: Seq<char>, i: int)
    requires
        0 <= i < folders_in(dir).len(),
        dir.len() > 0,
    ensures
        begins(folders_in(dir)[i], dir),
        ends(folders_in(dir)[i], "Subs"@) || ends(folders_in(dir)[i], "subs"@) || ends(
            folders_in(dir)[i],
            "Subtitles"@,
        ) || ends(folders_in(dir)[i], "subtitles"@),
        folders_in(dir).len() == 4,
{
    reveal_strlit("Subs");
    reveal_strlit("subs");
    reveal_strlit("Subtitles");
    reveal_strlit("subtitles");
    let rest = if i == 0 {
        "Subs"@
    } else if i == 1 {
        "subs"@
    } else if i == 2 {
        "Subtitles"@
    } else {
        "subtitles"@
    };
    let folder = below(dir, rest);
    assert(folders_in(dir)[i] == folder);
    assert(folder.take(dir.len() as int) =~= dir);
    assert(folder.skip(folder.len() - rest.len()) =~= rest);
}

// ---------------------------------------------------------------------------
// Streams

/// A stream is offered exactly where it has a number and its codec is one of
/// text; which stream it is, its language and its title are what the report
/// says, without white space around them.
pub proof fn text_streams_are_offered(stream: Json, codec: Seq<char>, tags: Json)
    requires
        text_of(member(stream, "codec_name"@)) == Some(codec),
        member(stream, "tags"@) == Some(tags),
    ensures
        ({
            let known = seq![
                "subrip"@,
                "srt"@,
                "ass"@,
                "ssa"@,
                "webvtt"@,
                "mov_text"@,
                "text"@,
            ];
            &&& embedded_entry(stream) is Some <==> known.contains(lowercase(trimmed(codec)))
                && integer_of(member(stream, "index"@), 0, u32::MAX as int) is Some
            &&& embedded_entry(stream) matches Some(found) ==> {
                &&& integer_of(member(stream, "index"@), 0, u32::MAX as int) == Some(
                    found.index as int,
                )
                &&& text_of(member(tags, "language"@)) matches Some(language) ==> found.language
                    == trimmed(language)
                &&& text_of(member(tags, "title"@)) matches Some(title) ==> found.title == trimmed(
                    title,
                )
                &&& member(tags, "language"@) is None ==> found.language.len() == 0
                &&& member(tags, "title"@) is None ==> found.title.len() == 0
            }
        }),
{
    let known = seq!["subrip"@, "srt"@, "ass"@, "ssa"@, "webvtt"@, "mov_text"@, "text"@];
    let name = lowercase(trimmed(codec));
    assert(known[0] == "subrip"@ && known[1] == "srt"@ && known[2] == "ass"@ && known[3] == "ssa"@
        && known[4] == "webvtt"@ && known[5] == "mov_text"@ && known[6] == "text"@);
    if known.contains(name) {
        let k = choose|k: int| 0 <= k < known.len() && known[k] == name;
        assert(k == 0 || k == 1 || k == 2 || k == 3 || k == 4 || k == 5 || k == 6);
    }
    assert(known.contains(name) <==> text_codec(name));
}

/// Every text stream that ffprobe lists is offered, and nothing else is.
pub proof fn every_text_stream_is_offered(streams: Seq<Json>)
    ensures
        forall|i: int|
            0 <= i < streams.len() ==> (embedded_entry(#[trigger] streams[i]) matches Some(found)
                ==> embedded_entries(streams).contains(found)),
        forall|k: int|
            0 <= k < embedded_entries(streams).len() ==> exists|i: int|
                0 <= i < streams.len() && embedded_entry(#[trigger] streams[i]) == Some(
                    #[trigger] embedded_entries(streams)[k],
                ),
    decreases streams.len(),
{
    if streams.len() > 0 {
        let head = streams.drop_last();
        let before = embedded_entries(head);
        let after = embedded_entries(streams);
        every_text_stream_is_offered(head);
        assert(streams[streams.len() - 1] == streams.last());
        assert forall|i: int| 0 <= i < streams.len() implies (embedded_entry(
            #[trigger] streams[i],
        ) matches Some(found) ==> after.contains(found)) by {
            if let Some(found) = embedded_entry(streams[i]) {
                if i < head.len() {
                    assert(head[i] == streams[i]);
                    let k = choose|k: int| 0 <= k < before.len() && before[k] == found;
                    assert(after[k] == found);
                } else {
                    assert(after[after.len() - 1] == found);
                }
            }
        }
        assert forall|k: int| 0 <= k < after.len() implies exists|i: int|
            0 <= i < streams.len() && embedded_entry(#[trigger] streams[i]) == Some(
                #[trigger] after[k],
            ) by {
            if k < before.len() {
                assert(after[k] == before[k]);
                let i = choose|i: int|
                    0 <= i < head.len() && embedded_entry(#[trigger] head[i]) == Some(before[k]);
                assert(embedded_entry(streams[i]) == Some(after[k]));
            } else {
                assert(embedded_entry(streams[streams.len() - 1]) == Some(after[k]));
            }
        }
    }
}

/// The streams of a report are those that it lists under `streams`.
pub proof fn streams_are_those_listed(report: Json, streams: Seq<Json>)
    ensures
        list_of(member(report, "streams"@)) == Some(streams) ==> embedded_in(Some(report))
            == embedded_entries(streams),
        list_of(member(report, "streams"@)) is None ==> embedded_in(Some(report)).len() == 0,
        embedded_in(None).len() == 0,
{
}

/// A stream is labelled with the English name of its language, under the code
/// of that language, or with its number where its language is not known; its
/// title follows where it says more.
pub proof fn stream_is_labelled_by_language(stream: EmbeddedView)
    ensures
        ({
            let (label, language) = embedded_label(stream);
            let told = language_named(lowercase(stream.language));
            &&& told matches Some((code, name)) ==> language == code && begins(label, name)
            &&& told is None ==> language.len() == 0 && begins(
                label,
                "Track "@ + decimal(stream.index as nat),
            )
            &&& stream.title.len() == 0 ==> label == (match told {
                Some((_, name)) => name,
                None => "Track "@ + decimal(stream.index as nat),
            })
            &&& told matches Some((_, name)) ==> (ascii_lower(stream.title) == ascii_lower(name)
                ==> label == name) && (stream.title.len() > 0 && ascii_lower(stream.title)
                != ascii_lower(name) ==> ends(label, " ("@ + stream.title + ")"@))
        }),
{
    let told = language_named(lowercase(stream.language));
    let base = match told {
        Some((_, name)) => name,
        None => "Track "@ + decimal(stream.index as nat),
    };
    let label = embedded_label(stream).0;
    let tail = " ("@ + stream.title + ")"@;
    let longer = remarked(base, stream.title);
    assert(base.take(base.len() as int) =~= base);
    assert(longer.take(base.len() as int) =~= base);
    assert(longer =~= base + tail);
    assert(longer.skip(longer.len() - tail.len()) =~= tail);
    assert(label == base || label == longer);
}

// ---------------------------------------------------------------------------
// Tracks

/// Each file and each stream becomes one track, which leads back to it, under
/// the label and the language that were found for it.
pub proof fn tracks_lead_to_their_sources(
    sidecars: Seq<SidecarView>,
    embedded: Seq<EmbeddedView>,
    i: int,
)
    ensures
        tracks_of(sidecars, embedded).len() == sidecars.len() + embedded.len(),
        0 <= i < sidecars.len() ==> {
            let track = tracks_of(sidecars, embedded)[i];
            &&& track.source == SourceView::Sidecar(sidecars[i].0)
            &&& track.label == sidecars[i].1
            &&& track.language == sidecars[i].2
        },
        0 <= i < embedded.len() ==> {
            let track = tracks_of(sidecars, embedded)[sidecars.len() + i];
            &&& track.source == (SourceView::Embedded { stream_index: embedded[i].index })
            &&& (track.label, track.language) == embedded_label(embedded[i])
        },
{
}

// ---------------------------------------------------------------------------
// Conversion

/// A track is converted from its own source to WebVTT: a stream by its number,
/// a file in the encoding that is named.
pub proof fn tracks_are_converted_from_their_source(
    source: Seq<char>,
    stream_index: Option<u32>,
    charenc: Option<Seq<char>>,
)
    ensures
        ({
            let args = convert_view(source, stream_index, charenc);
            &&& given(args, "-i"@, source)
            &&& stream_index matches Some(index) ==> given(
                args,
                "-map"@,
                "0:"@ + decimal(index as nat),
            )
            &&& charenc matches Some(encoding) ==> given(args, "-sub_charenc"@, encoding)
            &&& args[args.len() - 2] == "-f"@ && args.last() == "webvtt"@
            &&& args[0] == "-nostdin"@ && args[1] == "-y"@ && args[2] == "-loglevel"@ && args[3]
                == "error"@
            &&& args.len() == 8 + (if stream_index is Some {
                2int
            } else {
                0
            }) + (if charenc is Some {
                2int
            } else {
                0
            })
        }),
{
    let args = convert_view(source, stream_index, charenc);
    let at: int = if charenc is Some {
        6
    } else {
        4
    };
    assert(args[at] == "-i"@ && args[at + 1] == source);
    if let Some(index) = stream_index {
        assert(args[at + 2] == "-map"@ && args[at + 3] == "0:"@ + decimal(index as nat));
    }
    if let Some(encoding) = charenc {
        assert(args[4] == "-sub_charenc"@ && args[5] == encoding);
    }
}

/// A file is converted from itself, and once more as Latin-1 where that fails;
/// a stream is converted from the medium, once.
pub proof fn attempts_are_at_the_source(source: SourceView, media: Seq<char>)
    ensures
        source matches SourceView::Sidecar(path) ==> {
            let attempts = attempts_for(source, media);
            &&& attempts.len() == 2
            &&& attempts[0] == convert_view(path, None, None)
            &&& attempts[1] == convert_view(path, None, Some("ISO-8859-1"@))
        },
        source matches SourceView::Embedded { stream_index } ==> attempts_for(source, media)
            == seq![convert_view(media, Some(stream_index), None)],
{
}

/// A track is converted into a draft of its own, and served from a file of its
/// own, both in the folder of the session.
pub proof fn converted_files_are_of_the_track(id: u32, dir: Seq<char>)
    requires
        dir.len() > 0,
    ensures
        begins(vtt_file(id, dir), dir),
        ends(vtt_file(id, dir), decimal(id as nat) + ".vtt"@),
        begins(draft_file(id, dir), dir),
        ends(draft_file(id, dir), decimal(id as nat) + ".vtt.part"@),
        vtt_file(id, dir) != draft_file(id, dir),
{
    crate::number::decimal_denotes(id as nat);
    assert(crate::text::is_digit(decimal(id as nat)[0]));
    reveal_strlit(".vtt");
    reveal_strlit(".vtt.part");
    let a = decimal(id as nat) + ".vtt"@;
    let b = decimal(id as nat) + ".vtt.part"@;
    assert(vtt_file(id, dir).take(dir.len() as int) =~= dir);
    assert(draft_file(id, dir).take(dir.len() as int) =~= dir);
    assert(vtt_file(id, dir).skip(vtt_file(id, dir).len() - a.len()) =~= a);
    assert(draft_file(id, dir).skip(draft_file(id, dir).len() - b.len()) =~= b);
    assert(vtt_file(id, dir).len() != draft_file(id, dir).len());
}

/// ffprobe is asked for the streams of text in the medium, with their languages
/// and titles, and answers in JSON.
pub proof fn text_streams_are_asked_for(media: Seq<char>)
    ensures
        given(probe_view(media), "-select_streams"@, "s"@),
        given(
            probe_view(media),
            "-show_entries"@,
            "stream=index,codec_name:stream_tags=language,title"@,
        ),
        given(probe_view(media), "-of"@, "json"@),
        given(probe_view(media), "-v"@, "error"@),
        probe_view(media).last() == media,
{
    let args = probe_view(media);
    assert(args[0] == "-v"@ && args[1] == "error"@);
    assert(args[2] == "-select_streams"@ && args[3] == "s"@);
    assert(args[4] == "-show_entries"@ && args[5]
        == "stream=index,codec_name:stream_tags=language,title"@);
    assert(args[6] == "-of"@ && args[7] == "json"@);
}

/// A cue that begins no earlier than the stream is shown when it was meant to
/// be, with its settings; one that has begun before is shown from the start of
/// the stream on, one that is over by then is not shown, and a line that times
/// no cue is text.
pub proof fn cues_are_shown_in_time(line: Seq<char>, cue: CueTimes)
    ensures
        cue_timing(line) is None ==> judged(line, Some(cue)) is Text,
        judged(line, None) is Text,
        cue_timing(line) is Some && cue.end.not_after(Seconds { bits: 0 }) ==> judged(
            line,
            Some(cue),
        ) is Ended,
        cue_timing(line) is Some && cue.end.positive() && !cue.start.before(Seconds { bits: 0 })
            ==> judged(line, Some(cue)) == (CueVerdict::Shown {
            start_ms: cue.start_ms,
            end_ms: cue.end_ms,
        }),
        cue_timing(line) is Some && cue.end.positive() && cue.start.before(Seconds { bits: 0 })
            ==> judged(line, Some(cue)) == (CueVerdict::Shown { start_ms: 0, end_ms: cue.end_ms }),
        begins(
            new_timing(line, cue.start_ms, cue.end_ms),
            timestamp(cue.start_ms as nat) + " --> "@ + timestamp(cue.end_ms as nat),
        ),
        cue_split(line) matches Some((_, _, settings)) ==> ends(
            new_timing(line, cue.start_ms, cue.end_ms),
            settings,
        ),
{
    let times = timestamp(cue.start_ms as nat) + " --> "@ + timestamp(cue.end_ms as nat);
    let timing = new_timing(line, cue.start_ms, cue.end_ms);
    assert(timing.take(times.len() as int) =~= times);
    if let Some((_, _, settings)) = cue_split(line) {
        assert(timing.skip(timing.len() - settings.len()) =~= settings);
    }
}

/// A draft that holds something is moved into place, and once it is there the
/// track is converted. After anything else the next attempt is made, and only
/// when there is none left the conversion has failed.
pub proof fn drafts_are_moved_into_place(
    step: VttStep,
    attempts: Seq<Seq<Seq<char>>>,
    tried: nat,
    event: VttEvent,
)
    requires
        needed(step, attempts, tried, event),
    ensures
        step is Move <==> (event matches VttEvent::Ran { success, size } && success && (
        size matches Some(n) && n > 0)),
        step is Done <==> (event matches VttEvent::Moved { success } && success),
        step matches VttStep::Run(args) ==> tried < attempts.len() && views(args@)
            == attempts[tried as int],
        step is Failed ==> tried >= attempts.len(),
        step matches VttStep::Failed(reason) ==> reason@
            == "ffmpeg could not convert the subtitle track"@,
{
}

/// For a stream that starts at the beginning of the file the subtitles stay as
/// they are; for one that starts later they are moved line by line.
pub proof fn whole_streams_keep_their_subtitles(
    text: Seq<char>,
    seconds: Seconds,
    times: Seq<Option<CueTimes>>,
)
    ensures
        seconds.not_after(Seconds { bits: 0 }) ==> lined_up(text, seconds, times) == text,
        seconds.positive() ==> lined_up(text, seconds, times) == shifted(
            lines_of(text),
            judgements(lines_of(text), times),
        ).ended(),
{
}

/// A cue that is over takes its block out of the document, with what stood
/// before its times; one that is shown is written with its new times, and its
/// text stays. A blank line closes the block.
pub proof fn blocks_are_kept_or_taken_out(
    s: Shifting,
    line: Seq<char>,
    text: Seq<char>,
    blank: Seq<char>,
    other: CueVerdict,
    start_ms: u64,
    end_ms: u64,
)
    requires
        !s.dropping,
        trimmed(line).len() > 0 && trimmed(text).len() > 0 && trimmed(blank).len() == 0,
    ensures
        ({
            let gone = s.after(line, CueVerdict::Ended).after(text, other).after(blank, other);
            gone.out == s.out && gone.pending.len() == 0 && !gone.dropping
        }),
        ({
            let shown = CueVerdict::Shown { start_ms, end_ms };
            let kept = s.after(line, shown).after(text, CueVerdict::Text).after(
                blank,
                CueVerdict::Text,
            );
            kept.out == s.out + closed_lines(s.pending) + new_timing(line, start_ms, end_ms)
                + seq!['\n'] + text + seq!['\n', '\n'] && kept.pending.len() == 0 && !kept.dropping
        }),
        s.after(line, CueVerdict::Ended).ended() == s.out,
        s.after(line, CueVerdict::Text).ended() == s.out + closed_lines(s.pending) + line
            + seq!['\n'],
{
    let shown = CueVerdict::Shown { start_ms, end_ms };
    let kept = s.after(line, shown).after(text, CueVerdict::Text).after(blank, CueVerdict::Text);
    let none = Seq::<Seq<char>>::empty();
    assert(none.push(text).drop_last() =~= none);
    assert(closed_lines(none).len() == 0);
    assert(closed_lines(none.push(text)) =~= text + seq!['\n']);
    assert(kept.out =~= s.out + closed_lines(s.pending) + new_timing(line, start_ms, end_ms)
        + seq!['\n'] + text + seq!['\n', '\n']);
    assert(s.pending.push(line).drop_last() =~= s.pending);
    assert(s.after(line, CueVerdict::Text).ended() =~= s.out + closed_lines(s.pending) + line
        + seq!['\n']);
}

/// A document without cues stays as it is, line by line.
pub proof fn text_alone_is_kept(lines: Seq<Seq<char>>, verdicts: Seq<CueVerdict>)
    requires
        forall|i: int| 0 <= i < lines.len() ==> verdict_on(verdicts, i) is Text,
        forall|i: int|
            0 <= i < lines.len() ==> trimmed(#[trigger] lines[i]).len() > 0 || lines[i].len() == 0,
    ensures
        shifted(lines, verdicts).ended() == closed_lines(lines),
        !shifted(lines, verdicts).dropping,
    decreases lines.len(),
{
    if lines.len() > 0 {
        let head = lines.drop_last();
        assert forall|i: int| 0 <= i < head.len() implies trimmed(#[trigger] head[i]).len() > 0
            || head[i].len() == 0 by {
            assert(head[i] == lines[i]);
        }
        text_alone_is_kept(head, verdicts);
        let before = shifted(head, verdicts);
        let last = lines[lines.len() - 1];
        assert(verdict_on(verdicts, lines.len() - 1) is Text);
        assert(before.pending.push(last).drop_last() =~= before.pending);
        if last.len() == 0 {
            crate::text::trimmed_is_between(last);
            assert(closed_lines(Seq::empty()).len() == 0);
        }
        assert(shifted(lines, verdicts).ended() =~= closed_lines(lines));
    } else {
        assert(shifted(lines, verdicts).ended() =~= closed_lines(lines));
    }
}

/// Folder after folder is gone through, and what is in one is offered in the
/// order of the names.
pub proof fn folders_are_gone_through(
    folders: Seq<Seq<Seq<char>>>,
    more: Seq<Seq<Seq<char>>>,
    folder: Seq<Seq<char>>,
)
    ensures
        sidecars_in_folders(folders + more) == sidecars_in_folders(folders) + sidecars_in_folders(
            more,
        ),
        sidecars_in_folders(seq![folder]) == sidecars_inside(in_order(subtitle_paths(folder))),
        sidecars_in_folders(Seq::empty()).len() == 0,
    decreases more.len(),
{
    if more.len() > 0 {
        folders_are_gone_through(folders, more.drop_last(), folder);
        assert((folders + more).drop_last() =~= folders + more.drop_last());
        assert(sidecars_in_folders(folders + more) =~= sidecars_in_folders(folders)
            + sidecars_in_folders(more));
    } else {
        assert(folders + more =~= folders);
        assert(sidecars_in_folders(folders) + sidecars_in_folders(more) =~= sidecars_in_folders(
            folders,
        ));
    }
    let one = seq![folder];
    let none = Seq::<Seq<Seq<char>>>::empty();
    assert(one.drop_last() =~= none);
    assert(sidecars_in_folders(none).len() == 0);
    assert(one.last() == folder);
    assert(sidecars_in_folders(one) =~= sidecars_inside(in_order(subtitle_paths(folder))));
}

} // verus!
