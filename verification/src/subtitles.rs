//! Subtitle tracks of a medium, and their `WebVTT` text.
//!
//! Google Cast receivers render sidecar text tracks in `WebVTT` only, so every
//! candidate (an `.srt` next to the file, a `Subs/` folder, or a text stream
//! inside an MKV) is converted on first request and cached for the session.
use serde_json::Value;
use vstd::prelude::*;
use vstd::slice::slice_subrange;

use crate::json::{
    as_array, as_str, as_u64, get, integer_of, list_of, member, parse_bytes, parsed_bytes, text_of,
    tree, trees, Json,
};
use crate::number::{decimal, padded, show, show_padded};
use crate::protocol::clone_strings;
use crate::seconds::Seconds;
use crate::text::{
    all_digits, alphanumeric, ascii_lower, begins, closed_lines, cut, eq_ignore_ascii_case,
    from_chars, in_order, is_alphanumeric, is_empty, is_space, join, joined, left_trimmed, lines,
    lines_of, lowercase, pieces, right_trimmed, same, sort, split, split_once, starts_with, to_chars,
    to_lowercase, to_uppercase, trim, trim_end, trim_start, trimmed, uppercase, views,
};
use crate::util::{below, extension, extension_of, file_stem, join_path, stem_of};

verus! {

/// Where the text of a track comes from.
#[derive(Debug, PartialEq, Eq)]
pub enum SubtitleSource {
    /// A file of its own, by its path.
    Sidecar(String),
    /// A stream inside the medium.
    Embedded { stream_index: u32 },
}

#[derive(Debug, PartialEq, Eq)]
pub struct SubtitleTrack {
    /// 1-based, unique within one media file; doubles as the Cast track id.
    pub id: u32,
    /// Human label, e.g. "English (SDH)".
    pub label: String,
    /// Two-letter language code when known, else empty.
    pub language: String,
    pub source: SubtitleSource,
}

/// What a source holds.
pub enum SourceView {
    Sidecar(Seq<char>),
    Embedded { stream_index: u32 },
}

/// What a track holds.
pub struct TrackView {
    pub id: u32,
    pub label: Seq<char>,
    pub language: Seq<char>,
    pub source: SourceView,
}

impl View for SubtitleSource {
    type V = SourceView;

    open spec fn view(&self) -> SourceView {
        match *self {
            SubtitleSource::Sidecar(path) => SourceView::Sidecar(path@),
            SubtitleSource::Embedded { stream_index } => SourceView::Embedded { stream_index },
        }
    }
}

impl View for SubtitleTrack {
    type V = TrackView;

    open spec fn view(&self) -> TrackView {
        TrackView {
            id: self.id,
            label: self.label@,
            language: self.language@,
            source: self.source@,
        }
    }
}

/// What some tracks hold.
pub open spec fn track_views(tracks: Seq<SubtitleTrack>) -> Seq<TrackView> {
    Seq::new(tracks.len(), |i: int| tracks[i]@)
}

impl Clone for SubtitleSource {
    fn clone(&self) -> (r: SubtitleSource)
        ensures
            r@ == self@,
    {
        match self {
            SubtitleSource::Sidecar(path) => SubtitleSource::Sidecar(path.clone()),
            SubtitleSource::Embedded { stream_index } => SubtitleSource::Embedded {
                stream_index: *stream_index,
            },
        }
    }
}

impl Clone for SubtitleTrack {
    fn clone(&self) -> (r: SubtitleTrack)
        ensures
            r@ == self@,
    {
        SubtitleTrack {
            id: self.id,
            label: self.label.clone(),
            language: self.language.clone(),
            source: self.source.clone(),
        }
    }
}

/// The same tracks once more.
pub fn clone_tracks(tracks: &Vec<SubtitleTrack>) -> (r: Vec<SubtitleTrack>)
    ensures
        track_views(r@) == track_views(tracks@),
{
    let mut out: Vec<SubtitleTrack> = Vec::new();
    for i in 0..tracks.len()
        invariant
            out@.len() == i,
            forall|j: int| 0 <= j < i ==> #[trigger] out@[j]@ == tracks@[j]@,
    {
        out.push(tracks[i].clone());
    }
    assert(track_views(out@) =~= track_views(tracks@));
    out
}

// ---------------------------------------------------------------------------
// Languages

/// The two-letter code and the English name of the language that a word in
/// small letters stands for.
pub open spec fn language_named(t: Seq<char>) -> Option<(Seq<char>, Seq<char>)> {
    if t == "en"@ || t == "eng"@ || t == "english"@ {
        Some(("en"@, "English"@))
    } else if t == "es"@ || t == "spa"@ || t == "spanish"@ || t == "espanol"@ || t == "español"@ {
        Some(("es"@, "Spanish"@))
    } else if t == "fr"@ || t == "fre"@ || t == "fra"@ || t == "french"@ || t == "francais"@ || t == "français"@ {
        Some(("fr"@, "French"@))
    } else if t == "de"@ || t == "ger"@ || t == "deu"@ || t == "german"@ || t == "deutsch"@ {
        Some(("de"@, "German"@))
    } else if t == "it"@ || t == "ita"@ || t == "italian"@ || t == "italiano"@ {
        Some(("it"@, "Italian"@))
    } else if t == "pt"@ || t == "por"@ || t == "portuguese"@ || t == "portugues"@ || t == "português"@ {
        Some(("pt"@, "Portuguese"@))
    } else if t == "nl"@ || t == "dut"@ || t == "nld"@ || t == "dutch"@ || t == "nederlands"@ {
        Some(("nl"@, "Dutch"@))
    } else if t == "ru"@ || t == "rus"@ || t == "russian"@ {
        Some(("ru"@, "Russian"@))
    } else if t == "ja"@ || t == "jpn"@ || t == "japanese"@ {
        Some(("ja"@, "Japanese"@))
    } else if t == "ko"@ || t == "kor"@ || t == "korean"@ {
        Some(("ko"@, "Korean"@))
    } else if t == "zh"@ || t == "chi"@ || t == "zho"@ || t == "chinese"@ {
        Some(("zh"@, "Chinese"@))
    } else if t == "ar"@ || t == "ara"@ || t == "arabic"@ {
        Some(("ar"@, "Arabic"@))
    } else if t == "hi"@ || t == "hin"@ || t == "hindi"@ {
        Some(("hi"@, "Hindi"@))
    } else if t == "tr"@ || t == "tur"@ || t == "turkish"@ {
        Some(("tr"@, "Turkish"@))
    } else if t == "pl"@ || t == "pol"@ || t == "polish"@ {
        Some(("pl"@, "Polish"@))
    } else if t == "sv"@ || t == "swe"@ || t == "swedish"@ {
        Some(("sv"@, "Swedish"@))
    } else if t == "da"@ || t == "dan"@ || t == "danish"@ {
        Some(("da"@, "Danish"@))
    } else if t == "no"@ || t == "nor"@ || t == "nob"@ || t == "norwegian"@ {
        Some(("no"@, "Norwegian"@))
    } else if t == "fi"@ || t == "fin"@ || t == "finnish"@ {
        Some(("fi"@, "Finnish"@))
    } else if t == "cs"@ || t == "cze"@ || t == "ces"@ || t == "czech"@ {
        Some(("cs"@, "Czech"@))
    } else if t == "el"@ || t == "gre"@ || t == "ell"@ || t == "greek"@ {
        Some(("el"@, "Greek"@))
    } else if t == "he"@ || t == "heb"@ || t == "hebrew"@ {
        Some(("he"@, "Hebrew"@))
    } else if t == "hu"@ || t == "hun"@ || t == "hungarian"@ {
        Some(("hu"@, "Hungarian"@))
    } else if t == "ro"@ || t == "rum"@ || t == "ron"@ || t == "romanian"@ {
        Some(("ro"@, "Romanian"@))
    } else if t == "uk"@ || t == "ukr"@ || t == "ukrainian"@ {
        Some(("uk"@, "Ukrainian"@))
    } else if t == "bg"@ || t == "bul"@ || t == "bulgarian"@ {
        Some(("bg"@, "Bulgarian"@))
    } else if t == "hr"@ || t == "hrv"@ || t == "croatian"@ {
        Some(("hr"@, "Croatian"@))
    } else if t == "sr"@ || t == "srp"@ || t == "serbian"@ {
        Some(("sr"@, "Serbian"@))
    } else if t == "sk"@ || t == "slo"@ || t == "slk"@ || t == "slovak"@ {
        Some(("sk"@, "Slovak"@))
    } else if t == "sl"@ || t == "slv"@ || t == "slovenian"@ {
        Some(("sl"@, "Slovenian"@))
    } else if t == "th"@ || t == "tha"@ || t == "thai"@ {
        Some(("th"@, "Thai"@))
    } else if t == "vi"@ || t == "vie"@ || t == "vietnamese"@ {
        Some(("vi"@, "Vietnamese"@))
    } else if t == "id"@ || t == "ind"@ || t == "indonesian"@ {
        Some(("id"@, "Indonesian"@))
    } else if t == "ms"@ || t == "may"@ || t == "msa"@ || t == "malay"@ {
        Some(("ms"@, "Malay"@))
    } else if t == "ta"@ || t == "tam"@ || t == "tamil"@ {
        Some(("ta"@, "Tamil"@))
    } else if t == "te"@ || t == "tel"@ || t == "telugu"@ {
        Some(("te"@, "Telugu"@))
    } else if t == "et"@ || t == "est"@ || t == "estonian"@ {
        Some(("et"@, "Estonian"@))
    } else if t == "lv"@ || t == "lav"@ || t == "latvian"@ {
        Some(("lv"@, "Latvian"@))
    } else if t == "lt"@ || t == "lit"@ || t == "lithuanian"@ {
        Some(("lt"@, "Lithuanian"@))
    } else if t == "ca"@ || t == "cat"@ || t == "catalan"@ {
        Some(("ca"@, "Catalan"@))
    } else if t == "fa"@ || t == "per"@ || t == "fas"@ || t == "persian"@ || t == "farsi"@ {
        Some(("fa"@, "Persian"@))
    } else {
        None
    }
}

fn language_of(t: &str) -> (r: Option<(&'static str, &'static str)>)
    ensures
        match r {
            Some((code, name)) => language_named(t@) == Some((code@, name@)),
            None => language_named(t@) is None,
        },
{
    if same(t, "en") || same(t, "eng") || same(t, "english") {
        Some(("en", "English"))
    } else if same(t, "es") || same(t, "spa") || same(t, "spanish") || same(t, "espanol") || same(t, "español") {
        Some(("es", "Spanish"))
    } else if same(t, "fr") || same(t, "fre") || same(t, "fra") || same(t, "french") || same(t, "francais") || same(t, "français") {
        Some(("fr", "French"))
    } else if same(t, "de") || same(t, "ger") || same(t, "deu") || same(t, "german") || same(t, "deutsch") {
        Some(("de", "German"))
    } else if same(t, "it") || same(t, "ita") || same(t, "italian") || same(t, "italiano") {
        Some(("it", "Italian"))
    } else if same(t, "pt") || same(t, "por") || same(t, "portuguese") || same(t, "portugues") || same(t, "português") {
        Some(("pt", "Portuguese"))
    } else if same(t, "nl") || same(t, "dut") || same(t, "nld") || same(t, "dutch") || same(t, "nederlands") {
        Some(("nl", "Dutch"))
    } else if same(t, "ru") || same(t, "rus") || same(t, "russian") {
        Some(("ru", "Russian"))
    } else if same(t, "ja") || same(t, "jpn") || same(t, "japanese") {
        Some(("ja", "Japanese"))
    } else if same(t, "ko") || same(t, "kor") || same(t, "korean") {
        Some(("ko", "Korean"))
    } else if same(t, "zh") || same(t, "chi") || same(t, "zho") || same(t, "chinese") {
        Some(("zh", "Chinese"))
    } else if same(t, "ar") || same(t, "ara") || same(t, "arabic") {
        Some(("ar", "Arabic"))
    } else if same(t, "hi") || same(t, "hin") || same(t, "hindi") {
        Some(("hi", "Hindi"))
    } else if same(t, "tr") || same(t, "tur") || same(t, "turkish") {
        Some(("tr", "Turkish"))
    } else if same(t, "pl") || same(t, "pol") || same(t, "polish") {
        Some(("pl", "Polish"))
    } else if same(t, "sv") || same(t, "swe") || same(t, "swedish") {
        Some(("sv", "Swedish"))
    } else if same(t, "da") || same(t, "dan") || same(t, "danish") {
        Some(("da", "Danish"))
    } else if same(t, "no") || same(t, "nor") || same(t, "nob") || same(t, "norwegian") {
        Some(("no", "Norwegian"))
    } else if same(t, "fi") || same(t, "fin") || same(t, "finnish") {
        Some(("fi", "Finnish"))
    } else if same(t, "cs") || same(t, "cze") || same(t, "ces") || same(t, "czech") {
        Some(("cs", "Czech"))
    } else if same(t, "el") || same(t, "gre") || same(t, "ell") || same(t, "greek") {
        Some(("el", "Greek"))
    } else if same(t, "he") || same(t, "heb") || same(t, "hebrew") {
        Some(("he", "Hebrew"))
    } else if same(t, "hu") || same(t, "hun") || same(t, "hungarian") {
        Some(("hu", "Hungarian"))
    } else if same(t, "ro") || same(t, "rum") || same(t, "ron") || same(t, "romanian") {
        Some(("ro", "Romanian"))
    } else if same(t, "uk") || same(t, "ukr") || same(t, "ukrainian") {
        Some(("uk", "Ukrainian"))
    } else if same(t, "bg") || same(t, "bul") || same(t, "bulgarian") {
        Some(("bg", "Bulgarian"))
    } else if same(t, "hr") || same(t, "hrv") || same(t, "croatian") {
        Some(("hr", "Croatian"))
    } else if same(t, "sr") || same(t, "srp") || same(t, "serbian") {
        Some(("sr", "Serbian"))
    } else if same(t, "sk") || same(t, "slo") || same(t, "slk") || same(t, "slovak") {
        Some(("sk", "Slovak"))
    } else if same(t, "sl") || same(t, "slv") || same(t, "slovenian") {
        Some(("sl", "Slovenian"))
    } else if same(t, "th") || same(t, "tha") || same(t, "thai") {
        Some(("th", "Thai"))
    } else if same(t, "vi") || same(t, "vie") || same(t, "vietnamese") {
        Some(("vi", "Vietnamese"))
    } else if same(t, "id") || same(t, "ind") || same(t, "indonesian") {
        Some(("id", "Indonesian"))
    } else if same(t, "ms") || same(t, "may") || same(t, "msa") || same(t, "malay") {
        Some(("ms", "Malay"))
    } else if same(t, "ta") || same(t, "tam") || same(t, "tamil") {
        Some(("ta", "Tamil"))
    } else if same(t, "te") || same(t, "tel") || same(t, "telugu") {
        Some(("te", "Telugu"))
    } else if same(t, "et") || same(t, "est") || same(t, "estonian") {
        Some(("et", "Estonian"))
    } else if same(t, "lv") || same(t, "lav") || same(t, "latvian") {
        Some(("lv", "Latvian"))
    } else if same(t, "lt") || same(t, "lit") || same(t, "lithuanian") {
        Some(("lt", "Lithuanian"))
    } else if same(t, "ca") || same(t, "cat") || same(t, "catalan") {
        Some(("ca", "Catalan"))
    } else if same(t, "fa") || same(t, "per") || same(t, "fas") || same(t, "persian") || same(t, "farsi") {
        Some(("fa", "Persian"))
    } else {
        None
    }
}

/// The two-letter code and the English name of the language that a word
/// stands for, whatever the case of its letters.
pub fn language_lookup(token: &str) -> (r: Option<(&'static str, &'static str)>)
    ensures
        match r {
            Some((code, name)) => language_named(lowercase(token@)) == Some((code@, name@)),
            None => language_named(lowercase(token@)) is None,
        },
{
    language_of(to_lowercase(token).as_str())
}

// ---------------------------------------------------------------------------
// What the name of a subtitle file says

/// A word in small letters, if there is one.
pub open spec fn word(part: Seq<char>) -> Seq<Seq<char>> {
    if part.len() == 0 {
        Seq::empty()
    } else {
        seq![lowercase(part)]
    }
}

/// The words of a text, in small letters: what stands between characters that
/// are neither letters nor digits.
pub open spec fn words(text: Seq<char>) -> Seq<Seq<char>> {
    words_rec(text, 0, 0)
}

/// The words of `text` from `from` on, when only letters and digits stand in
/// `from..at`.
pub open spec fn words_rec(text: Seq<char>, from: int, at: int) -> Seq<Seq<char>>
    decreases text.len() - at,
{
    if at < from || at >= text.len() {
        word(text.subrange(from, text.len() as int))
    } else if !alphanumeric(text[at]) {
        word(text.subrange(from, at)) + words_rec(text, at + 1, at + 1)
    } else {
        words_rec(text, from, at + 1)
    }
}

fn push_word(out: &mut Vec<String>, part: &[char])
    ensures
        views(final(out)@) == views(old(out)@) + word(part@),
{
    let ghost before = out@;
    if part.len() > 0 {
        out.push(to_lowercase(from_chars(part).as_str()));
        assert(views(out@) =~= views(before) + word(part@));
    } else {
        assert(views(out@) =~= views(before) + word(part@));
    }
}

/// The words of a text, in small letters.
pub fn tokens(text: &str) -> (r: Vec<String>)
    ensures
        views(r@) == words(text@),
{
    let t = to_chars(text);
    let mut out: Vec<String> = Vec::new();
    let mut from: usize = 0;
    let mut at: usize = 0;
    assert(views(out@) + words(text@) =~= words(text@));
    while at < t.len()
        invariant
            t@ == text@,
            from <= at <= t@.len(),
            words(text@) == views(out@) + words_rec(text@, from as int, at as int),
        decreases t@.len() - at,
    {
        if !is_alphanumeric(t[at]) {
            let ghost before = views(out@);
            let ghost part = text@.subrange(from as int, at as int);
            push_word(&mut out, slice_subrange(t.as_slice(), from, at));
            assert(before + (word(part) + words_rec(text@, at + 1, at + 1)) =~= (before + word(part))
                + words_rec(text@, at + 1, at + 1));
            from = at + 1;
        }
        at = at + 1;
    }
    push_word(&mut out, slice_subrange(t.as_slice(), from, t.len()));
    out
}

/// The language of the first word that stands for one.
pub open spec fn first_language(parts: Seq<Seq<char>>) -> Option<(Seq<char>, Seq<char>)>
    decreases parts.len(),
{
    if parts.len() == 0 {
        None
    } else {
        match first_language(parts.drop_last()) {
            Some(found) => Some(found),
            None => language_named(lowercase(parts.last())),
        }
    }
}

/// What a word says about the kind of subtitles.
pub open spec fn flag(part: Seq<char>) -> Option<Seq<char>> {
    if part == "forced"@ {
        Some("forced"@)
    } else if part == "sdh"@ || part == "hi"@ || part == "cc"@ {
        Some("SDH"@)
    } else {
        None
    }
}

/// What the words say about the kind of subtitles; the same thing said twice
/// in a row counts once.
pub open spec fn flags(parts: Seq<Seq<char>>) -> Seq<Seq<char>>
    decreases parts.len(),
{
    if parts.len() == 0 {
        Seq::empty()
    } else {
        let before = flags(parts.drop_last());
        match flag(parts.last()) {
            Some(f) => if before.len() > 0 && before.last() == f {
                before
            } else {
                before.push(f)
            },
            None => before,
        }
    }
}

/// `base` with a remark in brackets.
pub open spec fn remarked(base: Seq<char>, remark: Seq<char>) -> Seq<char> {
    base + " ("@ + remark + ")"@
}

/// The language code and the label that the descriptive part of a file name
/// gives.
pub open spec fn described(descriptor: Seq<char>, fallback: Seq<char>) -> (Seq<char>, Seq<char>) {
    let parts = words(descriptor);
    let language = first_language(parts);
    let base = match language {
        Some((_, name)) => name,
        None => fallback,
    };
    (
        match language {
            Some((code, _)) => code,
            None => Seq::empty(),
        },
        if flags(parts).len() == 0 {
            base
        } else {
            remarked(base, joined(flags(parts), ", "@))
        },
    )
}

fn with_remark(base: &str, remark: &str) -> (r: String)
    ensures
        r@ == remarked(base@, remark@),
{
    let mut out = base.to_owned();
    out.append(" (");
    out.append(remark);
    out.append(")");
    out
}

fn language_among(parts: &Vec<String>) -> (r: Option<(&'static str, &'static str)>)
    ensures
        match r {
            Some((code, name)) => first_language(views(parts@)) == Some((code@, name@)),
            None => first_language(views(parts@)) is None,
        },
{
    let mut found: Option<(&'static str, &'static str)> = None;
    assert(views(parts@).take(0) =~= Seq::empty());
    for i in 0..parts.len()
        invariant
            match found {
                Some((code, name)) => first_language(views(parts@).take(i as int)) == Some(
                    (code@, name@),
                ),
                None => first_language(views(parts@).take(i as int)) is None,
            },
    {
        assert(views(parts@).take(i + 1).drop_last() =~= views(parts@).take(i as int));
        if found.is_none() {
            found = language_lookup(parts[i].as_str());
        }
    }
    assert(views(parts@).take(parts@.len() as int) =~= views(parts@));
    found
}

fn flag_of(part: &str) -> (r: Option<&'static str>)
    ensures
        match r {
            Some(f) => flag(part@) == Some(f@),
            None => flag(part@) is None,
        },
{
    if same(part, "forced") {
        Some("forced")
    } else if same(part, "sdh") || same(part, "hi") || same(part, "cc") {
        Some("SDH")
    } else {
        None
    }
}

fn flags_among(parts: &Vec<String>) -> (r: Vec<String>)
    ensures
        views(r@) == flags(views(parts@)),
{
    let mut out: Vec<String> = Vec::new();
    assert(views(out@) =~= flags(views(parts@).take(0)));
    for i in 0..parts.len()
        invariant
            views(out@) == flags(views(parts@).take(i as int)),
    {
        let ghost before = views(out@);
        assert(views(parts@).take(i + 1).drop_last() =~= views(parts@).take(i as int));
        if let Some(f) = flag_of(parts[i].as_str()) {
            if out.len() == 0 || !same(out[out.len() - 1].as_str(), f) {
                out.push(f.to_owned());
                assert(views(out@) =~= before.push(f@));
            }
        }
    }
    assert(views(parts@).take(parts@.len() as int) =~= views(parts@));
    out
}

/// Derives (language code, label) from the descriptive part of a sidecar file
/// name, e.g. `en.forced` or `2_English`. `fallback` names an undescribed file.
pub fn describe_sidecar(descriptor: &str, fallback: &str) -> (r: (String, String))
    ensures
        (r.0@, r.1@) == described(descriptor@, fallback@),
{
    let parts = tokens(descriptor);
    let language = language_among(&parts);
    let flags = flags_among(&parts);
    let (code, base): (String, String) = match language {
        Some((code, name)) => (code.to_owned(), name.to_owned()),
        None => (String::new(), fallback.to_owned()),
    };
    if flags.len() == 0 {
        (code, base)
    } else {
        let label = with_remark(base.as_str(), join(&flags, ", ").as_str());
        (code, label)
    }
}

/// A word with a capital first letter.
pub open spec fn capitalized(w: Seq<char>) -> Seq<char> {
    if w.len() == 0 {
        Seq::empty()
    } else {
        uppercase(w[0]) + w.skip(1)
    }
}

/// The words that are not numbers, each with a capital first letter.
pub open spec fn title_words(parts: Seq<Seq<char>>) -> Seq<Seq<char>>
    decreases parts.len(),
{
    if parts.len() == 0 {
        Seq::empty()
    } else if all_digits(parts.last()) {
        title_words(parts.drop_last())
    } else {
        title_words(parts.drop_last()).push(capitalized(parts.last()))
    }
}

/// A label made of the name of a file.
pub open spec fn pretty(stem: Seq<char>) -> Seq<char> {
    let shown = title_words(words(stem));
    if shown.len() == 0 {
        "Subtitles"@
    } else {
        joined(shown, " "@)
    }
}

fn only_digits(w: &Vec<char>) -> (r: bool)
    ensures
        r == all_digits(w@),
{
    for i in 0..w.len()
        invariant
            forall|j: int| 0 <= j < i ==> crate::text::is_digit(#[trigger] w@[j]),
    {
        if !('0' <= w[i] && w[i] <= '9') {
            assert(!crate::text::is_digit(w@[i as int]));
            return false;
        }
    }
    true
}

/// A label made of the name of a file.
pub fn prettify(stem: &str) -> (r: String)
    ensures
        r@ == pretty(stem@),
{
    let parts = tokens(stem);
    let mut shown: Vec<String> = Vec::new();
    assert(views(shown@) =~= title_words(views(parts@).take(0)));
    for i in 0..parts.len()
        invariant
            views(shown@) == title_words(views(parts@).take(i as int)),
    {
        let ghost before = views(shown@);
        assert(views(parts@).take(i + 1).drop_last() =~= views(parts@).take(i as int));
        let w = to_chars(parts[i].as_str());
        if !only_digits(&w) {
            let mut label = to_uppercase(w[0]);
            label.append(from_chars(slice_subrange(w.as_slice(), 1, w.len())).as_str());
            assert(w@.subrange(1, w@.len() as int) =~= w@.skip(1));
            let ghost added = label@;
            shown.push(label);
            assert(views(shown@) =~= before.push(added));
        }
    }
    assert(views(parts@).take(parts@.len() as int) =~= views(parts@));
    if shown.len() == 0 {
        "Subtitles".to_owned()
    } else {
        join(&shown, " ")
    }
}

// ---------------------------------------------------------------------------
// Files beside the medium

/// The extensions of files with subtitles.
pub open spec fn subtitle_extension(ext: Seq<char>) -> bool {
    ext == "srt"@ || ext == "vtt"@ || ext == "ass"@ || ext == "ssa"@
}

/// The paths among `paths` with the extension of a file with subtitles.
pub open spec fn subtitle_paths(paths: Seq<Seq<char>>) -> Seq<Seq<char>>
    decreases paths.len(),
{
    if paths.len() == 0 {
        Seq::empty()
    } else if subtitle_extension(extension_of(paths.last())) {
        subtitle_paths(paths.drop_last()).push(paths.last())
    } else {
        subtitle_paths(paths.drop_last())
    }
}

/// Whether a path has the extension of a file with subtitles.
pub fn is_subtitle_file(path: &str) -> (r: bool)
    ensures
        r == subtitle_extension(extension_of(path@)),
{
    let ext = extension(path);
    same(ext.as_str(), "srt") || same(ext.as_str(), "vtt") || same(ext.as_str(), "ass") || same(
        ext.as_str(),
        "ssa",
    )
}

fn sorted_subtitles(paths: &Vec<String>) -> (r: Vec<String>)
    ensures
        views(r@) == in_order(subtitle_paths(views(paths@))),
{
    let mut found: Vec<String> = Vec::new();
    assert(views(found@) =~= subtitle_paths(views(paths@).take(0)));
    for i in 0..paths.len()
        invariant
            views(found@) == subtitle_paths(views(paths@).take(i as int)),
    {
        let ghost before = views(found@);
        assert(views(paths@).take(i + 1).drop_last() =~= views(paths@).take(i as int));
        if is_subtitle_file(paths[i].as_str()) {
            found.push(paths[i].clone());
            assert(views(found@) =~= before.push(paths@[i as int]@));
        }
    }
    assert(views(paths@).take(paths@.len() as int) =~= views(paths@));
    sort(&found)
}

/// The folders beside a medium in `dir` that may hold its subtitles.
pub open spec fn folders_in(dir: Seq<char>) -> Seq<Seq<char>> {
    seq![
        below(dir, "Subs"@),
        below(dir, "subs"@),
        below(dir, "Subtitles"@),
        below(dir, "subtitles"@),
    ]
}

/// The folders beside a medium in `dir` that may hold its subtitles.
pub fn subtitle_folders(dir: &str) -> (r: Vec<String>)
    ensures
        views(r@) == folders_in(dir@),
{
    let r = vec![
        join_path(dir, "Subs"),
        join_path(dir, "subs"),
        join_path(dir, "Subtitles"),
        join_path(dir, "subtitles"),
    ];
    assert(views(r@) =~= folders_in(dir@));
    r
}

/// What stands between the name of a medium and the description of its
/// subtitles.
pub open spec fn is_separator(c: char) -> bool {
    c == '.' || c == '_' || c == '-' || c == ' '
}

/// `text` without the separators it starts with.
pub open spec fn without_separators(text: Seq<char>) -> Seq<char>
    decreases text.len(),
{
    if text.len() > 0 && is_separator(text[0]) {
        without_separators(text.skip(1))
    } else {
        text
    }
}

/// A subtitle file: its path, label and language code.
pub type SidecarView = (Seq<char>, Seq<char>, Seq<char>);

/// What the files in the folder of the medium offer: those whose name begins
/// with that of the medium.
pub open spec fn sidecars_beside(stem: Seq<char>, paths: Seq<Seq<char>>) -> Seq<SidecarView>
    decreases paths.len(),
{
    if paths.len() == 0 {
        Seq::empty()
    } else {
        let before = sidecars_beside(stem, paths.drop_last());
        let path = paths.last();
        let name = lowercase(stem_of(path));
        if stem.len() > 0 && begins(name, stem) {
            let (language, label) = described(
                without_separators(name.skip(stem.len() as int)),
                "Subtitles"@,
            );
            before.push((path, label, language))
        } else {
            before
        }
    }
}

/// What the files in a folder of subtitles offer.
pub open spec fn sidecars_inside(paths: Seq<Seq<char>>) -> Seq<SidecarView>
    decreases paths.len(),
{
    if paths.len() == 0 {
        Seq::empty()
    } else {
        let name = stem_of(paths.last());
        let (language, label) = described(name, pretty(name));
        sidecars_inside(paths.drop_last()).push((paths.last(), label, language))
    }
}

/// What the files in some folders of subtitles offer, folder by folder.
pub open spec fn sidecars_in_folders(folders: Seq<Seq<Seq<char>>>) -> Seq<SidecarView>
    decreases folders.len(),
{
    if folders.len() == 0 {
        Seq::empty()
    } else {
        sidecars_in_folders(folders.drop_last()) + sidecars_inside(
            in_order(subtitle_paths(folders.last())),
        )
    }
}

/// The paths in some folders.
pub open spec fn folder_views(folders: Seq<Vec<String>>) -> Seq<Seq<Seq<char>>> {
    Seq::new(folders.len(), |i: int| views(folders[i]@))
}

/// The subtitle files for `media`: first those beside it, then those in the
/// folders, each in the order of their paths.
pub open spec fn sidecars_for(
    media: Seq<char>,
    beside: Seq<Seq<char>>,
    folders: Seq<Seq<Seq<char>>>,
) -> Seq<SidecarView> {
    sidecars_beside(lowercase(stem_of(media)), in_order(subtitle_paths(beside)))
        + sidecars_in_folders(folders)
}

/// What some subtitle files are: path, label and language code.
pub open spec fn sidecar_views(found: Seq<(String, String, String)>) -> Seq<SidecarView> {
    Seq::new(found.len(), |i: int| (found[i].0@, found[i].1@, found[i].2@))
}

fn skip_separators(t: &Vec<char>, from: usize) -> (r: String)
    requires
        from <= t@.len(),
    ensures
        r@ == without_separators(t@.skip(from as int)),
{
    let mut at = from;
    while at < t.len() && (t[at] == '.' || t[at] == '_' || t[at] == '-' || t[at] == ' ')
        invariant
            from <= at <= t@.len(),
            without_separators(t@.skip(from as int)) == without_separators(t@.skip(at as int)),
        decreases t@.len() - at,
    {
        assert(t@.skip(at as int).skip(1) =~= t@.skip(at + 1));
        at = at + 1;
    }
    let r = from_chars(slice_subrange(t.as_slice(), at, t.len()));
    assert(r@ =~= t@.skip(at as int));
    r
}

/// The subtitle files for `media`, by path, label and language code, from the
/// files in its folder and those in the folders for subtitles.
pub fn sidecars(media: &str, beside: &Vec<String>, folders: &Vec<Vec<String>>) -> (r: Vec<
    (String, String, String),
>)
    ensures
        sidecar_views(r@) == sidecars_for(media@, views(beside@), folder_views(folders@)),
{
    let stem = to_lowercase(file_stem(media).as_str());
    let skipped = to_chars(stem.as_str()).len();
    let mut found: Vec<(String, String, String)> = Vec::new();
    let paths = sorted_subtitles(beside);
    assert(sidecar_views(found@) =~= sidecars_beside(stem@, views(paths@).take(0)));
    for i in 0..paths.len()
        invariant
            skipped == stem@.len(),
            sidecar_views(found@) == sidecars_beside(stem@, views(paths@).take(i as int)),
    {
        let ghost before = sidecar_views(found@);
        assert(views(paths@).take(i + 1).drop_last() =~= views(paths@).take(i as int));
        let name = to_lowercase(file_stem(paths[i].as_str()).as_str());
        if skipped > 0 && starts_with(name.as_str(), stem.as_str()) {
            let t = to_chars(name.as_str());
            let descriptor = skip_separators(&t, skipped);
            let (language, label) = describe_sidecar(descriptor.as_str(), "Subtitles");
            let ghost item = (paths@[i as int]@, label@, language@);
            found.push((paths[i].clone(), label, language));
            assert(sidecar_views(found@) =~= before.push(item));
        }
    }
    assert(views(paths@).take(paths@.len() as int) =~= views(paths@));
    let ghost first = sidecar_views(found@);
    assert(first + sidecars_in_folders(folder_views(folders@).take(0)) =~= first);
    for k in 0..folders.len()
        invariant
            sidecar_views(found@) == first + sidecars_in_folders(
                folder_views(folders@).take(k as int),
            ),
    {
        let ghost done = sidecar_views(found@);
        let paths = sorted_subtitles(&folders[k]);
        assert(done + sidecars_inside(views(paths@).take(0)) =~= done);
        for i in 0..paths.len()
            invariant
                sidecar_views(found@) == done + sidecars_inside(views(paths@).take(i as int)),
        {
            let ghost before = sidecar_views(found@);
            assert(views(paths@).take(i + 1).drop_last() =~= views(paths@).take(i as int));
            let name = file_stem(paths[i].as_str());
            let (language, label) = describe_sidecar(
                name.as_str(),
                prettify(name.as_str()).as_str(),
            );
            let ghost item = (paths@[i as int]@, label@, language@);
            found.push((paths[i].clone(), label, language));
            assert(sidecar_views(found@) =~= before.push(item));
            assert(done + sidecars_inside(views(paths@).take(i as int)).push(item)
                =~= sidecar_views(found@));
        }
        proof {
            assert(views(paths@).take(paths@.len() as int) =~= views(paths@));
            let upto = folder_views(folders@).take(k + 1);
            assert(upto.drop_last() =~= folder_views(folders@).take(k as int));
            assert(upto.last() == views(folders@[k as int]@));
            assert(sidecar_views(found@) =~= first + sidecars_in_folders(upto));
        }
    }
    assert(folder_views(folders@).take(folders@.len() as int) =~= folder_views(folders@));
    found
}

// ---------------------------------------------------------------------------
// Streams inside the medium

/// A text stream inside the medium.
#[derive(Debug)]
pub struct EmbeddedStream {
    pub index: u32,
    pub language: String,
    pub title: String,
}

/// What a text stream holds.
pub struct EmbeddedView {
    pub index: u32,
    pub language: Seq<char>,
    pub title: Seq<char>,
}

impl View for EmbeddedStream {
    type V = EmbeddedView;

    open spec fn view(&self) -> EmbeddedView {
        EmbeddedView { index: self.index, language: self.language@, title: self.title@ }
    }
}

/// What some text streams hold.
pub open spec fn embedded_views(streams: Seq<EmbeddedStream>) -> Seq<EmbeddedView> {
    Seq::new(streams.len(), |i: int| streams[i]@)
}

/// The codecs of text streams.
pub open spec fn text_codec(name: Seq<char>) -> bool {
    ||| name == "subrip"@
    ||| name == "srt"@
    ||| name == "ass"@
    ||| name == "ssa"@
    ||| name == "webvtt"@
    ||| name == "mov_text"@
    ||| name == "text"@
}

/// A text member without white space around it; empty where there is none.
pub open spec fn tidy_member(j: Option<Json>, key: Seq<char>) -> Seq<char> {
    match j {
        Some(value) => match text_of(member(value, key)) {
            Some(s) => trimmed(s),
            None => Seq::empty(),
        },
        None => Seq::empty(),
    }
}

/// The text stream that an entry of ffprobe's list describes, if it does.
pub open spec fn embedded_entry(stream: Json) -> Option<EmbeddedView> {
    if !text_codec(lowercase(tidy_member(Some(stream), "codec_name"@))) {
        None
    } else {
        match integer_of(member(stream, "index"@), 0, u32::MAX as int) {
            Some(index) => Some(
                EmbeddedView {
                    index: index as u32,
                    language: tidy_member(member(stream, "tags"@), "language"@),
                    title: tidy_member(member(stream, "tags"@), "title"@),
                },
            ),
            None => None,
        }
    }
}

/// The text streams among the entries of ffprobe's list.
pub open spec fn embedded_entries(streams: Seq<Json>) -> Seq<EmbeddedView>
    decreases streams.len(),
{
    if streams.len() == 0 {
        Seq::empty()
    } else {
        match embedded_entry(streams.last()) {
            Some(found) => embedded_entries(streams.drop_last()).push(found),
            None => embedded_entries(streams.drop_last()),
        }
    }
}

/// The text streams that ffprobe reports; none where its report cannot be read.
pub open spec fn embedded_in(report: Option<Json>) -> Seq<EmbeddedView> {
    match report {
        Some(j) => match list_of(member(j, "streams"@)) {
            Some(streams) => embedded_entries(streams),
            None => Seq::empty(),
        },
        None => Seq::empty(),
    }
}

fn tidy_text(value: &Value, key: &str) -> (r: String)
    ensures
        r@ == tidy_member(Some(tree(*value)), key@),
{
    match get(value, key) {
        Some(found) => match as_str(found) {
            Some(s) => trim(s),
            None => String::new(),
        },
        None => String::new(),
    }
}

fn embedded_stream(stream: &Value) -> (r: Option<EmbeddedStream>)
    ensures
        match r {
            Some(found) => embedded_entry(tree(*stream)) == Some(found@),
            None => embedded_entry(tree(*stream)) is None,
        },
{
    let codec = to_lowercase(tidy_text(stream, "codec_name").as_str());
    let c = codec.as_str();
    if !(same(c, "subrip") || same(c, "srt") || same(c, "ass") || same(c, "ssa") || same(c, "webvtt")
        || same(c, "mov_text") || same(c, "text")) {
        return None;
    }
    let index: u32 = match get(stream, "index") {
        Some(found) => match as_u64(found) {
            Some(n) => if n <= u32::MAX as u64 {
                n as u32
            } else {
                return None;
            },
            None => {
                return None;
            },
        },
        None => {
            return None;
        },
    };
    let (language, title): (String, String) = match get(stream, "tags") {
        Some(tags) => (tidy_text(tags, "language"), tidy_text(tags, "title")),
        None => (String::new(), String::new()),
    };
    Some(EmbeddedStream { index, language, title })
}

/// The text streams that a report of ffprobe lists.
pub fn text_streams(report: &Value) -> (r: Vec<EmbeddedStream>)
    ensures
        embedded_views(r@) == embedded_in(Some(tree(*report))),
{
    let mut out: Vec<EmbeddedStream> = Vec::new();
    assert(embedded_views(out@) =~= Seq::empty());
    let streams = match get(report, "streams") {
        Some(found) => match as_array(found) {
            Some(streams) => streams,
            None => {
                return out;
            },
        },
        None => {
            return out;
        },
    };
    assert(embedded_views(out@) =~= embedded_entries(trees(streams@).take(0)));
    for i in 0..streams.len()
        invariant
            embedded_views(out@) == embedded_entries(trees(streams@).take(i as int)),
    {
        let ghost before = embedded_views(out@);
        assert(trees(streams@).take(i + 1).drop_last() =~= trees(streams@).take(i as int));
        if let Some(found) = embedded_stream(&streams[i]) {
            let ghost item = found@;
            out.push(found);
            assert(embedded_views(out@) =~= before.push(item));
        }
    }
    assert(trees(streams@).take(streams@.len() as int) =~= trees(streams@));
    out
}

/// The text streams that ffprobe reports.
pub fn embedded(output: Option<&[u8]>) -> (r: Vec<EmbeddedStream>)
    ensures
        embedded_views(r@) == embedded_in(
            match output {
                Some(bytes) => parsed_bytes(bytes@),
                None => None,
            },
        ),
{
    if let Some(bytes) = output {
        if let Some(report) = parse_bytes(bytes) {
            return text_streams(&report);
        }
    }
    let r: Vec<EmbeddedStream> = Vec::new();
    assert(embedded_views(r@) =~= Seq::empty());
    r
}

/// How ffprobe is asked for the text streams of `media`.
pub open spec fn probe_view(media: Seq<char>) -> Seq<Seq<char>> {
    seq![
        "-v"@,
        "error"@,
        "-select_streams"@,
        "s"@,
        "-show_entries"@,
        "stream=index,codec_name:stream_tags=language,title"@,
        "-of"@,
        "json"@,
        media,
    ]
}

/// How ffprobe is asked for the text streams of `media`.
pub fn probe_args(media: &str) -> (r: Vec<String>)
    ensures
        views(r@) == probe_view(media@),
{
    let r = vec![
        "-v".to_owned(),
        "error".to_owned(),
        "-select_streams".to_owned(),
        "s".to_owned(),
        "-show_entries".to_owned(),
        "stream=index,codec_name:stream_tags=language,title".to_owned(),
        "-of".to_owned(),
        "json".to_owned(),
        media.to_owned(),
    ];
    assert(views(r@) =~= probe_view(media@));
    r
}

// ---------------------------------------------------------------------------
// All tracks of a medium

/// The label and language code of a text stream.
pub open spec fn embedded_label(stream: EmbeddedView) -> (Seq<char>, Seq<char>) {
    let language = language_named(lowercase(stream.language));
    let base = match language {
        Some((_, name)) => name,
        None => "Track "@ + decimal(stream.index as nat),
    };
    (
        if stream.title.len() == 0 || ascii_lower(stream.title) == ascii_lower(base) {
            base
        } else {
            remarked(base, stream.title)
        },
        match language {
            Some((code, _)) => code,
            None => Seq::empty(),
        },
    )
}

/// The number of the track at index `i`.
pub open spec fn track_id(i: int) -> u32 {
    if i + 1 <= u32::MAX {
        (i + 1) as u32
    } else {
        u32::MAX
    }
}

/// The tracks: the sidecar files, then the text streams, numbered from 1.
pub open spec fn tracks_of(sidecars: Seq<SidecarView>, embedded: Seq<EmbeddedView>) -> Seq<
    TrackView,
> {
    Seq::new(
        sidecars.len() + embedded.len(),
        |i: int|
            if i < sidecars.len() {
                let (path, label, language) = sidecars[i];
                TrackView { id: track_id(i), label, language, source: SourceView::Sidecar(path) }
            } else {
                let stream = embedded[i - sidecars.len()];
                let (label, language) = embedded_label(stream);
                TrackView {
                    id: track_id(i),
                    label,
                    language,
                    source: SourceView::Embedded { stream_index: stream.index },
                }
            },
    )
}

fn id_of(n: usize) -> (r: u32)
    ensures
        r == track_id(n as int),
{
    if n < u32::MAX as usize {
        (n as u32) + 1
    } else {
        u32::MAX
    }
}

fn label_embedded(stream: &EmbeddedStream) -> (r: (String, String))
    ensures
        (r.0@, r.1@) == embedded_label(stream@),
{
    let (code, base): (String, String) = match language_lookup(stream.language.as_str()) {
        Some((code, name)) => (code.to_owned(), name.to_owned()),
        None => {
            let mut out = "Track ".to_owned();
            out.append(show(stream.index as u64).as_str());
            (String::new(), out)
        },
    };
    if is_empty(stream.title.as_str()) || eq_ignore_ascii_case(
        stream.title.as_str(),
        base.as_str(),
    ) {
        (base, code)
    } else {
        let label = with_remark(base.as_str(), stream.title.as_str());
        (label, code)
    }
}

/// The tracks that sidecar files and text streams make.
pub fn number_tracks(
    sidecars: Vec<(String, String, String)>,
    embedded: Vec<EmbeddedStream>,
) -> (r: Vec<SubtitleTrack>)
    ensures
        track_views(r@) == tracks_of(sidecar_views(sidecars@), embedded_views(embedded@)),
{
    let ghost all = tracks_of(sidecar_views(sidecars@), embedded_views(embedded@));
    let mut tracks: Vec<SubtitleTrack> = Vec::new();
    for i in 0..sidecars.len()
        invariant
            all == tracks_of(sidecar_views(sidecars@), embedded_views(embedded@)),
            tracks@.len() == i,
            forall|j: int| 0 <= j < i ==> #[trigger] tracks@[j]@ == all[j],
    {
        assert(sidecar_views(sidecars@)[i as int] == (
            sidecars@[i as int].0@,
            sidecars@[i as int].1@,
            sidecars@[i as int].2@,
        ));
        tracks.push(
            SubtitleTrack {
                id: id_of(i),
                label: sidecars[i].1.clone(),
                language: sidecars[i].2.clone(),
                source: SubtitleSource::Sidecar(sidecars[i].0.clone()),
            },
        );
    }
    for k in 0..embedded.len()
        invariant
            all == tracks_of(sidecar_views(sidecars@), embedded_views(embedded@)),
            tracks@.len() == sidecars@.len() + k,
            forall|j: int| 0 <= j < tracks@.len() ==> #[trigger] tracks@[j]@ == all[j],
    {
        let stream = &embedded[k];
        let (label, language) = label_embedded(stream);
        assert(embedded_views(embedded@)[k as int] == stream@);
        let n = tracks.len();
        tracks.push(
            SubtitleTrack {
                id: id_of(n),
                label,
                language,
                source: SubtitleSource::Embedded { stream_index: stream.index },
            },
        );
    }
    assert(track_views(tracks@) =~= all);
    tracks
}

/// Every text subtitle usable for `media`: sidecar files first, then embedded
/// streams in container order. Ids are assigned 1..n.
pub fn discover(
    media: &str,
    beside: &Vec<String>,
    folders: &Vec<Vec<String>>,
    probed: Option<&[u8]>,
) -> (r: Vec<SubtitleTrack>)
    ensures
        track_views(r@) == tracks_of(
            sidecars_for(media@, views(beside@), folder_views(folders@)),
            embedded_in(
                match probed {
                    Some(bytes) => parsed_bytes(bytes@),
                    None => None,
                },
            ),
        ),
{
    number_tracks(sidecars(media, beside, folders), embedded(probed))
}

/// No two tracks of a medium have the same number, and no number is 0.
pub proof fn track_ids_differ(
    sidecars: Seq<SidecarView>,
    embedded: Seq<EmbeddedView>,
    i: int,
    j: int,
)
    requires
        sidecars.len() + embedded.len() <= u32::MAX,
        0 <= i < j < sidecars.len() + embedded.len(),
    ensures
        tracks_of(sidecars, embedded)[i].id == i + 1,
        tracks_of(sidecars, embedded)[i].id != tracks_of(sidecars, embedded)[j].id,
{
}

/// Sidecar files come before streams inside the medium.
pub proof fn sidecars_come_first(sidecars: Seq<SidecarView>, embedded: Seq<EmbeddedView>, i: int)
    requires
        0 <= i < sidecars.len() + embedded.len(),
    ensures
        (tracks_of(sidecars, embedded)[i].source is Sidecar) == (i < sidecars.len()),
{
}

// ---------------------------------------------------------------------------
// Conversion to WebVTT

/// How ffmpeg is asked to convert one subtitle track; the file to write follows.
pub open spec fn convert_view(
    source: Seq<char>,
    stream_index: Option<u32>,
    charenc: Option<Seq<char>>,
) -> Seq<Seq<char>> {
    seq!["-nostdin"@, "-y"@, "-loglevel"@, "error"@] + (match charenc {
        Some(encoding) => seq!["-sub_charenc"@, encoding],
        None => Seq::empty(),
    }) + seq!["-i"@, source] + (match stream_index {
        Some(index) => seq!["-map"@, "0:"@ + decimal(index as nat)],
        None => Seq::empty(),
    }) + seq!["-f"@, "webvtt"@]
}

/// How ffmpeg is asked to convert one subtitle track; the file to write follows.
pub fn ffmpeg_args(source: &str, stream_index: Option<u32>, charenc: Option<&str>) -> (r: Vec<
    String,
>)
    ensures
        views(r@) == convert_view(
            source@,
            stream_index,
            match charenc {
                Some(encoding) => Some(encoding@),
                None => None,
            },
        ),
{
    let mut args: Vec<String> = vec![
        "-nostdin".to_owned(),
        "-y".to_owned(),
        "-loglevel".to_owned(),
        "error".to_owned(),
    ];
    if let Some(encoding) = charenc {
        args.push("-sub_charenc".to_owned());
        args.push(encoding.to_owned());
    }
    args.push("-i".to_owned());
    args.push(source.to_owned());
    if let Some(index) = stream_index {
        let mut stream = "0:".to_owned();
        stream.append(show(index as u64).as_str());
        args.push("-map".to_owned());
        args.push(stream);
    }
    args.push("-f".to_owned());
    args.push("webvtt".to_owned());
    assert(views(args@) =~= convert_view(
        source@,
        stream_index,
        match charenc {
            Some(encoding) => Some(encoding@),
            None => None,
        },
    ));
    args
}

/// What is tried, one after the other, to convert a track of `media`. Older
/// `.srt` files are often Latin-1, which ffmpeg rejects as invalid UTF-8.
pub open spec fn attempts_for(source: SourceView, media: Seq<char>) -> Seq<Seq<Seq<char>>> {
    match source {
        SourceView::Sidecar(path) => seq![
            convert_view(path, None, None),
            convert_view(path, None, Some("ISO-8859-1"@)),
        ],
        SourceView::Embedded { stream_index } => seq![convert_view(media, Some(stream_index), None)],
    }
}

/// What is tried, one after the other, to convert a track of `media`.
pub fn vtt_attempts(track: &SubtitleTrack, media: &str) -> (r: Vec<Vec<String>>)
    ensures
        folder_views(r@) == attempts_for(track.source@, media@),
{
    let r = match &track.source {
        SubtitleSource::Sidecar(path) => vec![
            ffmpeg_args(path.as_str(), None, None),
            ffmpeg_args(path.as_str(), None, Some("ISO-8859-1")),
        ],
        SubtitleSource::Embedded { stream_index } => vec![
            ffmpeg_args(media, Some(*stream_index), None),
        ],
    };
    assert(folder_views(r@) =~= attempts_for(track.source@, media@));
    r
}

/// What has come of the conversion of a track.
#[derive(Debug, Clone, Copy, PartialEq, Eq, Structural)]
pub enum VttEvent {
    /// It has not been tried yet.
    Begun,
    /// ffmpeg has run; whether it succeeded, and the size of the draft if there is one.
    Ran { success: bool, size: Option<u64> },
    /// The draft has been moved into place, or not.
    Moved { success: bool },
}

/// What the conversion of a track needs next.
#[derive(Debug)]
pub enum VttStep {
    /// Run ffmpeg with these arguments, and the draft behind them.
    Run(Vec<String>),
    /// Move the draft into place.
    Move,
    /// The track is converted.
    Done,
    /// It cannot be converted: remove the draft.
    Failed(&'static str),
}

/// What the conversion of a track needs after so many attempts: a draft that
/// holds something is moved into place, and whatever fails, the next attempt
/// follows while there is one.
pub open spec fn needed(
    step: VttStep,
    attempts: Seq<Seq<Seq<char>>>,
    tried: nat,
    event: VttEvent,
) -> bool {
    match event {
        VttEvent::Ran { success: true, size: Some(size) } if size > 0 => step is Move,
        VttEvent::Moved { success: true } => step is Done,
        _ => match step {
            VttStep::Run(args) => tried < attempts.len() && views(args@) == attempts[tried as int],
            VttStep::Failed(reason) => tried >= attempts.len() && reason@
                == "ffmpeg could not convert the subtitle track"@,
            _ => false,
        },
    }
}

/// What the conversion of a track needs after so many attempts: a draft that
/// holds something is moved into place, and whatever fails, the next attempt
/// follows while there is one.
pub fn vtt_step(attempts: &Vec<Vec<String>>, tried: usize, event: VttEvent) -> (r: VttStep)
    ensures
        needed(r, folder_views(attempts@), tried as nat, event),
{
    match event {
        VttEvent::Ran { success: true, size: Some(size) } if size > 0 => VttStep::Move,
        VttEvent::Moved { success: true } => VttStep::Done,
        _ => if tried < attempts.len() {
            VttStep::Run(clone_strings(&attempts[tried]))
        } else {
            VttStep::Failed("ffmpeg could not convert the subtitle track")
        },
    }
}

/// The converted file of the track with a number.
pub open spec fn vtt_file(id: u32, dir: Seq<char>) -> Seq<char> {
    below(dir, decimal(id as nat) + ".vtt"@)
}

/// The file that the track with a number is converted into.
pub open spec fn draft_file(id: u32, dir: Seq<char>) -> Seq<char> {
    below(dir, decimal(id as nat) + ".vtt.part"@)
}

/// The converted file of a track.
pub fn vtt_path(track: &SubtitleTrack, dir: &str) -> (r: String)
    ensures
        r@ == vtt_file(track.id, dir@),
{
    let mut name = show(track.id as u64);
    name.append(".vtt");
    join_path(dir, name.as_str())
}

/// The file that a track is converted into before it counts as converted.
pub fn vtt_draft(track: &SubtitleTrack, dir: &str) -> (r: String)
    ensures
        r@ == draft_file(track.id, dir@),
{
    let mut name = show(track.id as u64);
    name.append(".vtt.part");
    join_path(dir, name.as_str())
}

// ---------------------------------------------------------------------------
// Cue timings

/// The parts of a timestamp, `hours:minutes:seconds` or `minutes:seconds`.
pub open spec fn stamp_parts(text: Seq<char>) -> Option<Seq<Seq<char>>> {
    let parts = pieces(trimmed(text), ':');
    if 2 <= parts.len() <= 3 {
        Some(parts)
    } else {
        None
    }
}

/// The parts of a timestamp; the number that each of them is follows from its text.
pub fn timestamp_parts(text: &str) -> (r: Option<Vec<String>>)
    ensures
        match r {
            Some(parts) => stamp_parts(text@) == Some(views(parts@)),
            None => stamp_parts(text@) is None,
        },
{
    let parts = split(trim(text).as_str(), ':');
    assert(views(parts@).len() == parts@.len());
    if parts.len() < 2 || parts.len() > 3 {
        None
    } else {
        Some(parts)
    }
}

/// A time in milliseconds as a timestamp.
pub open spec fn timestamp(total_ms: nat) -> Seq<char> {
    padded(total_ms / 3_600_000, 2) + ":"@ + padded((total_ms % 3_600_000) / 60_000, 2) + ":"@
        + padded((total_ms % 60_000) / 1000, 2) + "."@ + padded(total_ms % 1000, 3)
}

/// A time in milliseconds as a timestamp.
pub fn format_timestamp(total_ms: u64) -> (r: String)
    ensures
        r@ == timestamp(total_ms as nat),
{
    let mut out = show_padded(total_ms / 3_600_000, 2);
    out.append(":");
    out.append(show_padded((total_ms % 3_600_000) / 60_000, 2).as_str());
    out.append(":");
    out.append(show_padded((total_ms % 60_000) / 1000, 2).as_str());
    out.append(".");
    out.append(show_padded(total_ms % 1000, 3).as_str());
    out
}

/// Where the first white space of a text stands.
pub open spec fn first_space(text: Seq<char>, from: int) -> Option<int>
    decreases text.len() - from,
{
    if from < 0 || from >= text.len() {
        None
    } else if is_space(text[from]) {
        Some(from)
    } else {
        first_space(text, from + 1)
    }
}

/// The two timestamps and the settings of a line with an arrow in it.
pub open spec fn cue_split(line: Seq<char>) -> Option<(Seq<char>, Seq<char>, Seq<char>)> {
    match cut(line, "-->"@) {
        Some((start, after)) => {
            let rest = left_trimmed(after);
            match first_space(rest, 0) {
                Some(i) => Some((start, rest.take(i), trimmed(rest.skip(i + 1)))),
                None => Some((start, right_trimmed(rest), Seq::empty())),
            }
        },
        None => None,
    }
}

/// A cue timing line taken apart.
#[derive(Debug)]
pub struct CueTiming {
    pub start: Vec<String>,
    pub end: Vec<String>,
    pub settings: String,
}

/// The parts of the two timestamps of a cue timing line, and its settings.
pub open spec fn cue_timing(line: Seq<char>) -> Option<
    (Seq<Seq<char>>, Seq<Seq<char>>, Seq<char>),
> {
    match cue_split(line) {
        Some((start, end, settings)) => match (stamp_parts(start), stamp_parts(end)) {
            (Some(first), Some(second)) => Some((first, second, settings)),
            _ => None,
        },
        None => None,
    }
}

fn find_space(t: &Vec<char>) -> (r: Option<usize>)
    ensures
        r is Some == (first_space(t@, 0) is Some),
        r matches Some(i) ==> first_space(t@, 0) == Some(i as int) && i < t@.len(),
{
    let mut at: usize = 0;
    while at < t.len()
        invariant
            at <= t@.len(),
            first_space(t@, 0) == first_space(t@, at as int),
        decreases t@.len() - at,
    {
        if crate::text::space(t[at]) {
            return Some(at);
        }
        at = at + 1;
    }
    None
}

fn split_cue(line: &str) -> (r: Option<(String, String, String)>)
    ensures
        match r {
            Some((start, end, settings)) => cue_split(line@) == Some((start@, end@, settings@)),
            None => cue_split(line@) is None,
        },
{
    match split_once(line, "-->") {
        Some((start, after)) => {
            let rest = trim_start(after.as_str());
            let t = to_chars(rest.as_str());
            match find_space(&t) {
                Some(i) => {
                    let _bound: usize = t.len();
                    let end = from_chars(slice_subrange(t.as_slice(), 0, i));
                    let tail = from_chars(slice_subrange(t.as_slice(), i + 1, t.len()));
                    assert(end@ =~= rest@.take(i as int));
                    assert(tail@ =~= rest@.skip(i + 1));
                    Some((start, end, trim(tail.as_str())))
                },
                None => Some((start, trim_end(rest.as_str()), String::new())),
            }
        },
        None => None,
    }
}

/// Takes a cue timing line apart; a line that is none gives nothing.
pub fn parse_cue_timing(line: &str) -> (r: Option<CueTiming>)
    ensures
        match r {
            Some(cue) => cue_timing(line@) == Some(
                (views(cue.start@), views(cue.end@), cue.settings@),
            ),
            None => cue_timing(line@) is None,
        },
{
    match split_cue(line) {
        Some((start, end, settings)) => match timestamp_parts(start.as_str()) {
            Some(first) => match timestamp_parts(end.as_str()) {
                Some(second) => Some(CueTiming { start: first, end: second, settings }),
                None => None,
            },
            None => None,
        },
        None => None,
    }
}

// ---------------------------------------------------------------------------
// Re-timing

/// What a line of a `WebVTT` document is, once its cues are moved earlier.
#[derive(Debug, Clone, Copy, PartialEq, Eq, Structural)]
pub enum CueVerdict {
    /// It is no cue timing.
    Text,
    /// The cue has ended before the stream starts.
    Ended,
    /// The cue is shown from one time to another, in milliseconds of the stream.
    Shown { start_ms: u64, end_ms: u64 },
}

/// When a cue is shown, counted from the start of the stream.
#[derive(Debug, Clone, Copy, PartialEq, Eq, Structural)]
pub struct CueTimes {
    pub start: Seconds,
    pub end: Seconds,
    /// The start in whole milliseconds.
    pub start_ms: u64,
    /// The end in whole milliseconds.
    pub end_ms: u64,
}

/// What becomes of a line, given when the cue that it times is shown: a cue
/// that ends no later than the stream starts is over, and one that starts
/// earlier than the stream is clamped. A line without times is text.
pub open spec fn judged(line: Seq<char>, times: Option<CueTimes>) -> CueVerdict {
    match (cue_timing(line), times) {
        (Some(_), Some(cue)) => if cue.end.not_after(Seconds { bits: 0 }) {
            CueVerdict::Ended
        } else if cue.start.before(Seconds { bits: 0 }) {
            CueVerdict::Shown { start_ms: 0, end_ms: cue.end_ms }
        } else {
            CueVerdict::Shown { start_ms: cue.start_ms, end_ms: cue.end_ms }
        },
        _ => CueVerdict::Text,
    }
}

/// What becomes of each line; `times` holds the times of the cue on each line.
pub open spec fn judgements(lines: Seq<Seq<char>>, times: Seq<Option<CueTimes>>) -> Seq<
    CueVerdict,
> {
    Seq::new(
        lines.len(),
        |i: int| judged(lines[i], if i < times.len() { times[i] } else { None }),
    )
}

fn judge(line: &str, times: Option<CueTimes>) -> (r: CueVerdict)
    ensures
        r == judged(line@, times),
{
    match (parse_cue_timing(line), times) {
        (Some(_), Some(cue)) => if cue.end.at_most(Seconds::zero()) {
            CueVerdict::Ended
        } else if cue.start.is_negative() {
            CueVerdict::Shown { start_ms: 0, end_ms: cue.end_ms }
        } else {
            CueVerdict::Shown { start_ms: cue.start_ms, end_ms: cue.end_ms }
        },
        _ => CueVerdict::Text,
    }
}

/// The lines to be kept, and what has been decided about them.
pub struct Shifting {
    pub out: Seq<char>,
    pub pending: Seq<Seq<char>>,
    pub dropping: bool,
}

/// The new timing line of a cue that is shown.
pub open spec fn new_timing(line: Seq<char>, start_ms: u64, end_ms: u64) -> Seq<char> {
    let times = timestamp(start_ms as nat) + " --> "@ + timestamp(end_ms as nat);
    match cue_split(line) {
        Some((_, _, settings)) => if settings.len() > 0 {
            times.push(' ') + settings
        } else {
            times
        },
        None => times,
    }
}

impl Shifting {
    pub open spec fn begun() -> Shifting {
        Shifting { out: Seq::empty(), pending: Seq::empty(), dropping: false }
    }

    /// After one more line: a blank line closes a block, which is kept unless
    /// it holds a cue that has ended.
    pub open spec fn after(self, line: Seq<char>, verdict: CueVerdict) -> Shifting {
        if trimmed(line).len() == 0 {
            Shifting {
                out: if self.dropping {
                    self.out
                } else {
                    (self.out + closed_lines(self.pending)).push('\n')
                },
                pending: Seq::empty(),
                dropping: false,
            }
        } else if self.dropping {
            self
        } else {
            match verdict {
                CueVerdict::Text => Shifting { pending: self.pending.push(line), ..self },
                CueVerdict::Ended => Shifting { pending: Seq::empty(), dropping: true, ..self },
                CueVerdict::Shown { start_ms, end_ms } => Shifting {
                    out: (self.out + closed_lines(self.pending) + new_timing(
                        line,
                        start_ms,
                        end_ms,
                    )).push('\n'),
                    pending: Seq::empty(),
                    ..self
                },
            }
        }
    }

    /// What is left at the end of the document.
    pub open spec fn ended(self) -> Seq<char> {
        if self.dropping {
            self.out
        } else {
            self.out + closed_lines(self.pending)
        }
    }
}

/// The verdict on a line; a line without one is text.
pub open spec fn verdict_on(verdicts: Seq<CueVerdict>, i: int) -> CueVerdict {
    if 0 <= i < verdicts.len() {
        verdicts[i]
    } else {
        CueVerdict::Text
    }
}

/// The document after all of `lines`.
pub open spec fn shifted(lines: Seq<Seq<char>>, verdicts: Seq<CueVerdict>) -> Shifting
    decreases lines.len(),
{
    if lines.len() == 0 {
        Shifting::begun()
    } else {
        shifted(lines.drop_last(), verdicts).after(
            lines.last(),
            verdict_on(verdicts, lines.len() - 1),
        )
    }
}

fn flush(out: &mut String, pending: &Vec<String>)
    ensures
        final(out)@ == old(out)@ + closed_lines(views(pending@)),
{
    let ghost before = out@;
    assert(before + closed_lines(views(pending@).take(0)) =~= before);
    for i in 0..pending.len()
        invariant
            out@ == before + closed_lines(views(pending@).take(i as int)),
    {
        out.append(pending[i].as_str());
        out.push('\n');
        let ghost upto = views(pending@).take(i + 1);
        assert(upto.drop_last() =~= views(pending@).take(i as int));
        assert(out@ =~= before + closed_lines(upto));
    }
    assert(views(pending@).take(pending@.len() as int) =~= views(pending@));
}

fn timing_line(line: &str, start_ms: u64, end_ms: u64) -> (r: String)
    ensures
        r@ == new_timing(line@, start_ms, end_ms),
{
    let mut timing = format_timestamp(start_ms);
    timing.append(" --> ");
    timing.append(format_timestamp(end_ms).as_str());
    if let Some((_, _, settings)) = split_cue(line) {
        if !is_empty(settings.as_str()) {
            timing.push(' ');
            timing.append(settings.as_str());
        }
    }
    timing
}

/// A `WebVTT` document whose cues line up with a stream that started `seconds`
/// into the file.
pub open spec fn lined_up(
    text: Seq<char>,
    seconds: Seconds,
    times: Seq<Option<CueTimes>>,
) -> Seq<char> {
    if seconds.not_after(Seconds { bits: 0 }) {
        text
    } else {
        shifted(lines_of(text), judgements(lines_of(text), times)).ended()
    }
}

/// Rewrites a `WebVTT` document so its cues line up with a stream that started
/// `seconds` into the file: cues that end before that point are dropped, one
/// straddling it is clamped, the rest are shifted earlier. `times` holds for
/// each line when the cue that it times is shown, if it times one.
#[verifier::spinoff_prover]
#[verifier::rlimit(30)]
pub fn shift_vtt(text: &str, seconds: Seconds, times: &Vec<Option<CueTimes>>) -> (r: String)
    ensures
        r@ == lined_up(text@, seconds, times@),
{
    if seconds.at_most(Seconds::zero()) {
        return text.to_owned();
    }
    let all = lines(text);
    let mut out: String = String::new();
    let mut pending: Vec<String> = Vec::new();
    let mut dropping = false;
    let ghost none = views(pending@);
    assert(none =~= Seq::empty());
    let ghost verdicts = judgements(views(all@), times@);
    for i in 0..all.len()
        invariant
            views(all@) == lines_of(text@),
            verdicts == judgements(views(all@), times@),
            ({
                let state = shifted(views(all@).take(i as int), verdicts);
                &&& out@ == state.out
                &&& views(pending@) == state.pending
                &&& dropping == state.dropping
            }),
    {
        let line = all[i].as_str();
        let ghost before = views(pending@);
        let ghost state = shifted(views(all@).take(i as int), verdicts);
        let ghost next = shifted(views(all@).take(i + 1), verdicts);
        assert(views(all@).take(i + 1).drop_last() =~= views(all@).take(i as int));
        assert(next == state.after(line@, verdict_on(verdicts, i as int)));
        let cue: Option<CueTimes> = if i < times.len() {
            times[i]
        } else {
            None
        };
        if is_empty(trim(line).as_str()) {
            if !dropping {
                flush(&mut out, &pending);
                out.push('\n');
            }
            pending = Vec::new();
            dropping = false;
            assert(views(pending@) =~= next.pending);
        } else if !dropping {
            match judge(line, cue) {
                CueVerdict::Text => {
                    pending.push(all[i].clone());
                    assert(views(pending@) =~= before.push(line@));
                },
                CueVerdict::Ended => {
                    dropping = true;
                    pending = Vec::new();
                    assert(views(pending@) =~= next.pending);
                },
                CueVerdict::Shown { start_ms, end_ms } => {
                    flush(&mut out, &pending);
                    pending = Vec::new();
                    out.append(timing_line(line, start_ms, end_ms).as_str());
                    out.push('\n');
                    assert(views(pending@) =~= next.pending);
                },
            }
        }
    }
    assert(views(all@).take(all@.len() as int) =~= views(all@));
    if !dropping {
        flush(&mut out, &pending);
    }
    out
}

/// A line as it is kept: a blank one is emptied.
pub open spec fn kept(line: Seq<char>) -> Seq<char> {
    if trimmed(line).len() == 0 {
        Seq::empty()
    } else {
        line
    }
}

/// Some lines as they are kept.
pub open spec fn all_kept(lines: Seq<Seq<char>>) -> Seq<Seq<char>> {
    Seq::new(lines.len(), |i: int| kept(lines[i]))
}

/// A document without cue timings is kept line by line.
pub proof fn text_is_kept(lines: Seq<Seq<char>>, verdicts: Seq<CueVerdict>)
    requires
        forall|i: int| 0 <= i < lines.len() ==> #[trigger] verdict_on(verdicts, i) is Text,
    ensures
        !shifted(lines, verdicts).dropping,
        shifted(lines, verdicts).ended() == closed_lines(all_kept(lines)),
    decreases lines.len(),
{
    if lines.len() == 0 {
        assert(all_kept(lines) =~= Seq::empty());
        assert(shifted(lines, verdicts).ended() =~= closed_lines(all_kept(lines)));
    } else {
        let head = lines.drop_last();
        let line = lines.last();
        text_is_kept(head, verdicts);
        let before = shifted(head, verdicts);
        let after = shifted(lines, verdicts);
        assert(verdict_on(verdicts, lines.len() - 1) is Text);
        assert(all_kept(lines).drop_last() =~= all_kept(head));
        if trimmed(line).len() == 0 {
            assert(after.ended() =~= closed_lines(all_kept(head)) + Seq::<char>::empty() + seq!['\n']);
        } else {
            assert(before.pending.push(line).drop_last() =~= before.pending);
            assert(after.ended() =~= closed_lines(all_kept(head)) + line + seq!['\n']);
        }
    }
}

/// A cue that has ended leaves nothing behind: neither the lines before its
/// timing in the same block, nor those after it up to the next blank line.
pub proof fn ended_cue_is_dropped(
    state: Shifting,
    timing: Seq<char>,
    lines: Seq<Seq<char>>,
    blank: Seq<char>,
    verdicts: Seq<CueVerdict>,
)
    requires
        !state.dropping,
        trimmed(timing).len() > 0,
        forall|i: int| 0 <= i < lines.len() ==> trimmed(#[trigger] lines[i]).len() > 0,
        trimmed(blank).len() == 0,
        verdicts.len() == lines.len(),
    ensures
        after_all(state.after(timing, CueVerdict::Ended), lines, verdicts).after(blank, CueVerdict::Text)
            == (Shifting { out: state.out, pending: Seq::empty(), dropping: false }),
{
    nothing_while_dropping(state.after(timing, CueVerdict::Ended), lines, verdicts);
}

/// A cue that the start of the stream cuts in two begins where the stream does.
pub proof fn straddling_cue_is_clamped(line: Seq<char>, cue: CueTimes)
    requires
        cue_timing(line) is Some,
        cue.start.before(Seconds { bits: 0 }),
        cue.end.positive(),
    ensures
        judged(line, Some(cue)) == (CueVerdict::Shown { start_ms: 0, end_ms: cue.end_ms }),
        "00:00:00.000 --> "@.is_prefix_of(new_timing(line, 0, cue.end_ms)),
{
    reveal_strlit("00:00:00.000 --> ");
    reveal_strlit(":");
    reveal_strlit(".");
    reveal_strlit(" --> ");
    assert(padded(0, 2) == seq!['0', '0'] && padded(0, 3) == seq!['0', '0', '0']);
    assert(timestamp(0) + " --> "@ =~= "00:00:00.000 --> "@);
}

/// After several lines, each with its verdict.
pub open spec fn after_all(state: Shifting, lines: Seq<Seq<char>>, verdicts: Seq<CueVerdict>) -> Shifting
    decreases lines.len(),
{
    if lines.len() == 0 {
        state
    } else {
        after_all(state, lines.drop_last(), verdicts).after(
            lines.last(),
            verdict_on(verdicts, lines.len() - 1),
        )
    }
}

proof fn nothing_while_dropping(state: Shifting, lines: Seq<Seq<char>>, verdicts: Seq<CueVerdict>)
    requires
        state.dropping,
        forall|i: int| 0 <= i < lines.len() ==> trimmed(#[trigger] lines[i]).len() > 0,
    ensures
        after_all(state, lines, verdicts) == state,
    decreases lines.len(),
{
    if lines.len() > 0 {
        assert forall|i: int| 0 <= i < lines.drop_last().len() implies trimmed(
            #[trigger] lines.drop_last()[i],
        ).len() > 0 by {
            assert(lines.drop_last()[i] == lines[i]);
        }
        nothing_while_dropping(state, lines.drop_last(), verdicts);
        assert(trimmed(lines[lines.len() - 1]).len() > 0);
    }
}

} // verus!
