//! Google Cast: which codecs a receiver gets, and the requests it is sent.
use serde_json::Value;
use vstd::prelude::*;

use crate::json::{
    array, as_array, as_i64, as_str, as_u64, boolean, get, integer, integer_of, list_of, member,
    no_members, object, parse_bytes, parsed_bytes, put, string, text_field, text_member, text_of,
    tree, trees, Json,
};
use crate::number::{parse_i64, show_signed, signed, signed_decimal, within};
use crate::seconds::{start_url, started, Mark, Seconds};
use crate::text::{
    begins, contains, ends, given, has, lines, lines_of, lowercase, pieces, same, split,
    to_lowercase, trim, trimmed, views,
};

verus! {

// ---------------------------------------------------------------------------
// What the medium holds

#[derive(Debug)]
pub struct CodecPlan {
    pub vcodec: String,
    pub acodec: String,
    /// Channel count of the first audio stream (0 = unknown).
    pub channels: u32,
    pub reason: String,
}

/// One stream of a medium, as ffprobe reports it.
#[derive(Debug)]
pub struct ProbeStream {
    pub codec_type: String,
    pub codec_name: String,
    pub level: i64,
    pub channels: u32,
}

/// What a plan holds.
pub struct PlanView {
    pub vcodec: Seq<char>,
    pub acodec: Seq<char>,
    pub channels: u32,
    pub reason: Seq<char>,
}

/// What a stream record holds.
pub struct ProbeView {
    pub codec_type: Seq<char>,
    pub codec_name: Seq<char>,
    pub level: i64,
    pub channels: u32,
}

impl View for CodecPlan {
    type V = PlanView;

    open spec fn view(&self) -> PlanView {
        PlanView {
            vcodec: self.vcodec@,
            acodec: self.acodec@,
            channels: self.channels,
            reason: self.reason@,
        }
    }
}

impl View for ProbeStream {
    type V = ProbeView;

    open spec fn view(&self) -> ProbeView {
        ProbeView {
            codec_type: self.codec_type@,
            codec_name: self.codec_name@,
            level: self.level,
            channels: self.channels,
        }
    }
}

pub open spec fn probe_views(streams: Seq<ProbeStream>) -> Seq<ProbeView> {
    Seq::new(streams.len(), |i: int| streams[i]@)
}

/// The level that a stream's JSON gives, as a number or as a string; else 0.
pub open spec fn level_of(j: Option<Json>) -> i64 {
    match integer_of(j, i64::MIN as int, i64::MAX as int) {
        Some(n) => n as i64,
        None => match text_of(j) {
            Some(s) => match within(signed(s), i64::MIN as int, i64::MAX as int) {
                Some(n) => n as i64,
                None => 0,
            },
            None => 0,
        },
    }
}

/// The channel count that a stream's JSON gives; 0 where it gives none.
pub open spec fn channels_of(j: Option<Json>) -> u32 {
    match integer_of(j, 0, u32::MAX as int) {
        Some(n) => n as u32,
        None => 0,
    }
}

/// One entry of the `streams` array.
pub open spec fn stream_of(j: Json) -> ProbeView {
    ProbeView {
        codec_type: text_member(j, "codec_type"@),
        codec_name: lowercase(text_member(j, "codec_name"@)),
        level: level_of(member(j, "level"@)),
        channels: channels_of(member(j, "channels"@)),
    }
}

/// The streams of an ffprobe report.
pub open spec fn streams_of(report: Json) -> Seq<ProbeView> {
    match list_of(member(report, "streams"@)) {
        Some(items) => Seq::new(items.len(), |i: int| stream_of(items[i])),
        None => Seq::empty(),
    }
}

/// The streams that the output of ffprobe lists: none where there is no output
/// or it is not JSON.
pub open spec fn probed(output: Option<Seq<u8>>) -> Seq<ProbeView> {
    match output {
        Some(bytes) => match parsed_bytes(bytes) {
            Some(report) => streams_of(report),
            None => Seq::empty(),
        },
        None => Seq::empty(),
    }
}

/// The bytes of an optional slice.
pub open spec fn opt_bytes(output: Option<&[u8]>) -> Option<Seq<u8>> {
    match output {
        Some(bytes) => Some(bytes@),
        None => None,
    }
}

fn level_in(value: Option<&Value>) -> (r: i64)
    ensures
        r == level_of(
            match value {
                Some(v) => Some(tree(*v)),
                None => None,
            },
        ),
{
    match value {
        None => 0,
        Some(v) => match as_i64(v) {
            Some(n) => n,
            None => match as_str(v) {
                Some(s) => match parse_i64(s) {
                    Some(n) => n,
                    None => 0,
                },
                None => 0,
            },
        },
    }
}

fn stream_in(value: &Value) -> (r: ProbeStream)
    ensures
        r@ == stream_of(tree(*value)),
{
    let channels: u32 = match get(value, "channels") {
        Some(v) => match as_u64(v) {
            Some(n) => if n <= u32::MAX as u64 {
                n as u32
            } else {
                0
            },
            None => 0,
        },
        None => 0,
    };
    ProbeStream {
        codec_type: text_field(value, "codec_type"),
        codec_name: to_lowercase(text_field(value, "codec_name").as_str()),
        level: level_in(get(value, "level")),
        channels,
    }
}

/// The streams of an ffprobe report.
pub fn streams_in(report: &Value) -> (r: Vec<ProbeStream>)
    ensures
        probe_views(r@) == streams_of(tree(*report)),
{
    let mut out: Vec<ProbeStream> = Vec::new();
    if let Some(streams) = get(report, "streams") {
        if let Some(items) = as_array(streams) {
            for i in 0..items.len()
                invariant
                    out@.len() == i,
                    forall|j: int| 0 <= j < i ==> #[trigger] out@[j]@ == stream_of(tree(items@[j])),
            {
                out.push(stream_in(&items[i]));
            }
            assert(probe_views(out@) =~= streams_of(tree(*report)));
            return out;
        }
    }
    assert(probe_views(out@) =~= streams_of(tree(*report)));
    out
}

/// The streams that the output of ffprobe lists.
pub fn probe(output: Option<&[u8]>) -> (r: Vec<ProbeStream>)
    ensures
        probe_views(r@) == probed(opt_bytes(output)),
{
    if let Some(bytes) = output {
        if let Some(report) = parse_bytes(bytes) {
            return streams_in(&report);
        }
    }
    let r: Vec<ProbeStream> = Vec::new();
    assert(probe_views(r@) =~= Seq::empty());
    r
}

/// The first stream of a kind, from index `from` on.
pub open spec fn first_of(streams: Seq<ProbeView>, kind: Seq<char>, from: int) -> Option<ProbeView>
    decreases streams.len() - from,
{
    if from < 0 || from >= streams.len() {
        None
    } else if streams[from].codec_type == kind {
        Some(streams[from])
    } else {
        first_of(streams, kind, from + 1)
    }
}

fn find_stream<'a>(streams: &'a Vec<ProbeStream>, kind: &str) -> (r: Option<&'a ProbeStream>)
    ensures
        match r {
            Some(s) => first_of(probe_views(streams@), kind@, 0) == Some(s@),
            None => first_of(probe_views(streams@), kind@, 0) is None,
        },
{
    let mut i: usize = 0;
    while i < streams.len()
        invariant
            i <= streams@.len(),
            first_of(probe_views(streams@), kind@, 0) == first_of(
                probe_views(streams@),
                kind@,
                i as int,
            ),
        decreases streams@.len() - i,
    {
        if same(streams[i].codec_type.as_str(), kind) {
            return Some(&streams[i]);
        }
        i = i + 1;
    }
    None
}

// ---------------------------------------------------------------------------
// What the receiver gets

/// A plain Chromecast does not decode HEVC; one of the later models, and any
/// other receiver, is taken to.
pub open spec fn hevc_ok(model: Seq<char>, name: Seq<char>) -> bool {
    let shown = lowercase(model + " "@ + name);
    has(shown, "chromecast"@) ==> (has(shown, "ultra"@) || has(shown, "google tv"@) || has(
        shown,
        "hd"@,
    ) || has(shown, "4k"@) || has(shown, "android"@))
}

/// Whether the receiver is taken to decode HEVC.
pub fn hevc_capable(model: &str, name: &str) -> (r: bool)
    ensures
        r == hevc_ok(model@, name@),
{
    let mut full = model.to_owned();
    full.append(" ");
    full.append(name);
    let shown = to_lowercase(full.as_str());
    let s = shown.as_str();
    !(contains(s, "chromecast") && !(contains(s, "ultra") || contains(s, "google tv") || contains(
        s,
        "hd",
    ) || contains(s, "4k") || contains(s, "android")))
}

/// The video encoder for a stream, and why.
pub open spec fn video_plan(video: Option<ProbeView>, hevc: bool) -> (Seq<char>, Seq<char>) {
    match video {
        None => ("libx264"@, "unknown not supported"@),
        Some(v) => if v.codec_name == "h264"@ {
            if v.level > 41 && !hevc {
                ("libx264"@, "h264 level "@ + signed_decimal(v.level as int) + " too high"@)
            } else {
                ("copy"@, "h264 passthrough"@)
            }
        } else if v.codec_name == "vp8"@ || v.codec_name == "vp9"@ {
            ("copy"@, v.codec_name + " passthrough"@)
        } else if v.codec_name == "hevc"@ && hevc {
            ("copy"@, "hevc passthrough (device supports it)"@)
        } else {
            ("libx264"@, v.codec_name + " not supported"@)
        },
    }
}

pub open spec fn audio_name_of(audio: Option<ProbeView>) -> Seq<char> {
    match audio {
        Some(a) => a.codec_name,
        None => Seq::empty(),
    }
}

pub open spec fn channels_in(audio: Option<ProbeView>) -> u32 {
    match audio {
        Some(a) => a.channels,
        None => 0,
    }
}

/// The audio encoder: what a Cast receiver plays is copied, and so is nothing.
pub open spec fn audio_plan(name: Seq<char>) -> Seq<char> {
    if name.len() > 0 && name != "aac"@ && name != "mp3"@ {
        "aac"@
    } else {
        "copy"@
    }
}

/// How ffprobe is asked for the streams of a medium.
pub open spec fn probe_view(path: Seq<char>) -> Seq<Seq<char>> {
    seq![
        "-v"@,
        "error"@,
        "-show_entries"@,
        "stream=codec_type,codec_name,profile,level,channels"@,
        "-of"@,
        "json"@,
        path,
    ]
}

/// How ffprobe is asked for the streams of a medium.
pub fn probe_args(path: &str) -> (r: Vec<String>)
    ensures
        views(r@) == probe_view(path@),
{
    let r = vec![
        "-v".to_owned(),
        "error".to_owned(),
        "-show_entries".to_owned(),
        "stream=codec_type,codec_name,profile,level,channels".to_owned(),
        "-of".to_owned(),
        "json".to_owned(),
        path.to_owned(),
    ];
    assert(views(r@) =~= probe_view(path@));
    r
}

/// How ffprobe is asked for the duration of a medium.
pub open spec fn duration_view(path: Seq<char>) -> Seq<Seq<char>> {
    seq![
        "-v"@,
        "error"@,
        "-show_entries"@,
        "format=duration"@,
        "-of"@,
        "default=noprint_wrappers=1:nokey=1"@,
        path,
    ]
}

/// How ffprobe is asked for the duration of a medium.
pub fn duration_args(path: &str) -> (r: Vec<String>)
    ensures
        views(r@) == duration_view(path@),
{
    let r = vec![
        "-v".to_owned(),
        "error".to_owned(),
        "-show_entries".to_owned(),
        "format=duration".to_owned(),
        "-of".to_owned(),
        "default=noprint_wrappers=1:nokey=1".to_owned(),
        path.to_owned(),
    ];
    assert(views(r@) =~= duration_view(path@));
    r
}

/// How a medium with these streams is encoded for a Cast receiver.
pub open spec fn cast_plan(streams: Seq<ProbeView>, model: Seq<char>, name: Seq<char>) -> PlanView {
    let video = first_of(streams, "video"@, 0);
    let audio = first_of(streams, "audio"@, 0);
    let (vcodec, vreason) = video_plan(video, hevc_ok(model, name));
    let audio_name = audio_name_of(audio);
    PlanView {
        vcodec,
        acodec: audio_plan(audio_name),
        channels: channels_in(audio),
        reason: vreason + "; audio "@ + (if audio_name.len() == 0 {
            "none"@
        } else {
            audio_name
        }),
    }
}

/// How a medium with these streams goes to a receiver that decodes it itself.
pub open spec fn native_plan(streams: Seq<ProbeView>) -> PlanView {
    PlanView {
        vcodec: "copy"@,
        acodec: "copy"@,
        channels: channels_in(first_of(streams, "audio"@, 0)),
        reason: "receiver decodes natively"@,
    }
}

fn plan_video(video: Option<&ProbeStream>, hevc: bool) -> (r: (String, String))
    ensures
        (r.0@, r.1@) == video_plan(
            match video {
                Some(v) => Some(v@),
                None => None,
            },
            hevc,
        ),
{
    match video {
        None => ("libx264".to_owned(), "unknown not supported".to_owned()),
        Some(v) => {
            let codec = v.codec_name.as_str();
            if same(codec, "h264") {
                if v.level > 41 && !hevc {
                    let mut reason = "h264 level ".to_owned();
                    reason.append(show_signed(v.level).as_str());
                    reason.append(" too high");
                    ("libx264".to_owned(), reason)
                } else {
                    ("copy".to_owned(), "h264 passthrough".to_owned())
                }
            } else if same(codec, "vp8") || same(codec, "vp9") {
                let mut reason = codec.to_owned();
                reason.append(" passthrough");
                ("copy".to_owned(), reason)
            } else if same(codec, "hevc") && hevc {
                ("copy".to_owned(), "hevc passthrough (device supports it)".to_owned())
            } else {
                let mut reason = codec.to_owned();
                reason.append(" not supported");
                ("libx264".to_owned(), reason)
            }
        },
    }
}

/// How a medium with these streams is encoded for a Cast receiver.
pub fn plan_streams(streams: &Vec<ProbeStream>, model: &str, name: &str) -> (r: CodecPlan)
    ensures
        r@ == cast_plan(probe_views(streams@), model@, name@),
{
    let video = find_stream(streams, "video");
    let audio = find_stream(streams, "audio");
    let (vcodec, vreason) = plan_video(video, hevc_capable(model, name));
    let audio_name: String = match audio {
        Some(a) => a.codec_name.clone(),
        None => String::new(),
    };
    let acodec = if !audio_name.as_str().is_empty() && !same(audio_name.as_str(), "aac") && !same(
        audio_name.as_str(),
        "mp3",
    ) {
        "aac".to_owned()
    } else {
        "copy".to_owned()
    };
    let channels: u32 = match audio {
        Some(a) => a.channels,
        None => 0,
    };
    let mut reason = vreason;
    reason.append("; audio ");
    if audio_name.as_str().is_empty() {
        reason.append("none");
    } else {
        reason.append(audio_name.as_str());
    }
    CodecPlan { vcodec, acodec, channels, reason }
}

/// How the medium that ffprobe reports on is encoded for a Cast receiver.
pub fn plan_transcode(output: Option<&[u8]>, model: &str, name: &str) -> (r: CodecPlan)
    ensures
        r@ == cast_plan(probed(opt_bytes(output)), model@, name@),
{
    plan_streams(&probe(output), model, name)
}

/// Plan for receivers that decode the file natively (DLNA, AirPlay): everything
/// is passed through. Only the channel count is taken from the report, so a
/// boosted stream can downmix sensibly.
pub fn passthrough_plan(output: Option<&[u8]>) -> (r: CodecPlan)
    ensures
        r@ == native_plan(probed(opt_bytes(output))),
{
    let streams = probe(output);
    let channels: u32 = match find_stream(&streams, "audio") {
        Some(a) => a.channels,
        None => 0,
    };
    CodecPlan {
        vcodec: "copy".to_owned(),
        acodec: "copy".to_owned(),
        channels,
        reason: "receiver decodes natively".to_owned(),
    }
}

/// A receiver is only ever sent video as it is or as H.264, and audio as it is
/// or as AAC.
pub proof fn only_known_encoders(streams: Seq<ProbeView>, model: Seq<char>, name: Seq<char>)
    ensures
        ({
            let plan = cast_plan(streams, model, name);
            &&& plan.vcodec == "copy"@ || plan.vcodec == "libx264"@
            &&& plan.acodec == "copy"@ || plan.acodec == "aac"@
        }),
{
}

proof fn first_is_first(streams: Seq<ProbeView>, kind: Seq<char>, from: int)
    requires
        0 <= from,
    ensures
        match first_of(streams, kind, from) {
            Some(stream) => exists|i: int|
                from <= i < streams.len() && #[trigger] streams[i] == stream && stream.codec_type
                    == kind && forall|j: int|
                    from <= j < i ==> (#[trigger] streams[j]).codec_type != kind,
            None => forall|j: int|
                from <= j < streams.len() ==> (#[trigger] streams[j]).codec_type != kind,
        },
    decreases streams.len() - from,
{
    if from < streams.len() && streams[from].codec_type != kind {
        first_is_first(streams, kind, from + 1);
    }
}

/// What a plan is made for: stream `i` is the first of its kind.
pub open spec fn leads(streams: Seq<ProbeView>, kind: Seq<char>, i: int) -> bool {
    0 <= i < streams.len() && streams[i].codec_type == kind && forall|j: int|
        0 <= j < i ==> (#[trigger] streams[j]).codec_type != kind
}

proof fn leader_is_found(streams: Seq<ProbeView>, kind: Seq<char>, i: int)
    requires
        leads(streams, kind, i),
    ensures
        first_of(streams, kind, 0) == Some(streams[i]),
{
    first_is_first(streams, kind, 0);
    assert(streams[i].codec_type == kind);
}

/// The picture goes to a Cast receiver as it is only where the receiver can
/// decode it: H.264 up to level 4.1, VP8 and VP9 by any, H.264 of any level and
/// HEVC by one that decodes HEVC. Every other picture, and one of which nothing
/// is known, is made H.264.
pub proof fn picture_is_copied_where_it_plays(
    streams: Seq<ProbeView>,
    i: int,
    model: Seq<char>,
    name: Seq<char>,
)
    ensures
        ({
            let plan = cast_plan(streams, model, name);
            let codec = streams[i].codec_name;
            &&& leads(streams, "video"@, i) && hevc_ok(model, name) ==> (plan.vcodec == "copy"@
                <==> (codec == "h264"@ || codec == "vp8"@ || codec == "vp9"@ || codec == "hevc"@))
            &&& leads(streams, "video"@, i) && !hevc_ok(model, name) ==> (plan.vcodec == "copy"@
                <==> (codec == "vp8"@ || codec == "vp9"@ || (codec == "h264"@ && streams[i].level
                <= 41)))
            &&& plan.vcodec != "copy"@ ==> plan.vcodec == "libx264"@
            &&& (forall|j: int| 0 <= j < streams.len() ==> (#[trigger] streams[j]).codec_type
                != "video"@) ==> plan.vcodec == "libx264"@
        }),
{
    reveal_strlit("copy");
    reveal_strlit("libx264");
    reveal_strlit("h264");
    reveal_strlit("hevc");
    reveal_strlit("vp8");
    reveal_strlit("vp9");
    assert("h264"@[0] == 'h' && "hevc"@[1] == 'e' && "vp8"@[0] == 'v' && "vp9"@[2] == '9');
    assert("copy"@[0] == 'c' && "libx264"@[0] == 'l');
    assert("h264"@[1] == '2');
    first_is_first(streams, "video"@, 0);
    if leads(streams, "video"@, i) {
        leader_is_found(streams, "video"@, i);
    }
}

/// The sound goes to a Cast receiver as it is only where it is AAC or MP3, or
/// its codec is not known; any other is made AAC. There are as many channels as
/// the first soundtrack has, whatever the receiver.
pub proof fn sound_is_copied_where_it_plays(
    streams: Seq<ProbeView>,
    i: int,
    model: Seq<char>,
    name: Seq<char>,
)
    ensures
        ({
            let plan = cast_plan(streams, model, name);
            let codec = streams[i].codec_name;
            &&& leads(streams, "audio"@, i) ==> (plan.acodec == "copy"@ <==> (codec == "aac"@
                || codec == "mp3"@ || codec.len() == 0)) && plan.channels == streams[i].channels
                && native_plan(streams).channels == streams[i].channels
            &&& plan.acodec != "copy"@ ==> plan.acodec == "aac"@
            &&& (forall|j: int| 0 <= j < streams.len() ==> (#[trigger] streams[j]).codec_type
                != "audio"@) ==> plan.acodec == "copy"@ && plan.channels == 0 && native_plan(
                streams,
            ).channels == 0
        }),
{
    reveal_strlit("copy");
    reveal_strlit("aac");
    reveal_strlit("mp3");
    assert("copy"@.len() == 4 && "aac"@.len() == 3 && "mp3"@.len() == 3);
    first_is_first(streams, "audio"@, 0);
    if leads(streams, "audio"@, i) {
        leader_is_found(streams, "audio"@, i);
    }
}

/// A plan tells what it was made for: first the codec of the picture, last that
/// of the sound.
pub proof fn plan_names_its_codecs(
    streams: Seq<ProbeView>,
    i: int,
    j: int,
    model: Seq<char>,
    name: Seq<char>,
)
    requires
        leads(streams, "video"@, i),
        leads(streams, "audio"@, j),
        streams[j].codec_name.len() > 0,
    ensures
        begins(cast_plan(streams, model, name).reason, streams[i].codec_name),
        ends(cast_plan(streams, model, name).reason, "; audio "@ + streams[j].codec_name),
{
    leader_is_found(streams, "video"@, i);
    leader_is_found(streams, "audio"@, j);
    reveal_strlit("h264");
    reveal_strlit("hevc");
    reveal_strlit("h264 passthrough");
    reveal_strlit("h264 level ");
    reveal_strlit("hevc passthrough (device supports it)");
    let codec = streams[i].codec_name;
    let (vcodec, vreason) = video_plan(Some(streams[i]), hevc_ok(model, name));
    let reason = cast_plan(streams, model, name).reason;
    let last = "; audio "@ + streams[j].codec_name;
    assert(vreason.take(codec.len() as int) =~= codec);
    assert(reason =~= vreason + last);
    assert(reason.take(codec.len() as int) =~= codec);
    assert(reason.skip(reason.len() - last.len()) =~= last);
}

/// Only a Chromecast can lack HEVC, and only one that names none of the later
/// kinds; how the names are written in capitals does not matter.
pub proof fn plain_chromecasts_lack_hevc(model: Seq<char>, name: Seq<char>, word: Seq<char>)
    ensures
        ({
            let shown = lowercase(model + " "@ + name);
            let later = seq!["ultra"@, "google tv"@, "hd"@, "4k"@, "android"@];
            &&& !(has(shown, "chromecast"@)) ==> hevc_ok(model, name)
            &&& later.contains(word) && has(shown, word) ==> hevc_ok(model, name)
            &&& has(shown, "chromecast"@) && hevc_ok(model, name) ==> exists|k: int|
                0 <= k < 5 && has(shown, #[trigger] later[k])
        }),
{
    let shown = lowercase(model + " "@ + name);
    let later = seq!["ultra"@, "google tv"@, "hd"@, "4k"@, "android"@];
    assert(later[0] == "ultra"@ && later[1] == "google tv"@ && later[2] == "hd"@ && later[3]
        == "4k"@ && later[4] == "android"@);
    if later.contains(word) {
        let k = choose|k: int| 0 <= k < later.len() && later[k] == word;
        assert(k == 0 || k == 1 || k == 2 || k == 3 || k == 4);
    }
}

/// A receiver that decodes the file itself gets it as it is.
pub proof fn native_receivers_get_the_file(streams: Seq<ProbeView>)
    ensures
        native_plan(streams).vcodec == "copy"@,
        native_plan(streams).acodec == "copy"@,
{
}

/// Of each stream that ffprobe lists, its kind and the name of its codec in
/// small letters are taken over, and its level and its channels where they are
/// numbers; a level may also be written as a text.
pub proof fn streams_are_as_listed(report: Json, items: Seq<Json>, i: int)
    requires
        list_of(member(report, "streams"@)) == Some(items),
        0 <= i < items.len(),
    ensures
        streams_of(report).len() == items.len(),
        ({
            let stream = streams_of(report)[i];
            &&& text_of(member(items[i], "codec_type"@)) matches Some(kind) ==> stream.codec_type
                == kind
            &&& text_of(member(items[i], "codec_name"@)) matches Some(codec) ==> stream.codec_name
                == lowercase(codec)
            &&& integer_of(member(items[i], "level"@), i64::MIN as int, i64::MAX as int) matches Some(n)
                ==> stream.level == n
            &&& text_of(member(items[i], "level"@)) matches Some(shown) ==> (signed(
                shown,
            ) matches Some(n) ==> (i64::MIN <= n <= i64::MAX ==> stream.level == n))
            &&& integer_of(member(items[i], "channels"@), 0, u32::MAX as int) matches Some(n)
                ==> stream.channels == n
            &&& member(items[i], "channels"@) is None ==> stream.channels == 0
            &&& member(items[i], "level"@) is None ==> stream.level == 0
        }),
{
}

// ---------------------------------------------------------------------------
// Keyframes

/// How ffprobe is asked for the packets of the picture between two times,
/// each shown to three places.
pub open spec fn packets_view(path: Seq<char>, from: Seq<char>, to: Seq<char>) -> Seq<Seq<char>> {
    seq![
        "-v"@,
        "error"@,
        "-select_streams"@,
        "v:0"@,
        "-show_entries"@,
        "packet=pts_time,flags"@,
        "-of"@,
        "csv=p=0"@,
        "-read_intervals"@,
        from + "%"@ + to,
        path,
    ]
}

/// How ffprobe is asked for the packets of the picture between two times.
pub fn packets_args(path: &str, from: &str, to: &str) -> (r: Vec<String>)
    ensures
        views(r@) == packets_view(path@, from@, to@),
{
    let mut interval = from.to_owned();
    interval.append("%");
    interval.append(to);
    let r = vec![
        "-v".to_owned(),
        "error".to_owned(),
        "-select_streams".to_owned(),
        "v:0".to_owned(),
        "-show_entries".to_owned(),
        "packet=pts_time,flags".to_owned(),
        "-of".to_owned(),
        "csv=p=0".to_owned(),
        "-read_intervals".to_owned(),
        interval,
        path.to_owned(),
    ];
    assert(views(r@) =~= packets_view(path@, from@, to@));
    r
}

/// The time field of a packet line that marks a keyframe.
pub open spec fn keyframe_field(line: Seq<char>) -> Option<Seq<char>> {
    let fields = pieces(line, ',');
    if fields.len() >= 2 && has(fields[1], "K"@) {
        Some(trimmed(fields[0]))
    } else {
        None
    }
}

/// The time fields of the keyframe lines among the first `n`.
pub open spec fn keyframes_upto(all: Seq<Seq<char>>, n: int) -> Seq<Seq<char>>
    decreases n,
{
    if n <= 0 {
        Seq::empty()
    } else {
        match keyframe_field(all[n - 1]) {
            Some(field) => keyframes_upto(all, n - 1).push(field),
            None => keyframes_upto(all, n - 1),
        }
    }
}

/// The time fields of the keyframes in the packet list of ffprobe.
pub fn keyframe_times(output: &str) -> (r: Vec<String>)
    ensures
        views(r@) == keyframes_upto(lines_of(output@), lines_of(output@).len() as int),
{
    let all = lines(output);
    let ghost texts = lines_of(output@);
    let mut out: Vec<String> = Vec::new();
    assert(views(out@) =~= Seq::empty());
    for i in 0..all.len()
        invariant
            views(all@) == texts,
            views(out@) == keyframes_upto(texts, i as int),
    {
        assert(views(all@)[i as int] == texts[i as int]);
        let fields = split(all[i].as_str(), ',');
        assert(views(fields@).len() == fields@.len());
        if fields.len() >= 2 {
            assert(views(fields@)[1] == fields@[1]@);
            assert(views(fields@)[0] == fields@[0]@);
            if contains(fields[1].as_str(), "K") {
                let ghost before = out@;
                let field = trim(fields[0].as_str());
                out.push(field);
                assert(views(out@) =~= views(before).push(field@));
            }
        }
    }
    out
}

/// The latest of the first `n` times that is not after `time`.
pub open spec fn latest_upto(times: Seq<Seconds>, time: Seconds, n: int) -> Option<Seconds>
    decreases n,
{
    if n <= 0 {
        None
    } else {
        let t = times[n - 1];
        match latest_upto(times, time, n - 1) {
            Some(best) => if t.not_after(time) && best.before(t) {
                Some(t)
            } else {
                Some(best)
            },
            None => if t.not_after(time) {
                Some(t)
            } else {
                None
            },
        }
    }
}

/// Where a stream that cannot start between keyframes starts for `time`: at the
/// latest keyframe that is not after it, or at `time` where none is known.
pub open spec fn stream_start(times: Seq<Seconds>, time: Seconds) -> Seconds {
    if time.not_after(Seconds { bits: 0 }) {
        Seconds { bits: 0 }
    } else {
        match latest_upto(times, time, times.len() as int) {
            Some(best) => best,
            None => time,
        }
    }
}

/// Where a stream that cannot start between keyframes starts for `time`.
pub fn keyframe_at_or_before(times: &Vec<Seconds>, time: Seconds) -> (r: Seconds)
    ensures
        r == stream_start(times@, time),
{
    if time.at_most(Seconds::zero()) {
        return Seconds::zero();
    }
    let mut best: Option<Seconds> = None;
    for i in 0..times.len()
        invariant
            best == latest_upto(times@, time, i as int),
    {
        let t = times[i];
        if t.at_most(time) {
            best = match best {
                Some(b) => if b.less_than(t) {
                    Some(t)
                } else {
                    Some(b)
                },
                None => Some(t),
            };
        }
    }
    match best {
        Some(b) => b,
        None => time,
    }
}

/// A known keyframe is chosen over the wanted time, none of the known ones lies
/// between the chosen one and the wanted time, and the start is never after it.
pub proof fn start_is_latest_keyframe(times: Seq<Seconds>, time: Seconds)
    requires
        time.positive(),
    ensures
        stream_start(times, time).not_after(time),
        forall|i: int|
            0 <= i < times.len() && (#[trigger] times[i]).not_after(time) ==> times[i].not_after(
                stream_start(times, time),
            ),
        (exists|i: int| 0 <= i < times.len() && (#[trigger] times[i]).not_after(time))
            ==> times.contains(stream_start(times, time)),
{
    latest_is_latest(times, time, times.len() as int);
}

proof fn latest_is_latest(times: Seq<Seconds>, time: Seconds, n: int)
    requires
        0 <= n <= times.len(),
    ensures
        match latest_upto(times, time, n) {
            Some(best) => best.not_after(time) && times.contains(best) && forall|i: int|
                0 <= i < n && (#[trigger] times[i]).not_after(time) ==> times[i].not_after(best),
            None => forall|i: int| 0 <= i < n ==> !(#[trigger] times[i]).not_after(time),
        },
    decreases n,
{
    if n > 0 {
        latest_is_latest(times, time, n - 1);
        assert(times.contains(times[n - 1]));
    }
}

/// Every line that marks a keyframe is counted, and nothing else is.
pub proof fn keyframes_are_the_marked_lines(all: Seq<Seq<char>>, n: int)
    requires
        0 <= n <= all.len(),
    ensures
        forall|i: int|
            0 <= i < n ==> (keyframe_field(#[trigger] all[i]) matches Some(field)
                ==> keyframes_upto(all, n).contains(field)),
        forall|k: int|
            0 <= k < keyframes_upto(all, n).len() ==> exists|i: int|
                0 <= i < n && keyframe_field(#[trigger] all[i]) == Some(
                    #[trigger] keyframes_upto(all, n)[k],
                ),
    decreases n,
{
    if n > 0 {
        let before = keyframes_upto(all, n - 1);
        let after = keyframes_upto(all, n);
        keyframes_are_the_marked_lines(all, n - 1);
        assert forall|i: int| 0 <= i < n implies (keyframe_field(#[trigger] all[i]) matches Some(
            field,
        ) ==> after.contains(field)) by {
            if let Some(field) = keyframe_field(all[i]) {
                if i < n - 1 {
                    let k = choose|k: int| 0 <= k < before.len() && before[k] == field;
                    assert(after[k] == field);
                } else {
                    assert(after.last() == field);
                }
            }
        }
        assert forall|k: int| 0 <= k < after.len() implies exists|i: int|
            0 <= i < n && keyframe_field(#[trigger] all[i]) == Some(#[trigger] after[k]) by {
            if k < before.len() {
                assert(after[k] == before[k]);
                let i = choose|i: int|
                    0 <= i < n - 1 && keyframe_field(#[trigger] all[i]) == Some(before[k]);
                assert(keyframe_field(all[i]) == Some(after[k]));
            } else {
                assert(keyframe_field(all[n - 1]) == Some(after[k]));
            }
        }
    }
}

// ---------------------------------------------------------------------------
// Requests to the receiver

/// A sidecar `WebVTT` subtitle track offered to the receiver.
#[derive(Debug)]
pub struct TextTrack {
    pub id: u32,
    /// Base URL of the `WebVTT` file; `?start=` is appended for ffmpeg streams
    /// that begin part-way through the file.
    pub url: String,
    pub name: String,
    /// RFC 5646 language code, or empty when unknown.
    pub language: String,
}

/// What an offered track holds.
pub struct TextTrackView {
    pub id: u32,
    pub url: Seq<char>,
    pub name: Seq<char>,
    pub language: Seq<char>,
}

impl View for TextTrack {
    type V = TextTrackView;

    open spec fn view(&self) -> TextTrackView {
        TextTrackView {
            id: self.id,
            url: self.url@,
            name: self.name@,
            language: self.language@,
        }
    }
}

impl Clone for TextTrack {
    fn clone(&self) -> (r: TextTrack)
        ensures
            r@ == self@,
    {
        TextTrack {
            id: self.id,
            url: self.url.clone(),
            name: self.name.clone(),
            language: self.language.clone(),
        }
    }
}

pub open spec fn text_track_views(tracks: Seq<TextTrack>) -> Seq<TextTrackView> {
    Seq::new(tracks.len(), |i: int| tracks[i]@)
}

/// One entry of the `tracks` array of a LOAD.
pub open spec fn track_entry(track: TextTrackView, at: Seconds, shown: Seq<char>) -> Json {
    let base = no_members().insert("trackId"@, Json::Integer(track.id as int)).insert(
        "type"@,
        Json::Text("TEXT"@),
    ).insert("subtype"@, Json::Text("SUBTITLES"@)).insert(
        "trackContentId"@,
        Json::Text(started(track.url, at, shown)),
    ).insert("trackContentType"@, Json::Text("text/vtt"@)).insert("name"@, Json::Text(track.name));
    Json::Object(
        if track.language.len() > 0 {
            base.insert("language"@, Json::Text(track.language))
        } else {
            base
        },
    )
}

/// How the receiver draws subtitles.
pub open spec fn track_style(font_scale: Json) -> Json {
    Json::Object(
        no_members().insert("backgroundColor"@, Json::Text("#00000066"@)).insert(
            "foregroundColor"@,
            Json::Text("#FFFFFFFF"@),
        ).insert("edgeType"@, Json::Text("OUTLINE"@)).insert(
            "edgeColor"@,
            Json::Text("#000000FF"@),
        ).insert("fontScale"@, font_scale).insert(
            "fontGenericFamily"@,
            Json::Text("SANS_SERIF"@),
        ),
    )
}

/// The `metadata` object; the receiver's echo of it is only understood with the
/// `images` in it.
pub open spec fn media_metadata(title: Seq<char>) -> Json {
    Json::Object(
        no_members().insert("metadataType"@, Json::Integer(0)).insert(
            "title"@,
            Json::Text(title),
        ).insert("images"@, Json::List(Seq::empty())),
    )
}

/// The `media` object of a LOAD request.
pub open spec fn media_object(
    content_id: Seq<char>,
    title: Seq<char>,
    duration: Option<Json>,
    tracks: Seq<TextTrackView>,
    at: Seconds,
    shown: Seq<char>,
    font_scale: Json,
) -> Json {
    let base = no_members().insert("contentId"@, Json::Text(content_id)).insert(
        "contentType"@,
        Json::Text("video/mp4"@),
    ).insert("streamType"@, Json::Text("BUFFERED"@)).insert("metadata"@, media_metadata(title));
    let timed = match duration {
        Some(d) => base.insert("duration"@, d),
        None => base,
    };
    Json::Object(
        if tracks.len() > 0 {
            timed.insert(
                "tracks"@,
                Json::List(Seq::new(tracks.len(), |i: int| track_entry(tracks[i], at, shown))),
            ).insert("textTrackStyle"@, track_style(font_scale))
        } else {
            timed
        },
    )
}

fn track_value(track: &TextTrack, start: &Mark) -> (r: Value)
    ensures
        tree(r) == track_entry(track@, start.at, start.shown@),
{
    let mut entry = object();
    put(&mut entry, "trackId", integer(track.id as i64));
    put(&mut entry, "type", string("TEXT"));
    put(&mut entry, "subtype", string("SUBTITLES"));
    put(&mut entry, "trackContentId", string(start_url(track.url.as_str(), start).as_str()));
    put(&mut entry, "trackContentType", string("text/vtt"));
    put(&mut entry, "name", string(track.name.as_str()));
    if !track.language.as_str().is_empty() {
        put(&mut entry, "language", string(track.language.as_str()));
    }
    entry
}

fn style_value(font_scale: Value) -> (r: Value)
    ensures
        tree(r) == track_style(tree(font_scale)),
{
    let mut style = object();
    put(&mut style, "backgroundColor", string("#00000066"));
    put(&mut style, "foregroundColor", string("#FFFFFFFF"));
    put(&mut style, "edgeType", string("OUTLINE"));
    put(&mut style, "edgeColor", string("#000000FF"));
    put(&mut style, "fontScale", font_scale);
    put(&mut style, "fontGenericFamily", string("SANS_SERIF"));
    style
}

/// The tree of an optional value.
pub open spec fn opt_tree(value: Option<Value>) -> Option<Json> {
    match value {
        Some(v) => Some(tree(v)),
        None => None,
    }
}

/// The `media` object of a LOAD request. `start` is where the stream begins;
/// the addresses of the subtitles follow it. The numbers with a fraction, the
/// duration and the font scale, come as JSON numbers.
pub fn media_payload(
    content_id: &str,
    title: &str,
    duration: Option<Value>,
    tracks: &Vec<TextTrack>,
    start: &Mark,
    font_scale: Value,
) -> (r: Value)
    ensures
        tree(r) == media_object(
            content_id@,
            title@,
            opt_tree(duration),
            text_track_views(tracks@),
            start.at,
            start.shown@,
            tree(font_scale),
        ),
{
    let mut metadata = object();
    put(&mut metadata, "metadataType", integer(0));
    put(&mut metadata, "title", string(title));
    let none: Vec<Value> = Vec::new();
    assert(trees(none@) =~= Seq::empty());
    put(&mut metadata, "images", array(none));
    let mut media = object();
    put(&mut media, "contentId", string(content_id));
    put(&mut media, "contentType", string("video/mp4"));
    put(&mut media, "streamType", string("BUFFERED"));
    put(&mut media, "metadata", metadata);
    if let Some(d) = duration {
        put(&mut media, "duration", d);
    }
    if tracks.len() > 0 {
        let mut entries: Vec<Value> = Vec::new();
        for i in 0..tracks.len()
            invariant
                entries@.len() == i,
                forall|j: int|
                    0 <= j < i ==> tree(#[trigger] entries@[j]) == track_entry(
                        tracks@[j]@,
                        start.at,
                        start.shown@,
                    ),
        {
            entries.push(track_value(&tracks[i], start));
        }
        assert(trees(entries@) =~= Seq::new(
            text_track_views(tracks@).len(),
            |i: int| track_entry(text_track_views(tracks@)[i], start.at, start.shown@),
        ));
        put(&mut media, "tracks", array(entries));
        put(&mut media, "textTrackStyle", style_value(font_scale));
    }
    media
}

/// A track of that number is among those offered.
pub open spec fn offered(tracks: Seq<TextTrackView>, id: u32) -> bool {
    exists|i: int| 0 <= i < tracks.len() && (#[trigger] tracks[i]).id == id
}

/// The active track, where it is one of those offered.
pub open spec fn shown_track(tracks: Seq<TextTrackView>, active: Option<u32>) -> Option<u32> {
    match active {
        Some(id) => if offered(tracks, id) {
            Some(id)
        } else {
            None
        },
        None => None,
    }
}

/// The active track, where it is one of those offered.
pub fn active_among(tracks: &Vec<TextTrack>, active: Option<u32>) -> (r: Option<u32>)
    ensures
        r == shown_track(text_track_views(tracks@), active),
{
    let id = match active {
        None => {
            return None;
        },
        Some(id) => id,
    };
    for i in 0..tracks.len()
        invariant
            active == Some(id),
            forall|j: int| 0 <= j < i ==> (#[trigger] text_track_views(tracks@)[j]).id != id,
    {
        if tracks[i].id == id {
            assert(text_track_views(tracks@)[i as int].id == id);
            return Some(id);
        }
    }
    None
}

/// A LOAD request.
pub open spec fn load_object(
    request_id: u32,
    session: Seq<char>,
    media: Json,
    current_time: Json,
    active: Option<u32>,
) -> Json {
    let base = no_members().insert("type"@, Json::Text("LOAD"@)).insert(
        "requestId"@,
        Json::Integer(request_id as int),
    ).insert("sessionId"@, Json::Text(session)).insert("media"@, media).insert(
        "autoplay"@,
        Json::Bool(true),
    ).insert("currentTime"@, current_time);
    Json::Object(
        match active {
            Some(id) => base.insert("activeTrackIds"@, Json::List(seq![Json::Integer(id as int)])),
            None => base,
        },
    )
}

/// A LOAD request for `media`, with the active one of `tracks` shown.
pub fn load_request(
    request_id: u32,
    session: &str,
    media: Value,
    current_time: Value,
    tracks: &Vec<TextTrack>,
    active: Option<u32>,
) -> (r: Value)
    ensures
        tree(r) == load_object(
            request_id,
            session@,
            tree(media),
            tree(current_time),
            shown_track(text_track_views(tracks@), active),
        ),
{
    let mut request = object();
    put(&mut request, "type", string("LOAD"));
    put(&mut request, "requestId", integer(request_id as i64));
    put(&mut request, "sessionId", string(session));
    put(&mut request, "media", media);
    put(&mut request, "autoplay", boolean(true));
    put(&mut request, "currentTime", current_time);
    if let Some(id) = active_among(tracks, active) {
        put(&mut request, "activeTrackIds", track_list(Some(id)));
    }
    request
}

/// The list of the shown tracks: one, or none.
pub open spec fn ids(active: Option<u32>) -> Seq<Json> {
    match active {
        Some(id) => seq![Json::Integer(id as int)],
        None => Seq::empty(),
    }
}

fn track_list(active: Option<u32>) -> (r: Value)
    ensures
        tree(r) == Json::List(ids(active)),
{
    let mut list: Vec<Value> = Vec::new();
    if let Some(id) = active {
        list.push(integer(id as i64));
    }
    assert(trees(list@) =~= ids(active));
    array(list)
}

/// An EDIT_TRACKS_INFO request, which switches the shown subtitle track.
pub open spec fn edit_object(request_id: u32, media_session_id: i32, active: Option<u32>) -> Json {
    Json::Object(
        no_members().insert("type"@, Json::Text("EDIT_TRACKS_INFO"@)).insert(
            "requestId"@,
            Json::Integer(request_id as int),
        ).insert("mediaSessionId"@, Json::Integer(media_session_id as int)).insert(
            "activeTrackIds"@,
            Json::List(ids(active)),
        ),
    )
}

/// An EDIT_TRACKS_INFO request, which switches the shown subtitle track.
pub fn edit_request(request_id: u32, media_session_id: i32, active: Option<u32>) -> (r: Value)
    ensures
        tree(r) == edit_object(request_id, media_session_id, active),
{
    let mut request = object();
    put(&mut request, "type", string("EDIT_TRACKS_INFO"));
    put(&mut request, "requestId", integer(request_id as i64));
    put(&mut request, "mediaSessionId", integer(media_session_id as i64));
    put(&mut request, "activeTrackIds", track_list(active));
    request
}

// ---------------------------------------------------------------------------
// Laws

/// A LOAD names the request and the session, holds the medium and the time to
/// start at as they are, plays at once, and shows the one active track, or none.
pub proof fn load_says_what_to_play(
    request_id: u32,
    session: Seq<char>,
    media: Json,
    current_time: Json,
    active: Option<u32>,
)
    ensures
        ({
            let load = load_object(request_id, session, media, current_time, active);
            &&& member(load, "type"@) == Some(Json::Text("LOAD"@))
            &&& member(load, "requestId"@) == Some(Json::Integer(request_id as int))
            &&& member(load, "sessionId"@) == Some(Json::Text(session))
            &&& member(load, "media"@) == Some(media)
            &&& member(load, "autoplay"@) == Some(Json::Bool(true))
            &&& member(load, "currentTime"@) == Some(current_time)
            &&& active is None ==> member(load, "activeTrackIds"@) is None
            &&& active matches Some(id) ==> list_of(member(load, "activeTrackIds"@)) == Some(
                seq![Json::Integer(id as int)],
            )
        }),
{
    reveal_strlit("type");
    reveal_strlit("requestId");
    reveal_strlit("sessionId");
    reveal_strlit("media");
    reveal_strlit("autoplay");
    reveal_strlit("currentTime");
    reveal_strlit("activeTrackIds");
    assert("type"@.len() == 4);
    assert("requestId"@.len() == 9);
    assert("sessionId"@.len() == 9);
    assert("media"@.len() == 5);
    assert("autoplay"@.len() == 8);
    assert("currentTime"@.len() == 11);
    assert("activeTrackIds"@.len() == 14);
    assert("requestId"@[0] != "sessionId"@[0]);
}

/// The medium that a receiver is told to load is the one at the address, an MP4
/// under its title, of the duration that is known; it has tracks and a style
/// for them only where there are some.
pub proof fn medium_is_described(
    content_id: Seq<char>,
    title: Seq<char>,
    duration: Option<Json>,
    tracks: Seq<TextTrackView>,
    at: Seconds,
    shown: Seq<char>,
    font_scale: Json,
)
    ensures
        ({
            let media = media_object(content_id, title, duration, tracks, at, shown, font_scale);
            &&& member(media, "contentId"@) == Some(Json::Text(content_id))
            &&& member(media, "contentType"@) == Some(Json::Text("video/mp4"@))
            &&& member(media, "streamType"@) == Some(Json::Text("BUFFERED"@))
            &&& member(media, "duration"@) == duration
            &&& member(media, "metadata"@) matches Some(metadata) && member(metadata, "title"@)
                == Some(Json::Text(title)) && member(metadata, "images"@) == Some(
                Json::List(Seq::empty()),
            ) && member(metadata, "metadataType"@) == Some(Json::Integer(0))
            &&& tracks.len() == 0 ==> member(media, "tracks"@) is None && member(
                media,
                "textTrackStyle"@,
            ) is None
            &&& tracks.len() > 0 ==> (member(media, "textTrackStyle"@) matches Some(style)
                && member(style, "fontScale"@) == Some(font_scale))
            &&& tracks.len() > 0 ==> (list_of(member(media, "tracks"@)) matches Some(entries)
                && entries.len() == tracks.len() && forall|i: int|
                0 <= i < tracks.len() ==> #[trigger] entries[i] == track_entry(
                    tracks[i],
                    at,
                    shown,
                ))
        }),
{
    reveal_strlit("contentId");
    reveal_strlit("contentType");
    reveal_strlit("streamType");
    reveal_strlit("metadata");
    reveal_strlit("duration");
    reveal_strlit("tracks");
    reveal_strlit("textTrackStyle");
    reveal_strlit("metadataType");
    reveal_strlit("title");
    reveal_strlit("images");
    reveal_strlit("edgeColor");
    reveal_strlit("fontScale");
    reveal_strlit("fontGenericFamily");
    assert("contentId"@.len() == 9);
    assert("contentType"@.len() == 11);
    assert("streamType"@.len() == 10);
    assert("metadata"@.len() == 8);
    assert("duration"@.len() == 8);
    assert("tracks"@.len() == 6);
    assert("textTrackStyle"@.len() == 14);
    assert("metadataType"@.len() == 12);
    assert("title"@.len() == 5);
    assert("images"@.len() == 6);
    assert("edgeColor"@.len() == 9);
    assert("fontScale"@.len() == 9);
    assert("fontGenericFamily"@.len() == 17);
    assert("contentId"@[0] != "edgeColor"@[0]);
    assert("contentId"@[0] != "fontScale"@[0]);
    assert("metadata"@[0] != "duration"@[0]);
    assert("tracks"@[0] != "images"@[0]);
    assert("edgeColor"@[0] != "fontScale"@[0]);
}

/// A track is offered under its own number, name and address, as subtitles in
/// WebVTT that begin where the stream does; a language is named only where it
/// is known.
pub proof fn track_is_described(track: TextTrackView, at: Seconds, shown: Seq<char>)
    ensures
        ({
            let entry = track_entry(track, at, shown);
            &&& member(entry, "trackId"@) == Some(Json::Integer(track.id as int))
            &&& member(entry, "type"@) == Some(Json::Text("TEXT"@))
            &&& member(entry, "subtype"@) == Some(Json::Text("SUBTITLES"@))
            &&& member(entry, "trackContentType"@) == Some(Json::Text("text/vtt"@))
            &&& member(entry, "name"@) == Some(Json::Text(track.name))
            &&& at.positive() ==> member(entry, "trackContentId"@) == Some(
                Json::Text(track.url + "?start="@ + shown),
            )
            &&& !at.positive() ==> member(entry, "trackContentId"@) == Some(Json::Text(track.url))
            &&& track.language.len() > 0 ==> member(entry, "language"@) == Some(
                Json::Text(track.language),
            )
            &&& track.language.len() == 0 ==> member(entry, "language"@) is None
        }),
{
    reveal_strlit("trackId");
    reveal_strlit("type");
    reveal_strlit("subtype");
    reveal_strlit("trackContentId");
    reveal_strlit("trackContentType");
    reveal_strlit("name");
    reveal_strlit("language");
    assert("trackId"@.len() == 7);
    assert("type"@.len() == 4);
    assert("subtype"@.len() == 7);
    assert("trackContentId"@.len() == 14);
    assert("trackContentType"@.len() == 16);
    assert("name"@.len() == 4);
    assert("language"@.len() == 8);
    assert("trackId"@[0] != "subtype"@[0]);
    assert("type"@[0] != "name"@[0]);
}

/// The active track is shown exactly where it is one of those offered.
pub proof fn only_offered_tracks_are_shown(
    tracks: Seq<TextTrackView>,
    active: Option<u32>,
    i: int,
)
    ensures
        shown_track(tracks, active) is Some ==> shown_track(tracks, active) == active,
        0 <= i < tracks.len() && active == Some(tracks[i].id) ==> shown_track(tracks, active)
            == active,
        shown_track(tracks, active) matches Some(id) ==> exists|k: int|
            0 <= k < tracks.len() && (#[trigger] tracks[k]).id == id,
{
}

/// A change of the subtitles is about the medium that is played, and names the
/// one track to show, or none.
pub proof fn edit_says_what_to_show(request_id: u32, media_session_id: i32, active: Option<u32>)
    ensures
        ({
            let edit = edit_object(request_id, media_session_id, active);
            &&& member(edit, "type"@) == Some(Json::Text("EDIT_TRACKS_INFO"@))
            &&& member(edit, "requestId"@) == Some(Json::Integer(request_id as int))
            &&& member(edit, "mediaSessionId"@) == Some(Json::Integer(media_session_id as int))
            &&& list_of(member(edit, "activeTrackIds"@)) matches Some(list) && (active is None
                ==> list.len() == 0) && (active matches Some(id) ==> list.len() == 1 && list[0]
                == Json::Integer(id as int))
        }),
{
    reveal_strlit("type");
    reveal_strlit("requestId");
    reveal_strlit("mediaSessionId");
    reveal_strlit("activeTrackIds");
    assert("type"@.len() == 4);
    assert("requestId"@.len() == 9);
    assert("mediaSessionId"@.len() == 14);
    assert("activeTrackIds"@.len() == 14);
    assert("mediaSessionId"@[0] != "activeTrackIds"@[0]);
}

/// ffprobe is always asked about the file itself, named last, and never says
/// more than errors; for the streams it answers in JSON, for packets it looks
/// at the picture between the two times.
pub proof fn ffprobe_is_asked_about_the_file(path: Seq<char>, from: Seq<char>, to: Seq<char>)
    ensures
        probe_view(path).last() == path,
        duration_view(path).last() == path,
        packets_view(path, from, to).last() == path,
        given(probe_view(path), "-v"@, "error"@),
        given(duration_view(path), "-v"@, "error"@),
        given(packets_view(path, from, to), "-v"@, "error"@),
        given(
            probe_view(path),
            "-show_entries"@,
            "stream=codec_type,codec_name,profile,level,channels"@,
        ),
        given(probe_view(path), "-of"@, "json"@),
        given(duration_view(path), "-of"@, "default=noprint_wrappers=1:nokey=1"@),
        given(packets_view(path, from, to), "-show_entries"@, "packet=pts_time,flags"@),
        given(packets_view(path, from, to), "-of"@, "csv=p=0"@),
        probe_view(path).len() == 7 && duration_view(path).len() == 7,
        packets_view(path, from, to).len() == 11,
        given(duration_view(path), "-show_entries"@, "format=duration"@),
        given(packets_view(path, from, to), "-select_streams"@, "v:0"@),
        given(packets_view(path, from, to), "-read_intervals"@, from + "%"@ + to),
{
    let asked = probe_view(path);
    assert(asked[0] == "-v"@ && asked[1] == "error"@);
    assert(asked[2] == "-show_entries"@ && asked[3]
        == "stream=codec_type,codec_name,profile,level,channels"@);
    assert(asked[4] == "-of"@ && asked[5] == "json"@);
    let length = duration_view(path);
    assert(length[0] == "-v"@ && length[1] == "error"@);
    assert(length[4] == "-of"@ && length[5] == "default=noprint_wrappers=1:nokey=1"@);
    let packets = packets_view(path, from, to);
    assert(packets[0] == "-v"@ && packets[1] == "error"@);
    assert(packets[4] == "-show_entries"@ && packets[5] == "packet=pts_time,flags"@);
    assert(packets[6] == "-of"@ && packets[7] == "csv=p=0"@);
    assert(duration_view(path)[2] == "-show_entries"@ && duration_view(path)[3]
        == "format=duration"@);
    assert(packets_view(path, from, to)[2] == "-select_streams"@ && packets_view(
        path,
        from,
        to,
    )[3] == "v:0"@);
    assert(packets_view(path, from, to)[8] == "-read_intervals"@ && packets_view(
        path,
        from,
        to,
    )[9] == from + "%"@ + to);
}

/// A stream that is wanted from the beginning starts there, and one that is
/// wanted from later on starts where it is wanted, where no keyframe is known
/// before that.
pub proof fn stream_starts_where_it_is_wanted(times: Seq<Seconds>, time: Seconds)
    ensures
        !time.positive() && time.not_after(Seconds { bits: 0 }) ==> stream_start(times, time)
            == (Seconds { bits: 0 }),
        time.positive() && times.len() == 0 ==> stream_start(times, time) == time,
{
}

/// A packet is a keyframe where its second field is marked so; the first one is
/// its time, and what follows them does not matter.
pub proof fn marked_packets_are_keyframes(time: Seq<char>, flags: Seq<char>, rest: Seq<char>)
    requires
        !time.contains(',') && !flags.contains(','),
    ensures
        has(flags, "K"@) ==> keyframe_field(time + seq![','] + flags) == Some(trimmed(time)),
        has(flags, "K"@) ==> keyframe_field(time + seq![','] + (flags + seq![','] + rest)) == Some(
            trimmed(time),
        ),
        !(has(flags, "K"@)) ==> keyframe_field(time + seq![','] + flags) is None && keyframe_field(
            time + seq![','] + (flags + seq![','] + rest),
        ) is None,
        keyframe_field(time) is None,
{
    crate::text::pieces_are_parted(time, ',', flags);
    crate::text::pieces_are_parted(flags, ',', rest);
    crate::text::pieces_are_parted(time, ',', flags + seq![','] + rest);
    let two = pieces(time + seq![','] + flags, ',');
    assert(two =~= seq![time, flags]);
    let more = pieces(time + seq![','] + (flags + seq![','] + rest), ',');
    assert(more[0] == time && more[1] == flags);
}

/// Subtitles are drawn in white with a black outline on a half transparent
/// ground, without serifs, and as large as they are wanted.
pub proof fn subtitles_are_drawn_to_be_read(font_scale: Json)
    ensures
        ({
            let style = track_style(font_scale);
            &&& member(style, "foregroundColor"@) == Some(Json::Text("#FFFFFFFF"@))
            &&& member(style, "backgroundColor"@) == Some(Json::Text("#00000066"@))
            &&& member(style, "edgeType"@) == Some(Json::Text("OUTLINE"@))
            &&& member(style, "edgeColor"@) == Some(Json::Text("#000000FF"@))
            &&& member(style, "fontGenericFamily"@) == Some(Json::Text("SANS_SERIF"@))
            &&& member(style, "fontScale"@) == Some(font_scale)
        }),
{
    reveal_strlit("backgroundColor");
    reveal_strlit("foregroundColor");
    reveal_strlit("edgeType");
    reveal_strlit("edgeColor");
    reveal_strlit("fontScale");
    reveal_strlit("fontGenericFamily");
    assert("backgroundColor"@.len() == 15);
    assert("foregroundColor"@.len() == 15);
    assert("edgeType"@.len() == 8);
    assert("edgeColor"@.len() == 9);
    assert("fontScale"@.len() == 9);
    assert("fontGenericFamily"@.len() == 17);
    assert("backgroundColor"@[0] != "foregroundColor"@[0]);
    assert("edgeColor"@[0] != "fontScale"@[0]);
}

/// A level is read whether ffprobe gives it as a number or in words, and it is
/// zero where it gives none; channels are counted as numbers alone.
pub proof fn levels_and_channels_are_read(level: i64, channels: u32, flag: bool)
    ensures
        level_of(Some(Json::Integer(level as int))) == level,
        level_of(Some(Json::Text(signed_decimal(level as int)))) == level,
        level_of(None) == 0 && level_of(Some(Json::Bool(flag))) == 0,
        level_of(Some(Json::Text(Seq::empty()))) == 0,
        channels_of(Some(Json::Integer(channels as int))) == channels,
        channels_of(None) == 0 && channels_of(Some(Json::Bool(flag))) == 0,
        channels_of(Some(Json::Integer(-1))) == 0,
{
    crate::number::signed_decimal_denotes(level as int);
    crate::number::signs_are_read(0, Seq::empty());
}

/// The plan says why the picture goes as it does: which codec passes through,
/// which one the receiver cannot decode, or that the level is too high for it.
pub proof fn plan_says_why(video: ProbeView, hevc: bool, streams: Seq<ProbeView>)
    ensures
        ({
            let (vcodec, reason) = video_plan(Some(video), hevc);
            let codec = video.codec_name;
            &&& vcodec == "copy"@ && codec != "hevc"@ ==> reason == codec + " passthrough"@
            &&& vcodec == "copy"@ && codec == "hevc"@ ==> reason
                == "hevc passthrough (device supports it)"@
            &&& vcodec != "copy"@ && codec != "h264"@ ==> reason == codec + " not supported"@
            &&& vcodec != "copy"@ && codec == "h264"@ ==> reason == "h264 level "@
                + signed_decimal(video.level as int) + " too high"@
        }),
        video_plan(None, hevc).1 == "unknown not supported"@,
        native_plan(streams).reason == "receiver decodes natively"@,
{
    reveal_strlit("copy");
    reveal_strlit("libx264");
    reveal_strlit("h264");
    reveal_strlit("hevc");
    reveal_strlit("vp8");
    reveal_strlit("vp9");
    assert("copy"@.len() == 4);
    assert("libx264"@.len() == 7);
    assert("h264"@.len() == 4);
    assert("hevc"@.len() == 4);
    assert("vp8"@.len() == 3);
    assert("vp9"@.len() == 3);
    assert("copy"@[0] != "h264"@[0]);
    assert("copy"@[0] != "hevc"@[0]);
    assert("h264"@[1] != "hevc"@[1]);
    assert("vp8"@[2] != "vp9"@[2]);
    reveal_strlit("h264 passthrough");
    reveal_strlit(" passthrough");
    assert("h264"@ + " passthrough"@ =~= "h264 passthrough"@);
}

} // verus!
