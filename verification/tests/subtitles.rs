use unicast::seconds::Seconds;
use unicast::subtitles::{
    describe_sidecar, discover, embedded, ffmpeg_args, format_timestamp, is_subtitle_file,
    language_lookup, number_tracks, parse_cue_timing, prettify, probe_args, shift_vtt, sidecars,
    subtitle_folders, text_streams, timestamp_parts, tokens, vtt_attempts, vtt_draft, vtt_path,
    vtt_step, CueTimes, VttEvent, VttStep,
    EmbeddedStream, SubtitleSource, SubtitleTrack,
};

fn strings(items: &[&str]) -> Vec<String> {
    items.iter().map(|item| item.to_string()).collect()
}

#[test]
fn sidecar_descriptions() {
    assert_eq!(describe_sidecar("", "Subtitles"), (String::new(), "Subtitles".to_string()));
    assert_eq!(describe_sidecar("en", "Subtitles"), ("en".to_string(), "English".to_string()));
    assert_eq!(
        describe_sidecar("eng.forced", "Subtitles"),
        ("en".to_string(), "English (forced)".to_string())
    );
    assert_eq!(
        describe_sidecar("2_English.SDH", "x"),
        ("en".to_string(), "English (SDH)".to_string())
    );
    assert_eq!(
        describe_sidecar("Director Commentary", &prettify("Director Commentary")),
        (String::new(), "Director Commentary".to_string())
    );
}

#[test]
fn flags_in_a_row_count_once() {
    assert_eq!(describe_sidecar("en.sdh.cc.forced", "x").1, "English (SDH, forced)");
    assert_eq!(describe_sidecar("en.sdh.forced.cc", "x").1, "English (SDH, forced, SDH)");
    assert_eq!(describe_sidecar("hi", "x"), ("hi".to_string(), "Hindi (SDH)".to_string()));
    assert_eq!(describe_sidecar("forced", "x"), (String::new(), "x (forced)".to_string()));
}

fn parse_timestamp(text: &str) -> Option<f64> {
    let parts = timestamp_parts(text)?;
    let mut seconds = 0.0;
    for part in &parts {
        let value: f64 = part.parse().ok()?;
        seconds = seconds * 60.0 + value;
    }
    Some(seconds)
}

fn milliseconds(seconds: f64) -> u64 {
    (seconds.max(0.0) * 1000.0).round() as u64
}

#[test]
fn timestamps() {
    assert_eq!(parse_timestamp("01:02:03.500"), Some(3723.5));
    assert_eq!(parse_timestamp("02:03.250"), Some(123.25));
    assert_eq!(parse_timestamp("nope"), None);
    assert_eq!(format_timestamp(milliseconds(3723.5)), "01:02:03.500");
    assert_eq!(format_timestamp(milliseconds(0.0)), "00:00:00.000");
    assert_eq!(format_timestamp(360_000_007), "100:00:00.007");
}

fn cue_times(line: &str, seconds: f64) -> Option<CueTimes> {
    let cue = parse_cue_timing(line)?;
    let start = parse_timestamp(&cue.start.join(":"))? - seconds;
    let end = parse_timestamp(&cue.end.join(":"))? - seconds;
    Some(CueTimes {
        start: Seconds { bits: start.to_bits() },
        end: Seconds { bits: end.to_bits() },
        start_ms: milliseconds(start),
        end_ms: milliseconds(end),
    })
}

fn shift(text: &str, seconds: f64) -> String {
    let times: Vec<Option<CueTimes>> =
        text.lines().map(|line| cue_times(line, seconds)).collect();
    shift_vtt(text, Seconds { bits: seconds.to_bits() }, &times)
}

#[test]
fn shifting_cues() {
    let vtt = "WEBVTT\n\nNOTE made up\n\n1\n00:00:05.000 --> 00:00:08.000\nGone\n\n2\n00:00:08.000 --> 00:00:12.000 line:90%\nClamped\n\n00:00:20.000 --> 00:00:25.000\nShifted\n";
    let shifted = shift(vtt, 10.0);
    assert!(shifted.starts_with("WEBVTT\n\nNOTE made up\n\n"));
    assert!(!shifted.contains("Gone"));
    assert!(!shifted.contains("\n1\n"));
    assert!(shifted.contains("2\n00:00:00.000 --> 00:00:02.000 line:90%\nClamped\n"));
    assert!(shifted.contains("00:00:10.000 --> 00:00:15.000\nShifted\n"));
    assert_eq!(shift(vtt, 0.0), vtt);
    assert_eq!(
        shifted,
        "WEBVTT\n\nNOTE made up\n\n2\n00:00:00.000 --> 00:00:02.000 line:90%\nClamped\n\n00:00:10.000 --> 00:00:15.000\nShifted\n"
    );
}

#[test]
fn text_without_cues_is_kept() {
    assert_eq!(shift("WEBVTT\r\n \nNOTE a\nb", 5.0), "WEBVTT\n\nNOTE a\nb\n");
    assert_eq!(shift("00:01.000 --> 00:02.000\nGone", 5.0), "");
}

#[test]
fn a_straddling_cue_is_clamped() {
    assert_eq!(shift("00:01.000 --> 00:09.000\nx\n", 4.0), "00:00:00.000 --> 00:00:05.000\nx\n");
    assert_eq!(shift("00:04.000 --> 00:04.000\nx\n", 4.0), "");
    assert_eq!(shift("00:0x.000 --> 00:09.000\nx\n", 4.0), "00:0x.000 --> 00:09.000\nx\n");
    let odd = vec![Some(CueTimes {
        start: Seconds { bits: (-3.0f64).to_bits() },
        end: Seconds { bits: 5.0f64.to_bits() },
        start_ms: 77,
        end_ms: 5000,
    })];
    let four = Seconds { bits: 4.0f64.to_bits() };
    assert_eq!(
        shift_vtt("00:01.000 --> 00:09.000", four, &odd),
        "00:00:00.000 --> 00:00:05.000\n"
    );
    assert_eq!(shift_vtt("no timing", four, &odd), "no timing\n");
}

#[test]
fn cue_timings() {
    let cue = parse_cue_timing("00:08.000 -->  00:12.000\tline:90%  align:left ").expect("a cue");
    assert_eq!(cue.start, vec!["00", "08.000"]);
    assert_eq!(cue.end, vec!["00", "12.000"]);
    assert_eq!(cue.settings, "line:90%  align:left");
    let cue = parse_cue_timing("1:2:3 --> 4:5:6").expect("a cue");
    assert_eq!(cue.settings, "");
    assert!(parse_cue_timing("00:08.000 -> 00:12.000").is_none());
    assert!(parse_cue_timing("8 --> 12").is_none());
}

#[test]
fn discovers_sidecars() {
    let beside = strings(&[
        "/m/Movie.2024.mkv",
        "/m/Movie.2024.srt",
        "/m/Movie.2024.es.srt",
        "/m/Other.srt",
    ]);
    let folders = vec![strings(&["/m/Subs/3_French.srt"])];
    let found = sidecars("/m/Movie.2024.mkv", &beside, &folders);
    let labels: Vec<&str> = found.iter().map(|(_, label, _)| label.as_str()).collect();
    assert_eq!(labels, vec!["Spanish", "Subtitles", "French"]);
    assert_eq!(found[0].2, "es");
    assert_eq!(found[2].2, "fr");
}

#[test]
fn folders_come_in_order() {
    assert_eq!(
        subtitle_folders("/m"),
        vec!["/m/Subs", "/m/subs", "/m/Subtitles", "/m/subtitles"]
    );
    let folders = vec![strings(&["/m/Subs/b.srt", "/m/Subs/a.VTT", "/m/Subs/x.txt"]), Vec::new()];
    let found = sidecars("/m/x.mkv", &Vec::new(), &folders);
    assert_eq!(found.len(), 2);
    assert_eq!(found[0].0, "/m/Subs/a.VTT");
    assert_eq!(found[1].1, "B");
    assert!(is_subtitle_file("/m/a.SSA"));
    assert!(!is_subtitle_file("/m/srt"));
}

const REPORT: &str = "{\"streams\": [\
    {\"index\": 2, \"codec_name\": \"subrip\", \"tags\": {\"language\": \"eng\", \"title\": \"english\"}},\
    {\"index\": 3, \"codec_name\": \"ass\", \"tags\": {\"language\": \"spa\", \"title\": \"Signs\"}},\
    {\"index\": 4, \"codec_name\": \"hdmv_pgs_subtitle\"},\
    {\"index\": 5, \"codec_name\": \" MOV_TEXT \"},\
    {\"index\": 4294967296, \"codec_name\": \"text\"},\
    {\"codec_name\": \"webvtt\"}]}";

#[test]
fn embedded_streams() {
    let streams = embedded(Some(REPORT.as_bytes()));
    let indices: Vec<u32> = streams.iter().map(|stream| stream.index).collect();
    assert_eq!(indices, vec![2, 3, 5]);
    assert_eq!(streams[0].language, "eng");
    assert_eq!(streams[1].title, "Signs");
    assert!(embedded(None).is_empty());
    assert!(embedded(Some(b"{")).is_empty());
}

#[test]
fn tracks_are_numbered_sidecars_first() {
    let beside = strings(&["/m/a.srt"]);
    let tracks = discover("/m/a.mkv", &beside, &Vec::new(), Some(REPORT.as_bytes()));
    let shown: Vec<(u32, &str, &str)> = tracks
        .iter()
        .map(|track| (track.id, track.label.as_str(), track.language.as_str()))
        .collect();
    assert_eq!(
        shown,
        vec![
            (1, "Subtitles", ""),
            (2, "English", "en"),
            (3, "Spanish (Signs)", "es"),
            (4, "Track 5", ""),
        ]
    );
    assert_eq!(tracks[0].source, SubtitleSource::Sidecar("/m/a.srt".to_string()));
    assert_eq!(tracks[1].source, SubtitleSource::Embedded { stream_index: 2 });
    assert!(number_tracks(Vec::new(), Vec::new()).is_empty());
    let one = number_tracks(
        Vec::new(),
        vec![EmbeddedStream { index: 0, language: String::new(), title: "x".to_string() }],
    );
    assert_eq!(one[0].label, "Track 0 (x)");
}

#[test]
fn languages() {
    assert_eq!(language_lookup("ENG"), Some(("en", "English")));
    assert_eq!(language_lookup("Español"), Some(("es", "Spanish")));
    assert_eq!(language_lookup("français"), Some(("fr", "French")));
    assert_eq!(language_lookup("português"), Some(("pt", "Portuguese")));
    assert_eq!(language_lookup("farsi"), Some(("fa", "Persian")));
    assert_eq!(language_lookup("nob"), Some(("no", "Norwegian")));
    assert_eq!(language_lookup("klingon"), None);
    assert_eq!(language_lookup(""), None);
}

#[test]
fn words_of_names() {
    assert_eq!(tokens("2_English--SDH é"), vec!["2", "english", "sdh", "é"]);
    assert!(tokens("._- ").is_empty());
    assert_eq!(prettify("3_éa-ENGLISH 12"), "Éa English");
    assert_eq!(prettify("12"), "Subtitles");
    assert_eq!(prettify("ßa"), "SSa");
}

fn track(source: SubtitleSource) -> SubtitleTrack {
    SubtitleTrack { id: 3, label: String::new(), language: String::new(), source }
}

#[test]
fn conversions() {
    assert_eq!(
        ffmpeg_args("/a.srt", None, Some("ISO-8859-1")),
        vec![
            "-nostdin",
            "-y",
            "-loglevel",
            "error",
            "-sub_charenc",
            "ISO-8859-1",
            "-i",
            "/a.srt",
            "-f",
            "webvtt",
        ]
    );
    let inner = track(SubtitleSource::Embedded { stream_index: 4 });
    let attempts = vtt_attempts(&inner, "/m.mkv");
    assert_eq!(attempts.len(), 1);
    assert_eq!(attempts[0][4..8], ["-i", "/m.mkv", "-map", "0:4"]);
    let outer = track(SubtitleSource::Sidecar("/m.srt".to_string()));
    let attempts = vtt_attempts(&outer, "/m.mkv");
    assert_eq!(attempts.len(), 2);
    assert_eq!(attempts[0][5], "/m.srt");
    assert_eq!(attempts[1][5], "ISO-8859-1");
    assert_eq!(vtt_path(&outer, "/d"), "/d/3.vtt");
    assert_eq!(vtt_draft(&outer, "/d"), "/d/3.vtt.part");
    assert_eq!(probe_args("/m.mkv")[5], "stream=index,codec_name:stream_tags=language,title");
}

#[test]
fn text_streams_of_a_report() {
    let report = "{\"streams\":[{\"index\":2,\"codec_name\":\"SubRip\",\"tags\":{\"language\":\"fre\"}},{\"index\":3,\"codec_name\":\"dvd_subtitle\"}]}";
    let read: serde_json::Value = serde_json::from_str(report).expect("a report");
    let found = text_streams(&read);
    assert_eq!(found.len(), 1);
    assert_eq!((found[0].index, found[0].language.as_str()), (2, "fre"));
    assert!(text_streams(&serde_json::Value::Null).is_empty());
}

#[test]
fn shifting_twice_is_shifting_by_the_sum() {
    let vtt = "WEBVTT\r\n\nNOTE x\n\n1\n00:00:05.000 --> 00:00:08.000\na\n\n2\n00:04.000 --> 00:12.000 line:90%\nb\n\n00:00:20.000 --> 01:00:25.000\nc\n--\n\n";
    for (a, b) in [(1.0, 2.0), (5.0, 4.0), (3.0, 9.0), (10.0, 10.0), (1.0, 4000.0)] {
        assert_eq!(shift(&shift(vtt, a), b), shift(vtt, a + b));
    }
    let returns = "WEBVTT\r\n\r\n1\r\n00:00:01.000 --> 00:00:02.000\r\ngone\r\r\n\r\r\n2\r\n00:00:05.000 --> 00:00:09.000\r\r\nkept\r\n\r\n";
    for (a, b) in [(1.0, 1.0), (3.0, 1.0), (2.0, 7.0)] {
        assert_eq!(shift(&shift(returns, a), b), shift(returns, a + b));
    }
    assert_ne!(shift(&shift("a\r\r\n", 1.0), 1.0), shift("a\r\r\n", 2.0));
}

#[test]
fn each_language_is_one() {
    for word in ["deutsch", "ger", "fas", "pt", "Norwegian", "espa\u{f1}ol", "zho"] {
        let (code, name) = language_lookup(word).expect("a language");
        assert_eq!(code.len(), 2);
        assert_eq!(language_lookup(code), Some((code, name)));
        assert_eq!(language_lookup(name), Some((code, name)));
        assert_eq!(language_lookup(&word.to_uppercase()), Some((code, name)));
    }
}

#[test]
fn conversions_are_tried_in_turn() {
    let attempts = vec![strings(&["a"]), strings(&["b"])];
    let run = |tried: usize, event: VttEvent| match vtt_step(&attempts, tried, event) {
        VttStep::Run(args) => args.join(" "),
        VttStep::Move => "move".to_string(),
        VttStep::Done => "done".to_string(),
        VttStep::Failed(reason) => reason.to_string(),
    };
    assert_eq!(run(0, VttEvent::Begun), "a");
    assert_eq!(run(1, VttEvent::Ran { success: true, size: Some(3) }), "move");
    assert_eq!(run(1, VttEvent::Ran { success: true, size: Some(0) }), "b");
    assert_eq!(run(1, VttEvent::Ran { success: true, size: None }), "b");
    assert_eq!(run(1, VttEvent::Ran { success: false, size: Some(3) }), "b");
    assert_eq!(run(1, VttEvent::Moved { success: true }), "done");
    assert_eq!(run(1, VttEvent::Moved { success: false }), "b");
    assert_eq!(
        run(2, VttEvent::Ran { success: false, size: None }),
        "ffmpeg could not convert the subtitle track"
    );
}
