use unicast::media_server::{
    bind_refusal, bind_step, bitrate_is_usable, constant_time_eq, ffmpeg_args, file_plan,
    file_response, forbidden, head_response, live_head_response, parse_range, parse_start_query,
    preflight, route, subtitle_head, subtitle_response, transcode_head, wanted_start, BindStep,
    FilePlan, Head, Method, Route, ServeOptions, TranscodeContainer, TranscodePlan,
};
use unicast::seconds::{Mark, Seconds};
use unicast::subtitles::{SubtitleSource, SubtitleTrack};

fn header<'a>(head: &'a Head, name: &str) -> Option<&'a str> {
    head.headers.iter().find(|(key, _)| key.as_str() == name).map(|(_, value)| value.as_str())
}

fn options(allow: &[&str], tracks: &[u32]) -> ServeOptions {
    ServeOptions {
        file: "/m/sample.mp4".to_string(),
        token: "tok".to_string(),
        allow: allow.iter().map(|ip| ip.to_string()).collect(),
        transcode: None,
        content_type: "video/mp4".to_string(),
        subtitles: tracks
            .iter()
            .map(|id| SubtitleTrack {
                id: *id,
                label: format!("Track {id}"),
                language: "en".to_string(),
                source: SubtitleSource::Sidecar(format!("/m/side-{id}.srt")),
            })
            .collect(),
        subtitle_dir: "/tmp/vtt".to_string(),
    }
}

fn plan(gain_db: i32, channels: u32) -> TranscodePlan {
    TranscodePlan {
        vcodec: "copy".to_string(),
        acodec: "copy".to_string(),
        gain_db,
        channels,
        container: TranscodeContainer::FragmentedMp4,
    }
}

#[test]
fn boost_filters() {
    assert_eq!(plan(0, 6).audio_filter(), None);
    assert_eq!(
        plan(6, 2).audio_filter().as_deref(),
        Some("volume=6dB,alimiter=limit=0.95:level=disabled")
    );
    let surround = plan(12, 6).audio_filter().expect("filter");
    assert!(surround.starts_with("pan=stereo|"));
    assert!(surround.ends_with(",volume=12dB,alimiter=limit=0.95:level=disabled"));
    assert_eq!(plan(-6, 6).audio_filter(), None);
}

#[test]
fn ranges() {
    assert_eq!(parse_range("0-99", 1000), Some((0, 99)));
    assert_eq!(parse_range("100-", 1000), Some((100, 999)));
    assert_eq!(parse_range("-100", 1000), Some((900, 999)));
    assert_eq!(parse_range("abc-", 1000), None);
    assert_eq!(parse_range("0-abc", 1000), None);
    assert_eq!(parse_range("5", 1000), None);
    assert_eq!(parse_range("-2000", 1000), Some((0, 999)));
    assert_eq!(parse_range("-", 1000), None);
    assert_eq!(parse_range("0-", 0), Some((0, 0)));
    assert_eq!(parse_range("99999999999999999999-", 1000), None);
}

fn get(range: Option<&str>) -> Head {
    file_response("video/mp4", file_plan(range, 1000), 1000)
}

#[test]
fn files_and_ranges_are_answered() {
    let options = options(&[], &[]);
    assert_eq!(route(&options, "127.0.0.1", "tok", "sample.mp4", Method::Get), Route::Media);
    let full = get(None);
    assert_eq!(full.status, 200);
    assert_eq!(header(&full, "content-length"), Some("1000"));
    assert_eq!(header(&full, "accept-ranges"), Some("bytes"));
    assert_eq!(header(&full, "access-control-allow-origin"), Some("*"));
    assert!(header(&full, "contentFeatures.dlna.org").is_some());
    assert!(header(&full, "transferMode.dlna.org").is_some());
    assert_eq!(header(&full, "content-range"), None);
    assert_eq!(
        file_plan(None, 1000),
        FilePlan::Send { start: 0, end: 999, partial: false }
    );

    let part = get(Some("bytes=10-19"));
    assert_eq!(part.status, 206);
    assert_eq!(header(&part, "content-range"), Some("bytes 10-19/1000"));
    assert_eq!(header(&part, "content-length"), Some("10"));

    let suffix = get(Some("bytes=-5"));
    assert_eq!(suffix.status, 206);
    assert_eq!(header(&suffix, "content-range"), Some("bytes 995-999/1000"));

    let beyond = get(Some("bytes=2000-"));
    assert_eq!(beyond.status, 416);
    assert_eq!(header(&beyond, "content-range"), Some("bytes */1000"));
    assert_eq!(header(&beyond, "content-length"), Some("0"));

    assert_eq!(route(&options, "127.0.0.1", "tok", "sample.mp4", Method::Head), Route::MediaHead);
    let head = head_response("video/mp4", 1000);
    assert_eq!(head.status, 200);
    assert_eq!(header(&head, "content-length"), Some("1000"));

    assert_eq!(route(&options, "127.0.0.1", "tok", "sample.mp4", Method::Options), Route::Preflight);
    let asked = preflight();
    assert_eq!(asked.status, 204);
    assert!(header(&asked, "access-control-allow-methods").expect("methods").contains("GET"));

    assert_eq!(route(&options, "127.0.0.1", "nope", "sample.mp4", Method::Get), Route::Forbidden);
    assert_eq!(forbidden().status, 403);
    assert_eq!(route(&options, "127.0.0.1", "tok", "x", Method::Other), Route::NotImplemented);
}

#[test]
fn odd_ranges() {
    let whole = FilePlan::Send { start: 0, end: 999, partial: false };
    assert_eq!(file_plan(Some("bytes=0-1,5-6"), 1000), whole);
    assert_eq!(file_plan(Some("items=0-1"), 1000), whole);
    assert_eq!(file_plan(Some("bytes=x-1"), 1000), whole);
    assert_eq!(
        file_plan(Some("bytes=990-5000"), 1000),
        FilePlan::Send { start: 990, end: 999, partial: true }
    );
    assert_eq!(file_plan(Some("bytes=20-10"), 1000), FilePlan::Unsatisfiable);
    assert_eq!(file_plan(None, 0), FilePlan::Unsatisfiable);
    assert_eq!(file_plan(Some("bytes=-5"), 0), FilePlan::Unsatisfiable);
}

#[test]
fn subtitles_are_answered() {
    let options = options(&[], &[1, 4]);
    let at = |rest: &str, method| route(&options, "127.0.0.1", "tok", rest, method);
    assert_eq!(at("sub/1.vtt", Method::Get), Route::Subtitle(0));
    assert_eq!(at("sub/4.vtt", Method::Get), Route::Subtitle(1));
    assert_eq!(at("sub/9.vtt", Method::Get), Route::NoSubtitle);
    assert_eq!(at("sub/1.srt", Method::Get), Route::NoSubtitle);
    assert_eq!(at("sub/x.vtt", Method::Get), Route::NoSubtitle);
    assert_eq!(at("sub/1.vtt", Method::Head), Route::SubtitleHead);
    assert_eq!(at("sub/1.vtt", Method::Other), Route::NotImplemented);
    let head = subtitle_response("WEBVTT é");
    assert_eq!(head.status, 200);
    assert_eq!(header(&head, "content-length"), Some("9"));
    assert_eq!(header(&head, "content-type"), Some("text/vtt; charset=utf-8"));
    assert_eq!(header(&head, "cache-control"), Some("no-store"));
    assert_eq!(header(&head, "access-control-allow-origin"), Some("*"));
    assert_eq!(header(&subtitle_head(), "content-length"), None);
}

#[test]
fn only_listed_clients_are_served() {
    let options = options(&["10.9.9.9"], &[]);
    assert_eq!(route(&options, "127.0.0.1", "tok", "sample.mp4", Method::Get), Route::Forbidden);
    assert_eq!(route(&options, "10.9.9.9", "tok", "sample.mp4", Method::Get), Route::Media);
    assert_eq!(route(&options, "10.9.9.9", "tik", "sample.mp4", Method::Get), Route::Forbidden);
    assert_eq!(route(&options, "10.9.9.9", "tok", "x", Method::Options), Route::Preflight);
}

#[test]
fn tokens_are_compared_whole() {
    assert!(constant_time_eq("", ""));
    assert!(constant_time_eq("abc", "abc"));
    assert!(!constant_time_eq("abc", "abd"));
    assert!(!constant_time_eq("abc", "ab"));
    assert!(!constant_time_eq("é", "e"));
}

#[test]
fn addresses_to_listen_on() {
    assert_eq!(
        bind_refusal(None),
        Some("refusing to bind without an explicit IPv4 LAN address")
    );
    assert_eq!(bind_refusal(Some(0)), Some("refusing to bind 0.0.0.0"));
    assert_eq!(bind_refusal(Some(0x0a00_0005)), None);
}

#[test]
fn starts_in_queries() {
    assert_eq!(parse_start_query("start=12.5"), Some("12.5".to_string()));
    assert_eq!(parse_start_query("a=b&x&start=1&start=2"), Some("1".to_string()));
    assert_eq!(parse_start_query("restart=1"), None);
    assert_eq!(parse_start_query(""), None);
    let at = |seconds: f64| Seconds { bits: seconds.to_bits() };
    assert_eq!(wanted_start(Some(at(2.5))), Some(at(2.5)));
    assert_eq!(wanted_start(Some(at(0.0))), None);
    assert_eq!(wanted_start(Some(at(-1.0))), None);
    assert_eq!(wanted_start(Some(at(f64::NAN))), None);
    assert_eq!(wanted_start(Some(at(f64::INFINITY))), None);
    assert_eq!(wanted_start(None), None);
}

#[test]
fn live_heads() {
    let ts = transcode_head(TranscodeContainer::MpegTs);
    assert_eq!(header(&ts, "content-length"), Some("999999999999"));
    assert_eq!(header(&ts, "content-type"), Some("video/mpeg"));
    assert_eq!(header(&ts, "accept-ranges"), Some("none"));
    assert_eq!(header(&ts, "connection"), Some("close"));
    assert!(header(&ts, "contentFeatures.dlna.org").expect("features").contains("DLNA.ORG_CI=1"));
    let mp4 = live_head_response(TranscodeContainer::FragmentedMp4, "video/mp4");
    assert_eq!(header(&mp4, "content-length"), None);
    assert_eq!(header(&mp4, "content-type"), Some("video/mp4"));
    assert_eq!(TranscodeContainer::MpegTs.extension(), "ts");
    assert_eq!(TranscodeContainer::FragmentedMp4.extension(), "mp4");
}

#[test]
fn ffmpeg_is_told_to_copy() {
    let args = ffmpeg_args("/m/a.mkv", &plan(0, 2), None, None);
    assert_eq!(
        args,
        vec![
            "-nostdin",
            "-loglevel",
            "error",
            "-i",
            "/m/a.mkv",
            "-map",
            "0:v:0",
            "-map",
            "0:a:0?",
            "-c:v",
            "copy",
            "-c:a",
            "copy",
            "-movflags",
            "frag_keyframe+empty_moov+default_base_moof",
            "-f",
            "mp4",
            "pipe:1",
        ]
    );
}

#[test]
fn ffmpeg_is_told_to_encode() {
    let plan = TranscodePlan {
        vcodec: "libx264".to_string(),
        acodec: "aac".to_string(),
        gain_db: 0,
        channels: 6,
        container: TranscodeContainer::MpegTs,
    };
    let start = Mark { at: Seconds { bits: 12.5_f64.to_bits() }, shown: "12.500".to_string() };
    let args = ffmpeg_args("/m/a.mkv", &plan, Some(&start), Some("4000"));
    let line = args.join(" ");
    assert!(line.starts_with("-nostdin -loglevel error -ss 12.500 -i /m/a.mkv "));
    assert!(line.contains("-vf scale='min(1920,iw)':-2 -c:v libx264 -preset veryfast -profile:v high -pix_fmt yuv420p -b:v 4000k -maxrate 4000k -bufsize 8000k"));
    assert!(line.contains("-c:a aac -b:a 192k -ac 2"));
    assert!(line.ends_with("-f mpegts pipe:1"));
    let odd = ffmpeg_args("/m/a.mkv", &plan, None, Some("fast")).join(" ");
    assert!(odd.contains("-b:v fastk -maxrate fastk -bufsize 12000k"));
}

#[test]
fn boosted_sound_is_encoded() {
    let args = ffmpeg_args("/m/a.mkv", &plan(6, 2), None, None).join(" ");
    assert!(args.contains(
        "-c:v copy -af volume=6dB,alimiter=limit=0.95:level=disabled -c:a aac -b:a 192k -ac 2"
    ));
}

#[test]
fn bit_rates_that_can_be_doubled() {
    assert!(bitrate_is_usable(None));
    assert!(bitrate_is_usable(Some("x")));
    assert!(bitrate_is_usable(Some("9223372036854775807")));
    assert!(!bitrate_is_usable(Some("9223372036854775808")));
}

#[test]
fn tries_to_get_the_address() {
    assert_eq!(bind_step(1, true), BindStep::Listen);
    assert_eq!(bind_step(1, false), BindStep::TryAgain);
    assert_eq!(bind_step(29, false), BindStep::TryAgain);
    assert_eq!(bind_step(30, false), BindStep::GiveUp);
    assert_eq!(bind_step(30, true), BindStep::Listen);
}
