use unicast::cast::CodecPlan;
use unicast::daemon::{
    add_ip, boost_failure, boost_set, cache_is_fresh, connect_again, deps, dispatch, keep_waiting,
    moved, multicast_is_valid, mute_set, parse_bool, pause, plain_ok, plan_stream,
    preferred_subtitle, remember, remove_ip, restarted, restream, resume, seek, serve_options,
    serve_plan, set_boost, set_mute, set_subtitle, set_volume, status, stream_url, subtitle_for,
    subtitle_set, target, volume_set, wanted_position, BoostPlan, Command, Event, Live, PositionOffset, Restream, SeekHow, SeekPlan,
    ServeContext, Target,
};
use unicast::media_server::TranscodeContainer;
use unicast::protocol::{error_response, Device, Request};
use unicast::seconds::{start_url, Mark, Seconds};
use unicast::state::{Session, SessionState};
use unicast::subtitles::{SubtitleSource, SubtitleTrack};

fn at(seconds: f64) -> Seconds {
    Seconds { bits: seconds.to_bits() }
}

fn device(protocol: &str) -> Device {
    Device {
        name: "TV".to_string(),
        host: "tv".to_string(),
        ip: "10.0.0.9".to_string(),
        port: 0,
        protocol: protocol.to_string(),
        model: "LG webOS".to_string(),
        id: String::new(),
        control_url: None,
        rendering_url: None,
        alternates: Vec::new(),
    }
}

fn track(id: u32, language: &str) -> SubtitleTrack {
    SubtitleTrack {
        id,
        label: format!("Track {id}"),
        language: language.to_string(),
        source: SubtitleSource::Embedded { stream_index: id },
    }
}

fn session(protocol: &str, state: SessionState) -> Session {
    let mut session = Session::new_id(7);
    session.protocol = protocol.to_string();
    session.state = state;
    session.subtitles = vec![track(1, "en"), track(2, "es"), track(3, "")];
    session
}

const ALL: Live = Live { cast: true, dlna: true, airplay: true, rendering: true, transcode: false };
const NOTHING: Live =
    Live { cast: false, dlna: false, airplay: false, rendering: false, transcode: false };

fn request(cmd: &str) -> Request {
    Request {
        cmd: cmd.to_string(),
        ip: None,
        file: None,
        value: None,
        position: None,
        force: false,
    }
}

const H264: &[u8] = b"{\"streams\": [{\"codec_type\": \"video\", \"codec_name\": \"h264\"}, \
    {\"codec_type\": \"audio\", \"codec_name\": \"aac\", \"channels\": 6}]}";

#[test]
fn a_plain_file_is_served_directly() {
    let plan = serve_plan(&device("cast"), "/m/My Movie.mp4", "tok", 0, Some(H264));
    assert!(plan.transcode.is_none());
    assert_eq!(plan.endpoint, "tok/My%20Movie%2Emp4");
    assert_eq!(plan.content_type, "video/mp4");
    assert!(!plan.exact_seek);
    let plan = serve_plan(&device("dlna"), "/m/é.mkv", "tok", 0, Some(H264));
    assert_eq!(plan.endpoint, "tok/%C3%A9%2Emkv");
    assert_eq!(plan.mime_for_dlna("/m/é.mkv"), "video/x-matroska");
    let plan = serve_plan(&device("airplay"), "/m/a.avi", "tok", 0, None);
    assert!(plan.transcode.is_none());
}

#[test]
fn other_files_go_through_ffmpeg() {
    let plan = serve_plan(&device("cast"), "/m/a.mkv", "tok", 0, Some(H264));
    let transcode = plan.transcode.as_ref().expect("ffmpeg");
    assert_eq!(transcode.container, TranscodeContainer::FragmentedMp4);
    assert_eq!((transcode.vcodec.as_str(), transcode.channels), ("copy", 6));
    assert_eq!(plan.endpoint, "tok/stream.mp4");
    assert!(!plan.exact_seek);
    let plan = serve_plan(&device("dlna"), "/m/a.mkv", "tok", 6, Some(H264));
    let transcode = plan.transcode.as_ref().expect("ffmpeg");
    assert_eq!((transcode.container, transcode.gain_db), (TranscodeContainer::MpegTs, 6));
    assert_eq!(plan.endpoint, "tok/stream.ts");
    assert_eq!(plan.content_type, "video/mpeg");
    assert_eq!(plan.mime_for_dlna("/m/a.mkv"), "video/mpeg");
    let plan = serve_plan(&device("cast"), "/m/a.mp4", "tok", 0, None);
    assert!(plan.exact_seek);
}

#[test]
fn plans_from_codecs() {
    let codec = CodecPlan {
        vcodec: "copy".to_string(),
        acodec: "aac".to_string(),
        channels: 2,
        reason: String::new(),
    };
    let plan = plan_stream(codec, "cast", "/m/a.mp4", "tok", 0);
    assert_eq!(plan.transcode.expect("ffmpeg").acodec, "aac");
}

fn context(transcode: bool, exact_seek: bool) -> ServeContext {
    ServeContext {
        device: device("dlna"),
        ip: "10.0.0.9".to_string(),
        path: "/m/a.mkv".to_string(),
        bind: "10.0.0.2".to_string(),
        port: 60020,
        token: "tok".to_string(),
        title: "a".to_string(),
        duration: Some(at(60.0)),
        subtitles: vec![track(4, "en")],
        url: "http://10.0.0.2:60020/tok/a".to_string(),
        content_type: "video/mpeg".to_string(),
        transcode,
        exact_seek,
    }
}

#[test]
fn contexts() {
    let plan = serve_plan(&device("dlna"), "/m/a.mkv", "tok", 6, None);
    let url = stream_url("10.0.0.2", 60020, &plan.endpoint);
    assert_eq!(url, "http://10.0.0.2:60020/tok/stream.ts");
    let moved = context(false, false).with_stream(url.clone(), &plan);
    assert_eq!((moved.url, moved.transcode, moved.exact_seek), (url, true, false));
    assert_eq!(moved.content_type, "video/mpeg");
    assert_eq!(context(true, false).mime_for_dlna(), "video/mpeg");
    assert_eq!(context(false, false).mime_for_dlna(), "video/x-matroska");
    let tracks = context(true, true).text_tracks();
    assert_eq!(tracks[0].url, "http://10.0.0.2:60020/tok/sub/4.vtt");
    assert_eq!((tracks[0].id, tracks[0].language.as_str()), (4, "en"));
    let options = serve_options(&context(true, true), &plan, "10.0.0.9", "/d");
    assert_eq!(options.allow, vec!["10.0.0.9"]);
    assert_eq!((options.file.as_str(), options.token.as_str()), ("/m/a.mkv", "tok"));
    assert_eq!(options.transcode.expect("ffmpeg").gain_db, 6);
}

#[test]
fn where_streams_start() {
    assert_eq!(context(false, false).stream_start(at(9.0), Some(at(8.0))), at(0.0));
    assert_eq!(context(true, true).stream_start(at(9.0), Some(at(8.0))), at(9.0));
    assert_eq!(context(true, false).stream_start(at(9.0), Some(at(8.0))), at(8.0));
    assert_eq!(context(true, false).stream_start(at(9.0), None), at(9.0));
    assert!(context(true, false).needs_keyframe());
    assert!(!context(true, true).needs_keyframe());
    assert!(context(false, false).seek_after_start(at(9.0), true));
    assert!(!context(false, false).seek_after_start(at(0.0), true));
    assert!(!context(false, false).seek_after_start(at(9.0), false));
    assert!(!context(true, false).seek_after_start(at(9.0), true));
    assert_eq!(context(false, false).fraction_of(), Some(at(60.0)));
    assert_eq!(context(true, false).fraction_of(), None);
    let mark = |seconds: f64| Mark { at: at(seconds), shown: format!("{seconds:.3}") };
    assert_eq!(start_url("u", &mark(12.5)), "u?start=12.500");
    assert_eq!(start_url("u", &mark(0.0)), "u");
}

#[test]
fn commands() {
    let names = [
        ("ping", Command::Ping),
        ("status", Command::Status),
        ("deps", Command::Deps),
        ("discover", Command::Discover),
        ("connect", Command::Connect),
        ("disconnect", Command::Disconnect),
        ("stop", Command::Disconnect),
        ("pause", Command::Pause),
        ("resume", Command::Resume),
        ("seek", Command::Seek),
        ("set-volume", Command::SetVolume),
        ("set-mute", Command::SetMute),
        ("set-boost", Command::SetBoost),
        ("set-subtitle", Command::SetSubtitle),
        ("add-ip", Command::AddIp),
        ("remove-ip", Command::RemoveIp),
        ("save-multicast", Command::SaveMulticast),
        ("clear-firewall", Command::ClearFirewall),
        ("shutdown", Command::Shutdown),
    ];
    for (name, command) in names {
        assert_eq!(dispatch(&request(name)).expect("known"), command);
    }
    let reply = dispatch(&request("dance")).expect_err("unknown");
    assert_eq!(reply["ok"], false);
    assert_eq!(reply["error"], "Unknown command: dance");
    assert_eq!(plain_ok()["ok"], true);
}

#[test]
fn requests_have_defaults() {
    let mut r = request("seek");
    assert_eq!((r.ip(), r.file(), r.value()), ("", "", ""));
    assert_eq!(wanted_position(&r), at(-1.0));
    r.position = Some(at(3.0));
    r.value = Some("v".to_string());
    assert_eq!(wanted_position(&r), at(3.0));
    assert_eq!(r.value(), "v");
    assert_eq!(error_response("m")["error"], "m");
}

#[test]
fn dependencies() {
    let all = deps(true, true);
    assert_eq!(all["ok"], true);
    assert_eq!(all["ffmpeg"], true);
    assert_eq!(all["backends"]["airplay"], true);
    assert_eq!(all["missing"].as_array().map(Vec::len), Some(0));
    let none = deps(false, false);
    assert_eq!(none["ffmpeg"], false);
    assert_eq!(none["missing"][0], "ffmpeg");
    assert_eq!(none["missing"][1], "ffprobe");
    assert_eq!(deps(true, false)["missing"][0], "ffprobe");
}

#[test]
fn reports() {
    let settings = Some("{\"lastReceiver\": \"10.0.0.9\", \"audioBoost\": \"12\"}");
    let idle = status(&Session::default(), settings);
    assert_eq!((idle.state.as_str(), idle.streams.len()), ("idle", 0));
    assert_eq!((idle.last_receiver.as_str(), idle.audio_boost), ("10.0.0.9", 12));
    assert!(idle.ok && idle.multicast_discovery && idle.error.is_empty());
    let mut s = session("cast", SessionState::Paused);
    s.ip = "10.0.0.9".to_string();
    s.error = "hidden".to_string();
    let paused = status(&s, None);
    assert_eq!(paused.state, "paused");
    assert_eq!(paused.streams[0].device, "10.0.0.9");
    assert!(paused.streams[0].paused);
    assert_eq!(paused.streams[0].subtitle, -1);
    assert_eq!(paused.streams[0].subtitles.len(), 3);
    assert_eq!(paused.error, "");
    s.state = SessionState::Error;
    s.name = "TV".to_string();
    s.subtitle = Some(2);
    let failed = status(&s, None);
    assert_eq!((failed.state.as_str(), failed.error.as_str()), ("error", "hidden"));
    assert_eq!((failed.streams[0].device.as_str(), failed.streams[0].subtitle), ("TV", 2));
    s.state = SessionState::Stopped;
    assert_eq!(status(&s, None).state, "idle");
}

#[test]
fn pausing_and_resuming() {
    for (protocol, whom) in
        [("cast", Target::Cast), ("dlna", Target::Dlna), ("airplay", Target::Airplay)]
    {
        let mut s = session(protocol, SessionState::Playing);
        assert_eq!(target(&s, ALL), whom);
        assert_eq!(target(&s, NOTHING), Target::Nobody);
        pause(&mut s, protocol, ALL);
        assert_eq!(s.state, SessionState::Paused);
        pause(&mut s, protocol, ALL);
        resume(&mut s, protocol, ALL);
        assert_eq!(s.state, SessionState::Playing);
        pause(&mut s, protocol, NOTHING);
        let shown = s.state == SessionState::Paused;
        assert_eq!(shown, protocol == "cast");
    }
    let mut s = session("", SessionState::Buffering);
    pause(&mut s, "", ALL);
    assert_eq!(s.state, SessionState::Buffering);
}

#[test]
fn seeking() {
    let mut s = session("dlna", SessionState::Playing);
    s.duration = at(60.0);
    let go = |s: &Session, to: f64, live| seek(s, at(to), live);
    assert_eq!(
        go(&s, 90.0, ALL),
        SeekPlan::Go { position: at(60.0), how: SeekHow::DlnaSeek }
    );
    assert_eq!(go(&s, 9.0, NOTHING), SeekPlan::Go { position: at(9.0), how: SeekHow::Nobody });
    let ffmpeg = Live { transcode: true, ..NOTHING };
    assert_eq!(
        go(&s, 9.0, ffmpeg),
        SeekPlan::Go { position: at(9.0), how: SeekHow::DlnaRestart }
    );
    assert_eq!(go(&s, -1.0, ALL), SeekPlan::Ignore);
    assert_eq!(go(&s, f64::NAN, ALL), SeekPlan::Ignore);
    assert_eq!(go(&s, f64::INFINITY, ALL), SeekPlan::Ignore);
    s.duration = at(0.0);
    assert_eq!(
        go(&s, 90.0, ALL),
        SeekPlan::Go { position: at(90.0), how: SeekHow::DlnaSeek }
    );
    s.protocol = "airplay".to_string();
    assert!(matches!(go(&s, 1.0, ALL), SeekPlan::Go { how: SeekHow::AirplaySeek, .. }));
    assert!(matches!(go(&s, 1.0, ffmpeg), SeekPlan::Go { how: SeekHow::AirplayRestart, .. }));
    s.protocol = "cast".to_string();
    assert!(matches!(go(&s, 1.0, ALL), SeekPlan::Go { how: SeekHow::Cast, .. }));
    s.state = SessionState::Idle;
    assert_eq!(go(&s, 1.0, ALL), SeekPlan::Ignore);
    moved(&mut s, at(4.0));
    assert_eq!(s.position, at(4.0));
    restarted(&mut s, at(5.0));
    assert_eq!((s.position, s.state), (at(5.0), SessionState::Buffering));
}

#[test]
fn volumes() {
    let cast = session("cast", SessionState::Playing);
    assert_eq!(set_volume(&cast, Some(40), ALL), Ok((Target::Cast, 40)));
    assert_eq!(set_volume(&cast, Some(150), ALL), Ok((Target::Cast, 100)));
    assert_eq!(set_volume(&cast, Some(-3), ALL), Ok((Target::Cast, 0)));
    assert_eq!(set_volume(&cast, None, ALL), Err("Invalid volume"));
    assert_eq!(set_volume(&cast, Some(40), NOTHING), Err("No cast session"));
    let dlna = session("dlna", SessionState::Playing);
    assert_eq!(set_volume(&dlna, Some(40), ALL), Ok((Target::Dlna, 40)));
    assert_eq!(
        set_volume(&dlna, Some(40), Live { rendering: false, ..ALL }),
        Err("This receiver does not expose volume control")
    );
    let airplay = session("airplay", SessionState::Playing);
    assert_eq!(
        set_volume(&airplay, Some(40), ALL),
        Err("Volume control is not available over AirPlay")
    );
    let idle = session("cast", SessionState::Idle);
    assert_eq!(set_volume(&idle, Some(40), ALL), Err("Nothing is casting"));
    let mut s = cast;
    volume_set(&mut s, 40);
    mute_set(&mut s, true);
    assert_eq!((s.volume, s.muted), (40, true));
}

#[test]
fn muting() {
    let s = session("cast", SessionState::Playing);
    assert_eq!(set_mute(&s, " on ", ALL), Ok((Target::Cast, true)));
    assert_eq!(set_mute(&s, "0", ALL), Ok((Target::Cast, false)));
    assert_eq!(set_mute(&s, "maybe", ALL), Err("Invalid mute value"));
    assert_eq!(set_mute(&s, "1", NOTHING), Err("No cast session"));
    for (word, truth) in [("true", true), ("1", true), ("on", true), ("false", false), ("off", false)]
    {
        assert_eq!(parse_bool(word), Some(truth));
    }
    assert_eq!(parse_bool("True"), None);
}

#[test]
fn choosing_subtitles() {
    let s = session("cast", SessionState::Playing);
    assert_eq!(set_subtitle(&s, " 2 ", ALL), Ok((Some(2), "es".to_string())));
    assert_eq!(set_subtitle(&s, "3", ALL), Ok((Some(3), "off".to_string())));
    for word in ["", "off", "-1", "none"] {
        assert_eq!(set_subtitle(&s, word, ALL), Ok((None, "off".to_string())));
    }
    assert_eq!(set_subtitle(&s, "9", ALL), Err("Unknown subtitle track"));
    assert_eq!(set_subtitle(&s, "two", ALL), Err("Unknown subtitle track"));
    assert_eq!(set_subtitle(&s, "2", NOTHING), Err("No cast session"));
    let dlna = session("dlna", SessionState::Playing);
    assert_eq!(
        set_subtitle(&dlna, "2", ALL),
        Err("Subtitle selection is available on Google Cast receivers only for now")
    );
    let idle = session("cast", SessionState::Stopped);
    assert_eq!(set_subtitle(&idle, "2", ALL), Err("Nothing is casting"));
    let mut shown = s;
    subtitle_set(&mut shown, Some(2));
    assert_eq!(shown.subtitle, Some(2));
}

#[test]
fn a_choice_is_remembered() {
    let tracks = vec![track(1, "en"), track(2, "es"), track(3, "es")];
    assert_eq!(preferred_subtitle(&tracks, "es"), Some(2));
    assert_eq!(preferred_subtitle(&tracks, "fr"), None);
    assert_eq!(preferred_subtitle(&tracks, "off"), None);
    assert_eq!(preferred_subtitle(&tracks, ""), None);
    let mut s = session("cast", SessionState::Playing);
    s.subtitles = tracks;
    let (_, preference) = set_subtitle(&s, "3", ALL).expect("chosen");
    assert_eq!(preferred_subtitle(&s.subtitles, &preference), Some(2));
}

#[test]
fn boosting() {
    let mut s = session("cast", SessionState::Playing);
    assert!(matches!(set_boost(&s, "5"), BoostPlan::Invalid));
    let BoostPlan::Save { boost, text, restream: again } = set_boost(&s, "6") else {
        panic!("it is offered");
    };
    assert_eq!((boost, text.as_str(), again), (6, "6", true));
    boost_set(&mut s, 6);
    assert!(matches!(set_boost(&s, "6"), BoostPlan::Save { restream: false, .. }));
    s.state = SessionState::Idle;
    assert!(matches!(set_boost(&s, "12"), BoostPlan::Save { restream: false, .. }));
    assert_eq!(
        boost_failure("No active stream")["error"],
        "Boost saved for the next cast, but it could not be applied now: No active stream"
    );
    assert!(matches!(restream("cast", ALL), Restream::Cast));
    assert!(matches!(restream("dlna", NOTHING), Restream::Dlna));
    assert!(matches!(restream("airplay", NOTHING), Restream::Airplay));
    let Restream::Failed(message) = restream("cast", NOTHING) else {
        panic!("nobody is there");
    };
    assert_eq!(message, "No cast session");
    let Restream::Failed(message) = restream("smoke", ALL) else {
        panic!("nobody speaks it");
    };
    assert_eq!(message, "Unsupported protocol: smoke");
}

#[test]
fn addresses() {
    let known = vec!["10.0.0.1".to_string()];
    assert_eq!(add_ip(None, &known), Err("Invalid address"));
    assert_eq!(add_ip(Some("10.0.0.1"), &known), Ok(None));
    let more = add_ip(Some("10.0.0.2"), &known).expect("valid").expect("new");
    assert_eq!(more, vec!["10.0.0.1", "10.0.0.2"]);
    assert_eq!(remove_ip(Some("10.0.0.2"), &more), Ok(known.clone()));
    assert_eq!(remove_ip(Some("10.0.0.7"), &known), Ok(known.clone()));
    assert_eq!(remove_ip(None, &known), Err("Invalid address"));
    assert!(multicast_is_valid("true") && multicast_is_valid("false"));
    assert!(!multicast_is_valid("True"));
}

#[test]
fn remembered_receivers() {
    assert!(cache_is_fresh(false, 1, 19_999));
    assert!(!cache_is_fresh(false, 1, 20_000));
    assert!(!cache_is_fresh(true, 1, 0));
    assert!(!cache_is_fresh(false, 0, 0));
    let mut old = device("airplay");
    old.name = "old".to_string();
    let mut other = device("cast");
    other.ip = "10.0.0.1".to_string();
    let list = remember(&vec![old, other], &device("dlna"));
    let shown: Vec<&str> = list.iter().map(|d| d.protocol.as_str()).collect();
    assert_eq!(shown, vec!["cast", "dlna"]);
}

#[test]
fn offsets_and_events() {
    let mut offset = PositionOffset::default();
    assert_eq!(offset.get(), at(0.0));
    offset.set(at(2.5));
    assert_eq!(offset.get(), at(2.5));
    assert_eq!(Event::SessionEnded { session_id: 1 }, Event::SessionEnded { session_id: 1 });
}

#[test]
fn waiting_and_trying_again() {
    assert!(keep_waiting(1, "TRANSITIONING"));
    assert!(keep_waiting(11, "STOPPED"));
    assert!(!keep_waiting(12, "STOPPED"));
    assert!(!keep_waiting(1, "PLAYING"));
    assert!(connect_again(1, false));
    assert!(!connect_again(2, false));
    assert!(!connect_again(1, true));
}

#[test]
fn only_cast_receivers_get_a_subtitle() {
    let tracks = vec![SubtitleTrack {
        id: 4,
        label: "French".to_string(),
        language: "fr".to_string(),
        source: SubtitleSource::Embedded { stream_index: 2 },
    }];
    assert_eq!(subtitle_for(&device("cast"), &tracks, "fr"), Some(4));
    assert_eq!(subtitle_for(&device("cast"), &tracks, "de"), None);
    assert_eq!(subtitle_for(&device("cast"), &tracks, "off"), None);
    assert_eq!(subtitle_for(&device("dlna"), &tracks, "fr"), None);
}
