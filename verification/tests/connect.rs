use unicast::connect::{
    announce, auto_stop, begin, finish, identify, prepare, ConnectEvent, ConnectStep, Connecting,
    Stage,
};
use unicast::protocol::Device;
use unicast::seconds::Seconds;
use unicast::state::{Session, SessionState};
use unicast::subtitles::{SubtitleSource, SubtitleTrack};
use unicast::util::Environment;

fn env() -> Environment {
    Environment {
        home: Some("/home/ada".to_string()),
        config_home: None,
        runtime_dir: None,
        cast_port: None,
        uid: 1000,
    }
}

fn device(protocol: &str) -> Device {
    Device {
        name: "TV".to_string(),
        host: "tv".to_string(),
        ip: "10.0.0.9".to_string(),
        port: 0,
        protocol: protocol.to_string(),
        model: String::new(),
        id: String::new(),
        control_url: None,
        rendering_url: None,
        alternates: Vec::new(),
    }
}

fn refusal(step: ConnectStep) -> (String, bool) {
    match step {
        ConnectStep::Refuse { message, reset } => (message, reset),
        other => panic!("not refused: {other:?}"),
    }
}

fn started(file: &str) -> Connecting {
    begin(Some("10.0.0.9".to_string()), file, &env()).0.expect("begun")
}

fn at_firewall(device: Device) -> Connecting {
    let mut state = started("/m/a.mkv");
    state.advance(ConnectEvent::IsFile(true), &env());
    state.advance(ConnectEvent::Route(Some("10.0.0.2".to_string())), &env());
    state.advance(ConnectEvent::Receiver(Some(device)), &env());
    state.advance(ConnectEvent::Prepared, &env());
    state
}

#[test]
fn a_cast_from_start_to_finish() {
    let (state, step) = begin(Some("10.0.0.9".to_string()), "", &env());
    let mut state = state.expect("begun");
    assert!(matches!(step, ConnectStep::AskPlayer));
    let step = state.advance(ConnectEvent::Player(Some("~/a.mkv".to_string())), &env());
    assert!(matches!(step, ConnectStep::AskFile));
    assert_eq!(state.path(), "/home/ada/a.mkv");
    assert!(matches!(state.advance(ConnectEvent::IsFile(true), &env()), ConnectStep::AskRoute));
    let step = state.advance(ConnectEvent::Route(Some("10.0.0.2".to_string())), &env());
    assert!(matches!(step, ConnectStep::Announce));
    assert_eq!(state.bind(), "10.0.0.2");
    assert!(matches!(state.advance(ConnectEvent::Receiver(None), &env()), ConnectStep::Search));
    assert!(matches!(state.advance(ConnectEvent::Receiver(None), &env()), ConnectStep::Probe));
    let step = state.advance(ConnectEvent::Receiver(Some(device("cast"))), &env());
    assert!(matches!(step, ConnectStep::Prepare));
    assert!(matches!(state.advance(ConnectEvent::Prepared, &env()), ConnectStep::OpenFirewall));
    assert!(matches!(state.advance(ConnectEvent::Firewall(true), &env()), ConnectStep::Serve));
    assert!(matches!(state.advance(ConnectEvent::Served(Ok(())), &env()), ConnectStep::Finish));
    assert_eq!(state.stage(), Stage::Done);
}

#[test]
fn refusals_before_the_announcement() {
    let (state, step) = begin(None, "/m/a.mkv", &env());
    assert!(state.is_none());
    assert_eq!(refusal(step), ("Invalid receiver address".to_string(), false));
    let advance = |file: &str, event| refusal(started(file).advance(event, &env()));
    let nothing = "Play a file in a media player first, or paste a file path".to_string();
    assert_eq!(advance("", ConnectEvent::Player(None)), (nothing.clone(), false));
    assert_eq!(advance("", ConnectEvent::Player(Some(String::new()))), (nothing, false));
    assert_eq!(
        advance("/m/a.mkv", ConnectEvent::IsFile(false)),
        ("File not found".to_string(), false)
    );
    let mut state = started("/m/a.mkv");
    state.advance(ConnectEvent::IsFile(true), &env());
    let step = state.advance(ConnectEvent::Route(None), &env());
    assert_eq!(refusal(step), ("No route to 10.0.0.9".to_string(), false));
}

#[test]
fn refusals_after_the_announcement() {
    let mut state = started("/m/a.mkv");
    state.advance(ConnectEvent::IsFile(true), &env());
    state.advance(ConnectEvent::Route(Some("10.0.0.2".to_string())), &env());
    state.advance(ConnectEvent::Receiver(None), &env());
    state.advance(ConnectEvent::Receiver(None), &env());
    let step = state.advance(ConnectEvent::Receiver(None), &env());
    assert_eq!(refusal(step), ("Unknown device — reload receivers first".to_string(), true));
    let opened = |device, open| {
        refusal(at_firewall(device).advance(ConnectEvent::Firewall(open), &env()))
    };
    assert_eq!(
        opened(device("cast"), false),
        ("Firewall authorization was declined".to_string(), true)
    );
    assert_eq!(
        opened(device("dlna"), true),
        ("No DLNA control endpoint for 10.0.0.9".to_string(), true)
    );
    assert_eq!(
        opened(device("smoke"), true),
        ("Unsupported protocol: smoke".to_string(), true)
    );
    let mut renderer = device("dlna");
    renderer.control_url = Some("http://10.0.0.9/c".to_string());
    let mut state = at_firewall(renderer);
    assert!(matches!(state.advance(ConnectEvent::Firewall(true), &env()), ConnectStep::Serve));
    let step = state.advance(ConnectEvent::Served(Err("no".to_string())), &env());
    assert_eq!(refusal(step), ("no".to_string(), true));
}

#[test]
fn answers_that_were_not_asked_for() {
    let mut state = started("/m/a.mkv");
    for event in [
        ConnectEvent::Player(None),
        ConnectEvent::Route(None),
        ConnectEvent::Receiver(None),
        ConnectEvent::Prepared,
        ConnectEvent::Firewall(true),
        ConnectEvent::Served(Ok(())),
    ] {
        assert!(matches!(state.advance(event, &env()), ConnectStep::Wait));
        assert_eq!(state.stage(), Stage::File);
    }
    let mut late = at_firewall(device("cast"));
    assert!(matches!(late.advance(ConnectEvent::IsFile(false), &env()), ConnectStep::Wait));
}

#[test]
fn the_session_meanwhile() {
    let mut s = announce(4, "10.0.0.9", "/m/a.mkv");
    assert_eq!((s.session_id, s.state), (4, SessionState::Connecting));
    assert_eq!((s.name.as_str(), s.file.as_str()), ("10.0.0.9", "/m/a.mkv"));
    let mut renderer = device("dlna");
    renderer.rendering_url = Some("u".to_string());
    identify(&mut s, 3, &renderer);
    assert_eq!(s.protocol, "");
    identify(&mut s, 4, &renderer);
    assert_eq!((s.name.as_str(), s.protocol.as_str()), ("TV", "dlna"));
    assert!(s.volume_supported && !s.subtitles_supported);
    let mut nameless = device("cast");
    nameless.name = String::new();
    identify(&mut s, 4, &nameless);
    assert_eq!(s.name, "TV");
    assert!(!s.volume_supported && s.subtitles_supported);
    let tracks = vec![SubtitleTrack {
        id: 1,
        label: "English".to_string(),
        language: "en".to_string(),
        source: SubtitleSource::Embedded { stream_index: 2 },
    }];
    let minute = Seconds { bits: 60.0_f64.to_bits() };
    prepare(&mut s, 3, Some(minute), 6, &tracks, Some(1));
    assert_eq!(s.boost, 0);
    prepare(&mut s, 4, Some(minute), 6, &tracks, Some(1));
    assert_eq!((s.duration, s.boost, s.subtitle), (minute, 6, Some(1)));
    assert_eq!(s.subtitles[0].label, "English");
    finish(&mut s, 3);
    assert_eq!(s.state, SessionState::Connecting);
    finish(&mut s, 4);
    assert_eq!(s.state, SessionState::Buffering);
    s.state = SessionState::Playing;
    finish(&mut s, 4);
    assert_eq!(s.state, SessionState::Playing);
}

#[test]
fn ended_sessions_are_cleared() {
    let mut s = Session::new_id(4);
    for (state, cleared) in [
        (SessionState::Idle, false),
        (SessionState::Playing, false),
        (SessionState::Stopped, true),
        (SessionState::Error, true),
    ] {
        s.state = state;
        assert_eq!(auto_stop(&s, 4), cleared);
        assert!(!auto_stop(&s, 3));
    }
}
