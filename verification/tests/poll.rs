use unicast::connect::auto_stop;
use unicast::poll::{AirplayPoll, AirplayReport, DlnaPoll, DlnaReport, PollNext};
use unicast::seconds::Seconds;
use unicast::state::{Session, SessionState};

fn at(seconds: f64) -> Seconds {
    Seconds { bits: seconds.to_bits() }
}

fn report(transport: &str) -> DlnaReport {
    DlnaReport {
        transport: transport.to_string(),
        duration: None,
        position: None,
        volume: None,
        muted: None,
    }
}

#[test]
fn a_renderer_is_followed() {
    let mut poll = DlnaPoll::new(7);
    let mut s = Session::new_id(7);
    s.state = SessionState::Buffering;
    s.duration = at(60.0);
    assert!(poll.is_current(&s));
    assert!(poll.volume_due(true));
    assert!(!poll.volume_due(false));
    assert_eq!(poll.step(&mut s, &report("STOPPED")), PollNext::Continue);
    assert_eq!(s.state, SessionState::Buffering);
    assert!(!poll.volume_due(true));
    assert_eq!(poll.step(&mut s, &report("TRANSITIONING")), PollNext::Continue);
    let mut playing = report("PLAYING");
    playing.position = Some(at(5.0));
    playing.duration = Some(at(0.0));
    playing.volume = Some(30);
    playing.muted = Some(true);
    assert_eq!(poll.step(&mut s, &playing), PollNext::Continue);
    assert_eq!(s.state, SessionState::Playing);
    assert_eq!((s.position, s.duration), (at(5.0), at(60.0)));
    assert_eq!((s.volume, s.muted), (30, true));
    assert!(poll.volume_due(true));
    assert_eq!(poll.step(&mut s, &report("PAUSED_PLAYBACK")), PollNext::Continue);
    assert_eq!(s.state, SessionState::Paused);
    assert_eq!(poll.step(&mut s, &report("UNKNOWN")), PollNext::Continue);
    assert_eq!(s.state, SessionState::Paused);
    let mut stopped = report("NO_MEDIA_PRESENT");
    stopped.duration = Some(at(61.0));
    assert_eq!(poll.step(&mut s, &stopped), PollNext::End);
    assert_eq!(s.duration, at(61.0));
    assert!(auto_stop(&s, 7));
}

#[test]
fn a_stale_renderer_changes_nothing() {
    let mut poll = DlnaPoll::new(6);
    let mut s = Session::new_id(7);
    assert!(!poll.is_current(&s));
    assert_eq!(poll.step(&mut s, &report("PLAYING")), PollNext::Stale);
    assert_eq!(s.state, SessionState::Idle);
    assert!(!poll.seen_active);
    poll.ticks = u32::MAX;
    poll.step(&mut s, &report("PLAYING"));
    assert_eq!(poll.ticks, 0);
}

#[test]
fn an_airplay_receiver_is_followed() {
    let mut poll = AirplayPoll::new(7);
    let mut s = Session::new_id(7);
    s.state = SessionState::Buffering;
    assert_eq!(poll.step(&mut s, None, at(0.0)), PollNext::Continue);
    let info = |playing| {
        Some(AirplayReport { position: at(5.0), duration: at(60.0), playing })
    };
    assert_eq!(poll.step(&mut s, info(true), at(3.0)), PollNext::Continue);
    assert_eq!((s.state, s.position), (SessionState::Playing, at(5.0)));
    assert_eq!(s.duration, at(0.0));
    assert_eq!(poll.step(&mut s, info(false), at(-0.0)), PollNext::Continue);
    assert_eq!((s.state, s.duration), (SessionState::Paused, at(60.0)));
    assert_eq!(poll.step(&mut s, None, at(0.0)), PollNext::End);
    assert!(auto_stop(&s, 7));
    let mut stale = AirplayPoll::new(6);
    assert!(!stale.is_current(&s));
    assert_eq!(stale.step(&mut s, info(true), at(0.0)), PollNext::Stale);
    assert_eq!(s.state, SessionState::Stopped);
}
