use unicast::cast_session::{
    edit_answer, load_answer, publish_status, publish_volume, set_error, Answer, CastAction,
    CastCommand, CastMachine, CastMessage, CastNext, IdleReason, MediaEntry, MediaReply,
    MediaStatus, PlayerState, ReloadRequest, MAX_ERRORS,
};
use unicast::seconds::Seconds;
use unicast::state::{Session, SessionState};

fn at(seconds: f64) -> Seconds {
    Seconds { bits: seconds.to_bits() }
}

fn session(state: SessionState) -> Session {
    let mut session = Session::new_id(7);
    session.state = state;
    session
}

fn machine() -> CastMachine {
    CastMachine::new(7, "http://h/tok/a.mp4", false, false, None)
}

fn entry(id: i32, player_state: PlayerState, idle_reason: Option<IdleReason>) -> MediaEntry {
    MediaEntry {
        media_session_id: id,
        player_state,
        idle_reason,
        position: None,
        content_id: None,
        duration: None,
    }
}

fn status(id: i32, state: PlayerState, reason: Option<IdleReason>) -> MediaStatus {
    MediaStatus { request_id: 0, entries: vec![entry(id, state, reason)] }
}

#[test]
fn answers_to_a_load() {
    let mut ours = status(1, PlayerState::Buffering, None);
    ours.request_id = 5;
    assert!(matches!(load_answer(&MediaReply::Status(ours), 5, "u"), Answer::Done));
    let mut carries = status(1, PlayerState::Buffering, None);
    carries.entries[0].content_id = Some("u".to_string());
    let reply = MediaReply::Status(carries);
    assert!(matches!(load_answer(&reply, 5, "u"), Answer::Done));
    assert!(matches!(load_answer(&reply, 5, "v"), Answer::Wait));
    let failed = MediaReply::LoadFailed { request_id: 5 };
    let Answer::Failed(message) = load_answer(&failed, 5, "u") else {
        panic!("it has failed");
    };
    assert_eq!(message, "the receiver failed to load the media");
    assert!(matches!(load_answer(&failed, 6, "u"), Answer::Wait));
    let Answer::Failed(message) = load_answer(&MediaReply::LoadCancelled { request_id: 5 }, 5, "u")
    else {
        panic!("it has failed");
    };
    assert_eq!(message, "the load was cancelled by another request");
    assert!(matches!(load_answer(&MediaReply::Other, 5, "u"), Answer::Wait));
}

#[test]
fn answers_to_a_track_change() {
    let mut ours = status(1, PlayerState::Playing, None);
    ours.request_id = 5;
    let reply = MediaReply::Status(ours);
    assert!(matches!(edit_answer(&reply, 5), Answer::Done));
    assert!(matches!(edit_answer(&reply, 6), Answer::Wait));
    let Answer::Failed(message) =
        edit_answer(&MediaReply::InvalidRequest { detail: "why".to_string() }, 5)
    else {
        panic!("it has failed");
    };
    assert_eq!(message, "the receiver rejected the track change: why");
    assert!(matches!(edit_answer(&MediaReply::LoadFailed { request_id: 5 }, 5), Answer::Wait));
}

#[test]
fn a_status_is_published() {
    let mut s = session(SessionState::Buffering);
    let mut playing = status(3, PlayerState::Playing, None);
    playing.entries[0].position = Some(at(12.0));
    playing.entries[0].duration = Some(at(60.0));
    assert!(!publish_status(&mut s, 7, &playing, 3));
    assert_eq!(s.state, SessionState::Playing);
    assert_eq!((s.position, s.duration), (at(12.0), at(60.0)));
    playing.entries[0].duration = Some(at(61.0));
    assert!(!publish_status(&mut s, 7, &playing, 3));
    assert_eq!(s.duration, at(60.0));
    assert!(publish_status(&mut s, 7, &status(9, PlayerState::Idle, Some(IdleReason::Finished)), 3));
    assert_eq!(s.state, SessionState::Stopped);
    assert!(!publish_status(&mut s, 7, &MediaStatus { request_id: 0, entries: Vec::new() }, 3));
}

#[test]
fn idle_reasons() {
    let ended = |reason, entry_id, current| {
        let mut s = session(SessionState::Playing);
        let ended = publish_status(&mut s, 7, &status(entry_id, PlayerState::Idle, reason), current);
        (ended, s.state)
    };
    assert_eq!(ended(Some(IdleReason::Error), 1, 2), (true, SessionState::Error));
    assert_eq!(ended(Some(IdleReason::Cancelled), 2, 2), (true, SessionState::Stopped));
    assert_eq!(ended(Some(IdleReason::Cancelled), 1, 2), (false, SessionState::Playing));
    assert_eq!(ended(Some(IdleReason::Interrupted), 1, 0), (true, SessionState::Stopped));
    assert_eq!(ended(None, 2, 2), (false, SessionState::Playing));
    let mut s = session(SessionState::Playing);
    publish_status(&mut s, 7, &status(1, PlayerState::Idle, Some(IdleReason::Error)), 1);
    assert_eq!(s.error, "The receiver could not play this media.");
}

#[test]
fn a_newer_session_is_left_alone() {
    let mut s = session(SessionState::Playing);
    assert!(!publish_status(&mut s, 6, &status(1, PlayerState::Idle, Some(IdleReason::Error)), 1));
    publish_volume(&mut s, 6, Some(50), Some(true));
    set_error(&mut s, 6, "no");
    assert_eq!(s.state, SessionState::Playing);
    assert_eq!((s.volume, s.muted, s.volume_supported), (-1, false, false));
    let mut old = CastMachine::new(6, "u", false, false, None);
    assert!(old.is_stale(&s));
    assert!(old.poll(&s, true).is_none());
    old.message(&mut s, CastMessage::LoadFailed);
    old.seeked(&mut s, at(3.0), true);
    old.paused(&mut s, true);
    assert_eq!((s.state, s.position), (SessionState::Playing, at(0.0)));
}

#[test]
fn commands_before_the_first_status() {
    let mut m = machine();
    assert_eq!(m.command(CastCommand::Pause), CastAction::Nothing);
    assert_eq!(m.command(CastCommand::Resume), CastAction::Nothing);
    assert_eq!(m.command(CastCommand::Seek(at(5.0))), CastAction::Nothing);
    assert_eq!(m.command(CastCommand::SetSubtitle(Some(2))), CastAction::Nothing);
    assert_eq!(m.active_track, Some(2));
    assert_eq!(m.command(CastCommand::SetVolume(40)), CastAction::SetVolume { percent: 40 });
    assert_eq!(m.command(CastCommand::SetMute(true)), CastAction::SetMute { muted: true });
    assert_eq!(m.command(CastCommand::Shutdown), CastAction::Leave);
    assert_eq!(m.teardown(), None);
}

#[test]
fn commands_while_playing() {
    let mut m = machine();
    let mut s = session(SessionState::Buffering);
    let next = m.message(&mut s, CastMessage::Media(status(3, PlayerState::Playing, None)));
    assert_eq!(next, CastNext::Continue);
    assert_eq!(m.media_session_id, 3);
    assert_eq!(m.command(CastCommand::Pause), CastAction::Pause { media_session_id: 3 });
    m.paused(&mut s, true);
    assert_eq!(s.state, SessionState::Paused);
    assert_eq!(m.command(CastCommand::Resume), CastAction::Play { media_session_id: 3 });
    m.resumed(&mut s, false);
    assert_eq!(s.state, SessionState::Paused);
    assert_eq!(
        m.command(CastCommand::Seek(at(5.0))),
        CastAction::SeekReceiver { media_session_id: 3, position: at(5.0) }
    );
    m.seeked(&mut s, at(5.0), true);
    assert_eq!((s.state, s.position), (SessionState::Playing, at(5.0)));
    assert_eq!(
        m.command(CastCommand::SetSubtitle(None)),
        CastAction::EditTracks { media_session_id: 3, track: None }
    );
    m.edited(&mut s, Some(2), true);
    assert_eq!(s.subtitle, Some(2));
    assert_eq!(m.teardown(), Some(3));
}

#[test]
fn seeking_in_a_stream() {
    let mut m = CastMachine::new(7, "u", true, true, None);
    m.media_session_id = 3;
    assert_eq!(
        m.command(CastCommand::Seek(at(5.0))),
        CastAction::LoadStream { start: at(5.0) }
    );
    assert_eq!(m.position_offset, at(5.0));
    m.exact_seek = false;
    assert_eq!(
        m.command(CastCommand::Seek(at(9.0))),
        CastAction::FindKeyframe { position: at(9.0) }
    );
    assert_eq!(m.position_offset, at(5.0));
    assert_eq!(m.keyframe_found(at(9.0), Some(at(8.0))), CastAction::LoadStream { start: at(8.0) });
    assert_eq!(m.position_offset, at(8.0));
    assert_eq!(m.keyframe_found(at(9.0), None), CastAction::LoadStream { start: at(9.0) });
    assert_eq!(m.stream_address("0.000"), "u?start=0.000");
    let mut s = session(SessionState::Playing);
    m.loaded(&mut s, at(9.0), None);
    assert_eq!((s.state, m.media_session_id), (SessionState::Playing, 3));
    m.loaded(&mut s, at(9.0), Some(&status(4, PlayerState::Buffering, None)));
    assert_eq!((s.state, s.position), (SessionState::Buffering, at(9.0)));
    assert_eq!(m.media_session_id, 4);
}

#[test]
fn reloading() {
    let mut m = CastMachine::new(7, "old", true, true, None);
    m.position_offset = at(30.0);
    let request = |transcode, exact_seek| ReloadRequest {
        url: "new".to_string(),
        transcode,
        exact_seek,
        position: at(12.0),
    };
    assert_eq!(
        m.command(CastCommand::Reload(request(false, false))),
        CastAction::LoadFile { position: at(12.0) }
    );
    assert_eq!((m.content_url.as_str(), m.transcode), ("new", false));
    assert_eq!(m.position_offset, at(0.0));
    assert_eq!(
        m.command(CastCommand::Reload(request(true, false))),
        CastAction::FindKeyframe { position: at(12.0) }
    );
    assert_eq!(
        m.command(CastCommand::Reload(request(true, true))),
        CastAction::LoadStream { start: at(12.0) }
    );
}

#[test]
fn messages_end_a_session() {
    let mut s = session(SessionState::Playing);
    let mut m = machine();
    assert_eq!(m.message(&mut s, CastMessage::Heartbeat), CastNext::Pong);
    assert_eq!(m.message(&mut s, CastMessage::LoadCancelled), CastNext::Continue);
    assert_eq!(m.message(&mut s, CastMessage::Timeout), CastNext::Continue);
    assert_eq!(m.message(&mut s, CastMessage::Other), CastNext::Continue);
    let volume = CastMessage::Volume { level: Some(30), muted: None };
    assert_eq!(m.message(&mut s, volume), CastNext::Continue);
    assert_eq!((s.volume, s.volume_supported), (30, true));
    assert_eq!(m.message(&mut s, CastMessage::LoadFailed), CastNext::End);
    assert_eq!((s.state, s.error.as_str()), (SessionState::Error, "Load failed."));
    let error = CastMessage::MediaError { detail: "E".to_string() };
    assert_eq!(m.message(&mut s, error), CastNext::End);
    assert_eq!(s.error, "The receiver reported: E");
    let finished = CastMessage::Media(status(1, PlayerState::Idle, Some(IdleReason::Finished)));
    assert_eq!(m.message(&mut s, finished), CastNext::End);
}

#[test]
fn a_lost_connection() {
    let mut s = session(SessionState::Playing);
    let mut m = machine();
    for _ in 0..MAX_ERRORS {
        assert_eq!(m.message(&mut s, CastMessage::Failed), CastNext::Continue);
    }
    assert_eq!(s.state, SessionState::Playing);
    assert_eq!(m.message(&mut s, CastMessage::Failed), CastNext::Lost);
    assert_eq!(s.error, "Lost the connection to the receiver.");
}

#[test]
fn polling_rounds() {
    let mut m = machine();
    let mut s = session(SessionState::Buffering);
    assert!(m.poll(&s, true).is_none());
    s.state = SessionState::Playing;
    assert!(m.poll(&s, false).is_none());
    let plan = m.poll(&s, true).expect("due");
    assert_eq!((plan.volume, plan.media), (false, None));
    m.media_session_id = 3;
    m.polls = 4;
    let plan = m.poll(&s, true).expect("due");
    assert_eq!((plan.volume, plan.media), (true, Some(3)));
    m.polls = u32::MAX;
    assert!(m.poll(&s, true).expect("due").volume);
    assert_eq!(m.polls, 0);
    let finished = status(3, PlayerState::Idle, Some(IdleReason::Finished));
    assert_eq!(m.polled(&mut s, &finished), CastNext::End);
    assert_eq!(s.state, SessionState::Stopped);
}

#[test]
fn the_first_status_gives_nothing_up() {
    let m = machine();
    let mut s = session(SessionState::Connecting);
    m.started(&mut s, &status(3, PlayerState::Idle, Some(IdleReason::Cancelled)));
    assert_eq!(s.state, SessionState::Connecting);
    m.started(&mut s, &status(3, PlayerState::Buffering, None));
    assert_eq!(s.state, SessionState::Buffering);
}

#[test]
fn a_volume_stays_a_percentage() {
    let mut s = session(SessionState::Playing);
    for (reported, held) in [(140, 100), (-5, 0), (37, 37)] {
        let id = s.session_id;
        publish_volume(&mut s, id, Some(reported), None);
        assert_eq!(s.volume, held);
    }
    let id = s.session_id;
    publish_volume(&mut s, id, None, Some(true));
    assert_eq!((s.volume, s.muted), (37, true));
}

#[test]
fn the_offset_is_where_the_stream_starts() {
    let mut machine = CastMachine::new(7, "u", true, true, None);
    machine.media_session_id = 1;
    assert_eq!(
        machine.command(CastCommand::Seek(at(30.0))),
        CastAction::LoadStream { start: at(30.0) }
    );
    assert_eq!(machine.position_offset, at(30.0));
    let request = ReloadRequest {
        url: "v".to_string(),
        transcode: false,
        exact_seek: false,
        position: at(12.0),
    };
    assert_eq!(
        machine.command(CastCommand::Reload(request)),
        CastAction::LoadFile { position: at(12.0) }
    );
    assert_eq!(machine.position_offset, at(0.0));
    assert_eq!(
        machine.command(CastCommand::Seek(at(5.0))),
        CastAction::SeekReceiver { media_session_id: 1, position: at(5.0) }
    );
}
