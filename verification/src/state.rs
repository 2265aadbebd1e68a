//! The one playback session the daemon keeps.
use vstd::prelude::*;

use crate::seconds::Seconds;
use crate::subtitles::{clone_tracks, track_views, SubtitleTrack, TrackView};

verus! {

#[derive(Debug, Clone, Copy, PartialEq, Eq, Structural)]
pub enum SessionState {
    Idle,
    Connecting,
    Buffering,
    Playing,
    Paused,
    Stopped,
    Error,
}

impl SessionState {
    /// The name under which a state is reported.
    pub open spec fn name(self) -> Seq<char> {
        match self {
            SessionState::Idle => "idle"@,
            SessionState::Connecting => "connecting"@,
            SessionState::Buffering => "buffering"@,
            SessionState::Playing => "playing"@,
            SessionState::Paused => "paused"@,
            SessionState::Stopped => "stopped"@,
            SessionState::Error => "error"@,
        }
    }

    pub open spec fn active(self) -> bool {
        !(self is Idle) && !(self is Stopped)
    }

    /// The name under which a state is reported.
    pub fn as_str(self) -> (r: &'static str)
        ensures
            r@ == self.name(),
    {
        match self {
            SessionState::Idle => "idle",
            SessionState::Connecting => "connecting",
            SessionState::Buffering => "buffering",
            SessionState::Playing => "playing",
            SessionState::Paused => "paused",
            SessionState::Stopped => "stopped",
            SessionState::Error => "error",
        }
    }

    /// Whether something is being cast in this state.
    pub fn is_active(self) -> (r: bool)
        ensures
            r == self.active(),
    {
        match self {
            SessionState::Idle => false,
            SessionState::Stopped => false,
            _ => true,
        }
    }
}

#[derive(Debug)]
pub struct Session {
    pub session_id: u64,
    pub state: SessionState,
    pub ip: String,
    pub name: String,
    pub protocol: String,
    pub file: String,
    pub position: Seconds,
    pub duration: Seconds,
    pub error: String,
    /// Receiver volume 0-100, -1 while unknown.
    pub volume: i32,
    pub muted: bool,
    /// Whether this receiver/protocol lets us change its volume.
    pub volume_supported: bool,
    /// Audio boost (dB) applied to the stream being served.
    pub boost: i32,
    /// Subtitle tracks available for the file, and the one the receiver shows.
    pub subtitles: Vec<SubtitleTrack>,
    pub subtitle: Option<u32>,
    /// Whether this protocol can show sidecar subtitles (Google Cast only).
    pub subtitles_supported: bool,
}

/// A number, or the nearest of 0 and 100.
pub open spec fn percent(n: int) -> int {
    if n < 0 {
        0
    } else if n > 100 {
        100
    } else {
        n
    }
}

/// A volume brought into the range from 0 to 100.
pub fn clamp_percent(level: i32) -> (r: i32)
    ensures
        r == percent(level as int),
{
    if level < 0 {
        0
    } else if level > 100 {
        100
    } else {
        level
    }
}

/// What a session holds.
#[verifier::ext_equal]
pub struct SessionView {
    pub session_id: u64,
    pub state: SessionState,
    pub ip: Seq<char>,
    pub name: Seq<char>,
    pub protocol: Seq<char>,
    pub file: Seq<char>,
    pub position: Seconds,
    pub duration: Seconds,
    pub error: Seq<char>,
    pub volume: i32,
    pub muted: bool,
    pub volume_supported: bool,
    pub boost: i32,
    pub subtitles: Seq<TrackView>,
    pub subtitle: Option<u32>,
    pub subtitles_supported: bool,
}

impl View for Session {
    type V = SessionView;

    open spec fn view(&self) -> SessionView {
        SessionView {
            session_id: self.session_id,
            state: self.state,
            ip: self.ip@,
            name: self.name@,
            protocol: self.protocol@,
            file: self.file@,
            position: self.position,
            duration: self.duration,
            error: self.error@,
            volume: self.volume,
            muted: self.muted,
            volume_supported: self.volume_supported,
            boost: self.boost,
            subtitles: track_views(self.subtitles@),
            subtitle: self.subtitle,
            subtitles_supported: self.subtitles_supported,
        }
    }
}

impl SessionView {
    /// The volume is a percentage, or -1 while unknown.
    pub open spec fn volume_in_range(self) -> bool {
        -1 <= self.volume <= 100
    }
}

/// A session that has not begun.
pub open spec fn blank_session(session_id: u64) -> SessionView {
    SessionView {
        session_id,
        state: SessionState::Idle,
        ip: Seq::empty(),
        name: Seq::empty(),
        protocol: Seq::empty(),
        file: Seq::empty(),
        position: Seconds { bits: 0 },
        duration: Seconds { bits: 0 },
        error: Seq::empty(),
        volume: (-1) as i32,
        muted: false,
        volume_supported: false,
        boost: 0,
        subtitles: Seq::empty(),
        subtitle: None,
        subtitles_supported: false,
    }
}

impl Default for Session {
    fn default() -> (r: Session)
        ensures
            r@ == blank_session(0),
    {
        Session::new_id(0)
    }
}

impl Clone for Session {
    fn clone(&self) -> (r: Session)
        ensures
            r@ == self@,
    {
        Session {
            session_id: self.session_id,
            state: self.state,
            ip: self.ip.clone(),
            name: self.name.clone(),
            protocol: self.protocol.clone(),
            file: self.file.clone(),
            position: self.position,
            duration: self.duration,
            error: self.error.clone(),
            volume: self.volume,
            muted: self.muted,
            volume_supported: self.volume_supported,
            boost: self.boost,
            subtitles: clone_tracks(&self.subtitles),
            subtitle: self.subtitle,
            subtitles_supported: self.subtitles_supported,
        }
    }
}

impl Session {
    /// A session that has not begun, under a number of its own.
    pub fn new_id(session_id: u64) -> (r: Session)
        ensures
            r@ == blank_session(session_id),
    {
        let r = Session {
            session_id,
            state: SessionState::Idle,
            ip: String::new(),
            name: String::new(),
            protocol: String::new(),
            file: String::new(),
            position: Seconds::zero(),
            duration: Seconds::zero(),
            error: String::new(),
            volume: -1,
            muted: false,
            volume_supported: false,
            boost: 0,
            subtitles: Vec::new(),
            subtitle: None,
            subtitles_supported: false,
        };
        assert(r@.subtitles =~= Seq::empty());
        r
    }
}

// ---------------------------------------------------------------------------
// Laws

/// Each state is reported under its own name, and something is being cast in
/// all of them but when idle or stopped.
pub proof fn states_have_their_names(state: SessionState)
    ensures
        state is Idle <==> state.name() == "idle"@,
        state is Connecting <==> state.name() == "connecting"@,
        state is Buffering <==> state.name() == "buffering"@,
        state is Playing <==> state.name() == "playing"@,
        state is Paused <==> state.name() == "paused"@,
        state is Stopped <==> state.name() == "stopped"@,
        state is Error <==> state.name() == "error"@,
        state.active() <==> state is Connecting || state is Buffering || state is Playing
            || state is Paused || state is Error,
{
    reveal_strlit("idle");
    reveal_strlit("connecting");
    reveal_strlit("buffering");
    reveal_strlit("playing");
    reveal_strlit("paused");
    reveal_strlit("stopped");
    reveal_strlit("error");
    assert("idle"@.len() == 4);
    assert("connecting"@.len() == 10);
    assert("buffering"@.len() == 9);
    assert("playing"@.len() == 7);
    assert("paused"@.len() == 6);
    assert("stopped"@.len() == 7);
    assert("error"@.len() == 5);
    assert("playing"@[0] != "stopped"@[0]);
}

/// A percentage is kept, and what lies outside becomes the nearest one.
pub proof fn percentages_are_kept(n: int)
    ensures
        0 <= n <= 100 ==> percent(n) == n,
        n < 0 ==> percent(n) == 0,
        n > 100 ==> percent(n) == 100,
{
}

/// In a session that has not begun nothing is cast, and nothing is known.
pub proof fn blank_session_is_blank(session_id: u64)
    ensures
        ({
            let s = blank_session(session_id);
            &&& s.session_id == session_id
            &&& !s.state.active()
            &&& s.volume == -1 && !s.muted && !s.volume_supported
            &&& s.error.len() == 0 && s.file.len() == 0 && s.ip.len() == 0
            &&& s.subtitle is None && s.subtitles.len() == 0 && !s.subtitles_supported
            &&& s.boost == 0
        }),
{
}

} // verus!
