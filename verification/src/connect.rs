//! How a cast begins: from the address and the file of a request to a receiver
//! that plays.
//!
//! `Connecting` decides, step by step, what is to be found out or done next;
//! what came of it goes in as an event. Once the session is announced, every
//! refusal takes it back.
use vstd::prelude::*;

use crate::protocol::{Device, DeviceView};
use crate::seconds::Seconds;
use crate::state::{blank_session, Session, SessionState, SessionView};
use crate::subtitles::{clone_tracks, track_views, SubtitleTrack, TrackView};
use crate::text::{begins, is_empty, same};
use crate::util::{below, expand_tilde, Environment};

verus! {

/// How far a cast has come.
#[derive(Debug, Clone, Copy, PartialEq, Eq, Structural)]
pub enum Stage {
    /// The media players are asked what they play.
    Player,
    /// The file is looked for.
    File,
    /// A way to the receiver is looked for.
    Route,
    /// The receiver is looked for among those known, even from a stale list.
    Known,
    /// The receiver is looked for by a search.
    Searched,
    /// The receiver is looked for by probing its address.
    Probed,
    /// What the medium consists of is found out.
    Media,
    /// The firewall is opened.
    Firewall,
    /// The file is served and the receiver pointed at it.
    Serve,
    Done,
}

impl Stage {
    /// The session has been announced.
    pub open spec fn announced(self) -> bool {
        !(self is Player) && !(self is File) && !(self is Route)
    }

    /// The receiver is known.
    pub open spec fn identified(self) -> bool {
        self is Media || self is Firewall || self is Serve || self is Done
    }
}

/// A cast that begins.
#[derive(Debug)]
pub struct Connecting {
    stage: Stage,
    ip: String,
    path: String,
    bind: String,
    device: Option<Device>,
}

/// What a cast that begins holds.
pub struct ConnectingView {
    pub stage: Stage,
    pub ip: Seq<char>,
    pub path: Seq<char>,
    pub bind: Seq<char>,
    pub device: Option<DeviceView>,
}

impl View for Connecting {
    type V = ConnectingView;

    closed spec fn view(&self) -> ConnectingView {
        ConnectingView {
            stage: self.stage,
            ip: self.ip@,
            path: self.path@,
            bind: self.bind@,
            device: match self.device {
                Some(device) => Some(device@),
                None => None,
            },
        }
    }
}

/// What came of a step.
#[derive(Debug)]
pub enum ConnectEvent {
    /// The file that a media player plays, if any does.
    Player(Option<String>),
    IsFile(bool),
    /// Our address on the way to the receiver, if there is a way.
    Route(Option<String>),
    /// The receiver, if it was found.
    Receiver(Option<Device>),
    Prepared,
    /// Whether the way through the firewall is open.
    Firewall(bool),
    Served(Result<(), String>),
}

/// What an event holds.
pub enum EventView {
    Player(Option<Seq<char>>),
    IsFile(bool),
    Route(Option<Seq<char>>),
    Receiver(Option<DeviceView>),
    Prepared,
    Firewall(bool),
    Served(Option<Seq<char>>),
}

impl View for ConnectEvent {
    type V = EventView;

    open spec fn view(&self) -> EventView {
        match *self {
            ConnectEvent::Player(Some(path)) => EventView::Player(Some(path@)),
            ConnectEvent::Player(None) => EventView::Player(None),
            ConnectEvent::IsFile(found) => EventView::IsFile(found),
            ConnectEvent::Route(Some(bind)) => EventView::Route(Some(bind@)),
            ConnectEvent::Route(None) => EventView::Route(None),
            ConnectEvent::Receiver(Some(device)) => EventView::Receiver(Some(device@)),
            ConnectEvent::Receiver(None) => EventView::Receiver(None),
            ConnectEvent::Prepared => EventView::Prepared,
            ConnectEvent::Firewall(open) => EventView::Firewall(open),
            ConnectEvent::Served(Ok(())) => EventView::Served(None),
            ConnectEvent::Served(Err(message)) => EventView::Served(Some(message@)),
        }
    }
}

/// What is to be done next.
#[derive(Debug)]
pub enum ConnectStep {
    /// That was not asked; the question stands.
    Wait,
    AskPlayer,
    AskFile,
    AskRoute,
    /// End what is being cast, announce the session and look the receiver up.
    Announce,
    Search,
    Probe,
    Prepare,
    OpenFirewall,
    Serve,
    Finish,
    /// Give up with this message; `reset` where the session has to be taken back.
    Refuse { message: String, reset: bool },
}

/// What a step holds.
pub enum StepView {
    Wait,
    AskPlayer,
    AskFile,
    AskRoute,
    Announce,
    Search,
    Probe,
    Prepare,
    OpenFirewall,
    Serve,
    Finish,
    Refuse { message: Seq<char>, reset: bool },
}

impl View for ConnectStep {
    type V = StepView;

    open spec fn view(&self) -> StepView {
        match *self {
            ConnectStep::Wait => StepView::Wait,
            ConnectStep::AskPlayer => StepView::AskPlayer,
            ConnectStep::AskFile => StepView::AskFile,
            ConnectStep::AskRoute => StepView::AskRoute,
            ConnectStep::Announce => StepView::Announce,
            ConnectStep::Search => StepView::Search,
            ConnectStep::Probe => StepView::Probe,
            ConnectStep::Prepare => StepView::Prepare,
            ConnectStep::OpenFirewall => StepView::OpenFirewall,
            ConnectStep::Serve => StepView::Serve,
            ConnectStep::Finish => StepView::Finish,
            ConnectStep::Refuse { message, reset } => StepView::Refuse { message: message@, reset },
        }
    }
}

/// `path` with a leading `~/` replaced by the home directory.
pub open spec fn expanded(path: Seq<char>, env: Environment) -> Seq<char> {
    if begins(path, "~/"@) {
        below(env.home_path(), path.skip(2))
    } else {
        path
    }
}

/// The beginning: a valid address is needed, and a file or a player that is asked.
pub open spec fn begun(ip: Option<Seq<char>>, file: Seq<char>, env: Environment) -> (
    Option<ConnectingView>,
    StepView,
) {
    match ip {
        None => (
            None,
            StepView::Refuse { message: "Invalid receiver address"@, reset: false },
        ),
        Some(ip) => if file.len() == 0 {
            (
                Some(
                    ConnectingView {
                        stage: Stage::Player,
                        ip,
                        path: Seq::empty(),
                        bind: Seq::empty(),
                        device: None,
                    },
                ),
                StepView::AskPlayer,
            )
        } else {
            (
                Some(
                    ConnectingView {
                        stage: Stage::File,
                        ip,
                        path: expanded(file, env),
                        bind: Seq::empty(),
                        device: None,
                    },
                ),
                StepView::AskFile,
            )
        },
    }
}

impl ConnectingView {
    pub open spec fn at(self, stage: Stage) -> ConnectingView {
        ConnectingView { stage, ..self }
    }

    /// Once the receiver is known, it stays so.
    pub open spec fn wf(self) -> bool {
        self.stage.identified() ==> self.device is Some
    }

    pub open spec fn with_device(self, device: DeviceView) -> ConnectingView {
        ConnectingView { device: Some(device), stage: Stage::Media, ..self }
    }

    /// Why the receiver cannot be served, if it cannot.
    pub open spec fn unserved(self) -> Option<Seq<char>> {
        match self.device {
            Some(device) => if device.protocol == "cast"@ || device.protocol == "airplay"@ {
                None
            } else if device.protocol == "dlna"@ {
                if device.control_url is Some {
                    None
                } else {
                    Some("No DLNA control endpoint for "@ + self.ip)
                }
            } else {
                Some("Unsupported protocol: "@ + device.protocol)
            },
            None => Some("Unsupported protocol: "@),
        }
    }

    /// What follows an event.
    pub open spec fn advanced(self, event: EventView, env: Environment) -> (
        ConnectingView,
        StepView,
    ) {
        match (self.stage, event) {
            (Stage::Player, EventView::Player(found)) => {
                let path = match found {
                    Some(path) => path,
                    None => Seq::empty(),
                };
                if path.len() == 0 {
                    (
                        self,
                        StepView::Refuse {
                            message: "Play a file in a media player first, or paste a file path"@,
                            reset: false,
                        },
                    )
                } else {
                    (
                        ConnectingView { path: expanded(path, env), stage: Stage::File, ..self },
                        StepView::AskFile,
                    )
                }
            },
            (Stage::File, EventView::IsFile(found)) => if found {
                (self.at(Stage::Route), StepView::AskRoute)
            } else {
                (self, StepView::Refuse { message: "File not found"@, reset: false })
            },
            (Stage::Route, EventView::Route(bind)) => match bind {
                Some(bind) => (
                    ConnectingView { bind, stage: Stage::Known, ..self },
                    StepView::Announce,
                ),
                None => (
                    self,
                    StepView::Refuse { message: "No route to "@ + self.ip, reset: false },
                ),
            },
            (Stage::Known, EventView::Receiver(found)) => match found {
                Some(device) => (self.with_device(device), StepView::Prepare),
                None => (self.at(Stage::Searched), StepView::Search),
            },
            (Stage::Searched, EventView::Receiver(found)) => match found {
                Some(device) => (self.with_device(device), StepView::Prepare),
                None => (self.at(Stage::Probed), StepView::Probe),
            },
            (Stage::Probed, EventView::Receiver(found)) => match found {
                Some(device) => (self.with_device(device), StepView::Prepare),
                None => (
                    self,
                    StepView::Refuse {
                        message: "Unknown device — reload receivers first"@,
                        reset: true,
                    },
                ),
            },
            (Stage::Media, EventView::Prepared) => (
                self.at(Stage::Firewall),
                StepView::OpenFirewall,
            ),
            (Stage::Firewall, EventView::Firewall(open)) => if !open {
                (
                    self,
                    StepView::Refuse { message: "Firewall authorization was declined"@, reset: true },
                )
            } else {
                match self.unserved() {
                    Some(message) => (self, StepView::Refuse { message, reset: true }),
                    None => (self.at(Stage::Serve), StepView::Serve),
                }
            },
            (Stage::Serve, EventView::Served(failure)) => match failure {
                None => (self.at(Stage::Done), StepView::Finish),
                Some(message) => (self, StepView::Refuse { message, reset: true }),
            },
            _ => (self, StepView::Wait),
        }
    }
}

fn refuse(message: &str, reset: bool) -> (r: ConnectStep)
    ensures
        r@ == (StepView::Refuse { message: message@, reset }),
{
    ConnectStep::Refuse { message: message.to_owned(), reset }
}

/// Begins a cast of `file`, or of what a media player plays where it is empty,
/// to the receiver at `ip`.
pub fn begin(ip: Option<String>, file: &str, env: &Environment) -> (r: (
    Option<Connecting>,
    ConnectStep,
))
    ensures
        (
            match r.0 {
                Some(state) => Some(state@),
                None => None,
            },
            r.1@,
        ) == begun(
            match ip {
                Some(ip) => Some(ip@),
                None => None,
            },
            file@,
            *env,
        ),
        r.0 matches Some(state) ==> state@.wf(),
{
    match ip {
        None => (None, refuse("Invalid receiver address", false)),
        Some(ip) => if is_empty(file) {
            let state = Connecting {
                stage: Stage::Player,
                ip,
                path: String::new(),
                bind: String::new(),
                device: None,
            };
            (Some(state), ConnectStep::AskPlayer)
        } else {
            let state = Connecting {
                stage: Stage::File,
                ip,
                path: expand_tilde(file, env),
                bind: String::new(),
                device: None,
            };
            (Some(state), ConnectStep::AskFile)
        },
    }
}

impl Connecting {
    /// How far it has come.
    pub fn stage(&self) -> (r: Stage)
        ensures
            r == self@.stage,
    {
        self.stage
    }

    /// The address of the receiver.
    pub fn ip(&self) -> (r: &str)
        ensures
            r@ == self@.ip,
    {
        self.ip.as_str()
    }

    /// The file to cast.
    pub fn path(&self) -> (r: &str)
        ensures
            r@ == self@.path,
    {
        self.path.as_str()
    }

    /// Our address on the way to the receiver.
    pub fn bind(&self) -> (r: &str)
        ensures
            r@ == self@.bind,
    {
        self.bind.as_str()
    }

    /// The receiver, once it is found.
    pub fn device(&self) -> (r: Option<&Device>)
        ensures
            match r {
                Some(device) => self@.device == Some(device@),
                None => self@.device is None,
            },
    {
        self.device.as_ref()
    }

    fn unserved(&self) -> (r: Option<String>)
        ensures
            match r {
                Some(message) => self@.unserved() == Some(message@),
                None => self@.unserved() is None,
            },
    {
        match &self.device {
            Some(device) => {
                let protocol = device.protocol.as_str();
                if same(protocol, "cast") || same(protocol, "airplay") {
                    None
                } else if same(protocol, "dlna") {
                    if device.control_url.is_some() {
                        None
                    } else {
                        let mut message = "No DLNA control endpoint for ".to_owned();
                        message.append(self.ip.as_str());
                        Some(message)
                    }
                } else {
                    let mut message = "Unsupported protocol: ".to_owned();
                    message.append(protocol);
                    Some(message)
                }
            },
            None => Some("Unsupported protocol: ".to_owned()),
        }
    }

    fn found(&mut self, device: Device) -> (r: ConnectStep)
        ensures
            final(self)@ == old(self)@.with_device(device@),
            r@ is Prepare,
    {
        self.device = Some(device);
        self.stage = Stage::Media;
        ConnectStep::Prepare
    }

    /// Takes what came of a step; what is to be done next comes back.
    pub fn advance(&mut self, event: ConnectEvent, env: &Environment) -> (r: ConnectStep)
        requires
            old(self)@.wf(),
        ensures
            (final(self)@, r@) == old(self)@.advanced(event@, *env),
            final(self)@.wf(),
    {
        match event {
            ConnectEvent::Player(found) => if self.stage == Stage::Player {
                let path = match found {
                    Some(path) => path,
                    None => String::new(),
                };
                if is_empty(path.as_str()) {
                    refuse("Play a file in a media player first, or paste a file path", false)
                } else {
                    self.path = expand_tilde(path.as_str(), env);
                    self.stage = Stage::File;
                    ConnectStep::AskFile
                }
            } else {
                ConnectStep::Wait
            },
            ConnectEvent::IsFile(found) => if self.stage == Stage::File {
                if found {
                    self.stage = Stage::Route;
                    ConnectStep::AskRoute
                } else {
                    refuse("File not found", false)
                }
            } else {
                ConnectStep::Wait
            },
            ConnectEvent::Route(bind) => if self.stage == Stage::Route {
                match bind {
                    Some(bind) => {
                        self.bind = bind;
                        self.stage = Stage::Known;
                        ConnectStep::Announce
                    },
                    None => {
                        let mut message = "No route to ".to_owned();
                        message.append(self.ip.as_str());
                        refuse(message.as_str(), false)
                    },
                }
            } else {
                ConnectStep::Wait
            },
            ConnectEvent::Receiver(found) => match self.stage {
                Stage::Known => match found {
                    Some(device) => self.found(device),
                    None => {
                        self.stage = Stage::Searched;
                        ConnectStep::Search
                    },
                },
                Stage::Searched => match found {
                    Some(device) => self.found(device),
                    None => {
                        self.stage = Stage::Probed;
                        ConnectStep::Probe
                    },
                },
                Stage::Probed => match found {
                    Some(device) => self.found(device),
                    None => refuse("Unknown device — reload receivers first", true),
                },
                _ => ConnectStep::Wait,
            },
            ConnectEvent::Prepared => if self.stage == Stage::Media {
                self.stage = Stage::Firewall;
                ConnectStep::OpenFirewall
            } else {
                ConnectStep::Wait
            },
            ConnectEvent::Firewall(open) => if self.stage == Stage::Firewall {
                if !open {
                    refuse("Firewall authorization was declined", true)
                } else {
                    match self.unserved() {
                        Some(message) => refuse(message.as_str(), true),
                        None => {
                            self.stage = Stage::Serve;
                            ConnectStep::Serve
                        },
                    }
                }
            } else {
                ConnectStep::Wait
            },
            ConnectEvent::Served(result) => if self.stage == Stage::Serve {
                match result {
                    Ok(()) => {
                        self.stage = Stage::Done;
                        ConnectStep::Finish
                    },
                    Err(message) => refuse(message.as_str(), true),
                }
            } else {
                ConnectStep::Wait
            },
        }
    }
}

// ---------------------------------------------------------------------------
// What the session shows meanwhile

/// The session as it is announced, before anything slow (device lookup,
/// ffprobe, receiver handshake), so that the panel reflects the click.
pub open spec fn announced_session(session_id: u64, ip: Seq<char>, path: Seq<char>) -> SessionView {
    SessionView {
        state: SessionState::Connecting,
        ip,
        name: ip,
        file: path,
        ..blank_session(session_id)
    }
}

/// The session as it is announced.
pub fn announce(session_id: u64, ip: &str, path: &str) -> (r: Session)
    ensures
        r@ == announced_session(session_id, ip@, path@),
{
    let mut session = Session::new_id(session_id);
    session.state = SessionState::Connecting;
    session.ip = ip.to_owned();
    session.name = ip.to_owned();
    session.file = path.to_owned();
    session
}

/// The session once the receiver is known. Cast receivers report volume once
/// connected; DLNA needs a `RenderingControl` service; AirPlay URL playback has
/// no volume API.
pub open spec fn identified_session(s: SessionView, session_id: u64, device: DeviceView) -> SessionView {
    if s.session_id != session_id {
        s
    } else {
        SessionView {
            name: if device.name.len() > 0 {
                device.name
            } else {
                s.name
            },
            protocol: device.protocol,
            volume_supported: device.protocol == "dlna"@ && device.rendering_url is Some,
            subtitles_supported: device.protocol == "cast"@,
            ..s
        }
    }
}

/// Notes the receiver in the session.
pub fn identify(session: &mut Session, session_id: u64, device: &Device)
    ensures
        final(session)@ == identified_session(old(session)@, session_id, device@),
{
    if session.session_id != session_id {
        return;
    }
    if !is_empty(device.name.as_str()) {
        session.name = device.name.clone();
    }
    session.protocol = device.protocol.clone();
    session.volume_supported = same(device.protocol.as_str(), "dlna") && device.rendering_url.is_some();
    session.subtitles_supported = same(device.protocol.as_str(), "cast");
}

/// The session once it is known what the medium consists of.
pub open spec fn prepared_session(
    s: SessionView,
    session_id: u64,
    duration: Option<Seconds>,
    boost: i32,
    tracks: Seq<TrackView>,
    subtitle: Option<u32>,
) -> SessionView {
    if s.session_id != session_id {
        s
    } else {
        SessionView {
            duration: match duration {
                Some(duration) => duration,
                None => Seconds { bits: 0 },
            },
            boost,
            subtitles: tracks,
            subtitle,
            ..s
        }
    }
}

/// The session once the receiver has been told.
pub open spec fn finished_session(s: SessionView, session_id: u64) -> SessionView {
    if s.session_id == session_id && s.state is Connecting {
        SessionView { state: SessionState::Buffering, ..s }
    } else {
        s
    }
}

/// Notes in the session what the medium consists of.
pub fn prepare(
    session: &mut Session,
    session_id: u64,
    duration: Option<Seconds>,
    boost: i32,
    tracks: &Vec<SubtitleTrack>,
    subtitle: Option<u32>,
)
    ensures
        final(session)@ == prepared_session(
            old(session)@,
            session_id,
            duration,
            boost,
            track_views(tracks@),
            subtitle,
        ),
{
    if session.session_id != session_id {
        return;
    }
    session.duration = match duration {
        Some(duration) => duration,
        None => Seconds::zero(),
    };
    session.boost = boost;
    session.subtitles = clone_tracks(tracks);
    session.subtitle = subtitle;
}

/// Notes in the session that the receiver has been told; what it reported
/// meanwhile stands.
pub fn finish(session: &mut Session, session_id: u64)
    ensures
        final(session)@ == finished_session(old(session)@, session_id),
{
    if session.session_id == session_id && session.state == SessionState::Connecting {
        session.state = SessionState::Buffering;
    }
}

/// Whether a session that was reported as ended is to be cleared away: it is
/// still the current one, and it has stopped or failed.
pub open spec fn cleared(s: SessionView, session_id: u64) -> bool {
    s.session_id == session_id && (s.state is Stopped || s.state is Error)
}

/// Whether a session that was reported as ended is to be cleared away.
pub fn auto_stop(session: &Session, session_id: u64) -> (r: bool)
    ensures
        r == cleared(session@, session_id),
{
    session.session_id == session_id && match session.state {
        SessionState::Stopped => true,
        SessionState::Error => true,
        _ => false,
    }
}

// ---------------------------------------------------------------------------
// Laws

/// A file is served only after the firewall was opened for a receiver that is
/// known and can be served.
pub proof fn serving_needs_consent(s: ConnectingView, event: EventView, env: Environment)
    requires
        s.wf(),
        s.advanced(event, env).1 is Serve,
    ensures
        event == EventView::Firewall(true),
        s.stage is Firewall,
        s.device is Some,
        s.unserved() is None,
{
}

/// A refusal takes the session back exactly where it has been announced.
pub proof fn refusal_takes_back(s: ConnectingView, event: EventView, env: Environment)
    ensures
        s.advanced(event, env).1 matches StepView::Refuse { reset, .. } ==> reset
            == s.stage.announced(),
        s.advanced(event, env).1 is Announce ==> !s.stage.announced(),
{
}

/// How far a stage is from the end.
pub open spec fn remaining(stage: Stage) -> nat {
    match stage {
        Stage::Player => 9,
        Stage::File => 8,
        Stage::Route => 7,
        Stage::Known => 6,
        Stage::Searched => 5,
        Stage::Probed => 4,
        Stage::Media => 3,
        Stage::Firewall => 2,
        Stage::Serve => 1,
        Stage::Done => 0,
    }
}

/// Every answer to a question that was asked brings the cast nearer to its
/// end, or ends it.
pub proof fn every_answer_advances(s: ConnectingView, event: EventView, env: Environment)
    ensures
        ({
            let (after, step) = s.advanced(event, env);
            step is Wait || step is Refuse || remaining(after.stage) < remaining(s.stage)
        }),
        s.advanced(event, env).1 is Wait ==> s.advanced(event, env).0 == s,
        s.advanced(event, env).0.ip == s.ip,
{
}

/// A cast begins with the address of a receiver, and with the file that was
/// named or else the one that a player plays; without an address it does not.
pub proof fn cast_begins_with_a_receiver(
    ip: Option<Seq<char>>,
    file: Seq<char>,
    env: Environment,
)
    ensures
        ip is None <==> begun(ip, file, env).1 is Refuse,
        ip is None <==> begun(ip, file, env).0 is None,
        ip is Some && file.len() == 0 ==> begun(ip, file, env).1 is AskPlayer,
        ip is Some && file.len() > 0 ==> begun(ip, file, env).1 is AskFile,
        begun(ip, file, env).0 matches Some(s) ==> ip == Some(s.ip) && s.device is None && s.wf()
            && (file.len() > 0 ==> s.path == expanded(file, env)),
{
}

/// Only `~/` at its beginning is taken for the home directory.
pub proof fn home_is_put_in(path: Seq<char>, env: Environment)
    ensures
        !begins(path, "~/"@) ==> expanded(path, env) == path,
        expanded("~/"@ + path, env) == below(env.home_path(), path),
{
    reveal_strlit("~/");
    let full = "~/"@ + path;
    assert(full.take(2) =~= "~/"@);
    assert(full.skip(2) =~= path);
}

/// What is found out on the way is kept: the file that is played, the address
/// of ours that reaches the receiver, and the receiver itself, looked up first,
/// then searched for, then probed for.
pub proof fn answers_are_kept(
    s: ConnectingView,
    env: Environment,
    path: Seq<char>,
    device: DeviceView,
)
    ensures
        s.stage is Player && path.len() > 0 ==> s.advanced(EventView::Player(Some(path)), env).0.path
            == expanded(path, env) && s.advanced(EventView::Player(Some(path)), env).1 is AskFile,
        s.stage is Player ==> s.advanced(EventView::Player(None), env).1 is Refuse,
        s.stage is File ==> s.advanced(EventView::IsFile(true), env).1 is AskRoute && s.advanced(
            EventView::IsFile(false),
            env,
        ).1 is Refuse,
        s.stage is Route ==> s.advanced(EventView::Route(Some(path)), env).0.bind == path
            && s.advanced(EventView::Route(Some(path)), env).1 is Announce && s.advanced(
            EventView::Route(None),
            env,
        ).1 is Refuse,
        s.stage is Known || s.stage is Searched || s.stage is Probed ==> s.advanced(
            EventView::Receiver(Some(device)),
            env,
        ).0.device == Some(device) && s.advanced(EventView::Receiver(Some(device)), env).1
            is Prepare,
        s.stage is Known ==> s.advanced(EventView::Receiver(None), env).1 is Search,
        s.stage is Searched ==> s.advanced(EventView::Receiver(None), env).1 is Probe,
        s.stage is Probed ==> s.advanced(EventView::Receiver(None), env).1 is Refuse,
        s.stage is Media ==> s.advanced(EventView::Prepared, env).1 is OpenFirewall,
        s.stage is Firewall ==> s.advanced(EventView::Firewall(false), env).1 is Refuse,
        s.stage is Firewall && s.unserved() is None ==> s.advanced(
            EventView::Firewall(true),
            env,
        ).1 is Serve,
        s.stage is Serve ==> s.advanced(EventView::Served(None), env).1 is Finish,
        s.stage is Serve ==> (s.advanced(EventView::Served(Some(path)), env).1 matches StepView::Refuse {
            message,
            ..
        } && message == path),
{
}

/// What is known of a cast is not lost on the way.
pub proof fn nothing_known_is_lost(s: ConnectingView, event: EventView, env: Environment)
    ensures
        ({
            let next = s.advanced(event, env).0;
            &&& !(event is Player) ==> next.path == s.path
            &&& !(event is Route) ==> next.bind == s.bind
            &&& !(event is Receiver) ==> next.device == s.device
            &&& s.stage.identified() ==> next.device == s.device && next.path == s.path
                && next.bind == s.bind
        }),
{
}

/// A receiver can be served by Cast and by AirPlay, and by DLNA where it can be
/// controlled; by nothing else.
pub proof fn known_receivers_are_served(s: ConnectingView)
    ensures
        s.unserved() is None <==> (s.device matches Some(device) && (device.protocol == "cast"@
            || device.protocol == "airplay"@ || (device.protocol == "dlna"@
            && device.control_url is Some))),
{
    reveal_strlit("cast");
    reveal_strlit("airplay");
    reveal_strlit("dlna");
    assert("cast"@.len() == 4);
    assert("airplay"@.len() == 7);
    assert("dlna"@.len() == 4);
    assert("cast"@[0] != "dlna"@[0]);
}

/// A session shows at once what is cast and whereto, and nothing of the session
/// before it.
pub proof fn announced_session_is_new(session_id: u64, ip: Seq<char>, path: Seq<char>)
    ensures
        ({
            let s = announced_session(session_id, ip, path);
            &&& s.session_id == session_id
            &&& s.state is Connecting
            &&& s.ip == ip && s.name == ip && s.file == path
            &&& s.error.len() == 0 && s.volume == -1 && !s.muted && s.boost == 0
            &&& s.subtitles.len() == 0 && s.subtitle is None
            &&& s.position == (Seconds { bits: 0 }) && s.duration == (Seconds { bits: 0 })
        }),
{
}

/// The session shows what the receiver is called, how it is reached, and what
/// can be done with it: the volume of a renderer that lets it be changed, the
/// subtitles of a Cast receiver.
pub proof fn session_shows_the_receiver(s: SessionView, session_id: u64, device: DeviceView)
    requires
        s.session_id == session_id,
    ensures
        ({
            let next = identified_session(s, session_id, device);
            &&& next.protocol == device.protocol
            &&& device.name.len() > 0 ==> next.name == device.name
            &&& device.name.len() == 0 ==> next.name == s.name
            &&& next.volume_supported <==> device.protocol == "dlna"@ && device.rendering_url
                is Some
            &&& next.subtitles_supported <==> device.protocol == "cast"@
            &&& next == (SessionView {
                name: next.name,
                protocol: next.protocol,
                volume_supported: next.volume_supported,
                subtitles_supported: next.subtitles_supported,
                ..s
            })
        }),
{
}

/// The session shows what the medium consists of, and once the receiver has
/// been told that it prepares; a session that took its place is left alone.
pub proof fn session_shows_the_medium(
    s: SessionView,
    session_id: u64,
    duration: Option<Seconds>,
    boost: i32,
    tracks: Seq<TrackView>,
    subtitle: Option<u32>,
)
    ensures
        s.session_id == session_id ==> {
            let next = prepared_session(s, session_id, duration, boost, tracks, subtitle);
            &&& duration matches Some(d) ==> next.duration == d
            &&& next.boost == boost && next.subtitles == tracks && next.subtitle == subtitle
            &&& next == (SessionView {
                duration: next.duration,
                boost,
                subtitles: tracks,
                subtitle,
                ..s
            })
        },
        s.session_id == session_id && s.state is Connecting ==> finished_session(s, session_id)
            == (SessionView { state: SessionState::Buffering, ..s }),
        !(s.state is Connecting) ==> finished_session(s, session_id) == s,
        s.session_id != session_id ==> prepared_session(
            s,
            session_id,
            duration,
            boost,
            tracks,
            subtitle,
        ) == s && finished_session(s, session_id) == s && !cleared(s, session_id),
        s.session_id == session_id ==> (cleared(s, session_id) <==> s.state is Stopped || s.state
            is Error),
{
}

/// A cast that cannot begin or go on says why, and takes the session back only
/// once it was announced.
pub proof fn refusals_tell_what_is_missing(
    s: ConnectingView,
    env: Environment,
    file: Seq<char>,
    failure: Seq<char>,
)
    ensures
        begun(None, file, env).1 == (StepView::Refuse {
            message: "Invalid receiver address"@,
            reset: false,
        }),
        s.stage is Player ==> s.advanced(EventView::Player(None), env).1 == (StepView::Refuse {
            message: "Play a file in a media player first, or paste a file path"@,
            reset: false,
        }),
        s.stage is File ==> s.advanced(EventView::IsFile(false), env).1 == (StepView::Refuse {
            message: "File not found"@,
            reset: false,
        }),
        s.stage is Route ==> s.advanced(EventView::Route(None), env).1 == (StepView::Refuse {
            message: "No route to "@ + s.ip,
            reset: false,
        }),
        s.stage is Probed ==> s.advanced(EventView::Receiver(None), env).1 == (StepView::Refuse {
            message: "Unknown device — reload receivers first"@,
            reset: true,
        }),
        s.stage is Firewall ==> s.advanced(EventView::Firewall(false), env).1 == (StepView::Refuse {
            message: "Firewall authorization was declined"@,
            reset: true,
        }),
        s.stage is Serve ==> s.advanced(EventView::Served(Some(failure)), env).1
            == (StepView::Refuse { message: failure, reset: true }),
        s.device matches Some(device) ==> (device.protocol == "dlna"@ && device.control_url is None
            ==> s.unserved() == Some("No DLNA control endpoint for "@ + s.ip)),
        s.device matches Some(device) ==> (device.protocol != "dlna"@ && device.protocol != "cast"@
            && device.protocol != "airplay"@ ==> s.unserved() == Some(
            "Unsupported protocol: "@ + device.protocol,
        )),
{
    reveal_strlit("cast");
    reveal_strlit("dlna");
    reveal_strlit("airplay");
    assert("cast"@.len() == 4);
    assert("dlna"@.len() == 4);
    assert("airplay"@.len() == 7);
    assert("cast"@[0] != "dlna"@[0]);
}

/// A medium of which no duration is known counts as having none yet, and one
/// that is known is shown. From the preparation of the medium on the receiver is
/// known, and not before.
pub proof fn unknown_durations_are_none(
    s: SessionView,
    duration: Seconds,
    boost: i32,
    tracks: Seq<TrackView>,
    subtitle: Option<u32>,
    stage: Stage,
)
    ensures
        prepared_session(s, s.session_id, None, boost, tracks, subtitle).duration == (Seconds {
            bits: 0,
        }),
        prepared_session(s, s.session_id, Some(duration), boost, tracks, subtitle).duration
            == duration,
        stage.identified() <==> !(stage is Player || stage is File || stage is Route
            || stage is Known || stage is Searched || stage is Probed),
{
}

} // verus!
