//! A Google Cast session, from the first LOAD to the end of playback.
//!
//! `CastMachine` decides; its caller talks to the receiver. A command or a
//! message goes in, the next thing to do comes out, and what the receiver said
//! to that goes in again. What is known of the playback is kept in the
//! [`Session`] that the daemon publishes, and only while that session is still
//! the one this machine was started for.
use vstd::prelude::*;

use crate::seconds::Seconds;
use crate::state::{clamp_percent, percent, Session, SessionState, SessionView};
use crate::text::same;

verus! {

// ---------------------------------------------------------------------------
// What the receiver reports

#[derive(Debug, Clone, Copy, PartialEq, Eq, Structural)]
pub enum PlayerState {
    Idle,
    Playing,
    Buffering,
    Paused,
}

#[derive(Debug, Clone, Copy, PartialEq, Eq, Structural)]
pub enum IdleReason {
    Cancelled,
    Interrupted,
    Finished,
    Error,
}

/// One entry of a media status. `position` is the reported time with the start
/// of the stream added to it.
#[derive(Debug)]
pub struct MediaEntry {
    pub media_session_id: i32,
    pub player_state: PlayerState,
    pub idle_reason: Option<IdleReason>,
    pub position: Option<Seconds>,
    pub content_id: Option<String>,
    pub duration: Option<Seconds>,
}

/// A media status.
#[derive(Debug)]
pub struct MediaStatus {
    pub request_id: u32,
    pub entries: Vec<MediaEntry>,
}

impl MediaStatus {
    /// The entry that counts: the first.
    pub open spec fn head(self) -> Option<MediaEntry> {
        if self.entries@.len() > 0 {
            Some(self.entries@[0])
        } else {
            None
        }
    }

    /// An entry is about the medium `content_id`.
    pub open spec fn carries(self, content_id: Seq<char>) -> bool {
        exists|i: int|
            0 <= i < self.entries@.len() && ((#[trigger] self.entries@[i]).content_id matches Some(id)
                && id@ == content_id)
    }
}

/// What a receiver answers on the media channel.
#[derive(Debug)]
pub enum MediaReply {
    Status(MediaStatus),
    LoadFailed { request_id: u32 },
    LoadCancelled { request_id: u32 },
    InvalidRequest { detail: String },
    Other,
}

/// What an answer means for the request that waits for it.
#[derive(Debug)]
pub enum Answer {
    /// It is not about this request.
    Wait,
    /// The request is done.
    Done,
    /// The request has failed, with this message.
    Failed(String),
}

/// What an answer holds.
pub enum AnswerView {
    Wait,
    Done,
    Failed(Seq<char>),
}

impl View for Answer {
    type V = AnswerView;

    open spec fn view(&self) -> AnswerView {
        match *self {
            Answer::Wait => AnswerView::Wait,
            Answer::Done => AnswerView::Done,
            Answer::Failed(message) => AnswerView::Failed(message@),
        }
    }
}

/// What `reply` means for the LOAD of `content_id` under `request_id`: some
/// receivers answer with a status that lacks the number of the request; one
/// that already carries the medium is accepted.
pub open spec fn load_meaning(reply: MediaReply, request_id: u32, content_id: Seq<char>) -> AnswerView {
    match reply {
        MediaReply::Status(status) => if status.request_id == request_id || status.carries(
            content_id,
        ) {
            AnswerView::Done
        } else {
            AnswerView::Wait
        },
        MediaReply::LoadFailed { request_id: id } => if id == request_id {
            AnswerView::Failed("the receiver failed to load the media"@)
        } else {
            AnswerView::Wait
        },
        MediaReply::LoadCancelled { request_id: id } => if id == request_id {
            AnswerView::Failed("the load was cancelled by another request"@)
        } else {
            AnswerView::Wait
        },
        _ => AnswerView::Wait,
    }
}

fn has_content(status: &MediaStatus, content_id: &str) -> (r: bool)
    ensures
        r == status.carries(content_id@),
{
    for i in 0..status.entries.len()
        invariant
            forall|j: int|
                0 <= j < i ==> !((#[trigger] status.entries@[j]).content_id matches Some(id) && id@
                    == content_id@),
    {
        if let Some(id) = &status.entries[i].content_id {
            if same(id.as_str(), content_id) {
                return true;
            }
        }
    }
    false
}

/// What `reply` means for the LOAD of `content_id` under `request_id`.
pub fn load_answer(reply: &MediaReply, request_id: u32, content_id: &str) -> (r: Answer)
    ensures
        r@ == load_meaning(*reply, request_id, content_id@),
{
    match reply {
        MediaReply::Status(status) => if status.request_id == request_id || has_content(
            status,
            content_id,
        ) {
            Answer::Done
        } else {
            Answer::Wait
        },
        MediaReply::LoadFailed { request_id: id } => if *id == request_id {
            Answer::Failed("the receiver failed to load the media".to_owned())
        } else {
            Answer::Wait
        },
        MediaReply::LoadCancelled { request_id: id } => if *id == request_id {
            Answer::Failed("the load was cancelled by another request".to_owned())
        } else {
            Answer::Wait
        },
        _ => Answer::Wait,
    }
}

/// What `reply` means for a change of the subtitle track under `request_id`.
pub open spec fn edit_meaning(reply: MediaReply, request_id: u32) -> AnswerView {
    match reply {
        MediaReply::Status(status) => if status.request_id == request_id {
            AnswerView::Done
        } else {
            AnswerView::Wait
        },
        MediaReply::InvalidRequest { detail } => AnswerView::Failed(
            "the receiver rejected the track change: "@ + detail@,
        ),
        _ => AnswerView::Wait,
    }
}

/// What `reply` means for a change of the subtitle track under `request_id`.
pub fn edit_answer(reply: &MediaReply, request_id: u32) -> (r: Answer)
    ensures
        r@ == edit_meaning(*reply, request_id),
{
    match reply {
        MediaReply::Status(status) => if status.request_id == request_id {
            Answer::Done
        } else {
            Answer::Wait
        },
        MediaReply::InvalidRequest { detail } => {
            let mut message = "the receiver rejected the track change: ".to_owned();
            message.append(detail.as_str());
            Answer::Failed(message)
        },
        _ => Answer::Wait,
    }
}

// ---------------------------------------------------------------------------
// What is published

/// `next`, where the published session is still the one numbered `session_id`.
pub open spec fn guarded(s: SessionView, session_id: u64, next: SessionView) -> SessionView {
    if s.session_id == session_id {
        next
    } else {
        s
    }
}

/// Playback as one entry of a status reports it ended.
pub open spec fn entry_ends(entry: MediaEntry, media_session_id: i32) -> bool {
    entry.player_state is Idle && match entry.idle_reason {
        Some(IdleReason::Error) => true,
        Some(IdleReason::Finished) => true,
        Some(_) => media_session_id == 0 || entry.media_session_id == media_session_id,
        None => false,
    }
}

/// A session after one entry of a status.
pub open spec fn entry_applied(s: SessionView, entry: MediaEntry, media_session_id: i32) -> SessionView {
    let failed = entry.player_state is Idle && entry.idle_reason == Some(IdleReason::Error);
    SessionView {
        state: match entry.player_state {
            PlayerState::Playing => SessionState::Playing,
            PlayerState::Buffering => SessionState::Buffering,
            PlayerState::Paused => SessionState::Paused,
            PlayerState::Idle => if failed {
                SessionState::Error
            } else if entry_ends(entry, media_session_id) {
                SessionState::Stopped
            } else {
                s.state
            },
        },
        error: if failed {
            "The receiver could not play this media."@
        } else {
            s.error
        },
        position: match entry.position {
            Some(position) => position,
            None => s.position,
        },
        duration: match entry.duration {
            Some(duration) => if s.duration.not_after(Seconds { bits: 0 }) {
                duration
            } else {
                s.duration
            },
            None => s.duration,
        },
        ..s
    }
}

/// A session after a status; without an entry it says nothing.
pub open spec fn status_applied(
    s: SessionView,
    session_id: u64,
    status: MediaStatus,
    media_session_id: i32,
) -> SessionView {
    match status.head() {
        Some(entry) => guarded(s, session_id, entry_applied(s, entry, media_session_id)),
        None => s,
    }
}

/// A status ends the session.
pub open spec fn status_ends(
    s: SessionView,
    session_id: u64,
    status: MediaStatus,
    media_session_id: i32,
) -> bool {
    match status.head() {
        Some(entry) => s.session_id == session_id && entry_ends(entry, media_session_id),
        None => false,
    }
}

/// Takes a status over into the session, and tells whether playback has ended.
pub fn publish_status(
    session: &mut Session,
    session_id: u64,
    status: &MediaStatus,
    media_session_id: i32,
) -> (ended: bool)
    ensures
        final(session)@ == status_applied(old(session)@, session_id, *status, media_session_id),
        ended == status_ends(old(session)@, session_id, *status, media_session_id),
{
    if status.entries.len() == 0 {
        return false;
    }
    if session.session_id != session_id {
        return false;
    }
    let entry = &status.entries[0];
    let mut ended = false;
    match entry.player_state {
        PlayerState::Playing => {
            session.state = SessionState::Playing;
        },
        PlayerState::Buffering => {
            session.state = SessionState::Buffering;
        },
        PlayerState::Paused => {
            session.state = SessionState::Paused;
        },
        PlayerState::Idle => match entry.idle_reason {
            Some(IdleReason::Error) => {
                session.state = SessionState::Error;
                session.error = "The receiver could not play this media.".to_owned();
                ended = true;
            },
            Some(IdleReason::Finished) => {
                session.state = SessionState::Stopped;
                ended = true;
            },
            Some(_) => {
                if media_session_id == 0 || entry.media_session_id == media_session_id {
                    session.state = SessionState::Stopped;
                    ended = true;
                }
            },
            None => {},
        },
    }
    if let Some(position) = entry.position {
        session.position = position;
    }
    if let Some(duration) = entry.duration {
        if session.duration.at_most(Seconds::zero()) {
            session.duration = duration;
        }
    }
    ended
}

/// A session after the receiver reported its volume.
pub open spec fn volume_applied(
    s: SessionView,
    session_id: u64,
    level: Option<i32>,
    muted: Option<bool>,
) -> SessionView {
    guarded(
        s,
        session_id,
        SessionView {
            volume_supported: true,
            volume: match level {
                Some(level) => percent(level as int) as i32,
                None => s.volume,
            },
            muted: match muted {
                Some(muted) => muted,
                None => s.muted,
            },
            ..s
        },
    )
}

/// Takes the receiver's volume, in percent, over into the session; one outside
/// the range from 0 to 100 is clamped.
pub fn publish_volume(
    session: &mut Session,
    session_id: u64,
    level: Option<i32>,
    muted: Option<bool>,
)
    ensures
        final(session)@ == volume_applied(old(session)@, session_id, level, muted),
{
    if session.session_id != session_id {
        return;
    }
    session.volume_supported = true;
    if let Some(level) = level {
        session.volume = clamp_percent(level);
    }
    if let Some(muted) = muted {
        session.muted = muted;
    }
}

/// A session that has failed.
pub open spec fn error_applied(s: SessionView, session_id: u64, message: Seq<char>) -> SessionView {
    guarded(s, session_id, SessionView { state: SessionState::Error, error: message, ..s })
}

/// Marks the session as failed.
pub fn set_error(session: &mut Session, session_id: u64, message: &str)
    ensures
        final(session)@ == error_applied(old(session)@, session_id, message@),
{
    if session.session_id != session_id {
        return;
    }
    session.state = SessionState::Error;
    session.error = message.to_owned();
}

/// A session after a LOAD that succeeded.
pub open spec fn load_applied(s: SessionView, session_id: u64, position: Seconds) -> SessionView {
    guarded(s, session_id, SessionView { position, state: SessionState::Buffering, ..s })
}

/// A session after the receiver's answer to a pause.
pub open spec fn pause_applied(s: SessionView, session_id: u64, ok: bool) -> SessionView {
    if ok && s.state is Playing {
        guarded(s, session_id, SessionView { state: SessionState::Paused, ..s })
    } else {
        s
    }
}

/// A session after the receiver's answer to a resume.
pub open spec fn resume_applied(s: SessionView, session_id: u64, ok: bool) -> SessionView {
    if ok && s.state is Paused {
        guarded(s, session_id, SessionView { state: SessionState::Playing, ..s })
    } else {
        s
    }
}

/// A session after the receiver's answer to a seek.
pub open spec fn seek_applied(
    s: SessionView,
    session_id: u64,
    position: Seconds,
    ok: bool,
) -> SessionView {
    if ok {
        guarded(
            s,
            session_id,
            SessionView {
                position,
                state: if s.state is Paused {
                    SessionState::Playing
                } else {
                    s.state
                },
                ..s
            },
        )
    } else {
        s
    }
}

/// A session after the receiver's answer to a change of the subtitle track.
pub open spec fn edit_applied(
    s: SessionView,
    session_id: u64,
    track: Option<u32>,
    ok: bool,
) -> SessionView {
    if ok {
        guarded(s, session_id, SessionView { subtitle: track, ..s })
    } else {
        s
    }
}

// ---------------------------------------------------------------------------
// The machine

/// What the daemon asks of a running session.
#[derive(Debug)]
pub enum CastCommand {
    Pause,
    Resume,
    Shutdown,
    Seek(Seconds),
    /// Receiver volume, in percent.
    SetVolume(i32),
    SetMute(bool),
    /// Point the receiver at a different stream URL (the media server was
    /// rebuilt, e.g. with a new audio boost) and resume at a position.
    Reload(ReloadRequest),
    /// Show one of the declared subtitle tracks (`None` = off).
    SetSubtitle(Option<u32>),
}

#[derive(Debug)]
pub struct ReloadRequest {
    pub url: String,
    pub transcode: bool,
    pub exact_seek: bool,
    pub position: Seconds,
}

/// What is to be done next.
#[derive(Debug, Clone, Copy, PartialEq, Eq, Structural)]
pub enum CastAction {
    Nothing,
    /// Tell the receiver to pause, then report with `paused`.
    Pause { media_session_id: i32 },
    /// Tell the receiver to play on, then report with `resumed`.
    Play { media_session_id: i32 },
    /// Tell the receiver to seek, then report with `seeked`.
    SeekReceiver { media_session_id: i32, position: Seconds },
    /// Look for the keyframe at or before the position, then go on with `keyframe_found`.
    FindKeyframe { position: Seconds },
    /// Load the stream from `start` on, then report with `loaded`.
    LoadStream { start: Seconds },
    /// Load the whole file and go to `position` in it, then report with `loaded`.
    LoadFile { position: Seconds },
    /// Switch the subtitle track, then report with `edited`.
    EditTracks { media_session_id: i32, track: Option<u32> },
    /// Set the receiver's volume, then report with `publish_volume`.
    SetVolume { percent: i32 },
    /// Mute or unmute the receiver, then report with `publish_volume`.
    SetMute { muted: bool },
    /// Stop playback and leave.
    Leave,
}

/// What comes in while nothing is asked.
#[derive(Debug)]
pub enum CastMessage {
    Heartbeat,
    Volume { level: Option<i32>, muted: Option<bool> },
    Media(MediaStatus),
    LoadFailed,
    LoadCancelled,
    /// The receiver reports an error; with its details.
    MediaError { detail: String },
    Other,
    /// Nothing came in time.
    Timeout,
    /// Reading from the receiver failed.
    Failed,
}

/// How the session goes on after a message.
#[derive(Debug, Clone, Copy, PartialEq, Eq, Structural)]
pub enum CastNext {
    Continue,
    /// Answer the heartbeat.
    Pong,
    /// Stop playback on the receiver and report the end of the session.
    End,
    /// The connection is lost: report the end of the session.
    Lost,
}

/// What to ask the receiver in one round of polling.
#[derive(Debug, Clone, Copy, PartialEq, Eq, Structural)]
pub struct PollPlan {
    pub volume: bool,
    pub media: Option<i32>,
}

/// So many failed reads of a session are put up with.
pub const MAX_ERRORS: u32 = 5;

/// The volume is asked for in every so manieth round of polling.
pub const VOLUME_ROUNDS: u32 = 5;

/// The volume is asked for in this round of polling.
pub open spec fn asks_volume(polls: u32) -> bool {
    polls % VOLUME_ROUNDS == 0
}

#[derive(Debug)]
pub struct CastMachine {
    pub session_id: u64,
    /// The URL the receiver currently plays (without any `?start=`).
    pub content_url: String,
    pub transcode: bool,
    pub exact_seek: bool,
    /// The subtitle track the receiver should show.
    pub active_track: Option<u32>,
    /// The receiver's number for what it plays; 0 while unknown.
    pub media_session_id: i32,
    /// Where the stream that the receiver plays begins in the file.
    pub position_offset: Seconds,
    pub errors: u32,
    pub polls: u32,
}

/// What a machine holds.
#[verifier::ext_equal]
pub struct MachineView {
    pub session_id: u64,
    pub content_url: Seq<char>,
    pub transcode: bool,
    pub exact_seek: bool,
    pub active_track: Option<u32>,
    pub media_session_id: i32,
    pub position_offset: Seconds,
    pub errors: u32,
    pub polls: u32,
}

impl View for CastMachine {
    type V = MachineView;

    open spec fn view(&self) -> MachineView {
        MachineView {
            session_id: self.session_id,
            content_url: self.content_url@,
            transcode: self.transcode,
            exact_seek: self.exact_seek,
            active_track: self.active_track,
            media_session_id: self.media_session_id,
            position_offset: self.position_offset,
            errors: self.errors,
            polls: self.polls,
        }
    }
}

impl MachineView {
    /// Errors beyond the limit end a session at once.
    pub open spec fn wf(self) -> bool {
        self.errors <= MAX_ERRORS
    }

    /// How a position in a stream is reached that the receiver cannot seek in.
    pub open spec fn restart(self, position: Seconds) -> (MachineView, CastAction) {
        if self.exact_seek {
            (
                MachineView { position_offset: position, ..self },
                CastAction::LoadStream { start: position },
            )
        } else {
            (self, CastAction::FindKeyframe { position })
        }
    }

    /// The machine after a command, and what is to be done.
    pub open spec fn commanded(self, command: CastCommand) -> (MachineView, CastAction) {
        match command {
            CastCommand::Pause => (
                self,
                if self.media_session_id != 0 {
                    CastAction::Pause { media_session_id: self.media_session_id }
                } else {
                    CastAction::Nothing
                },
            ),
            CastCommand::Resume => (
                self,
                if self.media_session_id != 0 {
                    CastAction::Play { media_session_id: self.media_session_id }
                } else {
                    CastAction::Nothing
                },
            ),
            CastCommand::Shutdown => (self, CastAction::Leave),
            CastCommand::Seek(position) => if self.media_session_id == 0 {
                (self, CastAction::Nothing)
            } else if self.transcode {
                self.restart(position)
            } else {
                (
                    self,
                    CastAction::SeekReceiver { media_session_id: self.media_session_id, position },
                )
            },
            CastCommand::SetVolume(percent) => (self, CastAction::SetVolume { percent }),
            CastCommand::SetMute(muted) => (self, CastAction::SetMute { muted }),
            CastCommand::SetSubtitle(track) => (
                MachineView { active_track: track, ..self },
                if self.media_session_id != 0 {
                    CastAction::EditTracks { media_session_id: self.media_session_id, track }
                } else {
                    CastAction::Nothing
                },
            ),
            CastCommand::Reload(request) => {
                let swapped = MachineView {
                    content_url: request.url@,
                    transcode: request.transcode,
                    exact_seek: request.exact_seek,
                    ..self
                };
                if request.transcode {
                    swapped.restart(request.position)
                } else {
                    (
                        MachineView { position_offset: Seconds { bits: 0 }, ..swapped },
                        CastAction::LoadFile { position: request.position },
                    )
                }
            },
        }
    }

    /// The machine after a keyframe was looked for, and what is to be done.
    pub open spec fn keyframed(self, position: Seconds, found: Option<Seconds>) -> (
        MachineView,
        CastAction,
    ) {
        let start = match found {
            Some(start) => start,
            None => position,
        };
        (MachineView { position_offset: start, ..self }, CastAction::LoadStream { start })
    }

    /// The address of the stream from a start on.
    pub open spec fn address_from(self, shown: Seq<char>) -> Seq<char> {
        self.content_url + "?start="@ + shown
    }

    /// What is played, if anything is.
    pub open spec fn medium(self) -> Option<i32> {
        if self.media_session_id != 0 {
            Some(self.media_session_id)
        } else {
            None
        }
    }

    /// The number of what is played, after a status that answers a LOAD.
    pub open spec fn after_load(self, status: Option<MediaStatus>) -> MachineView {
        match status {
            Some(status) => match status.head() {
                Some(entry) => MachineView { media_session_id: entry.media_session_id, ..self },
                None => self,
            },
            None => self,
        }
    }

    /// The machine after a status that nobody asked for.
    pub open spec fn after_status(self, status: MediaStatus) -> MachineView {
        match status.head() {
            Some(entry) => if self.media_session_id == 0 || entry.media_session_id
                == self.media_session_id {
                MachineView { media_session_id: entry.media_session_id, ..self }
            } else {
                self
            },
            None => self,
        }
    }

    /// The machine after a message.
    pub open spec fn after_message(self, message: CastMessage) -> MachineView {
        match message {
            CastMessage::Media(status) => self.after_status(status),
            CastMessage::Failed => if self.errors < MAX_ERRORS {
                MachineView { errors: (self.errors + 1) as u32, ..self }
            } else {
                self
            },
            _ => self,
        }
    }

    /// The session after a message.
    pub open spec fn heard(self, s: SessionView, message: CastMessage) -> SessionView {
        match message {
            CastMessage::Volume { level, muted } => volume_applied(s, self.session_id, level, muted),
            CastMessage::Media(status) => status_applied(
                s,
                self.session_id,
                status,
                self.media_session_id,
            ),
            CastMessage::LoadFailed => error_applied(s, self.session_id, "Load failed."@),
            CastMessage::MediaError { detail } => error_applied(
                s,
                self.session_id,
                "The receiver reported: "@ + detail@,
            ),
            CastMessage::Failed => if self.errors >= MAX_ERRORS {
                error_applied(s, self.session_id, "Lost the connection to the receiver."@)
            } else {
                s
            },
            _ => s,
        }
    }

    /// How the session goes on after a message.
    pub open spec fn next(self, s: SessionView, message: CastMessage) -> CastNext {
        match message {
            CastMessage::Heartbeat => CastNext::Pong,
            CastMessage::Media(status) => if status_ends(
                s,
                self.session_id,
                status,
                self.media_session_id,
            ) {
                CastNext::End
            } else {
                CastNext::Continue
            },
            CastMessage::LoadFailed => CastNext::End,
            CastMessage::MediaError { .. } => CastNext::End,
            CastMessage::Failed => if self.errors >= MAX_ERRORS {
                CastNext::Lost
            } else {
                CastNext::Continue
            },
            _ => CastNext::Continue,
        }
    }

    /// A round of polling is due: something plays or is paused, and it is time.
    pub open spec fn due(self, s: SessionView, elapsed: bool) -> bool {
        elapsed && s.session_id == self.session_id && (s.state is Playing || s.state is Paused)
    }
}

impl CastMachine {
    /// A machine for the session numbered `session_id`, of which the receiver
    /// has loaded `content_url` from its start.
    pub fn new(
        session_id: u64,
        content_url: &str,
        transcode: bool,
        exact_seek: bool,
        active_track: Option<u32>,
    ) -> (r: CastMachine)
        ensures
            r@.wf(),
            r@ == MachineView::begun(
                session_id,
                content_url@,
                transcode,
                exact_seek,
                active_track,
            ),
    {
        CastMachine {
            session_id,
            content_url: content_url.to_owned(),
            transcode,
            exact_seek,
            active_track,
            media_session_id: 0,
            position_offset: Seconds::zero(),
            errors: 0,
            polls: 0,
        }
    }

    fn restart(&mut self, position: Seconds) -> (r: CastAction)
        ensures
            (final(self)@, r) == old(self)@.restart(position),
    {
        if self.exact_seek {
            self.position_offset = position;
            CastAction::LoadStream { start: position }
        } else {
            CastAction::FindKeyframe { position }
        }
    }

    /// Takes a command; what is to be done comes back.
    pub fn command(&mut self, command: CastCommand) -> (r: CastAction)
        ensures
            (final(self)@, r) == old(self)@.commanded(command),
    {
        match command {
            CastCommand::Pause => if self.media_session_id != 0 {
                CastAction::Pause { media_session_id: self.media_session_id }
            } else {
                CastAction::Nothing
            },
            CastCommand::Resume => if self.media_session_id != 0 {
                CastAction::Play { media_session_id: self.media_session_id }
            } else {
                CastAction::Nothing
            },
            CastCommand::Shutdown => CastAction::Leave,
            CastCommand::Seek(position) => if self.media_session_id == 0 {
                CastAction::Nothing
            } else if self.transcode {
                self.restart(position)
            } else {
                CastAction::SeekReceiver { media_session_id: self.media_session_id, position }
            },
            CastCommand::SetVolume(percent) => CastAction::SetVolume { percent },
            CastCommand::SetMute(muted) => CastAction::SetMute { muted },
            CastCommand::SetSubtitle(track) => {
                self.active_track = track;
                if self.media_session_id != 0 {
                    CastAction::EditTracks { media_session_id: self.media_session_id, track }
                } else {
                    CastAction::Nothing
                }
            },
            CastCommand::Reload(request) => {
                self.content_url = request.url;
                self.transcode = request.transcode;
                self.exact_seek = request.exact_seek;
                if request.transcode {
                    self.restart(request.position)
                } else {
                    self.position_offset = Seconds::zero();
                    CastAction::LoadFile { position: request.position }
                }
            },
        }
    }

    /// Takes the status with which the receiver answered the first LOAD: no
    /// number of a medium is known yet, so none can be given up.
    pub fn started(&self, session: &mut Session, status: &MediaStatus)
        ensures
            final(session)@ == status_applied(
                old(session)@,
                self.session_id,
                *status,
                (-1) as i32,
            ),
    {
        publish_status(session, self.session_id, status, -1);
    }

    /// Takes the keyframe that was looked for; without one the stream starts
    /// at the wanted position itself.
    pub fn keyframe_found(&mut self, position: Seconds, found: Option<Seconds>) -> (r: CastAction)
        ensures
            (final(self)@, r) == old(self)@.keyframed(position, found),
    {
        let start = match found {
            Some(start) => start,
            None => position,
        };
        self.position_offset = start;
        CastAction::LoadStream { start }
    }

    /// The address of the stream from a start, shown to three places, on.
    pub fn stream_address(&self, shown: &str) -> (r: String)
        ensures
            r@ == self@.address_from(shown@),
    {
        let mut url = self.content_url.clone();
        url.append("?start=");
        url.append(shown);
        url
    }

    /// Takes the receiver's answer to a LOAD: on success playback buffers at
    /// the position that was loaded.
    pub fn loaded(&mut self, session: &mut Session, position: Seconds, status: Option<&MediaStatus>)
        ensures
            final(self)@ == old(self)@.after_load(
                match status {
                    Some(status) => Some(*status),
                    None => None,
                },
            ),
            final(session)@ == answer_applied(
                old(session)@,
                old(self).session_id,
                position,
                status is Some,
            ),
    {
        if let Some(status) = status {
            if status.entries.len() > 0 {
                self.media_session_id = status.entries[0].media_session_id;
            }
            if session.session_id == self.session_id {
                session.position = position;
                session.state = SessionState::Buffering;
            }
        }
    }

    /// Takes the receiver's answer to a pause.
    pub fn paused(&self, session: &mut Session, ok: bool)
        ensures
            final(session)@ == pause_applied(old(session)@, self.session_id, ok),
    {
        if ok && session.session_id == self.session_id && session.state == SessionState::Playing {
            session.state = SessionState::Paused;
        }
    }

    /// Takes the receiver's answer to a resume.
    pub fn resumed(&self, session: &mut Session, ok: bool)
        ensures
            final(session)@ == resume_applied(old(session)@, self.session_id, ok),
    {
        if ok && session.session_id == self.session_id && session.state == SessionState::Paused {
            session.state = SessionState::Playing;
        }
    }

    /// Takes the receiver's answer to a seek, after which it plays.
    pub fn seeked(&self, session: &mut Session, position: Seconds, ok: bool)
        ensures
            final(session)@ == seek_applied(old(session)@, self.session_id, position, ok),
    {
        if ok && session.session_id == self.session_id {
            session.position = position;
            if session.state == SessionState::Paused {
                session.state = SessionState::Playing;
            }
        }
    }

    /// Takes the receiver's answer to a change of the subtitle track.
    pub fn edited(&self, session: &mut Session, track: Option<u32>, ok: bool)
        ensures
            final(session)@ == edit_applied(old(session)@, self.session_id, track, ok),
    {
        if ok && session.session_id == self.session_id {
            session.subtitle = track;
        }
    }

    /// Takes a message of the receiver.
    pub fn message(&mut self, session: &mut Session, message: CastMessage) -> (r: CastNext)
        requires
            old(self)@.wf(),
        ensures
            final(self)@.wf(),
            final(self)@ == old(self)@.after_message(message),
            final(session)@ == old(self)@.heard(old(session)@, message),
            r == old(self)@.next(old(session)@, message),
    {
        match message {
            CastMessage::Heartbeat => CastNext::Pong,
            CastMessage::Volume { level, muted } => {
                publish_volume(session, self.session_id, level, muted);
                CastNext::Continue
            },
            CastMessage::Media(status) => {
                let ended = publish_status(session, self.session_id, &status, self.media_session_id);
                if status.entries.len() > 0 {
                    let id = status.entries[0].media_session_id;
                    if self.media_session_id == 0 || id == self.media_session_id {
                        self.media_session_id = id;
                    }
                }
                if ended {
                    CastNext::End
                } else {
                    CastNext::Continue
                }
            },
            CastMessage::LoadFailed => {
                set_error(session, self.session_id, "Load failed.");
                CastNext::End
            },
            CastMessage::LoadCancelled => CastNext::Continue,
            CastMessage::MediaError { detail } => {
                let mut message = "The receiver reported: ".to_owned();
                message.append(detail.as_str());
                set_error(session, self.session_id, message.as_str());
                CastNext::End
            },
            CastMessage::Other => CastNext::Continue,
            CastMessage::Timeout => CastNext::Continue,
            CastMessage::Failed => if self.errors >= MAX_ERRORS {
                set_error(session, self.session_id, "Lost the connection to the receiver.");
                CastNext::Lost
            } else {
                self.errors = self.errors + 1;
                CastNext::Continue
            },
        }
    }

    /// Whether the published session is no longer the one of this machine.
    pub fn is_stale(&self, session: &Session) -> (r: bool)
        ensures
            r == (session@.session_id != self@.session_id),
    {
        session.session_id != self.session_id
    }

    /// What to ask in the round of polling that is due, if one is.
    pub fn poll(&mut self, session: &Session, elapsed: bool) -> (r: Option<PollPlan>)
        ensures
            r is Some == old(self)@.due(session@, elapsed),
            r matches Some(plan) ==> {
                &&& final(self)@ == old(self)@.after_round()
                &&& plan.volume == asks_volume(old(self)@.after_round().polls)
                &&& plan.media == old(self)@.medium()
            },
            r is None ==> final(self)@ == old(self)@,
    {
        if !elapsed || session.session_id != self.session_id {
            return None;
        }
        match session.state {
            SessionState::Playing => {},
            SessionState::Paused => {},
            _ => {
                return None;
            },
        }
        self.polls = self.polls.wrapping_add(1);
        Some(
            PollPlan {
                volume: self.polls % VOLUME_ROUNDS == 0,
                media: if self.media_session_id != 0 {
                    Some(self.media_session_id)
                } else {
                    None
                },
            },
        )
    }

    /// Takes the status that a round of polling brought.
    pub fn polled(&self, session: &mut Session, status: &MediaStatus) -> (r: CastNext)
        ensures
            final(session)@ == status_applied(
                old(session)@,
                self.session_id,
                *status,
                self.media_session_id,
            ),
            r == next_after_status(
                old(session)@,
                self.session_id,
                *status,
                self.media_session_id,
            ),
    {
        if publish_status(session, self.session_id, status, self.media_session_id) {
            CastNext::End
        } else {
            CastNext::Continue
        }
    }

    /// What is to be stopped on the receiver before its app is.
    pub fn teardown(&self) -> (r: Option<i32>)
        ensures
            r == self@.medium(),
    {
        if self.media_session_id != 0 {
            Some(self.media_session_id)
        } else {
            None
        }
    }
}

// ---------------------------------------------------------------------------
// Laws

/// A session that took the place of this one is never touched.
pub proof fn newer_session_untouched(
    m: MachineView,
    s: SessionView,
    message: CastMessage,
    status: MediaStatus,
    next: SessionView,
)
    requires
        s.session_id != m.session_id,
    ensures
        m.heard(s, message) == s,
        status_applied(s, m.session_id, status, m.media_session_id) == s,
        guarded(s, m.session_id, next) == s,
        !m.due(s, true),
{
}

/// A session is reported as ended only in a state in which the daemon clears
/// it away: stopped or failed.
pub proof fn end_is_stopped_or_failed(m: MachineView, s: SessionView, message: CastMessage)
    requires
        s.session_id == m.session_id,
        m.next(s, message) is End || m.next(s, message) is Lost,
    ensures
        m.heard(s, message).state is Stopped || m.heard(s, message).state is Error,
{
}

/// A status ends the session in such a state too, and a status that does not
/// end it never puts it there.
pub proof fn status_end_is_visible(s: SessionView, session_id: u64, status: MediaStatus, id: i32)
    requires
        s.session_id == session_id,
        s.state.active(),
        !(s.state is Error),
    ensures
        ({
            let after = status_applied(s, session_id, status, id).state;
            status_ends(s, session_id, status, id) == (after is Stopped || after is Error)
        }),
{
}

/// A volume that a session holds stays a percentage, whatever the receiver
/// reports.
pub proof fn volume_stays_in_range(
    m: MachineView,
    s: SessionView,
    message: CastMessage,
    status: MediaStatus,
)
    requires
        s.volume_in_range(),
    ensures
        m.heard(s, message).volume_in_range(),
        status_applied(s, m.session_id, status, m.media_session_id).volume_in_range(),
{
}

/// Where the stream that is loaded begins is what the reported positions are
/// counted from: a stream that is made on the way from where it starts, a file
/// that is served as it is from its beginning. A stream that is made on the
/// way is never left to the receiver to seek in, and a served file is never
/// loaded anew for a seek.
pub proof fn offset_is_stream_start(m: MachineView, command: CastCommand)
    ensures
        ({
            let (next, action) = m.commanded(command);
            &&& action matches CastAction::LoadStream { start } ==> next.position_offset == start
                && next.transcode
            &&& action is FindKeyframe ==> next.transcode && !next.exact_seek
            &&& action is LoadFile ==> next.position_offset == (Seconds { bits: 0 })
                && !next.transcode
            &&& action is SeekReceiver ==> !next.transcode && next.position_offset
                == m.position_offset
            &&& command is Seek && !m.transcode ==> action is SeekReceiver || action is Nothing
        }),
{
}

/// No message and no status changes which session is published, or what it is
/// about.
pub proof fn identity_kept(m: MachineView, s: SessionView, message: CastMessage)
    ensures
        ({
            let after = m.heard(s, message);
            &&& after.session_id == s.session_id
            &&& after.ip == s.ip
            &&& after.name == s.name
            &&& after.protocol == s.protocol
            &&& after.file == s.file
            &&& after.boost == s.boost
            &&& after.subtitles == s.subtitles
            &&& after.subtitle == s.subtitle
        }),
{
}

/// While the receiver plays, buffers or is paused, that is the state that is
/// published, and nothing has ended.
pub proof fn published_state_is_the_reported_one(
    s: SessionView,
    session_id: u64,
    status: MediaStatus,
    media_session_id: i32,
)
    requires
        s.session_id == session_id,
        status.entries@.len() > 0,
        !(status.entries@[0].player_state is Idle),
    ensures
        ({
            let after = status_applied(s, session_id, status, media_session_id);
            let reported = status.entries@[0].player_state;
            &&& after.state is Paused <==> reported is Paused
            &&& after.state is Playing <==> reported is Playing
            &&& after.state is Buffering <==> reported is Buffering
            &&& after.error == s.error
            &&& !status_ends(s, session_id, status, media_session_id)
        }),
{
}

/// An idle receiver ends the session where it failed or came to the end, and
/// where it gave up the medium of this session, or of one not known yet; that
/// it gave up another one, or idles for no reason, ends and changes nothing.
pub proof fn idle_ends_what_it_is_about(
    s: SessionView,
    session_id: u64,
    status: MediaStatus,
    media_session_id: i32,
)
    requires
        s.session_id == session_id,
        status.entries@.len() > 0,
        status.entries@[0].player_state is Idle,
    ensures
        ({
            let entry = status.entries@[0];
            let after = status_applied(s, session_id, status, media_session_id);
            let ends = status_ends(s, session_id, status, media_session_id);
            let own = media_session_id == 0 || entry.media_session_id == media_session_id;
            &&& entry.idle_reason == Some(IdleReason::Error) ==> ends && after.state is Error
                && after.error.len() > 0
            &&& entry.idle_reason == Some(IdleReason::Finished) ==> ends && after.state is Stopped
                && after.error == s.error
            &&& (entry.idle_reason == Some(IdleReason::Cancelled) || entry.idle_reason == Some(
                IdleReason::Interrupted,
            )) && own ==> ends && after.state is Stopped && after.error == s.error
            &&& (entry.idle_reason == Some(IdleReason::Cancelled) || entry.idle_reason == Some(
                IdleReason::Interrupted,
            )) && !own ==> !ends && after.state == s.state && after.error == s.error
            &&& entry.idle_reason is None ==> !ends && after.state == s.state && after.error
                == s.error
        }),
{
    reveal_strlit("The receiver could not play this media.");
}

/// A status moves the position to the one it reports, and fills in a duration
/// that is not known yet; it says nothing of anything else, and one without an
/// entry says nothing at all.
pub proof fn status_moves_the_position(
    s: SessionView,
    session_id: u64,
    status: MediaStatus,
    media_session_id: i32,
)
    ensures
        ({
            let after = status_applied(s, session_id, status, media_session_id);
            &&& after == (SessionView {
                state: after.state,
                error: after.error,
                position: after.position,
                duration: after.duration,
                ..s
            })
            &&& status.entries@.len() == 0 ==> after == s && !status_ends(
                s,
                session_id,
                status,
                media_session_id,
            )
            &&& status.entries@.len() > 0 && s.session_id == session_id ==> {
                let entry = status.entries@[0];
                &&& entry.position matches Some(position) ==> after.position == position
                &&& entry.position is None ==> after.position == s.position
                &&& s.duration.positive() ==> after.duration == s.duration
                &&& s.duration == (Seconds { bits: 0 }) ==> (entry.duration matches Some(duration)
                    ==> after.duration == duration)
                &&& entry.duration is None ==> after.duration == s.duration
            }
        }),
{
}

/// A volume that the receiver reports as a percentage is published as it is,
/// and so is whether it is muted; what it does not report stays.
pub proof fn published_volume_is_the_reported_one(
    s: SessionView,
    session_id: u64,
    level: Option<i32>,
    muted: Option<bool>,
)
    requires
        s.session_id == session_id,
    ensures
        ({
            let after = volume_applied(s, session_id, level, muted);
            &&& after.volume_supported
            &&& level matches Some(n) ==> (0 <= n <= 100 ==> after.volume == n) && (n < 0
                ==> after.volume == 0) && (n > 100 ==> after.volume == 100)
            &&& level is None ==> after.volume == s.volume
            &&& muted matches Some(m) ==> after.muted == m
            &&& muted is None ==> after.muted == s.muted
            &&& after == (SessionView {
                volume: after.volume,
                muted: after.muted,
                volume_supported: true,
                ..s
            })
        }),
{
}

/// A LOAD is done once the receiver reports under its number, or reports the
/// medium itself; it has failed once the receiver says so under its number.
/// Nothing else is an answer to it.
pub proof fn load_waits_for_its_answer(
    reply: MediaReply,
    request_id: u32,
    content_id: Seq<char>,
    i: int,
)
    ensures
        ({
            let meaning = load_meaning(reply, request_id, content_id);
            &&& reply matches MediaReply::Status(status) ==> {
                &&& status.request_id == request_id ==> meaning is Done
                &&& 0 <= i < status.entries@.len() && (status.entries@[i].content_id matches Some(
                    id,
                ) && id@ == content_id) ==> meaning is Done
                &&& !(meaning is Failed)
                &&& meaning is Done && status.request_id != request_id ==> exists|k: int|
                    0 <= k < status.entries@.len() && ((
                    #[trigger] status.entries@[k]).content_id matches Some(id) && id@
                        == content_id)
            }
            &&& reply matches MediaReply::LoadFailed { request_id: id } ==> (meaning is Failed
                <==> id == request_id)
            &&& reply matches MediaReply::LoadCancelled { request_id: id } ==> (meaning is Failed
                <==> id == request_id)
            &&& meaning is Done ==> reply is Status
            &&& meaning is Failed ==> reply is LoadFailed || reply is LoadCancelled
        }),
{
}

/// A change of the subtitles is done once the receiver reports under its number;
/// a rejection tells why.
pub proof fn edit_waits_for_its_answer(reply: MediaReply, request_id: u32)
    ensures
        ({
            let meaning = edit_meaning(reply, request_id);
            &&& meaning is Done <==> (reply matches MediaReply::Status(status)
                && status.request_id == request_id)
            &&& meaning is Failed <==> reply is InvalidRequest
            &&& reply matches MediaReply::InvalidRequest { detail } ==> (meaning matches AnswerView::Failed(
                message,
            ) && crate::text::ends(message, detail@))
        }),
{
    if let MediaReply::InvalidRequest { detail } = reply {
        let message = "the receiver rejected the track change: "@ + detail@;
        assert(message.skip(message.len() - detail@.len()) =~= detail@);
    }
}

/// A command that needs a playing medium is about the one that plays, does
/// what it says, and is let go where none is known.
pub proof fn commands_reach_the_medium(m: MachineView, position: Seconds, track: Option<u32>)
    ensures
        ({
            let id = m.media_session_id;
            let pause = m.commanded(CastCommand::Pause).1;
            let resume = m.commanded(CastCommand::Resume).1;
            let seek = m.commanded(CastCommand::Seek(position)).1;
            let show = m.commanded(CastCommand::SetSubtitle(track)).1;
            &&& id != 0 ==> pause == (CastAction::Pause { media_session_id: id }) && resume == (
            CastAction::Play { media_session_id: id }) && show == (CastAction::EditTracks {
                media_session_id: id,
                track,
            })
            &&& id != 0 && !m.transcode ==> seek == (CastAction::SeekReceiver {
                media_session_id: id,
                position,
            })
            &&& id != 0 && m.transcode && m.exact_seek ==> seek == (CastAction::LoadStream {
                start: position,
            })
            &&& id != 0 && m.transcode && !m.exact_seek ==> seek == (CastAction::FindKeyframe {
                position,
            })
            &&& id == 0 ==> pause is Nothing && resume is Nothing && seek is Nothing
                && show is Nothing
            &&& m.commanded(CastCommand::SetSubtitle(track)).0.active_track == track
            &&& m.commanded(CastCommand::Shutdown).1 is Leave
        }),
{
}

/// The receiver's volume is set to what was asked for, whatever plays.
pub proof fn volume_commands_are_passed_on(m: MachineView, level: i32, muted: bool)
    ensures
        m.commanded(CastCommand::SetVolume(level)) == (m, CastAction::SetVolume { percent: level }),
        m.commanded(CastCommand::SetMute(muted)) == (m, CastAction::SetMute { muted }),
{
}

/// After a reload the new address is what plays, the way it is now made, from
/// the position that was asked for on.
pub proof fn reload_plays_the_new_stream(m: MachineView, request: ReloadRequest)
    ensures
        ({
            let (next, action) = m.commanded(CastCommand::Reload(request));
            &&& next.content_url == request.url@
            &&& next.transcode == request.transcode
            &&& next.exact_seek == request.exact_seek
            &&& next.active_track == m.active_track
            &&& next.media_session_id == m.media_session_id
            &&& !request.transcode ==> action == (CastAction::LoadFile {
                position: request.position,
            })
            &&& request.transcode && request.exact_seek ==> action == (CastAction::LoadStream {
                start: request.position,
            })
            &&& request.transcode && !request.exact_seek ==> action == (CastAction::FindKeyframe {
                position: request.position,
            })
        }),
{
}

/// No command but a reload changes what is played and how, none but a choice
/// of subtitles changes the track, and none changes whose session it is.
pub proof fn commands_keep_the_rest(m: MachineView, command: CastCommand)
    ensures
        ({
            let next = m.commanded(command).0;
            &&& !(command is Reload) ==> next.content_url == m.content_url && next.transcode
                == m.transcode && next.exact_seek == m.exact_seek
            &&& !(command is SetSubtitle) ==> next.active_track == m.active_track
            &&& !(command is Reload) && !(command is Seek) ==> next.position_offset
                == m.position_offset
            &&& next.session_id == m.session_id
            &&& next.media_session_id == m.media_session_id
            &&& next.errors == m.errors
            &&& next.polls == m.polls
        }),
{
}

/// The machine follows the medium that a LOAD brought, and of those that it
/// hears of on the way takes up one only while it knows none.
pub proof fn machine_follows_its_medium(m: MachineView, status: MediaStatus)
    ensures
        status.entries@.len() > 0 ==> m.after_load(Some(status)).media_session_id
            == status.entries@[0].media_session_id,
        status.entries@.len() == 0 ==> m.after_load(Some(status)) == m && m.after_status(status)
            == m,
        m.after_load(None) == m,
        m.media_session_id != 0 ==> m.after_status(status) == m,
        m.media_session_id == 0 && status.entries@.len() > 0 ==> m.after_status(
            status,
        ).media_session_id == status.entries@[0].media_session_id,
{
}

/// A heartbeat is answered; silence, a cancelled load and what is not
/// understood pass by; a failed load and an error end the session, and say so.
pub proof fn messages_are_acted_on(m: MachineView, s: SessionView, message: CastMessage)
    requires
        s.session_id == m.session_id,
    ensures
        m.next(s, message) is Pong <==> message is Heartbeat,
        message is Heartbeat || message is LoadCancelled || message is Other || message is Timeout
            ==> m.heard(s, message) == s && m.after_message(message) == m && !(m.next(
            s,
            message,
        ) is End) && !(m.next(s, message) is Lost),
        message is Volume ==> m.next(s, message) is Continue && m.heard(s, message).state
            == s.state,
        message is LoadFailed ==> m.next(s, message) is End && m.heard(s, message).state is Error
            && m.heard(s, message).error.len() > 0,
        message matches CastMessage::MediaError { detail } ==> m.next(s, message) is End && m.heard(
            s,
            message,
        ).state is Error && crate::text::ends(m.heard(s, message).error, detail@),
        message matches CastMessage::Media(status) ==> (m.next(s, message) is End <==> status_ends(
            s,
            m.session_id,
            status,
            m.media_session_id,
        )) && m.heard(s, message) == status_applied(s, m.session_id, status, m.media_session_id),
{
    reveal_strlit("Load failed.");
    if let CastMessage::MediaError { detail } = message {
        let shown = "The receiver reported: "@ + detail@;
        assert(shown.skip(shown.len() - detail@.len()) =~= detail@);
    }
}

/// Five failed reads are put up with, each of them counted; the sixth loses the
/// session, and nothing else does.
pub proof fn sixth_failure_loses_the_session(m: MachineView, s: SessionView, message: CastMessage)
    requires
        s.session_id == m.session_id,
    ensures
        m.next(s, message) is Lost <==> message is Failed && m.errors >= 5,
        message is Failed && m.errors < 5 ==> m.after_message(message).errors == m.errors + 1
            && m.heard(s, message) == s,
        message is Failed && m.errors >= 5 ==> m.heard(s, message).state is Error && m.heard(
            s,
            message,
        ).error.len() > 0,
        !(message is Failed) ==> m.after_message(message).errors == m.errors,
        message is Failed && m.errors >= 5 ==> m.after_message(message) == m,
{
    reveal_strlit("Lost the connection to the receiver.");
}

/// The receiver is asked how it fares while it plays or is paused, and only
/// for the session that is published.
pub proof fn polled_while_something_plays(m: MachineView, s: SessionView)
    ensures
        !m.due(s, false),
        s.session_id == m.session_id && (s.state is Playing || s.state is Paused) ==> m.due(s, true),
        s.session_id != m.session_id || s.state is Idle || s.state is Stopped || s.state is Error
            || s.state is Connecting || s.state is Buffering ==> !m.due(s, true),
{
}

/// A pause that the receiver confirms pauses what plays, and a resume takes it
/// back; neither does anything to what does not play or is not paused, or
/// where the receiver refuses.
pub proof fn resume_undoes_pause(s: SessionView, session_id: u64)
    requires
        s.session_id == session_id,
    ensures
        s.state is Playing ==> pause_applied(s, session_id, true).state is Paused,
        s.state is Paused ==> resume_applied(s, session_id, true).state is Playing,
        s.state is Playing ==> resume_applied(
            pause_applied(s, session_id, true),
            session_id,
            true,
        ) == s,
        s.state is Paused ==> pause_applied(
            resume_applied(s, session_id, true),
            session_id,
            true,
        ) == s,
        !(s.state is Playing) ==> pause_applied(s, session_id, true) == s,
        !(s.state is Paused) ==> resume_applied(s, session_id, true) == s,
        pause_applied(s, session_id, false) == s,
        resume_applied(s, session_id, false) == s,
{
}

/// After a seek or a load that the receiver confirms, the session is at the
/// position that was asked for, and not paused; after a refused one it is as
/// before. The subtitles are those that the receiver confirmed.
pub proof fn confirmed_changes_are_shown(
    s: SessionView,
    session_id: u64,
    position: Seconds,
    track: Option<u32>,
)
    requires
        s.session_id == session_id,
    ensures
        ({
            let sought = seek_applied(s, session_id, position, true);
            let loaded = load_applied(s, session_id, position);
            let edited = edit_applied(s, session_id, track, true);
            &&& sought.position == position
            &&& s.state is Paused ==> sought.state is Playing
            &&& !(s.state is Paused) ==> sought.state == s.state
            &&& sought == (SessionView { position, state: sought.state, ..s })
            &&& loaded == (SessionView { position, state: loaded.state, ..s })
            &&& loaded.state is Buffering
            &&& edited == (SessionView { subtitle: edited.subtitle, ..s })
            &&& edited.subtitle == track
        }),
        seek_applied(s, session_id, position, false) == s,
        edit_applied(s, session_id, track, false) == s,
{
}

/// A stream that cannot start just anywhere starts at the keyframe that was
/// found, or else where it was asked for; its positions are counted from there,
/// and its address says so.
pub proof fn stream_starts_at_the_keyframe(
    m: MachineView,
    position: Seconds,
    found: Option<Seconds>,
    shown: Seq<char>,
)
    ensures
        ({
            let (next, action) = m.keyframed(position, found);
            &&& found matches Some(start) ==> action == (CastAction::LoadStream { start })
            &&& found is None ==> action == (CastAction::LoadStream { start: position })
            &&& action == (CastAction::LoadStream { start: next.position_offset })
            &&& next == (MachineView { position_offset: next.position_offset, ..m })
        }),
        crate::text::begins(m.address_from(shown), m.content_url + "?start="@),
        crate::text::ends(m.address_from(shown), shown),
{
    let address = m.address_from(shown);
    let head = m.content_url + "?start="@;
    assert(address.take(head.len() as int) =~= head);
    assert(address.skip(address.len() - shown.len()) =~= shown);
}

/// Of five rounds of polling one after another, exactly one asks for the volume.
pub proof fn volume_is_asked_for_now_and_then(polls: u32)
    requires
        polls <= u32::MAX - 5,
    ensures
        asks_volume(polls) == asks_volume((polls + 5) as u32),
        asks_volume(polls) ==> !asks_volume((polls + 1) as u32) && !asks_volume((polls + 2) as u32)
            && !asks_volume((polls + 3) as u32) && !asks_volume((polls + 4) as u32),
        asks_volume(0),
{
}

/// What is asked after, and stopped at the end, is the medium that plays.
pub proof fn medium_is_the_one_that_plays(m: MachineView)
    ensures
        m.medium() is None <==> m.media_session_id == 0,
        m.medium() matches Some(id) ==> id == m.media_session_id,
{
}

/// The session after the answer to a LOAD, which came or did not.
pub open spec fn answer_applied(
    s: SessionView,
    session_id: u64,
    position: Seconds,
    answered: bool,
) -> SessionView {
    if answered {
        load_applied(s, session_id, position)
    } else {
        s
    }
}

/// How the session goes on after a status that a round of polling brought.
pub open spec fn next_after_status(
    s: SessionView,
    session_id: u64,
    status: MediaStatus,
    id: i32,
) -> CastNext {
    if status_ends(s, session_id, status, id) {
        CastNext::End
    } else {
        CastNext::Continue
    }
}

impl MachineView {
    /// The machine after one more round of polling.
    pub open spec fn after_round(self) -> MachineView {
        MachineView {
            polls: if self.polls == u32::MAX {
                0
            } else {
                (self.polls + 1) as u32
            },
            ..self
        }
    }
}

/// What was loaded buffers at the position that it was loaded at, once the
/// receiver has answered, and only in the session that it was loaded for.
pub proof fn loaded_medium_buffers(
    s: SessionView,
    session_id: u64,
    position: Seconds,
    answered: bool,
)
    ensures
        answered && s.session_id == session_id ==> {
            let after = answer_applied(s, session_id, position, answered);
            after.state is Buffering && after.position == position && after.ip == s.ip
                && after.volume == s.volume && after.duration == s.duration
        },
        !answered || s.session_id != session_id ==> answer_applied(
            s,
            session_id,
            position,
            answered,
        ) == s,
{
}

/// Rounds of polling are counted and change nothing else.
pub proof fn rounds_are_counted(m: MachineView)
    ensures
        m.polls < u32::MAX ==> m.after_round().polls == m.polls + 1,
        m.after_round().session_id == m.session_id,
        m.after_round().errors == m.errors,
        m.after_round().medium() == m.medium(),
        m.after_round() == (MachineView { polls: m.after_round().polls, ..m }),
{
}

/// A status that a round of polling brought ends the session where it ends what
/// is published, and nowhere else.
pub proof fn polled_end_is_the_reported_one(
    s: SessionView,
    session_id: u64,
    status: MediaStatus,
    id: i32,
)
    ensures
        status_ends(s, session_id, status, id) <==> next_after_status(s, session_id, status, id)
            is End,
        !status_ends(s, session_id, status, id) <==> next_after_status(s, session_id, status, id)
            is Continue,
{
}

/// What goes wrong is told in words: that a load failed or was cancelled, what
/// the receiver says of a change that it rejects or of an error of its own, that
/// it could not play the medium, and that it was lost.
pub proof fn failures_are_told(
    m: MachineView,
    s: SessionView,
    reply: MediaReply,
    request_id: u32,
    content_id: Seq<char>,
    message: CastMessage,
    entry: MediaEntry,
    id: i32,
)
    requires
        s.session_id == m.session_id,
    ensures
        load_meaning(reply, request_id, content_id) matches AnswerView::Failed(why) ==> {
            &&& reply is LoadFailed ==> why == "the receiver failed to load the media"@
            &&& reply is LoadCancelled ==> why == "the load was cancelled by another request"@
        },
        reply matches MediaReply::InvalidRequest { detail } ==> edit_meaning(reply, request_id)
            == AnswerView::Failed("the receiver rejected the track change: "@ + detail@),
        message is LoadFailed ==> m.heard(s, message).error == "Load failed."@,
        message matches CastMessage::MediaError { detail } ==> m.heard(s, message).error
            == "The receiver reported: "@ + detail@,
        message is Failed && m.errors >= 5 ==> m.heard(s, message).error
            == "Lost the connection to the receiver."@,
        entry.player_state is Idle && entry.idle_reason == Some(IdleReason::Error) ==> entry_applied(
            s,
            entry,
            id,
        ).error == "The receiver could not play this media."@,
{
}

impl MachineView {
    /// The machine of a session that begins.
    pub open spec fn begun(
        session_id: u64,
        content_url: Seq<char>,
        transcode: bool,
        exact_seek: bool,
        active_track: Option<u32>,
    ) -> MachineView {
        MachineView {
            session_id,
            content_url,
            transcode,
            exact_seek,
            active_track,
            media_session_id: 0,
            position_offset: Seconds { bits: 0 },
            errors: 0,
            polls: 0,
        }
    }
}

/// A machine begins with what it is to play, from the beginning of the stream,
/// with nothing loaded and nothing gone wrong.
pub proof fn machine_begins_with_its_stream(
    session_id: u64,
    content_url: Seq<char>,
    transcode: bool,
    exact_seek: bool,
    active_track: Option<u32>,
)
    ensures
        ({
            let m = MachineView::begun(
                session_id,
                content_url,
                transcode,
                exact_seek,
                active_track,
            );
            &&& m.session_id == session_id && m.content_url == content_url
            &&& m.transcode == transcode && m.exact_seek == exact_seek
            &&& m.active_track == active_track
            &&& m.medium() is None && m.errors == 0 && m.polls == 0
            &&& m.position_offset == (Seconds { bits: 0 })
        }),
{
}

} // verus!
