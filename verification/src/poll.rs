//! Following DLNA and AirPlay receivers, which have to be asked how they are.
use vstd::prelude::*;

use crate::seconds::Seconds;
use crate::state::{Session, SessionState, SessionView};
use crate::text::same;

verus! {

/// How polling goes on.
#[derive(Debug, Clone, Copy, PartialEq, Eq, Structural)]
pub enum PollNext {
    Continue,
    /// Playback has ended: report it and stop polling.
    End,
    /// Another session has taken the place of this one: stop polling.
    Stale,
}

/// What a DLNA renderer answers. `position` has the start of the stream added
/// to it.
#[derive(Debug)]
pub struct DlnaReport {
    pub transport: String,
    pub duration: Option<Seconds>,
    pub position: Option<Seconds>,
    pub volume: Option<i32>,
    pub muted: Option<bool>,
}

/// The poller of a DLNA renderer.
#[derive(Debug, Clone, Copy, PartialEq, Eq, Structural)]
pub struct DlnaPoll {
    pub session_id: u64,
    /// Whether the renderer has been seen playing or paused.
    pub seen_active: bool,
    pub ticks: u32,
}

/// What a renderer's answer means.
pub enum Transport {
    Playing,
    Paused,
    Transitioning,
    Stopped,
    Other,
}

/// What a renderer's answer means.
pub open spec fn transport_named(word: Seq<char>) -> Transport {
    if word == "PLAYING"@ {
        Transport::Playing
    } else if word == "PAUSED_PLAYBACK"@ {
        Transport::Paused
    } else if word == "TRANSITIONING"@ {
        Transport::Transitioning
    } else if word == "STOPPED"@ || word == "NO_MEDIA_PRESENT"@ {
        Transport::Stopped
    } else {
        Transport::Other
    }
}

fn transport_of(word: &str) -> (r: Transport)
    ensures
        r == transport_named(word@),
{
    if same(word, "PLAYING") {
        Transport::Playing
    } else if same(word, "PAUSED_PLAYBACK") {
        Transport::Paused
    } else if same(word, "TRANSITIONING") {
        Transport::Transitioning
    } else if same(word, "STOPPED") || same(word, "NO_MEDIA_PRESENT") {
        Transport::Stopped
    } else {
        Transport::Other
    }
}

impl DlnaPoll {
    /// A stop counts only after the renderer has been seen at work.
    pub open spec fn ends(self, report: DlnaReport) -> bool {
        self.seen_active && transport_named(report.transport@) is Stopped
    }

    /// The session after the renderer's answer.
    pub open spec fn applied(self, s: SessionView, report: DlnaReport) -> SessionView {
        if s.session_id != self.session_id {
            s
        } else {
            SessionView {
                state: match transport_named(report.transport@) {
                    Transport::Playing => SessionState::Playing,
                    Transport::Paused => SessionState::Paused,
                    Transport::Transitioning => SessionState::Buffering,
                    Transport::Stopped => if self.seen_active {
                        SessionState::Stopped
                    } else {
                        s.state
                    },
                    Transport::Other => s.state,
                },
                // An ffmpeg stream has no known length on the renderer side;
                // the probed duration is kept then.
                duration: match report.duration {
                    Some(duration) => if duration.positive() {
                        duration
                    } else {
                        s.duration
                    },
                    None => s.duration,
                },
                position: match report.position {
                    Some(position) => position,
                    None => s.position,
                },
                volume: match report.volume {
                    Some(level) => level,
                    None => s.volume,
                },
                muted: match report.muted {
                    Some(muted) => muted,
                    None => s.muted,
                },
                ..s
            }
        }
    }

    /// Whether the volume is asked for this time.
    pub open spec fn asks_volume(self, rendering: bool) -> bool {
        rendering && self.ticks % 3 == 0
    }

    /// How polling goes on after the renderer's answer.
    pub open spec fn next(self, s: SessionView, report: DlnaReport) -> PollNext {
        if s.session_id != self.session_id {
            PollNext::Stale
        } else if self.ends(report) {
            PollNext::End
        } else {
            PollNext::Continue
        }
    }

    /// The poller after the renderer's answer.
    pub open spec fn stepped(self, s: SessionView, report: DlnaReport) -> DlnaPoll {
        DlnaPoll {
            session_id: self.session_id,
            seen_active: self.seen_active || (s.session_id == self.session_id && (transport_named(
                report.transport@,
            ) is Playing || transport_named(report.transport@) is Paused)),
            ticks: if self.ticks == u32::MAX {
                0
            } else {
                (self.ticks + 1) as u32
            },
        }
    }

    /// A poller for a session.
    pub fn new(session_id: u64) -> (r: DlnaPoll)
        ensures
            r == DlnaPoll::begun(session_id),
    {
        DlnaPoll { session_id, seen_active: false, ticks: 0 }
    }

    /// Whether the session is still the one that is polled for.
    pub fn is_current(&self, session: &Session) -> (r: bool)
        ensures
            r == (session@.session_id == self.session_id),
    {
        session.session_id == self.session_id
    }

    /// Whether the volume is asked for this time: it is cheap to read but
    /// rarely changes; every third tick is plenty.
    pub fn volume_due(&self, rendering: bool) -> (r: bool)
        ensures
            r == self.asks_volume(rendering),
    {
        rendering && self.ticks % 3 == 0
    }

    /// Takes the renderer's answer.
    pub fn step(&mut self, session: &mut Session, report: &DlnaReport) -> (r: PollNext)
        ensures
            final(session)@ == old(self).applied(old(session)@, *report),
            r == old(self).next(old(session)@, *report),
            *final(self) == old(self).stepped(old(session)@, *report),
    {
        self.ticks = self.ticks.wrapping_add(1);
        if session.session_id != self.session_id {
            return PollNext::Stale;
        }
        let mut next = PollNext::Continue;
        match transport_of(report.transport.as_str()) {
            Transport::Playing => {
                session.state = SessionState::Playing;
                self.seen_active = true;
            },
            Transport::Paused => {
                session.state = SessionState::Paused;
                self.seen_active = true;
            },
            Transport::Transitioning => {
                session.state = SessionState::Buffering;
            },
            Transport::Stopped => {
                if self.seen_active {
                    session.state = SessionState::Stopped;
                    next = PollNext::End;
                }
            },
            Transport::Other => {},
        }
        if let Some(duration) = report.duration {
            if duration.is_positive() {
                session.duration = duration;
            }
        }
        if let Some(position) = report.position {
            session.position = position;
        }
        if let Some(level) = report.volume {
            session.volume = level;
        }
        if let Some(muted) = report.muted {
            session.muted = muted;
        }
        next
    }
}

/// What an AirPlay receiver answers. `position` has the start of the stream
/// added to it.
#[derive(Debug, Clone, Copy, PartialEq, Eq, Structural)]
pub struct AirplayReport {
    pub position: Seconds,
    pub duration: Seconds,
    pub playing: bool,
}

/// The poller of an AirPlay receiver.
#[derive(Debug, Clone, Copy, PartialEq, Eq, Structural)]
pub struct AirplayPoll {
    pub session_id: u64,
    /// Whether the receiver has answered before.
    pub seen_active: bool,
}

/// A time is zero.
pub open spec fn is_zero(at: Seconds) -> bool {
    at.not_after(Seconds { bits: 0 }) && Seconds { bits: 0 }.not_after(at)
}

impl AirplayPoll {
    /// The session after the receiver's answer, or after none; `offset` is
    /// where the stream begins in the file.
    pub open spec fn applied(
        self,
        s: SessionView,
        report: Option<AirplayReport>,
        offset: Seconds,
    ) -> SessionView {
        if s.session_id != self.session_id {
            s
        } else {
            match report {
                Some(report) => SessionView {
                    state: if report.playing {
                        SessionState::Playing
                    } else {
                        SessionState::Paused
                    },
                    position: report.position,
                    duration: if report.duration.positive() && is_zero(offset) {
                        report.duration
                    } else {
                        s.duration
                    },
                    ..s
                },
                None => if self.seen_active {
                    SessionView { state: SessionState::Stopped, ..s }
                } else {
                    s
                },
            }
        }
    }

    /// How polling goes on after the receiver's answer, or after none.
    pub open spec fn next(self, s: SessionView, report: Option<AirplayReport>) -> PollNext {
        if s.session_id != self.session_id {
            PollNext::Stale
        } else if report is None && self.seen_active {
            PollNext::End
        } else {
            PollNext::Continue
        }
    }

    /// The poller after the receiver's answer, or after none.
    pub open spec fn stepped(self, s: SessionView, report: Option<AirplayReport>) -> AirplayPoll {
        AirplayPoll {
            session_id: self.session_id,
            seen_active: self.seen_active || (s.session_id == self.session_id && report is Some),
        }
    }

    /// A poller for a session.
    pub fn new(session_id: u64) -> (r: AirplayPoll)
        ensures
            r == AirplayPoll::begun(session_id),
    {
        AirplayPoll { session_id, seen_active: false }
    }

    /// Whether the session is still the one that is polled for.
    pub fn is_current(&self, session: &Session) -> (r: bool)
        ensures
            r == (session@.session_id == self.session_id),
    {
        session.session_id == self.session_id
    }

    /// Takes the receiver's answer, or that there was none.
    pub fn step(
        &mut self,
        session: &mut Session,
        report: Option<AirplayReport>,
        offset: Seconds,
    ) -> (r: PollNext)
        ensures
            final(session)@ == old(self).applied(old(session)@, report, offset),
            r == old(self).next(old(session)@, report),
            *final(self) == old(self).stepped(old(session)@, report),
    {
        if session.session_id != self.session_id {
            return PollNext::Stale;
        }
        match report {
            Some(report) => {
                self.seen_active = true;
                session.state = if report.playing {
                    SessionState::Playing
                } else {
                    SessionState::Paused
                };
                session.position = report.position;
                if report.duration.is_positive() && offset.at_most(Seconds::zero())
                    && Seconds::zero().at_most(offset) {
                    session.duration = report.duration;
                }
                PollNext::Continue
            },
            None => if self.seen_active {
                session.state = SessionState::Stopped;
                PollNext::End
            } else {
                PollNext::Continue
            },
        }
    }
}

/// Where a poller reports the end of the session, the daemon clears it away;
/// a session that took its place is never touched.
pub proof fn poll_end_is_cleared(
    poll: DlnaPoll,
    s: SessionView,
    report: DlnaReport,
    airplay: AirplayPoll,
    offset: Seconds,
)
    ensures
        s.session_id == poll.session_id && poll.ends(report) ==> crate::connect::cleared(
            poll.applied(s, report),
            poll.session_id,
        ),
        s.session_id == airplay.session_id && airplay.seen_active ==> crate::connect::cleared(
            airplay.applied(s, None, offset),
            airplay.session_id,
        ),
        s.session_id != poll.session_id ==> poll.applied(s, report) == s,
{
}

/// A volume that a session holds stays a percentage while the renderer reports
/// percentages.
pub proof fn polled_volume_stays_in_range(
    poll: DlnaPoll,
    s: SessionView,
    report: DlnaReport,
    airplay: AirplayPoll,
    answer: Option<AirplayReport>,
    offset: Seconds,
)
    requires
        s.volume_in_range(),
        report.volume matches Some(level) ==> 0 <= level <= 100,
    ensures
        poll.applied(s, report).volume_in_range(),
        airplay.applied(s, answer, offset).volume_in_range(),
{
}

/// A receiver that has not yet been seen at work cannot end the session: it
/// may simply not have started.
pub proof fn no_end_before_start(poll: DlnaPoll, s: SessionView, report: DlnaReport)
    requires
        !poll.seen_active,
        s.session_id == poll.session_id,
        transport_named(report.transport@) is Stopped,
    ensures
        !poll.ends(report),
        poll.applied(s, report).state == s.state,
{
}

/// What a renderer reports is what is published: that it plays, is paused or
/// prepares, where it is, how loud it is; what it does not report stays.
pub proof fn polled_state_is_the_reported_one(poll: DlnaPoll, s: SessionView, report: DlnaReport)
    requires
        s.session_id == poll.session_id,
    ensures
        ({
            let after = poll.applied(s, report);
            let word = report.transport@;
            &&& word == "PLAYING"@ ==> after.state is Playing
            &&& word == "PAUSED_PLAYBACK"@ ==> after.state is Paused
            &&& word == "TRANSITIONING"@ ==> after.state is Buffering
            &&& (word == "STOPPED"@ || word == "NO_MEDIA_PRESENT"@) && poll.seen_active
                ==> after.state is Stopped && poll.ends(report)
            &&& word != "PLAYING"@ && word != "PAUSED_PLAYBACK"@ && word != "TRANSITIONING"@
                && word != "STOPPED"@ && word != "NO_MEDIA_PRESENT"@ ==> after.state == s.state
            &&& poll.ends(report) ==> word == "STOPPED"@ || word == "NO_MEDIA_PRESENT"@
            &&& report.position matches Some(position) ==> after.position == position
            &&& report.position is None ==> after.position == s.position
            &&& report.duration matches Some(duration) ==> (duration.positive() ==> after.duration
                == duration) && (!duration.positive() ==> after.duration == s.duration)
            &&& report.duration is None ==> after.duration == s.duration
            &&& report.volume matches Some(level) ==> after.volume == level
            &&& report.volume is None ==> after.volume == s.volume
            &&& report.muted matches Some(muted) ==> after.muted == muted
            &&& report.muted is None ==> after.muted == s.muted
            &&& after == (SessionView {
                state: after.state,
                duration: after.duration,
                position: after.position,
                volume: after.volume,
                muted: after.muted,
                ..s
            })
        }),
{
    reveal_strlit("PLAYING");
    reveal_strlit("PAUSED_PLAYBACK");
    reveal_strlit("TRANSITIONING");
    reveal_strlit("STOPPED");
    reveal_strlit("NO_MEDIA_PRESENT");
    assert("PLAYING"@.len() == 7);
    assert("PAUSED_PLAYBACK"@.len() == 15);
    assert("TRANSITIONING"@.len() == 13);
    assert("STOPPED"@.len() == 7);
    assert("NO_MEDIA_PRESENT"@.len() == 16);
    assert("PLAYING"@[0] != "STOPPED"@[0]);
}

/// What an AirPlay receiver reports is what is published: that it plays or is
/// paused, and where it is; how long the medium is counts only where it plays
/// from the beginning. Once it has answered, silence is the end.
pub proof fn airplay_state_is_the_reported_one(
    poll: AirplayPoll,
    s: SessionView,
    report: AirplayReport,
    offset: Seconds,
)
    requires
        s.session_id == poll.session_id,
    ensures
        ({
            let after = poll.applied(s, Some(report), offset);
            &&& after.state is Playing <==> report.playing
            &&& after.state is Paused <==> !report.playing
            &&& after.position == report.position
            &&& offset == (Seconds { bits: 0 }) && report.duration.positive() ==> after.duration
                == report.duration
            &&& offset.positive() ==> after.duration == s.duration
            &&& after == (SessionView {
                state: after.state,
                duration: after.duration,
                position: after.position,
                ..s
            })
        }),
        poll.seen_active ==> poll.applied(s, None, offset) == (SessionView {
            state: SessionState::Stopped,
            ..s
        }),
        !poll.seen_active ==> poll.applied(s, None, offset) == s,
{
}

/// Where a renderer has a volume, it is asked for at every third tick, the
/// first one among them.
pub proof fn volume_is_asked_for_every_third_time(poll: DlnaPoll, rendering: bool)
    ensures
        !poll.asks_volume(false),
        poll.ticks % 3 == 0 <==> poll.asks_volume(true),
{
}

/// Polling goes on as long as the session is the one that is polled for and the
/// renderer has not stopped after it played or paused. Every answer counts a
/// tick, and that it played or paused is not forgotten.
pub proof fn renderer_is_polled_until_it_stops(poll: DlnaPoll, s: SessionView, report: DlnaReport)
    ensures
        s.session_id != poll.session_id <==> poll.next(s, report) is Stale,
        poll.next(s, report) is End <==> s.session_id == poll.session_id && poll.seen_active
            && transport_named(report.transport@) is Stopped,
        poll.stepped(s, report).session_id == poll.session_id,
        poll.ticks < u32::MAX ==> poll.stepped(s, report).ticks == poll.ticks + 1,
        poll.seen_active ==> poll.stepped(s, report).seen_active,
        s.session_id == poll.session_id && (transport_named(report.transport@) is Playing
            || transport_named(report.transport@) is Paused) ==> poll.stepped(
            s,
            report,
        ).seen_active,
        !poll.seen_active && poll.stepped(s, report).seen_active ==> s.session_id
            == poll.session_id && (transport_named(report.transport@) is Playing
            || transport_named(report.transport@) is Paused),
{
}

/// Polling goes on as long as the session is the one that is polled for and the
/// receiver does not fall silent after it answered once.
pub proof fn receiver_is_polled_until_it_is_silent(
    poll: AirplayPoll,
    s: SessionView,
    report: Option<AirplayReport>,
)
    ensures
        s.session_id != poll.session_id <==> poll.next(s, report) is Stale,
        poll.next(s, report) is End <==> s.session_id == poll.session_id && poll.seen_active
            && report is None,
        poll.stepped(s, report).session_id == poll.session_id,
        poll.stepped(s, report).seen_active <==> poll.seen_active || (s.session_id
            == poll.session_id && report is Some),
{
}

impl DlnaPoll {
    /// The poller of a session that begins.
    pub open spec fn begun(session_id: u64) -> DlnaPoll {
        DlnaPoll { session_id, seen_active: false, ticks: 0 }
    }
}

impl AirplayPoll {
    /// The poller of a session that begins.
    pub open spec fn begun(session_id: u64) -> AirplayPoll {
        AirplayPoll { session_id, seen_active: false }
    }
}

/// A poller begins with its session; it has seen nothing yet, so that nothing
/// ends it, and asks a renderer for its volume at once.
pub proof fn pollers_begin_unseen(
    session_id: u64,
    s: SessionView,
    report: DlnaReport,
    answer: Option<AirplayReport>,
)
    requires
        s.session_id == session_id,
    ensures
        DlnaPoll::begun(session_id).next(s, report) is Continue,
        DlnaPoll::begun(session_id).asks_volume(true),
        DlnaPoll::begun(session_id).ticks == 0,
        AirplayPoll::begun(session_id).next(s, answer) is Continue,
        AirplayPoll::begun(session_id).stepped(s, None) == AirplayPoll::begun(session_id),
{
}

} // verus!
