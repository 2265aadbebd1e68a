//! The daemon's decisions: how a file is served, what a command does, and how
//! a session begins, goes on and ends.
use serde_json::Value;
use vstd::prelude::*;

use crate::cast::{
    cast_plan, hevc_ok, leads, native_plan, opt_bytes, passthrough_plan,
    picture_is_copied_where_it_plays, plan_transcode, probed, text_track_views, CodecPlan, PlanView,
    TextTrack, TextTrackView,
};
use crate::json::{
    array, boolean, list_of, member, no_members, object, put, string, tree, trees, Json,
};
use crate::media_server::{
    is_route, only_the_receiver_is_served, Method, Route, ServeOptions, TranscodeContainer,
    TranscodePlan, TranscodeView,
};
use crate::number::{decimal, decimal_denotes, parse_u32, show, show_signed, signed_decimal, unsigned};
use crate::protocol::{
    clone_strings, device_views, error_response, refusal, Device, DeviceView, Request,
    Status, StreamInfo,
};
use crate::seconds::Seconds;
use crate::settings::{
    audio_boost, boost_of, boost_setting, contents, holds, last_receiver, multicast_discovery,
    multicast_setting, parse_boost, receiver_setting, setting,
};
use crate::state::{clamp_percent, percent, Session, SessionState, SessionView};
use crate::subtitles::{clone_tracks, track_views, SubtitleTrack, TrackView};
use crate::text::{begins, ends, is_empty, same, trim, trimmed, views};
use crate::util::{
    basename_of, content_type_for_serve, dlna_type, extension, extension_of,
    file_basename, mime_for_dlna, serve_type, DISCOVER_TTL,
};
use crate::web::{percent_encode, percent_encoded};

verus! {

/// What the parts of the daemon report to it.
#[derive(Debug, Clone, Copy, PartialEq, Eq, Structural)]
pub enum Event {
    SessionEnded { session_id: u64 },
}

/// Seconds to add to the position a receiver reports. Non-zero while the
/// receiver plays an ffmpeg stream that was started part-way through the file
/// (`?start=`), because it then counts from zero.
#[derive(Debug, Clone, Copy, PartialEq, Eq, Structural)]
pub struct PositionOffset {
    pub seconds: Seconds,
}

impl Default for PositionOffset {
    fn default() -> (r: PositionOffset)
        ensures
            r.seconds.bits == 0,
    {
        PositionOffset { seconds: Seconds::zero() }
    }
}

impl PositionOffset {
    pub fn get(&self) -> (r: Seconds)
        ensures
            r == self.seconds,
    {
        self.seconds
    }

    pub fn set(&mut self, seconds: Seconds)
        ensures
            final(self).seconds == seconds,
    {
        self.seconds = seconds;
    }
}

// ---------------------------------------------------------------------------
// Serving

/// How a file gets served to a receiver: directly, or through ffmpeg.
#[derive(Debug)]
pub struct ServePlan {
    pub transcode: Option<TranscodePlan>,
    pub endpoint: String,
    pub content_type: String,
    pub exact_seek: bool,
}

/// What a plan holds.
pub struct ServeView {
    pub transcode: Option<TranscodeView>,
    pub endpoint: Seq<char>,
    pub content_type: Seq<char>,
    pub exact_seek: bool,
}

impl View for ServePlan {
    type V = ServeView;

    open spec fn view(&self) -> ServeView {
        ServeView {
            transcode: match self.transcode {
                Some(plan) => Some(plan@),
                None => None,
            },
            endpoint: self.endpoint@,
            content_type: self.content_type@,
            exact_seek: self.exact_seek,
        }
    }
}

/// A container that every Cast receiver plays from a plain file.
pub open spec fn cast_container(ext: Seq<char>) -> bool {
    ext == "mp4"@ || ext == "m4v"@ || ext == "mov"@
}

/// The file is served as it is: nothing is to be encoded, nothing boosted, and
/// the receiver takes the container.
pub open spec fn served_directly(
    codec: PlanView,
    protocol: Seq<char>,
    path: Seq<char>,
    boost: i32,
) -> bool {
    &&& boost == 0
    &&& codec.vcodec == "copy"@
    &&& codec.acodec == "copy"@
    &&& protocol == "cast"@ ==> cast_container(extension_of(path))
}

/// The container of a live stream: Samsung (and most DLNA renderers) only play
/// one as MPEG-TS; Cast and AirPlay receivers want fragmented MP4.
pub open spec fn live_container(protocol: Seq<char>) -> TranscodeContainer {
    if protocol == "dlna"@ {
        TranscodeContainer::MpegTs
    } else {
        TranscodeContainer::FragmentedMp4
    }
}

/// How a file is served, given the codecs that the receiver gets.
pub open spec fn plan_with(
    codec: PlanView,
    protocol: Seq<char>,
    path: Seq<char>,
    token: Seq<char>,
    boost: i32,
) -> ServeView {
    if served_directly(codec, protocol, path, boost) {
        ServeView {
            transcode: None,
            endpoint: token + "/"@ + percent_encoded(basename_of(path)),
            content_type: serve_type(extension_of(path)),
            exact_seek: false,
        }
    } else {
        let container = live_container(protocol);
        ServeView {
            transcode: Some(
                TranscodeView {
                    vcodec: codec.vcodec,
                    acodec: codec.acodec,
                    gain_db: boost,
                    channels: codec.channels,
                    container,
                },
            ),
            endpoint: token + "/stream."@ + container.suffix(),
            content_type: container.mime(),
            exact_seek: codec.vcodec != "copy"@,
        }
    }
}

/// The codecs that a receiver gets of the medium that ffprobe reports on.
pub open spec fn codec_for(device: DeviceView, report: Option<Seq<u8>>) -> PlanView {
    if device.protocol == "cast"@ {
        cast_plan(probed(report), device.model, device.name)
    } else {
        native_plan(probed(report))
    }
}

/// How a file is served, given the codecs that the receiver gets.
pub fn plan_stream(codec: CodecPlan, protocol: &str, path: &str, token: &str, boost: i32) -> (r:
    ServePlan)
    ensures
        r@ == plan_with(codec@, protocol@, path@, token@, boost),
{
    let ext = extension(path);
    let container_ok = !same(protocol, "cast") || same(ext.as_str(), "mp4") || same(
        ext.as_str(),
        "m4v",
    ) || same(ext.as_str(), "mov");
    let mut endpoint = token.to_owned();
    if boost == 0 && same(codec.vcodec.as_str(), "copy") && same(codec.acodec.as_str(), "copy")
        && container_ok {
        endpoint.append("/");
        endpoint.append(percent_encode(file_basename(path).as_str()).as_str());
        ServePlan {
            transcode: None,
            endpoint,
            content_type: content_type_for_serve(path, false),
            exact_seek: false,
        }
    } else {
        let container = if same(protocol, "dlna") {
            TranscodeContainer::MpegTs
        } else {
            TranscodeContainer::FragmentedMp4
        };
        endpoint.append("/stream.");
        endpoint.append(container.extension());
        ServePlan {
            exact_seek: !same(codec.vcodec.as_str(), "copy"),
            transcode: Some(
                TranscodePlan {
                    vcodec: codec.vcodec,
                    acodec: codec.acodec,
                    gain_db: boost,
                    channels: codec.channels,
                    container,
                },
            ),
            endpoint,
            content_type: container.content_type().to_owned(),
        }
    }
}

/// How a file is served to a receiver. `report` is what ffprobe says of it.
pub fn serve_plan(
    device: &Device,
    path: &str,
    token: &str,
    boost: i32,
    report: Option<&[u8]>,
) -> (r: ServePlan)
    ensures
        r@ == plan_with(
            codec_for(device@, opt_bytes(report)),
            device@.protocol,
            path@,
            token@,
            boost,
        ),
{
    let codec = if same(device.protocol.as_str(), "cast") {
        plan_transcode(report, device.model.as_str(), device.name.as_str())
    } else {
        passthrough_plan(report)
    };
    plan_stream(codec, device.protocol.as_str(), path, token, boost)
}

/// A boost is never lost: a boosted file always goes through ffmpeg, with the
/// gain that was asked for. A receiver that decodes the file itself gets it
/// untouched otherwise.
pub proof fn boost_is_applied(
    codec: PlanView,
    protocol: Seq<char>,
    path: Seq<char>,
    token: Seq<char>,
    boost: i32,
)
    ensures
        boost != 0 ==> (plan_with(codec, protocol, path, token, boost).transcode matches Some(plan)
            && plan.gain_db == boost),
        boost == 0 && protocol != "cast"@ && codec.vcodec == "copy"@ && codec.acodec == "copy"@
            ==> plan_with(codec, protocol, path, token, boost).transcode is None,
{
}

/// A live stream is MPEG-TS for a DLNA renderer and fragmented MP4 for any
/// other receiver, and it is announced as what it is.
pub proof fn containers_by_protocol(
    codec: PlanView,
    protocol: Seq<char>,
    path: Seq<char>,
    token: Seq<char>,
    boost: i32,
)
    ensures
        plan_with(codec, protocol, path, token, boost).transcode matches Some(plan) ==> {
            &&& plan.container is MpegTs == (protocol == "dlna"@)
            &&& plan_with(codec, protocol, path, token, boost).content_type == plan.container.mime()
        },
{
}

/// Everything needed to rebuild the media server for the active session. A
/// live audio-boost change, or a seek inside an ffmpeg stream, re-serves the
/// file and re-points the receiver at the new URL.
#[derive(Debug)]
pub struct ServeContext {
    pub device: Device,
    pub ip: String,
    pub path: String,
    /// The address that the media server listens on.
    pub bind: String,
    pub port: u16,
    pub token: String,
    pub title: String,
    pub duration: Option<Seconds>,
    /// Text subtitle tracks found for the file; served at `/{token}/sub/{id}.vtt`.
    pub subtitles: Vec<SubtitleTrack>,
    /// Base URL of the stream the receiver currently plays (no `?start=`).
    pub url: String,
    /// Content type of that stream, as served.
    pub content_type: String,
    /// Whether that stream goes through ffmpeg (so it is not byte-range seekable).
    pub transcode: bool,
    pub exact_seek: bool,
}

/// What a context holds.
pub struct ContextView {
    pub device: DeviceView,
    pub ip: Seq<char>,
    pub path: Seq<char>,
    pub bind: Seq<char>,
    pub port: u16,
    pub token: Seq<char>,
    pub title: Seq<char>,
    pub duration: Option<Seconds>,
    pub subtitles: Seq<TrackView>,
    pub url: Seq<char>,
    pub content_type: Seq<char>,
    pub transcode: bool,
    pub exact_seek: bool,
}

impl ContextView {
    /// The same context, with a stream.
    pub open spec fn streaming(self, url: Seq<char>, plan: ServeView) -> ContextView {
        ContextView {
            url,
            content_type: plan.content_type,
            transcode: plan.transcode is Some,
            exact_seek: plan.exact_seek,
            ..self
        }
    }

    /// The content type that a DLNA renderer is told.
    pub open spec fn dlna_mime(self) -> Seq<char> {
        if self.transcode {
            self.content_type
        } else {
            dlna_type(extension_of(self.path))
        }
    }

    /// Where the stream has to start so that playback resumes at `position`.
    pub open spec fn starts_at(self, position: Seconds, keyframe: Option<Seconds>) -> Seconds {
        if !self.transcode {
            Seconds { bits: 0 }
        } else if self.exact_seek {
            position
        } else {
            match keyframe {
                Some(at) => at,
                None => position,
            }
        }
    }

    /// A keyframe has to be looked for before the stream can start.
    pub open spec fn wants_keyframe(self) -> bool {
        self.transcode && !self.exact_seek
    }

    /// The renderer has to seek once it plays.
    pub open spec fn seeks_later(self, position: Seconds, accepted: bool) -> bool {
        accepted && !self.transcode && position.positive()
    }

    /// The duration of which the start is a fraction for AirPlay.
    pub open spec fn fractioned(self) -> Option<Seconds> {
        match self.duration {
            Some(duration) => if !self.transcode && duration.positive() {
                Some(duration)
            } else {
                None
            },
            None => None,
        }
    }
}

impl View for ServeContext {
    type V = ContextView;

    open spec fn view(&self) -> ContextView {
        ContextView {
            device: self.device@,
            ip: self.ip@,
            path: self.path@,
            bind: self.bind@,
            port: self.port,
            token: self.token@,
            title: self.title@,
            duration: self.duration,
            subtitles: track_views(self.subtitles@),
            url: self.url@,
            content_type: self.content_type@,
            transcode: self.transcode,
            exact_seek: self.exact_seek,
        }
    }
}

impl Clone for ServeContext {
    fn clone(&self) -> (r: ServeContext)
        ensures
            r@ == self@,
    {
        ServeContext {
            device: self.device.clone(),
            ip: self.ip.clone(),
            path: self.path.clone(),
            bind: self.bind.clone(),
            port: self.port,
            token: self.token.clone(),
            title: self.title.clone(),
            duration: self.duration,
            subtitles: clone_tracks(&self.subtitles),
            url: self.url.clone(),
            content_type: self.content_type.clone(),
            transcode: self.transcode,
            exact_seek: self.exact_seek,
        }
    }
}

/// The address of something on the media server.
pub open spec fn served_at(bind: Seq<char>, port: u16, what: Seq<char>) -> Seq<char> {
    "http://"@ + bind + ":"@ + decimal(port as nat) + "/"@ + what
}

/// The address of something on the media server.
pub fn stream_url(bind: &str, port: u16, endpoint: &str) -> (r: String)
    ensures
        r@ == served_at(bind@, port, endpoint@),
{
    let mut url = "http://".to_owned();
    url.append(bind);
    url.append(":");
    url.append(show(port as u64).as_str());
    url.append("/");
    url.append(endpoint);
    url
}

/// A track as the Cast receiver should see it.
pub open spec fn text_track(context: ContextView, track: TrackView) -> TextTrackView {
    TextTrackView {
        id: track.id,
        url: served_at(
            context.bind,
            context.port,
            context.token + "/sub/"@ + decimal(track.id as nat) + ".vtt"@,
        ),
        name: track.label,
        language: track.language,
    }
}

impl ServeContext {
    /// The same context, now with this stream.
    pub fn with_stream(self, url: String, plan: &ServePlan) -> (r: ServeContext)
        ensures
            r@ == self@.streaming(url@, plan@),
    {
        let mut context = self;
        context.url = url;
        context.content_type = plan.content_type.clone();
        context.transcode = plan.transcode.is_some();
        context.exact_seek = plan.exact_seek;
        context
    }

    /// The content type that a DLNA renderer is told.
    pub fn mime_for_dlna(&self) -> (r: String)
        ensures
            r@ == self@.dlna_mime(),
    {
        if self.transcode {
            self.content_type.clone()
        } else {
            mime_for_dlna(self.path.as_str())
        }
    }

    /// The subtitle tracks as the Cast receiver should see them.
    pub fn text_tracks(&self) -> (r: Vec<TextTrack>)
        ensures
            text_track_views(r@) == Seq::new(
                self.subtitles@.len(),
                |i: int| text_track(self@, track_views(self.subtitles@)[i]),
            ),
    {
        let mut out: Vec<TextTrack> = Vec::new();
        for i in 0..self.subtitles.len()
            invariant
                out@.len() == i,
                forall|j: int|
                    0 <= j < i ==> (#[trigger] out@[j])@ == text_track(
                        self@,
                        track_views(self.subtitles@)[j],
                    ),
        {
            let track = &self.subtitles[i];
            let mut what = self.token.clone();
            what.append("/sub/");
            what.append(show(track.id as u64).as_str());
            what.append(".vtt");
            out.push(
                TextTrack {
                    id: track.id,
                    url: stream_url(self.bind.as_str(), self.port, what.as_str()),
                    name: track.label.clone(),
                    language: track.language.clone(),
                },
            );
        }
        assert(text_track_views(out@) =~= Seq::new(
            self.subtitles@.len(),
            |i: int| text_track(self@, track_views(self.subtitles@)[i]),
        ));
        out
    }

    /// Where an ffmpeg stream has to start so that playback resumes at
    /// `position`: exact when video is re-encoded, else the previous keyframe,
    /// where one is found. A file served as it is starts at its beginning.
    pub fn stream_start(&self, position: Seconds, keyframe: Option<Seconds>) -> (r: Seconds)
        ensures
            r == self@.starts_at(position, keyframe),
    {
        if !self.transcode {
            Seconds::zero()
        } else if self.exact_seek {
            position
        } else {
            match keyframe {
                Some(at) => at,
                None => position,
            }
        }
    }

    /// Whether a keyframe has to be looked for before the stream can start.
    pub fn needs_keyframe(&self) -> (r: bool)
        ensures
            r == self@.wants_keyframe(),
    {
        self.transcode && !self.exact_seek
    }

    /// Whether the renderer has to seek once it plays: a directly served file
    /// starts at its beginning, and a Seek sent before the renderer actually
    /// plays is ignored.
    pub fn seek_after_start(&self, position: Seconds, accepted: bool) -> (r: bool)
        ensures
            r == self@.seeks_later(position, accepted),
    {
        accepted && !self.transcode && position.is_positive()
    }

    /// The duration of which the start is a fraction for AirPlay; that is only
    /// meaningful for a directly served (seekable) file.
    pub fn fraction_of(&self) -> (r: Option<Seconds>)
        ensures
            r == self@.fractioned(),
    {
        match self.duration {
            Some(duration) => if !self.transcode && duration.is_positive() {
                Some(duration)
            } else {
                None
            },
            None => None,
        }
    }
}

/// What the media server is told to serve: the file of the context, as the
/// plan says, to the receiver and to nobody else. `peer` is the receiver's
/// address as the server sees it.
pub fn serve_options(context: &ServeContext, plan: &ServePlan, peer: &str, subtitle_dir: &str) -> (r:
    ServeOptions)
    ensures
        r.file@ == context@.path,
        r.token@ == context@.token,
        views(r.allow@) == seq![peer@],
        match r.transcode {
            Some(transcode) => plan@.transcode == Some(transcode@),
            None => plan@.transcode is None,
        },
        r.content_type@ == plan@.content_type,
        track_views(r.subtitles@) == context@.subtitles,
        r.subtitle_dir@ == subtitle_dir@,
{
    let r = ServeOptions {
        file: context.path.clone(),
        token: context.token.clone(),
        allow: vec![peer.to_owned()],
        transcode: match &plan.transcode {
            Some(transcode) => Some(transcode.clone()),
            None => None,
        },
        content_type: plan.content_type.clone(),
        subtitles: clone_tracks(&context.subtitles),
        subtitle_dir: subtitle_dir.to_owned(),
    };
    assert(views(r.allow@) =~= seq![peer@]);
    r
}

/// What is served for a cast goes to the receiver of that cast alone: whoever
/// is not refused asks from the receiver's address and knows the token.
pub proof fn cast_goes_to_its_receiver(
    options: ServeOptions,
    receiver: Seq<char>,
    peer: Seq<char>,
    token: Seq<char>,
    rest: Seq<char>,
    method: Method,
    route: Route,
)
    requires
        views(options.allow@) == seq![receiver],
        is_route(options, peer, token, rest, method, route),
    ensures
        !(route is Forbidden) <==> peer == receiver && token == options.token@,
{
    only_the_receiver_is_served(options, peer, token, rest, method, route);
    assert(views(options.allow@).len() == options.allow@.len());
    assert(seq![receiver][0] == receiver);
}

impl ServePlan {
    /// The content type that a DLNA renderer is told.
    pub open spec fn told_type(self, path: Seq<char>) -> Seq<char> {
        if self.transcode is Some {
            self.content_type@
        } else {
            dlna_type(extension_of(path))
        }
    }

    /// The content type that a DLNA renderer is told.
    pub fn mime_for_dlna(&self, path: &str) -> (r: String)
        ensures
            r@ == self.told_type(path@),
    {
        if self.transcode.is_some() {
            self.content_type.clone()
        } else {
            mime_for_dlna(path)
        }
    }
}

// ---------------------------------------------------------------------------
// Commands

/// What a request asks for.
#[derive(Debug, Clone, Copy, PartialEq, Eq, Structural)]
pub enum Command {
    Ping,
    Status,
    Deps,
    Discover,
    Connect,
    Disconnect,
    Pause,
    Resume,
    Seek,
    SetVolume,
    SetMute,
    SetBoost,
    SetSubtitle,
    AddIp,
    RemoveIp,
    SaveMulticast,
    ClearFirewall,
    Shutdown,
}

/// What the name of a command stands for.
pub open spec fn command_named(cmd: Seq<char>) -> Option<Command> {
    if cmd == "ping"@ {
        Some(Command::Ping)
    } else if cmd == "status"@ {
        Some(Command::Status)
    } else if cmd == "deps"@ {
        Some(Command::Deps)
    } else if cmd == "discover"@ {
        Some(Command::Discover)
    } else if cmd == "connect"@ {
        Some(Command::Connect)
    } else if cmd == "disconnect"@ || cmd == "stop"@ {
        Some(Command::Disconnect)
    } else if cmd == "pause"@ {
        Some(Command::Pause)
    } else if cmd == "resume"@ {
        Some(Command::Resume)
    } else if cmd == "seek"@ {
        Some(Command::Seek)
    } else if cmd == "set-volume"@ {
        Some(Command::SetVolume)
    } else if cmd == "set-mute"@ {
        Some(Command::SetMute)
    } else if cmd == "set-boost"@ {
        Some(Command::SetBoost)
    } else if cmd == "set-subtitle"@ {
        Some(Command::SetSubtitle)
    } else if cmd == "add-ip"@ {
        Some(Command::AddIp)
    } else if cmd == "remove-ip"@ {
        Some(Command::RemoveIp)
    } else if cmd == "save-multicast"@ {
        Some(Command::SaveMulticast)
    } else if cmd == "clear-firewall"@ {
        Some(Command::ClearFirewall)
    } else if cmd == "shutdown"@ {
        Some(Command::Shutdown)
    } else {
        None
    }
}

fn command_of(c: &str) -> (r: Option<Command>)
    ensures
        r == command_named(c@),
{
    if same(c, "ping") {
        Some(Command::Ping)
    } else if same(c, "status") {
        Some(Command::Status)
    } else if same(c, "deps") {
        Some(Command::Deps)
    } else if same(c, "discover") {
        Some(Command::Discover)
    } else if same(c, "connect") {
        Some(Command::Connect)
    } else if same(c, "disconnect") || same(c, "stop") {
        Some(Command::Disconnect)
    } else if same(c, "pause") {
        Some(Command::Pause)
    } else if same(c, "resume") {
        Some(Command::Resume)
    } else if same(c, "seek") {
        Some(Command::Seek)
    } else if same(c, "set-volume") {
        Some(Command::SetVolume)
    } else if same(c, "set-mute") {
        Some(Command::SetMute)
    } else if same(c, "set-boost") {
        Some(Command::SetBoost)
    } else if same(c, "set-subtitle") {
        Some(Command::SetSubtitle)
    } else if same(c, "add-ip") {
        Some(Command::AddIp)
    } else if same(c, "remove-ip") {
        Some(Command::RemoveIp)
    } else if same(c, "save-multicast") {
        Some(Command::SaveMulticast)
    } else if same(c, "clear-firewall") {
        Some(Command::ClearFirewall)
    } else if same(c, "shutdown") {
        Some(Command::Shutdown)
    } else {
        None
    }
}

/// The reply to a request that asks for nothing known.
pub open spec fn not_understood(cmd: Seq<char>) -> Json {
    refusal("Unknown command: "@ + cmd)
}

/// What a request asks for; the reply to one that asks for nothing known.
pub fn dispatch(request: &Request) -> (r: Result<Command, Value>)
    ensures
        match r {
            Ok(command) => command_named(request.cmd@) == Some(command),
            Err(reply) => command_named(request.cmd@) is None && tree(reply) == not_understood(
                request.cmd@,
            ),
        },
{
    match command_of(request.cmd.as_str()) {
        Some(command) => Ok(command),
        None => {
            let mut message = "Unknown command: ".to_owned();
            message.append(request.cmd.as_str());
            Err(error_response(message.as_str()))
        },
    }
}

/// The time that a seek asks for; a negative one, which is not honoured,
/// where the request gives none.
pub open spec fn asked_time(position: Option<Seconds>) -> Seconds {
    match position {
        Some(position) => position,
        None => Seconds { bits: 0xbff0_0000_0000_0000 },
    }
}

/// The time that a seek asks for; a negative one, which is not honoured,
/// where the request gives none.
pub fn wanted_position(request: &Request) -> (r: Seconds)
    ensures
        r == asked_time(request.position),
        request.position is None ==> r.is_finite_number() && r.before(Seconds { bits: 0 }),
{
    match request.position {
        Some(position) => position,
        // -1.0
        None => Seconds { bits: 0xbff0_0000_0000_0000 },
    }
}

/// The reply that reports success and nothing else.
pub open spec fn agreed() -> Json {
    Json::Object(no_members().insert("ok"@, Json::Bool(true)))
}

/// The reply that reports success and nothing else.
pub fn plain_ok() -> (r: Value)
    ensures
        tree(r) == agreed(),
{
    let mut reply = object();
    put(&mut reply, "ok", boolean(true));
    reply
}

/// What is missing of the two tools.
pub open spec fn missing_tools(ffmpeg: bool, ffprobe: bool) -> Seq<Json> {
    (if ffmpeg {
        Seq::empty()
    } else {
        seq![Json::Text("ffmpeg"@)]
    }) + (if ffprobe {
        Seq::empty()
    } else {
        seq![Json::Text("ffprobe"@)]
    })
}

/// What the daemon has to work with.
pub open spec fn deps_object(ffmpeg: bool, ffprobe: bool) -> Json {
    Json::Object(
        no_members().insert("ok"@, Json::Bool(true)).insert("installed"@, Json::Bool(true)).insert(
            "core"@,
            Json::Bool(true),
        ).insert(
            "backends"@,
            Json::Object(
                no_members().insert("dlna"@, Json::Bool(true)).insert(
                    "cast"@,
                    Json::Bool(true),
                ).insert("airplay"@, Json::Bool(true)),
            ),
        ).insert("ffmpeg"@, Json::Bool(ffmpeg)).insert(
            "missing"@,
            Json::List(missing_tools(ffmpeg, ffprobe)),
        ),
    )
}

/// The reply that says what the daemon has to work with.
pub fn deps(ffmpeg: bool, ffprobe: bool) -> (r: Value)
    ensures
        tree(r) == deps_object(ffmpeg, ffprobe),
{
    let mut missing: Vec<Value> = Vec::new();
    if !ffmpeg {
        missing.push(string("ffmpeg"));
    }
    if !ffprobe {
        missing.push(string("ffprobe"));
    }
    assert(trees(missing@) =~= missing_tools(ffmpeg, ffprobe));
    let mut backends = object();
    put(&mut backends, "dlna", boolean(true));
    put(&mut backends, "cast", boolean(true));
    put(&mut backends, "airplay", boolean(true));
    let mut reply = object();
    put(&mut reply, "ok", boolean(true));
    put(&mut reply, "installed", boolean(true));
    put(&mut reply, "core", boolean(true));
    put(&mut reply, "backends", backends);
    put(&mut reply, "ffmpeg", boolean(ffmpeg));
    put(&mut reply, "missing", array(missing));
    reply
}

// ---------------------------------------------------------------------------
// Status

/// What the report on a stream holds.
pub struct StreamView {
    pub device: Seq<char>,
    pub device_ip: Seq<char>,
    pub protocol: Seq<char>,
    pub state: Seq<char>,
    pub position: Seconds,
    pub duration: Seconds,
    pub paused: bool,
    pub volume: i32,
    pub muted: bool,
    pub volume_supported: bool,
    pub boost: i32,
    pub subtitles: Seq<TrackView>,
    pub subtitle: i32,
    pub subtitles_supported: bool,
}

impl View for StreamInfo {
    type V = StreamView;

    open spec fn view(&self) -> StreamView {
        StreamView {
            device: self.device@,
            device_ip: self.device_ip@,
            protocol: self.protocol@,
            state: self.state@,
            position: self.position,
            duration: self.duration,
            paused: self.paused,
            volume: self.volume,
            muted: self.muted,
            volume_supported: self.volume_supported,
            boost: self.boost,
            subtitles: track_views(self.subtitles@),
            subtitle: self.subtitle,
            subtitles_supported: self.subtitles_supported,
        }
    }
}

/// The report on the stream of a session.
pub open spec fn stream_of(s: SessionView) -> StreamView {
    StreamView {
        device: if s.name.len() == 0 {
            s.ip
        } else {
            s.name
        },
        device_ip: s.ip,
        protocol: s.protocol,
        state: s.state.name(),
        position: s.position,
        duration: s.duration,
        paused: s.state is Paused,
        volume: s.volume,
        muted: s.muted,
        volume_supported: s.volume_supported,
        boost: s.boost,
        subtitles: s.subtitles,
        subtitle: match s.subtitle {
            Some(id) => id as i32,
            None => (-1) as i32,
        },
        subtitles_supported: s.subtitles_supported,
    }
}

fn stream_info(session: &Session) -> (r: StreamInfo)
    ensures
        r@ == stream_of(session@),
{
    StreamInfo {
        device: if is_empty(session.name.as_str()) {
            session.ip.clone()
        } else {
            session.name.clone()
        },
        device_ip: session.ip.clone(),
        protocol: session.protocol.clone(),
        state: session.state.as_str().to_owned(),
        position: session.position,
        duration: session.duration,
        paused: session.state == SessionState::Paused,
        volume: session.volume,
        muted: session.muted,
        volume_supported: session.volume_supported,
        boost: session.boost,
        subtitles: clone_tracks(&session.subtitles),
        subtitle: match session.subtitle {
            Some(id) => #[verifier::truncate] (id as i32),
            None => -1,
        },
        subtitles_supported: session.subtitles_supported,
    }
}

/// The state that is reported of a session.
pub open spec fn told_state(s: SessionView) -> Seq<char> {
    if s.state.active() {
        s.state.name()
    } else {
        "idle"@
    }
}

/// The streams that are reported of a session.
pub open spec fn told_streams(s: SessionView) -> Seq<StreamView> {
    if s.state.active() {
        seq![stream_of(s)]
    } else {
        Seq::empty()
    }
}

/// The error that is reported of a session.
pub open spec fn told_error(s: SessionView) -> Seq<char> {
    if s.state is Error {
        s.error
    } else {
        Seq::empty()
    }
}

/// What some reports on streams say.
pub open spec fn stream_views(streams: Seq<StreamInfo>) -> Seq<StreamView> {
    Seq::new(streams.len(), |i: int| streams[i]@)
}

/// Reports on the session. `settings` is what the settings file holds.
pub fn status(session: &Session, settings: Option<&str>) -> (r: Status)
    ensures
        r.ok,
        r.state@ == told_state(session@),
        stream_views(r.streams@) == told_streams(session@),
        r.last_receiver@ == receiver_setting(contents(settings)),
        r.multicast_discovery == multicast_setting(contents(settings)),
        r.audio_boost == boost_setting(contents(settings)),
        r.error@ == told_error(session@),
{
    let active = session.state.is_active();
    let mut streams: Vec<StreamInfo> = Vec::new();
    if active {
        streams.push(stream_info(session));
    }
    assert(stream_views(streams@) =~= told_streams(session@));
    Status {
        ok: true,
        state: if active {
            session.state.as_str().to_owned()
        } else {
            "idle".to_owned()
        },
        streams,
        last_receiver: last_receiver(settings),
        multicast_discovery: multicast_discovery(settings),
        audio_boost: audio_boost(settings),
        error: if session.state == SessionState::Error {
            session.error.clone()
        } else {
            String::new()
        },
    }
}

// ---------------------------------------------------------------------------
// What acts on a session

/// Which connections to a receiver are alive.
#[derive(Debug, Clone, Copy, PartialEq, Eq, Structural)]
pub struct Live {
    pub cast: bool,
    pub dlna: bool,
    pub airplay: bool,
    /// The DLNA renderer lets its volume be changed.
    pub rendering: bool,
    /// The stream goes through ffmpeg.
    pub transcode: bool,
}

/// Whom a command goes to.
#[derive(Debug, Clone, Copy, PartialEq, Eq, Structural)]
pub enum Target {
    Nobody,
    Cast,
    Dlna,
    Airplay,
}

/// Whom a pause or a resume goes to: the connection of the session's protocol,
/// where it is alive.
pub open spec fn target_of(protocol: Seq<char>, live: Live) -> Target {
    if protocol == "cast"@ && live.cast {
        Target::Cast
    } else if protocol == "dlna"@ && live.dlna {
        Target::Dlna
    } else if protocol == "airplay"@ && live.airplay {
        Target::Airplay
    } else {
        Target::Nobody
    }
}

/// A pause or a resume shows in the session: always for Cast, else where the
/// connection is alive.
pub open spec fn shows(protocol: Seq<char>, live: Live) -> bool {
    protocol == "cast"@ || !(target_of(protocol, live) is Nobody)
}

/// Whom a pause or a resume goes to.
pub fn target(session: &Session, live: Live) -> (r: Target)
    ensures
        r == target_of(session@.protocol, live),
{
    let protocol = session.protocol.as_str();
    if same(protocol, "cast") && live.cast {
        Target::Cast
    } else if same(protocol, "dlna") && live.dlna {
        Target::Dlna
    } else if same(protocol, "airplay") && live.airplay {
        Target::Airplay
    } else {
        Target::Nobody
    }
}

/// A session once playback pauses.
pub open spec fn pausing(s: SessionView, protocol: Seq<char>, live: Live) -> SessionView {
    if shows(protocol, live) && s.state is Playing {
        SessionView { state: SessionState::Paused, ..s }
    } else {
        s
    }
}

/// A session once playback goes on.
pub open spec fn resuming(s: SessionView, protocol: Seq<char>, live: Live) -> SessionView {
    if shows(protocol, live) && s.state is Paused {
        SessionView { state: SessionState::Playing, ..s }
    } else {
        s
    }
}

/// Notes in the session that playback pauses. `protocol` and `live` are those
/// that the pause was sent under.
pub fn pause(session: &mut Session, protocol: &str, live: Live)
    ensures
        final(session)@ == pausing(old(session)@, protocol@, live),
{
    let shown = same(protocol, "cast") || (same(protocol, "dlna") && live.dlna) || (same(
        protocol,
        "airplay",
    ) && live.airplay);
    if shown && session.state == SessionState::Playing {
        session.state = SessionState::Paused;
    }
}

/// Notes in the session that playback goes on. `protocol` and `live` are those
/// that the resume was sent under.
pub fn resume(session: &mut Session, protocol: &str, live: Live)
    ensures
        final(session)@ == resuming(old(session)@, protocol@, live),
{
    let shown = same(protocol, "cast") || (same(protocol, "dlna") && live.dlna) || (same(
        protocol,
        "airplay",
    ) && live.airplay);
    if shown && session.state == SessionState::Paused {
        session.state = SessionState::Playing;
    }
}

/// How a position is reached.
#[derive(Debug, Clone, Copy, PartialEq, Eq, Structural)]
pub enum SeekHow {
    /// Nobody is there to be told.
    Nobody,
    /// The Cast session is told.
    Cast,
    /// The receiver seeks, and then plays on.
    DlnaSeek,
    AirplaySeek,
    /// An ffmpeg stream cannot be seeked by the receiver; it is started again
    /// at the wanted position.
    DlnaRestart,
    AirplayRestart,
}

/// What a seek does: nothing, or it goes to a position.
#[derive(Debug, Clone, Copy, PartialEq, Eq, Structural)]
pub enum SeekPlan {
    Ignore,
    Go { position: Seconds, how: SeekHow },
}

/// How a position is reached under a protocol.
pub open spec fn seek_how(protocol: Seq<char>, live: Live) -> SeekHow {
    if protocol == "cast"@ {
        if live.cast {
            SeekHow::Cast
        } else {
            SeekHow::Nobody
        }
    } else if protocol == "dlna"@ {
        if live.transcode {
            SeekHow::DlnaRestart
        } else if live.dlna {
            SeekHow::DlnaSeek
        } else {
            SeekHow::Nobody
        }
    } else if protocol == "airplay"@ {
        if live.transcode {
            SeekHow::AirplayRestart
        } else if live.airplay {
            SeekHow::AirplaySeek
        } else {
            SeekHow::Nobody
        }
    } else {
        SeekHow::Nobody
    }
}

/// What a seek to `position` does: only a finite time that is not negative
/// counts, and where the duration is known it is the furthest.
pub open spec fn seek_to(s: SessionView, position: Seconds, live: Live) -> SeekPlan {
    if !s.state.active() || !position.is_finite_number() || position.before(Seconds { bits: 0 }) {
        SeekPlan::Ignore
    } else {
        SeekPlan::Go {
            position: if s.duration.positive() {
                position.earlier(s.duration)
            } else {
                position
            },
            how: seek_how(s.protocol, live),
        }
    }
}

fn how_to_seek(protocol: &str, live: Live) -> (r: SeekHow)
    ensures
        r == seek_how(protocol@, live),
{
    if same(protocol, "cast") {
        if live.cast {
            SeekHow::Cast
        } else {
            SeekHow::Nobody
        }
    } else if same(protocol, "dlna") {
        if live.transcode {
            SeekHow::DlnaRestart
        } else if live.dlna {
            SeekHow::DlnaSeek
        } else {
            SeekHow::Nobody
        }
    } else if same(protocol, "airplay") {
        if live.transcode {
            SeekHow::AirplayRestart
        } else if live.airplay {
            SeekHow::AirplaySeek
        } else {
            SeekHow::Nobody
        }
    } else {
        SeekHow::Nobody
    }
}

/// What a seek to `position` does.
pub fn seek(session: &Session, position: Seconds, live: Live) -> (r: SeekPlan)
    ensures
        r == seek_to(session@, position, live),
{
    if !session.state.is_active() || !position.is_finite() || position.is_negative() {
        return SeekPlan::Ignore;
    }
    let position = if session.duration.is_positive() {
        position.min(session.duration)
    } else {
        position
    };
    SeekPlan::Go { position, how: how_to_seek(session.protocol.as_str(), live) }
}

/// Notes in the session where playback has been moved to.
pub fn moved(session: &mut Session, position: Seconds)
    ensures
        final(session)@ == moved_to(old(session)@, position),
{
    session.position = position;
}

/// Notes in the session that the stream starts again at a position.
pub fn restarted(session: &mut Session, position: Seconds)
    ensures
        final(session)@ == restarted_at(old(session)@, position),
{
    session.position = position;
    session.state = SessionState::Buffering;
}

/// So many times a renderer is asked whether it plays.
pub const PLAY_TRIES: u32 = 12;

/// A renderer that was asked so many times is asked again.
pub open spec fn asked_again(tries: u32, transport: Seq<char>) -> bool {
    tries < PLAY_TRIES && transport != "PLAYING"@
}

/// Whether a renderer that was asked so many times is to be asked again before
/// it is told to seek: until it plays, or has been asked often enough.
pub fn keep_waiting(tries: u32, transport: &str) -> (r: bool)
    ensures
        r == asked_again(tries, transport@),
{
    tries < PLAY_TRIES && !same(transport, "PLAYING")
}

/// A seek never leaves the medium: it goes to a finite time that is not
/// negative and, where the duration is known, not after the end.
pub proof fn seek_stays_inside(s: SessionView, position: Seconds, live: Live)
    ensures
        seek_to(s, position, live) matches SeekPlan::Go { position: to, .. } ==> {
            &&& to.is_number()
            &&& Seconds { bits: 0 }.not_after(to)
            &&& s.duration.positive() ==> to.not_after(s.duration)
        },
{
}

/// Why the volume cannot be changed: nothing is being cast, or nothing is
/// there to change it.
pub open spec fn volume_refused(s: SessionView, live: Live) -> Option<Seq<char>> {
    if !s.state.active() {
        Some("Nothing is casting"@)
    } else if s.protocol == "cast"@ {
        if live.cast {
            None
        } else {
            Some("No cast session"@)
        }
    } else if s.protocol == "dlna"@ {
        if live.dlna && live.rendering {
            None
        } else {
            Some("This receiver does not expose volume control"@)
        }
    } else {
        Some("Volume control is not available over AirPlay"@)
    }
}

fn volume_refusal(session: &Session, live: Live) -> (r: Option<&'static str>)
    ensures
        match r {
            Some(reason) => volume_refused(session@, live) == Some(reason@),
            None => volume_refused(session@, live) is None,
        },
{
    if !session.state.is_active() {
        Some("Nothing is casting")
    } else if same(session.protocol.as_str(), "cast") {
        if live.cast {
            None
        } else {
            Some("No cast session")
        }
    } else if same(session.protocol.as_str(), "dlna") {
        if live.dlna && live.rendering {
            None
        } else {
            Some("This receiver does not expose volume control")
        }
    } else {
        Some("Volume control is not available over AirPlay")
    }
}

/// Whom a new volume goes to, and which it is; or why it goes to nobody.
pub open spec fn volume_asked(s: SessionView, level: Option<i32>, live: Live) -> Result<
    (Target, int),
    Seq<char>,
> {
    match level {
        None => Err("Invalid volume"@),
        Some(level) => match volume_refused(s, live) {
            Some(reason) => Err(reason),
            None => Ok((target_of(s.protocol, live), percent(level as int))),
        },
    }
}

/// Whom muting or unmuting goes to; or why it goes to nobody.
pub open spec fn mute_asked(s: SessionView, value: Seq<char>, live: Live) -> Result<
    (Target, bool),
    Seq<char>,
> {
    match truth_of(value) {
        None => Err("Invalid mute value"@),
        Some(muted) => match volume_refused(s, live) {
            Some(reason) => Err(reason),
            None => Ok((target_of(s.protocol, live), muted)),
        },
    }
}

/// Whom a new volume goes to, brought into the range from 0 to 100; a refusal
/// where the value was no number, nothing is being cast, or nothing is there
/// to change it.
pub fn set_volume(session: &Session, level: Option<i32>, live: Live) -> (r: Result<
    (Target, i32),
    &'static str,
>)
    ensures
        match r {
            Ok((target, volume)) => volume_asked(session@, level, live) == Ok::<
                (Target, int),
                Seq<char>,
            >((target, volume as int)),
            Err(reason) => volume_asked(session@, level, live) == Err::<(Target, int), Seq<char>>(
                reason@,
            ),
        },
{
    match level {
        None => Err("Invalid volume"),
        Some(level) => match volume_refusal(session, live) {
            Some(reason) => Err(reason),
            None => Ok((target(session, live), clamp_percent(level))),
        },
    }
}

/// What a text says about being mute.
pub open spec fn truth_of(value: Seq<char>) -> Option<bool> {
    let word = trimmed(value);
    if word == "true"@ || word == "1"@ || word == "on"@ {
        Some(true)
    } else if word == "false"@ || word == "0"@ || word == "off"@ {
        Some(false)
    } else {
        None
    }
}

/// What a text says about being mute.
pub fn parse_bool(value: &str) -> (r: Option<bool>)
    ensures
        r == truth_of(value@),
{
    let word = trim(value);
    let w = word.as_str();
    if same(w, "true") || same(w, "1") || same(w, "on") {
        Some(true)
    } else if same(w, "false") || same(w, "0") || same(w, "off") {
        Some(false)
    } else {
        None
    }
}

/// Whom muting or unmuting goes to; a refusal where the value says neither,
/// nothing is being cast, or nothing is there to change it.
pub fn set_mute(session: &Session, value: &str, live: Live) -> (r: Result<
    (Target, bool),
    &'static str,
>)
    ensures
        match r {
            Ok((target, muted)) => mute_asked(session@, value@, live) == Ok::<
                (Target, bool),
                Seq<char>,
            >((target, muted)),
            Err(reason) => mute_asked(session@, value@, live) == Err::<(Target, bool), Seq<char>>(
                reason@,
            ),
        },
{
    match parse_bool(value) {
        None => Err("Invalid mute value"),
        Some(muted) => match volume_refusal(session, live) {
            Some(reason) => Err(reason),
            None => Ok((target(session, live), muted)),
        },
    }
}

/// Notes a new volume in the session.
pub fn volume_set(session: &mut Session, level: i32)
    ensures
        final(session)@ == (SessionView { volume: level, ..old(session)@ }),
{
    session.volume = level;
}

/// Notes in the session whether the receiver is mute.
pub fn mute_set(session: &mut Session, muted: bool)
    ensures
        final(session)@ == (SessionView { muted, ..old(session)@ }),
{
    session.muted = muted;
}

// ---------------------------------------------------------------------------
// Subtitles

/// The first track in a language.
pub open spec fn track_in(tracks: Seq<TrackView>, language: Seq<char>) -> Option<u32>
    decreases tracks.len(),
{
    if tracks.len() == 0 {
        None
    } else {
        match track_in(tracks.drop_last(), language) {
            Some(id) => Some(id),
            None => if tracks.last().language == language {
                Some(tracks.last().id)
            } else {
                None
            },
        }
    }
}

/// The track to enable for a new cast, from the remembered language preference.
pub open spec fn preferred(tracks: Seq<TrackView>, preference: Seq<char>) -> Option<u32> {
    if preference.len() == 0 || preference == "off"@ {
        None
    } else {
        track_in(tracks, preference)
    }
}

/// The track to enable for a new cast to a receiver of this protocol.
pub open spec fn enabled_for(
    protocol: Seq<char>,
    tracks: Seq<TrackView>,
    preference: Seq<char>,
) -> Option<u32> {
    if protocol == "cast"@ {
        preferred(tracks, preference)
    } else {
        None
    }
}

/// The track to enable for a new cast, from the remembered language preference.
pub fn preferred_subtitle(tracks: &Vec<SubtitleTrack>, preference: &str) -> (r: Option<u32>)
    ensures
        r == preferred(track_views(tracks@), preference@),
{
    if is_empty(preference) || same(preference, "off") {
        return None;
    }
    let mut found: Option<u32> = None;
    assert(track_views(tracks@).take(0) =~= Seq::empty());
    for i in 0..tracks.len()
        invariant
            found == track_in(track_views(tracks@).take(i as int), preference@),
    {
        let ghost upto = track_views(tracks@).take(i + 1);
        assert(upto.drop_last() =~= track_views(tracks@).take(i as int));
        assert(upto.last() == tracks@[i as int]@);
        if found.is_none() && same(tracks[i].language.as_str(), preference) {
            found = Some(tracks[i].id);
        }
    }
    assert(track_views(tracks@).take(tracks@.len() as int) =~= track_views(tracks@));
    found
}

/// The track to enable for a new cast to `device`: only a Cast receiver can
/// show one.
pub fn subtitle_for(device: &Device, tracks: &Vec<SubtitleTrack>, preference: &str) -> (r: Option<
    u32,
>)
    ensures
        r == enabled_for(device@.protocol, track_views(tracks@), preference@),
{
    if same(device.protocol.as_str(), "cast") {
        preferred_subtitle(tracks, preference)
    } else {
        None
    }
}

/// So many times the daemon tries to connect to a Cast receiver.
pub const CONNECT_TRIES: u32 = 2;

/// Whether the connection to a Cast receiver is tried again after so many tries.
pub open spec fn tried_again(tries: u32, connected: bool) -> bool {
    !connected && tries < CONNECT_TRIES
}

/// Whether the connection to a Cast receiver is tried again after so many tries.
pub fn connect_again(tries: u32, connected: bool) -> (r: bool)
    ensures
        r == tried_again(tries, connected),
{
    !connected && tries < CONNECT_TRIES
}

/// The first track with a number.
pub open spec fn track_numbered(tracks: Seq<TrackView>, id: nat) -> Option<TrackView>
    decreases tracks.len(),
{
    if tracks.len() == 0 {
        None
    } else {
        match track_numbered(tracks.drop_last(), id) {
            Some(track) => Some(track),
            None => if tracks.last().id == id {
                Some(tracks.last())
            } else {
                None
            },
        }
    }
}

fn find_numbered(tracks: &Vec<SubtitleTrack>, id: u32) -> (r: Option<usize>)
    ensures
        match r {
            Some(i) => i < tracks@.len() && track_numbered(track_views(tracks@), id as nat) == Some(
                tracks@[i as int]@,
            ),
            None => track_numbered(track_views(tracks@), id as nat) is None,
        },
{
    let mut found: Option<usize> = None;
    assert(track_views(tracks@).take(0) =~= Seq::empty());
    for i in 0..tracks.len()
        invariant
            match found {
                Some(k) => k < i && track_numbered(
                    track_views(tracks@).take(i as int),
                    id as nat,
                ) == Some(tracks@[k as int]@),
                None => track_numbered(track_views(tracks@).take(i as int), id as nat) is None,
            },
    {
        let ghost upto = track_views(tracks@).take(i + 1);
        assert(upto.drop_last() =~= track_views(tracks@).take(i as int));
        assert(upto.last() == tracks@[i as int]@);
        if found.is_none() && tracks[i].id == id {
            found = Some(i);
        }
    }
    assert(track_views(tracks@).take(tracks@.len() as int) =~= track_views(tracks@));
    found
}

/// What the choice of a track says: that there shall be none.
pub open spec fn is_off(word: Seq<char>) -> bool {
    word.len() == 0 || word == "off"@ || word == "-1"@ || word == "none"@
}

/// The track that a choice names, where there is such a track.
pub open spec fn chosen_track(tracks: Seq<TrackView>, value: Seq<char>) -> Option<TrackView> {
    match unsigned(trimmed(value)) {
        Some(id) => if id <= u32::MAX {
            track_numbered(tracks, id)
        } else {
            None
        },
        None => None,
    }
}

/// Why a subtitle track cannot be shown.
pub open spec fn subtitle_refused(s: SessionView, value: Seq<char>, live: Live) -> Option<
    Seq<char>,
> {
    if !s.state.active() {
        Some("Nothing is casting"@)
    } else if !is_off(trimmed(value)) && chosen_track(s.subtitles, value) is None {
        Some("Unknown subtitle track"@)
    } else if s.protocol != "cast"@ {
        Some("Subtitle selection is available on Google Cast receivers only for now"@)
    } else if !live.cast {
        Some("No cast session"@)
    } else {
        None
    }
}

/// The language that is remembered for later casts.
pub open spec fn remembered(track: Option<TrackView>) -> Seq<char> {
    match track {
        Some(track) => if track.language.len() > 0 {
            track.language
        } else {
            "off"@
        },
        None => "off"@,
    }
}

/// The number of the track that is shown from now on, or none, and the language
/// to remember for later casts; or why nothing changes.
pub open spec fn subtitle_asked(s: SessionView, value: Seq<char>, live: Live) -> Result<
    (Option<u32>, Seq<char>),
    Seq<char>,
> {
    match subtitle_refused(s, value, live) {
        Some(reason) => Err(reason),
        None => {
            let track = if is_off(trimmed(value)) {
                None
            } else {
                chosen_track(s.subtitles, value)
            };
            Ok(
                (
                    match track {
                        Some(track) => Some(track.id),
                        None => None,
                    },
                    remembered(track),
                ),
            )
        },
    }
}

/// The track that is shown from now on, or none, and the language to remember
/// for later casts.
pub fn set_subtitle(session: &Session, value: &str, live: Live) -> (r: Result<
    (Option<u32>, String),
    &'static str,
>)
    ensures
        match r {
            Ok((id, preference)) => subtitle_asked(session@, value@, live) == Ok::<
                (Option<u32>, Seq<char>),
                Seq<char>,
            >((id, preference@)),
            Err(reason) => subtitle_asked(session@, value@, live) == Err::<
                (Option<u32>, Seq<char>),
                Seq<char>,
            >(reason@),
        },
{
    if !session.state.is_active() {
        return Err("Nothing is casting");
    }
    let word = trim(value);
    let w = word.as_str();
    let index: Option<usize> = if is_empty(w) || same(w, "off") || same(w, "-1") || same(w, "none") {
        None
    } else {
        match parse_u32(w) {
            Some(id) => match find_numbered(&session.subtitles, id) {
                Some(i) => Some(i),
                None => {
                    return Err("Unknown subtitle track");
                },
            },
            None => {
                return Err("Unknown subtitle track");
            },
        }
    };
    if !same(session.protocol.as_str(), "cast") {
        return Err("Subtitle selection is available on Google Cast receivers only for now");
    }
    if !live.cast {
        return Err("No cast session");
    }
    match index {
        Some(i) => {
            let track = &session.subtitles[i];
            if is_empty(track.language.as_str()) {
                Ok((Some(track.id), "off".to_owned()))
            } else {
                Ok((Some(track.id), track.language.clone()))
            }
        },
        None => Ok((None, "off".to_owned())),
    }
}

/// Notes in the session which track is shown.
pub fn subtitle_set(session: &mut Session, track: Option<u32>)
    ensures
        final(session)@ == (SessionView { subtitle: track, ..old(session)@ }),
{
    session.subtitle = track;
}

/// A choice that is remembered is honoured at the next cast: among the same
/// tracks, one in the language of the chosen track is shown.
pub proof fn choice_is_remembered(tracks: Seq<TrackView>, value: Seq<char>, track: TrackView)
    requires
        chosen_track(tracks, value) == Some(track),
        track.language.len() > 0,
        track.language != "off"@,
    ensures
        remembered(Some(track)) == track.language,
        track_in(tracks, remembered(Some(track))) is Some,
{
    let id = unsigned(trimmed(value))->0;
    numbered_has_language(tracks, id, track);
}

proof fn numbered_has_language(tracks: Seq<TrackView>, id: nat, track: TrackView)
    requires
        track_numbered(tracks, id) == Some(track),
    ensures
        track_in(tracks, track.language) is Some,
    decreases tracks.len(),
{
    if tracks.len() > 0 {
        if track_numbered(tracks.drop_last(), id) is Some {
            numbered_has_language(tracks.drop_last(), id, track);
        }
    }
}

// ---------------------------------------------------------------------------
// Boost

/// What a new boost level asks for.
#[derive(Debug)]
pub enum BoostPlan {
    /// It is none.
    Invalid,
    /// The level, and the text to save it under.
    Save { boost: i32, text: String, restream: bool },
}

/// What a new boost level asks for: the level, the text to save it under, and
/// whether the file is served anew.
pub open spec fn boost_asked(s: SessionView, value: Seq<char>) -> Option<(int, Seq<char>, bool)> {
    match boost_of(value) {
        Some(level) => Some((level, signed_decimal(level), s.state.active() && s.boost != level)),
        None => None,
    }
}

/// What a new boost level asks for: it is saved, and where something is being
/// cast with another level, the file is served anew.
pub fn set_boost(session: &Session, value: &str) -> (r: BoostPlan)
    ensures
        match r {
            BoostPlan::Invalid => boost_asked(session@, value@) is None,
            BoostPlan::Save { boost, text, restream } => boost_asked(session@, value@) == Some(
                (boost as int, text@, restream),
            ),
        },
{
    match parse_boost(value) {
        None => BoostPlan::Invalid,
        Some(boost) => BoostPlan::Save {
            boost,
            text: show_signed(boost as i64),
            restream: session.state.is_active() && session.boost != boost,
        },
    }
}

/// The message for a boost that was saved but cannot be applied.
pub open spec fn boost_failed(error: Seq<char>) -> Json {
    refusal("Boost saved for the next cast, but it could not be applied now: "@ + error)
}

/// The message for a boost that was saved but cannot be applied.
pub fn boost_failure(error: &str) -> (r: Value)
    ensures
        tree(r) == boost_failed(error@),
{
    let mut message = "Boost saved for the next cast, but it could not be applied now: ".to_owned();
    message.append(error);
    error_response(message.as_str())
}

/// Notes in the session the boost of the stream that is being served.
pub fn boost_set(session: &mut Session, boost: i32)
    ensures
        final(session)@ == (SessionView { boost, ..old(session)@ }),
{
    session.boost = boost;
}

/// What follows once the file is served anew.
#[derive(Debug)]
pub enum Restream {
    /// The Cast session is told to load the new stream.
    Cast,
    /// The renderer is pointed at it.
    Dlna,
    Airplay,
    /// It cannot be done, with this message.
    Failed(String),
}

/// What follows once the file is served anew.
pub open spec fn restreams(r: Restream, protocol: Seq<char>, live: Live) -> bool {
    match r {
        Restream::Cast => protocol == "cast"@ && live.cast,
        Restream::Dlna => protocol == "dlna"@,
        Restream::Airplay => protocol == "airplay"@,
        Restream::Failed(message) => if protocol == "cast"@ {
            !live.cast && message@ == "No cast session"@
        } else {
            protocol != "dlna"@ && protocol != "airplay"@ && message@ == "Unsupported protocol: "@
                + protocol
        },
    }
}

/// What follows once the file is served anew.
pub fn restream(protocol: &str, live: Live) -> (r: Restream)
    ensures
        restreams(r, protocol@, live),
{
    if same(protocol, "cast") {
        if live.cast {
            Restream::Cast
        } else {
            Restream::Failed("No cast session".to_owned())
        }
    } else if same(protocol, "dlna") {
        proof {
            reveal_strlit("cast");
            reveal_strlit("dlna");
            assert("cast"@[0] != "dlna"@[0]);
        }
        Restream::Dlna
    } else if same(protocol, "airplay") {
        proof {
            reveal_strlit("cast");
            reveal_strlit("airplay");
            assert("cast"@[0] != "airplay"@[0]);
        }
        Restream::Airplay
    } else {
        let mut message = "Unsupported protocol: ".to_owned();
        message.append(protocol);
        Restream::Failed(message)
    }
}

// ---------------------------------------------------------------------------
// Addresses and settings

/// The list of entered addresses after one more; `None` where it is unchanged.
pub open spec fn entered(ip: Option<Seq<char>>, known: Seq<Seq<char>>) -> Result<
    Option<Seq<Seq<char>>>,
    Seq<char>,
> {
    match ip {
        None => Err("Invalid address"@),
        Some(ip) => if known.contains(ip) {
            Ok(None)
        } else {
            Ok(Some(known.push(ip)))
        },
    }
}

/// The list of entered addresses after one more; `None` where it is unchanged.
pub fn add_ip(ip: Option<&str>, known: &Vec<String>) -> (r: Result<Option<Vec<String>>, &'static str>)
    ensures
        match r {
            Err(reason) => entered(contents(ip), views(known@)) == Err::<
                Option<Seq<Seq<char>>>,
                Seq<char>,
            >(reason@),
            Ok(None) => entered(contents(ip), views(known@)) == Ok::<
                Option<Seq<Seq<char>>>,
                Seq<char>,
            >(None),
            Ok(Some(list)) => entered(contents(ip), views(known@)) == Ok::<
                Option<Seq<Seq<char>>>,
                Seq<char>,
            >(Some(views(list@))),
        },
{
    match ip {
        None => Err("Invalid address"),
        Some(ip) => if holds(known, ip) {
            Ok(None)
        } else {
            let mut list = clone_strings(known);
            let ghost before = views(list@);
            list.push(ip.to_owned());
            assert(views(list@) =~= before.push(ip@));
            Ok(Some(list))
        },
    }
}

/// The entries other than `ip`.
pub open spec fn without(list: Seq<Seq<char>>, ip: Seq<char>) -> Seq<Seq<char>>
    decreases list.len(),
{
    if list.len() == 0 {
        Seq::empty()
    } else if list.last() == ip {
        without(list.drop_last(), ip)
    } else {
        without(list.drop_last(), ip).push(list.last())
    }
}

/// The list of entered addresses without one.
pub open spec fn removed(ip: Option<Seq<char>>, known: Seq<Seq<char>>) -> Result<
    Seq<Seq<char>>,
    Seq<char>,
> {
    match ip {
        None => Err("Invalid address"@),
        Some(ip) => Ok(without(known, ip)),
    }
}

/// The list of entered addresses without one.
pub fn remove_ip(ip: Option<&str>, known: &Vec<String>) -> (r: Result<Vec<String>, &'static str>)
    ensures
        match r {
            Err(reason) => removed(contents(ip), views(known@)) == Err::<Seq<Seq<char>>, Seq<char>>(
                reason@,
            ),
            Ok(list) => removed(contents(ip), views(known@)) == Ok::<Seq<Seq<char>>, Seq<char>>(
                views(list@),
            ),
        },
{
    let ip = match ip {
        None => {
            return Err("Invalid address");
        },
        Some(ip) => ip,
    };
    let mut list: Vec<String> = Vec::new();
    assert(views(list@) =~= without(views(known@).take(0), ip@));
    for i in 0..known.len()
        invariant
            views(list@) == without(views(known@).take(i as int), ip@),
    {
        let ghost before = views(list@);
        assert(views(known@).take(i + 1).drop_last() =~= views(known@).take(i as int));
        if !same(known[i].as_str(), ip) {
            list.push(known[i].clone());
            assert(views(list@) =~= before.push(known@[i as int]@));
        }
    }
    assert(views(known@).take(known@.len() as int) =~= views(known@));
    Ok(list)
}

/// An address that was removed is gone, and adding it again puts it at the end
/// of what is left.
pub proof fn removed_is_gone(list: Seq<Seq<char>>, ip: Seq<char>)
    ensures
        !without(list, ip).contains(ip),
        !list.contains(ip) ==> without(list.push(ip), ip) == list,
    decreases list.len(),
{
    if list.len() > 0 {
        removed_is_gone(list.drop_last(), ip);
        let shorter = without(list.drop_last(), ip);
        let all = without(list, ip);
        assert forall|i: int| 0 <= i < all.len() implies all[i] != ip by {
            if i < shorter.len() {
                assert(all[i] == shorter[i]);
                assert(!shorter.contains(ip));
            }
        }
    }
    if !list.contains(ip) {
        nothing_to_remove(list, ip);
        assert(list.push(ip).drop_last() =~= list);
    }
}

proof fn nothing_to_remove(list: Seq<Seq<char>>, ip: Seq<char>)
    requires
        !list.contains(ip),
    ensures
        without(list, ip) == list,
    decreases list.len(),
{
    if list.len() > 0 {
        assert forall|i: int| 0 <= i < list.drop_last().len() implies list.drop_last()[i] != ip by {
            assert(list[i] != ip);
        }
        nothing_to_remove(list.drop_last(), ip);
        assert(list[list.len() - 1] != ip);
        assert(list.drop_last().push(list.last()) =~= list);
    }
}

/// Whether a value may be saved as the setting for multicast searches.
pub open spec fn is_multicast_value(value: Seq<char>) -> bool {
    value == "true"@ || value == "false"@
}

/// Whether a value may be saved as the setting for multicast searches.
pub fn multicast_is_valid(value: &str) -> (r: bool)
    ensures
        r == is_multicast_value(value@),
{
    same(value, "true") || same(value, "false")
}

/// Whether the list of receivers that was found `age_ms` milliseconds ago is
/// still good enough.
pub open spec fn is_fresh(force: bool, known: usize, age_ms: u64) -> bool {
    !force && known > 0 && age_ms < DISCOVER_TTL * 1000
}

/// Whether the list of receivers that was found `age_ms` milliseconds ago is
/// still good enough.
pub fn cache_is_fresh(force: bool, known: usize, age_ms: u64) -> (r: bool)
    ensures
        r == is_fresh(force, known, age_ms),
{
    !force && known > 0 && age_ms < DISCOVER_TTL * 1000
}

/// The receivers other than the one at `ip`.
pub open spec fn elsewhere(devices: Seq<DeviceView>, ip: Seq<char>) -> Seq<DeviceView>
    decreases devices.len(),
{
    if devices.len() == 0 {
        Seq::empty()
    } else if devices.last().ip == ip {
        elsewhere(devices.drop_last(), ip)
    } else {
        elsewhere(devices.drop_last(), ip).push(devices.last())
    }
}

/// The receivers with one that was found by probing.
pub open spec fn with_probed(devices: Seq<DeviceView>, device: DeviceView) -> Seq<DeviceView> {
    elsewhere(devices, device.ip).push(device)
}

/// Remembers a receiver that was found by probing, in place of any other at
/// its address.
pub fn remember(devices: &Vec<Device>, device: &Device) -> (r: Vec<Device>)
    ensures
        device_views(r@) == with_probed(device_views(devices@), device@),
{
    let mut out: Vec<Device> = Vec::new();
    assert(device_views(out@) =~= elsewhere(device_views(devices@).take(0), device@.ip));
    for i in 0..devices.len()
        invariant
            device_views(out@) == elsewhere(device_views(devices@).take(i as int), device@.ip),
    {
        let ghost before = device_views(out@);
        let ghost upto = device_views(devices@).take(i + 1);
        assert(upto.drop_last() =~= device_views(devices@).take(i as int));
        assert(upto.last() == devices@[i as int]@);
        if !same(devices[i].ip.as_str(), device.ip.as_str()) {
            out.push(devices[i].clone());
            assert(device_views(out@) =~= before.push(devices@[i as int]@));
        }
    }
    assert(device_views(devices@).take(devices@.len() as int) =~= device_views(devices@));
    let ghost before = device_views(out@);
    out.push(device.clone());
    assert(device_views(out@) =~= before.push(device@));
    out
}

// ---------------------------------------------------------------------------
// Laws

/// A file is served as it is exactly where nothing is to be encoded or boosted
/// and, for a Cast receiver, its container is MP4 or QuickTime; it is then
/// found under its own name. Else ffmpeg makes a stream of it, with the codecs
/// that were planned, which can start anywhere only where the picture is
/// encoded anew.
pub proof fn file_is_served_as_it_is_where_it_plays(
    codec: PlanView,
    protocol: Seq<char>,
    path: Seq<char>,
    token: Seq<char>,
    boost: i32,
)
    ensures
        ({
            let plan = plan_with(codec, protocol, path, token, boost);
            let ext = extension_of(path);
            &&& plan.transcode is None <==> boost == 0 && codec.vcodec == "copy"@ && codec.acodec
                == "copy"@ && (protocol == "cast"@ ==> ext == "mp4"@ || ext == "m4v"@ || ext
                == "mov"@)
            &&& plan.transcode is None ==> plan.endpoint == token + "/"@ + percent_encoded(
                basename_of(path),
            ) && !plan.exact_seek
            &&& plan.transcode matches Some(stream) ==> {
                &&& stream.vcodec == codec.vcodec
                &&& stream.acodec == codec.acodec
                &&& stream.channels == codec.channels
                &&& stream.gain_db == boost
                &&& plan.exact_seek <==> codec.vcodec != "copy"@
                &&& protocol == "dlna"@ ==> plan.endpoint == token + "/stream.ts"@
                    && plan.content_type == "video/mpeg"@
                &&& protocol != "dlna"@ ==> plan.endpoint == token + "/stream.mp4"@
                    && plan.content_type == "video/mp4"@
            }
        }),
{
    reveal_strlit("/stream.");
    reveal_strlit("/stream.ts");
    reveal_strlit("/stream.mp4");
    reveal_strlit("ts");
    reveal_strlit("mp4");
    assert("/stream."@ + "ts"@ =~= "/stream.ts"@);
    assert("/stream."@ + "mp4"@ =~= "/stream.mp4"@);
    assert(token + "/stream."@ + "ts"@ =~= token + "/stream.ts"@);
    assert(token + "/stream."@ + "mp4"@ =~= token + "/stream.mp4"@);
}

/// A Cast receiver is never sent a picture that it cannot decode: that of any
/// codec but H.264, VP8, VP9 and HEVC is made H.264 on the way, and so is HEVC
/// for one that does not decode it.
pub proof fn undecodable_pictures_are_transcoded(
    device: DeviceView,
    report: Option<Seq<u8>>,
    i: int,
    path: Seq<char>,
    token: Seq<char>,
    boost: i32,
)
    requires
        device.protocol == "cast"@,
        leads(probed(report), "video"@, i),
        ({
            let codec = probed(report)[i].codec_name;
            codec != "h264"@ && codec != "vp8"@ && codec != "vp9"@ && (codec != "hevc"@
                || !hevc_ok(device.model, device.name))
        }),
    ensures
        plan_with(
            codec_for(device, report),
            device.protocol,
            path,
            token,
            boost,
        ).transcode matches Some(stream) && stream.vcodec == "libx264"@,
{
    picture_is_copied_where_it_plays(probed(report), i, device.model, device.name);
    reveal_strlit("copy");
    reveal_strlit("libx264");
    assert("copy"@.len() != "libx264"@.len());
}

/// Which codecs a receiver gets depends on it: a Cast receiver those that its
/// model plays, any other the file's own.
pub proof fn codecs_are_for_the_receiver(device: DeviceView, report: Option<Seq<u8>>)
    ensures
        device.protocol == "cast"@ ==> codec_for(device, report) == cast_plan(
            probed(report),
            device.model,
            device.name,
        ),
        device.protocol != "cast"@ ==> codec_for(device, report).vcodec == "copy"@ && codec_for(
            device,
            report,
        ).acodec == "copy"@,
{
}

/// What is served has an address on the media server, and a subtitle track one
/// under the token and its own number; it keeps its number, name and language.
pub proof fn served_addresses_lead_to_the_server(
    context: ContextView,
    track: TrackView,
    what: Seq<char>,
)
    ensures
        begins(
            served_at(context.bind, context.port, what),
            "http://"@ + context.bind + ":"@ + decimal(context.port as nat) + "/"@,
        ),
        ends(served_at(context.bind, context.port, what), what),
        text_track(context, track).id == track.id,
        text_track(context, track).name == track.label,
        text_track(context, track).language == track.language,
        text_track(context, track).url == served_at(
            context.bind,
            context.port,
            context.token + "/sub/"@ + decimal(track.id as nat) + ".vtt"@,
        ),
{
    let head = "http://"@ + context.bind + ":"@ + decimal(context.port as nat) + "/"@;
    let url = served_at(context.bind, context.port, what);
    assert(url.take(head.len() as int) =~= head);
    assert(url.skip(url.len() - what.len()) =~= what);
}

/// A stream that ffmpeg makes starts where playback is to resume, or at the
/// keyframe before; a file that is served as it is starts at its beginning,
/// and the receiver is told to seek in it.
pub proof fn playback_resumes_where_it_was(
    context: ContextView,
    position: Seconds,
    keyframe: Option<Seconds>,
)
    ensures
        !context.transcode ==> context.starts_at(position, keyframe) == (Seconds { bits: 0 }),
        context.transcode && context.exact_seek ==> context.starts_at(position, keyframe)
            == position,
        context.wants_keyframe() ==> (keyframe matches Some(at) ==> context.starts_at(
            position,
            keyframe,
        ) == at),
        context.transcode && keyframe is None ==> context.starts_at(position, keyframe) == position,
        context.wants_keyframe() <==> context.transcode && !context.exact_seek,
        context.seeks_later(position, true) <==> !context.transcode && position.positive(),
        !context.seeks_later(position, false),
        context.fractioned() is Some <==> !context.transcode && (context.duration matches Some(d)
            && d.positive()),
        context.fractioned() is Some ==> context.fractioned() == context.duration,
{
}

/// A context with a new stream is about the same cast; how it is played from
/// now on is what the plan for the stream says.
pub proof fn new_stream_is_of_the_same_cast(
    context: ContextView,
    url: Seq<char>,
    plan: ServeView,
)
    ensures
        ({
            let next = context.streaming(url, plan);
            &&& next.url == url
            &&& next.content_type == plan.content_type
            &&& next.transcode <==> plan.transcode is Some
            &&& next.exact_seek == plan.exact_seek
            &&& next.device == context.device && next.ip == context.ip && next.path == context.path
            &&& next.token == context.token && next.bind == context.bind && next.port
                == context.port
            &&& next.subtitles == context.subtitles && next.duration == context.duration
                && next.title == context.title
            &&& next.transcode ==> next.dlna_mime() == plan.content_type
            &&& !next.transcode ==> next.dlna_mime() == dlna_type(extension_of(context.path))
        }),
{
}

impl Command {
    /// The name of a command.
    pub open spec fn word(self) -> Seq<char> {
        match self {
            Command::Ping => "ping"@,
            Command::Status => "status"@,
            Command::Deps => "deps"@,
            Command::Discover => "discover"@,
            Command::Connect => "connect"@,
            Command::Disconnect => "disconnect"@,
            Command::Pause => "pause"@,
            Command::Resume => "resume"@,
            Command::Seek => "seek"@,
            Command::SetVolume => "set-volume"@,
            Command::SetMute => "set-mute"@,
            Command::SetBoost => "set-boost"@,
            Command::SetSubtitle => "set-subtitle"@,
            Command::AddIp => "add-ip"@,
            Command::RemoveIp => "remove-ip"@,
            Command::SaveMulticast => "save-multicast"@,
            Command::ClearFirewall => "clear-firewall"@,
            Command::Shutdown => "shutdown"@,
        }
    }
}

/// Every command is asked for by its name, `stop` asks for what `disconnect`
/// does, and nothing else asks for anything.
pub proof fn commands_go_by_their_names(command: Command, cmd: Seq<char>)
    ensures
        command_named(command.word()) == Some(command),
        command_named("stop"@) == Some(Command::Disconnect),
        command_named(cmd) == Some(command) ==> cmd == command.word() || cmd == "stop"@,
{
    reveal_strlit("ping");
    reveal_strlit("status");
    reveal_strlit("deps");
    reveal_strlit("discover");
    reveal_strlit("connect");
    reveal_strlit("disconnect");
    reveal_strlit("pause");
    reveal_strlit("resume");
    reveal_strlit("seek");
    reveal_strlit("set-volume");
    reveal_strlit("set-mute");
    reveal_strlit("set-boost");
    reveal_strlit("set-subtitle");
    reveal_strlit("add-ip");
    reveal_strlit("remove-ip");
    reveal_strlit("save-multicast");
    reveal_strlit("clear-firewall");
    reveal_strlit("shutdown");
    reveal_strlit("stop");
    assert("ping"@.len() == 4);
    assert("status"@.len() == 6);
    assert("deps"@.len() == 4);
    assert("discover"@.len() == 8);
    assert("connect"@.len() == 7);
    assert("disconnect"@.len() == 10);
    assert("pause"@.len() == 5);
    assert("resume"@.len() == 6);
    assert("seek"@.len() == 4);
    assert("set-volume"@.len() == 10);
    assert("set-mute"@.len() == 8);
    assert("set-boost"@.len() == 9);
    assert("set-subtitle"@.len() == 12);
    assert("add-ip"@.len() == 6);
    assert("remove-ip"@.len() == 9);
    assert("save-multicast"@.len() == 14);
    assert("clear-firewall"@.len() == 14);
    assert("shutdown"@.len() == 8);
    assert("stop"@.len() == 4);
    assert("ping"@[0] != "deps"@[0]);
    assert("ping"@[0] != "seek"@[0]);
    assert("ping"@[0] != "stop"@[0]);
    assert("status"@[0] != "resume"@[0]);
    assert("status"@[0] != "add-ip"@[0]);
    assert("deps"@[0] != "seek"@[0]);
    assert("deps"@[0] != "stop"@[0]);
    assert("discover"@[0] != "set-mute"@[0]);
    assert("discover"@[0] != "shutdown"@[0]);
    assert("disconnect"@[0] != "set-volume"@[0]);
    assert("resume"@[0] != "add-ip"@[0]);
    assert("seek"@[1] != "stop"@[1]);
    assert("set-mute"@[1] != "shutdown"@[1]);
    assert("set-boost"@[0] != "remove-ip"@[0]);
    assert("save-multicast"@[0] != "clear-firewall"@[0]);
}

/// A refusal says that something failed, and what.
pub proof fn refusals_say_why(message: Seq<char>)
    ensures
        member(refusal(message), "ok"@) == Some(Json::Bool(false)),
        member(refusal(message), "error"@) == Some(Json::Text(message)),
{
    reveal_strlit("ok");
    reveal_strlit("error");
    assert("ok"@.len() == 2);
    assert("error"@.len() == 5);
}

/// A tool is reported missing exactly where it is.
pub proof fn missing_tools_are_reported(ffmpeg: bool, ffprobe: bool)
    ensures
        ({
            let reply = deps_object(ffmpeg, ffprobe);
            &&& member(reply, "ok"@) == Some(Json::Bool(true))
            &&& member(reply, "ffmpeg"@) == Some(Json::Bool(ffmpeg))
            &&& member(reply, "installed"@) == Some(Json::Bool(true))
            &&& member(reply, "core"@) == Some(Json::Bool(true))
            &&& member(reply, "backends"@) matches Some(backends) && member(backends, "dlna"@)
                == Some(Json::Bool(true)) && member(backends, "cast"@) == Some(Json::Bool(true))
                && member(backends, "airplay"@) == Some(Json::Bool(true))
            &&& list_of(member(reply, "missing"@)) matches Some(missing) && (missing.contains(
                Json::Text("ffmpeg"@),
            ) <==> !ffmpeg) && (missing.contains(Json::Text("ffprobe"@)) <==> !ffprobe)
                && missing.len() == (if ffmpeg {
                0int
            } else {
                1
            }) + (if ffprobe {
                0int
            } else {
                1
            })
        }),
{
    reveal_strlit("ok");
    reveal_strlit("installed");
    reveal_strlit("core");
    reveal_strlit("backends");
    reveal_strlit("ffmpeg");
    reveal_strlit("missing");
    reveal_strlit("ffprobe");
    assert("ok"@.len() == 2);
    assert("installed"@.len() == 9);
    assert("core"@.len() == 4);
    assert("backends"@.len() == 8);
    assert("ffmpeg"@.len() == 6);
    assert("missing"@.len() == 7);
    assert("ffprobe"@.len() == 7);
    assert("missing"@[0] != "ffprobe"@[0]);
    reveal_strlit("dlna");
    reveal_strlit("cast");
    reveal_strlit("airplay");
    assert("dlna"@.len() == 4 && "cast"@.len() == 4 && "airplay"@.len() == 7);
    assert("dlna"@[0] != "cast"@[0]);
    let missing = missing_tools(ffmpeg, ffprobe);
    if !ffmpeg {
        assert(missing[0] == Json::Text("ffmpeg"@));
    }
    if !ffprobe {
        assert(missing[missing.len() - 1] == Json::Text("ffprobe"@));
    }
}

/// A report says of a session what it is: who plays what, how far it is, how
/// loud and with which subtitles; paused where it is paused.
pub proof fn report_is_of_the_session(s: SessionView)
    ensures
        ({
            let report = stream_of(s);
            &&& s.name.len() > 0 ==> report.device == s.name
            &&& s.name.len() == 0 ==> report.device == s.ip
            &&& report.device_ip == s.ip && report.protocol == s.protocol
            &&& report.paused <==> s.state is Paused
            &&& report.state == s.state.name()
            &&& report.position == s.position && report.duration == s.duration
            &&& report.volume == s.volume && report.muted == s.muted && report.volume_supported
                == s.volume_supported
            &&& report.boost == s.boost
            &&& report.subtitles == s.subtitles && report.subtitles_supported
                == s.subtitles_supported
            &&& s.subtitle is None ==> report.subtitle == -1
            &&& s.subtitle matches Some(id) ==> (id <= i32::MAX ==> report.subtitle == id)
        }),
{
}

/// A command goes to the connection that the session was made over, where that
/// is alive, and to no other.
pub proof fn commands_go_to_the_session_protocol(protocol: Seq<char>, live: Live)
    ensures
        target_of("cast"@, live) == (if live.cast {
            Target::Cast
        } else {
            Target::Nobody
        }),
        target_of("dlna"@, live) == (if live.dlna {
            Target::Dlna
        } else {
            Target::Nobody
        }),
        target_of("airplay"@, live) == (if live.airplay {
            Target::Airplay
        } else {
            Target::Nobody
        }),
        protocol != "cast"@ && protocol != "dlna"@ && protocol != "airplay"@ ==> target_of(
            protocol,
            live,
        ) is Nobody && !shows(protocol, live),
        shows("cast"@, live),
        shows("dlna"@, live) <==> live.dlna,
        shows("airplay"@, live) <==> live.airplay,
{
    reveal_strlit("cast");
    reveal_strlit("dlna");
    reveal_strlit("airplay");
    assert("cast"@.len() == 4);
    assert("dlna"@.len() == 4);
    assert("airplay"@.len() == 7);
    assert("cast"@[0] != "dlna"@[0]);
}

/// Where a pause shows, it pauses what plays, and a resume takes it back;
/// nothing else of the session changes.
pub proof fn resuming_undoes_pausing(s: SessionView, protocol: Seq<char>, live: Live)
    ensures
        shows(protocol, live) && s.state is Playing ==> pausing(s, protocol, live).state is Paused
            && resuming(pausing(s, protocol, live), protocol, live) == s,
        shows(protocol, live) && s.state is Paused ==> resuming(s, protocol, live).state is Playing
            && pausing(resuming(s, protocol, live), protocol, live) == s,
        !shows(protocol, live) || !(s.state is Playing) ==> pausing(s, protocol, live) == s,
        !shows(protocol, live) || !(s.state is Paused) ==> resuming(s, protocol, live) == s,
{
}

/// A seek goes exactly where it was asked to, or to the end where that is
/// earlier; one to a time that is none, or while nothing is cast, goes nowhere.
pub proof fn seek_goes_where_asked(s: SessionView, position: Seconds, live: Live)
    ensures
        seek_to(s, position, live) is Go <==> !(s.state is Idle) && !(s.state is Stopped)
            && position.is_finite_number() && (Seconds { bits: 0 }).not_after(position),
        seek_to(s, position, live) matches SeekPlan::Go { position: to, how } ==> {
            &&& !s.duration.positive() ==> to == position
            &&& s.duration.positive() && position.not_after(s.duration) ==> to == position
            &&& s.duration.positive() && s.duration.before(position) ==> to == s.duration
            &&& how == seek_how(s.protocol, live)
        },
{
}

/// A stream that ffmpeg makes is started again, by a Cast session itself and
/// for any other receiver by the daemon; a file is seeked in by the receiver.
pub proof fn streams_are_restarted_and_files_seeked(live: Live, protocol: Seq<char>)
    ensures
        seek_how("cast"@, live) is Cast <==> live.cast,
        seek_how("cast"@, live) is Nobody <==> !live.cast,
        seek_how("dlna"@, live) is DlnaRestart <==> live.transcode,
        seek_how("dlna"@, live) is DlnaSeek <==> !live.transcode && live.dlna,
        seek_how("airplay"@, live) is AirplayRestart <==> live.transcode,
        seek_how("airplay"@, live) is AirplaySeek <==> !live.transcode && live.airplay,
        !live.transcode && !live.dlna ==> seek_how("dlna"@, live) is Nobody,
        !live.transcode && !live.airplay ==> seek_how("airplay"@, live) is Nobody,
        protocol != "cast"@ && protocol != "dlna"@ && protocol != "airplay"@ ==> seek_how(
            protocol,
            live,
        ) is Nobody,
{
    reveal_strlit("cast");
    reveal_strlit("dlna");
    reveal_strlit("airplay");
    assert("cast"@.len() == 4);
    assert("dlna"@.len() == 4);
    assert("airplay"@.len() == 7);
    assert("cast"@[0] != "dlna"@[0]);
}

/// A renderer is asked until it plays, but twelve times at most.
pub proof fn waiting_ends(tries: u32, transport: Seq<char>)
    ensures
        !asked_again(tries, "PLAYING"@),
        tries >= 12 ==> !asked_again(tries, transport),
        tries < 12 && transport != "PLAYING"@ ==> asked_again(tries, transport),
{
}

/// The volume can be changed exactly while something is cast to a Cast receiver
/// that is connected, or to a renderer that lets it be changed.
pub proof fn volume_is_changed_where_it_can_be(s: SessionView, live: Live)
    ensures
        volume_refused(s, live) is None <==> !(s.state is Idle) && !(s.state is Stopped) && ((
        s.protocol == "cast"@ && live.cast) || (s.protocol == "dlna"@ && live.dlna
            && live.rendering)),
        volume_refused(s, live) is None ==> !(target_of(s.protocol, live) is Nobody),
        volume_refused(s, live) matches Some(reason) ==> reason.len() > 0,
        s.state is Idle || s.state is Stopped ==> volume_refused(s, live) == Some(
            "Nothing is casting"@,
        ),
        !(s.state is Idle || s.state is Stopped) && s.protocol == "cast"@ && !live.cast
            ==> volume_refused(s, live) == Some("No cast session"@),
        !(s.state is Idle || s.state is Stopped) && s.protocol == "dlna"@ && !(live.dlna
            && live.rendering) ==> volume_refused(s, live) == Some(
            "This receiver does not expose volume control"@,
        ),
        !(s.state is Idle || s.state is Stopped) && s.protocol == "airplay"@ ==> volume_refused(
            s,
            live,
        ) == Some("Volume control is not available over AirPlay"@),
{
    reveal_strlit("cast");
    reveal_strlit("dlna");
    reveal_strlit("airplay");
    assert("cast"@.len() == 4);
    assert("dlna"@.len() == 4);
    assert("airplay"@.len() == 7);
    assert("cast"@[0] != "dlna"@[0]);
    reveal_strlit("Nothing is casting");
    reveal_strlit("No cast session");
    reveal_strlit("This receiver does not expose volume control");
    reveal_strlit("Volume control is not available over AirPlay");
}

/// Three words turn muting on, three turn it off, with white space around them
/// or without, and no other word is one.
pub proof fn mute_words_are_known(value: Seq<char>)
    ensures
        truth_of(value) == Some(true) <==> (trimmed(value) == "true"@ || trimmed(value) == "1"@
            || trimmed(value) == "on"@),
        truth_of(value) == Some(false) <==> (trimmed(value) == "false"@ || trimmed(value) == "0"@
            || trimmed(value) == "off"@),
{
    reveal_strlit("true");
    reveal_strlit("1");
    reveal_strlit("on");
    reveal_strlit("false");
    reveal_strlit("0");
    reveal_strlit("off");
    assert("true"@.len() == 4);
    assert("1"@.len() == 1);
    assert("on"@.len() == 2);
    assert("false"@.len() == 5);
    assert("0"@.len() == 1);
    assert("off"@.len() == 3);
    assert("1"@[0] != "0"@[0]);
}

/// Of the tracks in a language the first is shown, where one is.
pub proof fn first_track_in_the_language(tracks: Seq<TrackView>, language: Seq<char>)
    ensures
        match track_in(tracks, language) {
            Some(id) => exists|i: int|
                0 <= i < tracks.len() && (#[trigger] tracks[i]).language == language && tracks[i].id
                    == id && forall|j: int|
                    0 <= j < i ==> (#[trigger] tracks[j]).language != language,
            None => forall|j: int|
                0 <= j < tracks.len() ==> (#[trigger] tracks[j]).language != language,
        },
    decreases tracks.len(),
{
    if tracks.len() > 0 {
        let head = tracks.drop_last();
        first_track_in_the_language(head, language);
        assert forall|j: int| 0 <= j < head.len() implies head[j] == #[trigger] tracks[j] by {}
        assert(tracks[tracks.len() - 1] == tracks.last());
        match track_in(head, language) {
            Some(id) => {
                let i = choose|i: int|
                    0 <= i < head.len() && (#[trigger] head[i]).language == language && head[i].id
                        == id && forall|j: int|
                        0 <= j < i ==> (#[trigger] head[j]).language != language;
                assert(tracks[i].language == language && tracks[i].id == id);
                assert forall|j: int| 0 <= j < i implies (#[trigger] tracks[j]).language
                    != language by {
                    assert(head[j].language != language);
                }
            },
            None => {
                assert forall|j: int| 0 <= j < head.len() implies (#[trigger] tracks[j]).language
                    != language by {
                    assert(head[j].language != language);
                }
            },
        }
    }
}

/// A new cast shows subtitles in the remembered language on a Cast receiver;
/// none where they were switched off, none is remembered, or the receiver
/// cannot show them.
pub proof fn remembered_language_is_shown(
    protocol: Seq<char>,
    tracks: Seq<TrackView>,
    preference: Seq<char>,
)
    ensures
        preference.len() == 0 || preference == "off"@ || protocol != "cast"@ ==> enabled_for(
            protocol,
            tracks,
            preference,
        ) is None,
        preference.len() > 0 && preference != "off"@ ==> enabled_for("cast"@, tracks, preference)
            == track_in(tracks, preference) && preferred(tracks, preference) == track_in(
            tracks,
            preference,
        ),
{
}

/// The track that a number names is the first of that number.
pub proof fn first_track_of_the_number(tracks: Seq<TrackView>, id: nat)
    ensures
        match track_numbered(tracks, id) {
            Some(track) => track.id == id && tracks.contains(track),
            None => forall|j: int| 0 <= j < tracks.len() ==> (#[trigger] tracks[j]).id != id,
        },
    decreases tracks.len(),
{
    if tracks.len() > 0 {
        let head = tracks.drop_last();
        first_track_of_the_number(head, id);
        assert(tracks[tracks.len() - 1] == tracks.last());
        match track_numbered(head, id) {
            Some(track) => {
                let i = choose|i: int| 0 <= i < head.len() && head[i] == track;
                assert(tracks[i] == track);
            },
            None => {
                assert forall|j: int| 0 <= j < tracks.len() - 1 implies (#[trigger] tracks[j]).id
                    != id by {
                    assert(head[j] == tracks[j]);
                }
            },
        }
    }
}

proof fn digits_are_trimmed(n: nat)
    ensures
        trimmed(decimal(n)) == decimal(n),
{
    let d = decimal(n);
    decimal_denotes(n);
    assert(crate::text::is_digit(d[0]));
    assert(crate::text::is_digit(d[d.len() - 1]));
}

/// A track is chosen by its number, and what is chosen has that number.
pub proof fn tracks_are_chosen_by_number(tracks: Seq<TrackView>, id: u32, i: int)
    ensures
        chosen_track(tracks, decimal(id as nat)) matches Some(track) ==> track.id == id
            && tracks.contains(track),
        0 <= i < tracks.len() && tracks[i].id == id ==> chosen_track(tracks, decimal(id as nat))
            is Some,
{
    digits_are_trimmed(id as nat);
    decimal_denotes(id as nat);
    first_track_of_the_number(tracks, id as nat);
}

/// Subtitles are switched off by nothing, `off`, `-1` and `none` alone.
pub proof fn words_that_switch_off(word: Seq<char>)
    ensures
        is_off(word) <==> word.len() == 0 || word == "off"@ || word == "-1"@ || word == "none"@,
        remembered(None) == "off"@,
{
}

/// Subtitles can be chosen exactly while something is cast to a Cast receiver
/// that is connected, and only a track that there is, or none.
pub proof fn subtitles_are_chosen_where_they_can_be(
    s: SessionView,
    value: Seq<char>,
    live: Live,
)
    ensures
        subtitle_refused(s, value, live) is None <==> !(s.state is Idle) && !(s.state is Stopped)
            && s.protocol == "cast"@ && live.cast && (is_off(trimmed(value)) || chosen_track(
            s.subtitles,
            value,
        ) is Some),
{
}

/// Removing an address removes nothing but that address.
pub proof fn others_are_not_removed(list: Seq<Seq<char>>, ip: Seq<char>, other: Seq<char>)
    ensures
        without(list, ip).contains(other) <==> list.contains(other) && other != ip,
    decreases list.len(),
{
    if list.len() > 0 {
        let head = list.drop_last();
        let before = without(head, ip);
        let after = without(list, ip);
        others_are_not_removed(head, ip, other);
        assert(list[list.len() - 1] == list.last());
        if head.contains(other) {
            let k = choose|k: int| 0 <= k < head.len() && head[k] == other;
            assert(list[k] == other);
        }
        if list.contains(other) {
            let k = choose|k: int| 0 <= k < list.len() && list[k] == other;
            if k < head.len() {
                assert(head[k] == other);
            }
        }
        if before.contains(other) {
            let k = choose|k: int| 0 <= k < before.len() && before[k] == other;
            assert(after[k] == other);
        }
        if after.contains(other) {
            let k = choose|k: int| 0 <= k < after.len() && after[k] == other;
            if k < before.len() {
                assert(before[k] == other);
            }
        }
        if list.last() != ip {
            assert(after[after.len() - 1] == list.last());
        }
    }
}

/// A receiver that was found by probing is known from then on, alone at its
/// address; every other receiver is known as before.
pub proof fn probed_receiver_is_known(
    devices: Seq<DeviceView>,
    device: DeviceView,
    other: DeviceView,
)
    ensures
        with_probed(devices, device).contains(device),
        other.ip == device.ip && with_probed(devices, device).contains(other) ==> other == device,
        other.ip != device.ip ==> (with_probed(devices, device).contains(other)
            <==> devices.contains(other)),
{
    let rest = elsewhere(devices, device.ip);
    let all = with_probed(devices, device);
    others_stay(devices, device.ip, other);
    assert(all[rest.len() as int] == device);
    if rest.contains(other) {
        let k = choose|k: int| 0 <= k < rest.len() && rest[k] == other;
        assert(all[k] == other);
    }
    if all.contains(other) {
        let k = choose|k: int| 0 <= k < all.len() && all[k] == other;
        if k < rest.len() {
            assert(rest[k] == other);
        }
    }
}

proof fn others_stay(devices: Seq<DeviceView>, ip: Seq<char>, other: DeviceView)
    ensures
        elsewhere(devices, ip).contains(other) <==> devices.contains(other) && other.ip != ip,
    decreases devices.len(),
{
    if devices.len() > 0 {
        let head = devices.drop_last();
        let before = elsewhere(head, ip);
        let after = elsewhere(devices, ip);
        others_stay(head, ip, other);
        assert(devices[devices.len() - 1] == devices.last());
        if head.contains(other) {
            let k = choose|k: int| 0 <= k < head.len() && head[k] == other;
            assert(devices[k] == other);
        }
        if devices.contains(other) {
            let k = choose|k: int| 0 <= k < devices.len() && devices[k] == other;
            if k < head.len() {
                assert(head[k] == other);
            }
        }
        if before.contains(other) {
            let k = choose|k: int| 0 <= k < before.len() && before[k] == other;
            assert(after[k] == other);
        }
        if after.contains(other) {
            let k = choose|k: int| 0 <= k < after.len() && after[k] == other;
            if k < before.len() {
                assert(before[k] == other);
            }
        }
        if devices.last().ip != ip {
            assert(after[after.len() - 1] == devices.last());
        }
    }
}

/// A renderer is told the type of the file where the file itself is served, and
/// that of the stream where one is made of it.
pub proof fn renderers_are_told_what_is_served(plan: ServePlan, path: Seq<char>)
    ensures
        plan.transcode is None ==> plan.told_type(path) == dlna_type(extension_of(path)),
        plan.transcode is Some ==> plan.told_type(path) == plan.content_type@,
{
}

/// A command that is not known is refused by its name, and what is agreed to is
/// told apart from what is refused.
pub proof fn replies_tell_success(cmd: Seq<char>, error: Seq<char>)
    ensures
        member(not_understood(cmd), "error"@) == Some(Json::Text("Unknown command: "@ + cmd)),
        !crate::client::pong(Some(not_understood(cmd))),
        crate::client::pong(Some(agreed())),
        member(agreed(), "error"@) is None,
        member(boost_failed(error), "error"@) == Some(
            Json::Text("Boost saved for the next cast, but it could not be applied now: "@ + error),
        ),
        !crate::client::pong(Some(boost_failed(error))),
{
    reveal_strlit("ok");
    reveal_strlit("error");
    assert("ok"@.len() == 2 && "error"@.len() == 5);
    refusals_say_why("Unknown command: "@ + cmd);
    refusals_say_why("Boost saved for the next cast, but it could not be applied now: "@ + error);
}

/// A seek goes to the time that the request gives; without one it goes before
/// the beginning.
pub proof fn seeks_without_a_time_go_nowhere(position: Seconds)
    ensures
        asked_time(Some(position)) == position,
        asked_time(None).before(Seconds { bits: 0 }) && asked_time(None).is_finite_number(),
{
}

/// While something is being cast there is one stream, and the state is that of
/// the session; else there is none, and all is idle. An error is told where the
/// session has failed, and only there.
pub proof fn status_tells_what_is_cast(s: SessionView)
    ensures
        s.state is Idle || s.state is Stopped ==> told_streams(s).len() == 0 && told_state(s)
            == "idle"@,
        !(s.state is Idle || s.state is Stopped) ==> told_streams(s) == seq![stream_of(s)]
            && told_state(s) == s.state.name(),
        s.state is Error ==> told_error(s) == s.error,
        !(s.state is Error) ==> told_error(s).len() == 0,
{
}

/// A volume that is a number goes to the session's receiver, which lies in the
/// range from 0 to 100 then, as it is where it lies there already. What is no
/// number goes to nobody, nor does what the receiver cannot take.
pub proof fn volume_goes_to_the_receiver(s: SessionView, level: i32, live: Live)
    ensures
        volume_asked(s, None, live) == Err::<(Target, int), Seq<char>>("Invalid volume"@),
        volume_refused(s, live) matches Some(reason) ==> volume_asked(s, Some(level), live) == Err::<
            (Target, int),
            Seq<char>,
        >(reason),
        volume_refused(s, live) is None ==> (volume_asked(s, Some(level), live) matches Ok(asked)
            && asked.0 == target_of(s.protocol, live) && 0 <= asked.1 <= 100 && (0 <= level <= 100
            ==> asked.1 == level) && (level < 0 ==> asked.1 == 0) && (level > 100 ==> asked.1
            == 100)),
{
}

/// Muting goes to the session's receiver as it was asked for; words that say
/// neither go to nobody, nor does what the receiver cannot do.
pub proof fn muting_goes_to_the_receiver(s: SessionView, value: Seq<char>, live: Live)
    ensures
        truth_of(value) is None ==> mute_asked(s, value, live) == Err::<(Target, bool), Seq<char>>(
            "Invalid mute value"@,
        ),
        truth_of(value) is Some && volume_refused(s, live) is Some ==> mute_asked(s, value, live)
            == Err::<(Target, bool), Seq<char>>(volume_refused(s, live)->0),
        truth_of(value) is Some && volume_refused(s, live) is None ==> mute_asked(s, value, live)
            == Ok::<(Target, bool), Seq<char>>(
            (target_of(s.protocol, live), truth_of(value)->0),
        ),
{
}

/// A Cast receiver is connected to at the second try at the latest, or not at
/// all.
pub proof fn connecting_is_tried_twice(tries: u32)
    ensures
        !tried_again(tries, true),
        tried_again(tries, false) <==> tries < 2,
{
}

/// The track that a choice names is shown, and its language remembered; a word
/// that switches subtitles off shows none. What is refused changes nothing.
pub proof fn chosen_track_is_shown(s: SessionView, value: Seq<char>, live: Live, track: TrackView)
    ensures
        subtitle_refused(s, value, live) matches Some(reason) ==> subtitle_asked(s, value, live)
            == Err::<(Option<u32>, Seq<char>), Seq<char>>(reason),
        subtitle_refused(s, value, live) is None && is_off(trimmed(value)) ==> subtitle_asked(
            s,
            value,
            live,
        ) == Ok::<(Option<u32>, Seq<char>), Seq<char>>((None, "off"@)),
        subtitle_refused(s, value, live) is None && !is_off(trimmed(value)) && chosen_track(
            s.subtitles,
            value,
        ) == Some(track) ==> (subtitle_asked(s, value, live) matches Ok(asked) && asked.0 == Some(
            track.id,
        ) && (track.language.len() > 0 ==> asked.1 == track.language) && (track.language.len() == 0
            ==> asked.1 == "off"@)),
{
}

/// A boost that is offered is saved in words that mean the same, and the file
/// is served anew where something is being cast with another one.
pub proof fn boost_is_saved_and_applied(s: SessionView, value: Seq<char>)
    ensures
        boost_of(value) is None <==> boost_asked(s, value) is None,
        boost_asked(s, value) matches Some(asked) ==> {
            &&& Some(asked.0) == boost_of(value)
            &&& boost_of(asked.1) == Some(asked.0)
            &&& s.state is Idle || s.state is Stopped ==> !asked.2
            &&& s.boost == asked.0 ==> !asked.2
            &&& !(s.state is Idle || s.state is Stopped) && s.boost != asked.0 ==> asked.2
        },
{
    if let Some(level) = boost_of(value) {
        crate::settings::boost_is_read_back(level, None);
    }
}

/// A new stream goes the way of the session's protocol; over another one, or
/// where the Cast session is gone, it goes nowhere, and that is said.
pub proof fn new_stream_goes_the_same_way(r: Restream, protocol: Seq<char>, live: Live)
    requires
        restreams(r, protocol, live),
    ensures
        r is Cast <==> protocol == "cast"@ && live.cast,
        r is Dlna <==> protocol == "dlna"@,
        r is Airplay <==> protocol == "airplay"@,
        protocol == "cast"@ && !live.cast ==> (r matches Restream::Failed(message) && message@
            == "No cast session"@),
        r is Failed && protocol != "cast"@ ==> (r matches Restream::Failed(message) && message@
            == "Unsupported protocol: "@ + protocol),
{
    reveal_strlit("cast");
    reveal_strlit("dlna");
    reveal_strlit("airplay");
    assert("cast"@.len() == 4);
    assert("dlna"@.len() == 4);
    assert("airplay"@.len() == 7);
    assert("cast"@[0] != "dlna"@[0]);
}

/// An address that is entered is kept behind the others, once; what is none is
/// refused, to enter and to remove. Removing takes out that address alone.
pub proof fn entered_addresses_are_kept(ip: Seq<char>, known: Seq<Seq<char>>)
    ensures
        entered(None, known) == Err::<Option<Seq<Seq<char>>>, Seq<char>>("Invalid address"@),
        removed(None, known) == Err::<Seq<Seq<char>>, Seq<char>>("Invalid address"@),
        known.contains(ip) ==> entered(Some(ip), known) == Ok::<
            Option<Seq<Seq<char>>>,
            Seq<char>,
        >(None),
        !known.contains(ip) ==> (entered(Some(ip), known) matches Ok(Some(list)) && list.len()
            == known.len() + 1 && list.last() == ip && list.drop_last() == known && removed(
            Some(ip),
            list,
        ) == Ok::<Seq<Seq<char>>, Seq<char>>(known)),
        removed(Some(ip), known) matches Ok(list) && !list.contains(ip),
{
    removed_is_gone(known, ip);
    assert(known.push(ip).drop_last() =~= known);
}

/// Multicast searches are switched on and off by two words, and what is saved
/// so is what is read.
pub proof fn multicast_is_switched_by_two_words(value: Seq<char>, text: Option<Seq<char>>)
    ensures
        is_multicast_value("true"@) && is_multicast_value("false"@),
        is_multicast_value(value) && setting(text, "multicastDiscovery"@, "true"@) == value ==> (
        multicast_setting(text) <==> value == "true"@) && (!multicast_setting(text) <==> value
            == "false"@),
{
    reveal_strlit("true");
    reveal_strlit("false");
    assert("true"@.len() == 4 && "false"@.len() == 5);
}

/// Receivers are searched for anew when that is asked for, when none is known,
/// and when twenty seconds have gone by.
pub proof fn receivers_are_searched_for_anew(known: usize, age_ms: u64)
    ensures
        !is_fresh(true, known, age_ms),
        !is_fresh(false, 0, age_ms),
        known > 0 ==> (is_fresh(false, known, age_ms) <==> age_ms < 20_000),
{
}

/// A file that is served itself is found under its own name, and a stream that
/// is made of it under the ending of its container; both behind the token.
pub proof fn served_things_are_found_behind_the_token(
    codec: PlanView,
    protocol: Seq<char>,
    path: Seq<char>,
    token: Seq<char>,
    boost: i32,
)
    ensures
        ({
            let plan = plan_with(codec, protocol, path, token, boost);
            &&& plan.transcode is None ==> plan.endpoint == token + "/"@ + percent_encoded(
                basename_of(path),
            )
            &&& plan.transcode matches Some(transcode) ==> plan.endpoint == token + "/stream."@
                + transcode.container.suffix()
        }),
{
}

/// A session after its position has moved.
pub open spec fn moved_to(s: SessionView, position: Seconds) -> SessionView {
    SessionView { position, ..s }
}

/// A session after its stream has started anew at a position.
pub open spec fn restarted_at(s: SessionView, position: Seconds) -> SessionView {
    SessionView { position, state: SessionState::Buffering, ..s }
}

/// A seek within the stream moves the position and nothing else, so that one
/// back undoes it; a stream that starts anew buffers at the position until the
/// receiver reports.
pub proof fn seeks_show_at_once(s: SessionView, position: Seconds)
    ensures
        moved_to(s, position).position == position,
        moved_to(moved_to(s, position), s.position) == s,
        restarted_at(s, position).position == position,
        restarted_at(s, position).state is Buffering,
        s.state is Buffering ==> restarted_at(s, position) == moved_to(s, position),
        restarted_at(s, position).session_id == s.session_id,
        restarted_at(s, position).duration == s.duration && restarted_at(s, position).volume
            == s.volume && restarted_at(s, position).muted == s.muted,
        restarted_at(s, position).subtitle == s.subtitle && restarted_at(s, position).boost
            == s.boost && restarted_at(s, position).error == s.error,
{
}

} // verus!
