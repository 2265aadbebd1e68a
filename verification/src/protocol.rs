//! What the daemon and its clients say to each other.
use serde_json::Value;
use vstd::prelude::*;

use crate::json::{boolean, member, no_members, object, put, string, tree, Json};
use crate::seconds::Seconds;
use crate::subtitles::SubtitleTrack;
use crate::text::views;

verus! {

/// The text of an optional field; an absent one counts as empty.
pub open spec fn or_empty(field: Option<String>) -> Seq<char> {
    match field {
        Some(s) => s@,
        None => Seq::empty(),
    }
}

fn text_or_empty(field: &Option<String>) -> (r: &str)
    ensures
        r@ == or_empty(*field),
{
    match field {
        Some(s) => s.as_str(),
        None => {
            proof {
                reveal_strlit("");
            }
            assert(""@ =~= Seq::empty());
            ""
        },
    }
}

#[derive(Debug)]
pub struct Request {
    pub cmd: String,
    pub ip: Option<String>,
    pub file: Option<String>,
    pub value: Option<String>,
    pub position: Option<Seconds>,
    pub force: bool,
}

impl Request {
    pub fn ip(&self) -> (r: &str)
        ensures
            r@ == or_empty(self.ip),
    {
        text_or_empty(&self.ip)
    }

    pub fn file(&self) -> (r: &str)
        ensures
            r@ == or_empty(self.file),
    {
        text_or_empty(&self.file)
    }

    pub fn value(&self) -> (r: &str)
        ensures
            r@ == or_empty(self.value),
    {
        text_or_empty(&self.value)
    }
}

#[derive(Debug)]
pub struct Device {
    pub name: String,
    pub host: String,
    pub ip: String,
    pub port: u16,
    pub protocol: String,
    pub model: String,
    pub id: String,
    pub control_url: Option<String>,
    /// `UPnP` `RenderingControl` endpoint (DLNA volume/mute), when the renderer has one.
    pub rendering_url: Option<String>,
    pub alternates: Vec<String>,
}

/// What a device record holds.
#[verifier::ext_equal]
pub struct DeviceView {
    pub name: Seq<char>,
    pub host: Seq<char>,
    pub ip: Seq<char>,
    pub port: u16,
    pub protocol: Seq<char>,
    pub model: Seq<char>,
    pub id: Seq<char>,
    pub control_url: Option<Seq<char>>,
    pub rendering_url: Option<Seq<char>>,
    pub alternates: Seq<Seq<char>>,
}

/// The characters of an optional string.
pub open spec fn opt(s: Option<String>) -> Option<Seq<char>> {
    match s {
        Some(s) => Some(s@),
        None => None,
    }
}

impl View for Device {
    type V = DeviceView;

    open spec fn view(&self) -> DeviceView {
        DeviceView {
            name: self.name@,
            host: self.host@,
            ip: self.ip@,
            port: self.port,
            protocol: self.protocol@,
            model: self.model@,
            id: self.id@,
            control_url: opt(self.control_url),
            rendering_url: opt(self.rendering_url),
            alternates: views(self.alternates@),
        }
    }
}

/// What some device records hold.
pub open spec fn device_views(devices: Seq<Device>) -> Seq<DeviceView> {
    Seq::new(devices.len(), |i: int| devices[i]@)
}

/// The same strings once more.
pub fn clone_strings(strings: &Vec<String>) -> (r: Vec<String>)
    ensures
        views(r@) == views(strings@),
{
    let mut out: Vec<String> = Vec::new();
    for i in 0..strings.len()
        invariant
            out@.len() == i,
            forall|j: int| 0 <= j < i ==> #[trigger] out@[j]@ == strings@[j]@,
    {
        out.push(strings[i].clone());
    }
    assert(views(out@) =~= views(strings@));
    out
}

/// The same optional string once more.
pub fn clone_opt(s: &Option<String>) -> (r: Option<String>)
    ensures
        opt(r) == opt(*s),
{
    match s {
        Some(s) => Some(s.clone()),
        None => None,
    }
}

impl Clone for Device {
    fn clone(&self) -> (r: Device)
        ensures
            r@ == self@,
    {
        Device {
            name: self.name.clone(),
            host: self.host.clone(),
            ip: self.ip.clone(),
            port: self.port,
            protocol: self.protocol.clone(),
            model: self.model.clone(),
            id: self.id.clone(),
            control_url: clone_opt(&self.control_url),
            rendering_url: clone_opt(&self.rendering_url),
            alternates: clone_strings(&self.alternates),
        }
    }
}

#[derive(Debug)]
pub struct StreamInfo {
    pub device: String,
    pub device_ip: String,
    pub protocol: String,
    pub state: String,
    pub position: Seconds,
    pub duration: Seconds,
    pub paused: bool,
    /// Receiver volume, 0-100; -1 while unknown.
    pub volume: i32,
    pub muted: bool,
    pub volume_supported: bool,
    /// Audio boost (dB) baked into the stream currently being served.
    pub boost: i32,
    /// Text subtitle tracks found for this file (sidecar files and embedded streams).
    pub subtitles: Vec<SubtitleTrack>,
    /// Active subtitle track id, -1 when off.
    pub subtitle: i32,
    pub subtitles_supported: bool,
}

#[derive(Debug)]
pub struct Status {
    pub ok: bool,
    pub state: String,
    pub streams: Vec<StreamInfo>,
    pub last_receiver: String,
    pub multicast_discovery: bool,
    /// Configured audio boost (dB) for casts.
    pub audio_boost: i32,
    pub error: String,
}

/// The reply that reports a failure.
pub open spec fn refusal(message: Seq<char>) -> Json {
    Json::Object(no_members().insert("ok"@, Json::Bool(false)).insert("error"@, Json::Text(message)))
}

/// The reply that reports a failure.
pub fn error_response(message: &str) -> (r: Value)
    ensures
        tree(r) == refusal(message@),
{
    let mut reply = object();
    put(&mut reply, "ok", boolean(false));
    put(&mut reply, "error", string(message));
    reply
}

/// A refusal says that it is one, and why.
pub proof fn refusals_say_why(message: Seq<char>)
    ensures
        member(refusal(message), "ok"@) == Some(Json::Bool(false)),
        member(refusal(message), "error"@) == Some(Json::Text(message)),
{
    reveal_strlit("ok");
    reveal_strlit("error");
    assert("ok"@.len() == 2 && "error"@.len() == 5);
}

} // verus!
