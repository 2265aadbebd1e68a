//! What the media server answers, and how ffmpeg is run for it.
//!
//! The server itself only moves bytes: who may fetch what, which part of a
//! file is sent and under which head, and the arguments of ffmpeg are decided
//! here.
use vstd::prelude::*;
use vstd::utf8::encode_utf8;

use crate::number::{
    decimal, decimal_denotes, digit, parse_u32, parse_u64, show, show_signed, signed_decimal,
    unsigned,
};
use crate::protocol::clone_strings;
use crate::seconds::{Mark, Seconds};
use crate::settings::holds;
use crate::subtitles::{clone_tracks, track_views, SubtitleTrack, TrackView};
use crate::text::{
    begins, contains, cut, cut_is_at_the_first, ends, given, has, is_empty, join, joined, pieces, same, split, split_once,
    strip_prefix, strip_suffix, views,
};

verus! {

// ---------------------------------------------------------------------------
// Plans

/// Container ffmpeg muxes a live stream into. Cast receivers want fragmented
/// MP4; DLNA renderers (Samsung in particular) only play a live stream as
/// MPEG-TS.
#[derive(Debug, Clone, Copy, PartialEq, Eq, Structural)]
pub enum TranscodeContainer {
    FragmentedMp4,
    MpegTs,
}

impl TranscodeContainer {
    pub open spec fn mime(self) -> Seq<char> {
        match self {
            TranscodeContainer::FragmentedMp4 => "video/mp4"@,
            TranscodeContainer::MpegTs => "video/mpeg"@,
        }
    }

    pub open spec fn suffix(self) -> Seq<char> {
        match self {
            TranscodeContainer::FragmentedMp4 => "mp4"@,
            TranscodeContainer::MpegTs => "ts"@,
        }
    }

    /// The content type of a stream in this container.
    pub fn content_type(self) -> (r: &'static str)
        ensures
            r@ == self.mime(),
    {
        match self {
            TranscodeContainer::FragmentedMp4 => "video/mp4",
            TranscodeContainer::MpegTs => "video/mpeg",
        }
    }

    /// The extension under which a stream in this container is served.
    pub fn extension(self) -> (r: &'static str)
        ensures
            r@ == self.suffix(),
    {
        match self {
            TranscodeContainer::FragmentedMp4 => "mp4",
            TranscodeContainer::MpegTs => "ts",
        }
    }
}

#[derive(Debug)]
pub struct TranscodePlan {
    pub vcodec: String,
    pub acodec: String,
    /// Extra gain applied to the soundtrack, in dB. 0 leaves the audio untouched.
    pub gain_db: i32,
    /// Channel count of the source audio (0 = unknown). More than two channels
    /// get a dialogue-forward stereo downmix when boosting.
    pub channels: u32,
    pub container: TranscodeContainer,
}

/// What a plan holds.
pub struct TranscodeView {
    pub vcodec: Seq<char>,
    pub acodec: Seq<char>,
    pub gain_db: i32,
    pub channels: u32,
    pub container: TranscodeContainer,
}

impl View for TranscodePlan {
    type V = TranscodeView;

    open spec fn view(&self) -> TranscodeView {
        TranscodeView {
            vcodec: self.vcodec@,
            acodec: self.acodec@,
            gain_db: self.gain_db,
            channels: self.channels,
            container: self.container,
        }
    }
}

impl Clone for TranscodePlan {
    fn clone(&self) -> (r: TranscodePlan)
        ensures
            r@ == self@,
    {
        TranscodePlan {
            vcodec: self.vcodec.clone(),
            acodec: self.acodec.clone(),
            gain_db: self.gain_db,
            channels: self.channels,
            container: self.container,
        }
    }
}

/// Centre (dialogue) slightly above the front pair; surrounds and LFE folded in
/// gently. Channels missing from the source layout are ignored.
pub open spec fn downmix() -> Seq<char> {
    "pan=stereo|FL=0.5*FL+0.6*FC+0.35*BL+0.35*SL+0.25*LFE|FR=0.5*FR+0.6*FC+0.35*BR+0.35*SR+0.25*LFE"@
}

impl TranscodeView {
    /// The filters for the soundtrack, in order.
    pub open spec fn filters(self) -> Seq<Seq<char>> {
        (if self.channels > 2 {
            seq![downmix()]
        } else {
            Seq::empty()
        }) + seq![
            "volume="@ + signed_decimal(self.gain_db as int) + "dB"@,
            "alimiter=limit=0.95:level=disabled"@,
        ]
    }

    /// The filter chain for a boosted soundtrack.
    pub open spec fn filter_chain(self) -> Option<Seq<char>> {
        if self.gain_db <= 0 {
            None
        } else {
            Some(joined(self.filters(), ","@))
        }
    }
}

impl TranscodePlan {
    /// The ffmpeg `-af` chain for a boosted soundtrack, or `None` when the
    /// audio is left alone. The limiter keeps the boosted signal from clipping.
    pub fn audio_filter(&self) -> (r: Option<String>)
        ensures
            match r {
                Some(chain) => self@.filter_chain() == Some(chain@),
                None => self@.filter_chain() is None,
            },
    {
        if self.gain_db <= 0 {
            return None;
        }
        let mut chain: Vec<String> = Vec::new();
        if self.channels > 2 {
            chain.push(
                "pan=stereo|FL=0.5*FL+0.6*FC+0.35*BL+0.35*SL+0.25*LFE|FR=0.5*FR+0.6*FC+0.35*BR+0.35*SR+0.25*LFE".to_owned(),
            );
        }
        let mut gain = "volume=".to_owned();
        gain.append(show_signed(self.gain_db as i64).as_str());
        gain.append("dB");
        chain.push(gain);
        chain.push("alimiter=limit=0.95:level=disabled".to_owned());
        assert(views(chain@) =~= self@.filters());
        Some(join(&chain, ","))
    }
}

/// What one media server instance serves.
#[derive(Debug)]
pub struct ServeOptions {
    pub file: String,
    pub token: String,
    /// The addresses that may fetch it; any where there are none.
    pub allow: Vec<String>,
    pub transcode: Option<TranscodePlan>,
    pub content_type: String,
    /// Text subtitle tracks reachable at `/{token}/sub/{id}.vtt`.
    pub subtitles: Vec<SubtitleTrack>,
    /// Where converted `WebVTT` files are cached for this session.
    pub subtitle_dir: String,
}

impl Clone for ServeOptions {
    fn clone(&self) -> (r: ServeOptions)
        ensures
            r.file@ == self.file@,
            r.token@ == self.token@,
            views(r.allow@) == views(self.allow@),
            r.transcode is Some == self.transcode is Some,
            r.transcode is Some ==> r.transcode->0@ == self.transcode->0@,
            r.content_type@ == self.content_type@,
            track_views(r.subtitles@) == track_views(self.subtitles@),
            r.subtitle_dir@ == self.subtitle_dir@,
    {
        ServeOptions {
            file: self.file.clone(),
            token: self.token.clone(),
            allow: clone_strings(&self.allow),
            transcode: match &self.transcode {
                Some(plan) => Some(plan.clone()),
                None => None,
            },
            content_type: self.content_type.clone(),
            subtitles: clone_tracks(&self.subtitles),
            subtitle_dir: self.subtitle_dir.clone(),
        }
    }
}

/// Why the server refuses to listen on an address, given as the number of an
/// IPv4 address or `None` for any other.
pub open spec fn bind_refused(bind: Option<u32>) -> Option<Seq<char>> {
    match bind {
        None => Some("refusing to bind without an explicit IPv4 LAN address"@),
        Some(address) => if address == 0 {
            Some("refusing to bind 0.0.0.0"@)
        } else {
            None
        },
    }
}

/// Why the server refuses to listen on an address, if it does.
pub fn bind_refusal(bind: Option<u32>) -> (r: Option<&'static str>)
    ensures
        match r {
            Some(reason) => bind_refused(bind) == Some(reason@),
            None => bind_refused(bind) is None,
        },
{
    match bind {
        None => Some("refusing to bind without an explicit IPv4 LAN address"),
        Some(address) => if address == 0 {
            Some("refusing to bind 0.0.0.0")
        } else {
            None
        },
    }
}

/// So many times the server tries to get its address.
pub const BIND_TRIES: u32 = 30;

/// What follows a try to get the server's address.
#[derive(Debug, Clone, Copy, PartialEq, Eq, Structural)]
pub enum BindStep {
    Listen,
    TryAgain,
    GiveUp,
}

/// What follows the last of so many tries to get the server's address.
pub open spec fn after_try(tries: u32, bound: bool) -> BindStep {
    if bound {
        BindStep::Listen
    } else if tries < BIND_TRIES {
        BindStep::TryAgain
    } else {
        BindStep::GiveUp
    }
}

/// What follows the last of so many tries to get the server's address.
pub fn bind_step(tries: u32, bound: bool) -> (r: BindStep)
    ensures
        r == after_try(tries, bound),
{
    if bound {
        BindStep::Listen
    } else if tries < BIND_TRIES {
        BindStep::TryAgain
    } else {
        BindStep::GiveUp
    }
}

// ---------------------------------------------------------------------------
// Who may fetch what

/// Whether two strings are the same, by a comparison that takes as long for
/// strings that differ early as for ones that differ late.
pub fn constant_time_eq(left: &str, right: &str) -> (r: bool)
    ensures
        r == (left@ == right@),
{
    let a = left.as_bytes();
    let b = right.as_bytes();
    proof {
        vstd::utf8::encode_utf8_decode_utf8(left@);
        vstd::utf8::encode_utf8_decode_utf8(right@);
    }
    if a.len() != b.len() {
        return false;
    }
    let mut difference: u8 = 0;
    for i in 0..a.len()
        invariant
            a@.len() == b@.len(),
            (difference == 0) == (forall|j: int| 0 <= j < i ==> a@[j] == b@[j]),
    {
        let x = a[i];
        let y = b[i];
        let ghost before = difference;
        difference = difference | (x ^ y);
        assert((difference == 0) == (before == 0 && x == y)) by (bit_vector)
            requires
                difference == before | (x ^ y),
        ;
    }
    assert((difference == 0) == (a@ =~= b@));
    difference == 0
}

/// How a request is made.
#[derive(Debug, Clone, Copy, PartialEq, Eq, Structural)]
pub enum Method {
    Get,
    Head,
    Options,
    Other,
}

/// How a request is answered.
#[derive(Debug, Clone, Copy, PartialEq, Eq, Structural)]
pub enum Route {
    /// The peer or the token is not the right one.
    Forbidden,
    /// The permissions that a browser asks for first.
    Preflight,
    /// The head of a subtitle track.
    SubtitleHead,
    /// The subtitle track at this index.
    Subtitle(usize),
    /// There is no such subtitle track.
    NoSubtitle,
    /// The head of the medium.
    MediaHead,
    /// The medium.
    Media,
    /// Nothing else can be done with it.
    NotImplemented,
}

/// Whether a peer may fetch anything at all.
pub open spec fn admitted(allow: Seq<Seq<char>>, peer: Seq<char>) -> bool {
    allow.len() == 0 || allow.contains(peer)
}

/// The number in the name of a subtitle file, `{id}.vtt`.
pub open spec fn subtitle_number(name: Seq<char>) -> Option<nat> {
    if ends(name, ".vtt"@) {
        match unsigned(name.take(name.len() - ".vtt"@.len())) {
            Some(n) => if n <= u32::MAX {
                Some(n)
            } else {
                None
            },
            None => None,
        }
    } else {
        None
    }
}

/// `i` is the first track with the number `id`.
pub open spec fn is_first_track(tracks: Seq<TrackView>, id: nat, i: int) -> bool {
    &&& 0 <= i < tracks.len()
    &&& tracks[i].id == id
    &&& forall|j: int| 0 <= j < i ==> (#[trigger] tracks[j]).id != id
}

/// No track has the number `id`.
pub open spec fn no_track(tracks: Seq<TrackView>, id: nat) -> bool {
    forall|j: int| 0 <= j < tracks.len() ==> (#[trigger] tracks[j]).id != id
}

/// How a request is answered: `rest` is the path behind the token.
pub open spec fn is_route(
    options: ServeOptions,
    peer: Seq<char>,
    token: Seq<char>,
    rest: Seq<char>,
    method: Method,
    route: Route,
) -> bool {
    if !admitted(views(options.allow@), peer) || token != options.token@ {
        route is Forbidden
    } else if method is Options {
        route is Preflight
    } else if begins(rest, "sub/"@) {
        match method {
            Method::Get => match subtitle_number(rest.skip("sub/"@.len() as int)) {
                Some(id) => match route {
                    Route::Subtitle(i) => is_first_track(
                        track_views(options.subtitles@),
                        id,
                        i as int,
                    ),
                    Route::NoSubtitle => no_track(track_views(options.subtitles@), id),
                    _ => false,
                },
                None => route is NoSubtitle,
            },
            Method::Head => route is SubtitleHead,
            _ => route is NotImplemented,
        }
    } else {
        match method {
            Method::Get => route is Media,
            Method::Head => route is MediaHead,
            _ => route is NotImplemented,
        }
    }
}

fn find_track(tracks: &Vec<SubtitleTrack>, id: u32) -> (r: Option<usize>)
    ensures
        match r {
            Some(i) => is_first_track(track_views(tracks@), id as nat, i as int),
            None => no_track(track_views(tracks@), id as nat),
        },
{
    for i in 0..tracks.len()
        invariant
            forall|j: int| 0 <= j < i ==> (#[trigger] track_views(tracks@)[j]).id != id,
    {
        assert(track_views(tracks@)[i as int].id == tracks@[i as int].id);
        if tracks[i].id == id {
            return Some(i);
        }
    }
    None
}

fn route_subtitle(tracks: &Vec<SubtitleTrack>, name: &str) -> (r: Route)
    ensures
        match subtitle_number(name@) {
            Some(id) => match r {
                Route::Subtitle(i) => is_first_track(track_views(tracks@), id, i as int),
                Route::NoSubtitle => no_track(track_views(tracks@), id),
                _ => false,
            },
            None => r is NoSubtitle,
        },
{
    match strip_suffix(name, ".vtt") {
        Some(number) => match parse_u32(number.as_str()) {
            Some(id) => match find_track(tracks, id) {
                Some(i) => Route::Subtitle(i),
                None => Route::NoSubtitle,
            },
            None => Route::NoSubtitle,
        },
        None => Route::NoSubtitle,
    }
}

/// How a request is answered.
pub fn route(options: &ServeOptions, peer: &str, token: &str, rest: &str, method: Method) -> (r:
    Route)
    ensures
        is_route(*options, peer@, token@, rest@, method, r),
{
    if options.allow.len() > 0 && !holds(&options.allow, peer) {
        return Route::Forbidden;
    }
    assert(views(options.allow@).len() == options.allow@.len());
    if !constant_time_eq(token, options.token.as_str()) {
        return Route::Forbidden;
    }
    if method == Method::Options {
        return Route::Preflight;
    }
    match strip_prefix(rest, "sub/") {
        Some(name) => match method {
            Method::Get => route_subtitle(&options.subtitles, name.as_str()),
            Method::Head => Route::SubtitleHead,
            _ => Route::NotImplemented,
        },
        None => match method {
            Method::Get => Route::Media,
            Method::Head => Route::MediaHead,
            _ => Route::NotImplemented,
        },
    }
}

/// Nobody gets anything but a refusal without the token of the session, and
/// where addresses are listed nobody but those.
pub proof fn only_the_receiver_is_served(
    options: ServeOptions,
    peer: Seq<char>,
    token: Seq<char>,
    rest: Seq<char>,
    method: Method,
    route: Route,
)
    requires
        is_route(options, peer, token, rest, method, route),
    ensures
        !(route is Forbidden) ==> token == options.token@,
        !(route is Forbidden) && options.allow@.len() > 0 ==> views(options.allow@).contains(peer),
        token == options.token@ && views(options.allow@).contains(peer) ==> !(route is Forbidden),
{
    assert(views(options.allow@).len() == options.allow@.len());
}

/// The value of the first `start=` among the pairs of a query.
pub open spec fn start_among(pairs: Seq<Seq<char>>) -> Option<Seq<char>>
    decreases pairs.len(),
{
    if pairs.len() == 0 {
        None
    } else {
        match start_among(pairs.drop_last()) {
            Some(value) => Some(value),
            None => match cut(pairs.last(), "="@) {
                Some((key, value)) => if key == "start"@ {
                    Some(value)
                } else {
                    None
                },
                None => None,
            },
        }
    }
}

/// The text of the start that a query asks for.
pub open spec fn start_asked(query: Seq<char>) -> Option<Seq<char>> {
    start_among(pieces(query, '&'))
}

/// The text of the start that a query asks for.
pub fn parse_start_query(query: &str) -> (r: Option<String>)
    ensures
        match r {
            Some(value) => start_asked(query@) == Some(value@),
            None => start_asked(query@) is None,
        },
{
    let pairs = split(query, '&');
    let mut found: Option<String> = None;
    assert(views(pairs@).take(0) =~= Seq::empty());
    for i in 0..pairs.len()
        invariant
            match found {
                Some(value) => start_among(views(pairs@).take(i as int)) == Some(value@),
                None => start_among(views(pairs@).take(i as int)) is None,
            },
    {
        assert(views(pairs@).take(i + 1).drop_last() =~= views(pairs@).take(i as int));
        if found.is_none() {
            if let Some((key, value)) = split_once(pairs[i].as_str(), "=") {
                if same(key.as_str(), "start") {
                    found = Some(value);
                }
            }
        }
    }
    assert(views(pairs@).take(pairs@.len() as int) =~= views(pairs@));
    found
}

/// The start that is honoured: a finite time after the beginning.
pub open spec fn honoured(start: Option<Seconds>) -> Option<Seconds> {
    match start {
        Some(at) => if at.is_finite_number() && at.positive() {
            Some(at)
        } else {
            None
        },
        None => None,
    }
}

/// The start that is honoured: a finite time after the beginning.
pub fn wanted_start(start: Option<Seconds>) -> (r: Option<Seconds>)
    ensures
        r == honoured(start),
{
    match start {
        Some(at) => if at.is_finite() && at.is_positive() {
            Some(at)
        } else {
            None
        },
        None => None,
    }
}

// ---------------------------------------------------------------------------
// Byte ranges

/// `a - b`, but not below 0.
pub open spec fn less(a: u64, b: nat) -> u64 {
    if a >= b {
        (a - b) as u64
    } else {
        0
    }
}

/// The number that a text denotes, where it fits 64 bits.
pub open spec fn count_of(s: Seq<char>) -> Option<u64> {
    match unsigned(s) {
        Some(n) => if n <= u64::MAX {
            Some(n as u64)
        } else {
            None
        },
        None => None,
    }
}

/// The first and last byte that `first-last`, `first-` or `-count` asks for
/// of a file of `size` bytes.
pub open spec fn range_of(spec: Seq<char>, size: u64) -> Option<(u64, u64)> {
    match cut(spec, "-"@) {
        None => None,
        Some((first, second)) => if first.len() == 0 {
            match count_of(second) {
                Some(count) => Some((less(size, count as nat), less(size, 1))),
                None => None,
            }
        } else {
            match count_of(first) {
                None => None,
                Some(low) => if second.len() == 0 {
                    Some((low, less(size, 1)))
                } else {
                    match count_of(second) {
                        Some(high) => Some((low, high)),
                        None => None,
                    }
                },
            }
        },
    }
}

/// The first and last byte that a range asks for of a file of `size` bytes.
pub fn parse_range(spec: &str, size: u64) -> (r: Option<(u64, u64)>)
    ensures
        r == range_of(spec@, size),
{
    match split_once(spec, "-") {
        None => None,
        Some((first, second)) => if is_empty(first.as_str()) {
            match parse_u64(second.as_str()) {
                Some(count) => Some((size.saturating_sub(count), size.saturating_sub(1))),
                None => None,
            }
        } else {
            match parse_u64(first.as_str()) {
                None => None,
                Some(low) => if is_empty(second.as_str()) {
                    Some((low, size.saturating_sub(1)))
                } else {
                    match parse_u64(second.as_str()) {
                        Some(high) => Some((low, high)),
                        None => None,
                    }
                },
            }
        },
    }
}

/// Which bytes of a file are sent.
#[derive(Debug, Clone, Copy, PartialEq, Eq, Structural)]
pub enum FilePlan {
    /// None of those that were asked for exist.
    Unsatisfiable,
    /// Those from `start` to `end`, both included; `partial` where a part was
    /// asked for.
    Send { start: u64, end: u64, partial: bool },
}

/// The range that a request asks for: one range of bytes, or none at all.
pub open spec fn requested(range: Option<Seq<char>>, size: u64) -> Option<(u64, u64)> {
    match range {
        Some(value) => if begins(value, "bytes="@) && !(has(
            value.skip("bytes="@.len() as int),
            ","@,
        )) {
            range_of(value.skip("bytes="@.len() as int), size)
        } else {
            None
        },
        None => None,
    }
}

/// Which bytes of a file of `size` bytes are sent.
pub open spec fn bytes_sent(range: Option<Seq<char>>, size: u64) -> FilePlan {
    let (start, end, partial) = match requested(range, size) {
        Some((low, high)) => (
            low,
            if high <= less(size, 1) {
                high
            } else {
                less(size, 1)
            },
            true,
        ),
        None => (0u64, less(size, 1), false),
    };
    if start > end || start >= size {
        FilePlan::Unsatisfiable
    } else {
        FilePlan::Send { start, end, partial }
    }
}

fn wanted_range(range: Option<&str>, size: u64) -> (r: Option<(u64, u64)>)
    ensures
        r == requested(
            match range {
                Some(value) => Some(value@),
                None => None,
            },
            size,
        ),
{
    match range {
        Some(value) => match strip_prefix(value, "bytes=") {
            Some(spec) => if contains(spec.as_str(), ",") {
                None
            } else {
                parse_range(spec.as_str(), size)
            },
            None => None,
        },
        None => None,
    }
}

/// Which bytes of a file of `size` bytes are sent.
pub fn file_plan(range: Option<&str>, size: u64) -> (r: FilePlan)
    ensures
        r == bytes_sent(
            match range {
                Some(value) => Some(value@),
                None => None,
            },
            size,
        ),
{
    let last = size.saturating_sub(1);
    let (start, end, partial): (u64, u64, bool) = match wanted_range(range, size) {
        Some((low, high)) => (
            low,
            if high <= last {
                high
            } else {
                last
            },
            true,
        ),
        None => (0, last, false),
    };
    if start > end || start >= size {
        FilePlan::Unsatisfiable
    } else {
        FilePlan::Send { start, end, partial }
    }
}

/// What is sent lies within the file and is at least one byte; without a
/// range the whole file is sent, unless it is empty.
pub proof fn sent_bytes_exist(range: Option<Seq<char>>, size: u64)
    ensures
        bytes_sent(range, size) matches FilePlan::Send { start, end, .. } ==> start <= end < size,
        range is None && size > 0 ==> bytes_sent(range, size) == (FilePlan::Send {
            start: 0,
            end: (size - 1) as u64,
            partial: false,
        }),
        size == 0 ==> bytes_sent(range, size) is Unsatisfiable,
{
}

/// A range inside the file is sent as it was asked for.
pub proof fn inner_range_is_honoured(value: Seq<char>, size: u64, low: u64, high: u64)
    requires
        requested(Some(value), size) == Some((low, high)),
        low <= high < size,
    ensures
        bytes_sent(Some(value), size) == (FilePlan::Send { start: low, end: high, partial: true }),
{
}

// ---------------------------------------------------------------------------
// Heads of answers

/// The head of an answer.
#[derive(Debug)]
pub struct Head {
    pub status: u16,
    pub headers: Vec<(String, String)>,
}

/// What a head holds.
#[verifier::ext_equal]
pub struct HeadView {
    pub status: u16,
    pub headers: Seq<(Seq<char>, Seq<char>)>,
}

impl View for Head {
    type V = HeadView;

    open spec fn view(&self) -> HeadView {
        HeadView {
            status: self.status,
            headers: Seq::new(
                self.headers@.len(),
                |i: int| (self.headers@[i].0@, self.headers@[i].1@),
            ),
        }
    }
}

impl HeadView {
    pub open spec fn of(status: u16) -> HeadView {
        HeadView { status, headers: Seq::empty() }
    }

    pub open spec fn with(self, name: Seq<char>, value: Seq<char>) -> HeadView {
        HeadView { headers: self.headers.push((name, value)), ..self }
    }

    /// Cast receivers fetch subtitle tracks (and, with tracks declared, the
    /// media itself) from a browser context, which needs these headers.
    pub open spec fn shared(self) -> HeadView {
        self.with("access-control-allow-origin"@, "*"@).with(
            "access-control-expose-headers"@,
            "Content-Length, Content-Range, Accept-Ranges"@,
        )
    }

    /// What a DLNA renderer wants to know of a stream.
    pub open spec fn featured(self, content_type: Seq<char>, transcode: bool) -> HeadView {
        self.shared().with("content-type"@, content_type).with(
            "transferMode.dlna.org"@,
            "Streaming"@,
        ).with("contentFeatures.dlna.org"@, dlna_features(transcode))
    }
}

/// A directly served file is byte-range seekable and not converted; live
/// ffmpeg output is converted and cannot be seeked.
pub open spec fn dlna_features(transcode: bool) -> Seq<char> {
    if transcode {
        "DLNA.ORG_OP=00;DLNA.ORG_CI=1;DLNA.ORG_FLAGS=01700000000000000000000000000000"@
    } else {
        "DLNA.ORG_OP=01;DLNA.ORG_CI=0;DLNA.ORG_FLAGS=01700000000000000000000000000000"@
    }
}

impl Head {
    fn of(status: u16) -> (r: Head)
        ensures
            r@ == HeadView::of(status),
    {
        let r = Head { status, headers: Vec::new() };
        assert(r@ =~= HeadView::of(status));
        r
    }

    fn with(self, name: &str, value: &str) -> (r: Head)
        ensures
            r@ == self@.with(name@, value@),
    {
        let ghost before = self@;
        let mut headers = self.headers;
        headers.push((name.to_owned(), value.to_owned()));
        let r = Head { status: self.status, headers };
        assert(r@ =~= before.with(name@, value@));
        r
    }

    fn shared(self) -> (r: Head)
        ensures
            r@ == self@.shared(),
    {
        self.with("access-control-allow-origin", "*").with(
            "access-control-expose-headers",
            "Content-Length, Content-Range, Accept-Ranges",
        )
    }

    fn featured(self, content_type: &str, transcode: bool) -> (r: Head)
        ensures
            r@ == self@.featured(content_type@, transcode),
    {
        let features = if transcode {
            "DLNA.ORG_OP=00;DLNA.ORG_CI=1;DLNA.ORG_FLAGS=01700000000000000000000000000000"
        } else {
            "DLNA.ORG_OP=01;DLNA.ORG_CI=0;DLNA.ORG_FLAGS=01700000000000000000000000000000"
        };
        self.shared().with("content-type", content_type).with(
            "transferMode.dlna.org",
            "Streaming",
        ).with("contentFeatures.dlna.org", features)
    }
}

/// The refusal of a peer or token.
pub open spec fn forbidden_head() -> HeadView {
    HeadView::of(403).with("content-length"@, "0"@)
}

/// The refusal of a peer or token.
pub fn forbidden() -> (r: Head)
    ensures
        r@ == forbidden_head(),
{
    Head::of(403).with("content-length", "0")
}

/// The permissions that a browser asks for first.
pub open spec fn preflight_head() -> HeadView {
    HeadView::of(204).shared().with("access-control-allow-methods"@, "GET, HEAD, OPTIONS"@).with(
        "access-control-allow-headers"@,
        "Range, Content-Type, Origin, Accept"@,
    ).with("access-control-max-age"@, "86400"@).with("content-length"@, "0"@)
}

/// The permissions that a browser asks for first.
pub fn preflight() -> (r: Head)
    ensures
        r@ == preflight_head(),
{
    Head::of(204).shared().with("access-control-allow-methods", "GET, HEAD, OPTIONS").with(
        "access-control-allow-headers",
        "Range, Content-Type, Origin, Accept",
    ).with("access-control-max-age", "86400").with("content-length", "0")
}

/// The head of a live ffmpeg stream: unseekable, one connection per stream,
/// and for MPEG-TS a nominal length in place of chunked encoding (Samsung's
/// player refuses that; the stream simply ends when ffmpeg does).
pub open spec fn live_head(container: TranscodeContainer) -> HeadView {
    let head = HeadView::of(200).with("accept-ranges"@, "none"@).with("connection"@, "close"@);
    match container {
        TranscodeContainer::MpegTs => head.with("content-length"@, "999999999999"@),
        TranscodeContainer::FragmentedMp4 => head,
    }
}

fn live_stream_head(container: TranscodeContainer) -> (r: Head)
    ensures
        r@ == live_head(container),
{
    let head = Head::of(200).with("accept-ranges", "none").with("connection", "close");
    match container {
        TranscodeContainer::MpegTs => head.with("content-length", "999999999999"),
        TranscodeContainer::FragmentedMp4 => head,
    }
}

/// The head of the medium when only the head is asked for and ffmpeg makes the stream.
pub fn live_head_response(container: TranscodeContainer, content_type: &str) -> (r: Head)
    ensures
        r@ == live_head(container).featured(content_type@, true),
{
    live_stream_head(container).featured(content_type, true)
}

/// The head of a stream that ffmpeg makes.
pub fn transcode_head(container: TranscodeContainer) -> (r: Head)
    ensures
        r@ == live_head(container).featured(container.mime(), true),
{
    live_stream_head(container).featured(container.content_type(), true)
}

/// The head of a file when only the head is asked for.
pub open spec fn whole_head(content_type: Seq<char>, size: u64) -> HeadView {
    HeadView::of(200).with("accept-ranges"@, "bytes"@).with(
        "content-length"@,
        decimal(size as nat),
    ).featured(content_type, false)
}

/// The head of a file when only the head is asked for.
pub fn head_response(content_type: &str, size: u64) -> (r: Head)
    ensures
        r@ == whole_head(content_type@, size),
{
    Head::of(200).with("accept-ranges", "bytes").with("content-length", show(size).as_str()).featured(
        content_type,
        false,
    )
}

/// The head of a subtitle track when only the head is asked for.
pub open spec fn subtitle_head_alone() -> HeadView {
    HeadView::of(200).with("content-type"@, "text/vtt; charset=utf-8"@).shared()
}

/// The head of a subtitle track when only the head is asked for.
pub fn subtitle_head() -> (r: Head)
    ensures
        r@ == subtitle_head_alone(),
{
    Head::of(200).with("content-type", "text/vtt; charset=utf-8").shared()
}

/// The head of a subtitle track with this text.
pub open spec fn subtitle_answer(body: Seq<char>) -> HeadView {
    HeadView::of(200).with("content-type"@, "text/vtt; charset=utf-8"@).with(
        "cache-control"@,
        "no-store"@,
    ).with("content-length"@, decimal(encode_utf8(body).len())).shared()
}

/// The head of a subtitle track with this text.
pub fn subtitle_response(body: &str) -> (r: Head)
    ensures
        r@ == subtitle_answer(body@),
{
    let bytes = body.as_bytes();
    Head::of(200).with("content-type", "text/vtt; charset=utf-8").with("cache-control", "no-store").with(
        "content-length",
        show(bytes.len() as u64).as_str(),
    ).shared()
}

/// The head of the part of a file that is sent.
pub open spec fn file_head(content_type: Seq<char>, plan: FilePlan, size: u64) -> HeadView {
    match plan {
        FilePlan::Unsatisfiable => HeadView::of(416).with(
            "content-range"@,
            "bytes */"@ + decimal(size as nat),
        ).with("content-length"@, "0"@),
        FilePlan::Send { start, end, partial } => {
            let head = HeadView::of(
                if partial {
                    206
                } else {
                    200
                },
            ).with("accept-ranges"@, "bytes"@).featured(content_type, false);
            (if partial {
                head.with(
                    "content-range"@,
                    "bytes "@ + decimal(start as nat) + "-"@ + decimal(end as nat) + "/"@ + decimal(
                        size as nat,
                    ),
                )
            } else {
                head
            }).with("content-length"@, decimal((end - start + 1) as nat))
        },
    }
}

/// The head of the part of a file that is sent.
pub fn file_response(content_type: &str, plan: FilePlan, size: u64) -> (r: Head)
    requires
        plan matches FilePlan::Send { start, end, .. } ==> start <= end < size,
    ensures
        r@ == file_head(content_type@, plan, size),
{
    match plan {
        FilePlan::Unsatisfiable => {
            let mut range = "bytes */".to_owned();
            range.append(show(size).as_str());
            Head::of(416).with("content-range", range.as_str()).with("content-length", "0")
        },
        FilePlan::Send { start, end, partial } => {
            let status: u16 = if partial {
                206
            } else {
                200
            };
            let head = Head::of(status).with("accept-ranges", "bytes").featured(content_type, false);
            let length = end - start + 1;
            if partial {
                let mut range = "bytes ".to_owned();
                range.append(show(start).as_str());
                range.append("-");
                range.append(show(end).as_str());
                range.append("/");
                range.append(show(size).as_str());
                head.with("content-range", range.as_str()).with(
                    "content-length",
                    show(length).as_str(),
                )
            } else {
                head.with("content-length", show(length).as_str())
            }
        },
    }
}

// ---------------------------------------------------------------------------
// Running ffmpeg

/// The video bit rate in kbit/s, as it is written.
pub open spec fn bitrate_text(setting: Option<Seq<char>>) -> Seq<char> {
    match setting {
        Some(s) => s,
        None => "6000"@,
    }
}

/// The video bit rate in kbit/s; 6000 where it is not written as a number.
pub open spec fn bitrate_of(setting: Option<Seq<char>>) -> int {
    match setting {
        Some(s) => match count_of(s) {
            Some(n) => n as int,
            None => 6000,
        },
        None => 6000,
    }
}

/// The optional text of a setting.
pub open spec fn setting_text(setting: Option<&str>) -> Option<Seq<char>> {
    match setting {
        Some(s) => Some(s@),
        None => None,
    }
}

/// Whether twice the bit rate can be counted.
pub open spec fn bitrate_fits(setting: Option<Seq<char>>) -> bool {
    2 * bitrate_of(setting) <= u64::MAX
}

fn bitrate(setting: Option<&str>) -> (r: u64)
    ensures
        r == bitrate_of(setting_text(setting)),
{
    match setting {
        Some(s) => match parse_u64(s) {
            Some(n) => n,
            None => 6000,
        },
        None => 6000,
    }
}

/// Whether twice the bit rate can be counted.
pub fn bitrate_is_usable(setting: Option<&str>) -> (r: bool)
    ensures
        r == bitrate_fits(setting_text(setting)),
{
    bitrate(setting) <= u64::MAX / 2
}

/// The arguments that name the input.
pub open spec fn input_view(file: Seq<char>, start: Option<Seq<char>>) -> Seq<Seq<char>> {
    seq!["-nostdin"@, "-loglevel"@, "error"@] + (match start {
        Some(at) => seq!["-ss"@, at],
        None => Seq::empty(),
    }) + seq!["-i"@, file, "-map"@, "0:v:0"@, "-map"@, "0:a:0?"@]
}

/// The arguments for the picture.
pub open spec fn video_view(vcodec: Seq<char>, setting: Option<Seq<char>>) -> Seq<Seq<char>> {
    if vcodec == "copy"@ {
        seq!["-c:v"@, "copy"@]
    } else {
        seq![
            "-vf"@,
            "scale='min(1920,iw)':-2"@,
            "-c:v"@,
            vcodec,
            "-preset"@,
            "veryfast"@,
            "-profile:v"@,
            "high"@,
            "-pix_fmt"@,
            "yuv420p"@,
            "-b:v"@,
            bitrate_text(setting) + "k"@,
            "-maxrate"@,
            bitrate_text(setting) + "k"@,
            "-bufsize"@,
            decimal((2 * bitrate_of(setting)) as nat) + "k"@,
        ]
    }
}

/// The arguments for the sound: boosting means re-encoding, whatever the
/// source codec was.
pub open spec fn audio_view(plan: TranscodeView) -> Seq<Seq<char>> {
    match plan.filter_chain() {
        Some(chain) => seq![
            "-af"@,
            chain,
            "-c:a"@,
            "aac"@,
            "-b:a"@,
            "192k"@,
            "-ac"@,
            "2"@,
        ],
        None => if plan.acodec == "copy"@ {
            seq!["-c:a"@, "copy"@]
        } else {
            seq!["-c:a"@, plan.acodec, "-b:a"@, "192k"@, "-ac"@, "2"@]
        },
    }
}

/// The arguments for the container, and where the stream goes.
pub open spec fn output_view(container: TranscodeContainer) -> Seq<Seq<char>> {
    (match container {
        TranscodeContainer::FragmentedMp4 => seq![
            "-movflags"@,
            "frag_keyframe+empty_moov+default_base_moof"@,
            "-f"@,
            "mp4"@,
        ],
        TranscodeContainer::MpegTs => seq!["-f"@, "mpegts"@],
    }) + seq!["pipe:1"@]
}

/// The arguments of ffmpeg for a stream of `file` from `start` on.
pub open spec fn ffmpeg_view(
    file: Seq<char>,
    plan: TranscodeView,
    start: Option<Seq<char>>,
    setting: Option<Seq<char>>,
) -> Seq<Seq<char>> {
    input_view(file, start) + video_view(plan.vcodec, setting) + audio_view(plan) + output_view(
        plan.container,
    )
}

fn input_args(file: &str, start: Option<&Mark>) -> (r: Vec<String>)
    ensures
        views(r@) == input_view(
            file@,
            match start {
                Some(mark) => Some(mark.shown@),
                None => None,
            },
        ),
{
    let mut args: Vec<String> = vec![
        "-nostdin".to_owned(),
        "-loglevel".to_owned(),
        "error".to_owned(),
    ];
    if let Some(mark) = start {
        args.push("-ss".to_owned());
        args.push(mark.shown.clone());
    }
    args.push("-i".to_owned());
    args.push(file.to_owned());
    args.push("-map".to_owned());
    args.push("0:v:0".to_owned());
    args.push("-map".to_owned());
    args.push("0:a:0?".to_owned());
    assert(views(args@) =~= input_view(
        file@,
        match start {
            Some(mark) => Some(mark.shown@),
            None => None,
        },
    ));
    args
}

fn video_args(vcodec: &str, setting: Option<&str>) -> (r: Vec<String>)
    requires
        vcodec@ == "copy"@ || bitrate_fits(setting_text(setting)),
    ensures
        views(r@) == video_view(vcodec@, setting_text(setting)),
{
    if same(vcodec, "copy") {
        let r = vec!["-c:v".to_owned(), "copy".to_owned()];
        assert(views(r@) =~= video_view(vcodec@, setting_text(setting)));
        return r;
    }
    let mut rate = match setting {
        Some(s) => s.to_owned(),
        None => "6000".to_owned(),
    };
    rate.append("k");
    let mut buffer = show(bitrate(setting) * 2);
    buffer.append("k");
    let r = vec![
        "-vf".to_owned(),
        "scale='min(1920,iw)':-2".to_owned(),
        "-c:v".to_owned(),
        vcodec.to_owned(),
        "-preset".to_owned(),
        "veryfast".to_owned(),
        "-profile:v".to_owned(),
        "high".to_owned(),
        "-pix_fmt".to_owned(),
        "yuv420p".to_owned(),
        "-b:v".to_owned(),
        rate.clone(),
        "-maxrate".to_owned(),
        rate,
        "-bufsize".to_owned(),
        buffer,
    ];
    assert(views(r@) =~= video_view(vcodec@, setting_text(setting)));
    r
}

fn audio_args(plan: &TranscodePlan) -> (r: Vec<String>)
    ensures
        views(r@) == audio_view(plan@),
{
    let r = match plan.audio_filter() {
        Some(chain) => vec![
            "-af".to_owned(),
            chain,
            "-c:a".to_owned(),
            "aac".to_owned(),
            "-b:a".to_owned(),
            "192k".to_owned(),
            "-ac".to_owned(),
            "2".to_owned(),
        ],
        None => if same(plan.acodec.as_str(), "copy") {
            vec!["-c:a".to_owned(), "copy".to_owned()]
        } else {
            vec![
                "-c:a".to_owned(),
                plan.acodec.clone(),
                "-b:a".to_owned(),
                "192k".to_owned(),
                "-ac".to_owned(),
                "2".to_owned(),
            ]
        },
    };
    assert(views(r@) =~= audio_view(plan@));
    r
}

fn output_args(container: TranscodeContainer) -> (r: Vec<String>)
    ensures
        views(r@) == output_view(container),
{
    let r = match container {
        TranscodeContainer::FragmentedMp4 => vec![
            "-movflags".to_owned(),
            "frag_keyframe+empty_moov+default_base_moof".to_owned(),
            "-f".to_owned(),
            "mp4".to_owned(),
            "pipe:1".to_owned(),
        ],
        // ffmpeg converts H.264/HEVC to Annex B and AAC to ADTS on its own.
        TranscodeContainer::MpegTs => vec!["-f".to_owned(), "mpegts".to_owned(), "pipe:1".to_owned()],
    };
    assert(views(r@) =~= output_view(container));
    r
}

/// Puts the second list of strings behind the first.
pub fn append_all(list: &mut Vec<String>, more: Vec<String>)
    ensures
        views(final(list)@) == views(old(list)@) + views(more@),
{
    let ghost before = list@;
    let ghost added = more@;
    let mut more = more;
    list.append(&mut more);
    assert(views(list@) =~= views(before) + views(added));
}

/// The arguments of ffmpeg for a stream of `file` from `start` on. `setting`
/// is the video bit rate that the environment asks for, in kbit/s.
pub fn ffmpeg_args(
    file: &str,
    plan: &TranscodePlan,
    start: Option<&Mark>,
    setting: Option<&str>,
) -> (r: Vec<String>)
    requires
        plan.vcodec@ == "copy"@ || bitrate_fits(setting_text(setting)),
    ensures
        views(r@) == ffmpeg_view(
            file@,
            plan@,
            match start {
                Some(mark) => Some(mark.shown@),
                None => None,
            },
            setting_text(setting),
        ),
{
    let mut args = input_args(file, start);
    append_all(&mut args, video_args(plan.vcodec.as_str(), setting));
    append_all(&mut args, audio_args(plan));
    append_all(&mut args, output_args(plan.container));
    args
}

/// Boosted sound is always encoded anew, as stereo AAC behind a limiter, and
/// sound is left alone only where nothing is to be boosted.
pub proof fn boost_reencodes(plan: TranscodeView)
    ensures
        plan.gain_db > 0 ==> audio_view(plan)[3] == "aac"@ && audio_view(plan)[1] == joined(
            plan.filters(),
            ","@,
        ) && plan.filters().last() == "alimiter=limit=0.95:level=disabled"@,
        plan.gain_db <= 0 && plan.acodec == "copy"@ ==> audio_view(plan) == seq![
            "-c:a"@,
            "copy"@,
        ],
{
}

// ---------------------------------------------------------------------------
// Laws

/// The part that a channel has in a mix: a weight below one, of two places,
/// and the channel.
pub struct Share {
    pub tenths: nat,
    pub hundredths: nat,
    pub channel: Seq<char>,
}

impl Share {
    /// The weight in hundredths.
    pub open spec fn weight(self) -> nat {
        10 * self.tenths + self.hundredths
    }

    /// The share as ffmpeg reads it.
    pub open spec fn text(self) -> Seq<char> {
        "0."@ + seq![digit(self.tenths)] + (if self.hundredths == 0 {
            Seq::empty()
        } else {
            seq![digit(self.hundredths)]
        }) + "*"@ + self.channel
    }

    /// The weight has one digit for each place, and the channel is one of 7.1
    /// sound.
    pub open spec fn plain(self) -> bool {
        self.tenths < 10 && self.hundredths < 10 && seq![
            "FL"@,
            "FR"@,
            "FC"@,
            "LFE"@,
            "BL"@,
            "BR"@,
            "SL"@,
            "SR"@,
        ].contains(self.channel)
    }
}

pub open spec fn share_texts(shares: Seq<Share>) -> Seq<Seq<char>> {
    Seq::new(shares.len(), |i: int| shares[i].text())
}

/// The filter that makes two channels out of many.
pub open spec fn pan(left: Seq<Share>, right: Seq<Share>) -> Seq<char> {
    "pan=stereo|FL="@ + joined(share_texts(left), "+"@) + "|FR="@ + joined(share_texts(right), "+"@)
}

/// A channel is part of a mix with this weight, in hundredths.
pub open spec fn feeds(shares: Seq<Share>, channel: Seq<char>, weight: nat) -> bool {
    exists|i: int|
        0 <= i < shares.len() && (#[trigger] shares[i]).channel == channel && shares[i].weight()
            == weight
}

/// Every channel is part of a mix once at most.
pub open spec fn once_each(shares: Seq<Share>) -> bool {
    forall|i: int, j: int|
        0 <= i < j < shares.len() ==> (#[trigger] shares[i]).channel != (
        #[trigger] shares[j]).channel
}

/// A mix for one side puts the centre, where the dialogue is, before the front
/// channel of that side, and that before what surrounds it and the low end;
/// nothing of the other side gets in.
pub open spec fn dialogue_forward(
    mix: Seq<Share>,
    front: Seq<char>,
    back: Seq<char>,
    side: Seq<char>,
) -> bool {
    &&& once_each(mix)
    &&& mix.len() == 5
    &&& forall|i: int| 0 <= i < mix.len() ==> (#[trigger] mix[i]).plain()
    &&& exists|centre: nat, ahead: nat, behind: nat, beside: nat, low: nat|
        #![trigger feeds(mix, "FC"@, centre), feeds(mix, front, ahead), feeds(mix, back, behind), feeds(mix, side, beside), feeds(mix, "LFE"@, low)]
        feeds(mix, "FC"@, centre) && feeds(mix, front, ahead) && feeds(mix, back, behind) && feeds(
            mix,
            side,
            beside,
        ) && feeds(mix, "LFE"@, low) && centre > ahead && ahead > behind && behind == beside
            && beside > low && low > 0
}

proof fn digits_shown()
    ensures
        digit(2) == '2',
        digit(3) == '3',
        digit(5) == '5',
        digit(6) == '6',
{
}

/// The downmix feeds the centre channel, which carries the dialogue, into both
/// output channels, and with more weight than the front channel of that side;
/// the surrounds and the low end are folded in with less.
#[verifier::spinoff_prover]
#[verifier::rlimit(60)]
pub proof fn dialogue_comes_forward(plan: TranscodeView)
    requires
        plan.gain_db > 0,
        plan.channels > 2,
    ensures
        exists|left: Seq<Share>, right: Seq<Share>|
            #![trigger pan(left, right)]
            dialogue_forward(left, "FL"@, "BL"@, "SL"@) && dialogue_forward(
                right,
                "FR"@,
                "BR"@,
                "SR"@,
            ) && plan.filters()[0] == pan(left, right),
{
    reveal_strlit("FL");
    reveal_strlit("FR");
    reveal_strlit("FC");
    reveal_strlit("LFE");
    reveal_strlit("BL");
    reveal_strlit("BR");
    reveal_strlit("SL");
    reveal_strlit("SR");
    reveal_strlit("0.");
    reveal_strlit("*");
    reveal_strlit("+");
    digits_shown();
    let left = seq![
        Share { tenths: 5, hundredths: 0, channel: "FL"@ },
        Share { tenths: 6, hundredths: 0, channel: "FC"@ },
        Share { tenths: 3, hundredths: 5, channel: "BL"@ },
        Share { tenths: 3, hundredths: 5, channel: "SL"@ },
        Share { tenths: 2, hundredths: 5, channel: "LFE"@ },
    ];
    let right = seq![
        Share { tenths: 5, hundredths: 0, channel: "FR"@ },
        Share { tenths: 6, hundredths: 0, channel: "FC"@ },
        Share { tenths: 3, hundredths: 5, channel: "BR"@ },
        Share { tenths: 3, hundredths: 5, channel: "SR"@ },
        Share { tenths: 2, hundredths: 5, channel: "LFE"@ },
    ];
    let left_texts = share_texts(left);
    reveal_strlit("0.5*FL");
    assert(left[0].text() =~= "0.5*FL"@);
    assert(left_texts[0] == "0.5*FL"@);
    assert(joined(left_texts.take(1), "+"@) =~= "0.5*FL"@);
    reveal_strlit("0.6*FC");
    assert(left[1].text() =~= "0.6*FC"@);
    assert(left_texts[1] == "0.6*FC"@);
    reveal_strlit("0.5*FL+0.6*FC");
    assert(left_texts.take(2).drop_last() =~= left_texts.take(1));
    assert(joined(left_texts.take(2), "+"@) =~= "0.5*FL+0.6*FC"@);
    reveal_strlit("0.35*BL");
    assert(left[2].text() =~= "0.35*BL"@);
    assert(left_texts[2] == "0.35*BL"@);
    reveal_strlit("0.5*FL+0.6*FC+0.35*BL");
    assert(left_texts.take(3).drop_last() =~= left_texts.take(2));
    assert(joined(left_texts.take(3), "+"@) =~= "0.5*FL+0.6*FC+0.35*BL"@);
    reveal_strlit("0.35*SL");
    assert(left[3].text() =~= "0.35*SL"@);
    assert(left_texts[3] == "0.35*SL"@);
    reveal_strlit("0.5*FL+0.6*FC+0.35*BL+0.35*SL");
    assert(left_texts.take(4).drop_last() =~= left_texts.take(3));
    assert(joined(left_texts.take(4), "+"@) =~= "0.5*FL+0.6*FC+0.35*BL+0.35*SL"@);
    reveal_strlit("0.25*LFE");
    assert(left[4].text() =~= "0.25*LFE"@);
    assert(left_texts[4] == "0.25*LFE"@);
    reveal_strlit("0.5*FL+0.6*FC+0.35*BL+0.35*SL+0.25*LFE");
    assert(left_texts.take(5).drop_last() =~= left_texts.take(4));
    assert(joined(left_texts.take(5), "+"@) =~= "0.5*FL+0.6*FC+0.35*BL+0.35*SL+0.25*LFE"@);
    assert(left_texts.take(5) =~= left_texts);
    let right_texts = share_texts(right);
    reveal_strlit("0.5*FR");
    assert(right[0].text() =~= "0.5*FR"@);
    assert(right_texts[0] == "0.5*FR"@);
    assert(joined(right_texts.take(1), "+"@) =~= "0.5*FR"@);
    reveal_strlit("0.6*FC");
    assert(right[1].text() =~= "0.6*FC"@);
    assert(right_texts[1] == "0.6*FC"@);
    reveal_strlit("0.5*FR+0.6*FC");
    assert(right_texts.take(2).drop_last() =~= right_texts.take(1));
    assert(joined(right_texts.take(2), "+"@) =~= "0.5*FR+0.6*FC"@);
    reveal_strlit("0.35*BR");
    assert(right[2].text() =~= "0.35*BR"@);
    assert(right_texts[2] == "0.35*BR"@);
    reveal_strlit("0.5*FR+0.6*FC+0.35*BR");
    assert(right_texts.take(3).drop_last() =~= right_texts.take(2));
    assert(joined(right_texts.take(3), "+"@) =~= "0.5*FR+0.6*FC+0.35*BR"@);
    reveal_strlit("0.35*SR");
    assert(right[3].text() =~= "0.35*SR"@);
    assert(right_texts[3] == "0.35*SR"@);
    reveal_strlit("0.5*FR+0.6*FC+0.35*BR+0.35*SR");
    assert(right_texts.take(4).drop_last() =~= right_texts.take(3));
    assert(joined(right_texts.take(4), "+"@) =~= "0.5*FR+0.6*FC+0.35*BR+0.35*SR"@);
    reveal_strlit("0.25*LFE");
    assert(right[4].text() =~= "0.25*LFE"@);
    assert(right_texts[4] == "0.25*LFE"@);
    reveal_strlit("0.5*FR+0.6*FC+0.35*BR+0.35*SR+0.25*LFE");
    assert(right_texts.take(5).drop_last() =~= right_texts.take(4));
    assert(joined(right_texts.take(5), "+"@) =~= "0.5*FR+0.6*FC+0.35*BR+0.35*SR+0.25*LFE"@);
    assert(right_texts.take(5) =~= right_texts);
    reveal_strlit("pan=stereo|FL=");
    reveal_strlit("|FR=");
    reveal_strlit("pan=stereo|FL=0.5*FL+0.6*FC+0.35*BL+0.35*SL+0.25*LFE|FR=0.5*FR+0.6*FC+0.35*BR+0.35*SR+0.25*LFE");
    assert(downmix() =~= pan(left, right));
    channels_differ();
    let all = seq!["FL"@, "FR"@, "FC"@, "LFE"@, "BL"@, "BR"@, "SL"@, "SR"@];
    assert(all[0] == "FL"@ && all[1] == "FR"@ && all[2] == "FC"@ && all[3] == "LFE"@ && all[4]
        == "BL"@ && all[5] == "BR"@ && all[6] == "SL"@ && all[7] == "SR"@);
    assert(left[0].channel == "FL"@ && left[1].channel == "FC"@ && left[2].channel == "BL"@
        && left[3].channel == "SL"@ && left[4].channel == "LFE"@);
    assert(right[0].channel == "FR"@ && right[1].channel == "FC"@ && right[2].channel == "BR"@
        && right[3].channel == "SR"@ && right[4].channel == "LFE"@);
    assert(left[0].weight() == 50 && left[1].weight() == 60 && left[2].weight() == 35
        && left[3].weight() == 35 && left[4].weight() == 25);
    assert(right[0].weight() == 50 && right[1].weight() == 60 && right[2].weight() == 35
        && right[3].weight() == 35 && right[4].weight() == 25);
    assert(feeds(left, "FC"@, 60) && feeds(left, "FL"@, 50) && feeds(left, "BL"@, 35) && feeds(
        left,
        "SL"@,
        35,
    ) && feeds(left, "LFE"@, 25));
    assert(feeds(right, "FC"@, 60) && feeds(right, "FR"@, 50) && feeds(right, "BR"@, 35) && feeds(
        right,
        "SR"@,
        35,
    ) && feeds(right, "LFE"@, 25));
    assert(dialogue_forward(left, "FL"@, "BL"@, "SL"@));
    assert(dialogue_forward(right, "FR"@, "BR"@, "SR"@));
    assert(plan.filters()[0] == downmix());
}

proof fn channels_differ()
    ensures
        "FL"@ != "FC"@ && "FL"@ != "BL"@ && "FL"@ != "SL"@ && "FL"@ != "LFE"@,
        "FC"@ != "BL"@ && "FC"@ != "SL"@ && "FC"@ != "LFE"@,
        "BL"@ != "SL"@ && "BL"@ != "LFE"@ && "SL"@ != "LFE"@,
        "FR"@ != "FC"@ && "FR"@ != "BR"@ && "FR"@ != "SR"@ && "FR"@ != "LFE"@,
        "FC"@ != "BR"@ && "FC"@ != "SR"@,
        "BR"@ != "SR"@ && "BR"@ != "LFE"@ && "SR"@ != "LFE"@,
{
    reveal_strlit("FL");
    reveal_strlit("FR");
    reveal_strlit("FC");
    reveal_strlit("LFE");
    reveal_strlit("BL");
    reveal_strlit("BR");
    reveal_strlit("SL");
    reveal_strlit("SR");
    assert("FL"@.len() == 2);
    assert("FR"@.len() == 2);
    assert("FC"@.len() == 2);
    assert("LFE"@.len() == 3);
    assert("BL"@.len() == 2);
    assert("BR"@.len() == 2);
    assert("SL"@.len() == 2);
    assert("SR"@.len() == 2);
    assert("FL"@[1] != "FR"@[1]);
    assert("FL"@[1] != "FC"@[1]);
    assert("FL"@[0] != "BL"@[0]);
    assert("FL"@[0] != "BR"@[0]);
    assert("FL"@[0] != "SL"@[0]);
    assert("FL"@[0] != "SR"@[0]);
    assert("FR"@[1] != "FC"@[1]);
    assert("FR"@[0] != "BL"@[0]);
    assert("FR"@[0] != "BR"@[0]);
    assert("FR"@[0] != "SL"@[0]);
    assert("FR"@[0] != "SR"@[0]);
    assert("FC"@[0] != "BL"@[0]);
    assert("FC"@[0] != "BR"@[0]);
    assert("FC"@[0] != "SL"@[0]);
    assert("FC"@[0] != "SR"@[0]);
    assert("BL"@[1] != "BR"@[1]);
    assert("BL"@[0] != "SL"@[0]);
    assert("BL"@[0] != "SR"@[0]);
    assert("BR"@[0] != "SL"@[0]);
    assert("BR"@[0] != "SR"@[0]);
    assert("SL"@[1] != "SR"@[1]);
}

/// A boosted soundtrack is made louder by so many decibels and then kept from
/// clipping; only one of more than two channels is mixed down before that, and
/// one that is not boosted is left alone.
pub proof fn boost_is_limited(plan: TranscodeView)
    ensures
        plan.filter_chain() is Some <==> plan.gain_db > 0,
        plan.filter_chain() matches Some(chain) ==> {
            let louder = "volume="@ + signed_decimal(plan.gain_db as int) + "dB"@;
            let limited = "alimiter=limit=0.95:level=disabled"@;
            &&& plan.channels <= 2 ==> chain == louder + ","@ + limited
            &&& plan.channels > 2 ==> chain == plan.filters()[0] + ","@ + louder + ","@ + limited
        },
{
    let louder = "volume="@ + signed_decimal(plan.gain_db as int) + "dB"@;
    let limited = "alimiter=limit=0.95:level=disabled"@;
    let filters = plan.filters();
    reveal_with_fuel(joined, 4);
    if plan.channels > 2 {
        assert(filters =~= seq![downmix(), louder, limited]);
        assert(filters.drop_last() =~= seq![downmix(), louder]);
        assert(filters.drop_last().drop_last() =~= seq![downmix()]);
    } else {
        assert(filters =~= seq![louder, limited]);
        assert(filters.drop_last() =~= seq![louder]);
    }
}

proof fn given_in(before: Seq<Seq<char>>, args: Seq<Seq<char>>, after: Seq<Seq<char>>, i: int)
    requires
        0 <= i,
        i + 1 < args.len(),
    ensures
        given(before + args + after, args[i], args[i + 1]),
{
    let all = before + args + after;
    assert(all[before.len() + i] == args[i]);
    assert(all[before.len() + i + 1] == args[i + 1]);
}

/// A stream is made of the file that is cast, its first picture and its first
/// soundtrack, from the wanted start on, and goes where the server reads it.
pub proof fn stream_is_made_of_the_file(
    file: Seq<char>,
    plan: TranscodeView,
    start: Option<Seq<char>>,
    setting: Option<Seq<char>>,
)
    ensures
        ({
            let args = ffmpeg_view(file, plan, start, setting);
            &&& given(args, "-i"@, file)
            &&& given(args, "-map"@, "0:v:0"@)
            &&& given(args, "-map"@, "0:a:0?"@)
            &&& start matches Some(at) ==> args[3] == "-ss"@ && args[4] == at && args[5] == "-i"@
                && args[6] == file
            &&& start is None ==> args[3] == "-i"@ && args[4] == file
            &&& args.last() == "pipe:1"@
            &&& args[0] == "-nostdin"@
            &&& given(args, "-loglevel"@, "error"@)
        }),
{
    let input = input_view(file, start);
    let video = video_view(plan.vcodec, setting);
    let audio = audio_view(plan);
    let output = output_view(plan.container);
    let args = ffmpeg_view(file, plan, start, setting);
    let from: int = if start is Some {
        5
    } else {
        3
    };
    let none = Seq::<Seq<char>>::empty();
    assert(args =~= none + input + (video + audio + output));
    given_in(none, input, video + audio + output, 1);
    given_in(none, input, video + audio + output, from);
    given_in(none, input, video + audio + output, from + 2);
    given_in(none, input, video + audio + output, from + 4);
    assert(args[args.len() - 1] == output[output.len() - 1]);
}

/// The picture and the sound are encoded as the plan says, but boosted sound
/// always as AAC; a picture that is encoded anew is at most as wide as full HD,
/// of a kind that every receiver decodes, at the wanted bit rate.
pub proof fn stream_is_encoded_as_planned(
    file: Seq<char>,
    plan: TranscodeView,
    start: Option<Seq<char>>,
    setting: Option<Seq<char>>,
)
    ensures
        ({
            let args = ffmpeg_view(file, plan, start, setting);
            let rate = match setting {
                Some(text) => text,
                None => "6000"@,
            };
            &&& given(args, "-c:v"@, plan.vcodec)
            &&& plan.vcodec != "copy"@ ==> given(args, "-pix_fmt"@, "yuv420p"@) && given(
                args,
                "-vf"@,
                "scale='min(1920,iw)':-2"@,
            ) && given(args, "-preset"@, "veryfast"@) && given(args, "-profile:v"@, "high"@) && given(args, "-b:v"@, rate + "k"@) && given(
                args,
                "-maxrate"@,
                rate + "k"@,
            )
            &&& plan.vcodec != "copy"@ ==> (unsigned(rate) matches Some(n) ==> (n <= u64::MAX
                ==> given(args, "-bufsize"@, decimal(2 * n) + "k"@)))
            &&& plan.vcodec == "copy"@ ==> video_view(plan.vcodec, setting).len() == 2
            &&& plan.gain_db <= 0 ==> given(args, "-c:a"@, plan.acodec)
            &&& plan.gain_db <= 0 && plan.acodec == "copy"@ ==> audio_view(plan).len() == 2
            &&& plan.gain_db > 0 || plan.acodec != "copy"@ ==> given(args, "-ac"@, "2"@) && given(
                args,
                "-b:a"@,
                "192k"@,
            )
            &&& plan.gain_db > 0 ==> given(args, "-c:a"@, "aac"@)
            &&& plan.filter_chain() matches Some(chain) ==> given(args, "-af"@, chain)
        }),
{
    let input = input_view(file, start);
    let video = video_view(plan.vcodec, setting);
    let audio = audio_view(plan);
    let output = output_view(plan.container);
    let args = ffmpeg_view(file, plan, start, setting);
    assert(args =~= input + video + (audio + output));
    assert(args =~= (input + video) + audio + output);
    if plan.vcodec == "copy"@ {
        given_in(input, video, audio + output, 0);
    } else {
        given_in(input, video, audio + output, 0);
        given_in(input, video, audio + output, 2);
        given_in(input, video, audio + output, 4);
        given_in(input, video, audio + output, 6);
        given_in(input, video, audio + output, 8);
        given_in(input, video, audio + output, 10);
        given_in(input, video, audio + output, 12);
        given_in(input, video, audio + output, 14);
        six_thousand();
    }
    given_in(input + video, audio, output, 0);
    if audio.len() > 2 {
        given_in(input + video, audio, output, 2);
        given_in(input + video, audio, output, 4);
    }
    if audio.len() > 6 {
        given_in(input + video, audio, output, 6);
    }
}

proof fn six_thousand()
    ensures
        unsigned("6000"@) == Some(6000nat),
{
    reveal_strlit("6000");
    decimal_denotes(6000);
    reveal_with_fuel(decimal, 5);
    assert("6000"@ =~= decimal(6000));
}

/// A stream for a Cast receiver is an MP4 in fragments, one for a renderer is
/// an MPEG transport stream; it is announced and named as what it is.
pub proof fn container_is_what_it_is_called(
    file: Seq<char>,
    plan: TranscodeView,
    start: Option<Seq<char>>,
    setting: Option<Seq<char>>,
)
    ensures
        ({
            let args = ffmpeg_view(file, plan, start, setting);
            &&& plan.container is FragmentedMp4 ==> given(args, "-f"@, "mp4"@) && given(
                args,
                "-movflags"@,
                "frag_keyframe+empty_moov+default_base_moof"@,
            ) && plan.container.mime() == "video/mp4"@ && plan.container.suffix() == "mp4"@
            &&& plan.container is MpegTs ==> given(args, "-f"@, "mpegts"@) && plan.container.mime()
                == "video/mpeg"@ && plan.container.suffix() == "ts"@
        }),
{
    let rest = input_view(file, start) + video_view(plan.vcodec, setting) + audio_view(plan);
    let output = output_view(plan.container);
    let none = Seq::<Seq<char>>::empty();
    assert(ffmpeg_view(file, plan, start, setting) =~= rest + output + none);
    given_in(rest, output, none, 0);
    if plan.container is FragmentedMp4 {
        given_in(rest, output, none, 2);
    }
}

/// The server listens on a real address of the network only, never on all of
/// them, and tries for it thirty times.
pub proof fn server_listens_on_one_address(bind: Option<u32>, tries: u32)
    ensures
        bind_refused(bind) is None <==> (bind matches Some(address) && address != 0),
        bind_refused(None) == Some("refusing to bind without an explicit IPv4 LAN address"@),
        bind_refused(Some(0)) == Some("refusing to bind 0.0.0.0"@),
        after_try(tries, true) is Listen,
        !(after_try(tries, false) is Listen),
        after_try(tries, false) is GiveUp <==> tries >= 30,
{
}

/// A start is honoured as it was asked for, where it is a time after the
/// beginning.
pub proof fn starts_are_honoured(start: Option<Seconds>)
    ensures
        honoured(start) is Some ==> honoured(start) == start,
        honoured(start) is Some <==> (start matches Some(at) && at.is_finite_number()
            && at.positive()),
{
}

/// With the right token, what is sent depends on how it is asked for: the
/// medium, or the subtitles under `sub/`, or only their head.
pub proof fn requests_are_answered_in_kind(
    options: ServeOptions,
    peer: Seq<char>,
    rest: Seq<char>,
    method: Method,
    route: Route,
)
    requires
        is_route(options, peer, options.token@, rest, method, route),
        options.allow@.len() == 0 || views(options.allow@).contains(peer),
    ensures
        method is Options <==> route is Preflight,
        method is Other ==> route is NotImplemented,
        !begins(rest, "sub/"@) && method is Get <==> route is Media,
        !begins(rest, "sub/"@) && method is Head <==> route is MediaHead,
        begins(rest, "sub/"@) && method is Head <==> route is SubtitleHead,
        begins(rest, "sub/"@) && method is Get ==> route is Subtitle || route is NoSubtitle,
        !(route is Forbidden),
{
    assert(views(options.allow@).len() == options.allow@.len());
}

/// Under `sub/`, the number and `.vtt` the track of that number is sent, and
/// where there is none, none.
pub proof fn subtitles_are_sent_by_number(
    options: ServeOptions,
    peer: Seq<char>,
    id: u32,
    i: int,
    route: Route,
)
    requires
        is_route(
            options,
            peer,
            options.token@,
            "sub/"@ + decimal(id as nat) + ".vtt"@,
            Method::Get,
            route,
        ),
        options.allow@.len() == 0 || views(options.allow@).contains(peer),
    ensures
        route matches Route::Subtitle(k) ==> k < options.subtitles@.len() && track_views(
            options.subtitles@,
        )[k as int].id == id,
        0 <= i < options.subtitles@.len() && track_views(options.subtitles@)[i].id == id
            ==> route is Subtitle,
        route is Subtitle || route is NoSubtitle,
{
    let name = decimal(id as nat) + ".vtt"@;
    let rest = "sub/"@ + decimal(id as nat) + ".vtt"@;
    assert(views(options.allow@).len() == options.allow@.len());
    assert(rest.take("sub/"@.len() as int) =~= "sub/"@);
    assert(rest.skip("sub/"@.len() as int) =~= name);
    assert(name.skip(name.len() - ".vtt"@.len()) =~= ".vtt"@);
    assert(name.take(name.len() - ".vtt"@.len()) =~= decimal(id as nat));
    decimal_denotes(id as nat);
    assert(track_views(options.subtitles@).len() == options.subtitles@.len());
}

proof fn digits_without(n: nat, sep: char)
    requires
        !('0' <= sep && sep <= '9'),
    ensures
        !decimal(n).contains(sep),
        decimal(n).len() > 0,
{
    decimal_denotes(n);
    if decimal(n).contains(sep) {
        let i = choose|i: int| 0 <= i < decimal(n).len() && decimal(n)[i] == sep;
        assert(crate::text::is_digit(decimal(n)[i]));
    }
}

/// A range is read as it is written: from one byte to another, from one byte to
/// the end, or so many bytes before the end.
pub proof fn ranges_are_read_as_written(low: u64, high: u64, size: u64)
    ensures
        range_of(decimal(low as nat) + "-"@ + decimal(high as nat), size) == Some((low, high)),
        size > 0 ==> range_of(decimal(low as nat) + "-"@, size) == Some((low, (size - 1) as u64)),
        low <= size && size > 0 ==> range_of("-"@ + decimal(low as nat), size) == Some(
            ((size - low) as u64, (size - 1) as u64),
        ),
{
    let a = decimal(low as nat);
    let b = decimal(high as nat);
    let none = Seq::<char>::empty();
    reveal_strlit("-");
    assert("-"@ =~= seq!['-']);
    digits_without(low as nat, '-');
    digits_without(high as nat, '-');
    decimal_denotes(low as nat);
    decimal_denotes(high as nat);
    cut_is_at_the_first(a, '-', b);
    cut_is_at_the_first(a, '-', none);
    cut_is_at_the_first(none, '-', a);
    assert(a + "-"@ =~= a + seq!['-'] + none);
    assert("-"@ + a =~= none + seq!['-'] + a);
}

/// Of a range that begins in the file the part that is in it is sent; of one
/// that does not, or is no range at all, nothing. A request that asks for no
/// single range of bytes gets the whole file.
pub proof fn ranges_are_clipped(range: Option<Seq<char>>, size: u64)
    ensures
        requested(range, size) matches Some((low, high)) ==> {
            &&& low < size && low <= high && high >= size ==> bytes_sent(range, size) == (
            FilePlan::Send { start: low, end: (size - 1) as u64, partial: true })
            &&& low >= size || low > high ==> bytes_sent(range, size) is Unsatisfiable
        },
        requested(range, size) is None && size > 0 ==> bytes_sent(range, size) == (FilePlan::Send {
            start: 0,
            end: (size - 1) as u64,
            partial: false,
        }),
        range matches Some(value) ==> (!begins(value, "bytes="@) ==> requested(range, size) is None),
        range is None ==> requested(range, size) is None,
{
}

/// What stands behind `bytes=` is the range that is asked for, unless it is
/// more than one.
pub proof fn ranges_are_of_bytes(text: Seq<char>, size: u64)
    ensures
        has(text, ","@) ==> requested(Some("bytes="@ + text), size) is None,
        !(has(text, ","@)) ==> requested(Some("bytes="@ + text), size) == range_of(text, size),
{
    let value = "bytes="@ + text;
    assert(value.take("bytes="@.len() as int) =~= "bytes="@);
    assert(value.skip("bytes="@.len() as int) =~= text);
}

impl HeadView {
    /// A head says something under a name.
    pub open spec fn says(self, name: Seq<char>, value: Seq<char>) -> bool {
        self.headers.contains((name, value))
    }
}

proof fn said_stays_said(head: HeadView, name: Seq<char>, value: Seq<char>)
    ensures
        head.with(name, value).says(name, value),
        head.with(name, value).status == head.status,
        forall|n: Seq<char>, v: Seq<char>| #[trigger]
            head.says(n, v) ==> head.with(name, value).says(n, v),
{
    let next = head.with(name, value);
    assert(next.headers[head.headers.len() as int] == (name, value));
    assert forall|n: Seq<char>, v: Seq<char>| #[trigger] head.says(n, v) implies next.says(
        n,
        v,
    ) by {
        let i = choose|i: int| 0 <= i < head.headers.len() && head.headers[i] == (n, v);
        assert(next.headers[i] == (n, v));
    }
}

proof fn featured_says(head: HeadView, content_type: Seq<char>, transcode: bool)
    ensures
        ({
            let next = head.featured(content_type, transcode);
            &&& next.status == head.status
            &&& next.says("content-type"@, content_type)
            &&& next.says("contentFeatures.dlna.org"@, dlna_features(transcode))
            &&& next.says("access-control-allow-origin"@, "*"@)
            &&& forall|n: Seq<char>, v: Seq<char>| #[trigger] head.says(n, v) ==> next.says(n, v)
        }),
{
    let a = head.with("access-control-allow-origin"@, "*"@);
    said_stays_said(head, "access-control-allow-origin"@, "*"@);
    let b = a.with(
        "access-control-expose-headers"@,
        "Content-Length, Content-Range, Accept-Ranges"@,
    );
    said_stays_said(
        a,
        "access-control-expose-headers"@,
        "Content-Length, Content-Range, Accept-Ranges"@,
    );
    let c = b.with("content-type"@, content_type);
    said_stays_said(b, "content-type"@, content_type);
    let d = c.with("transferMode.dlna.org"@, "Streaming"@);
    said_stays_said(c, "transferMode.dlna.org"@, "Streaming"@);
    said_stays_said(d, "contentFeatures.dlna.org"@, dlna_features(transcode));
}

/// The head of a part of a file tells which part it is and how long, and the
/// head of the whole file how long that is; both say that parts can be had.
pub proof fn file_heads_tell_what_is_sent(
    content_type: Seq<char>,
    start: u64,
    end: u64,
    size: u64,
)
    requires
        start <= end < size,
    ensures
        ({
            let part = file_head(
                content_type,
                FilePlan::Send { start, end, partial: true },
                size,
            );
            let whole = file_head(
                content_type,
                FilePlan::Send { start, end, partial: false },
                size,
            );
            let range = "bytes "@ + decimal(start as nat) + "-"@ + decimal(end as nat) + "/"@
                + decimal(size as nat);
            &&& part.status == 206 && whole.status == 200
            &&& part.says("content-range"@, range)
            &&& part.says("content-length"@, decimal((end - start + 1) as nat))
            &&& whole.says("content-length"@, decimal((end - start + 1) as nat))
            &&& part.says("accept-ranges"@, "bytes"@) && whole.says("accept-ranges"@, "bytes"@)
            &&& part.says("content-type"@, content_type) && whole.says(
                "content-type"@,
                content_type,
            )
        }),
        whole_head(content_type, size).status == 200,
        whole_head(content_type, size).says("content-length"@, decimal(size as nat)),
        whole_head(content_type, size).says("content-type"@, content_type),
        whole_head(content_type, size).says("accept-ranges"@, "bytes"@),
{
    let range = "bytes "@ + decimal(start as nat) + "-"@ + decimal(end as nat) + "/"@ + decimal(
        size as nat,
    );
    let length = decimal((end - start + 1) as nat);
    let a = HeadView::of(206).with("accept-ranges"@, "bytes"@);
    said_stays_said(HeadView::of(206), "accept-ranges"@, "bytes"@);
    featured_says(a, content_type, false);
    let b = a.featured(content_type, false);
    said_stays_said(b, "content-range"@, range);
    said_stays_said(b.with("content-range"@, range), "content-length"@, length);
    let c = HeadView::of(200).with("accept-ranges"@, "bytes"@);
    said_stays_said(HeadView::of(200), "accept-ranges"@, "bytes"@);
    featured_says(c, content_type, false);
    said_stays_said(c.featured(content_type, false), "content-length"@, length);
    said_stays_said(c, "content-length"@, decimal(size as nat));
    featured_says(c.with("content-length"@, decimal(size as nat)), content_type, false);
}

/// Where nothing that was asked for exists, the head says how long the file is
/// and that nothing is sent.
pub proof fn missing_range_is_told(content_type: Seq<char>, size: u64)
    ensures
        ({
            let head = file_head(content_type, FilePlan::Unsatisfiable, size);
            &&& head.status == 416
            &&& head.says("content-range"@, "bytes */"@ + decimal(size as nat))
            &&& head.says("content-length"@, "0"@)
        }),
{
    let head = HeadView::of(416);
    let range = "bytes */"@ + decimal(size as nat);
    said_stays_said(head, "content-range"@, range);
    said_stays_said(head.with("content-range"@, range), "content-length"@, "0"@);
}

/// A stream that ffmpeg makes is announced as what the container is, and as
/// one that cannot be had in parts; only a transport stream is given a length.
pub proof fn live_heads_tell_of_no_parts(container: TranscodeContainer, content_type: Seq<char>)
    ensures
        ({
            let head = live_head(container).featured(content_type, true);
            &&& head.status == 200
            &&& head.says("accept-ranges"@, "none"@)
            &&& head.says("content-type"@, content_type)
            &&& container is MpegTs ==> head.says("content-length"@, "999999999999"@)
        }),
        container is FragmentedMp4 ==> live_head(container).headers.len() == 2,
        dlna_features(true)
            == "DLNA.ORG_OP=00;DLNA.ORG_CI=1;DLNA.ORG_FLAGS=01700000000000000000000000000000"@,
        dlna_features(false)
            == "DLNA.ORG_OP=01;DLNA.ORG_CI=0;DLNA.ORG_FLAGS=01700000000000000000000000000000"@,
{
    let a = HeadView::of(200).with("accept-ranges"@, "none"@);
    said_stays_said(HeadView::of(200), "accept-ranges"@, "none"@);
    let b = a.with("connection"@, "close"@);
    said_stays_said(a, "connection"@, "close"@);
    said_stays_said(b, "content-length"@, "999999999999"@);
    featured_says(live_head(container), content_type, true);
}

/// Subtitles are sent as WebVTT, with as many bytes as they have, to any page
/// that a receiver shows; who is refused is told so and nothing else.
pub proof fn subtitle_heads_tell_what_is_sent(body: Seq<char>)
    ensures
        subtitle_answer(body).status == 200,
        subtitle_answer(body).says("content-type"@, "text/vtt; charset=utf-8"@),
        subtitle_answer(body).says("content-length"@, decimal(encode_utf8(body).len())),
        subtitle_answer(body).says("access-control-allow-origin"@, "*"@),
        subtitle_head_alone().status == 200,
        subtitle_head_alone().says("content-type"@, "text/vtt; charset=utf-8"@),
        subtitle_head_alone().says("access-control-allow-origin"@, "*"@),
        preflight_head().status == 204,
        preflight_head().says("access-control-allow-origin"@, "*"@),
        preflight_head().says("access-control-allow-methods"@, "GET, HEAD, OPTIONS"@),
        forbidden_head().status == 403,
        forbidden_head().says("content-length"@, "0"@),
{
    let origin = "access-control-allow-origin"@;
    let expose = "access-control-expose-headers"@;
    let exposed = "Content-Length, Content-Range, Accept-Ranges"@;
    let length = decimal(encode_utf8(body).len());
    let a = HeadView::of(200).with("content-type"@, "text/vtt; charset=utf-8"@);
    said_stays_said(HeadView::of(200), "content-type"@, "text/vtt; charset=utf-8"@);
    said_stays_said(a, origin, "*"@);
    said_stays_said(a.with(origin, "*"@), expose, exposed);
    let b = a.with("cache-control"@, "no-store"@);
    said_stays_said(a, "cache-control"@, "no-store"@);
    let c = b.with("content-length"@, length);
    said_stays_said(b, "content-length"@, length);
    said_stays_said(c, origin, "*"@);
    said_stays_said(c.with(origin, "*"@), expose, exposed);
    let d = HeadView::of(204).with(origin, "*"@);
    said_stays_said(HeadView::of(204), origin, "*"@);
    let e = d.with(expose, exposed);
    said_stays_said(d, expose, exposed);
    let f = e.with("access-control-allow-methods"@, "GET, HEAD, OPTIONS"@);
    said_stays_said(e, "access-control-allow-methods"@, "GET, HEAD, OPTIONS"@);
    let g = f.with("access-control-allow-headers"@, "Range, Content-Type, Origin, Accept"@);
    said_stays_said(f, "access-control-allow-headers"@, "Range, Content-Type, Origin, Accept"@);
    let h = g.with("access-control-max-age"@, "86400"@);
    said_stays_said(g, "access-control-max-age"@, "86400"@);
    said_stays_said(h, "content-length"@, "0"@);
    said_stays_said(HeadView::of(403), "content-length"@, "0"@);
}

proof fn first_start_counts(pair: Seq<char>, rest: Seq<Seq<char>>)
    ensures
        start_among(seq![pair] + rest) == match start_among(seq![pair]) {
            Some(value) => Some(value),
            None => start_among(rest),
        },
    decreases rest.len(),
{
    if rest.len() > 0 {
        first_start_counts(pair, rest.drop_last());
        assert((seq![pair] + rest).drop_last() =~= seq![pair] + rest.drop_last());
    } else {
        assert(seq![pair] + rest =~= seq![pair]);
    }
}

/// The start that a query asks for is what stands behind the first `start=`;
/// what it asks for besides makes no difference.
pub proof fn start_is_asked_for_by_name(
    value: Seq<char>,
    key: Seq<char>,
    other: Seq<char>,
    rest: Seq<char>,
)
    requires
        !value.contains('&') && !other.contains('&'),
        !key.contains('&') && !key.contains('=') && key != "start"@,
    ensures
        start_asked("start="@ + value) == Some(value),
        start_asked("start="@ + value + seq!['&'] + rest) == Some(value),
        start_asked(key + seq!['='] + other + seq!['&'] + rest) == start_asked(rest),
        start_asked(key).is_none(),
{
    reveal_strlit("start");
    reveal_strlit("start=");
    reveal_strlit("=");
    assert("="@ =~= seq!['=']);
    let none = Seq::<Seq<char>>::empty();
    assert(start_among(none) is None);
    let name = "start"@;
    let wanted = "start="@ + value;
    assert(wanted =~= name + seq!['='] + value);
    assert(!name.contains('='));
    crate::text::cut_is_at_the_first(name, '=', value);
    assert(seq![wanted].drop_last() =~= none);
    assert(start_among(seq![wanted]) == Some(value));
    assert(!wanted.contains('&')) by {
        if wanted.contains('&') {
            let j = choose|j: int| 0 <= j < wanted.len() && wanted[j] == '&';
            if j >= 6 {
                assert(value[j - 6] == '&');
            }
        }
    }
    crate::text::pieces_are_parted(wanted, '&', rest);
    first_start_counts(wanted, pieces(rest, '&'));
    let pair = key + seq!['='] + other;
    assert(!pair.contains('&')) by {
        if pair.contains('&') {
            let j = choose|j: int| 0 <= j < pair.len() && pair[j] == '&';
            if j < key.len() {
                assert(key[j] == '&');
            } else {
                assert(other[j - key.len() - 1] == '&');
            }
        }
    }
    crate::text::cut_is_at_the_first(key, '=', other);
    assert(seq![pair].drop_last() =~= none);
    assert(start_among(seq![pair]) is None);
    crate::text::pieces_are_parted(pair, '&', rest);
    first_start_counts(pair, pieces(rest, '&'));
    crate::text::pieces_are_parted(key, '&', rest);
    assert(seq![key].drop_last() =~= none);
}

/// A page that a receiver shows may read all that it needs, is told so once a
/// day, and may ask for parts; a renderer is told that it is streamed to. A
/// live stream takes its connection with it, and subtitles are not kept.
pub proof fn heads_permit_what_receivers_need(
    head: HeadView,
    content_type: Seq<char>,
    transcode: bool,
    container: TranscodeContainer,
    body: Seq<char>,
)
    ensures
        head.shared().says("access-control-allow-origin"@, "*"@),
        head.shared().says(
            "access-control-expose-headers"@,
            "Content-Length, Content-Range, Accept-Ranges"@,
        ),
        head.featured(content_type, transcode).says("transferMode.dlna.org"@, "Streaming"@),
        head.featured(content_type, transcode).says(
            "contentFeatures.dlna.org"@,
            dlna_features(transcode),
        ),
        preflight_head().says(
            "access-control-allow-headers"@,
            "Range, Content-Type, Origin, Accept"@,
        ),
        preflight_head().says("access-control-max-age"@, "86400"@),
        preflight_head().says("content-length"@, "0"@),
        live_head(container).says("connection"@, "close"@),
        subtitle_answer(body).says("cache-control"@, "no-store"@),
{
    let origin = "access-control-allow-origin"@;
    let expose = "access-control-expose-headers"@;
    let exposed = "Content-Length, Content-Range, Accept-Ranges"@;
    said_stays_said(head, origin, "*"@);
    said_stays_said(head.with(origin, "*"@), expose, exposed);
    let typed = head.shared().with("content-type"@, content_type);
    said_stays_said(typed, "transferMode.dlna.org"@, "Streaming"@);
    let moded = typed.with("transferMode.dlna.org"@, "Streaming"@);
    said_stays_said(moded, "contentFeatures.dlna.org"@, dlna_features(transcode));
    let a = HeadView::of(204).shared().with("access-control-allow-methods"@, "GET, HEAD, OPTIONS"@);
    let allowed = "Range, Content-Type, Origin, Accept"@;
    said_stays_said(a, "access-control-allow-headers"@, allowed);
    let b = a.with("access-control-allow-headers"@, allowed);
    said_stays_said(b, "access-control-max-age"@, "86400"@);
    let c = b.with("access-control-max-age"@, "86400"@);
    said_stays_said(c, "content-length"@, "0"@);
    let d = HeadView::of(200).with("accept-ranges"@, "none"@);
    said_stays_said(d, "connection"@, "close"@);
    said_stays_said(d.with("connection"@, "close"@), "content-length"@, "999999999999"@);
    let e = HeadView::of(200).with("content-type"@, "text/vtt; charset=utf-8"@);
    said_stays_said(e, "cache-control"@, "no-store"@);
    let g = e.with("cache-control"@, "no-store"@);
    let length = decimal(encode_utf8(body).len());
    said_stays_said(g, "content-length"@, length);
    let h = g.with("content-length"@, length);
    said_stays_said(h, origin, "*"@);
    said_stays_said(h.with(origin, "*"@), expose, exposed);
}

/// The bit rate is the one that is set, where it is set as a number, and six
/// thousand else; it can be doubled up to half of what can be counted.
pub proof fn bitrate_is_the_one_set(text: Seq<char>, n: nat)
    ensures
        unsigned(text) == Some(n) && n <= u64::MAX ==> bitrate_of(Some(text)) == n,
        unsigned(text) is None ==> bitrate_of(Some(text)) == 6000,
        unsigned(text) == Some(n) && n > u64::MAX ==> bitrate_of(Some(text)) == 6000,
        bitrate_of(None) == 6000,
        bitrate_text(None) == "6000"@ && bitrate_text(Some(text)) == text,
        unsigned(text) == Some(n) && n <= u64::MAX ==> (bitrate_fits(Some(text)) <==> n <= u64::MAX
            / 2),
        bitrate_fits(None),
{
}

/// The first track of a number is found wherever it stands, and there is only
/// one first track; a number that no track has leads to none.
pub proof fn first_track_is_found(tracks: Seq<TrackView>, id: nat, i: int, j: int)
    requires
        0 <= i < tracks.len(),
        tracks[i].id == id,
        forall|k: int| 0 <= k < i ==> (#[trigger] tracks[k]).id != id,
    ensures
        is_first_track(tracks, id, i),
        is_first_track(tracks, id, j) ==> i == j,
        !no_track(tracks, id),
{
    if is_first_track(tracks, id, j) && j < i {
        assert(tracks[j].id != id);
    }
}

/// What is taken off a number leaves the rest, or nothing where it is more.
pub proof fn nothing_is_left_below_zero(a: u64, b: nat)
    ensures
        a >= b ==> less(a, b) + b == a,
        a <= b ==> less(a, b) == 0,
{
}

} // verus!
