//! What is said to AirPlay receivers, and what they answer.
use plist::Value;
use vstd::prelude::*;

use crate::number::{decimal, show};
use crate::property_list::{harmful, is_harmful};
use crate::seconds::Seconds;
use crate::text::{begins, ends};

verus! {

/// The port of a receiver that announces none.
pub const AIRPLAY_PORT: u16 = 7000;

/// The port under which a receiver is reached.
pub open spec fn reached_on(announced: u16) -> u16 {
    if announced == 0 {
        AIRPLAY_PORT
    } else {
        announced
    }
}

/// The port under which a receiver is reached.
pub fn port_of(announced: u16) -> (r: u16)
    ensures
        r == reached_on(announced),
{
    if announced == 0 {
        AIRPLAY_PORT
    } else {
        announced
    }
}

/// The address of what a receiver is asked for.
pub open spec fn endpoint_of(ip: Seq<char>, port: u16, what: Seq<char>) -> Seq<char> {
    "http://"@ + ip + ":"@ + decimal(port as nat) + "/"@ + what
}

fn endpoint(ip: &str, port: u16, what: &str) -> (r: String)
    ensures
        r@ == endpoint_of(ip@, port, what@),
{
    let mut url = "http://".to_owned();
    url.append(ip);
    url.append(":");
    url.append(show(port as u64).as_str());
    url.append("/");
    url.append(what);
    url
}

/// Where a stream is announced.
pub open spec fn play_at(ip: Seq<char>, port: u16) -> Seq<char> {
    endpoint_of(ip, port, "play"@)
}

/// Where playback is ended.
pub open spec fn stop_at(ip: Seq<char>, port: u16) -> Seq<char> {
    endpoint_of(ip, port, "stop"@)
}

/// Where playback is paused.
pub open spec fn pause_at(ip: Seq<char>, port: u16) -> Seq<char> {
    endpoint_of(ip, port, "rate?value=0.000000"@)
}

/// Where playback is resumed.
pub open spec fn resume_at(ip: Seq<char>, port: u16) -> Seq<char> {
    endpoint_of(ip, port, "rate?value=1.000000"@)
}

/// Where playback is moved to a time.
pub open spec fn seek_at(ip: Seq<char>, port: u16, shown: Seq<char>) -> Seq<char> {
    endpoint_of(ip, port, "scrub?position="@ + shown)
}

/// Where playback is asked about.
pub open spec fn info_at(ip: Seq<char>, port: u16) -> Seq<char> {
    endpoint_of(ip, port, "playback-info"@)
}

/// Where a stream is announced.
pub fn play_url(ip: &str, port: u16) -> (r: String)
    ensures
        r@ == play_at(ip@, port),
{
    endpoint(ip, port, "play")
}

/// Where playback is ended.
pub fn stop_url(ip: &str, port: u16) -> (r: String)
    ensures
        r@ == stop_at(ip@, port),
{
    endpoint(ip, port, "stop")
}

/// Where playback is paused.
pub fn pause_url(ip: &str, port: u16) -> (r: String)
    ensures
        r@ == pause_at(ip@, port),
{
    endpoint(ip, port, "rate?value=0.000000")
}

/// Where playback is resumed.
pub fn resume_url(ip: &str, port: u16) -> (r: String)
    ensures
        r@ == resume_at(ip@, port),
{
    endpoint(ip, port, "rate?value=1.000000")
}

/// Where playback is moved to a time, shown to three places.
pub fn seek_url(ip: &str, port: u16, shown: &str) -> (r: String)
    ensures
        r@ == seek_at(ip@, port, shown@),
{
    let mut what = "scrub?position=".to_owned();
    what.append(shown);
    endpoint(ip, port, what.as_str())
}

/// Where playback is asked about.
pub fn info_url(ip: &str, port: u16) -> (r: String)
    ensures
        r@ == info_at(ip@, port),
{
    endpoint(ip, port, "playback-info")
}

/// Why a stream that was announced is not played, from the status of the answer.
pub open spec fn play_refused(status: u16) -> Option<Seq<char>> {
    if 200 <= status <= 299 {
        None
    } else {
        Some("AirPlay receiver rejected the stream (HTTP "@ + decimal(status as nat) + ")"@)
    }
}

/// What comes of announcing a stream, from the status of the answer.
pub fn play_outcome(status: u16) -> (r: Result<(), String>)
    ensures
        match r {
            Ok(_) => play_refused(status) is None,
            Err(message) => play_refused(status) == Some(message@),
        },
{
    if 200 <= status && status <= 299 {
        Ok(())
    } else {
        let mut message = "AirPlay receiver rejected the stream (HTTP ".to_owned();
        message.append(show(status as u64).as_str());
        message.append(")");
        Err(message)
    }
}

// ---------------------------------------------------------------------------
// Property lists

/// What a property list holds, as far as it matters here.
pub enum Plist {
    Real(u64),
    Integer(int),
    Text(Seq<char>),
    Dictionary(Map<Seq<char>, Plist>),
    Other,
}

#[verifier::external_type_specification]
#[verifier::external_body]
pub struct ExPlist(plist::Value);

/// What a `plist::Value` holds: a real number by the bits of its binary64
/// representation.
pub uninterp spec fn held(value: plist::Value) -> Plist;

/// The property list that some bytes hold.
pub uninterp spec fn plist_in(bytes: Seq<u8>) -> Option<Plist>;

/// `plist::Value::from_reader` on a cursor over the bytes: the outcome depends
/// on them alone. A date in XML that lies after the year 9999 once it is
/// brought to Greenwich makes it panic, and dropping a value takes as many
/// calls in one another as there are collections in one another, for which the
/// stack may be too small; both are left out. Of a binary list in which many
/// objects share their parts, which takes long and much memory to unfold,
/// nothing is said but the outcome.
#[verifier::external_body]
pub(crate) fn read_plist(bytes: &[u8]) -> (r: Option<Value>)
    requires
        !harmful(bytes@),
    ensures
        match r {
            Some(value) => plist_in(bytes@) == Some(held(value)),
            None => plist_in(bytes@) is None,
        },
{
    Value::from_reader(std::io::Cursor::new(bytes)).ok()
}

/// Whether `plist::Value::as_dictionary` finds a dictionary.
#[verifier::external_body]
pub(crate) fn is_dictionary(value: &Value) -> (r: bool)
    ensures
        r == (held(*value) is Dictionary),
{
    value.as_dictionary().is_some()
}

/// `plist::Dictionary::get`: the entry under a key, if there is one.
#[verifier::external_body]
pub(crate) fn entry<'a>(value: &'a Value, key: &str) -> (r: Option<&'a Value>)
    requires
        held(*value) is Dictionary,
    ensures
        match r {
            Some(found) => held(*value)->Dictionary_0.contains_key(key@)
                && held(*value)->Dictionary_0[key@] == held(*found),
            None => !held(*value)->Dictionary_0.contains_key(key@),
        },
{
    value.as_dictionary().and_then(|entries| entries.get(key))
}

/// `plist::Value::as_real`: the bits of a real number.
#[verifier::external_body]
pub(crate) fn real_bits(value: &Value) -> (r: Option<u64>)
    ensures
        match r {
            Some(bits) => held(*value) == Plist::Real(bits),
            None => !(held(*value) is Real),
        },
{
    value.as_real().map(|number| number.to_bits())
}

/// `plist::Value::as_signed_integer`: an integer that fits 64 bits with a sign.
#[verifier::external_body]
pub(crate) fn signed_integer(value: &Value) -> (r: Option<i64>)
    ensures
        match r {
            Some(n) => held(*value) == Plist::Integer(n as int),
            None => held(*value) matches Plist::Integer(n) ==> !(i64::MIN <= n <= i64::MAX),
        },
{
    value.as_signed_integer()
}

/// `plist::Value::String`: a text as a property.
#[verifier::external_body]
pub(crate) fn text_value(text: &str) -> (r: Value)
    ensures
        held(r) == Plist::Text(text@),
{
    Value::String(text.to_string())
}

/// A property under its key.
pub type Field = (Seq<char>, Plist);

/// What some properties are, each under its key.
pub open spec fn fields_of(fields: Seq<(String, Value)>) -> Seq<Field> {
    Seq::new(fields.len(), |i: int| (fields[i].0@, held(fields[i].1)))
}

/// The dictionary of some properties.
pub open spec fn entries_of(fields: Seq<Field>) -> Map<Seq<char>, Plist>
    decreases fields.len(),
{
    if fields.len() == 0 {
        Map::empty()
    } else {
        entries_of(fields.drop_last()).insert(fields.last().0, fields.last().1)
    }
}

/// The bytes that `plist::to_writer_binary` writes for the dictionary of some
/// texts and real numbers, in this order.
pub uninterp spec fn plist_written(fields: Seq<Field>) -> Seq<u8>;

/// `plist::to_writer_binary` on the dictionary of some texts and real numbers:
/// the bytes depend on the properties and their order alone, writing them to a
/// vector does not fail, and `plist::Value::from_reader` reads the same
/// dictionary from them.
#[verifier::external_body]
pub(crate) fn write_plist(fields: Vec<(String, Value)>) -> (r: Vec<u8>)
    requires
        forall|i: int|
            0 <= i < fields@.len() ==> (held((#[trigger] fields@[i]).1) is Text || held(
                fields@[i].1,
            ) is Real),
    ensures
        r@ == plist_written(fields_of(fields@)),
        plist_in(r@) == Some(Plist::Dictionary(entries_of(fields_of(fields@)))),
{
    let dictionary: plist::Dictionary = fields.into_iter().collect();
    let mut bytes = Vec::new();
    let _ = plist::to_writer_binary(&mut bytes, &Value::Dictionary(dictionary));
    bytes
}

/// The usual notation of a random UUID: 32 hexadecimal digits in five groups,
/// the version among them.
pub open spec fn random_uuid(text: Seq<char>) -> bool {
    &&& text.len() == 36
    &&& forall|i: int|
        0 <= i < 36 ==> if i == 8 || i == 13 || i == 18 || i == 23 {
            #[trigger] text[i] == '-'
        } else {
            '0' <= text[i] <= '9' || 'a' <= text[i] <= 'f'
        }
    &&& text[14] == '4'
}

/// `uuid::Uuid::new_v4`, shown with `to_string`: a random UUID in its usual
/// notation, a new one on each call.
#[verifier::external_body]
pub(crate) fn new_session() -> (r: String)
    ensures
        random_uuid(r@),
{
    uuid::Uuid::new_v4().to_string()
}

/// What a request to play says: what is played, from where on, and in which
/// session.
pub open spec fn play_fields(url: Seq<char>, position: Plist, session: Seq<char>) -> Seq<Field> {
    seq![
        ("Content-Location"@, Plist::Text(url)),
        ("Start-Position"@, position),
        ("X-Apple-Session-ID"@, Plist::Text(session)),
    ]
}

/// The body of a request to play `url` from `position` on, a real number of
/// seconds.
pub fn play_body(url: &str, position: Value, session: &str) -> (r: Vec<u8>)
    requires
        held(position) is Real,
    ensures
        r@ == plist_written(play_fields(url@, held(position), session@)),
        plist_in(r@) == Some(
            Plist::Dictionary(entries_of(play_fields(url@, held(position), session@))),
        ),
{
    let ghost said = play_fields(url@, held(position), session@);
    let fields = vec![
        ("Content-Location".to_owned(), text_value(url)),
        ("Start-Position".to_owned(), position),
        ("X-Apple-Session-ID".to_owned(), text_value(session)),
    ];
    assert(fields_of(fields@) =~= said);
    write_plist(fields)
}

/// The body of a request to play `url` from `position` on, in a session of its
/// own; nothing where the position is no real number.
pub fn play_request(url: &str, position: Value) -> (r: Option<Vec<u8>>)
    ensures
        r is Some == (held(position) is Real),
        r matches Some(body) ==> exists|session: Seq<char>|
            random_uuid(session) && body@ == plist_written(
                #[trigger] play_fields(url@, held(position), session),
            ) && plist_in(body@) == Some(
                Plist::Dictionary(entries_of(play_fields(url@, held(position), session))),
            ),
{
    if real_bits(&position).is_none() {
        return None;
    }
    let session = new_session();
    Some(play_body(url, position, session.as_str()))
}

/// A receiver that reads a request to play finds the address, the position and
/// the session under their keys, and nothing else.
pub proof fn request_says_what_to_play(url: Seq<char>, position: Plist, session: Seq<char>)
    ensures
        ({
            let entries = entries_of(play_fields(url, position, session));
            &&& entries.dom() == set!["Content-Location"@, "Start-Position"@, "X-Apple-Session-ID"@]
            &&& entries["Content-Location"@] == Plist::Text(url)
            &&& entries["Start-Position"@] == position
            &&& entries["X-Apple-Session-ID"@] == Plist::Text(session)
        }),
{
    reveal_strlit("Content-Location");
    reveal_strlit("Start-Position");
    reveal_strlit("X-Apple-Session-ID");
    reveal_with_fuel(entries_of, 4);
    let fields = play_fields(url, position, session);
    assert("Content-Location"@.len() == 16 && "Start-Position"@.len() == 14
        && "X-Apple-Session-ID"@.len() == 18);
    assert(fields.drop_last() =~= seq![fields[0], fields[1]]);
    assert(fields.drop_last().drop_last() =~= seq![fields[0]]);
    assert(fields.drop_last().drop_last().drop_last() =~= seq![]);
    assert(entries_of(fields).dom() =~= set![
        "Content-Location"@,
        "Start-Position"@,
        "X-Apple-Session-ID"@,
    ]);
}

/// A number that a receiver reports.
#[derive(Debug, Clone, Copy, PartialEq, Eq, Structural)]
pub enum Reading {
    Real(Seconds),
    Whole(i64),
}

impl Reading {
    /// The number is greater than zero.
    pub open spec fn positive(self) -> bool {
        match self {
            Reading::Real(number) => number.positive(),
            Reading::Whole(n) => n > 0,
        }
    }

    /// Whether the number is greater than zero.
    pub fn is_positive(self) -> (r: bool)
        ensures
            r == self.positive(),
    {
        match self {
            Reading::Real(number) => number.is_positive(),
            Reading::Whole(n) => n > 0,
        }
    }
}

#[derive(Debug, Clone, Copy, PartialEq, Eq, Structural)]
pub struct PlaybackInfo {
    pub position: Reading,
    pub duration: Reading,
    pub playing: bool,
}

/// The number under a key; 0 where there is none.
pub open spec fn reading(entries: Map<Seq<char>, Plist>, key: Seq<char>) -> Reading {
    if entries.contains_key(key) {
        match entries[key] {
            Plist::Real(bits) => Reading::Real(Seconds { bits }),
            Plist::Integer(n) => if i64::MIN <= n <= i64::MAX {
                Reading::Whole(n as i64)
            } else {
                Reading::Real(Seconds { bits: 0 })
            },
            _ => Reading::Real(Seconds { bits: 0 }),
        }
    } else {
        Reading::Real(Seconds { bits: 0 })
    }
}

/// What an answer says of the playback: nothing where it is no dictionary or
/// reports an error.
pub open spec fn info_in(answer: Option<Plist>) -> Option<PlaybackInfo> {
    match answer {
        Some(Plist::Dictionary(entries)) => if entries.contains_key("error"@) {
            None
        } else {
            Some(
                PlaybackInfo {
                    position: reading(entries, "position"@),
                    duration: reading(entries, "duration"@),
                    playing: reading(entries, "rate"@).positive(),
                },
            )
        },
        _ => None,
    }
}

fn number_under(value: &Value, key: &str) -> (r: Reading)
    requires
        held(*value) is Dictionary,
    ensures
        r == reading(held(*value)->Dictionary_0, key@),
{
    match entry(value, key) {
        Some(found) => match real_bits(found) {
            Some(bits) => Reading::Real(Seconds { bits }),
            None => match signed_integer(found) {
                Some(n) => Reading::Whole(n),
                None => Reading::Real(Seconds::zero()),
            },
        },
        None => Reading::Real(Seconds::zero()),
    }
}

/// What a property list says of the playback.
pub fn info_of(value: &Value) -> (r: Option<PlaybackInfo>)
    ensures
        r == info_in(Some(held(*value))),
{
    if !is_dictionary(value) || entry(value, "error").is_some() {
        return None;
    }
    Some(
        PlaybackInfo {
            position: number_under(value, "position"),
            duration: number_under(value, "duration"),
            playing: number_under(value, "rate").is_positive(),
        },
    )
}

/// What an answer, by its status and body, says of the playback; nothing of a
/// body that cannot be read without harm.
pub open spec fn playback_in(status: u16, body: Seq<u8>) -> Option<PlaybackInfo> {
    if 200 <= status <= 299 && !harmful(body) {
        info_in(plist_in(body))
    } else {
        None
    }
}

/// What an answer, by its status and body, says of the playback; nothing of a
/// body that cannot be read without harm.
pub fn playback_info(status: u16, body: &[u8]) -> (r: Option<PlaybackInfo>)
    ensures
        r == playback_in(status, body@),
{
    if status < 200 || status > 299 || is_harmful(body) {
        return None;
    }
    match read_plist(body) {
        Some(value) => info_of(&value),
        None => None,
    }
}

// ---------------------------------------------------------------------------
// Laws

/// A receiver is reached on the port that it announces, and on the usual one
/// where it announces none.
pub proof fn announced_ports_are_used(announced: u16)
    ensures
        announced != 0 ==> reached_on(announced) == announced,
        reached_on(0) == 7000,
{
}

proof fn endpoints_lead_to_the_receiver(ip: Seq<char>, port: u16, what: Seq<char>)
    ensures
        begins(endpoint_of(ip, port, what), "http://"@ + ip + ":"@ + decimal(port as nat) + "/"@),
        ends(endpoint_of(ip, port, what), what),
{
    let head = "http://"@ + ip + ":"@ + decimal(port as nat) + "/"@;
    let url = endpoint_of(ip, port, what);
    assert(url.take(head.len() as int) =~= head);
    assert(url.skip(url.len() - what.len()) =~= what);
}

/// Every request goes to the receiver, under its own name: a pause sets the
/// rate to nothing, a resume to one, and a seek names the time.
pub proof fn requests_go_to_the_receiver(ip: Seq<char>, port: u16, shown: Seq<char>)
    ensures
        ({
            let head = "http://"@ + ip + ":"@ + decimal(port as nat) + "/"@;
            &&& begins(play_at(ip, port), head) && begins(stop_at(ip, port), head)
            &&& begins(pause_at(ip, port), head) && begins(resume_at(ip, port), head)
            &&& begins(seek_at(ip, port, shown), head) && begins(info_at(ip, port), head)
            &&& ends(play_at(ip, port), "play"@)
            &&& ends(stop_at(ip, port), "stop"@)
            &&& ends(pause_at(ip, port), "rate?value=0.000000"@)
            &&& ends(resume_at(ip, port), "rate?value=1.000000"@)
            &&& ends(seek_at(ip, port, shown), "scrub?position="@ + shown)
            &&& ends(info_at(ip, port), "playback-info"@)
        }),
{
    endpoints_lead_to_the_receiver(ip, port, "play"@);
    endpoints_lead_to_the_receiver(ip, port, "stop"@);
    endpoints_lead_to_the_receiver(ip, port, "rate?value=0.000000"@);
    endpoints_lead_to_the_receiver(ip, port, "rate?value=1.000000"@);
    endpoints_lead_to_the_receiver(ip, port, "scrub?position="@ + shown);
    endpoints_lead_to_the_receiver(ip, port, "playback-info"@);
}

/// An answer says how far playback is, how long it takes, and that it plays
/// where its rate is above zero; one that reports an error, or is no
/// dictionary, says nothing.
pub proof fn answers_are_read(
    entries: Map<Seq<char>, Plist>,
    position: u64,
    duration: u64,
    rate: u64,
)
    ensures
        entries.contains_key("error"@) ==> info_in(Some(Plist::Dictionary(entries))) is None,
        !entries.contains_key("error"@) && entries.contains_key("position"@)
            && entries["position"@] == Plist::Real(position) ==> (info_in(
            Some(Plist::Dictionary(entries)),
        ) matches Some(info) && info.position == Reading::Real(Seconds { bits: position })),
        !entries.contains_key("error"@) && entries.contains_key("duration"@)
            && entries["duration"@] == Plist::Real(duration) ==> (info_in(
            Some(Plist::Dictionary(entries)),
        ) matches Some(info) && info.duration == Reading::Real(Seconds { bits: duration })),
        !entries.contains_key("error"@) && entries.contains_key("rate"@) && entries["rate"@]
            == Plist::Real(rate) ==> (info_in(Some(Plist::Dictionary(entries))) matches Some(info)
            && info.playing == (Seconds { bits: rate }).positive()),
        !entries.contains_key("error"@) && !entries.contains_key("rate"@) ==> (info_in(
            Some(Plist::Dictionary(entries)),
        ) matches Some(info) && !info.playing),
        info_in(None) is None,
        info_in(Some(Plist::Other)) is None,
{
}

/// A whole number counts as well as one with a fraction.
pub proof fn whole_numbers_are_read(entries: Map<Seq<char>, Plist>, key: Seq<char>, n: i64)
    requires
        entries.contains_key(key),
        entries[key] == Plist::Integer(n as int),
    ensures
        reading(entries, key) == Reading::Whole(n),
        reading(entries, key).positive() <==> n > 0,
{
}

/// An answer with a status of the two hundreds means that the stream is played,
/// and only such a one; any other is reported with its number.
pub proof fn refusals_tell_the_status(status: u16)
    ensures
        play_refused(status) is None <==> status / 100 == 2,
        play_refused(status) matches Some(message) ==> message
            == "AirPlay receiver rejected the stream (HTTP "@ + decimal(status as nat) + ")"@,
{
}

/// Playback is read from answers with a status of the two hundreds alone, and
/// from none that would do harm; from those it is read as they say.
pub proof fn only_good_answers_are_read(status: u16, body: Seq<u8>)
    ensures
        status / 100 != 2 ==> playback_in(status, body) is None,
        harmful(body) ==> playback_in(status, body) is None,
        status / 100 == 2 && !harmful(body) ==> playback_in(status, body) == info_in(
            plist_in(body),
        ),
{
}

} // verus!
