//! Finding DLNA renderers and what is said to them.
use quick_xml::events::Event;
use vstd::prelude::*;

use crate::number::{
    decimal, decimal_denotes, digits_number, padded, parse_i32, show, show_padded, show_signed,
    signed, signed_decimal, within,
};
use crate::protocol::{opt, Device, DeviceView};
use crate::retiming::padded_denotes;
use crate::settings::insert_sorted;
use crate::state::{clamp_percent, percent};
use crate::text::{
    all_digits, ascending, ascii_lower, begins, contains, cut, cut_is_at_the_first,
    cut_is_where_it_is_found, ends, find_is_first, has, is_digit, is_empty, occurs_at, parts_of,
    pieces, pieces_are_parted, same, split, split_once, split_text, starts_with,
    to_ascii_lowercase, trim, trimmed, views,
};
use crate::util::{escaped, escaped_is_plain, is_markup, xml_escape};
use crate::web::{join_url, parse_url, url_joined, url_parts, UrlParts, UrlView};

verus! {

/// The address that a search by multicast goes to.
pub const SSDP_ADDR: &'static str = "239.255.255.250";

pub const SSDP_PORT: u16 = 1900;

/// The kind of device that is searched for.
pub const MEDIARENDERER: &'static str = "urn:schemas-upnp-org:device:MediaRenderer:1";

/// The ports on which a renderer's description is looked for.
pub const PROBE_PORTS: [u16; 11] = [
    9197,
    7676,
    8080,
    1400,
    3000,
    8060,
    55000,
    49152,
    49153,
    2869,
    1054,
];

/// The paths under which a renderer's description is looked for.
pub const PROBE_PATHS: [&'static str; 8] = [
    "/dmr",
    "/dmr/",
    "/description.xml",
    "/MediaRenderer/desc.xml",
    "/upnp/desc.xml",
    "/dd.xml",
    "/device.xml",
    "/xml/device_description.xml",
];

/// A description longer than this many bytes is not read.
pub const MAX_DESCRIPTION_BYTES: u64 = 1_048_576;

// ---------------------------------------------------------------------------
// Searching

/// What is searched for: renderers, and then anything.
pub open spec fn targets() -> Seq<Seq<char>> {
    seq![MEDIARENDERER@, "ssdp:all"@]
}

/// What is searched for: renderers, and then anything.
pub fn search_targets() -> (r: Vec<String>)
    ensures
        views(r@) == targets(),
{
    let r = vec![MEDIARENDERER.to_owned(), "ssdp:all".to_owned()];
    assert(views(r@) =~= seq![MEDIARENDERER@, "ssdp:all"@]);
    r
}

/// A search for `st`.
pub open spec fn search_for(st: Seq<char>) -> Seq<char> {
    "M-SEARCH * HTTP/1.1\r\nHOST: "@ + SSDP_ADDR@ + ":"@ + decimal(SSDP_PORT as nat)
        + "\r\nMAN: \"ssdp:discover\"\r\nMX: 2\r\nST: "@ + st + "\r\n\r\n"@
}

/// A search for `st`.
pub fn msearch(st: &str) -> (r: String)
    ensures
        r@ == search_for(st@),
{
    let mut out = "M-SEARCH * HTTP/1.1\r\nHOST: ".to_owned();
    out.append(SSDP_ADDR);
    out.append(":");
    out.append(show(SSDP_PORT as u64).as_str());
    out.append("\r\nMAN: \"ssdp:discover\"\r\nMX: 2\r\nST: ");
    out.append(st);
    out.append("\r\n\r\n");
    out
}

/// The location that a line of a reply announces.
pub open spec fn location_of(line: Seq<char>) -> Option<Seq<char>> {
    if begins(ascii_lower(line), "location:"@) {
        match cut(line, ":"@) {
            Some((_, value)) => if trimmed(value).len() > 0 {
                Some(trimmed(value))
            } else {
                None
            },
            None => None,
        }
    } else {
        None
    }
}

/// The locations that the lines of a reply announce.
pub open spec fn locations_of(lines: Seq<Seq<char>>) -> Set<Seq<char>>
    decreases lines.len(),
{
    if lines.len() == 0 {
        Set::empty()
    } else {
        match location_of(lines.last()) {
            Some(location) => locations_of(lines.drop_last()).insert(location),
            None => locations_of(lines.drop_last()),
        }
    }
}

/// The locations that a reply to a search announces.
pub open spec fn locations_in(reply: Seq<char>) -> Set<Seq<char>> {
    locations_of(parts_of(reply, "\r\n"@))
}

fn announced(line: &str) -> (r: Option<String>)
    ensures
        match r {
            Some(location) => location_of(line@) == Some(location@),
            None => location_of(line@) is None,
        },
{
    if !starts_with(to_ascii_lowercase(line).as_str(), "location:") {
        return None;
    }
    match split_once(line, ":") {
        Some((_, value)) => {
            let location = trim(value.as_str());
            if is_empty(location.as_str()) {
                None
            } else {
                Some(location)
            }
        },
        None => None,
    }
}

/// Adds the locations that a reply announces to those known, in ascending
/// order and each once.
pub fn add_locations(found: &mut Vec<String>, reply: &str)
    requires
        ascending(views(old(found)@)),
    ensures
        ascending(views(final(found)@)),
        views(final(found)@).to_set() == views(old(found)@).to_set().union(locations_in(reply@)),
{
    proof {
        reveal_strlit("\r\n");
    }
    let lines = split_text(reply, "\r\n");
    let ghost before = views(found@).to_set();
    assert(before.union(locations_of(views(lines@).take(0))) =~= before);
    for i in 0..lines.len()
        invariant
            ascending(views(found@)),
            views(found@).to_set() == before.union(locations_of(views(lines@).take(i as int))),
    {
        assert(views(lines@).take(i + 1).drop_last() =~= views(lines@).take(i as int));
        if let Some(location) = announced(lines[i].as_str()) {
            let ghost known = locations_of(views(lines@).take(i as int));
            insert_sorted(found, location.as_str());
            assert(before.union(known).insert(location@) =~= before.union(known.insert(location@)));
        }
    }
    assert(views(lines@).take(lines@.len() as int) =~= views(lines@));
}

/// The host of an address.
pub open spec fn host_in(url: Seq<char>) -> Option<Seq<char>> {
    match url_parts(url) {
        Some(parts) => parts.host,
        None => None,
    }
}

/// The host of an address.
pub fn host_of(url: &str) -> (r: Option<String>)
    ensures
        opt(r) == host_in(url@),
{
    match parse_url(url) {
        Some(parts) => parts.host,
        None => None,
    }
}

/// The locations among those found that lie on `ip`.
pub open spec fn on_host(found: Seq<Seq<char>>, ip: Seq<char>) -> Seq<Seq<char>>
    decreases found.len(),
{
    if found.len() == 0 {
        Seq::empty()
    } else if host_in(found.last()) == Some(ip) {
        on_host(found.drop_last(), ip).push(found.last())
    } else {
        on_host(found.drop_last(), ip)
    }
}

/// The locations among those found that lie on `ip`.
pub fn locations_on(found: &Vec<String>, ip: &str) -> (r: Vec<String>)
    ensures
        views(r@) == on_host(views(found@), ip@),
{
    let mut out: Vec<String> = Vec::new();
    assert(views(out@) =~= on_host(views(found@).take(0), ip@));
    for i in 0..found.len()
        invariant
            views(out@) == on_host(views(found@).take(i as int), ip@),
    {
        let ghost before = views(out@);
        assert(views(found@).take(i + 1).drop_last() =~= views(found@).take(i as int));
        if let Some(host) = host_of(found[i].as_str()) {
            if same(host.as_str(), ip) {
                out.push(found[i].clone());
                assert(views(out@) =~= before.push(found@[i as int]@));
            }
        }
    }
    assert(views(found@).take(found@.len() as int) =~= views(found@));
    out
}

/// Whether a description of this announced length is read.
pub open spec fn is_read(length: Option<u64>) -> bool {
    !(length matches Some(n) && n > MAX_DESCRIPTION_BYTES)
}

/// Whether a description of this announced length is read.
pub fn description_is_read(length: Option<u64>) -> (r: bool)
    ensures
        r == is_read(length),
{
    match length {
        Some(n) => n <= MAX_DESCRIPTION_BYTES,
        None => true,
    }
}

// ---------------------------------------------------------------------------
// Device descriptions

/// What an XML document consists of.
#[derive(Debug)]
pub enum XmlEvent {
    /// A start tag, with its name.
    Start(String),
    /// Text between tags.
    Text(String),
    /// A reference, without its `&` and `;`.
    Reference(String),
    /// An end tag, with its name.
    End(String),
    /// A declaration of XML or of a document type.
    Prolog,
    Other,
}

/// What an event holds.
pub enum XmlView {
    Start(Seq<char>),
    Text(Seq<char>),
    Reference(Seq<char>),
    End(Seq<char>),
    Prolog,
    Other,
}

impl View for XmlEvent {
    type V = XmlView;

    open spec fn view(&self) -> XmlView {
        match *self {
            XmlEvent::Start(name) => XmlView::Start(name@),
            XmlEvent::Text(text) => XmlView::Text(text@),
            XmlEvent::Reference(name) => XmlView::Reference(name@),
            XmlEvent::End(name) => XmlView::End(name@),
            XmlEvent::Prolog => XmlView::Prolog,
            XmlEvent::Other => XmlView::Other,
        }
    }
}

/// What some events hold.
pub open spec fn xml_views(events: Seq<XmlEvent>) -> Seq<XmlView> {
    Seq::new(events.len(), |i: int| events[i]@)
}

#[verifier::external_type_specification]
#[verifier::external_body]
#[verifier::reject_recursive_types(R)]
pub struct ExReader<R>(quick_xml::Reader<R>);

/// The events of a document, up to its end or to the first error, with text
/// trimmed and still escaped.
pub uninterp spec fn xml_events(xml: Seq<char>) -> Seq<XmlView>;

/// The events that a reader has still to hand out.
pub uninterp spec fn unread(reader: quick_xml::Reader<&[u8]>) -> Seq<XmlView>;

/// `quick_xml::Reader::from_str`, set to trim text: the events depend on the
/// document alone.
#[verifier::external_body]
pub(crate) fn open_xml<'a>(xml: &'a str) -> (r: quick_xml::Reader<&'a [u8]>)
    ensures
        unread(r) == xml_events(xml@),
{
    let mut reader = quick_xml::Reader::from_str(xml);
    reader.config_mut().trim_text(true);
    reader
}

/// `quick_xml::Reader::read_event_into` hands out the events one by one;
/// `None` stands for the end of the document and for an error.
#[verifier::external_body]
pub(crate) fn next_event(reader: &mut quick_xml::Reader<&[u8]>) -> (r: Option<XmlEvent>)
    ensures
        match r {
            Some(event) => unread(*old(reader)).len() > 0 && event@ == unread(*old(reader))[0]
                && unread(*final(reader)) == unread(*old(reader)).skip(1),
            None => unread(*old(reader)).len() == 0,
        },
{
    match reader.read_event_into(&mut Vec::new()) {
        Ok(Event::Start(e)) => Some(XmlEvent::Start(e.name().as_ref().to_string())),
        Ok(Event::Text(e)) => Some(XmlEvent::Text(e.into_inner().into_owned())),
        Ok(Event::GeneralRef(e)) => Some(XmlEvent::Reference(e.into_inner().into_owned())),
        Ok(Event::End(e)) => Some(XmlEvent::End(e.name().as_ref().to_string())),
        Ok(Event::Decl(_)) => Some(XmlEvent::Prolog),
        Ok(Event::DocType(_)) => Some(XmlEvent::Prolog),
        Ok(Event::Eof) => None,
        Ok(_) => Some(XmlEvent::Other),
        Err(_) => None,
    }
}

/// What `quick_xml::escape::unescape` makes of escaped text; `None` where an
/// escape is not known.
pub uninterp spec fn unescaped(raw: Seq<char>) -> Option<Seq<char>>;

/// `quick_xml::escape::unescape` depends on the text alone; text without `&`
/// stays as it is.
#[verifier::external_body]
pub(crate) fn unescape(raw: &str) -> (r: Option<String>)
    ensures
        match r {
            Some(text) => unescaped(raw@) == Some(text@) && (!raw@.contains('&') ==> text@ == raw@),
            None => unescaped(raw@) is None && raw@.contains('&'),
        },
{
    quick_xml::escape::unescape(raw).ok().map(|text| text.into_owned())
}

/// An event with its text unescaped, as far as it can be.
pub open spec fn plain_event(event: XmlView) -> XmlView {
    match event {
        XmlView::Text(raw) => XmlView::Text(
            match unescaped(raw) {
                Some(text) => text,
                None => raw,
            },
        ),
        other => other,
    }
}

/// The events of a document with their text unescaped.
pub open spec fn plain_events(xml: Seq<char>) -> Seq<XmlView> {
    Seq::new(xml_events(xml).len(), |i: int| plain_event(xml_events(xml)[i]))
}

/// The events of a document with their text unescaped.
pub fn read_events(xml: &str) -> (r: Vec<XmlEvent>)
    ensures
        xml_views(r@) == plain_events(xml@),
{
    let mut reader = open_xml(xml);
    let mut out: Vec<XmlEvent> = Vec::new();
    let ghost all = xml_events(xml@);
    assert(all.skip(0) =~= all);
    loop
        invariant_except_break
            all == xml_events(xml@),
            out@.len() <= all.len(),
            unread(reader) == all.skip(out@.len() as int),
            forall|j: int| 0 <= j < out@.len() ==> #[trigger] out@[j]@ == plain_event(all[j]),
        ensures
            out@.len() == all.len(),
            forall|j: int| 0 <= j < out@.len() ==> #[trigger] out@[j]@ == plain_event(all[j]),
        decreases unread(reader).len(),
    {
        match next_event(&mut reader) {
            None => {
                break;
            },
            Some(event) => {
                let ghost n = out@.len() as int;
                assert(all.skip(n)[0] == all[n]);
                assert(all.skip(n).skip(1) =~= all.skip(n + 1));
                let plain = match event {
                    XmlEvent::Text(raw) => match unescape(raw.as_str()) {
                        Some(text) => XmlEvent::Text(text),
                        None => XmlEvent::Text(raw),
                    },
                    other => other,
                };
                out.push(plain);
            },
        }
    }
    assert(xml_views(out@) =~= plain_events(xml@));
    out
}

/// A tag name without its namespace prefix.
pub open spec fn local_part(qname: Seq<char>) -> Seq<char> {
    pieces(qname, ':').last()
}

/// A tag name without its namespace prefix.
pub fn local_name(qname: &str) -> (r: String)
    ensures
        r@ == local_part(qname@),
{
    let parts = split(qname, ':');
    assert(views(parts@).last() == parts@[parts@.len() - 1]@);
    parts[parts.len() - 1].clone()
}

/// What has been gathered of a description, and where in it the reader is.
#[derive(Debug)]
pub struct Gathering {
    pub url_base: Option<String>,
    pub friendly: Option<String>,
    pub model: Option<String>,
    pub control: Option<String>,
    pub rendering: Option<String>,
    pub in_service: bool,
    pub service_type: String,
    pub service_control: String,
    pub current: String,
}

/// What a gathering holds.
#[verifier::ext_equal]
pub struct GatheringView {
    pub url_base: Option<Seq<char>>,
    pub friendly: Option<Seq<char>>,
    pub model: Option<Seq<char>>,
    pub control: Option<Seq<char>>,
    pub rendering: Option<Seq<char>>,
    pub in_service: bool,
    pub service_type: Seq<char>,
    pub service_control: Seq<char>,
    pub current: Seq<char>,
}

impl View for Gathering {
    type V = GatheringView;

    open spec fn view(&self) -> GatheringView {
        GatheringView {
            url_base: opt(self.url_base),
            friendly: opt(self.friendly),
            model: opt(self.model),
            control: opt(self.control),
            rendering: opt(self.rendering),
            in_service: self.in_service,
            service_type: self.service_type@,
            service_control: self.service_control@,
            current: self.current@,
        }
    }
}

/// The control address of the first service of a kind: the one already known,
/// or that of the service that ends here.
pub open spec fn first_control(
    known: Option<Seq<char>>,
    kind: Seq<char>,
    service_type: Seq<char>,
    service_control: Seq<char>,
) -> Option<Seq<char>> {
    if known is None && has(service_type, kind) && service_control.len() > 0 {
        Some(service_control)
    } else {
        known
    }
}

impl GatheringView {
    pub open spec fn begun() -> GatheringView {
        GatheringView {
            url_base: None,
            friendly: None,
            model: None,
            control: None,
            rendering: None,
            in_service: false,
            service_type: Seq::empty(),
            service_control: Seq::empty(),
            current: Seq::empty(),
        }
    }

    /// After one more event.
    pub open spec fn after(self, event: XmlView) -> GatheringView {
        match event {
            XmlView::Start(qname) => {
                let name = local_part(qname);
                if name == "service"@ {
                    GatheringView {
                        in_service: true,
                        service_type: Seq::empty(),
                        service_control: Seq::empty(),
                        current: name,
                        ..self
                    }
                } else {
                    GatheringView { current: name, ..self }
                }
            },
            XmlView::Text(text) => if self.current == "URLBase"@ {
                GatheringView { url_base: Some(text), ..self }
            } else if self.current == "friendlyName"@ && !self.in_service {
                GatheringView { friendly: Some(text), ..self }
            } else if self.current == "modelName"@ && !self.in_service {
                GatheringView { model: Some(text), ..self }
            } else if self.current == "serviceType"@ && self.in_service {
                GatheringView { service_type: text, ..self }
            } else if self.current == "controlURL"@ && self.in_service {
                GatheringView { service_control: text, ..self }
            } else {
                self
            },
            XmlView::End(qname) => if local_part(qname) == "service"@ {
                GatheringView {
                    control: first_control(
                        self.control,
                        "AVTransport"@,
                        self.service_type,
                        self.service_control,
                    ),
                    rendering: first_control(
                        self.rendering,
                        "RenderingControl"@,
                        self.service_type,
                        self.service_control,
                    ),
                    in_service: false,
                    current: Seq::empty(),
                    ..self
                }
            } else {
                GatheringView { current: Seq::empty(), ..self }
            },
            _ => self,
        }
    }
}

/// What is gathered of all the events.
pub open spec fn gathered(events: Seq<XmlView>) -> GatheringView
    decreases events.len(),
{
    if events.len() == 0 {
        GatheringView::begun()
    } else {
        gathered(events.drop_last()).after(events.last())
    }
}

fn is_of_kind(
    known: &Option<String>,
    kind: &str,
    service_type: &str,
    service_control: &str,
) -> (r: bool)
    ensures
        r == (known is None && has(service_type@, kind@) && service_control@.len() > 0),
{
    known.is_none() && contains(service_type, kind) && !is_empty(service_control)
}

impl Gathering {
    fn begun() -> (r: Gathering)
        ensures
            r@ == GatheringView::begun(),
    {
        let r = Gathering {
            url_base: None,
            friendly: None,
            model: None,
            control: None,
            rendering: None,
            in_service: false,
            service_type: String::new(),
            service_control: String::new(),
            current: String::new(),
        };
        assert(r@ =~= GatheringView::begun());
        r
    }

    fn take(&mut self, event: &XmlEvent)
        ensures
            final(self)@ == old(self)@.after(event@),
    {
        match event {
            XmlEvent::Start(qname) => {
                let name = local_name(qname.as_str());
                if same(name.as_str(), "service") {
                    self.in_service = true;
                    self.service_type = String::new();
                    self.service_control = String::new();
                }
                self.current = name;
            },
            XmlEvent::Text(text) => {
                let text = text.clone();
                if same(self.current.as_str(), "URLBase") {
                    self.url_base = Some(text);
                } else if same(self.current.as_str(), "friendlyName") && !self.in_service {
                    self.friendly = Some(text);
                } else if same(self.current.as_str(), "modelName") && !self.in_service {
                    self.model = Some(text);
                } else if same(self.current.as_str(), "serviceType") && self.in_service {
                    self.service_type = text;
                } else if same(self.current.as_str(), "controlURL") && self.in_service {
                    self.service_control = text;
                }
            },
            XmlEvent::End(qname) => {
                if same(local_name(qname.as_str()).as_str(), "service") {
                    if is_of_kind(
                        &self.control,
                        "AVTransport",
                        self.service_type.as_str(),
                        self.service_control.as_str(),
                    ) {
                        self.control = Some(self.service_control.clone());
                    }
                    if is_of_kind(
                        &self.rendering,
                        "RenderingControl",
                        self.service_type.as_str(),
                        self.service_control.as_str(),
                    ) {
                        self.rendering = Some(self.service_control.clone());
                    }
                    self.in_service = false;
                }
                self.current = String::new();
            },
            _ => {},
        }
    }
}

/// What is gathered of the events of a description.
pub fn gather(events: &Vec<XmlEvent>) -> (r: Gathering)
    ensures
        r@ == gathered(xml_views(events@)),
{
    let mut state = Gathering::begun();
    assert(xml_views(events@).take(0) =~= Seq::empty());
    for i in 0..events.len()
        invariant
            state@ == gathered(xml_views(events@).take(i as int)),
    {
        assert(xml_views(events@).take(i + 1).drop_last() =~= xml_views(events@).take(i as int));
        state.take(&events[i]);
    }
    assert(xml_views(events@).take(events@.len() as int) =~= xml_views(events@));
    state
}

/// What we need from a renderer's `UPnP` device description.
#[derive(Debug)]
pub struct Description {
    pub friendly: Option<String>,
    pub model: Option<String>,
    /// Absolute `AVTransport` control URL.
    pub control: Option<String>,
    /// Absolute `RenderingControl` control URL (volume / mute), if advertised.
    pub rendering: Option<String>,
}

/// What a description holds.
pub struct DescriptionView {
    pub friendly: Option<Seq<char>>,
    pub model: Option<Seq<char>>,
    pub control: Option<Seq<char>>,
    pub rendering: Option<Seq<char>>,
}

impl View for Description {
    type V = DescriptionView;

    open spec fn view(&self) -> DescriptionView {
        DescriptionView {
            friendly: opt(self.friendly),
            model: opt(self.model),
            control: opt(self.control),
            rendering: opt(self.rendering),
        }
    }
}

/// An address of the description, made absolute.
pub open spec fn resolved(base: Seq<char>, raw: Option<Seq<char>>) -> Option<Seq<char>> {
    match raw {
        Some(reference) => url_joined(base, trimmed(reference)),
        None => None,
    }
}

/// The description that was gathered, found at `location`.
pub open spec fn description_of(state: GatheringView, location: Seq<char>) -> DescriptionView {
    let base = match state.url_base {
        Some(base) => base,
        None => location,
    };
    DescriptionView {
        friendly: state.friendly,
        model: state.model,
        control: resolved(base, state.control),
        rendering: resolved(base, state.rendering),
    }
}

fn resolve(base: &str, raw: &Option<String>) -> (r: Option<String>)
    ensures
        opt(r) == resolved(base@, opt(*raw)),
{
    match raw {
        Some(reference) => join_url(base, trim(reference.as_str()).as_str()),
        None => None,
    }
}

/// The description that was gathered, found at `location`.
pub fn describe(state: Gathering, location: &str) -> (r: Description)
    ensures
        r@ == description_of(state@, location@),
{
    let base = match &state.url_base {
        Some(base) => base.clone(),
        None => location.to_owned(),
    };
    Description {
        control: resolve(base.as_str(), &state.control),
        rendering: resolve(base.as_str(), &state.rendering),
        friendly: state.friendly,
        model: state.model,
    }
}

/// Reads the device description found at `location`.
pub fn parse_description(xml: &str, location: &str) -> (r: Description)
    ensures
        r@ == description_of(gathered(plain_events(xml@)), location@),
{
    let events = read_events(xml);
    describe(gather(&events), location)
}

// ---------------------------------------------------------------------------
// Devices

/// The parts of a control address that may be used for a device on `host`:
/// one on that same host, reached by http or https.
pub open spec fn parts_ok(parts: Option<UrlView>, host: Seq<char>) -> bool {
    parts matches Some(parts) && (parts.scheme == "http"@ || parts.scheme == "https"@) && parts.host
        == Some(host)
}

/// A control address that may be used for a device on `host`.
pub open spec fn control_is_ok(control: Seq<char>, host: Seq<char>) -> bool {
    parts_ok(url_parts(control), host)
}

/// Whether an address of these parts may be used for a device on `host`.
pub fn parts_allowed(parts: &UrlParts, host: &str) -> (r: bool)
    ensures
        r == parts_ok(Some(parts@), host@),
{
    (same(parts.scheme.as_str(), "http") || same(parts.scheme.as_str(), "https"))
        && match &parts.host {
        Some(found) => same(found.as_str(), host),
        None => false,
    }
}

/// Whether a control address may be used for a device on `host`: one on that
/// same host, reached by http or https.
pub fn control_ok(control: &str, host: &str) -> (r: bool)
    ensures
        r == control_is_ok(control@, host@),
{
    match parse_url(control) {
        Some(parts) => parts_allowed(&parts, host),
        None => false,
    }
}

/// The renderer that a description found on `host` describes: none without a
/// control address on that host.
pub open spec fn renderer(
    description: DescriptionView,
    host: Seq<char>,
    ip: Seq<char>,
    port: u16,
) -> Option<DeviceView> {
    match description.control {
        Some(control) => if control_is_ok(control, host) {
            Some(
                DeviceView {
                    name: match description.friendly {
                        Some(name) => name,
                        None => host,
                    },
                    host,
                    ip,
                    port,
                    protocol: "dlna"@,
                    model: match description.model {
                        Some(model) => model,
                        None => Seq::empty(),
                    },
                    id: "dlna:"@ + ip,
                    control_url: Some(control),
                    rendering_url: match description.rendering {
                        Some(url) => if control_is_ok(url, host) {
                            Some(url)
                        } else {
                            None
                        },
                        None => None,
                    },
                    alternates: Seq::empty(),
                },
            )
        } else {
            None
        },
        None => None,
    }
}

/// What an optional device holds.
pub open spec fn device_opt(device: Option<Device>) -> Option<DeviceView> {
    match device {
        Some(device) => Some(device@),
        None => None,
    }
}

/// The renderer that a description found on `host` describes.
pub fn device_of(description: Description, host: &str, ip: &str, port: u16) -> (r: Option<Device>)
    ensures
        device_opt(r) == renderer(description@, host@, ip@, port),
{
    let control = match description.control {
        Some(control) => control,
        None => {
            return None;
        },
    };
    if !control_ok(control.as_str(), host) {
        return None;
    }
    let rendering = match description.rendering {
        Some(url) => if control_ok(url.as_str(), host) {
            Some(url)
        } else {
            None
        },
        None => None,
    };
    let mut id = "dlna:".to_owned();
    id.append(ip);
    let device = Device {
        name: match description.friendly {
            Some(name) => name,
            None => host.to_owned(),
        },
        host: host.to_owned(),
        ip: ip.to_owned(),
        port,
        protocol: "dlna".to_owned(),
        model: match description.model {
            Some(model) => model,
            None => String::new(),
        },
        id,
        control_url: Some(control),
        rendering_url: rendering,
        alternates: Vec::new(),
    };
    assert(device@.alternates =~= Seq::empty());
    Some(device)
}

/// The renderer whose description, `xml`, was found at `location`. `ip` is
/// what the host of the location resolves to.
pub open spec fn located(location: Seq<char>, xml: Seq<char>, ip: Seq<char>) -> Option<DeviceView> {
    match url_parts(location) {
        Some(parts) => match parts.host {
            Some(host) => renderer(
                description_of(gathered(plain_events(xml)), location),
                host,
                ip,
                match parts.port {
                    Some(port) => port,
                    None => 0,
                },
            ),
            None => None,
        },
        None => None,
    }
}

/// The renderer whose description, `xml`, was found at `location`. `ip` is
/// what the host of the location resolves to.
pub fn device_from_location(location: &str, xml: &str, ip: &str) -> (r: Option<Device>)
    ensures
        device_opt(r) == located(location@, xml@, ip@),
{
    match parse_url(location) {
        Some(parts) => match &parts.host {
            Some(host) => {
                let port = match parts.port {
                    Some(port) => port,
                    None => 0,
                };
                device_of(parse_description(xml, location), host.as_str(), ip, port)
            },
            None => None,
        },
        None => None,
    }
}

/// The place on `ip` where a description may be.
pub open spec fn probe_location(ip: Seq<char>, port: u16, path: Seq<char>) -> Seq<char> {
    "http://"@ + ip + ":"@ + decimal(port as nat) + path
}

/// Where descriptions are looked for on `ip`: on each open port, under each
/// path, in this order.
pub fn probe_locations(ip: &str, open_ports: &Vec<u16>) -> (r: Vec<(u16, String)>)
    ensures
        r@.len() == open_ports@.len() * 8,
        forall|i: int, j: int|
            0 <= i < open_ports@.len() && 0 <= j < 8 ==> {
                let entry = #[trigger] r@[i * 8 + j];
                entry.0 == open_ports@[i] && entry.1@ == probe_location(
                    ip@,
                    open_ports@[i],
                    PROBE_PATHS[j]@,
                )
            },
{
    let mut out: Vec<(u16, String)> = Vec::new();
    for i in 0..open_ports.len()
        invariant
            out@.len() == i * 8,
            forall|a: int, b: int|
                0 <= a < i && 0 <= b < 8 ==> {
                    let entry = #[trigger] out@[a * 8 + b];
                    entry.0 == open_ports@[a] && entry.1@ == probe_location(
                        ip@,
                        open_ports@[a],
                        PROBE_PATHS[b]@,
                    )
                },
    {
        let port = open_ports[i];
        for j in 0..8
            invariant
                i < open_ports@.len(),
                port == open_ports@[i as int],
                out@.len() == i * 8 + j,
                forall|a: int, b: int|
                    0 <= a <= i && 0 <= b < 8 && a * 8 + b < i * 8 + j ==> {
                        let entry = #[trigger] out@[a * 8 + b];
                        entry.0 == open_ports@[a] && entry.1@ == probe_location(
                            ip@,
                            open_ports@[a],
                            PROBE_PATHS[b]@,
                        )
                    },
        {
            let mut location = "http://".to_owned();
            location.append(ip);
            location.append(":");
            location.append(show(port as u64).as_str());
            location.append(PROBE_PATHS[j]);
            let ghost shown = location@;
            out.push((port, location));
            assert forall|a: int, b: int|
                0 <= a <= i && 0 <= b < 8 && a * 8 + b < i * 8 + j + 1 implies {
                let entry = #[trigger] out@[a * 8 + b];
                entry.0 == open_ports@[a] && entry.1@ == probe_location(
                    ip@,
                    open_ports@[a],
                    PROBE_PATHS[b]@,
                )
            } by {
                if a * 8 + b == i * 8 + j {
                    assert(a == i && b == j);
                }
            }
        }
    }
    out
}

/// The renderer that a page found by probing `ip` describes: the page has to
/// look like the description of one.
pub open spec fn probed(ip: Seq<char>, port: u16, location: Seq<char>, xml: Seq<char>) -> Option<
    DeviceView,
> {
    if has(xml, "MediaRenderer"@) || has(xml, "AVTransport"@) {
        renderer(description_of(gathered(plain_events(xml)), location), ip, ip, port)
    } else {
        None
    }
}

/// The renderer that a page found by probing `ip` describes.
pub fn probed_device(ip: &str, port: u16, location: &str, xml: &str) -> (r: Option<Device>)
    ensures
        device_opt(r) == probed(ip@, port, location@, xml@),
{
    if !contains(xml, "MediaRenderer") && !contains(xml, "AVTransport") {
        return None;
    }
    device_of(parse_description(xml, location), ip, ip, port)
}

/// Whatever a description says, a renderer is only ever controlled on the host
/// that the description came from.
pub proof fn control_stays_on_host(
    description: DescriptionView,
    host: Seq<char>,
    ip: Seq<char>,
    port: u16,
)
    ensures
        renderer(description, host, ip, port) matches Some(device) ==> {
            &&& device.control_url matches Some(url) && host_in(url) == Some(host)
            &&& device.rendering_url matches Some(url) ==> host_in(url) == Some(host)
        },
{
}

// ---------------------------------------------------------------------------
// SOAP

/// The request for an action of a service.
pub open spec fn soap_envelope(service: Seq<char>, action: Seq<char>, args: Seq<char>) -> Seq<char> {
    "<?xml version=\"1.0\" encoding=\"utf-8\"?><s:Envelope xmlns:s=\"http://schemas.xmlsoap.org/soap/envelope/\" s:encodingStyle=\"http://schemas.xmlsoap.org/soap/encoding/\"><s:Body><u:"@
        + action + " xmlns:u=\"urn:schemas-upnp-org:service:"@ + service
        + ":1\"><InstanceID>0</InstanceID>"@ + args + "</u:"@ + action
        + "></s:Body></s:Envelope>"@
}

/// The request for an action of a service (`AVTransport`, `RenderingControl`).
pub fn soap_body(service: &str, action: &str, args: &str) -> (r: String)
    ensures
        r@ == soap_envelope(service@, action@, args@),
{
    let mut out = "<?xml version=\"1.0\" encoding=\"utf-8\"?><s:Envelope xmlns:s=\"http://schemas.xmlsoap.org/soap/envelope/\" s:encodingStyle=\"http://schemas.xmlsoap.org/soap/encoding/\"><s:Body><u:".to_owned();
    out.append(action);
    out.append(" xmlns:u=\"urn:schemas-upnp-org:service:");
    out.append(service);
    out.append(":1\"><InstanceID>0</InstanceID>");
    out.append(args);
    out.append("</u:");
    out.append(action);
    out.append("></s:Body></s:Envelope>");
    out
}

/// The value of the `SOAPACTION` header for an action of a service.
pub open spec fn action_header(service: Seq<char>, action: Seq<char>) -> Seq<char> {
    "\"urn:schemas-upnp-org:service:"@ + service + ":1#"@ + action + "\""@
}

/// The value of the `SOAPACTION` header for an action of a service.
pub fn soap_action(service: &str, action: &str) -> (r: String)
    ensures
        r@ == action_header(service@, action@),
{
    let mut out = "\"urn:schemas-upnp-org:service:".to_owned();
    out.append(service);
    out.append(":1#");
    out.append(action);
    out.append("\"");
    out
}

/// What a renderer is told about a medium.
pub open spec fn didl_of(url: Seq<char>, title: Seq<char>, mime: Seq<char>) -> Seq<char> {
    "<DIDL-Lite xmlns=\"urn:schemas-upnp-org:metadata-1-0/DIDL-Lite/\" xmlns:dc=\"http://purl.org/dc/elements/1.1/\" xmlns:upnp=\"urn:schemas-upnp-org:metadata-1-0/upnp/\"><item id=\"0\" parentID=\"-1\" restricted=\"1\"><dc:title>"@
        + escaped(title) + "</dc:title><upnp:class>"@ + (if begins(mime, "audio"@) {
        "object.item.audioItem.musicTrack"@
    } else {
        "object.item.videoItem"@
    }) + "</upnp:class><res protocolInfo=\"http-get:*:"@ + mime
        + ":DLNA.ORG_OP=01;DLNA.ORG_CI=0;DLNA.ORG_FLAGS=01700000000000000000000000000000\">"@
        + escaped(url) + "</res></item></DIDL-Lite>"@
}

/// What a renderer is told about a medium.
pub fn didl(url: &str, title: &str, mime: &str) -> (r: String)
    ensures
        r@ == didl_of(url@, title@, mime@),
{
    let mut out = "<DIDL-Lite xmlns=\"urn:schemas-upnp-org:metadata-1-0/DIDL-Lite/\" xmlns:dc=\"http://purl.org/dc/elements/1.1/\" xmlns:upnp=\"urn:schemas-upnp-org:metadata-1-0/upnp/\"><item id=\"0\" parentID=\"-1\" restricted=\"1\"><dc:title>".to_owned();
    out.append(xml_escape(title).as_str());
    out.append("</dc:title><upnp:class>");
    if starts_with(mime, "audio") {
        out.append("object.item.audioItem.musicTrack");
    } else {
        out.append("object.item.videoItem");
    }
    out.append("</upnp:class><res protocolInfo=\"http-get:*:");
    out.append(mime);
    out.append(":DLNA.ORG_OP=01;DLNA.ORG_CI=0;DLNA.ORG_FLAGS=01700000000000000000000000000000\">");
    out.append(xml_escape(url).as_str());
    out.append("</res></item></DIDL-Lite>");
    out
}

/// `value` as the text of an element.
pub open spec fn element(tag: Seq<char>, value: Seq<char>) -> Seq<char> {
    "<"@ + tag + ">"@ + value + "</"@ + tag + ">"@
}

/// `value` as the text of an element.
pub fn tagged(tag: &str, value: &str) -> (r: String)
    ensures
        r@ == element(tag@, value@),
{
    let mut out = "<".to_owned();
    out.append(tag);
    out.append(">");
    out.append(value);
    out.append("</");
    out.append(tag);
    out.append(">");
    out
}

/// The arguments with which a renderer is pointed at a stream.
pub open spec fn play_view(url: Seq<char>, title: Seq<char>, mime: Seq<char>) -> Seq<char> {
    element("CurrentURI"@, escaped(url)) + element(
        "CurrentURIMetaData"@,
        escaped(didl_of(url, title, mime)),
    )
}

/// The arguments with which a renderer is pointed at a stream.
pub fn play_args(url: &str, title: &str, mime: &str) -> (r: String)
    ensures
        r@ == play_view(url@, title@, mime@),
{
    let mut args = tagged("CurrentURI", xml_escape(url).as_str());
    args.append(
        tagged("CurrentURIMetaData", xml_escape(didl(url, title, mime).as_str()).as_str()).as_str(),
    );
    args
}

/// What follows an attempt to point a renderer at a stream.
#[derive(Debug)]
pub enum PlayStep {
    /// Start playback.
    Start,
    /// Try once more.
    Again,
    /// Give up, with this message.
    Failed(String),
}

/// The message for a renderer that cannot be pointed at a stream.
pub open spec fn play_failure(status: u16, body: Seq<char>) -> Seq<char> {
    "SetAVTransportURI "@ + decimal(status as nat) + ": "@ + (match tag_in(
        body,
        "errorDescription"@,
    ) {
        Some(description) => description,
        None => Seq::empty(),
    })
}

/// What follows an attempt to point a renderer at a stream: a second one may
/// follow the first.
pub open spec fn follows(step: PlayStep, first: bool, status: u16, body: Seq<char>) -> bool {
    match step {
        PlayStep::Start => status == 200,
        PlayStep::Again => status != 200 && first,
        PlayStep::Failed(message) => status != 200 && !first && message@ == play_failure(
            status,
            body,
        ),
    }
}

/// What follows an attempt to point a renderer at a stream: a second one may
/// follow the first.
pub fn play_step(first: bool, status: u16, body: &str) -> (r: PlayStep)
    ensures
        follows(r, first, status, body@),
{
    if status == 200 {
        return PlayStep::Start;
    }
    if first {
        return PlayStep::Again;
    }
    let mut message = "SetAVTransportURI ".to_owned();
    message.append(show(status as u64).as_str());
    message.append(": ");
    match first_tag(body, "errorDescription") {
        Some(description) => {
            message.append(description.as_str());
        },
        None => {
            let empty = String::new();
            message.append(empty.as_str());
        },
    }
    PlayStep::Failed(message)
}

/// A time of day.
pub open spec fn hms_of(hours: u64, minutes: u64, secs: u64) -> Seq<char> {
    padded(hours as nat, 2) + ":"@ + padded(minutes as nat, 2) + ":"@ + padded(secs as nat, 2)
}

/// A time of day.
pub fn format_hms(hours: u64, minutes: u64, secs: u64) -> (r: String)
    ensures
        r@ == hms_of(hours, minutes, secs),
{
    let mut out = show_padded(hours, 2);
    out.append(":");
    out.append(show_padded(minutes, 2).as_str());
    out.append(":");
    out.append(show_padded(secs, 2).as_str());
    out
}

/// The arguments with which playback is moved to a time.
pub open spec fn seek_view(hours: u64, minutes: u64, secs: u64) -> Seq<char> {
    "<Unit>REL_TIME</Unit>"@ + element("Target"@, hms_of(hours, minutes, secs))
}

/// The arguments with which playback is moved to a time.
pub fn seek_args(hours: u64, minutes: u64, secs: u64) -> (r: String)
    ensures
        r@ == seek_view(hours, minutes, secs),
{
    let mut args = "<Unit>REL_TIME</Unit>".to_owned();
    args.append(tagged("Target", format_hms(hours, minutes, secs).as_str()).as_str());
    args
}

/// The text of the first element with this tag.
pub open spec fn tag_in(xml: Seq<char>, tag: Seq<char>) -> Option<Seq<char>> {
    match cut(xml, "<"@ + tag + ">"@) {
        Some((_, rest)) => match cut(rest, "</"@ + tag + ">"@) {
            Some((inner, _)) => Some(inner),
            None => None,
        },
        None => None,
    }
}

/// The text of the first element with this tag.
pub fn first_tag(xml: &str, tag: &str) -> (r: Option<String>)
    ensures
        opt(r) == tag_in(xml@, tag@),
{
    let mut open = "<".to_owned();
    open.append(tag);
    open.append(">");
    let mut close = "</".to_owned();
    close.append(tag);
    close.append(">");
    match split_once(xml, open.as_str()) {
        Some((_, rest)) => match split_once(rest.as_str(), close.as_str()) {
            Some((inner, _)) => Some(inner),
            None => None,
        },
        None => None,
    }
}

/// What a renderer does, from its answer.
pub open spec fn state_in(body: Seq<char>) -> Seq<char> {
    match tag_in(body, "CurrentTransportState"@) {
        Some(state) => state,
        None => "UNKNOWN"@,
    }
}

/// What a renderer does, from its answer.
pub fn transport_state(body: &str) -> (r: String)
    ensures
        r@ == state_in(body@),
{
    match first_tag(body, "CurrentTransportState") {
        Some(state) => state,
        None => "UNKNOWN".to_owned(),
    }
}

/// The texts of the duration and the position that a renderer reports.
pub open spec fn times_in(body: Seq<char>) -> (Option<Seq<char>>, Option<Seq<char>>) {
    (tag_in(body, "TrackDuration"@), tag_in(body, "RelTime"@))
}

/// The texts of the duration and the position that a renderer reports.
pub fn position_texts(body: &str) -> (r: (Option<String>, Option<String>))
    ensures
        (opt(r.0), opt(r.1)) == times_in(body@),
{
    (first_tag(body, "TrackDuration"), first_tag(body, "RelTime"))
}

/// The volume that a renderer reports.
pub open spec fn volume_in(status: u16, body: Seq<char>) -> Option<int> {
    if status != 200 {
        None
    } else {
        match tag_in(body, "CurrentVolume"@) {
            Some(value) => match within(
                signed(trimmed(value)),
                i32::MIN as int,
                i32::MAX as int,
            ) {
                Some(level) => Some(percent(level)),
                None => None,
            },
            None => None,
        }
    }
}

/// Receiver volume (0-100) from the answer of `RenderingControl`.
pub fn volume_of(status: u16, body: &str) -> (r: Option<i32>)
    ensures
        match r {
            Some(level) => volume_in(status, body@) == Some(level as int) && 0 <= level <= 100,
            None => volume_in(status, body@) is None,
        },
{
    if status != 200 {
        return None;
    }
    match first_tag(body, "CurrentVolume") {
        Some(value) => match parse_i32(trim(value.as_str()).as_str()) {
            Some(level) => Some(clamp_percent(level)),
            None => None,
        },
        None => None,
    }
}

/// Whether a text says yes.
pub open spec fn says_yes(value: Seq<char>) -> bool {
    value == "1"@ || value == "true"@ || value == "True"@ || value == "TRUE"@
}

/// Whether a renderer is mute, from the answer of `RenderingControl`.
pub open spec fn mute_in(status: u16, body: Seq<char>) -> Option<bool> {
    if status != 200 {
        None
    } else {
        match tag_in(body, "CurrentMute"@) {
            Some(value) => Some(says_yes(trimmed(value))),
            None => None,
        }
    }
}

/// Whether a renderer is mute, from the answer of `RenderingControl`.
pub fn mute_of(status: u16, body: &str) -> (r: Option<bool>)
    ensures
        r == mute_in(status, body@),
{
    if status != 200 {
        return None;
    }
    match first_tag(body, "CurrentMute") {
        Some(value) => {
            let word = trim(value.as_str());
            let w = word.as_str();
            Some(same(w, "1") || same(w, "true") || same(w, "True") || same(w, "TRUE"))
        },
        None => None,
    }
}

/// The channel whose volume is meant.
pub open spec fn master() -> Seq<char> {
    "<Channel>Master</Channel>"@
}

/// The channel whose volume is meant.
pub fn master_channel() -> (r: &'static str)
    ensures
        r@ == master(),
{
    "<Channel>Master</Channel>"
}

/// The arguments with which the volume is set.
pub open spec fn volume_view(level: i32) -> Seq<char> {
    "<Channel>Master</Channel>"@ + element("DesiredVolume"@, signed_decimal(percent(level as int)))
}

/// The arguments with which a renderer is muted or not.
pub open spec fn mute_view(muted: bool) -> Seq<char> {
    "<Channel>Master</Channel>"@ + element(
        "DesiredMute"@,
        if muted {
            "1"@
        } else {
            "0"@
        },
    )
}

/// The arguments with which the volume is set.
pub fn volume_args(level: i32) -> (r: String)
    ensures
        r@ == volume_view(level),
{
    let mut args = master_channel().to_owned();
    args.append(
        tagged("DesiredVolume", show_signed(clamp_percent(level) as i64).as_str()).as_str(),
    );
    args
}

/// The arguments with which a renderer is muted or not.
pub fn mute_args(muted: bool) -> (r: String)
    ensures
        r@ == mute_view(muted),
{
    let mut args = master_channel().to_owned();
    let value = if muted {
        "1"
    } else {
        "0"
    };
    args.append(tagged("DesiredMute", value).as_str());
    args
}

// ---------------------------------------------------------------------------
// Laws

/// Where a text without `<` begins nothing that begins with `<` stands.
proof fn no_tag_in(before: Seq<char>, tag: Seq<char>, after: Seq<char>)
    requires
        !before.contains('<'),
        tag.len() > 0,
        tag[0] == '<',
    ensures
        forall|j: int| 0 <= j < before.len() ==> !occurs_at(before + tag + after, tag, j),
        occurs_at(before + tag + after, tag, before.len() as int),
{
    let text = before + tag + after;
    assert forall|j: int| 0 <= j < before.len() implies !occurs_at(text, tag, j) by {
        if occurs_at(text, tag, j) {
            assert(text.subrange(j, j + tag.len())[0] == text[j]);
            assert(text[j] == before[j]);
        }
    }
    assert(text.subrange(before.len() as int, before.len() as int + tag.len()) =~= tag);
}

/// What an element holds is read out of it, where nothing before it is an
/// element with its tag.
pub proof fn elements_are_read_back(
    before: Seq<char>,
    tag: Seq<char>,
    value: Seq<char>,
    after: Seq<char>,
)
    requires
        !value.contains('<'),
        forall|j: int|
            0 <= j < before.len() ==> !occurs_at(
                before + element(tag, value) + after,
                "<"@ + tag + ">"@,
                j,
            ),
    ensures
        tag_in(before + element(tag, value) + after, tag) == Some(value),
{
    reveal_strlit("<");
    reveal_strlit("</");
    let open = "<"@ + tag + ">"@;
    let close = "</"@ + tag + ">"@;
    let xml = before + element(tag, value) + after;
    let at = before.len() as int;
    assert(element(tag, value) =~= open + value + close);
    assert(xml.subrange(at, at + open.len()) =~= open);
    cut_is_where_it_is_found(xml, open, at);
    let rest = xml.skip(at + open.len());
    assert(rest =~= value + close + after);
    no_tag_in(value, close, after);
    cut_is_where_it_is_found(value + close + after, close, value.len() as int);
    assert((value + close + after).take(value.len() as int) =~= value);
}

/// What a first element holds is read out of it.
proof fn first_element_is_read(tag: Seq<char>, value: Seq<char>, after: Seq<char>)
    requires
        !value.contains('<'),
    ensures
        tag_in(element(tag, value) + after, tag) == Some(value),
{
    let none = Seq::<char>::empty();
    assert(element(tag, value) + after =~= none + element(tag, value) + after);
    elements_are_read_back(none, tag, value, after);
}

proof fn digits_are_plain(n: nat)
    ensures
        !decimal(n).contains('<'),
        trimmed(decimal(n)) == decimal(n),
{
    let d = decimal(n);
    decimal_denotes(n);
    assert(is_digit(d[0]));
    assert(is_digit(d[d.len() - 1]));
    if d.contains('<') {
        let i = choose|i: int| 0 <= i < d.len() && d[i] == '<';
        assert(is_digit(d[i]));
    }
}

/// A renderer's volume is the number that it answers with, and one above a
/// hundred is a hundred; an answer that is no success says nothing.
pub proof fn volume_is_read_from_the_answer(n: nat, after: Seq<char>, status: u16)
    ensures
        n <= 100 ==> volume_in(200, element("CurrentVolume"@, decimal(n)) + after) == Some(
            n as int,
        ),
        100 < n <= i32::MAX ==> volume_in(200, element("CurrentVolume"@, decimal(n)) + after)
            == Some(100int),
        status != 200 ==> volume_in(status, after) is None && mute_in(status, after) is None,
{
    digits_are_plain(n);
    decimal_denotes(n);
    first_element_is_read("CurrentVolume"@, decimal(n), after);
}

/// A renderer is mute where it answers with a yes in one of its forms, and not
/// where it answers with anything else.
pub proof fn mute_is_read_from_the_answer(value: Seq<char>, after: Seq<char>)
    requires
        !value.contains('<'),
    ensures
        mute_in(200, element("CurrentMute"@, value) + after) == Some(
            trimmed(value) == "1"@ || trimmed(value) == "true"@ || trimmed(value) == "True"@
                || trimmed(value) == "TRUE"@,
        ),
{
    first_element_is_read("CurrentMute"@, value, after);
}

/// What a renderer does is what it answers, and not known where it does not say.
pub proof fn state_is_read_from_the_answer(state: Seq<char>, after: Seq<char>)
    requires
        !state.contains('<'),
    ensures
        state_in(element("CurrentTransportState"@, state) + after) == state,
        state_in(Seq::empty()) == "UNKNOWN"@,
{
    first_element_is_read("CurrentTransportState"@, state, after);
    reveal_strlit("<");
    let open = "<"@ + "CurrentTransportState"@ + ">"@;
    find_is_first(Seq::empty(), open, 0);
}

proof fn behind_the_channel(tag: Seq<char>, value: Seq<char>)
    requires
        tag.len() > 0,
        tag[0] != 'C',
        tag[0] != '/',
        !value.contains('<'),
    ensures
        tag_in("<Channel>Master</Channel>"@ + element(tag, value), tag) == Some(value),
        begins("<Channel>Master</Channel>"@ + element(tag, value), "<Channel>Master</Channel>"@),
{
    reveal_strlit("<Channel>Master</Channel>");
    reveal_strlit("<");
    let before = "<Channel>Master</Channel>"@;
    let none = Seq::<char>::empty();
    let open = "<"@ + tag + ">"@;
    let xml = before + element(tag, value) + none;
    assert(before + element(tag, value) =~= xml);
    assert(before.len() == 25);
    assert forall|j: int| 0 <= j < before.len() implies !occurs_at(xml, open, j) by {
        if occurs_at(xml, open, j) {
            assert(xml.subrange(j, j + open.len())[0] == xml[j]);
            assert(xml.subrange(j, j + open.len())[1] == xml[j + 1]);
            assert(open[0] == '<' && open[1] == tag[0]);
            assert(xml[j] == before[j]);
            assert(before[0] == '<' && before[15] == '<' && before[1] == 'C' && before[16] == '/');
            assert(j == 0 || j == 15);
            assert(xml[1] == before[1] && xml[16] == before[16]);
        }
    }
    elements_are_read_back(before, tag, value, none);
    assert((before + element(tag, value)).take(before.len() as int) =~= before);
}

/// A renderer is told the volume that was asked for, as a percentage of its
/// master channel, and to be mute where that was asked for.
pub proof fn volume_is_told_as_asked(level: i32)
    ensures
        0 <= level <= 100 ==> tag_in(volume_view(level), "DesiredVolume"@) == Some(
            decimal(level as nat),
        ),
        level < 0 ==> tag_in(volume_view(level), "DesiredVolume"@) == Some(decimal(0)),
        level > 100 ==> tag_in(volume_view(level), "DesiredVolume"@) == Some(decimal(100)),
        begins(volume_view(level), "<Channel>Master</Channel>"@),
        tag_in(mute_view(true), "DesiredMute"@) == Some("1"@),
        tag_in(mute_view(false), "DesiredMute"@) == Some("0"@),
        begins(mute_view(true), "<Channel>Master</Channel>"@),
        begins(mute_view(false), "<Channel>Master</Channel>"@),
{
    reveal_strlit("DesiredVolume");
    reveal_strlit("DesiredMute");
    reveal_strlit("1");
    reveal_strlit("0");
    digits_are_plain(percent(level as int) as nat);
    behind_the_channel("DesiredVolume"@, decimal(percent(level as int) as nat));
    behind_the_channel("DesiredMute"@, "1"@);
    behind_the_channel("DesiredMute"@, "0"@);
}

/// A time of day shows its hours, its minutes and its seconds, in this order.
pub proof fn time_of_day_is_read_back(hours: u64, minutes: u64, secs: u64)
    ensures
        ({
            let parts = pieces(hms_of(hours, minutes, secs), ':');
            &&& parts.len() == 3
            &&& digits_number(parts[0]) == Some(hours as nat)
            &&& digits_number(parts[1]) == Some(minutes as nat)
            &&& digits_number(parts[2]) == Some(secs as nat)
        }),
{
    reveal_strlit(":");
    let h = padded(hours as nat, 2);
    let m = padded(minutes as nat, 2);
    let t = padded(secs as nat, 2);
    padded_denotes(hours as nat, 2);
    padded_denotes(minutes as nat, 2);
    padded_denotes(secs as nat, 2);
    digits_hold_no_colon(h);
    digits_hold_no_colon(m);
    digits_hold_no_colon(t);
    assert(hms_of(hours, minutes, secs) =~= h + seq![':'] + (m + seq![':'] + t));
    pieces_are_parted(h, ':', m + seq![':'] + t);
    pieces_are_parted(m, ':', t);
    pieces_are_parted(t, ':', Seq::empty());
    assert(seq![h] + (seq![m] + seq![t]) =~= seq![h, m, t]);
}

proof fn digits_hold_no_colon(digits: Seq<char>)
    requires
        all_digits(digits),
    ensures
        !digits.contains(':'),
        !digits.contains('<'),
{
    if digits.contains(':') {
        let i = choose|i: int| 0 <= i < digits.len() && digits[i] == ':';
        assert(is_digit(digits[i]));
    }
    if digits.contains('<') {
        let i = choose|i: int| 0 <= i < digits.len() && digits[i] == '<';
        assert(is_digit(digits[i]));
    }
}

/// A seek names a time from the start of the medium.
pub proof fn seeks_name_a_time_from_the_start(hours: u64, minutes: u64, secs: u64)
    ensures
        begins(seek_view(hours, minutes, secs), "<Unit>REL_TIME</Unit>"@),
        ends(seek_view(hours, minutes, secs), element("Target"@, hms_of(hours, minutes, secs))),
{
    let unit = "<Unit>REL_TIME</Unit>"@;
    let target = element("Target"@, hms_of(hours, minutes, secs));
    let args = seek_view(hours, minutes, secs);
    assert(args.take(unit.len() as int) =~= unit);
    assert(args.skip(args.len() - target.len()) =~= target);
}

proof fn escaped_holds_no_tag(text: Seq<char>)
    ensures
        !escaped(text).contains('<'),
{
    escaped_is_plain(text);
    if escaped(text).contains('<') {
        let i = choose|i: int| 0 <= i < escaped(text).len() && escaped(text)[i] == '<';
        assert(!is_markup(escaped(text)[i]));
    }
}

/// A renderer is pointed at the address of the stream, and told about it what
/// the description of the medium says.
pub proof fn renderer_is_pointed_at_the_stream(url: Seq<char>, title: Seq<char>, mime: Seq<char>)
    ensures
        tag_in(play_view(url, title, mime), "CurrentURI"@) == Some(escaped(url)),
        ends(
            play_view(url, title, mime),
            element("CurrentURIMetaData"@, escaped(didl_of(url, title, mime))),
        ),
{
    escaped_holds_no_tag(url);
    let data = element("CurrentURIMetaData"@, escaped(didl_of(url, title, mime)));
    first_element_is_read("CurrentURI"@, escaped(url), data);
    let args = play_view(url, title, mime);
    assert(args.skip(args.len() - data.len()) =~= data);
}

proof fn stands_in(before: Seq<char>, part: Seq<char>, after: Seq<char>)
    ensures
        has(before + part + after, part),
{
    let at = before.len() as int;
    assert((before + part + after).subrange(at, at + part.len()) =~= part);
    assert(occurs_at(before + part + after, part, at));
}

/// The description of a medium holds its title and its address, and says of
/// what type it is and whether there is something to see.
pub proof fn medium_is_described_to_the_renderer(
    url: Seq<char>,
    title: Seq<char>,
    mime: Seq<char>,
)
    ensures
        has(didl_of(url, title, mime), "<dc:title>"@ + escaped(title) + "</dc:title>"@),
        has(didl_of(url, title, mime), "<res protocolInfo=\"http-get:*:"@ + mime + ":"@),
        ends(didl_of(url, title, mime), ">"@ + escaped(url) + "</res></item></DIDL-Lite>"@),
        begins(mime, "audio"@) ==> has(
            didl_of(url, title, mime),
            "<upnp:class>object.item.audioItem.musicTrack</upnp:class>"@,
        ),
        !begins(mime, "audio"@) ==> has(
            didl_of(url, title, mime),
            "<upnp:class>object.item.videoItem</upnp:class>"@,
        ),
{
    let intro = "<DIDL-Lite xmlns=\"urn:schemas-upnp-org:metadata-1-0/DIDL-Lite/\" xmlns:dc=\"http://purl.org/dc/elements/1.1/\" xmlns:upnp=\"urn:schemas-upnp-org:metadata-1-0/upnp/\"><item id=\"0\" parentID=\"-1\" restricted=\"1\"><dc:title>"@;
    let head = "<DIDL-Lite xmlns=\"urn:schemas-upnp-org:metadata-1-0/DIDL-Lite/\" xmlns:dc=\"http://purl.org/dc/elements/1.1/\" xmlns:upnp=\"urn:schemas-upnp-org:metadata-1-0/upnp/\"><item id=\"0\" parentID=\"-1\" restricted=\"1\">"@;
    reveal_strlit("<DIDL-Lite xmlns=\"urn:schemas-upnp-org:metadata-1-0/DIDL-Lite/\" xmlns:dc=\"http://purl.org/dc/elements/1.1/\" xmlns:upnp=\"urn:schemas-upnp-org:metadata-1-0/upnp/\"><item id=\"0\" parentID=\"-1\" restricted=\"1\"><dc:title>");
    reveal_strlit("<DIDL-Lite xmlns=\"urn:schemas-upnp-org:metadata-1-0/DIDL-Lite/\" xmlns:dc=\"http://purl.org/dc/elements/1.1/\" xmlns:upnp=\"urn:schemas-upnp-org:metadata-1-0/upnp/\"><item id=\"0\" parentID=\"-1\" restricted=\"1\">");
    reveal_strlit("<dc:title>");
    assert(intro =~= head + "<dc:title>"@);
    reveal_strlit("</dc:title><upnp:class>");
    reveal_strlit("</dc:title>");
    reveal_strlit("<upnp:class>");
    assert("</dc:title><upnp:class>"@ =~= "</dc:title>"@ + "<upnp:class>"@);
    reveal_strlit("</upnp:class><res protocolInfo=\"http-get:*:");
    reveal_strlit("</upnp:class>");
    reveal_strlit("<res protocolInfo=\"http-get:*:");
    assert("</upnp:class><res protocolInfo=\"http-get:*:"@ =~= "</upnp:class>"@
        + "<res protocolInfo=\"http-get:*:"@);
    reveal_strlit(":DLNA.ORG_OP=01;DLNA.ORG_CI=0;DLNA.ORG_FLAGS=01700000000000000000000000000000\">");
    reveal_strlit(":");
    reveal_strlit("DLNA.ORG_OP=01;DLNA.ORG_CI=0;DLNA.ORG_FLAGS=01700000000000000000000000000000\"");
    reveal_strlit(">");
    let flags = "DLNA.ORG_OP=01;DLNA.ORG_CI=0;DLNA.ORG_FLAGS=01700000000000000000000000000000\""@;
    assert(":DLNA.ORG_OP=01;DLNA.ORG_CI=0;DLNA.ORG_FLAGS=01700000000000000000000000000000\">"@
        =~= ":"@ + flags + ">"@);
    reveal_strlit("object.item.audioItem.musicTrack");
    reveal_strlit("object.item.videoItem");
    reveal_strlit("<upnp:class>object.item.audioItem.musicTrack</upnp:class>");
    reveal_strlit("<upnp:class>object.item.videoItem</upnp:class>");
    let class = if begins(mime, "audio"@) {
        "object.item.audioItem.musicTrack"@
    } else {
        "object.item.videoItem"@
    };
    let shown = "<upnp:class>"@ + class + "</upnp:class>"@;
    assert("<upnp:class>"@ + "object.item.audioItem.musicTrack"@ + "</upnp:class>"@
        =~= "<upnp:class>object.item.audioItem.musicTrack</upnp:class>"@);
    assert("<upnp:class>"@ + "object.item.videoItem"@ + "</upnp:class>"@
        =~= "<upnp:class>object.item.videoItem</upnp:class>"@);
    let named = "<dc:title>"@ + escaped(title) + "</dc:title>"@;
    let typed = "<res protocolInfo=\"http-get:*:"@ + mime + ":"@;
    let last = ">"@ + escaped(url) + "</res></item></DIDL-Lite>"@;
    let all = didl_of(url, title, mime);
    assert(all =~= head + named + (shown + typed + flags + last));
    assert(all =~= (head + named) + shown + (typed + flags + last));
    assert(all =~= (head + named + shown) + typed + (flags + last));
    stands_in(head, named, shown + typed + flags + last);
    stands_in(head + named, shown, typed + flags + last);
    stands_in(head + named + shown, typed, flags + last);
    assert(all.skip(all.len() - last.len()) =~= last);
}

/// A request names the action and the service, of the first instance, and holds
/// the arguments between the tags of the action; its header names the same.
pub proof fn requests_name_the_action(service: Seq<char>, action: Seq<char>, args: Seq<char>)
    ensures
        has(
            soap_envelope(service, action, args),
            action + " xmlns:u=\"urn:schemas-upnp-org:service:"@ + service
                + ":1\"><InstanceID>0</InstanceID>"@ + args + "</u:"@ + action + ">"@,
        ),
        has(action_header(service, action), service + ":1#"@ + action),
        action_header(service, action) == "\"urn:schemas-upnp-org:service:"@ + (service + ":1#"@
            + action) + "\""@,
        begins(
            soap_envelope(service, action, args),
            "<?xml version=\"1.0\" encoding=\"utf-8\"?><s:Envelope xmlns:s=\"http://schemas.xmlsoap.org/soap/envelope/\" s:encodingStyle=\"http://schemas.xmlsoap.org/soap/encoding/\"><s:Body><u:"@,
        ),
        ends(soap_envelope(service, action, args), "</s:Body></s:Envelope>"@),
{
    reveal_strlit("></s:Body></s:Envelope>");
    reveal_strlit(">");
    reveal_strlit("</s:Body></s:Envelope>");
    assert("></s:Body></s:Envelope>"@ =~= ">"@ + "</s:Body></s:Envelope>"@);
    let intro = "<?xml version=\"1.0\" encoding=\"utf-8\"?><s:Envelope xmlns:s=\"http://schemas.xmlsoap.org/soap/envelope/\" s:encodingStyle=\"http://schemas.xmlsoap.org/soap/encoding/\"><s:Body><u:"@;
    let part = action + " xmlns:u=\"urn:schemas-upnp-org:service:"@ + service
        + ":1\"><InstanceID>0</InstanceID>"@ + args + "</u:"@ + action + ">"@;
    assert(soap_envelope(service, action, args) =~= intro + part + "</s:Body></s:Envelope>"@);
    stands_in(intro, part, "</s:Body></s:Envelope>"@);
    let whole = soap_envelope(service, action, args);
    assert(whole.take(intro.len() as int) =~= intro);
    assert(whole.skip(whole.len() - "</s:Body></s:Envelope>"@.len()) =~= "</s:Body></s:Envelope>"@);
    let name = service + ":1#"@ + action;
    assert(action_header(service, action) =~= "\"urn:schemas-upnp-org:service:"@ + name + "\""@);
    stands_in("\"urn:schemas-upnp-org:service:"@, name, "\""@);
}

/// A failure to play tells the status of the answer, and why, where the answer
/// says so.
pub proof fn play_failures_tell_the_status(status: u16, why: Seq<char>, after: Seq<char>)
    requires
        !why.contains('<'),
    ensures
        has(play_failure(status, after), decimal(status as nat)),
        begins(play_failure(status, after), "SetAVTransportURI "@ + decimal(status as nat) + ": "@),
        ends(play_failure(status, element("errorDescription"@, why) + after), why),
{
    let first = "SetAVTransportURI "@;
    let tail = ": "@ + (match tag_in(after, "errorDescription"@) {
        Some(description) => description,
        None => Seq::empty(),
    });
    assert(play_failure(status, after) =~= first + decimal(status as nat) + tail);
    stands_in(first, decimal(status as nat), tail);
    let start = first + decimal(status as nat) + ": "@;
    assert(play_failure(status, after).take(start.len() as int) =~= start);
    first_element_is_read("errorDescription"@, why, after);
    let message = play_failure(status, element("errorDescription"@, why) + after);
    assert(message.skip(message.len() - why.len()) =~= why);
}

/// A search goes to everyone who listens for searches, and names what is
/// searched for.
pub proof fn searches_name_their_target(st: Seq<char>)
    ensures
        begins(search_for(st), "M-SEARCH * HTTP/1.1\r\n"@),
        has(search_for(st), "239.255.255.250:1900"@),
        has(search_for(st), "ST: "@ + st + "\r\n"@),
        search_for(st) == "M-SEARCH * HTTP/1.1\r\n"@ + "HOST: "@ + "239.255.255.250:1900"@
            + "\r\nMAN: \"ssdp:discover\"\r\nMX: 2\r\n"@ + "ST: "@ + st + "\r\n"@ + "\r\n"@,
{
    reveal_strlit("M-SEARCH * HTTP/1.1\r\nHOST: ");
    reveal_strlit("M-SEARCH * HTTP/1.1\r\n");
    reveal_strlit("HOST: ");
    reveal_strlit("239.255.255.250");
    reveal_strlit("239.255.255.250:1900");
    reveal_strlit(":");
    reveal_strlit("\r\nMAN: \"ssdp:discover\"\r\nMX: 2\r\nST: ");
    reveal_strlit("\r\nMAN: \"ssdp:discover\"\r\nMX: 2\r\n");
    reveal_strlit("ST: ");
    reveal_strlit("\r\n\r\n");
    reveal_strlit("\r\n");
    reveal_with_fuel(decimal, 5);
    let line = "M-SEARCH * HTTP/1.1\r\n"@;
    assert("M-SEARCH * HTTP/1.1\r\nHOST: "@ =~= line + "HOST: "@);
    let place = SSDP_ADDR@ + ":"@ + decimal(SSDP_PORT as nat);
    assert(decimal(1900) =~= seq!['1', '9', '0', '0']);
    assert(place =~= "239.255.255.250:1900"@);
    let man = "\r\nMAN: \"ssdp:discover\"\r\nMX: 2\r\n"@;
    assert("\r\nMAN: \"ssdp:discover\"\r\nMX: 2\r\nST: "@ =~= man + "ST: "@);
    assert("\r\n\r\n"@ =~= "\r\n"@ + "\r\n"@);
    let target = "ST: "@ + st + "\r\n"@;
    let all = search_for(st);
    assert(all =~= (line + "HOST: "@) + place + (man + target + "\r\n"@));
    assert(all =~= (line + "HOST: "@ + place + man) + target + "\r\n"@);
    stands_in(line + "HOST: "@, place, man + target + "\r\n"@);
    stands_in(line + "HOST: "@ + place + man, target, "\r\n"@);
    assert(all.take(line.len() as int) =~= line);
    assert(all =~= line + "HOST: "@ + place + man + "ST: "@ + st + "\r\n"@ + "\r\n"@);
}

/// A line of a reply announces a location exactly where its name is that of
/// the header, in whatever letters; the location is what follows it.
pub proof fn locations_are_announced_by_their_header(name: Seq<char>, value: Seq<char>)
    requires
        !name.contains(':'),
        trimmed(value).len() > 0,
    ensures
        ascii_lower(name) == "location"@ ==> location_of(name + ":"@ + value) == Some(
            trimmed(value),
        ),
        name.len() == 8 && ascii_lower(name) != "location"@ ==> location_of(name + ":"@ + value)
            is None,
{
    reveal_strlit("location");
    reveal_strlit("location:");
    reveal_strlit(":");
    let line = name + ":"@ + value;
    assert(":"@ =~= seq![':']);
    cut_is_at_the_first(name, ':', value);
    assert(line =~= name + seq![':'] + value);
    if name.len() == 8 {
        assert(ascii_lower(line).take(9) =~= ascii_lower(name) + ":"@);
        assert("location:"@ =~= "location"@ + ":"@);
        if begins(ascii_lower(line), "location:"@) {
            assert(ascii_lower(name) =~= ascii_lower(line).take(9).take(8));
            assert("location:"@.take(8) =~= "location"@);
        }
    }
}

/// What a reply announces is what its lines announce.
pub proof fn every_announced_location_is_found(lines: Seq<Seq<char>>, location: Seq<char>)
    ensures
        locations_of(lines).contains(location) <==> exists|i: int|
            0 <= i < lines.len() && location_of(#[trigger] lines[i]) == Some(location),
    decreases lines.len(),
{
    if lines.len() > 0 {
        let head = lines.drop_last();
        every_announced_location_is_found(head, location);
        assert(lines[lines.len() - 1] == lines.last());
        if locations_of(head).contains(location) {
            let i = choose|i: int|
                0 <= i < head.len() && location_of(#[trigger] head[i]) == Some(location);
            assert(location_of(lines[i]) == Some(location));
        }
        if exists|i: int| 0 <= i < lines.len() && location_of(#[trigger] lines[i]) == Some(location) {
            let i = choose|i: int|
                0 <= i < lines.len() && location_of(#[trigger] lines[i]) == Some(location);
            if i < head.len() {
                assert(location_of(head[i]) == Some(location));
            }
        }
        if location_of(lines.last()) == Some(location) {
            assert(location_of(lines[lines.len() - 1]) == Some(location));
        }
    }
}

/// The locations on an address are those whose host it is.
pub proof fn locations_are_sorted_by_host(found: Seq<Seq<char>>, ip: Seq<char>, url: Seq<char>)
    ensures
        on_host(found, ip).contains(url) <==> found.contains(url) && host_in(url) == Some(ip),
    decreases found.len(),
{
    if found.len() > 0 {
        let head = found.drop_last();
        let before = on_host(head, ip);
        let after = on_host(found, ip);
        locations_are_sorted_by_host(head, ip, url);
        assert(found[found.len() - 1] == found.last());
        if head.contains(url) {
            let k = choose|k: int| 0 <= k < head.len() && head[k] == url;
            assert(found[k] == url);
        }
        if found.contains(url) {
            let k = choose|k: int| 0 <= k < found.len() && found[k] == url;
            if k < head.len() {
                assert(head[k] == url);
            }
        }
        if before.contains(url) {
            let k = choose|k: int| 0 <= k < before.len() && before[k] == url;
            assert(after[k] == url);
        }
        if after.contains(url) {
            let k = choose|k: int| 0 <= k < after.len() && after[k] == url;
            if k < before.len() {
                assert(before[k] == url);
            }
        }
        if host_in(found.last()) == Some(ip) {
            assert(after[after.len() - 1] == found.last());
        }
    }
}

/// The prefix of a name does not count.
pub proof fn prefixes_do_not_count(prefix: Seq<char>, name: Seq<char>)
    requires
        !prefix.contains(':'),
        !name.contains(':'),
    ensures
        local_part(name) == name,
        local_part(prefix + seq![':'] + name) == name,
{
    pieces_are_parted(prefix, ':', name);
    pieces_are_parted(name, ':', Seq::empty());
    assert(seq![prefix] + seq![name] =~= seq![prefix, name]);
}

impl GatheringView {
    /// After an element that holds a text.
    pub open spec fn after_element(self, qname: Seq<char>, text: Seq<char>) -> GatheringView {
        self.after(XmlView::Start(qname)).after(XmlView::Text(text)).after(XmlView::End(qname))
    }
}

/// The name, the model and the base of a device are the texts of their
/// elements, outside of its services; other elements say nothing.
pub proof fn device_is_what_its_elements_say(
    state: GatheringView,
    qname: Seq<char>,
    text: Seq<char>,
)
    requires
        !state.in_service,
        local_part(qname) != "service"@,
    ensures
        ({
            let next = state.after_element(qname, text);
            &&& local_part(qname) == "friendlyName"@ ==> next.friendly == Some(text)
            &&& local_part(qname) != "friendlyName"@ ==> next.friendly == state.friendly
            &&& local_part(qname) == "modelName"@ ==> next.model == Some(text)
            &&& local_part(qname) != "modelName"@ ==> next.model == state.model
            &&& local_part(qname) == "URLBase"@ ==> next.url_base == Some(text)
            &&& local_part(qname) != "URLBase"@ ==> next.url_base == state.url_base
            &&& next.control == state.control && next.rendering == state.rendering
            &&& !next.in_service
        }),
{
    reveal_strlit("friendlyName");
    reveal_strlit("modelName");
    reveal_strlit("URLBase");
    reveal_strlit("service");
    assert("friendlyName"@.len() == 12);
    assert("modelName"@.len() == 9);
    assert("URLBase"@.len() == 7);
    assert("service"@.len() == 7);
    assert("URLBase"@[0] != "service"@[0]);
}

/// A service gives its own control address: the first of a transport is where
/// playback is controlled, the first that controls rendering is where the
/// volume is. What it says of names does not name the device.
pub proof fn services_give_their_control(
    state: GatheringView,
    service: Seq<char>,
    kind_name: Seq<char>,
    kind: Seq<char>,
    control_name: Seq<char>,
    control: Seq<char>,
)
    requires
        local_part(service) == "service"@,
        local_part(kind_name) == "serviceType"@,
        local_part(control_name) == "controlURL"@,
        control.len() > 0,
    ensures
        ({
            let next = state.after(XmlView::Start(service)).after_element(
                kind_name,
                kind,
            ).after_element(control_name, control).after(XmlView::End(service));
            &&& state.control is None && has(kind, "AVTransport"@) ==> next.control == Some(control)
            &&& state.control is Some || !(has(kind, "AVTransport"@)) ==> next.control
                == state.control
            &&& state.rendering is None && has(kind, "RenderingControl"@) ==> next.rendering
                == Some(control)
            &&& state.rendering is Some || !(has(kind, "RenderingControl"@)) ==> next.rendering
                == state.rendering
            &&& next.friendly == state.friendly && next.model == state.model && next.url_base
                == state.url_base
            &&& !next.in_service
        }),
{
    reveal_strlit("friendlyName");
    reveal_strlit("modelName");
    reveal_strlit("URLBase");
    reveal_strlit("service");
    reveal_strlit("serviceType");
    reveal_strlit("controlURL");
    assert("friendlyName"@.len() == 12);
    assert("modelName"@.len() == 9);
    assert("URLBase"@.len() == 7);
    assert("service"@.len() == 7);
    assert("serviceType"@.len() == 11);
    assert("controlURL"@.len() == 10);
    assert("URLBase"@[0] != "service"@[0]);
}

/// The addresses of a description are taken from its base, or else from where
/// it was found; without a transport there is none to control.
pub proof fn addresses_are_taken_from_the_base(state: GatheringView, location: Seq<char>)
    ensures
        ({
            let description = description_of(state, location);
            &&& description.friendly == state.friendly && description.model == state.model
            &&& state.control is None ==> description.control is None
            &&& state.rendering is None ==> description.rendering is None
            &&& state.control matches Some(control) ==> {
                &&& state.url_base is None ==> description.control == url_joined(
                    location,
                    trimmed(control),
                )
                &&& state.url_base matches Some(base) ==> description.control == url_joined(
                    base,
                    trimmed(control),
                )
            }
            &&& state.rendering matches Some(rendering) ==> {
                &&& state.url_base is None ==> description.rendering == url_joined(
                    location,
                    trimmed(rendering),
                )
                &&& state.url_base matches Some(base) ==> description.rendering == url_joined(
                    base,
                    trimmed(rendering),
                )
            }
        }),
{
}

/// A renderer is one that can be controlled on its host, by http or https; it
/// is called what it calls itself, else by its host, and is known by its
/// address.
pub proof fn renderers_can_be_controlled(
    description: DescriptionView,
    host: Seq<char>,
    ip: Seq<char>,
    port: u16,
)
    ensures
        renderer(description, host, ip, port) is Some <==> (description.control matches Some(url)
            && (url_parts(url) matches Some(parts) && (parts.scheme == "http"@ || parts.scheme
            == "https"@) && parts.host == Some(host))),
        renderer(description, host, ip, port) matches Some(device) ==> {
            &&& device.protocol == "dlna"@
            &&& device.ip == ip && device.host == host && device.port == port
            &&& device.id == "dlna:"@ + ip
            &&& device.control_url == description.control
            &&& description.friendly matches Some(name) ==> device.name == name
            &&& description.friendly is None ==> device.name == host
            &&& description.model matches Some(model) ==> device.model == model
            &&& device.rendering_url is Some ==> device.rendering_url == description.rendering
            &&& description.rendering matches Some(url) ==> (url_parts(url) matches Some(parts)
                ==> (parts.scheme == "http"@ && parts.host == Some(host) ==> device.rendering_url
                == Some(url)))
        },
{
}

/// A renderer that announced itself is at the address and on the port where its
/// description lies; one that was probed for where it answered, with a page
/// that speaks of renderers.
pub proof fn renderers_are_where_they_answer(
    location: Seq<char>,
    xml: Seq<char>,
    ip: Seq<char>,
    port: u16,
)
    ensures
        located(location, xml, ip) matches Some(device) ==> device.ip == ip && (url_parts(
            location,
        ) matches Some(parts) && parts.host == Some(device.host) && (parts.port matches Some(p)
            ==> device.port == p)),
        probed(ip, port, location, xml) matches Some(device) ==> device.ip == ip && device.host
            == ip && device.port == port && (has(xml, "MediaRenderer"@) || has(
            xml,
            "AVTransport"@,
        )),
        !(has(xml, "MediaRenderer"@)) && !(has(xml, "AVTransport"@)) ==> probed(
            ip,
            port,
            location,
            xml,
        ) is None,
        has(xml, "AVTransport"@) || has(xml, "MediaRenderer"@) ==> probed(ip, port, location, xml)
            == renderer(description_of(gathered(plain_events(xml)), location), ip, ip, port),
{
}

/// A description is looked for on the address itself.
pub proof fn probes_go_to_the_address(ip: Seq<char>, port: u16, path: Seq<char>)
    ensures
        begins(probe_location(ip, port, path), "http://"@ + ip + ":"@ + decimal(port as nat)),
        ends(probe_location(ip, port, path), path),
{
    let head = "http://"@ + ip + ":"@ + decimal(port as nat);
    let place = probe_location(ip, port, path);
    assert(place.take(head.len() as int) =~= head);
    assert(place.skip(place.len() - path.len()) =~= path);
}

/// Renderers are searched for first, by the name that UPnP gives them, and then
/// all devices.
pub proof fn renderers_are_searched_for_first()
    ensures
        targets().len() == 2,
        targets()[0] == "urn:schemas-upnp-org:device:MediaRenderer:1"@,
        targets()[1] == "ssdp:all"@,
{
}

/// Descriptions are read up to a mebibyte, and where nothing is said of their
/// length.
pub proof fn descriptions_of_some_length_are_read(n: u64)
    ensures
        is_read(None),
        is_read(Some(n)) <==> n <= 1024 * 1024,
{
}

/// A renderer that takes the stream is started; one that does not is asked once
/// more, and then given up with what it says.
pub proof fn renderer_is_asked_twice(step: PlayStep, first: bool, status: u16, body: Seq<char>)
    requires
        follows(step, first, status, body),
    ensures
        step is Start <==> status == 200,
        step is Again <==> status != 200 && first,
        step is Failed <==> status != 200 && !first,
        step matches PlayStep::Failed(message) ==> message@ == play_failure(status, body),
{
}

/// The duration of the track and the time within it are read, each from its
/// element.
pub proof fn times_are_read_from_the_answer(value: Seq<char>, after: Seq<char>)
    requires
        !value.contains('<'),
    ensures
        times_in(element("TrackDuration"@, value) + after).0 == Some(value),
        times_in(element("RelTime"@, value) + after).1 == Some(value),
{
    first_element_is_read("TrackDuration"@, value, after);
    first_element_is_read("RelTime"@, value, after);
}

/// The volume of all channels together is meant.
pub proof fn master_channel_is_meant()
    ensures
        master() == element("Channel"@, "Master"@),
{
    reveal_strlit("<Channel>Master</Channel>");
    reveal_strlit("Channel");
    reveal_strlit("Master");
    reveal_strlit("<");
    reveal_strlit(">");
    reveal_strlit("</");
    assert(master() =~= element("Channel"@, "Master"@));
}

/// A reply is read line by line: what its first line announces is among its
/// locations, and so is what the lines behind it announce.
pub proof fn replies_are_read_line_by_line(
    line: Seq<char>,
    rest: Seq<char>,
    location: Seq<char>,
)
    requires
        !line.contains('\r'),
    ensures
        locations_in(line + "\r\n"@ + rest).contains(location) <==> location_of(line) == Some(
            location,
        ) || locations_in(rest).contains(location),
        locations_in(line).contains(location) <==> location_of(line) == Some(location),
{
    reveal_strlit("\r\n");
    let sep = "\r\n"@;
    let text = line + sep + rest;
    let at = line.len() as int;
    assert(text.subrange(at, at + 2) =~= sep);
    assert forall|j: int| 0 <= j < at implies !occurs_at(text, sep, j) by {
        assert(text.subrange(j, j + 2)[0] == line[j]);
        assert(line.contains(line[j]));
    }
    cut_is_where_it_is_found(text, sep, at);
    assert(text.take(at) =~= line && text.skip(at + 2) =~= rest);
    let behind = parts_of(rest, sep);
    let all = seq![line] + behind;
    assert(parts_of(text, sep) == all);
    every_announced_location_is_found(all, location);
    every_announced_location_is_found(behind, location);
    if locations_of(all).contains(location) {
        let i = choose|i: int| 0 <= i < all.len() && location_of(#[trigger] all[i]) == Some(location);
        if i > 0 {
            assert(location_of(behind[i - 1]) == Some(location));
        }
    }
    if location_of(line) == Some(location) {
        assert(location_of(all[0]) == Some(location));
    }
    if locations_of(behind).contains(location) {
        let i = choose|i: int|
            0 <= i < behind.len() && location_of(#[trigger] behind[i]) == Some(location);
        assert(location_of(all[i + 1]) == Some(location));
    }
    find_is_first(line, sep, 0);
    assert(cut(line, sep) is None) by {
        if let Some(j) = crate::text::find_from(line, sep, 0) {
            assert(line.subrange(j, j + 2)[0] == line[j]);
            assert(line.contains(line[j]));
        }
    }
    let one = seq![line];
    every_announced_location_is_found(one, location);
    if location_of(line) == Some(location) {
        assert(location_of(one[0]) == Some(location));
    }
}

} // verus!
