//! From what was heard on the network to a list of receivers.
use vstd::prelude::*;

use crate::protocol::{device_views, Device, DeviceView};
use crate::settings::{holds, insert_sorted};
use crate::text::{
    ascending, begins, ends, is_empty, less, lowercase, placed, placed_is_inserted, precedes,
    precedes_is_total, precedes_is_transitive, same, strip_suffix, take_adds, to_lowercase, views,
};

verus! {

/// The port on which Cast receivers listen.
pub const CAST_PORT: u16 = 8009;

// ---------------------------------------------------------------------------
// Announced services

/// A service that a receiver announced by mDNS.
#[derive(Debug)]
pub struct ServiceRecord {
    /// An IPv4 address of the receiver.
    pub ip: Option<String>,
    pub fullname: String,
    pub hostname: String,
    pub port: u16,
    /// The property `fn` of a Cast receiver: its friendly name.
    pub friendly: Option<String>,
    /// The property that names the model: `md`, or `model` for AirPlay.
    pub model: Option<String>,
    /// The property that identifies the receiver: `id`, or `deviceid` for AirPlay.
    pub ident: Option<String>,
}

/// The name of a service without the suffix that all of its kind have.
pub open spec fn bare_name(fullname: Seq<char>, suffix: Seq<char>) -> Seq<char> {
    if ends(fullname, suffix) {
        fullname.take(fullname.len() - suffix.len())
    } else {
        fullname
    }
}

/// The name of a service without the suffix that all of its kind have.
pub fn service_name(fullname: &str, suffix: &str) -> (r: String)
    ensures
        r@ == bare_name(fullname@, suffix@),
{
    match strip_suffix(fullname, suffix) {
        Some(name) => name,
        None => fullname.to_owned(),
    }
}

/// The receiver that a record announces.
pub open spec fn announced(
    record: ServiceRecord,
    ip: Seq<char>,
    protocol: Seq<char>,
    name: Seq<char>,
) -> DeviceView {
    DeviceView {
        name,
        host: record.hostname@,
        ip,
        port: record.port,
        protocol,
        model: match record.model {
            Some(model) => model@,
            None => Seq::empty(),
        },
        id: protocol + ":"@ + (match record.ident {
            Some(ident) => ident@,
            None => ip,
        }),
        control_url: None,
        rendering_url: None,
        alternates: Seq::empty(),
    }
}

fn announced_device(record: &ServiceRecord, ip: &str, protocol: &str, name: String) -> (r: Device)
    ensures
        r@ == announced(*record, ip@, protocol@, name@),
{
    let mut id = protocol.to_owned();
    id.append(":");
    match &record.ident {
        Some(ident) => {
            id.append(ident.as_str());
        },
        None => {
            id.append(ip);
        },
    }
    let r = Device {
        name,
        host: record.hostname.clone(),
        ip: ip.to_owned(),
        port: record.port,
        protocol: protocol.to_owned(),
        model: match &record.model {
            Some(model) => model.clone(),
            None => String::new(),
        },
        id,
        control_url: None,
        rendering_url: None,
        alternates: Vec::new(),
    };
    assert(r@.alternates =~= Seq::empty());
    r
}

/// The Cast receiver that a record announces at an address.
pub open spec fn announced_cast(record: ServiceRecord, ip: Seq<char>) -> DeviceView {
    announced(
        record,
        ip,
        "cast"@,
        match record.friendly {
            Some(name) => name@,
            None => bare_name(record.fullname@, "._googlecast._tcp.local."@),
        },
    )
}

/// The AirPlay receiver that a record announces at an address.
pub open spec fn announced_airplay(record: ServiceRecord, ip: Seq<char>) -> DeviceView {
    announced(record, ip, "airplay"@, bare_name(record.fullname@, "._airplay._tcp.local."@))
}

/// The Cast receiver that a record announces; none without an address.
pub fn cast_device(record: &ServiceRecord) -> (r: Option<Device>)
    ensures
        match r {
            Some(device) => record.ip matches Some(ip) && device@ == announced_cast(*record, ip@),
            None => record.ip is None,
        },
{
    match &record.ip {
        Some(ip) => {
            let name = match &record.friendly {
                Some(name) => name.clone(),
                None => service_name(record.fullname.as_str(), "._googlecast._tcp.local."),
            };
            Some(announced_device(record, ip.as_str(), "cast", name))
        },
        None => None,
    }
}

/// The AirPlay receiver that a record announces; none without an address.
pub fn airplay_device(record: &ServiceRecord) -> (r: Option<Device>)
    ensures
        match r {
            Some(device) => record.ip matches Some(ip) && device@ == announced_airplay(*record, ip@),
            None => record.ip is None,
        },
{
    match &record.ip {
        Some(ip) => {
            let name = service_name(record.fullname.as_str(), "._airplay._tcp.local.");
            Some(announced_device(record, ip.as_str(), "airplay", name))
        },
        None => None,
    }
}

// ---------------------------------------------------------------------------
// Receivers that speak Cast though they did not say so

/// A Cast receiver with this address was heard.
pub open spec fn cast_heard(devices: Seq<DeviceView>, ip: Seq<char>) -> bool {
    exists|i: int|
        0 <= i < devices.len() && (#[trigger] devices[i]).protocol == "cast"@ && devices[i].ip == ip
}

/// A receiver of which only AirPlay was heard.
pub open spec fn airplay_only(devices: Seq<DeviceView>, device: DeviceView) -> bool {
    device.protocol == "airplay"@ && !cast_heard(devices, device.ip)
}

/// The same receiver, reached by Cast.
pub open spec fn as_cast(device: DeviceView) -> DeviceView {
    DeviceView {
        protocol: "cast"@,
        port: CAST_PORT,
        id: "cast:"@ + device.ip,
        alternates: seq!["airplay"@],
        ..device
    }
}

fn heard_as_cast(devices: &Vec<Device>, ip: &str) -> (r: bool)
    ensures
        r == cast_heard(device_views(devices@), ip@),
{
    let ghost all = device_views(devices@);
    for i in 0..devices.len()
        invariant
            all == device_views(devices@),
            forall|j: int|
                0 <= j < i ==> !((#[trigger] all[j]).protocol == "cast"@ && all[j].ip == ip@),
    {
        assert(all[i as int] == devices@[i as int]@);
        if same(devices[i].protocol.as_str(), "cast") && same(devices[i].ip.as_str(), ip) {
            return true;
        }
    }
    false
}

/// What becomes of a receiver: one of which only AirPlay was heard is reached
/// by Cast where `cast_open` says so; any other stays as it is.
pub open spec fn is_settled<F: Fn(&str) -> bool>(
    cast_open: F,
    devices: Seq<DeviceView>,
    device: DeviceView,
    after: DeviceView,
) -> bool {
    if airplay_only(devices, device) {
        exists|ip: &str, open: bool|
            ip@ == device.ip && #[trigger] call_ensures(cast_open, (ip,), open) && after == (
            if open {
                as_cast(device)
            } else {
                device
            })
    } else {
        after == device
    }
}

/// mDNS is best-effort: a TV that speaks both Google Cast and AirPlay (LG
/// webOS, for one) can show up in a given scan with only its AirPlay record,
/// and would then be routed over the weaker protocol. Anything that answers
/// on the Cast port is a Cast receiver, whatever the scan happened to hear.
/// `cast_open` tells whether an address answers there; it is asked about
/// receivers of which only AirPlay was heard, and need answer for no others.
pub fn promote_cast_capable<F: Fn(&str) -> bool>(devices: Vec<Device>, cast_open: F) -> (r: Vec<
    Device,
>)
    requires
        forall|i: int, ip: &str|
            0 <= i < devices@.len() && airplay_only(
                device_views(devices@),
                #[trigger] device_views(devices@)[i],
            ) && ip@ == device_views(devices@)[i].ip ==> #[trigger] call_requires(cast_open, (ip,)),
    ensures
        r@.len() == devices@.len(),
        forall|i: int|
            0 <= i < r@.len() ==> is_settled(
                cast_open,
                device_views(devices@),
                device_views(devices@)[i],
                (#[trigger] r@[i])@,
            ),
{
    let ghost all = device_views(devices@);
    let mut out: Vec<Device> = Vec::new();
    for i in 0..devices.len()
        invariant
            all == device_views(devices@),
            forall|j: int, ip: &str|
                0 <= j < devices@.len() && airplay_only(all, #[trigger] all[j]) && ip@ == all[j].ip
                    ==> #[trigger] call_requires(cast_open, (ip,)),
            out@.len() == i,
            forall|j: int|
                0 <= j < i ==> is_settled(cast_open, all, all[j], (#[trigger] out@[j])@),
    {
        let device = &devices[i];
        let ip = device.ip.as_str();
        assert(all[i as int] == device@);
        if !same(device.protocol.as_str(), "airplay") || heard_as_cast(&devices, ip) {
            out.push(device.clone());
        } else {
            let open = cast_open(ip);
            if open {
                let mut id = "cast:".to_owned();
                id.append(ip);
                let copy = device.clone();
                let promoted = Device {
                    protocol: "cast".to_owned(),
                    port: CAST_PORT,
                    id,
                    alternates: vec!["airplay".to_owned()],
                    ..copy
                };
                assert(promoted@.alternates =~= seq!["airplay"@]);
                out.push(promoted);
            } else {
                out.push(device.clone());
            }
            assert(call_ensures(cast_open, (ip,), open));
        }
    }
    out
}

/// The addresses of some receivers.
pub open spec fn addresses(devices: Seq<Device>) -> Seq<Seq<char>> {
    Seq::new(devices.len(), |i: int| devices[i]@.ip)
}

/// The addresses to look for DLNA renderers at: those heard by mDNS and those
/// the user entered, in ascending order and each once.
pub fn candidates(mdns: &Vec<Device>, manual: &Vec<String>) -> (r: Vec<String>)
    ensures
        ascending(views(r@)),
        views(r@).to_set() == addresses(mdns@).to_set().union(views(manual@).to_set()),
{
    let mut out: Vec<String> = Vec::new();
    assert(views(out@).to_set() =~= addresses(mdns@).take(0).to_set());
    for i in 0..mdns.len()
        invariant
            ascending(views(out@)),
            views(out@).to_set() == addresses(mdns@).take(i as int).to_set(),
    {
        insert_sorted(&mut out, mdns[i].ip.as_str());
        proof {
            take_adds(addresses(mdns@), i as int);
        }
    }
    assert(addresses(mdns@).take(mdns@.len() as int) =~= addresses(mdns@));
    let ghost heard = addresses(mdns@).to_set();
    assert(views(out@).to_set() =~= heard.union(views(manual@).take(0).to_set()));
    for i in 0..manual.len()
        invariant
            ascending(views(out@)),
            views(out@).to_set() == heard.union(views(manual@).take(i as int).to_set()),
    {
        insert_sorted(&mut out, manual[i].as_str());
        proof {
            take_adds(views(manual@), i as int);
            let known = views(manual@).take(i as int).to_set();
            assert(heard.union(known).insert(manual@[i as int]@) =~= heard.union(
                known.insert(manual@[i as int]@),
            ));
        }
    }
    assert(views(manual@).take(manual@.len() as int) =~= views(manual@));
    out
}

// ---------------------------------------------------------------------------
// One entry for each address

/// How much a protocol is preferred; more is better.
pub open spec fn preference_of(protocol: Seq<char>) -> u8 {
    if protocol == "dlna"@ {
        3
    } else if protocol == "cast"@ {
        2
    } else if protocol == "airplay"@ {
        1
    } else {
        0
    }
}

/// How much a protocol is preferred; more is better.
pub fn preference(protocol: &str) -> (r: u8)
    ensures
        r == preference_of(protocol@),
{
    if same(protocol, "dlna") {
        3
    } else if same(protocol, "cast") {
        2
    } else if same(protocol, "airplay") {
        1
    } else {
        0
    }
}

/// Where the first receiver with this address stands.
pub open spec fn index_of_ip(devices: Seq<DeviceView>, ip: Seq<char>) -> Option<int>
    decreases devices.len(),
{
    if devices.len() == 0 {
        None
    } else {
        match index_of_ip(devices.drop_last(), ip) {
            Some(i) => Some(i),
            None => if devices.last().ip == ip {
                Some(devices.len() - 1)
            } else {
                None
            },
        }
    }
}

/// `list` with `item` in its place, unless it is there.
pub open spec fn with_item(list: Seq<Seq<char>>, item: Seq<char>) -> Seq<Seq<char>> {
    if list.contains(item) {
        list
    } else {
        placed(list, item)
    }
}

/// `list` with each of `items` in its place.
pub open spec fn with_items(list: Seq<Seq<char>>, items: Seq<Seq<char>>) -> Seq<Seq<char>>
    decreases items.len(),
{
    if items.len() == 0 {
        list
    } else {
        with_item(with_items(list, items.drop_last()), items.last())
    }
}

/// Two entries for the same address in one: what is preferred is kept, and
/// takes over what it lacks.
pub open spec fn blended(keep: DeviceView, drop: DeviceView) -> DeviceView {
    DeviceView {
        alternates: with_item(
            with_items(with_items(Seq::empty(), keep.alternates), drop.alternates),
            drop.protocol,
        ),
        name: if (keep.name.len() == 0 || keep.name == keep.ip) && drop.name.len() > 0 {
            drop.name
        } else {
            keep.name
        },
        model: if keep.model.len() == 0 && drop.model.len() > 0 {
            drop.model
        } else {
            keep.model
        },
        ..keep
    }
}

/// Two entries for the same address in one.
pub open spec fn combined(existing: DeviceView, newer: DeviceView) -> DeviceView {
    if preference_of(newer.protocol) > preference_of(existing.protocol) {
        blended(newer, existing)
    } else {
        blended(existing, newer)
    }
}

/// One entry for each address.
pub open spec fn merged(devices: Seq<DeviceView>) -> Seq<DeviceView>
    decreases devices.len(),
{
    if devices.len() == 0 {
        Seq::empty()
    } else {
        let before = merged(devices.drop_last());
        let device = devices.last();
        match index_of_ip(before, device.ip) {
            Some(i) => before.update(i, combined(before[i], device)),
            None => before.push(device),
        }
    }
}

/// `a` is listed before `b`: by protocol, then by name without regard to case.
pub open spec fn listed_before(a: DeviceView, b: DeviceView) -> bool {
    precedes(a.protocol, b.protocol) || (a.protocol == b.protocol && precedes(
        lowercase(a.name),
        lowercase(b.name),
    ))
}

/// `device` in its place among `devices`.
pub open spec fn device_placed(devices: Seq<DeviceView>, device: DeviceView) -> Seq<DeviceView>
    decreases devices.len(),
{
    if devices.len() == 0 {
        seq![device]
    } else if listed_before(device, devices[0]) {
        seq![device] + devices
    } else {
        seq![devices[0]] + device_placed(devices.skip(1), device)
    }
}

/// The receivers in the order in which they are listed.
pub open spec fn devices_in_order(devices: Seq<DeviceView>) -> Seq<DeviceView>
    decreases devices.len(),
{
    if devices.len() == 0 {
        Seq::empty()
    } else {
        device_placed(devices_in_order(devices.drop_last()), devices.last())
    }
}

fn find_ip(devices: &Vec<Device>, ip: &str) -> (r: Option<usize>)
    ensures
        match r {
            Some(i) => index_of_ip(device_views(devices@), ip@) == Some(i as int) && i
                < devices@.len(),
            None => index_of_ip(device_views(devices@), ip@) is None,
        },
{
    let mut found: Option<usize> = None;
    assert(device_views(devices@).take(0) =~= Seq::empty());
    for i in 0..devices.len()
        invariant
            match found {
                Some(k) => index_of_ip(device_views(devices@).take(i as int), ip@) == Some(k as int)
                    && k < i,
                None => index_of_ip(device_views(devices@).take(i as int), ip@) is None,
            },
    {
        let ghost upto = device_views(devices@).take(i + 1);
        assert(upto.drop_last() =~= device_views(devices@).take(i as int));
        assert(upto.last() == devices@[i as int]@);
        if found.is_none() && same(devices[i].ip.as_str(), ip) {
            found = Some(i);
        }
    }
    assert(device_views(devices@).take(devices@.len() as int) =~= device_views(devices@));
    found
}

fn add_item(list: &mut Vec<String>, item: &str)
    ensures
        views(final(list)@) == with_item(views(old(list)@), item@),
{
    if holds(list, item) {
        return;
    }
    let ghost before = views(list@);
    let mut at: usize = 0;
    while at < list.len() && !less(item, list[at].as_str())
        invariant
            at <= list@.len(),
            views(list@) == before,
            forall|j: int| 0 <= j < at ==> !precedes(item@, #[trigger] before[j]),
        decreases list@.len() - at,
    {
        assert(before[at as int] == list@[at as int]@);
        at = at + 1;
    }
    proof {
        if at < list@.len() {
            assert(before[at as int] == list@[at as int]@);
        }
        placed_is_inserted(before, item@, at as int);
    }
    list.insert(at, item.to_owned());
    assert(views(list@) =~= before.insert(at as int, item@));
}

fn add_items(list: &mut Vec<String>, items: &Vec<String>)
    ensures
        views(final(list)@) == with_items(views(old(list)@), views(items@)),
{
    let ghost before = views(list@);
    assert(views(items@).take(0) =~= Seq::empty());
    for i in 0..items.len()
        invariant
            views(list@) == with_items(before, views(items@).take(i as int)),
    {
        assert(views(items@).take(i + 1).drop_last() =~= views(items@).take(i as int));
        add_item(list, items[i].as_str());
    }
    assert(views(items@).take(items@.len() as int) =~= views(items@));
}

fn blend(keep: &Device, drop: &Device) -> (r: Device)
    ensures
        r@ == blended(keep@, drop@),
{
    let mut alternates: Vec<String> = Vec::new();
    assert(views(alternates@) =~= Seq::empty());
    add_items(&mut alternates, &keep.alternates);
    add_items(&mut alternates, &drop.alternates);
    add_item(&mut alternates, drop.protocol.as_str());
    let mut kept = keep.clone();
    kept.alternates = alternates;
    if (is_empty(keep.name.as_str()) || same(keep.name.as_str(), keep.ip.as_str())) && !is_empty(
        drop.name.as_str(),
    ) {
        kept.name = drop.name.clone();
    }
    if is_empty(keep.model.as_str()) && !is_empty(drop.model.as_str()) {
        kept.model = drop.model.clone();
    }
    kept
}

fn take_device(list: &mut Vec<Device>, device: &Device)
    ensures
        device_views(final(list)@) == (match index_of_ip(device_views(old(list)@), device@.ip) {
            Some(i) => device_views(old(list)@).update(
                i,
                combined(device_views(old(list)@)[i], device@),
            ),
            None => device_views(old(list)@).push(device@),
        }),
{
    let ghost before = device_views(list@);
    match find_ip(list, device.ip.as_str()) {
        Some(i) => {
            assert(before[i as int] == list@[i as int]@);
            let entry = if preference(device.protocol.as_str()) > preference(
                list[i].protocol.as_str(),
            ) {
                blend(device, &list[i])
            } else {
                blend(&list[i], device)
            };
            let ghost shown = entry@;
            list.set(i, entry);
            assert(device_views(list@) =~= before.update(i as int, shown));
        },
        None => {
            list.push(device.clone());
            assert(device_views(list@) =~= before.push(device@));
        },
    }
}

fn comes_first(a: &Device, b: &Device) -> (r: bool)
    ensures
        r == listed_before(a@, b@),
{
    less(a.protocol.as_str(), b.protocol.as_str()) || (same(
        a.protocol.as_str(),
        b.protocol.as_str(),
    ) && less(to_lowercase(a.name.as_str()).as_str(), to_lowercase(b.name.as_str()).as_str()))
}

proof fn device_placed_is_inserted(devices: Seq<DeviceView>, device: DeviceView, at: int)
    requires
        0 <= at <= devices.len(),
        forall|i: int| 0 <= i < at ==> !listed_before(device, #[trigger] devices[i]),
        at < devices.len() ==> listed_before(device, devices[at]),
    ensures
        device_placed(devices, device) == devices.insert(at, device),
    decreases at,
{
    if devices.len() == 0 {
        assert(devices.insert(at, device) =~= seq![device]);
    } else if at == 0 {
        assert(devices.insert(at, device) =~= seq![device] + devices);
    } else {
        assert(!listed_before(device, devices[0]));
        assert forall|i: int| 0 <= i < at - 1 implies !listed_before(
            device,
            #[trigger] devices.skip(1)[i],
        ) by {
            assert(devices.skip(1)[i] == devices[i + 1]);
        }
        device_placed_is_inserted(devices.skip(1), device, at - 1);
        assert(devices.insert(at, device) =~= seq![devices[0]] + devices.skip(1).insert(
            at - 1,
            device,
        ));
    }
}

fn sort_devices(devices: Vec<Device>) -> (r: Vec<Device>)
    ensures
        device_views(r@) == devices_in_order(device_views(devices@)),
{
    let mut out: Vec<Device> = Vec::new();
    assert(device_views(out@) =~= devices_in_order(device_views(devices@).take(0)));
    for i in 0..devices.len()
        invariant
            device_views(out@) == devices_in_order(device_views(devices@).take(i as int)),
    {
        let ghost before = device_views(out@);
        let device = &devices[i];
        let mut at: usize = 0;
        while at < out.len() && !comes_first(device, &out[at])
            invariant
                at <= out@.len(),
                device_views(out@) == before,
                forall|j: int| 0 <= j < at ==> !listed_before(device@, #[trigger] before[j]),
            decreases out@.len() - at,
        {
            assert(before[at as int] == out@[at as int]@);
            at = at + 1;
        }
        proof {
            if at < out@.len() {
                assert(before[at as int] == out@[at as int]@);
            }
            device_placed_is_inserted(before, device@, at as int);
        }
        out.insert(at, device.clone());
        assert(device_views(out@) =~= before.insert(at as int, device@));
        assert(device_views(devices@).take(i + 1).drop_last() =~= device_views(devices@).take(
            i as int,
        ));
    }
    assert(device_views(devices@).take(devices@.len() as int) =~= device_views(devices@));
    out
}

/// The receivers that were heard by mDNS and found by DLNA, one entry for each
/// address, in the order in which they are listed.
pub fn merge(mdns: Vec<Device>, dlna_devices: Vec<Device>) -> (r: Vec<Device>)
    ensures
        device_views(r@) == devices_in_order(
            merged(device_views(mdns@) + device_views(dlna_devices@)),
        ),
{
    let ghost first = device_views(mdns@);
    let ghost second = device_views(dlna_devices@);
    let mut list: Vec<Device> = Vec::new();
    assert(device_views(list@) =~= merged(first.take(0)));
    for i in 0..mdns.len()
        invariant
            first == device_views(mdns@),
            device_views(list@) == merged(first.take(i as int)),
    {
        assert(first.take(i + 1).drop_last() =~= first.take(i as int));
        assert(first.take(i + 1).last() == mdns@[i as int]@);
        take_device(&mut list, &mdns[i]);
    }
    assert(first.take(mdns@.len() as int) =~= first + second.take(0));
    for i in 0..dlna_devices.len()
        invariant
            second == device_views(dlna_devices@),
            device_views(list@) == merged(first + second.take(i as int)),
    {
        let ghost upto = first + second.take(i + 1);
        assert(upto.drop_last() =~= first + second.take(i as int));
        assert(upto.last() == dlna_devices@[i as int]@);
        take_device(&mut list, &dlna_devices[i]);
    }
    assert(second.take(dlna_devices@.len() as int) =~= second);
    sort_devices(list)
}

/// A renderer in the place of one with the same address, or at the end.
pub open spec fn kept(devices: Seq<DeviceView>, device: DeviceView) -> Seq<DeviceView> {
    match index_of_ip(devices, device.ip) {
        Some(i) => devices.update(i, device),
        None => devices.push(device),
    }
}

/// Puts a renderer in the place of one with the same address, or at the end.
pub fn keep_device(devices: &mut Vec<Device>, device: Device)
    ensures
        device_views(final(devices)@) == kept(device_views(old(devices)@), device@),
{
    let ghost before = device_views(devices@);
    let ghost shown = device@;
    match find_ip(devices, device.ip.as_str()) {
        Some(i) => {
            devices.set(i, device);
            assert(device_views(devices@) =~= before.update(i as int, shown));
        },
        None => {
            devices.push(device);
            assert(device_views(devices@) =~= before.push(shown));
        },
    }
}

/// The first receiver with this address.
pub fn device_at(devices: &Vec<Device>, ip: &str) -> (r: Option<Device>)
    ensures
        match r {
            Some(device) => index_of_ip(device_views(devices@), ip@) matches Some(i) && device@
                == device_views(devices@)[i],
            None => index_of_ip(device_views(devices@), ip@) is None,
        },
{
    match find_ip(devices, ip) {
        Some(i) => {
            assert(device_views(devices@)[i as int] == devices@[i as int]@);
            Some(devices[i].clone())
        },
        None => None,
    }
}

// ---------------------------------------------------------------------------
// Laws

/// What is found under an address has it, and nothing before it has.
pub proof fn index_is_first(devices: Seq<DeviceView>, ip: Seq<char>)
    ensures
        match index_of_ip(devices, ip) {
            Some(i) => 0 <= i < devices.len() && devices[i].ip == ip && forall|j: int|
                0 <= j < i ==> (#[trigger] devices[j]).ip != ip,
            None => forall|j: int| 0 <= j < devices.len() ==> (#[trigger] devices[j]).ip != ip,
        },
    decreases devices.len(),
{
    if devices.len() > 0 {
        let head = devices.drop_last();
        index_is_first(head, ip);
        match index_of_ip(head, ip) {
            Some(i) => {
                assert(devices[i] == head[i]);
                assert forall|j: int| 0 <= j < i implies (#[trigger] devices[j]).ip != ip by {
                    assert(devices[j] == head[j]);
                }
            },
            None => {
                assert forall|j: int| 0 <= j < devices.len() - 1 implies (
                #[trigger] devices[j]).ip != ip by {
                    assert(devices[j] == head[j]);
                }
            },
        }
    }
}

/// No address is listed twice.
pub proof fn merged_once(devices: Seq<DeviceView>)
    ensures
        forall|i: int, j: int|
            0 <= i < j < merged(devices).len() ==> (#[trigger] merged(devices)[i]).ip != (
            #[trigger] merged(devices)[j]).ip,
    decreases devices.len(),
{
    if devices.len() > 0 {
        let before = merged(devices.drop_last());
        let device = devices.last();
        merged_once(devices.drop_last());
        index_is_first(before, device.ip);
        let after = merged(devices);
        assert forall|i: int, j: int| 0 <= i < j < after.len() implies (#[trigger] after[i]).ip != (
        #[trigger] after[j]).ip by {
            match index_of_ip(before, device.ip) {
                Some(k) => {
                    assert(after[k].ip == before[k].ip);
                    assert(before[i].ip != before[j].ip);
                },
                None => {
                    if j < before.len() {
                        assert(before[i].ip != before[j].ip);
                    } else {
                        assert(before[i].ip != device.ip);
                    }
                },
            }
        }
    }
}

/// Every address that was heard or found is listed, and by a protocol that is
/// preferred to none under which it was.
pub proof fn merged_by_best(devices: Seq<DeviceView>, k: int)
    requires
        0 <= k < devices.len(),
    ensures
        exists|i: int|
            0 <= i < merged(devices).len() && (#[trigger] merged(devices)[i]).ip == devices[k].ip
                && preference_of(merged(devices)[i].protocol) >= preference_of(devices[k].protocol),
    decreases devices.len(),
{
    let before = merged(devices.drop_last());
    let device = devices.last();
    let after = merged(devices);
    index_is_first(before, device.ip);
    if k == devices.len() - 1 {
        match index_of_ip(before, device.ip) {
            Some(i) => {
                assert(after[i] == combined(before[i], device));
            },
            None => {
                assert(after[before.len() as int] == device);
            },
        }
    } else {
        merged_by_best(devices.drop_last(), k);
        assert(devices.drop_last()[k] == devices[k]);
        let i = choose|i: int|
            0 <= i < before.len() && (#[trigger] before[i]).ip == devices[k].ip && preference_of(
                before[i].protocol,
            ) >= preference_of(devices[k].protocol);
        match index_of_ip(before, device.ip) {
            Some(j) => {
                if i == j {
                    assert(after[i] == combined(before[i], device));
                } else {
                    assert(after[i] == before[i]);
                }
            },
            None => {
                assert(after[i] == before[i]);
            },
        }
    }
}

proof fn device_place(devices: Seq<DeviceView>, device: DeviceView) -> (at: int)
    ensures
        0 <= at <= devices.len(),
        forall|i: int| 0 <= i < at ==> !listed_before(device, #[trigger] devices[i]),
        at < devices.len() ==> listed_before(device, devices[at]),
    decreases devices.len(),
{
    if devices.len() == 0 || listed_before(device, devices[0]) {
        0
    } else {
        let rest = device_place(devices.skip(1), device);
        assert forall|i: int| 0 <= i < rest + 1 implies !listed_before(
            device,
            #[trigger] devices[i],
        ) by {
            if i > 0 {
                assert(devices.skip(1)[i - 1] == devices[i]);
            }
        }
        rest + 1
    }
}

proof fn listing_is_transitive(a: DeviceView, b: DeviceView, c: DeviceView)
    requires
        listed_before(a, b),
        listed_before(b, c),
    ensures
        listed_before(a, c),
{
    precedes_is_total(a.protocol, b.protocol);
    precedes_is_total(b.protocol, c.protocol);
    if precedes(a.protocol, b.protocol) && precedes(b.protocol, c.protocol) {
        precedes_is_transitive(a.protocol, b.protocol, c.protocol);
    }
    if a.protocol == b.protocol && b.protocol == c.protocol {
        precedes_is_transitive(lowercase(a.name), lowercase(b.name), lowercase(c.name));
    }
}

proof fn listing_is_one_way(a: DeviceView, b: DeviceView)
    ensures
        listed_before(a, b) ==> !listed_before(b, a),
{
    precedes_is_total(a.protocol, b.protocol);
    precedes_is_total(b.protocol, a.protocol);
    precedes_is_total(lowercase(a.name), lowercase(b.name));
}

/// Receivers are listed by protocol and name, and none gets lost by that.
pub proof fn listing_is_ordered(devices: Seq<DeviceView>)
    ensures
        forall|i: int, j: int|
            0 <= i < j < devices_in_order(devices).len() ==> !listed_before(
                #[trigger] devices_in_order(devices)[j],
                #[trigger] devices_in_order(devices)[i],
            ),
        devices_in_order(devices).to_multiset() == devices.to_multiset(),
    decreases devices.len(),
{
    if devices.len() == 0 {
        assert(devices_in_order(devices) =~= devices);
    } else {
        let head = devices_in_order(devices.drop_last());
        let device = devices.last();
        listing_is_ordered(devices.drop_last());
        let at = device_place(head, device);
        device_placed_is_inserted(head, device, at);
        let all = head.insert(at, device);
        assert forall|i: int, j: int| 0 <= i < j < all.len() implies !listed_before(
            #[trigger] all[j],
            #[trigger] all[i],
        ) by {
            if i == at {
                listing_is_one_way(device, head[at]);
                if j - 1 > at {
                    assert(!listed_before(head[j - 1], head[at]));
                    if listed_before(head[j - 1], device) {
                        listing_is_transitive(head[j - 1], device, head[at]);
                    }
                }
            } else if j == at {
                assert(!listed_before(device, head[i]));
            } else {
                let a = if i < at {
                    i
                } else {
                    i - 1
                };
                let b = if j < at {
                    j
                } else {
                    j - 1
                };
                assert(all[i] == head[a] && all[j] == head[b]);
            }
        }
        vstd::seq_lib::to_multiset_insert(head, at, device);
        assert(devices =~= devices.drop_last().push(device));
        vstd::seq_lib::to_multiset_build(devices.drop_last(), device);
    }
}

/// A renderer comes before a Cast receiver, that before one for AirPlay, and
/// any of them before what is not known.
pub proof fn protocols_are_ranked(protocol: Seq<char>)
    ensures
        preference_of("dlna"@) > preference_of("cast"@),
        preference_of("cast"@) > preference_of("airplay"@),
        protocol != "dlna"@ && protocol != "cast"@ && protocol != "airplay"@ ==> preference_of(
            "airplay"@,
        ) > preference_of(protocol),
{
    reveal_strlit("dlna");
    reveal_strlit("cast");
    reveal_strlit("airplay");
    assert("dlna"@.len() == 4);
    assert("cast"@.len() == 4);
    assert("airplay"@.len() == 7);
    assert("dlna"@[0] != "cast"@[0]);
}

/// Two entries are of the same receiver, reached in the same way.
pub open spec fn same_way(a: DeviceView, b: DeviceView) -> bool {
    &&& a.host == b.host
    &&& a.ip == b.ip
    &&& a.port == b.port
    &&& a.protocol == b.protocol
    &&& a.id == b.id
    &&& a.control_url == b.control_url
    &&& a.rendering_url == b.rendering_url
}

/// A name that says more than the address does.
pub open spec fn telling(device: DeviceView) -> bool {
    device.name.len() > 0 && device.name != device.ip
}

proof fn combined_is_one_of_both(a: DeviceView, b: DeviceView)
    requires
        a.ip == b.ip,
    ensures
        same_way(combined(a, b), a) || same_way(combined(a, b), b),
        combined(a, b).name == a.name || combined(a, b).name == b.name,
        combined(a, b).model == a.model || combined(a, b).model == b.model,
        telling(combined(a, b)) == (telling(a) || telling(b)),
        combined(a, b).model.len() == 0 <==> a.model.len() == 0 && b.model.len() == 0,
{
}

/// How an entry of the list is reached (its host, port, protocol and id, and
/// where a renderer is controlled) is taken over whole from one receiver that
/// was heard with its address; its name and its model are of such a one too.
pub proof fn merged_entry_was_heard(devices: Seq<DeviceView>, i: int)
    requires
        0 <= i < merged(devices).len(),
    ensures
        exists|k: int|
            0 <= k < devices.len() && same_way(merged(devices)[i], #[trigger] devices[k]),
        exists|k: int|
            0 <= k < devices.len() && merged(devices)[i].ip == (#[trigger] devices[k]).ip
                && merged(devices)[i].name == devices[k].name,
        exists|k: int|
            0 <= k < devices.len() && merged(devices)[i].ip == (#[trigger] devices[k]).ip
                && merged(devices)[i].model == devices[k].model,
    decreases devices.len(),
{
    let head = devices.drop_last();
    let before = merged(head);
    let device = devices.last();
    let after = merged(devices);
    index_is_first(before, device.ip);
    assert(devices[devices.len() - 1] == device);
    match index_of_ip(before, device.ip) {
        Some(j) => {
            merged_entry_was_heard(head, i);
            assert forall|k: int| 0 <= k < head.len() implies head[k] == #[trigger] devices[k] by {}
            let a = choose|k: int| 0 <= k < head.len() && same_way(before[i], #[trigger] head[k]);
            let b = choose|k: int|
                0 <= k < head.len() && before[i].ip == (#[trigger] head[k]).ip && before[i].name
                    == head[k].name;
            let c = choose|k: int|
                0 <= k < head.len() && before[i].ip == (#[trigger] head[k]).ip && before[i].model
                    == head[k].model;
            assert(devices[a] == head[a] && devices[b] == head[b] && devices[c] == head[c]);
            if i == j {
                combined_is_one_of_both(before[i], device);
                assert(after[i] == combined(before[i], device));
            } else {
                assert(after[i] == before[i]);
            }
        },
        None => {
            if i < before.len() {
                merged_entry_was_heard(head, i);
                assert(after[i] == before[i]);
                let a = choose|k: int| 0 <= k < head.len() && same_way(before[i], #[trigger] head[k]);
                let b = choose|k: int|
                    0 <= k < head.len() && before[i].ip == (#[trigger] head[k]).ip
                        && before[i].name == head[k].name;
                let c = choose|k: int|
                    0 <= k < head.len() && before[i].ip == (#[trigger] head[k]).ip
                        && before[i].model == head[k].model;
                assert(devices[a] == head[a] && devices[b] == head[b] && devices[c] == head[c]);
            } else {
                assert(after[i] == device);
            }
        },
    }
}

/// A renderer in the list can be controlled where every renderer that was heard
/// can.
pub proof fn listed_renderers_can_be_controlled(devices: Seq<DeviceView>, i: int)
    requires
        0 <= i < merged(devices).len(),
        merged(devices)[i].protocol == "dlna"@,
        forall|k: int|
            0 <= k < devices.len() && (#[trigger] devices[k]).protocol == "dlna"@
                ==> devices[k].control_url is Some,
    ensures
        merged(devices)[i].control_url is Some,
{
    merged_entry_was_heard(devices, i);
}

/// What was heard of a receiver shows in its entry: a telling name and a model
/// where any record had one, and the protocol of each record, as the one it is
/// reached by or as an alternate.
pub proof fn nothing_heard_is_lost(devices: Seq<DeviceView>, k: int)
    requires
        0 <= k < devices.len(),
    ensures
        exists|i: int|
            0 <= i < merged(devices).len() && (#[trigger] merged(devices)[i]).ip == devices[k].ip
                && shows(merged(devices)[i], devices[k]),
    decreases devices.len(),
{
    let head = devices.drop_last();
    let before = merged(head);
    let device = devices.last();
    let after = merged(devices);
    index_is_first(before, device.ip);
    if k == devices.len() - 1 {
        match index_of_ip(before, device.ip) {
            Some(i) => {
                combined_shows(before[i], device);
                assert(after[i] == combined(before[i], device));
            },
            None => {
                assert(after[before.len() as int] == device);
            },
        }
    } else {
        nothing_heard_is_lost(head, k);
        assert(head[k] == devices[k]);
        let i = choose|i: int|
            0 <= i < before.len() && (#[trigger] before[i]).ip == head[k].ip && shows(
                before[i],
                head[k],
            );
        match index_of_ip(before, device.ip) {
            Some(j) => {
                if i == j {
                    combined_shows(before[i], device);
                    assert(after[i] == combined(before[i], device));
                } else {
                    assert(after[i] == before[i]);
                }
            },
            None => {
                assert(after[i] == before[i]);
            },
        }
    }
}

/// An entry holds what a record says.
pub open spec fn shows(entry: DeviceView, heard: DeviceView) -> bool {
    &&& telling(heard) ==> telling(entry)
    &&& heard.model.len() > 0 ==> entry.model.len() > 0
    &&& entry.protocol == heard.protocol || entry.alternates.contains(heard.protocol)
    &&& forall|a: Seq<char>| #[trigger]
        heard.alternates.contains(a) ==> entry.alternates.contains(a)
}

proof fn placed_holds(list: Seq<Seq<char>>, item: Seq<char>, other: Seq<char>)
    ensures
        placed(list, item).contains(other) <==> list.contains(other) || other == item,
    decreases list.len(),
{
    if list.len() == 0 {
        assert(seq![item][0] == item);
    } else if precedes(item, list[0]) {
        let all = seq![item] + list;
        assert(all[0] == item);
        if list.contains(other) {
            let i = choose|i: int| 0 <= i < list.len() && list[i] == other;
            assert(all[i + 1] == other);
        }
        if all.contains(other) {
            let i = choose|i: int| 0 <= i < all.len() && all[i] == other;
            assert(i == 0 || list[i - 1] == other);
        }
    } else {
        let rest = list.skip(1);
        placed_holds(rest, item, other);
        let all = seq![list[0]] + placed(rest, item);
        if placed(rest, item).contains(other) {
            let i = choose|i: int|
                0 <= i < placed(rest, item).len() && placed(rest, item)[i] == other;
            assert(all[i + 1] == other);
        }
        if rest.contains(other) {
            let i = choose|i: int| 0 <= i < rest.len() && rest[i] == other;
            assert(list[i + 1] == other);
        }
        if list.contains(other) {
            let i = choose|i: int| 0 <= i < list.len() && list[i] == other;
            if i == 0 {
                assert(all[0] == other);
            } else {
                assert(rest[i - 1] == other);
            }
        }
        if all.contains(other) {
            let i = choose|i: int| 0 <= i < all.len() && all[i] == other;
            if i > 0 {
                assert(placed(rest, item)[i - 1] == other);
            } else {
                assert(list[0] == other);
            }
        }
    }
}

proof fn with_items_holds(list: Seq<Seq<char>>, items: Seq<Seq<char>>, other: Seq<char>)
    ensures
        with_items(list, items).contains(other) <==> list.contains(other) || items.contains(other),
    decreases items.len(),
{
    if items.len() > 0 {
        let head = items.drop_last();
        with_items_holds(list, head, other);
        with_item_holds(with_items(list, head), items.last(), other);
        if items.contains(other) {
            let i = choose|i: int| 0 <= i < items.len() && items[i] == other;
            if i < head.len() {
                assert(head[i] == other);
            }
        }
        if head.contains(other) {
            let i = choose|i: int| 0 <= i < head.len() && head[i] == other;
            assert(items[i] == other);
        }
        assert(items[items.len() - 1] == items.last());
    }
}

proof fn with_item_holds(list: Seq<Seq<char>>, item: Seq<char>, other: Seq<char>)
    ensures
        with_item(list, item).contains(other) <==> list.contains(other) || other == item,
{
    placed_holds(list, item, other);
}

/// The alternates of an entry made of two are those of both, and the protocol
/// that was given up; nothing else.
pub proof fn alternates_are_of_both(keep: DeviceView, drop: DeviceView, other: Seq<char>)
    ensures
        blended(keep, drop).alternates.contains(other) <==> keep.alternates.contains(other)
            || drop.alternates.contains(other) || other == drop.protocol,
        blended(keep, drop).protocol == keep.protocol,
{
    let one = with_items(Seq::empty(), keep.alternates);
    let two = with_items(one, drop.alternates);
    with_items_holds(Seq::empty(), keep.alternates, other);
    with_items_holds(one, drop.alternates, other);
    with_item_holds(two, drop.protocol, other);
    assert(!Seq::<Seq<char>>::empty().contains(other));
}

proof fn combined_shows(a: DeviceView, b: DeviceView)
    requires
        a.ip == b.ip,
    ensures
        shows(combined(a, b), b),
        forall|heard: DeviceView| #[trigger] shows(a, heard) ==> shows(combined(a, b), heard),
{
    let both = combined(a, b);
    combined_is_one_of_both(a, b);
    assert forall|other: Seq<char>| #[trigger] both.alternates.contains(other) <==> (
    a.alternates.contains(other) || b.alternates.contains(other) || other == (if both.protocol
        == b.protocol && preference_of(b.protocol) > preference_of(a.protocol) {
        a.protocol
    } else {
        b.protocol
    })) by {
        alternates_are_of_both(a, b, other);
        alternates_are_of_both(b, a, other);
    }
    alternates_are_of_both(a, b, a.protocol);
    alternates_are_of_both(b, a, a.protocol);
    alternates_are_of_both(a, b, b.protocol);
    alternates_are_of_both(b, a, b.protocol);
}

/// What a service announces is taken over: its address, host, port and model;
/// it is identified by how it is reached and by what it says of itself, or
/// else by its address. A service says nothing of how a renderer is controlled.
pub proof fn announced_as_it_says(
    record: ServiceRecord,
    ip: Seq<char>,
    protocol: Seq<char>,
    name: Seq<char>,
)
    ensures
        ({
            let device = announced(record, ip, protocol, name);
            &&& device.ip == ip
            &&& device.name == name
            &&& device.host == record.hostname@
            &&& device.port == record.port
            &&& device.protocol == protocol
            &&& record.model matches Some(model) ==> device.model == model@
            &&& record.model is None ==> device.model.len() == 0
            &&& begins(device.id, protocol + ":"@)
            &&& record.ident matches Some(ident) ==> ends(device.id, ident@)
            &&& record.ident is None ==> ends(device.id, ip)
            &&& device.control_url is None && device.rendering_url is None
            &&& device.alternates.len() == 0
        }),
{
    let device = announced(record, ip, protocol, name);
    let head = protocol + ":"@;
    assert(device.id.take(head.len() as int) =~= head);
    let tail = match record.ident {
        Some(ident) => ident@,
        None => ip,
    };
    assert(device.id.skip(device.id.len() - tail.len()) =~= tail);
}

/// The name of a service is what stands before the suffix of its kind.
pub proof fn suffix_is_taken_off(name: Seq<char>, suffix: Seq<char>)
    ensures
        bare_name(name + suffix, suffix) == name,
        !ends(name, suffix) ==> bare_name(name, suffix) == name,
{
    let full = name + suffix;
    assert(full.skip(full.len() - suffix.len()) =~= suffix);
    assert(full.take(full.len() - suffix.len()) =~= name);
}

/// Only a receiver of which nothing but AirPlay was heard is taken for a Cast
/// receiver, and only where it answers as one; it is then the same receiver,
/// on the port of Cast, with AirPlay as what it could also be reached by.
pub proof fn promotion_is_for_airplay_alone<F: Fn(&str) -> bool>(
    cast_open: F,
    devices: Seq<DeviceView>,
    device: DeviceView,
    after: DeviceView,
    i: int,
)
    requires
        is_settled(cast_open, devices, device, after),
    ensures
        device.protocol != "airplay"@ ==> after == device,
        0 <= i < devices.len() && devices[i].protocol == "cast"@ && devices[i].ip == device.ip
            ==> after == device,
        after != device ==> after.protocol == "cast"@ && after.port == 8009 && after.ip
            == device.ip && after.name == device.name && after.host == device.host && after.model
            == device.model && after.alternates == seq!["airplay"@] && exists|ip: &str|
            ip@ == device.ip && #[trigger] call_ensures(cast_open, (ip,), true),
        after == device && device.protocol == "airplay"@ && (forall|k: int|
            0 <= k < devices.len() && (#[trigger] devices[k]).protocol == "cast"@ ==> devices[k].ip
                != device.ip) ==> exists|ip: &str|
            ip@ == device.ip && #[trigger] call_ensures(cast_open, (ip,), false),
{
    reveal_strlit("cast");
    reveal_strlit("airplay");
    assert("cast"@.len() == 4);
    assert("airplay"@.len() == 7);
    if airplay_only(devices, device) {
        let (ip, open) = choose|ip: &str, open: bool|
            ip@ == device.ip && #[trigger] call_ensures(cast_open, (ip,), open) && after == (
            if open {
                as_cast(device)
            } else {
                device
            });
        assert(call_ensures(cast_open, (ip,), open));
        assert(as_cast(device).protocol == "cast"@);
    }
}

/// Receivers of one protocol are listed together, in the order of the protocols'
/// names; how their own names are written in capitals does not count.
pub proof fn listed_by_protocol_first(a: DeviceView, b: DeviceView)
    ensures
        precedes(a.protocol, b.protocol) ==> listed_before(a, b) && !listed_before(b, a),
        a.protocol == b.protocol ==> (listed_before(a, b) <==> precedes(
            lowercase(a.name),
            lowercase(b.name),
        )),
        a.protocol == b.protocol && lowercase(a.name) == lowercase(b.name) ==> !listed_before(
            a,
            b,
        ),
{
    precedes_is_total(a.protocol, b.protocol);
    precedes_is_total(lowercase(a.name), lowercase(b.name));
}

/// A receiver is named as it calls itself, else as its service is called; it is
/// reached by the protocol of that service.
pub proof fn announced_by_its_service(record: ServiceRecord, ip: Seq<char>, name: Seq<char>)
    ensures
        announced_cast(record, ip).protocol == "cast"@,
        announced_cast(record, ip).ip == ip,
        announced_airplay(record, ip).protocol == "airplay"@,
        announced_airplay(record, ip).ip == ip,
        record.friendly matches Some(friendly) ==> announced_cast(record, ip).name == friendly@,
        record.friendly is None && record.fullname@ == name + "._googlecast._tcp.local."@
            ==> announced_cast(record, ip).name == name,
        record.fullname@ == name + "._airplay._tcp.local."@ ==> announced_airplay(record, ip).name
            == name,
{
    suffix_is_taken_off(name, "._googlecast._tcp.local."@);
    suffix_is_taken_off(name, "._airplay._tcp.local."@);
}

/// A renderer that is kept is found again under its address, in the place of
/// what had that address before; every other address leads where it did.
pub proof fn kept_is_found(devices: Seq<DeviceView>, device: DeviceView, ip: Seq<char>)
    ensures
        index_of_ip(kept(devices, device), device.ip) matches Some(i) && kept(devices, device)[i]
            == device,
        ip != device.ip ==> index_of_ip(kept(devices, device), ip) == index_of_ip(devices, ip),
        ip != device.ip ==> (index_of_ip(devices, ip) matches Some(i) ==> kept(devices, device)[i]
            == devices[i]),
        kept(devices, device).len() <= devices.len() + 1,
{
    let after = kept(devices, device);
    index_is_first(devices, device.ip);
    index_is_first(after, device.ip);
    index_is_first(devices, ip);
    index_is_first(after, ip);
    match index_of_ip(devices, device.ip) {
        Some(i) => {
            assert(after[i] == device);
            assert forall|j: int| 0 <= j < devices.len() && j != i implies after[j]
                == #[trigger] devices[j] by {}
            if let Some(k) = index_of_ip(after, device.ip) {
                if k < i {
                    assert(after[k] == devices[k]);
                }
            }
            if ip != device.ip {
                if let Some(k) = index_of_ip(after, ip) {
                    assert(after[k] == devices[k]);
                }
                if let Some(k) = index_of_ip(devices, ip) {
                    assert(after[k] == devices[k]);
                }
            }
        },
        None => {
            assert(after[devices.len() as int] == device);
            assert forall|j: int| 0 <= j < devices.len() implies after[j] == #[trigger] devices[j] by {
            }
            if let Some(k) = index_of_ip(after, device.ip) {
                if k < devices.len() {
                    assert(after[k] == devices[k]);
                }
            }
            if ip != device.ip {
                if let Some(k) = index_of_ip(after, ip) {
                    assert(after[k] == devices[k]);
                }
                if let Some(k) = index_of_ip(devices, ip) {
                    assert(after[k] == devices[k]);
                }
            }
        },
    }
}

/// A receiver that is reached by Cast after all keeps its name and address, is
/// reached on the port of Cast, and names AirPlay as another way.
pub proof fn promoted_receiver_is_the_same(device: DeviceView)
    ensures
        ({
            let cast = as_cast(device);
            &&& cast.protocol == "cast"@ && cast.port == 8009 && cast.id == "cast:"@ + device.ip
            &&& cast.alternates == seq!["airplay"@]
            &&& cast.ip == device.ip && cast.name == device.name && cast.model == device.model
                && cast.host == device.host
            &&& cast.control_url == device.control_url && cast.rendering_url == device.rendering_url
        }),
{
}

} // verus!
