use unicast::discovery::{
    airplay_device, candidates, cast_device, device_at, keep_device, merge, preference,
    promote_cast_capable, service_name, ServiceRecord,
};
use unicast::protocol::Device;

fn device(ip: &str, protocol: &str, name: &str) -> Device {
    Device {
        name: name.to_string(),
        host: ip.to_string(),
        ip: ip.to_string(),
        port: 8009,
        protocol: protocol.to_string(),
        model: String::new(),
        id: format!("{protocol}:{ip}"),
        control_url: None,
        rendering_url: None,
        alternates: Vec::new(),
    }
}

#[test]
fn merge_prefers_dlna() {
    let merged = merge(
        vec![device("10.0.0.9", "cast", "TV")],
        vec![device("10.0.0.9", "dlna", "")],
    );
    assert_eq!(merged.len(), 1);
    assert_eq!(merged[0].protocol, "dlna");
    assert_eq!(merged[0].name, "TV");
    assert_eq!(merged[0].alternates, vec!["cast".to_string()]);
}

#[test]
fn airplay_only_receiver_with_cast_port_becomes_cast() {
    let scanned = vec![
        device("10.0.0.7", "airplay", "LG TV"),
        device("10.0.0.8", "airplay", "Apple TV"),
        device("10.0.0.9", "cast", "Chromecast"),
    ];
    let probed = std::cell::RefCell::new(Vec::new());
    let promoted = promote_cast_capable(scanned, |ip: &str| {
        probed.borrow_mut().push(ip.to_string());
        ip == "10.0.0.7"
    });
    // Only AirPlay-only receivers are probed; the Chromecast is left alone.
    assert_eq!(probed.borrow().as_slice(), ["10.0.0.7", "10.0.0.8"]);
    let lg = promoted.iter().find(|d| d.ip == "10.0.0.7").expect("lg");
    assert_eq!(lg.protocol, "cast");
    assert_eq!(lg.port, 8009);
    assert_eq!(lg.id, "cast:10.0.0.7");
    assert_eq!(lg.alternates, vec!["airplay".to_string()]);
    assert_eq!(lg.name, "LG TV");
    let apple = promoted.iter().find(|d| d.ip == "10.0.0.8").expect("apple");
    assert_eq!(apple.protocol, "airplay");
}

#[test]
fn service_name_strips_suffix() {
    assert_eq!(
        service_name("Living Room TV._googlecast._tcp.local.", "._googlecast._tcp.local."),
        "Living Room TV"
    );
    assert_eq!(
        service_name("Samsung 7 Series._airplay._tcp.local.", "._airplay._tcp.local."),
        "Samsung 7 Series"
    );
    assert_eq!(service_name("other", "._airplay._tcp.local."), "other");
}

#[test]
fn a_heard_cast_record_is_not_promoted_twice() {
    let promoted = promote_cast_capable(
        vec![device("10.0.0.7", "airplay", "A"), device("10.0.0.7", "cast", "C")],
        |_: &str| true,
    );
    assert_eq!(promoted[0].protocol, "airplay");
    assert_eq!(promoted[1].protocol, "cast");
}

#[test]
fn each_address_once_in_order() {
    let merged = merge(
        vec![
            device("10.0.0.1", "cast", "b"),
            device("10.0.0.2", "cast", "A"),
            device("10.0.0.1", "airplay", "x"),
            device("10.0.0.3", "airplay", "z"),
        ],
        vec![device("10.0.0.3", "dlna", "10.0.0.3"), device("10.0.0.4", "dlna", "Y")],
    );
    let shown: Vec<(&str, &str, &str)> = merged
        .iter()
        .map(|d| (d.ip.as_str(), d.protocol.as_str(), d.name.as_str()))
        .collect();
    assert_eq!(
        shown,
        vec![
            ("10.0.0.2", "cast", "A"),
            ("10.0.0.1", "cast", "b"),
            ("10.0.0.4", "dlna", "Y"),
            ("10.0.0.3", "dlna", "z"),
        ]
    );
    assert_eq!(merged[1].alternates, vec!["airplay"]);
    assert_eq!(merged[3].alternates, vec!["airplay"]);
}

#[test]
fn alternates_are_a_sorted_set() {
    let mut first = device("10.0.0.1", "dlna", "n");
    first.alternates = vec!["zeta".to_string(), "cast".to_string()];
    let mut second = device("10.0.0.1", "cast", "m");
    second.alternates = vec!["airplay".to_string()];
    second.model = "M".to_string();
    let merged = merge(vec![second], vec![first]);
    assert_eq!(merged[0].alternates, vec!["airplay", "cast", "zeta"]);
    assert_eq!(merged[0].model, "M");
    assert_eq!(merged[0].name, "n");
}

#[test]
fn preferences() {
    assert_eq!(preference("dlna"), 3);
    assert_eq!(preference("cast"), 2);
    assert_eq!(preference("airplay"), 1);
    assert_eq!(preference("smoke"), 0);
}

#[test]
fn candidates_are_a_sorted_set() {
    let mdns = vec![device("10.0.0.9", "cast", ""), device("10.0.0.1", "cast", "")];
    let manual = vec!["10.0.0.5".to_string(), "10.0.0.9".to_string()];
    assert_eq!(candidates(&mdns, &manual), vec!["10.0.0.1", "10.0.0.5", "10.0.0.9"]);
}

fn record() -> ServiceRecord {
    ServiceRecord {
        ip: Some("10.0.0.9".to_string()),
        fullname: "TV._googlecast._tcp.local.".to_string(),
        hostname: "tv.local.".to_string(),
        port: 8009,
        friendly: None,
        model: None,
        ident: None,
    }
}

#[test]
fn records_become_devices() {
    let tv = cast_device(&record()).expect("a device");
    assert_eq!((tv.name.as_str(), tv.id.as_str()), ("TV", "cast:10.0.0.9"));
    assert_eq!((tv.host.as_str(), tv.protocol.as_str(), tv.port), ("tv.local.", "cast", 8009));
    let mut named = record();
    named.friendly = Some("Living Room".to_string());
    named.model = Some("Chromecast".to_string());
    named.ident = Some("abc".to_string());
    let tv = cast_device(&named).expect("a device");
    assert_eq!((tv.name.as_str(), tv.model.as_str()), ("Living Room", "Chromecast"));
    assert_eq!(tv.id, "cast:abc");
    named.fullname = "Box._airplay._tcp.local.".to_string();
    let atv = airplay_device(&named).expect("a device");
    assert_eq!((atv.name.as_str(), atv.id.as_str()), ("Box", "airplay:abc"));
    named.ip = None;
    assert!(cast_device(&named).is_none());
    assert!(airplay_device(&named).is_none());
}

#[test]
fn a_found_renderer_replaces_its_address() {
    let mut devices = vec![device("10.0.0.1", "dlna", "old"), device("10.0.0.2", "dlna", "b")];
    keep_device(&mut devices, device("10.0.0.1", "dlna", "new"));
    keep_device(&mut devices, device("10.0.0.3", "dlna", "c"));
    let names: Vec<&str> = devices.iter().map(|d| d.name.as_str()).collect();
    assert_eq!(names, vec!["new", "b", "c"]);
    assert_eq!(device_at(&devices, "10.0.0.3").expect("known").name, "c");
    assert!(device_at(&devices, "10.0.0.4").is_none());
}
