use unicast::dlna::{
    add_locations, control_ok, description_is_read, device_from_location, didl, first_tag,
    format_hms, gather, host_of, local_name, locations_on, master_channel, msearch, mute_args,
    mute_of, parse_description, parts_allowed, play_args, play_step, position_texts,
    probe_locations, probed_device, read_events, search_targets, seek_args, soap_action,
    soap_body, transport_state, volume_args, volume_of, PlayStep, XmlEvent, MEDIARENDERER,
    PROBE_PATHS, PROBE_PORTS, SSDP_ADDR, SSDP_PORT,
};
use unicast::web::UrlParts;

const TV: &str = r#"<?xml version="1.0"?>
        <root xmlns="urn:schemas-upnp-org:device-1-0">
          <URLBase>http://192.168.1.50:9197/</URLBase>
          <device>
            <friendlyName>Living Room TV</friendlyName>
            <modelName>OLED55</modelName>
            <serviceList>
              <service>
                <serviceType>urn:schemas-upnp-org:service:AVTransport:1</serviceType>
                <controlURL>/upnp/control/AVTransport1</controlURL>
              </service>
              <service>
                <serviceType>urn:schemas-upnp-org:service:RenderingControl:1</serviceType>
                <controlURL>/upnp/control/RenderingControl1</controlURL>
              </service>
            </serviceList>
          </device>
        </root>"#;

#[test]
fn description_parsing() {
    let description = parse_description(TV, "http://192.168.1.50:9197/dd.xml");
    assert_eq!(description.friendly.as_deref(), Some("Living Room TV"));
    assert_eq!(description.model.as_deref(), Some("OLED55"));
    assert_eq!(
        description.control.as_deref(),
        Some("http://192.168.1.50:9197/upnp/control/AVTransport1")
    );
    assert_eq!(
        description.rendering.as_deref(),
        Some("http://192.168.1.50:9197/upnp/control/RenderingControl1")
    );
}

#[test]
fn references_and_declarations_are_passed_over() {
    let xml = "<?xml version=\"1.0\"?><!DOCTYPE root><root><device>\
               <friendlyName>Tom &amp; TV</friendlyName><modelName>&lt;</modelName>\
               </device></root>";
    let description = parse_description(xml, "http://10.0.0.5:8080/desc.xml");
    assert_eq!(description.friendly.as_deref(), Some("TV"));
    assert_eq!(description.model, None);
}

#[test]
fn relative_control_resolution() {
    let xml = r"<device><serviceList><service>
            <serviceType>AVTransport</serviceType>
            <controlURL>ctl/AVTransport</controlURL>
        </service></serviceList></device>";
    let description = parse_description(xml, "http://10.0.0.5:8080/dmr/desc.xml");
    assert_eq!(
        description.control.as_deref(),
        Some("http://10.0.0.5:8080/dmr/ctl/AVTransport")
    );
    assert_eq!(description.rendering, None);
}

#[test]
fn control_ssrf_guard() {
    assert!(control_ok("http://10.0.0.5:8080/ctl", "10.0.0.5"));
    assert!(!control_ok("http://evil.example/ctl", "10.0.0.5"));
    assert!(!control_ok("file:///etc/passwd", "10.0.0.5"));
    assert!(control_ok("https://10.0.0.5/ctl", "10.0.0.5"));
    assert!(!control_ok("ftp://10.0.0.5/ctl", "10.0.0.5"));
    assert!(!control_ok("ctl", "10.0.0.5"));
}

#[test]
fn events_of_a_document() {
    let events = read_events("<a><u:b x='1'> text &#65;</u:b><c/></a>");
    let shown: Vec<String> = events.iter().map(|event| format!("{event:?}")).collect();
    assert_eq!(shown[0], "Start(\"a\")");
    assert_eq!(shown[1], "Start(\"u:b\")");
    assert!(shown.contains(&"Text(\"text\")".to_string()));
    assert_eq!(shown.last().map(String::as_str), Some("End(\"a\")"));
    assert!(read_events("").is_empty());
    assert_eq!(read_events("<a>x</b>").len(), 2);
    assert_eq!(local_name("u:b"), "b");
    assert_eq!(local_name("b"), "b");
    assert_eq!(local_name("x:y:z"), "z");
}

fn start(name: &str) -> XmlEvent {
    XmlEvent::Start(name.to_string())
}

fn text(content: &str) -> XmlEvent {
    XmlEvent::Text(content.to_string())
}

fn end(name: &str) -> XmlEvent {
    XmlEvent::End(name.to_string())
}

#[test]
fn the_first_service_of_a_kind_counts() {
    let mut events = Vec::new();
    for control in ["", "/one", "/two"] {
        events.push(start("x:service"));
        events.push(start("serviceType"));
        events.push(text("AVTransport and RenderingControl"));
        events.push(end("serviceType"));
        if !control.is_empty() {
            events.push(start("controlURL"));
            events.push(text(control));
            events.push(end("controlURL"));
        }
        events.push(start("friendlyName"));
        events.push(text("not a device name"));
        events.push(end("friendlyName"));
        events.push(end("x:service"));
    }
    events.push(start("modelName"));
    events.push(text("M"));
    events.push(XmlEvent::Other);
    events.push(end("modelName"));
    events.push(text("stray"));
    let state = gather(&events);
    assert_eq!(state.control.as_deref(), Some("/one"));
    assert_eq!(state.rendering.as_deref(), Some("/one"));
    assert_eq!(state.model.as_deref(), Some("M"));
    assert_eq!(state.friendly, None);
    assert!(!state.in_service);
}

#[test]
fn descriptions_become_devices() {
    let location = "http://192.168.1.50:9197/dd.xml";
    let tv = device_from_location(location, TV, "192.168.1.50").expect("a renderer");
    assert_eq!((tv.name.as_str(), tv.model.as_str()), ("Living Room TV", "OLED55"));
    assert_eq!((tv.port, tv.id.as_str(), tv.protocol.as_str()), (9197, "dlna:192.168.1.50", "dlna"));
    assert_eq!(
        tv.rendering_url.as_deref(),
        Some("http://192.168.1.50:9197/upnp/control/RenderingControl1")
    );
    assert!(device_from_location("http://10.0.0.1/dd.xml", TV, "10.0.0.1").is_none());
    assert!(device_from_location("nowhere", TV, "10.0.0.1").is_none());
    assert!(device_from_location(location, "<root/>", "192.168.1.50").is_none());
    let tv = probed_device("192.168.1.50", 8080, location, TV).expect("a renderer");
    assert_eq!(tv.port, 8080);
    assert!(probed_device("192.168.1.51", 8080, location, TV).is_none());
    assert!(probed_device("192.168.1.50", 8080, location, "<x/>").is_none());
}

#[test]
fn a_rendering_address_elsewhere_is_left_out() {
    let xml = "<d><service><serviceType>AVTransport</serviceType><controlURL>/a</controlURL></service>\
               <service><serviceType>RenderingControl</serviceType>\
               <controlURL>http://evil.example/r</controlURL></service></d>";
    let tv = device_from_location("http://10.0.0.5/d.xml", xml, "10.0.0.5").expect("a renderer");
    assert_eq!(tv.control_url.as_deref(), Some("http://10.0.0.5/a"));
    assert_eq!(tv.rendering_url, None);
    assert_eq!(tv.name, "10.0.0.5");
    assert_eq!(tv.port, 0);
}

#[test]
fn searches_and_replies() {
    assert_eq!(
        msearch("ssdp:all"),
        "M-SEARCH * HTTP/1.1\r\nHOST: 239.255.255.250:1900\r\nMAN: \"ssdp:discover\"\r\nMX: 2\r\nST: ssdp:all\r\n\r\n"
    );
    assert_eq!((SSDP_ADDR, SSDP_PORT), ("239.255.255.250", 1900));
    assert_eq!(MEDIARENDERER, "urn:schemas-upnp-org:device:MediaRenderer:1");
    assert_eq!(search_targets(), vec![MEDIARENDERER, "ssdp:all"]);
    let mut found = Vec::new();
    add_locations(&mut found, "HTTP/1.1 200 OK\r\nLOCATION:  http://10.0.0.9/b.xml \r\nST: x\r\n\r\n");
    add_locations(&mut found, "location: http://10.0.0.5/a.xml\r\nLocation:\r\nLocation: http://10.0.0.9/b.xml");
    assert_eq!(found, vec!["http://10.0.0.5/a.xml", "http://10.0.0.9/b.xml"]);
    assert_eq!(locations_on(&found, "10.0.0.9"), vec!["http://10.0.0.9/b.xml"]);
    assert_eq!(host_of("http://10.0.0.9:80/b"), Some("10.0.0.9".to_string()));
    assert_eq!(host_of("nothing"), None);
    assert!(description_is_read(None));
    assert!(description_is_read(Some(1_048_576)));
    assert!(!description_is_read(Some(1_048_577)));
}

#[test]
fn probing_order() {
    let places = probe_locations("10.0.0.5", &vec![9197, 80]);
    assert_eq!(places.len(), 16);
    assert_eq!(places[0], (9197, "http://10.0.0.5:9197/dmr".to_string()));
    assert_eq!(places[15], (80, "http://10.0.0.5:80/xml/device_description.xml".to_string()));
    assert_eq!(PROBE_PATHS.len(), 8);
    assert_eq!(PROBE_PORTS[0], 9197);
}

#[test]
fn soap_requests() {
    assert_eq!(
        soap_body("AVTransport", "Play", "<Speed>1</Speed>"),
        "<?xml version=\"1.0\" encoding=\"utf-8\"?><s:Envelope xmlns:s=\"http://schemas.xmlsoap.org/soap/envelope/\" s:encodingStyle=\"http://schemas.xmlsoap.org/soap/encoding/\"><s:Body><u:Play xmlns:u=\"urn:schemas-upnp-org:service:AVTransport:1\"><InstanceID>0</InstanceID><Speed>1</Speed></u:Play></s:Body></s:Envelope>"
    );
    assert_eq!(
        soap_action("RenderingControl", "GetMute"),
        "\"urn:schemas-upnp-org:service:RenderingControl:1#GetMute\""
    );
    let movie = didl("http://h/a?b&c", "Tom & <Jerry>", "video/mp4");
    assert!(movie.contains("<dc:title>Tom &amp; &lt;Jerry&gt;</dc:title><upnp:class>object.item.videoItem</upnp:class>"));
    assert!(movie.contains("http-get:*:video/mp4:DLNA.ORG_OP=01"));
    assert!(movie.ends_with(">http://h/a?b&amp;c</res></item></DIDL-Lite>"));
    assert!(didl("u", "t", "audio/flac").contains("object.item.audioItem.musicTrack"));
    let args = play_args("http://h/a", "T", "video/mp4");
    assert!(args.starts_with("<CurrentURI>http://h/a</CurrentURI><CurrentURIMetaData>&lt;DIDL-Lite"));
    assert!(args.ends_with("&lt;/DIDL-Lite&gt;</CurrentURIMetaData>"));
}

#[test]
fn pointing_at_a_stream() {
    assert!(matches!(play_step(true, 200, ""), PlayStep::Start));
    assert!(matches!(play_step(false, 200, ""), PlayStep::Start));
    assert!(matches!(play_step(true, 500, ""), PlayStep::Again));
    let PlayStep::Failed(message) =
        play_step(false, 500, "<errorDescription>Transition not available</errorDescription>")
    else {
        panic!("it has failed");
    };
    assert_eq!(message, "SetAVTransportURI 500: Transition not available");
    let PlayStep::Failed(message) = play_step(false, 0, "") else {
        panic!("it has failed");
    };
    assert_eq!(message, "SetAVTransportURI 0: ");
}

#[test]
fn answers_of_renderers() {
    assert_eq!(first_tag("<a>1</a><a>2</a>", "a"), Some("1".to_string()));
    assert_eq!(first_tag("</a><a>1", "a"), None);
    assert_eq!(first_tag("", "a"), None);
    assert_eq!(transport_state("<CurrentTransportState>PLAYING</CurrentTransportState>"), "PLAYING");
    assert_eq!(transport_state(""), "UNKNOWN");
    let (duration, position) =
        position_texts("<TrackDuration>0:10:00</TrackDuration><RelTime>0:00:07</RelTime>");
    assert_eq!(duration.as_deref(), Some("0:10:00"));
    assert_eq!(position.as_deref(), Some("0:00:07"));
    assert_eq!(volume_of(200, "<CurrentVolume> 42 </CurrentVolume>"), Some(42));
    assert_eq!(volume_of(200, "<CurrentVolume>142</CurrentVolume>"), Some(100));
    assert_eq!(volume_of(200, "<CurrentVolume>-3</CurrentVolume>"), Some(0));
    assert_eq!(volume_of(200, "<CurrentVolume>x</CurrentVolume>"), None);
    assert_eq!(volume_of(500, "<CurrentVolume>42</CurrentVolume>"), None);
    assert_eq!(mute_of(200, "<CurrentMute> True</CurrentMute>"), Some(true));
    assert_eq!(mute_of(200, "<CurrentMute>0</CurrentMute>"), Some(false));
    assert_eq!(mute_of(200, ""), None);
    assert_eq!(mute_of(404, "<CurrentMute>1</CurrentMute>"), None);
}

#[test]
fn arguments_for_renderers() {
    assert_eq!(master_channel(), "<Channel>Master</Channel>");
    assert_eq!(
        volume_args(142),
        "<Channel>Master</Channel><DesiredVolume>100</DesiredVolume>"
    );
    assert_eq!(volume_args(-1), "<Channel>Master</Channel><DesiredVolume>0</DesiredVolume>");
    assert_eq!(mute_args(true), "<Channel>Master</Channel><DesiredMute>1</DesiredMute>");
    assert_eq!(mute_args(false), "<Channel>Master</Channel><DesiredMute>0</DesiredMute>");
    assert_eq!(format_hms(1, 2, 3), "01:02:03");
    assert_eq!(format_hms(123, 0, 59), "123:00:59");
    assert_eq!(seek_args(0, 1, 2), "<Unit>REL_TIME</Unit><Target>00:01:02</Target>");
}

#[test]
fn only_the_same_host_is_controlled() {
    let parts = |scheme: &str, host: Option<&str>| UrlParts {
        scheme: scheme.to_string(),
        host: host.map(str::to_string),
        port: None,
        path: "/".to_string(),
    };
    assert!(parts_allowed(&parts("http", Some("10.0.0.5")), "10.0.0.5"));
    assert!(parts_allowed(&parts("https", Some("10.0.0.5")), "10.0.0.5"));
    assert!(!parts_allowed(&parts("file", Some("10.0.0.5")), "10.0.0.5"));
    assert!(!parts_allowed(&parts("http", Some("10.0.0.6")), "10.0.0.5"));
    assert!(!parts_allowed(&parts("http", None), "10.0.0.5"));
}
