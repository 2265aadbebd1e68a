use serde_json::Value;
use unicast::airplay::{
    info_of, info_url, pause_url, play_body, play_outcome, play_request, play_url, playback_info,
    port_of, resume_url, seek_url, stop_url, Reading,
};
use unicast::client::{
    build, ping_answered, printed_error, printed_reply, printed_unavailable, says_ok, unit, unit_is_stale,
    unit_path, Printed,
};
use unicast::mpris::{choose_file, file_url_to_path, is_player, path_of_parts, rank};
use unicast::property_list::{is_harmful, read_markup, NESTING};
use unicast::seconds::Seconds;
use unicast::web::UrlParts;

#[test]
fn file_addresses() {
    assert_eq!(
        file_url_to_path("file:///home/ada/My%20Movie%C3%A9.mkv"),
        Some("/home/ada/My Movieé.mkv".to_string())
    );
    assert_eq!(file_url_to_path("file:///a%FFb"), Some("/a\u{fffd}b".to_string()));
    assert_eq!(file_url_to_path("https://example.org/a.mkv"), None);
    assert_eq!(file_url_to_path("/a.mkv"), None);
    let parts = |scheme: &str| {
        Some(UrlParts {
            scheme: scheme.to_string(),
            host: None,
            port: None,
            path: "/a.mkv".to_string(),
        })
    };
    assert_eq!(path_of_parts(parts("file")), Some("/a.mkv".to_string()));
    assert_eq!(path_of_parts(parts("http")), None);
    assert_eq!(path_of_parts(None), None);
}

#[test]
fn the_playing_player_is_chosen() {
    assert!(is_player("org.mpris.MediaPlayer2.mpv"));
    assert!(!is_player("org.freedesktop.DBus"));
    assert_eq!((rank("Playing"), rank("Paused"), rank("Stopped")), (0, 1, 2));
    let found = vec![
        (2, "/stopped".to_string()),
        (1, "/paused".to_string()),
        (1, "/also paused".to_string()),
    ];
    assert_eq!(choose_file(found), Some("/paused".to_string()));
    assert_eq!(choose_file(Vec::new()), None);
}

#[test]
fn airplay_addresses() {
    assert_eq!(port_of(0), 7000);
    assert_eq!(port_of(7100), 7100);
    assert_eq!(play_url("10.0.0.9", 7000), "http://10.0.0.9:7000/play");
    assert_eq!(stop_url("10.0.0.9", 7000), "http://10.0.0.9:7000/stop");
    assert_eq!(pause_url("10.0.0.9", 7000), "http://10.0.0.9:7000/rate?value=0.000000");
    assert_eq!(resume_url("10.0.0.9", 7000), "http://10.0.0.9:7000/rate?value=1.000000");
    assert_eq!(
        seek_url("10.0.0.9", 7000, "12.500"),
        "http://10.0.0.9:7000/scrub?position=12.500"
    );
    assert_eq!(info_url("10.0.0.9", 7000), "http://10.0.0.9:7000/playback-info");
    assert_eq!(play_outcome(200), Ok(()));
    assert_eq!(
        play_outcome(403),
        Err("AirPlay receiver rejected the stream (HTTP 403)".to_string())
    );
}

fn plist(entries: &str) -> String {
    format!(
        "<?xml version=\"1.0\" encoding=\"UTF-8\"?><plist version=\"1.0\"><dict>{entries}</dict></plist>"
    )
}

#[test]
fn airplay_requests() {
    let body = play_body("http://h/\u{e9}.mp4", plist::Value::Real(12.5), "id");
    assert!(body.starts_with(b"bplist00"));
    let read = plist::Value::from_reader(std::io::Cursor::new(&body)).expect("a property list");
    let entries = read.as_dictionary().expect("a dictionary");
    let keys: Vec<&String> = entries.keys().collect();
    assert_eq!(keys, vec!["Content-Location", "Start-Position", "X-Apple-Session-ID"]);
    assert_eq!(entries.get("Content-Location").and_then(|v| v.as_string()), Some("http://h/\u{e9}.mp4"));
    assert_eq!(entries.get("Start-Position").and_then(|v| v.as_real()), Some(12.5));
    assert_eq!(entries.get("X-Apple-Session-ID").and_then(|v| v.as_string()), Some("id"));
    assert_eq!(play_body("http://h/\u{e9}.mp4", plist::Value::Real(12.5), "id"), body);

    let session = |body: Option<Vec<u8>>| {
        let read = plist::Value::from_reader(std::io::Cursor::new(body.expect("a body")));
        let read = read.expect("a property list");
        let entry = read.as_dictionary().and_then(|d| d.get("X-Apple-Session-ID"));
        entry.and_then(|v| v.as_string()).expect("a session").to_string()
    };
    let first = session(play_request("u", plist::Value::Real(0.0)));
    let second = session(play_request("u", plist::Value::Real(0.0)));
    assert_eq!((first.len(), first.as_bytes()[8], first.as_bytes()[14]), (36, b'-', b'4'));
    assert_ne!(first, second);
    assert!(play_request("u", plist::Value::Boolean(true)).is_none());
}

#[test]
fn dates_that_cannot_be_read() {
    let rate = |date: &str| {
        playback_info(200, plist(&format!("<key>rate</key><real>1</real><key>d</key>{date}")).as_bytes())
            .map(|info| info.playing)
    };
    assert!(playback_info(200, b"<plist><date>9999-12-31T23:59:59-01:00</date></plist>").is_none());
    for date in [
        "<date>9999-12-31T23:59:59-01:00</date>",
        "<x:date>9999-12-31T23:59:59-01:00</x:date>",
        "<date >9999-12-31T23:59:59-01:00</date>",
        "<date a='>'>9999-12-31T23:59:59-01:00</date>",
        "<date>9&#57;99-12-31T23:59:59-01:00</date>",
        "<date><!-- </date> -->9999-12-31T23:59:59-01:00</date>",
        "<date>9999-12<?x?>-31T23:59:59-01:00</date>",
        "<date>9999-12-31T23:59:59&#45;01:00</date>",
        "<a'>':date>9999-12-31T23:59:59-01:00</a'>':date>",
        "<date>9999-12-31T23:59:59&#x2D;01:00</date>",
        "<date>9999-12-31<![CDATA[x]]>T23:59:59-01:00</date>",
        "<date>9999-12-31 23:59:59.25-00:01</date>",
        "<date>9999-12-31T23:00:00&x;-01:00</date>",
        "<date>&#x0;1981-05-16T11:32:06Z</date>",
        "<date>1981-05-16T11:32:06Z<!-- --></date>&amp;",
        "<date>9999-12-31T25:00:00-01:00</date>",
    ] {
        assert_eq!(rate(date), None);
    }
    for date in [
        "<date>1981-05-16T11:32:06Z</date>",
        "<date>9999-12-31T23:59:59Z</date>",
        "<date \n>1981-05-16T11:32:06Z</date>",
        "<date>9999-12-31T23:59:59+01:00</date>",
        "<date>9999-12-30T23:59:59-23:59</date>",
        "<date>0000-01-01T00:00:00+23:59</date>",
        "<string>date>9999-12-31T23:59:59-01:00</string>",
        "<date a='>'>1981-05-16T11:32:06Z</date>",
        "<date>19&#56;1-05-1&#x36;T11:32:06Z</date>",
        "<date><!-- 9999-12-31T23:59:59-01:00 -->1981-05-16T11:32:06Z</date>",
        "<date>1981-05-16<![CDATA[9999-12-31T23:59:59-01:00]]>T11:32:06Z</date>",
        "<date>1981-05-16T11:32:06&x;Z</date>&#32;&#x0a;<!-- -->",
        "<date>9999-12-31T22:59:59-01:00</date>",
        "<date>9999-12-31T23:58:59-00:01</date>",
        "<string>&lt;date&gt;9999-12-31T23:59:59-01:00</string>",
        "<string><![CDATA[<date>9999-12-31T23:59:59-01:00</date>]]></string>",
    ] {
        assert_eq!(rate(date), Some(true));
    }
    assert!(is_harmful(plist("<key>d</key><date>9999-12-31T23:59:59-01:00</date>").as_bytes()));
    assert!(is_harmful(plist("<key>d</key><date>9999-12-31T23:59:59&#45;01:00</date>").as_bytes()));
    assert!(!is_harmful(plist("<key>d</key><date>9999-12-31T22:59:59-01:00</date>").as_bytes()));
    assert!(!is_harmful(b"<plist><x/><date>9999-12-31T23:59:59-01:00</date></plist>"));
    assert!(!is_harmful(b"bplist00<date>9999-12-31T-"));
    let quoted = b"{ rate = 1; d = \"<date>9999-12-31T23:59:59-01:00</date>\"; }";
    assert!(playback_info(200, quoted).expect("playing").playing);
    assert_eq!(read_markup(b"<a>x&lt;<b/></a>").len(), 6);
    assert_eq!(read_markup(b"<a></b>").len(), 1);
}

#[test]
fn answers_that_are_nested_too_deep() {
    let nested = |depth: usize| {
        let value = format!("{}{}", "<array>".repeat(depth), "</array>".repeat(depth));
        plist(&format!("<key>rate</key><real>1</real><key>n</key>{value}"))
    };
    let info = playback_info(200, nested(NESTING - 1).as_bytes()).expect("playing");
    assert!(info.playing);
    assert!(playback_info(200, nested(NESTING).as_bytes()).is_none());
    let named = |depth: usize| {
        let value = "<dict><key>k</key>".repeat(depth) + "<true/>" + &"</dict>".repeat(depth);
        plist(&format!("<key>rate</key><real>1</real><key>n</key>{value}"))
    };
    assert!(playback_info(200, named(NESTING - 1).as_bytes()).is_some());
    let text = |depth: usize| format!("{{ rate = 1; n = {}{}; }}", "(".repeat(depth), ")".repeat(depth));
    assert!(playback_info(200, text(NESTING - 1).as_bytes()).expect("playing").playing);
    assert!(playback_info(200, text(NESTING).as_bytes()).is_none());
    let binary = |depth: usize| {
        let mut value = plist::Value::Array(Vec::new());
        for _ in 1..depth {
            value = plist::Value::Array(vec![value]);
        }
        let mut entries = plist::Dictionary::new();
        entries.insert("rate".to_string(), plist::Value::Real(1.0));
        entries.insert("n".to_string(), value);
        let mut body = Vec::new();
        plist::Value::Dictionary(entries).to_writer_binary(&mut body).expect("written");
        body
    };
    assert!(playback_info(200, &binary(NESTING - 1)).expect("playing").playing);
    assert!(is_harmful(&binary(NESTING)));
    assert!(playback_info(200, &binary(NESTING)).is_none());

    let mut body = play_body("u", plist::Value::Real(1.0), "id");
    assert!(!is_harmful(&body));
    let size = body.len();
    body[size - 20] = 1;
    assert!(!is_harmful(&body));
    assert!(playback_info(200, &body).is_none());
    let mut own = b"bplist00\xa1\x00\x08".to_vec();
    own.extend([0, 0, 0, 0, 0, 0, 1, 1, 0, 0, 0, 0, 0, 0, 0, 1, 0, 0, 0, 0, 0, 0, 0, 0]);
    own.extend([0, 0, 0, 0, 0, 0, 0, 10]);
    assert!(is_harmful(&own));
    assert!(playback_info(200, &own).is_none());
}

#[test]
fn answers_with_many_collections() {
    let many = "<array/><dict/>".repeat(NESTING);
    let body = plist(&format!("<key>rate</key><real>1</real><key>n</key><array>{many}</array>"));
    assert!(playback_info(200, body.as_bytes()).expect("playing").playing);

    let many = "(), {}, ".repeat(NESTING);
    let body = format!("{{ rate = 1; n = ({many}); }}");
    assert!(playback_info(200, body.as_bytes()).expect("playing").playing);
    let open = "({".repeat(NESTING);
    for aside in [
        format!("// {open}\n"),
        format!("/* {open} */"),
        format!("s = \"{open}\\\"(\";"),
        format!("s = '{open}';"),
        format!("s = x{open};"),
        format!("s = /x{open};"),
    ] {
        let body = format!("{{ rate = 1; {aside} }}");
        assert!(!is_harmful(body.as_bytes()));
        assert!(playback_info(200, body.as_bytes()).expect("playing").playing);
    }
    for aside in [format!("/* * / */ {open}"), format!("/* **/ */ {open}"), format!("'' {open}")] {
        assert!(is_harmful(format!("{{ rate = 1; {aside} }}").as_bytes()));
    }
    assert!(!is_harmful(format!("'{open}").as_bytes()));
    assert!(!is_harmful(format!("/* {open}").as_bytes()));

    let mut entries = plist::Dictionary::new();
    entries.insert("rate".to_string(), plist::Value::Real(1.0));
    let flat = vec![plist::Value::Array(Vec::new()); 2 * NESTING];
    entries.insert("n".to_string(), plist::Value::Array(flat));
    let mut body = Vec::new();
    plist::Value::Dictionary(entries).to_writer_binary(&mut body).expect("written");
    assert!(playback_info(200, &body).expect("playing").playing);
}

#[test]
fn airplay_answers() {
    let body = plist(
        "<key>position</key><real>12.5</real><key>duration</key><integer>60</integer>\
         <key>rate</key><real>1</real>",
    );
    let info = playback_info(200, body.as_bytes()).expect("playing");
    assert_eq!(info.position, Reading::Real(Seconds { bits: 12.5_f64.to_bits() }));
    assert_eq!(info.duration, Reading::Whole(60));
    assert!(info.playing);
    assert!(playback_info(404, body.as_bytes()).is_none());
    let idle = playback_info(200, plist("<key>rate</key><string>x</string>").as_bytes());
    let idle = idle.expect("a dictionary");
    assert!(!idle.playing);
    assert_eq!(idle.position, Reading::Real(Seconds { bits: 0 }));
    let whole = playback_info(200, plist("<key>rate</key><integer>1</integer>").as_bytes());
    assert!(whole.expect("a dictionary").playing);
    assert!(playback_info(200, plist("<key>error</key><dict/>").as_bytes()).is_none());
    assert!(playback_info(200, b"").is_none());
    assert!(info_of(&plist::Value::Boolean(true)).is_none());
}

fn words(args: &[&str]) -> Vec<String> {
    args.iter().map(|word| word.to_string()).collect()
}

#[test]
fn requests_of_clients() {
    let text = |args: &[&str], position| build(&words(args), position).to_string();
    assert_eq!(text(&[], None), "{\"cmd\":\"\"}");
    assert_eq!(text(&["status", "x"], None), "{\"cmd\":\"status\"}");
    assert_eq!(
        text(&["connect", "10.0.0.9", "/a.mkv"], None),
        "{\"cmd\":\"connect\",\"file\":\"/a.mkv\",\"ip\":\"10.0.0.9\"}"
    );
    assert_eq!(text(&["connect"], None), "{\"cmd\":\"connect\"}");
    assert_eq!(text(&["add-ip", "x"], None), "{\"cmd\":\"add-ip\",\"ip\":\"x\"}");
    assert_eq!(text(&["remove-ip", "x"], None), "{\"cmd\":\"remove-ip\",\"ip\":\"x\"}");
    for cmd in ["save-multicast", "set-volume", "set-mute", "set-boost", "set-subtitle"] {
        assert_eq!(text(&[cmd, "v"], None), format!("{{\"cmd\":\"{cmd}\",\"value\":\"v\"}}"));
    }
    assert_eq!(
        text(&["seek", "1.5"], Some(Value::from(1.5))),
        "{\"cmd\":\"seek\",\"position\":1.5}"
    );
    assert_eq!(text(&["seek", "x"], None), "{\"cmd\":\"seek\"}");
}

#[test]
fn replies_to_clients() {
    assert!(ping_answered(b"{\"ok\": true}\n"));
    assert!(!ping_answered(b"{\"ok\": false}"));
    assert!(!ping_answered(b"{\"ok\": 1}"));
    assert!(!ping_answered(b"{\"ok\": tr"));
    let Printed::Reply(reply) = printed_reply(" {\"ok\":true}\n") else {
        panic!("there is a reply");
    };
    assert_eq!(reply, "{\"ok\":true}");
    let Printed::Failure(failure) = printed_reply("\n") else {
        panic!("there is no reply");
    };
    assert_eq!(failure["error"], "empty reply from cast service");
    assert_eq!(printed_error("gone")["error"], "cast service error: gone");
    assert_eq!(printed_unavailable()["error"], "cast service unavailable");
}

#[test]
fn the_unit() {
    let text = unit("/usr/bin/castd");
    assert_eq!(
        text,
        "[Unit]\nDescription=omarchy-cast media daemon\n\n[Service]\nType=simple\nExecStart=\"/usr/bin/castd\"\nRestart=on-failure\nRestartSec=1\n\n[Install]\nWantedBy=default.target\n"
    );
    assert!(!unit_is_stale(Some(&text), "/usr/bin/castd"));
    assert!(unit_is_stale(Some(&text), "/opt/castd"));
    assert!(unit_is_stale(None, "/usr/bin/castd"));
    assert_eq!(unit_path("/d"), "/d/omarchy-castd.service");
}

#[test]
fn replies_that_say_ok() {
    for (reply, ok) in [("{\"ok\":true}", true), ("{\"ok\":1}", false), ("[]", false)] {
        let reply: Value = serde_json::from_str(reply).expect("a reply");
        assert_eq!(says_ok(&reply), ok);
    }
}
