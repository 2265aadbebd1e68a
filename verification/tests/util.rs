use unicast::util::{
    cast_port, config_dir, content_type_for_serve, expand_tilde, extension, file_basename,
    file_stem, firewall_ledger, hms_parts, home, is_our_renderer_process, join_path, lock_path,
    manual_ips_file, mime_for_dlna, pids_to_end, processes_from_ss, random_token, runtime_root,
    settings_draft, settings_file, socket_path, ss_args, state_dir, subtitle_dir, systemd_user_dir,
    token_of, xml_escape, Environment, DEFAULT_CAST_PORT, DISCOVER_TTL,
};

fn environment() -> Environment {
    Environment {
        home: Some("/home/ada".to_string()),
        config_home: None,
        runtime_dir: None,
        cast_port: None,
        uid: 1000,
    }
}

fn hms(value: &str) -> f64 {
    let Some(parts) = hms_parts(value) else {
        return 0.0;
    };
    let mut seconds = 0.0_f64;
    for part in parts {
        match part.parse::<f64>() {
            Ok(number) => seconds = seconds * 60.0 + number,
            Err(_) => return 0.0,
        }
    }
    seconds
}

#[test]
fn hms_parses() {
    assert!((hms("01:02:03.5") - 3723.5).abs() < f64::EPSILON);
    assert!((hms("12:30") - 750.0).abs() < f64::EPSILON);
    assert!((hms("5") - 5.0).abs() < f64::EPSILON);
    assert!((hms("bogus") - 0.0).abs() < f64::EPSILON);
    assert_eq!(hms_parts("1:2:3:4"), None);
}

#[test]
fn tilde_expands() {
    assert!(expand_tilde("~/Videos/a.mkv", &environment()).ends_with("Videos/a.mkv"));
    assert_eq!(expand_tilde("~/Videos/a.mkv", &environment()), "/home/ada/Videos/a.mkv");
    assert_eq!(expand_tilde("/x/~/a.mkv", &environment()), "/x/~/a.mkv");
    assert_eq!(expand_tilde("~//etc/x", &environment()), "/etc/x");
}

#[test]
fn mime_tables() {
    assert_eq!(content_type_for_serve("/x/a.MKV", false), "video/x-matroska");
    assert_eq!(content_type_for_serve("/x/a.bin", false), "application/octet-stream");
    assert_eq!(content_type_for_serve("/x/a.mkv", true), "video/mp4");
    assert_eq!(mime_for_dlna("/x/a.flac"), "audio/flac");
}

#[test]
fn every_content_type() {
    let table = [
        ("mkv", "video/x-matroska"),
        ("mp4", "video/mp4"),
        ("m4v", "video/mp4"),
        ("avi", "video/x-msvideo"),
        ("mov", "video/quicktime"),
        ("webm", "video/webm"),
        ("ts", "video/mp2t"),
        ("m2ts", "video/mp2t"),
        ("mpg", "video/mpeg"),
        ("mp3", "audio/mpeg"),
        ("flac", "audio/flac"),
        ("m4a", "audio/mp4"),
        ("aac", "audio/aac"),
        ("wav", "audio/wav"),
    ];
    for (ext, mime) in table {
        let path = format!("/x/a.{ext}");
        assert_eq!(mime_for_dlna(&path), mime);
        assert_eq!(content_type_for_serve(&path, false), mime);
    }
    let more = [
        ("mpeg", "video/mpeg"),
        ("wmv", "video/x-ms-wmv"),
        ("flv", "video/x-flv"),
        ("ogg", "audio/ogg"),
        ("opus", "audio/opus"),
    ];
    for (ext, mime) in more {
        let path = format!("/x/a.{ext}");
        assert_eq!(content_type_for_serve(&path, false), mime);
        assert_eq!(mime_for_dlna(&path), "video/mp4");
    }
    assert_eq!(mime_for_dlna("/x/a"), "video/mp4");
}

#[test]
fn ss_pid_parsing() {
    let sample = "LISTEN 0 128 192.168.1.6:60020 0.0.0.0:* users:((\"python3\",pid=1234,fd=3))";
    assert_eq!(processes_from_ss(sample), vec![("python3".to_string(), 1234)]);
    assert!(is_our_renderer_process("omarchy-castd"));
    assert!(is_our_renderer_process("python3"));
    assert!(!is_our_renderer_process("nginx"));
}

#[test]
fn only_our_processes_are_ended() {
    let sample = "a users:((\"nginx\",pid=7,fd=3))\nb users:((\"omarchy-castd\",pid=12,fd=4))\n\
                  c users:((\"python3\",pid=99999999999,fd=1)) ((\"python\",pid=5";
    assert_eq!(pids_to_end(sample), vec![12, 5]);
    assert!(pids_to_end("((\"open").is_empty());
    assert_eq!(ss_args(60020), vec!["-ltnp", "sport = :60020"]);
}

#[test]
fn names_of_files() {
    assert_eq!(file_basename("/x/Movie.2024.mkv"), "Movie.2024.mkv");
    assert_eq!(file_basename("/x/y/"), "y");
    assert_eq!(file_basename("/x/./"), "x");
    assert_eq!(file_basename("/x/.."), "");
    assert_eq!(file_basename("/"), "");
    assert_eq!(file_basename(""), "");
    assert_eq!(file_stem("/x/Movie.2024.mkv"), "Movie.2024");
    assert_eq!(file_stem("/x/.hidden"), ".hidden");
    assert_eq!(file_stem("name"), "name");
    assert_eq!(extension("/x/a.TAR.GZ"), "gz");
    assert_eq!(extension("/x/.hidden"), "");
    assert_eq!(extension("/x/a."), "");
    assert_eq!(extension("/x.d/a"), "");
}

#[test]
fn path_names_agree_with_std() {
    for path in [
        "/x/Movie.2024.mkv", "/x/y/", "/x/./", "/x/..", "/", "", ".", "..", "a/.", ".b", "a.b.c",
        "//x//y.z//", "x/...", "./a", "a./",
    ] {
        let real = std::path::Path::new(path);
        let name = real.file_name().map_or("", |part| part.to_str().expect("text"));
        let stem = real.file_stem().map_or("", |part| part.to_str().expect("text"));
        let ext = real.extension().map_or("", |part| part.to_str().expect("text"));
        assert_eq!(file_basename(path), name, "{path}");
        assert_eq!(file_stem(path), stem, "{path}");
        assert_eq!(extension(path), ext, "{path}");
    }
}

#[test]
fn places() {
    let env = environment();
    assert_eq!(home(&env), "/home/ada");
    assert_eq!(config_dir(&env), "/home/ada/.config/omarchy/cast");
    assert_eq!(systemd_user_dir(&env), "/home/ada/.config/systemd/user");
    assert_eq!(settings_file(&env), "/home/ada/.config/omarchy/cast/settings.json");
    assert_eq!(settings_draft(&env), "/home/ada/.config/omarchy/cast/settings.json.tmp");
    assert_eq!(manual_ips_file(&env), "/home/ada/.config/omarchy/cast/manual-ips");
    assert_eq!(firewall_ledger(&env), "/home/ada/.config/omarchy/cast/firewall-rules");
    assert_eq!(runtime_root(&env), "/run/user/1000");
    assert_eq!(state_dir(&env), "/run/user/1000/universal-cast");
    assert_eq!(socket_path(&env), "/run/user/1000/universal-cast/castd.sock");
    assert_eq!(lock_path(&env), "/run/user/1000/universal-cast/castd.lock");
    assert_eq!(subtitle_dir(&env, "tok"), "/run/user/1000/universal-cast/subtitles/tok");
    let bare = Environment {
        home: None,
        config_home: Some("/cfg/".to_string()),
        runtime_dir: Some("/rt".to_string()),
        cast_port: Some("70000".to_string()),
        uid: 0,
    };
    assert_eq!(home(&bare), ".");
    assert_eq!(config_dir(&bare), "/cfg/omarchy/cast");
    assert_eq!(state_dir(&bare), "/rt/universal-cast");
    assert_eq!(cast_port(&bare), DEFAULT_CAST_PORT);
    assert_eq!(join_path("", "a"), "a");
    assert_eq!(join_path("a", "/b"), "/b");
    assert_eq!(DISCOVER_TTL, 20);
}

#[test]
fn ports() {
    let with = |port: &str| {
        let mut env = environment();
        env.cast_port = Some(port.to_string());
        cast_port(&env)
    };
    assert_eq!(cast_port(&environment()), 60020);
    assert_eq!(with("8080"), 8080);
    assert_eq!(with(" 8080"), 60020);
    assert_eq!(with("65535"), 65535);
    assert_eq!(with("65536"), 60020);
}

#[test]
fn escaping() {
    assert_eq!(xml_escape("a<b>&\"c\"'d'"), "a&lt;b&gt;&amp;&quot;c&quot;&apos;d&apos;");
    assert_eq!(xml_escape("&amp;"), "&amp;amp;");
    assert!(!xml_escape("<x y=\"z\">'</x>").contains(['<', '>', '"', '\'']));
}

#[test]
fn tokens() {
    assert_eq!(token_of(&[0, 15, 16, 255, 171]), "000f10ffab");
    let token = random_token();
    assert_eq!(token.len(), 48);
    assert!(token.chars().all(|c| c.is_ascii_hexdigit() && !c.is_ascii_uppercase()));
    assert_ne!(token, random_token());
}
