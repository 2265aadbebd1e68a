use std::sync::Arc;

use rust_cast::channels::media::{MediaChannel, MediaResponse};
use rust_cast::message_manager::{CastMessage, CastMessagePayload, MessageManager};
use serde_json::Value;
use unicast::cast::{
    active_among, duration_args, edit_request, hevc_capable, keyframe_at_or_before, keyframe_times,
    load_request, media_payload, packets_args, passthrough_plan, plan_transcode, probe, probe_args,
    TextTrack,
};
use unicast::seconds::{Mark, Seconds};

fn at(seconds: f64) -> Seconds {
    Seconds { bits: seconds.to_bits() }
}

fn mark(seconds: f64) -> Mark {
    Mark { at: at(seconds), shown: format!("{seconds:.3}") }
}

fn english() -> TextTrack {
    TextTrack {
        id: 1,
        url: "http://192.168.1.6:60020/tok/sub/1.vtt".to_string(),
        name: "English".to_string(),
        language: "en".to_string(),
    }
}

#[test]
fn hevc_gate() {
    assert!(!hevc_capable("Chromecast", "Living Room"));
    assert!(!hevc_capable("Chromecast", ""));
    assert!(hevc_capable("Chromecast Ultra", ""));
    assert!(hevc_capable("", "Living Room TV"));
    assert!(hevc_capable("LG webOS", ""));
    assert!(hevc_capable("", "Android TV"));
}

#[test]
fn load_payload_survives_status_parsing() {
    let tracks = vec![english()];
    let payload = media_payload(
        "http://192.168.1.6:60020/tok/movie.mp4",
        "Movie",
        Some(Value::from(6120.5)),
        &tracks,
        &mark(12.5),
        Value::from(1.0),
    );
    assert_eq!(payload["metadata"]["images"], Value::Array(Vec::new()));
    assert_eq!(
        payload["tracks"][0]["trackContentId"],
        Value::from("http://192.168.1.6:60020/tok/sub/1.vtt?start=12.500")
    );
    let echo = format!(
        "{{\"type\": \"MEDIA_STATUS\", \"requestId\": 7, \"status\": [{{\
         \"mediaSessionId\": 3, \"playbackRate\": 1.0, \"playerState\": \"BUFFERING\", \
         \"currentTime\": 0.0, \"supportedMediaCommands\": 274447, \
         \"volume\": {{\"level\": 1.0, \"muted\": false}}, \"media\": {payload}, \
         \"activeTrackIds\": [1]}}]}}"
    );
    let manager = Arc::new(MessageManager::new(std::io::Cursor::new(Vec::<u8>::new())));
    let media = MediaChannel::new("sender-0", Arc::clone(&manager));
    let message = CastMessage {
        namespace: "urn:x-cast:com.google.cast.media".to_string(),
        source: "receiver-0".to_string(),
        destination: "sender-0".to_string(),
        payload: CastMessagePayload::String(echo),
    };
    assert!(media.can_handle(&message));
    match media.parse(&message).expect("status parses") {
        MediaResponse::Status(status) => {
            assert_eq!(status.request_id, 7);
            let entry = status.entries.first().expect("one entry");
            assert_eq!(entry.media_session_id, 3);
            assert_eq!(
                entry.media.as_ref().map(|m| m.content_id.as_str()),
                Some("http://192.168.1.6:60020/tok/movie.mp4")
            );
        }
        other => panic!("unexpected parse result: {other:?}"),
    }
}

#[test]
fn plan_without_ffprobe() {
    let plan = plan_transcode(None, "LG webOS", "TV");
    assert_eq!(plan.vcodec, "libx264");
    assert_eq!(plan.acodec, "copy");
    assert_eq!(plan.reason, "unknown not supported; audio none");
    let plan = plan_transcode(Some(b"not json"), "LG webOS", "TV");
    assert_eq!(plan.vcodec, "libx264");
}

fn report(video: &str, level: &str, audio: &str) -> String {
    format!(
        "{{\"streams\": [{{\"codec_type\": \"video\", \"codec_name\": \"{video}\", \"level\": {level}}}, \
         {{\"codec_type\": \"audio\", \"codec_name\": \"{audio}\", \"channels\": 6}}]}}"
    )
}

#[test]
fn codecs_by_receiver() {
    let plan = |video: &str, level: &str, audio: &str, model: &str| {
        plan_transcode(Some(report(video, level, audio).as_bytes()), model, "")
    };
    let p = plan("H264", "40", "aac", "Chromecast");
    assert_eq!((p.vcodec.as_str(), p.acodec.as_str(), p.channels), ("copy", "copy", 6));
    assert_eq!(p.reason, "h264 passthrough; audio aac");
    let p = plan("h264", "\"51\"", "ac3", "Chromecast");
    assert_eq!((p.vcodec.as_str(), p.acodec.as_str()), ("libx264", "aac"));
    assert_eq!(p.reason, "h264 level 51 too high; audio ac3");
    let p = plan("h264", "51", "mp3", "LG webOS");
    assert_eq!((p.vcodec.as_str(), p.acodec.as_str()), ("copy", "copy"));
    let p = plan("hevc", "120", "aac", "Chromecast");
    assert_eq!(p.vcodec, "libx264");
    assert_eq!(p.reason, "hevc not supported; audio aac");
    let p = plan("hevc", "120", "aac", "Chromecast Ultra");
    assert_eq!(p.vcodec, "copy");
    assert_eq!(p.reason, "hevc passthrough (device supports it); audio aac");
    let p = plan("vp9", "0", "opus", "Chromecast");
    assert_eq!((p.vcodec.as_str(), p.acodec.as_str()), ("copy", "aac"));
    assert_eq!(p.reason, "vp9 passthrough; audio opus");
}

#[test]
fn passthrough_counts_channels() {
    let p = passthrough_plan(Some(report("hevc", "0", "dts").as_bytes()));
    assert_eq!((p.vcodec.as_str(), p.acodec.as_str(), p.channels), ("copy", "copy", 6));
    assert_eq!(p.reason, "receiver decodes natively");
    assert_eq!(passthrough_plan(None).channels, 0);
}

#[test]
fn probing_reads_every_stream() {
    let streams = probe(Some(report("H264", "\"x\"", "AAC").as_bytes()));
    assert_eq!(streams.len(), 2);
    assert_eq!(streams[0].codec_type, "video");
    assert_eq!(streams[0].codec_name, "h264");
    assert_eq!(streams[0].level, 0);
    assert_eq!(streams[1].codec_name, "aac");
    assert!(probe(Some(b"{\"streams\": 3}")).is_empty());
}

#[test]
fn ffprobe_arguments() {
    assert_eq!(
        probe_args("/a b.mkv"),
        vec![
            "-v",
            "error",
            "-show_entries",
            "stream=codec_type,codec_name,profile,level,channels",
            "-of",
            "json",
            "/a b.mkv",
        ]
    );
    assert_eq!(duration_args("/x")[3], "format=duration");
    assert_eq!(duration_args("/x").len(), 7);
    let args = packets_args("/x", "0.000", "12.500");
    assert_eq!(args[9], "0.000%12.500");
    assert_eq!(args[10], "/x");
}

#[test]
fn keyframes_are_found() {
    let text = "0.000000,K__\n1.5,___\n 4.000 ,K_\nbroken\nN/A,K\n9.0,K\n";
    assert_eq!(keyframe_times(text), vec!["0.000000", "4.000", "N/A", "9.0"]);
    let times = vec![at(0.0), at(4.0), at(9.0)];
    assert_eq!(keyframe_at_or_before(&times, at(8.0)), at(4.0));
    assert_eq!(keyframe_at_or_before(&times, at(9.0)), at(9.0));
    assert_eq!(keyframe_at_or_before(&times, at(-1.0)), at(0.0));
    assert_eq!(keyframe_at_or_before(&Vec::new(), at(8.0)), at(8.0));
    assert_eq!(keyframe_at_or_before(&vec![at(9.0), at(2.0), at(3.0)], at(8.0)), at(3.0));
}

#[test]
fn payload_without_tracks() {
    let payload = media_payload("u", "T", None, &Vec::new(), &mark(0.0), Value::from(1.0));
    assert_eq!(payload["contentId"], "u");
    assert_eq!(payload["contentType"], "video/mp4");
    assert_eq!(payload["streamType"], "BUFFERED");
    assert_eq!(payload["metadata"]["title"], "T");
    assert_eq!(payload["metadata"]["metadataType"], 0);
    assert!(payload.get("duration").is_none());
    assert!(payload.get("tracks").is_none());
    assert!(payload.get("textTrackStyle").is_none());
}

#[test]
fn payload_with_tracks() {
    let mut silent = english();
    silent.id = 2;
    silent.language = String::new();
    let tracks = vec![english(), silent];
    let payload = media_payload("u", "T", None, &tracks, &mark(0.0), Value::from(1.0));
    assert_eq!(payload["tracks"][0]["trackContentId"], "http://192.168.1.6:60020/tok/sub/1.vtt");
    assert_eq!(payload["tracks"][0]["language"], "en");
    assert_eq!(payload["tracks"][0]["type"], "TEXT");
    assert_eq!(payload["tracks"][0]["subtype"], "SUBTITLES");
    assert_eq!(payload["tracks"][0]["trackContentType"], "text/vtt");
    assert_eq!(payload["tracks"][0]["name"], "English");
    assert_eq!(payload["tracks"][1]["trackId"], 2);
    assert!(payload["tracks"][1].get("language").is_none());
    assert_eq!(payload["textTrackStyle"]["edgeType"], "OUTLINE");
    assert_eq!(payload["textTrackStyle"]["fontScale"], 1.0);
}

#[test]
fn requests_to_the_receiver() {
    let tracks = vec![english()];
    assert_eq!(active_among(&tracks, Some(1)), Some(1));
    assert_eq!(active_among(&tracks, Some(2)), None);
    assert_eq!(active_among(&tracks, None), None);
    let media = media_payload("u", "T", None, &tracks, &mark(0.0), Value::from(1.0));
    let load = load_request(9, "session", media, Value::from(2.5), &tracks, Some(1));
    assert_eq!(load["type"], "LOAD");
    assert_eq!(load["requestId"], 9);
    assert_eq!(load["sessionId"], "session");
    assert_eq!(load["autoplay"], true);
    assert_eq!(load["currentTime"], 2.5);
    assert_eq!(load["media"]["contentId"], "u");
    assert_eq!(load["activeTrackIds"][0], 1);
    let edit = edit_request(4, 3, Some(7));
    assert_eq!(edit["type"], "EDIT_TRACKS_INFO");
    assert_eq!(edit["mediaSessionId"], 3);
    assert_eq!(edit["activeTrackIds"][0], 7);
    assert_eq!(edit_request(4, 3, None)["activeTrackIds"], Value::Array(Vec::new()));
}
