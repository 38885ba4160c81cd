use colink::protocol::payloads::{
    CameraConfigPayload, CameraEntry, CameraListResultPayload, CameraOpenAckPayload,
    CameraOpenPayload,
};
use colink::runtime::camera::{
    camera_list_outcome, remote_camera_support, requested_capture_format,
    viewer_requested_format, HostCameraSessions, RemoteCameraSessions, RemoteCameraSupport,
};
use colink::runtime::camera_capture::{
    camera_mode_score, native_camera_mode, pack_pair, select_camera_mode, CameraCaptureProfile,
    NativeCameraMode,
};

fn open_payload(session_id: &str, codecs: &[&str]) -> CameraOpenPayload {
    CameraOpenPayload {
        session_id: session_id.to_string(),
        camera_id: "camera".to_string(),
        preferred_codecs: codecs.iter().map(|c| c.to_string()).collect(),
        preferred_width: Some(640),
        preferred_height: Some(360),
        preferred_fps: Some(8),
    }
}

#[test]
fn reconfiguration_waits_for_the_previous_capture_to_stop() {
    let mut manager = HostCameraSessions::new();
    let session_id = "session";
    let device_id = "device";
    let opened = manager
        .open(
            device_id,
            &open_payload(session_id, &["h264"]),
            CameraCaptureProfile { width: 640, height: 360, fps: 8 },
            1_000,
        )
        .expect("open host camera session");
    assert!(manager.mark_ready(device_id, &opened.session_id, "relay", false));
    assert!(manager.receive_alive(device_id, &opened.session_id, 1_100));
    let first = manager.begin_capture(&opened.session_id).expect("begin initial capture");

    let update = manager
        .reconfigure(
            device_id,
            &CameraConfigPayload {
                session_id: opened.session_id.clone(),
                width: Some(960),
                height: Some(540),
                fps: Some(15),
            },
            CameraCaptureProfile { width: 960, height: 540, fps: 15 },
        )
        .expect("reconfigure host camera session");

    assert!(update.stop_capture);
    assert!(manager.begin_capture(&opened.session_id).is_none());

    let second = manager
        .finish_capture(&opened.session_id, first.generation, 1_200)
        .expect("restart capture after stop confirmation");
    assert_eq!(second.generation, first.generation + 1);
    assert_eq!((second.width, second.height, second.fps), (960, 540, 15));
}

#[test]
fn host_sessions_refuse_missing_codecs_and_duplicates() {
    let mut manager = HostCameraSessions::new();
    let profile = CameraCaptureProfile { width: 640, height: 360, fps: 8 };
    let refused = manager.open("d", &open_payload("s", &["vp8"]), profile, 0).err().unwrap();
    assert_eq!(refused.0, "colink:camera.no_common_codec.v1");
    assert!(manager.open("d", &open_payload("s", &["vp8", "h264"]), profile, 0).is_ok());
    let refused = manager.open("d", &open_payload("s", &["h264"]), profile, 0).err().unwrap();
    assert_eq!(refused.0, "colink:camera.session_conflict.v1");
    assert!(!manager.close("other", "s"));
    assert!(manager.close("d", "s"));
    assert!(!manager.contains("s"));
}

#[test]
fn lan_sessions_wait_for_the_connection_and_frames_need_a_live_viewer() {
    let mut manager = HostCameraSessions::new();
    let profile = CameraCaptureProfile { width: 640, height: 360, fps: 8 };
    manager.open("d", &open_payload("s", &["h264"]), profile, 100).unwrap();
    assert!(!manager.mark_ready("d", "s", "bluetooth", true));
    assert!(!manager.mark_ready("d", "s", "lan", false));
    assert!(!manager.mark_ready("d", "s", "lan", true));
    assert!(manager.mark_lan_connected("s"));
    let request = manager.begin_capture("s").unwrap();
    assert_eq!(request.generation, 1);
    assert!(manager.next_frame("s", 1, 200).is_none());
    assert!(manager.receive_alive("d", "s", 200));
    let (device, transport, sequence, at) = manager.next_frame("s", 1, 300).unwrap();
    assert_eq!((device.as_str(), transport.as_str(), sequence, at), ("d", "lan", 0, 200));
    assert_eq!(manager.next_frame("s", 1, 400).unwrap().2, 1);
    assert!(manager.next_frame("s", 2, 400).is_none());
    assert!(manager.next_frame("s", 1, 20_000).is_none());
    assert_eq!(manager.expire("s", 10_000), None);
    assert_eq!(manager.expire("s", 20_000), Some("d".to_string()));
}

#[test]
fn preferences_are_clamped_to_host_limits() {
    let mut manager = HostCameraSessions::new();
    let profile = CameraCaptureProfile { width: 640, height: 360, fps: 8 };
    manager.open("d", &open_payload("s", &["h264"]), profile, 0).unwrap();
    let prefs = manager
        .preferences("d", &CameraConfigPayload { session_id: "s".into(), width: Some(4000), height: None, fps: Some(0) })
        .ok()
        .unwrap();
    assert_eq!((prefs.width, prefs.height, prefs.fps), (1280, 360, 1));
    assert!(manager.preferences("x", &CameraConfigPayload { session_id: "s".into(), width: None, height: None, fps: None }).is_err());
}

#[test]
fn camera_support_follows_the_peer_version() {
    assert_eq!(remote_camera_support(None), RemoteCameraSupport::Unknown);
    assert_eq!(remote_camera_support(Some("1.10.0")), RemoteCameraSupport::Supported);
    assert_eq!(remote_camera_support(Some("1.9.9")), RemoteCameraSupport::Unsupported);
}

#[test]
fn selects_the_first_closest_native_mode() {
    let requested = CameraCaptureProfile { width: 640, height: 360, fps: 15 };
    let modes = [
        NativeCameraMode { width: 320, height: 240, fps: 30 },
        NativeCameraMode { width: 1280, height: 720, fps: 30 },
        NativeCameraMode { width: 640, height: 360, fps: 30 },
        NativeCameraMode { width: 640, height: 360, fps: 30 },
    ];
    assert_eq!(
        select_camera_mode(&modes, requested).ok().unwrap(),
        CameraCaptureProfile { width: 640, height: 360, fps: 30 }
    );
    assert!(select_camera_mode(&[], requested).is_err());
    assert_eq!(camera_mode_score(&modes[0], requested), (1, 38400, 153600, 15));
}

#[test]
fn unpacks_native_frame_sizes_and_rates() {
    let size = pack_pair(1920, 1080);
    assert_eq!(size, (1920u64 << 32) | 1080);
    let mode = native_camera_mode(size, pack_pair(30000, 1001)).unwrap();
    assert_eq!(mode, NativeCameraMode { width: 1920, height: 1080, fps: 29 });
    assert_eq!(native_camera_mode(size, pack_pair(1, 2)).unwrap().fps, 1);
    assert!(native_camera_mode(pack_pair(0, 1080), pack_pair(30, 1)).is_none());
}

fn ack(session_id: &str, accepted: bool) -> CameraOpenAckPayload {
    CameraOpenAckPayload {
        session_id: session_id.to_string(),
        accepted,
        negotiated_codec: Some("h264".to_string()),
        width: None,
        height: None,
        fps: None,
        stream_token: None,
        reason: None,
        message: None,
    }
}

#[test]
fn viewer_sessions_open_on_an_accepting_answer() {
    let mut sessions = RemoteCameraSessions::new();
    sessions.register("peer", "s1", "req-1".to_string());
    assert_eq!(sessions.codec_by_id("s1"), None);
    assert!(!sessions.accept("peer", &ack("s1", false), Some("req-1")));
    assert!(!sessions.accept("peer", &ack("s1", true), Some("req-9")));
    assert!(!sessions.accept("other", &ack("s1", true), Some("req-1")));
    assert!(sessions.accept("peer", &ack("s1", true), Some("req-1")));
    assert_eq!(sessions.codec("peer", "s1"), Some("h264".to_string()));
    assert_eq!(sessions.codec("other", "s1"), None);
    sessions.register("peer", "s2", "req-2".to_string());
    sessions.register("else", "s3", "req-3".to_string());
    let mut closed = sessions.close_for_device("peer");
    closed.sort();
    assert_eq!(closed, vec!["s1", "s2"]);
    assert!(!sessions.close("peer", "s3"));
    assert!(sessions.close_by_id("s3"));
    assert!(!sessions.close_by_id("s3"));
}

#[test]
fn host_sessions_close_per_device_and_all_at_once() {
    let mut hosts = HostCameraSessions::new();
    let profile = CameraCaptureProfile { width: 640, height: 360, fps: 8 };
    hosts.open("a", &open_payload("s1", &["h264"]), profile, 0).unwrap();
    hosts.open("b", &open_payload("s2", &["h264"]), profile, 0).unwrap();
    hosts.open("a", &open_payload("s3", &["h264"]), profile, 0).unwrap();
    let mut closed = hosts.close_for_device("a");
    closed.sort();
    assert_eq!(closed, vec!["s1", "s3"]);
    assert!(hosts.contains("s2"));
    assert_eq!(hosts.close_all(), vec!["s2"]);
    assert!(!hosts.contains("s2"));
}

#[test]
fn viewers_ask_for_more_over_the_lan() {
    assert_eq!(viewer_requested_format(true), (960, 540, 15));
    assert_eq!(viewer_requested_format(false), (640, 360, 8));
}

#[test]
fn open_requests_are_clamped_with_defaults() {
    let mut payload = open_payload("s", &["h264"]);
    assert_eq!(requested_capture_format(&payload), (640, 360, 8));
    payload.preferred_width = None;
    payload.preferred_height = None;
    payload.preferred_fps = None;
    assert_eq!(requested_capture_format(&payload), (1280, 720, 15));
    payload.preferred_width = Some(4000);
    payload.preferred_height = Some(10);
    payload.preferred_fps = Some(0);
    assert_eq!(requested_capture_format(&payload), (1280, 120, 1));
    payload.preferred_width = Some(100);
    payload.preferred_height = Some(5000);
    payload.preferred_fps = Some(60);
    assert_eq!(requested_capture_format(&payload), (160, 720, 24));
}

fn list_result(reason: Option<&str>, message: Option<&str>) -> CameraListResultPayload {
    CameraListResultPayload {
        cameras: vec![CameraEntry {
            camera_id: "front".to_string(),
            label: "Front".to_string(),
            position: None,
            capabilities: None,
        }],
        reason: reason.map(str::to_string),
        message: message.map(str::to_string),
    }
}

#[test]
fn camera_lists_fail_with_the_hosts_message() {
    let cameras = camera_list_outcome(list_result(None, None)).unwrap();
    assert_eq!(cameras.len(), 1);
    assert_eq!(cameras[0].camera_id, "front");
    assert_eq!(
        camera_list_outcome(list_result(Some("code"), Some("no camera"))).unwrap_err().message,
        "no camera"
    );
    assert_eq!(camera_list_outcome(list_result(Some("code"), None)).unwrap_err().message, "code");
}
