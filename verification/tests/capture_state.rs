use colink::runtime::camera_capture::{CameraCaptureRequest, CaptureState};

fn request(session_id: &str, camera_id: &str) -> CameraCaptureRequest {
    CameraCaptureRequest {
        session_id: session_id.to_string(),
        generation: 1,
        camera_id: camera_id.to_string(),
        width: 640,
        height: 360,
        fps: 8,
    }
}

fn reserve(state: &mut CaptureState, session_id: &str, camera_id: &str, token: u64) -> u64 {
    state
        .reserve(&request(session_id, camera_id), token)
        .expect("reserve capture");
    token
}

#[test]
fn stopping_capture_blocks_new_sessions_until_the_native_thread_exits() {
    let mut state = CaptureState::new();
    let first = reserve(&mut state, "first", "camera", 1);
    reserve(&mut state, "second", "camera", 2);

    let stopped = state.request_stop("first").expect("request first stop");
    assert_eq!(stopped, first);
    assert!(state.reserve(&request("third", "camera"), 3).is_err());

    assert!(state.finish_capture("first", first));
    assert!(state.reserve(&request("third", "camera"), 4).is_err());

    state.release_stopped_camera("first");
    reserve(&mut state, "third", "camera", 5);
    assert!(state.is_active("second"));
    assert!(state.is_active("third"));
}

#[test]
fn reconfiguration_restarts_only_after_its_previous_capture_has_finished() {
    let mut state = CaptureState::new();
    let first = reserve(&mut state, "session", "camera", 1);

    state.request_stop("session").expect("request stop");
    assert!(state.reserve(&request("session", "camera"), 2).is_err());

    assert!(state.finish_capture("session", first));
    reserve(&mut state, "session", "camera", 3);
    assert!(!state.is_camera_stopping("camera"));
}

#[test]
fn frame_queue_is_bounded_and_preserves_a_keyframe() {
    let mut state = CaptureState::new();
    let token = reserve(&mut state, "session", "camera", 1);

    assert!(state.queue_frame("session", 1, false, vec![1], token, false));
    assert!(!state.queue_frame("session", 1, false, vec![2], token, false));
    assert!(!state.queue_frame("session", 1, true, vec![3], token, false));
    assert!(!state.queue_frame("session", 1, false, vec![4], token, false));

    assert_eq!(state.take_frame("session"), Some((1, true, vec![3])));
    assert!(state.queue_frame("session", 1, false, vec![5], token, false));
}

#[test]
fn active_session_cannot_be_replaced() {
    let mut state = CaptureState::new();
    reserve(&mut state, "session", "camera", 1);

    assert!(state.reserve(&request("session", "camera"), 2).is_err());
}

#[test]
fn frames_from_stale_or_cancelled_threads_are_dropped() {
    let mut state = CaptureState::new();
    let token = reserve(&mut state, "session", "camera", 7);
    assert!(!state.queue_frame("session", 1, true, vec![1], 8, false));
    assert!(!state.queue_frame("session", 1, true, vec![1], token, true));
    assert!(!state.queue_frame("other", 1, true, vec![1], token, false));
    assert_eq!(state.take_frame("session"), None);
    assert!(!state.finish_capture("session", 8));
    assert!(state.is_active("session"));
}

#[test]
fn stop_drops_the_waiting_frame_and_release_frees_the_camera() {
    let mut state = CaptureState::new();
    let token = reserve(&mut state, "a", "camera", 1);
    assert!(state.queue_frame("a", 3, false, vec![9], token, false));
    assert_eq!(state.request_stop("a"), Some(token));
    assert_eq!(state.take_frame("a"), None);
    assert!(state.is_camera_stopping("camera"));
    state.release_stopped_camera("a");
    assert!(state.is_camera_stopping("camera"));
    assert!(state.finish_capture("a", token));
    state.release_stopped_camera("a");
    assert!(!state.is_camera_stopping("camera"));
    assert_eq!(state.request_stop("missing"), None);
    assert!(state.reserve(&request("a", "camera"), 2).is_ok());
}
