use jukebox::obs::{auth_params, read_step, FrameOutcome, Obs, Status};

#[test]
fn first_request_is_number_one() {
    let mut obs = Obs::new();
    assert_eq!(obs.message_id(), 1);
    let msg = obs.get_full_msg("GetAuthRequired", "");
    assert_eq!(msg, "{\"message-id\":1,\"request-type\":\"GetAuthRequired\"}");
    assert_eq!(obs.message_id(), 2);
}

#[test]
fn request_with_members() {
    let mut obs = Obs::new();
    let msg = obs.get_full_msg("SetVolume", "\"source\":\"mic\",\"volume\":0.5");
    assert_eq!(
        msg,
        "{\"message-id\":1,\"request-type\":\"SetVolume\",\"source\":\"mic\",\"volume\":0.5}"
    );
}

#[test]
fn request_numbers_are_consecutive_and_distinct() {
    let mut obs = Obs::new();
    let mut seen: Vec<String> = Vec::new();
    for n in 1..=12u64 {
        assert_eq!(obs.message_id(), n);
        let msg = obs.get_full_msg("GetVersion", "");
        assert_eq!(msg, format!("{{\"message-id\":{},\"request-type\":\"GetVersion\"}}", n));
        assert!(!seen.contains(&msg));
        seen.push(msg);
    }
    assert_eq!(obs.message_id(), 13);
}

#[test]
fn login_request_text() {
    let mut obs = Obs::new();
    let _ = obs.get_full_msg("GetVersion", "");
    assert_eq!(
        obs.login_request(),
        "{\"message-id\":2,\"request-type\":\"GetAuthRequired\"}"
    );
}

#[test]
fn auth_payload_text() {
    assert_eq!(Obs::auth_payload("abc="), "\"auth\":\"abc=\"");
    assert_eq!(Obs::auth_payload(""), "\"auth\":\"\"");
}

#[test]
fn password_answer_matches_known_value() {
    let answer = Obs::get_password(
        "ztTBnnuqrqaKDzRM3xcVdbYm",
        "PZVbYpvAnZut2SS6JNJytDm9",
        "  hunter2 \n",
    );
    assert_eq!(answer, "3Vtx4SN34PJiD2I9CsLp40DCAC+5hwClb9e/BkFf+3s=");
}

#[test]
fn password_ignores_surrounding_whitespace() {
    let a = Obs::get_password("c", "s", "hunter2");
    let b = Obs::get_password("c", "s", "\t hunter2\n\n");
    let c = Obs::get_password("c", "s", "hunter3");
    assert_eq!(a, b);
    assert_ne!(a, c);
    assert_eq!(a.len(), 44);
    let d = Obs::get_password("c", "s", "\u{3000}hunter2\u{2028}\u{85}");
    assert_eq!(a, d);
    let e = Obs::get_password("c", "s", "hunter2\u{200b}");
    assert_ne!(a, e);
}

#[test]
fn authenticate_request_text() {
    let mut obs = Obs::new();
    let _ = obs.login_request();
    let msg = obs.authenticate_request(
        "ztTBnnuqrqaKDzRM3xcVdbYm",
        "PZVbYpvAnZut2SS6JNJytDm9",
        "hunter2",
    );
    assert_eq!(
        msg,
        "{\"message-id\":2,\"request-type\":\"Authenticate\",\"auth\":\"3Vtx4SN34PJiD2I9CsLp40DCAC+5hwClb9e/BkFf+3s=\"}"
    );
}

#[test]
fn reply_gathered_from_frames() {
    let mut msg = String::new();
    assert_eq!(read_step(&mut msg, Some("{\"challenge\":\"ab")), FrameOutcome::Pending);
    assert_eq!(msg, "{\"challenge\":\"ab");
    assert_eq!(read_step(&mut msg, Some("c\",\"salt\":\"xyz\"")), FrameOutcome::Pending);
    assert_eq!(read_step(&mut msg, Some("}")), FrameOutcome::Complete);
    assert_eq!(msg, "{\"challenge\":\"abc\",\"salt\":\"xyz\"}");
}

#[test]
fn reply_cut_short() {
    let mut msg = String::from("{\"status\":");
    assert_eq!(read_step(&mut msg, None), FrameOutcome::Ended);
    assert_eq!(msg, "{\"status\":");
}

#[test]
fn challenge_and_salt_found() {
    let reply = "{\"authRequired\":true,\"challenge\":\"abc\",\"message-id\":\"1\",\"salt\":\"xyz\",\"status\":\"ok\"}";
    assert_eq!(auth_params(reply), Some(("abc".to_string(), "xyz".to_string())));
}

#[test]
fn challenge_or_salt_missing() {
    assert_eq!(auth_params("{\"authRequired\":false,\"status\":\"ok\"}"), None);
    assert_eq!(auth_params("{\"challenge\":\"abc\"}"), None);
    assert_eq!(auth_params("{\"salt\":\"xyz\"}"), None);
    assert_eq!(auth_params("{\"challenge\":1,\"salt\":\"xyz\"}"), None);
    assert_eq!(auth_params("not json"), None);
}

#[test]
fn status_values() {
    let s = Status::Login;
    assert_eq!(s, Status::Login);
    assert_ne!(Status::Offline, Status::Idle);
}
