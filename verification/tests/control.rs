//! The control interface of the pipeline.

use evk_datalogger::api::{
    apply_patch, buffer_json, current_file_json, handle_api, parse_toggle, route, ApiStep,
    BufferPatch, Patch, PatchKind, RateLimitPatch, RecordingPatch, Route, SharedState,
};
use evk_datalogger::camera::{make_rate_limiter, Biases, BiasesPatch, RateLimiter};
use evk_datalogger::http::{json_err, json_ok, preflight_response, HttpRequest};

fn biases() -> Biases {
    Biases {
        pr: 1,
        fo: 2,
        hpf: 3,
        diff_on: 4,
        diff: 5,
        diff_off: 6,
        inv: 7,
        refr: 8,
        reqpuy: 9,
        reqpux: 10,
        sendreqpdy: 11,
        unknown_1: 12,
        unknown_2: 13,
    }
}

fn state(toggle: bool) -> SharedState {
    SharedState::new(biases(), 102, 103, 1_000_000, toggle, 10, 100 * 1024 * 1024)
}

fn request(method: &str, path: &str) -> HttpRequest {
    HttpRequest { method: method.to_string(), path: path.to_string(), body: vec![] }
}

fn reply(s: &SharedState, method: &str, path: &str) -> Vec<u8> {
    match handle_api(s, &request(method, path)) {
        ApiStep::Reply(r) => r,
        other => panic!("{other:?}"),
    }
}

fn body_of(r: &[u8]) -> String {
    let text = String::from_utf8(r.to_vec()).unwrap();
    text.split_once("\r\n\r\n").unwrap().1.to_string()
}

fn no_biases() -> BiasesPatch {
    BiasesPatch {
        diff: None,
        diff_on: None,
        diff_off: None,
        hpf: None,
        refr: None,
        pr: None,
        fo: None,
        inv: None,
    }
}

const BIASES: &str = "{\"pr\":1,\"fo\":2,\"hpf\":3,\"diff_on\":102,\"diff\":5,\"diff_off\":103,\
    \"inv\":7,\"refr\":8,\"reqpuy\":9,\"reqpux\":10,\"sendreqpdy\":11,\"unknown_1\":12,\
    \"unknown_2\":13}";

const BUFFER: &str = "{\"max_age_secs\":10,\"max_bytes\":104857600,\"bytes\":0,\"chunks\":0}";

#[test]
fn rate_limiter_is_events_per_millisecond() {
    assert_eq!(make_rate_limiter(0), None);
    let limit = |n: u32| Some(RateLimiter { reference_period_us: 1000, maximum_events_per_period: n });
    assert_eq!(make_rate_limiter(1), limit(1));
    assert_eq!(make_rate_limiter(999), limit(1));
    assert_eq!(make_rate_limiter(1_999), limit(1));
    assert_eq!(make_rate_limiter(2_000), limit(2));
    assert_eq!(make_rate_limiter(20_000_000), limit(20_000));
    assert_eq!(make_rate_limiter(4_294_967_295_999), limit(u32::MAX));
    assert_eq!(make_rate_limiter(4_294_967_296_000), limit(0));
    let n = u64::MAX.wrapping_mul(1000) / 1_000_000;
    assert_eq!(make_rate_limiter(u64::MAX), limit(n as u32));
}

#[test]
fn the_word_true_makes_recording_switchable() {
    assert!(parse_toggle("true"));
    assert!(parse_toggle("TrUe"));
    for v in ["false", "", "1", "true ", "tru", "truee", "yes"] {
        assert!(!parse_toggle(v), "{v}");
    }
}

#[test]
fn startup_state() {
    let s = state(false);
    assert!(s.recording && !s.recording_toggle);
    assert_eq!(s.configuration.biases, Biases { diff_on: 102, diff_off: 103, ..biases() });
    assert_eq!(s.configuration.rate_limiter, make_rate_limiter(1_000_000));
    assert_eq!((s.buffer_bytes, s.buffer_chunks, s.current_file.clone()), (0, 0, None));
    let s = state(true);
    assert!(!s.recording && s.recording_toggle);
}

#[test]
fn routes() {
    assert_eq!(route("GET", "/api/status"), Route::GetStatus);
    assert_eq!(route("GET", "/api/recording"), Route::GetRecording);
    assert_eq!(route("PUT", "/api/recording"), Route::PutRecording);
    assert_eq!(route("GET", "/api/biases"), Route::GetBiases);
    assert_eq!(route("PUT", "/api/biases"), Route::PutBiases);
    assert_eq!(route("GET", "/api/rate-limit"), Route::GetRateLimit);
    assert_eq!(route("PUT", "/api/rate-limit"), Route::PutRateLimit);
    assert_eq!(route("GET", "/api/buffer"), Route::GetBuffer);
    assert_eq!(route("PUT", "/api/buffer"), Route::PutBuffer);
    assert_eq!(route("OPTIONS", "/anything"), Route::Preflight);
    assert_eq!(route("PUT", "/api/status"), Route::Unknown);
    assert_eq!(route("get", "/api/status"), Route::Unknown);
    assert_eq!(route("GET", "/api/status/"), Route::Unknown);
}

#[test]
fn reading_the_state() {
    let mut s = state(false);
    assert_eq!(reply(&s, "GET", "/api/biases"), json_ok(BIASES));
    assert_eq!(reply(&s, "GET", "/api/rate-limit"), json_ok("{\"events_per_second\":1000000}"));
    assert_eq!(reply(&s, "GET", "/api/buffer"), json_ok(BUFFER));
    assert_eq!(
        reply(&s, "GET", "/api/recording"),
        json_ok("{\"recording\":true,\"recording_control\":false,\"current_file\":null}")
    );
    s.note_file(Some("/tmp/a \"b\".raw".to_string()));
    s.note_fill(77, 3);
    assert_eq!(current_file_json(&s), "\"/tmp/a \\\"b\\\".raw\"");
    assert_eq!(buffer_json(&s), "{\"max_age_secs\":10,\"max_bytes\":104857600,\"bytes\":77,\"chunks\":3}");
    let status = body_of(&reply(&s, "GET", "/api/status"));
    assert_eq!(
        status,
        format!(
            "{{\"recording\":true,\"recording_control\":false,\
             \"current_file\":\"/tmp/a \\\"b\\\".raw\",\
             \"rate_limit_events_per_second\":1000000,\"biases\":{BIASES},\"buffer\":{}}}",
            buffer_json(&s)
        )
    );
    let v: serde_json::Value = serde_json::from_str(&status).unwrap();
    assert_eq!(v["biases"]["diff_off"], 103);
    assert_eq!(v["buffer"]["chunks"], 3);
    s.note_file(None);
    assert_eq!(current_file_json(&s), "null");
}

#[test]
fn other_requests() {
    let s = state(false);
    assert_eq!(reply(&s, "OPTIONS", "*"), preflight_response());
    assert_eq!(reply(&s, "GET", "/"), json_err(404, "Not Found", "Unknown endpoint."));
    assert!(matches!(handle_api(&s, &request("PUT", "/api/biases")), ApiStep::Parse(PatchKind::Biases)));
    assert!(matches!(handle_api(&s, &request("PUT", "/api/rate-limit")), ApiStep::Parse(PatchKind::RateLimit)));
    assert!(matches!(handle_api(&s, &request("PUT", "/api/buffer")), ApiStep::Parse(PatchKind::Buffer)));
}

#[test]
fn recording_cannot_be_disabled_without_the_option() {
    let mut s = state(false);
    let forbidden = json_err(
        403,
        "Forbidden",
        "Recording control is disabled — restart with --record-toggle to enable it.",
    );
    assert_eq!(reply(&s, "PUT", "/api/recording"), forbidden);
    let r = apply_patch(&mut s, Patch::Recording(Ok(RecordingPatch { recording: false })));
    assert_eq!(r.response, forbidden);
    assert!(s.recording && !r.push_configuration);
    apply_patch(&mut s, Patch::Recording(Err("x".to_string())));
    apply_patch(&mut s, Patch::Buffer(Ok(BufferPatch { max_age_secs: Some(0), max_bytes: Some(0) })));
    assert!(s.recording && !s.recording_toggle);
}

#[test]
fn recording_is_switched_with_the_option() {
    let mut s = state(true);
    assert!(matches!(handle_api(&s, &request("PUT", "/api/recording")), ApiStep::Parse(PatchKind::Recording)));
    let r = apply_patch(&mut s, Patch::Recording(Ok(RecordingPatch { recording: true })));
    assert_eq!(r.response, json_ok("{\"recording\":true}"));
    assert!(s.recording && !r.push_configuration);
    assert_eq!(
        reply(&s, "GET", "/api/recording"),
        json_ok("{\"recording\":true,\"recording_control\":true,\"current_file\":null}")
    );
    apply_patch(&mut s, Patch::Recording(Ok(RecordingPatch { recording: false })));
    assert!(!s.recording);
}

#[test]
fn only_supplied_biases_change() {
    let mut s = state(false);
    let patch = BiasesPatch { diff_on: Some(200), hpf: Some(0), inv: Some(255), ..no_biases() };
    let r = apply_patch(&mut s, Patch::Biases(Ok(patch)));
    let expected = Biases { diff_on: 200, hpf: 0, inv: 255, diff_off: 103, ..biases() };
    assert_eq!(s.configuration.biases, expected);
    assert!(r.push_configuration);
    assert_eq!(r.response, reply(&s, "GET", "/api/biases"));
    apply_patch(&mut s, Patch::Biases(Ok(patch)));
    assert_eq!(s.configuration.biases, expected);
    let patch = BiasesPatch {
        diff: Some(21),
        diff_off: Some(22),
        refr: Some(23),
        pr: Some(24),
        fo: Some(25),
        ..no_biases()
    };
    apply_patch(&mut s, Patch::Biases(Ok(patch)));
    let b = s.configuration.biases;
    assert_eq!((b.diff, b.diff_off, b.refr, b.pr, b.fo, b.unknown_2), (21, 22, 23, 24, 25, 13));
    let r = apply_patch(&mut s, Patch::Biases(Ok(no_biases())));
    assert_eq!(s.configuration.biases, b);
    assert!(r.push_configuration);
}

#[test]
fn the_rate_limit_sets_the_limiter() {
    let mut s = state(false);
    let r = apply_patch(&mut s, Patch::RateLimit(Ok(RateLimitPatch { events_per_second: 5_000 })));
    assert_eq!(r.response, json_ok("{\"events_per_second\":5000}"));
    assert!(r.push_configuration);
    assert_eq!(s.configuration.rate_limiter, make_rate_limiter(5_000));
    assert_eq!(r.response, reply(&s, "GET", "/api/rate-limit"));
    apply_patch(&mut s, Patch::RateLimit(Ok(RateLimitPatch { events_per_second: 0 })));
    assert_eq!((s.rate_limit_eps, s.configuration.rate_limiter), (0, None));
}

#[test]
fn either_buffer_cap_changes_alone() {
    let mut s = state(false);
    let r = apply_patch(&mut s, Patch::Buffer(Ok(BufferPatch { max_age_secs: Some(3), max_bytes: None })));
    assert_eq!((s.buffer_max_age_secs, s.buffer_max_bytes), (3, 104857600));
    assert!(!r.push_configuration);
    let r = apply_patch(&mut s, Patch::Buffer(Ok(BufferPatch { max_age_secs: None, max_bytes: Some(9) })));
    assert_eq!((s.buffer_max_age_secs, s.buffer_max_bytes), (3, 9));
    assert_eq!(r.response, json_ok("{\"max_age_secs\":3,\"max_bytes\":9,\"bytes\":0,\"chunks\":0}"));
    assert_eq!(r.response, reply(&s, "GET", "/api/buffer"));
}

#[test]
fn unreadable_patches_change_nothing() {
    let mut s = state(true);
    let before = format!("{s:?}");
    let expected = json_err(400, "Bad Request", "Invalid JSON: oops");
    let patches = vec![
        Patch::Recording(Err("oops".to_string())),
        Patch::Biases(Err("oops".to_string())),
        Patch::RateLimit(Err("oops".to_string())),
        Patch::Buffer(Err("oops".to_string())),
    ];
    for p in patches {
        let r = apply_patch(&mut s, p);
        assert_eq!(r.response, expected);
        assert!(!r.push_configuration);
        assert_eq!(format!("{s:?}"), before);
    }
}
