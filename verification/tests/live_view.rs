//! The live view: settings, the stream and the frames.

use evk_datalogger::events::DvsEvent;
use evk_datalogger::http::{json_err, json_ok, preflight_response, write_response, HttpRequest};
use evk_datalogger::jpeg::{encode_frame, encode_jpeg, encode_scaled, scale_jpeg};
use evk_datalogger::painter::{blank_frame, Painter};
use evk_datalogger::viewfinder::{
    browser_address, client_route, frame_interval, handle_client, mjpeg_part, put_settings,
    put_streaming, stream_step, viewer_html, ClientRoute, ClientStep, SettingsPatch, StreamSettings,
    StreamStep, StreamingPatch,
};

const PAGE: &str = "<p>live–view</p>";

fn request(method: &str, path: &str) -> HttpRequest {
    HttpRequest { method: method.to_string(), path: path.to_string(), body: vec![] }
}

fn reply(s: &StreamSettings, frame: Option<&[u8]>, path: &str) -> Vec<u8> {
    match handle_client(s, PAGE, frame, &request("GET", path)) {
        ClientStep::Reply(r) => r,
        other => panic!("{other:?}"),
    }
}

fn payload(events: &[(u64, u16, u16, u8)]) -> Vec<u8> {
    let mut v = Vec::new();
    for &(t, x, y, on) in events {
        v.extend_from_slice(&DvsEvent { t, x, y, on }.to_bytes());
    }
    v
}

fn size_of(jpeg: &[u8]) -> (u32, u32) {
    let img = image::load_from_memory(jpeg).unwrap();
    (img.width(), img.height())
}

#[test]
fn startup_settings_are_full_size() {
    let s = StreamSettings::new(1280, 720, 80);
    assert_eq!((s.out_width, s.out_height, s.quality, s.streaming), (1280, 720, 80, true));
}

#[test]
fn client_routes() {
    assert_eq!(client_route("GET", "/"), ClientRoute::Page);
    assert_eq!(client_route("GET", "/index.html"), ClientRoute::Page);
    assert_eq!(client_route("GET", "/stream"), ClientRoute::Stream);
    assert_eq!(client_route("GET", "/snapshot"), ClientRoute::Snapshot);
    assert_eq!(client_route("GET", "/api/settings"), ClientRoute::GetSettings);
    assert_eq!(client_route("PUT", "/api/settings"), ClientRoute::PutSettings);
    assert_eq!(client_route("GET", "/api/streaming"), ClientRoute::GetStreaming);
    assert_eq!(client_route("PUT", "/api/streaming"), ClientRoute::PutStreaming);
    assert_eq!(client_route("OPTIONS", "/"), ClientRoute::Preflight);
    assert_eq!(client_route("POST", "/"), ClientRoute::Unknown);
}

#[test]
fn requests_are_answered() {
    let mut s = StreamSettings::new(64, 48, 80);
    assert_eq!(
        reply(&s, None, "/"),
        write_response(200, "OK", "text/html; charset=utf-8", PAGE.as_bytes())
    );
    assert!(viewer_html().contains("/stream"));
    assert_eq!(
        reply(&s, None, "/api/settings"),
        json_ok(
            "{\"src_width\":64,\"src_height\":48,\"out_width\":64,\"out_height\":48,\
             \"quality\":80}"
        )
    );
    assert_eq!(reply(&s, None, "/api/streaming"), json_ok("{\"streaming\":true}"));
    assert_eq!(reply(&s, None, "/nowhere"), json_err(404, "Bad Request", "Not found."));
    assert_eq!(reply(&s, None, "/snapshot"), json_err(503, "Bad Request", "No frame available yet."));
    assert_eq!(reply(&s, Some(&[1, 2]), "/snapshot"), write_response(200, "OK", "image/jpeg", &[1, 2]));
    match handle_client(&s, PAGE, None, &request("GET", "/stream")) {
        ClientStep::Stream(head) => assert_eq!(
            String::from_utf8(head).unwrap(),
            "HTTP/1.1 200 OK\r\nContent-Type: multipart/x-mixed-replace; boundary=evk4frame\r\n\
             Cache-Control: no-cache\r\nAccess-Control-Allow-Origin: *\r\nConnection: close\r\n\r\n"
        ),
        other => panic!("{other:?}"),
    }
    match handle_client(&s, PAGE, None, &request("OPTIONS", "/x")) {
        ClientStep::Reply(r) => assert_eq!(r, preflight_response()),
        other => panic!("{other:?}"),
    }
    assert!(matches!(handle_client(&s, PAGE, None, &request("PUT", "/api/settings")), ClientStep::ParseSettings));
    assert!(matches!(handle_client(&s, PAGE, None, &request("PUT", "/api/streaming")), ClientStep::ParseStreaming));
    s.streaming = false;
    assert_eq!(
        reply(&s, None, "/stream"),
        json_err(503, "Bad Request", "Streaming is currently disabled.")
    );
    // A snapshot is given out regardless.
    assert_eq!(reply(&s, Some(&[9]), "/snapshot"), write_response(200, "OK", "image/jpeg", &[9]));
}

#[test]
fn startup_settings_have_five_keys() {
    let s = StreamSettings::new(1280, 720, 80);
    assert_eq!(
        reply(&s, None, "/api/settings"),
        json_ok(
            "{\"src_width\":1280,\"src_height\":720,\"out_width\":1280,\"out_height\":720,\
             \"quality\":80}"
        )
    );
    // The streaming state is read elsewhere and does not show here.
    let paused = StreamSettings { streaming: false, ..s };
    assert_eq!(reply(&paused, None, "/api/settings"), reply(&s, None, "/api/settings"));
    assert_eq!(reply(&paused, None, "/api/streaming"), json_ok("{\"streaming\":false}"));
}

#[test]
fn settings_within_bounds_are_set() {
    let mut s = StreamSettings::new(64, 48, 80);
    let p = SettingsPatch { out_width: Some(32), out_height: None, quality: Some(100) };
    let r = put_settings(&mut s, Ok(p));
    assert_eq!((s.out_width, s.out_height, s.quality), (32, 48, 100));
    assert_eq!(
        r,
        json_ok(
            "{\"src_width\":64,\"src_height\":48,\"out_width\":32,\"out_height\":48,\
             \"quality\":100,\"streaming\":true}"
        )
    );
    assert_eq!(
        reply(&s, None, "/api/settings"),
        json_ok(
            "{\"src_width\":64,\"src_height\":48,\"out_width\":32,\"out_height\":48,\
             \"quality\":100}"
        )
    );
    let p = SettingsPatch { out_width: Some(1), out_height: Some(48), quality: Some(1) };
    put_settings(&mut s, Ok(p));
    assert_eq!((s.out_width, s.out_height, s.quality), (1, 48, 1));
}

#[test]
fn settings_out_of_bounds_are_refused_one_by_one() {
    let mut s = StreamSettings::new(64, 48, 80);
    let p = SettingsPatch { out_width: Some(65), out_height: Some(0), quality: Some(101) };
    let r = put_settings(&mut s, Ok(p));
    assert_eq!(
        r,
        json_err(
            400,
            "Bad Request",
            "out_width must be 1–64.; out_height must be 1–48.; quality must be 1–100."
        )
    );
    assert_eq!(s, StreamSettings::new(64, 48, 80));
    // A value in bounds is set even where another is refused.
    let p = SettingsPatch { out_width: Some(10), out_height: Some(49), quality: None };
    let r = put_settings(&mut s, Ok(p));
    assert_eq!(r, json_err(400, "Bad Request", "out_height must be 1–48."));
    assert_eq!((s.out_width, s.out_height), (10, 48));
    let r = put_settings(&mut s, Err("no".to_string()));
    assert_eq!(r, json_err(400, "Bad Request", "Invalid JSON: no"));
    assert_eq!((s.out_width, s.out_height), (10, 48));
}

#[test]
fn streaming_is_switched() {
    let mut s = StreamSettings::new(64, 48, 80);
    let r = put_streaming(&mut s, Ok(StreamingPatch { streaming: false }));
    assert_eq!(r, json_ok("{\"streaming\":false}"));
    assert_eq!(s, StreamSettings { streaming: false, ..StreamSettings::new(64, 48, 80) });
    assert_eq!(reply(&s, None, "/api/streaming"), r);
    let r = put_streaming(&mut s, Err("no".to_string()));
    assert_eq!(r, json_err(400, "Bad Request", "Invalid JSON: no"));
    assert!(!s.streaming);
}

#[test]
fn stream_parts_and_pace() {
    assert_eq!(
        mjpeg_part(&[7, 8]),
        b"--evk4frame\r\nContent-Type: image/jpeg\r\nContent-Length: 2\r\n\r\n\x07\x08\r\n".to_vec()
    );
    assert_eq!(frame_interval(50), 20_000_000);
    assert_eq!(frame_interval(3), 333_333_333);
    assert_eq!(frame_interval(2_000_000_000), 0);
    assert_eq!(stream_step(false, 5, 10), StreamStep::Pause(100_000_000));
    assert_eq!(stream_step(true, 3, 10), StreamStep::Send(7));
    assert_eq!(stream_step(true, 10, 10), StreamStep::Send(0));
    assert_eq!(stream_step(true, 11, 10), StreamStep::Send(0));
}

#[test]
fn browser_addresses() {
    assert_eq!(browser_address("0.0.0.0:8080"), "localhost:8080");
    assert_eq!(browser_address("127.0.0.1:9"), "127.0.0.1:9");
    assert_eq!(browser_address("0.0.0.0"), "localhost:0.0.0.0");
    assert_eq!(browser_address("0.0.0.01:2:3"), "localhost:3");
    assert_eq!(browser_address(""), "");
}

#[test]
fn events_are_painted_into_frames() {
    let mut p = Painter::new(3, 2);
    let mut pixels = blank_frame(3, 2);
    assert_eq!(pixels, vec![127; 6]);
    // The first event finishes the first frame, which started black.
    assert_eq!(p.paint(&payload(&[(0, 1, 0, 1)]), &mut pixels), 1);
    assert_eq!(pixels, vec![0, 255, 0, 0, 0, 0]);
    // Later frames start gray; the finished frame stays until the next one is finished.
    assert_eq!(p.paint(&payload(&[(5, 0, 1, 0), (6, 2, 1, 9), (7, 9, 9, 1)]), &mut pixels), 0);
    assert_eq!(pixels, vec![0, 255, 0, 0, 0, 0]);
    assert_eq!(p.paint(&payload(&[(33_332, 0, 0, 1), (33_333, 0, 0, 0)]), &mut pixels), 1);
    assert_eq!(pixels, vec![0, 127, 127, 0, 127, 255]);
    // Frame times advance by one frame per finished frame.
    assert_eq!(p.paint(&payload(&[(200_000, 0, 0, 1), (200_000, 1, 0, 1)]), &mut pixels), 2);
    assert_eq!(pixels, vec![127, 255, 127, 127, 127, 127]);
}

#[test]
fn incomplete_records_are_left_out() {
    let mut p = Painter::new(2, 2);
    let mut pixels = blank_frame(2, 2);
    let mut data = payload(&[(0, 0, 0, 1), (40_000, 1, 1, 1)]);
    data.pop();
    assert_eq!(p.paint(&data, &mut pixels), 1);
    assert_eq!(pixels, vec![255, 0, 0, 0]);
    assert_eq!(p.paint(&[], &mut pixels), 0);
}

#[test]
fn spreading_events_over_payloads_does_not_matter() {
    let events = [(0, 0, 0, 1), (10, 1, 1, 0), (40_000, 1, 0, 1), (50_000, 0, 1, 1), (70_000, 0, 0, 0)];
    let mut one = Painter::new(2, 2);
    let mut whole = blank_frame(2, 2);
    let n = one.paint(&payload(&events), &mut whole);
    let mut two = Painter::new(2, 2);
    let mut pieces = blank_frame(2, 2);
    let mut m = 0;
    for e in events {
        m += two.paint(&payload(&[e]), &mut pieces);
    }
    assert_eq!((whole, n), (pieces, m));
}

#[test]
fn frames_are_encoded_at_full_size() {
    let pixels: Vec<u8> = (0..40 * 30).map(|i| (i % 251) as u8).collect();
    let jpeg = encode_jpeg(&pixels, 40, 30, 90);
    assert_ne!(jpeg, pixels);
    assert_eq!(size_of(&jpeg), (40, 30));
    assert_eq!(jpeg[..2], [0xff, 0xd8]);
    assert_eq!(jpeg[20..22], [0xff, 0xc0]);
    assert_eq!(jpeg[25..30], [0, 30, 0, 40, 1]);
    assert_eq!(jpeg[jpeg.len() - 2..], [0xff, 0xd9]);
    // Bytes behind the last pixel do not matter, the quality does.
    let mut longer = pixels.clone();
    longer.push(9);
    assert_eq!(encode_jpeg(&longer, 40, 30, 90), jpeg);
    assert!(encode_jpeg(&pixels, 40, 30, 10).len() < jpeg.len());
    let img = image::load_from_memory(&encode_jpeg(&vec![127; 16], 4, 4, 80)).unwrap().to_luma8();
    assert!(img.pixels().all(|p| p.0[0].abs_diff(127) < 3));
    let wide = encode_jpeg(&vec![0; 1280 * 720], 1280, 720, 80);
    assert_eq!(wide[25..29], [720u16.to_be_bytes()[0], 720u16.to_be_bytes()[1], 5, 0]);
}

#[test]
fn frames_of_any_size_and_content_can_be_decoded() {
    for (w, h) in [(1u32, 1u32), (7, 9), (8, 8), (15, 16), (16, 15), (17, 33), (640, 3)] {
        for seed in 0..3u32 {
            let noise: Vec<u8> = (0..w * h)
                .map(|i| {
                    if seed == 0 {
                        255 * ((i + i / w) % 2) as u8
                    } else {
                        (i.wrapping_mul(2654435761).wrapping_add(seed * 97) >> 11) as u8
                    }
                })
                .collect();
            for q in [1u8, 50, 100] {
                let jpeg = encode_jpeg(&noise, w, h, q);
                assert_eq!(size_of(&jpeg), (w, h));
                for (a, b) in [(1, 1), (16, 16), (31, 5)] {
                    assert_eq!(size_of(&scale_jpeg(&jpeg, a, b, q)), (a, b));
                }
            }
        }
    }
}

#[test]
fn any_quality_is_taken() {
    let pixels = vec![200u8; 64];
    for q in [0u8, 1, 100, 101, 255] {
        assert_eq!(size_of(&encode_jpeg(&pixels, 8, 8, q)), (8, 8));
    }
}

#[test]
fn frames_are_scaled_after_encoding() {
    let pixels = vec![50u8; 40 * 30];
    let full = encode_jpeg(&pixels, 40, 30, 80);
    let small = scale_jpeg(&full, 20, 10, 80);
    assert_eq!(size_of(&small), (20, 10));
    assert_eq!(small[..2], [0xff, 0xd8]);
    assert_eq!(small[20..22], [0xff, 0xc0]);
    assert_eq!(small[25..30], [0, 10, 0, 20, 3]);
    assert_eq!(small[small.len() - 2..], [0xff, 0xd9]);
    // The scaled picture shows what the full one shows.
    for shade in [0u8, 50, 255] {
        let full = encode_jpeg(&vec![shade; 40 * 30], 40, 30, 80);
        let small = scale_jpeg(&full, 20, 10, 80);
        let img = image::load_from_memory(&small).unwrap().to_luma8();
        assert!(img.pixels().all(|p| p.0[0].abs_diff(shade) < 4));
    }
    // An image that was scaled can be scaled again.
    assert_eq!(size_of(&scale_jpeg(&small, 33, 44, 80)), (33, 44));
}

#[test]
fn scaled_samples_are_encoded() {
    let samples = vec![10u8; 4 * 6];
    let jpeg = encode_scaled(samples, 3, 2, 80);
    assert_eq!(size_of(&jpeg), (3, 2));
}

#[test]
fn published_frames_have_the_output_size() {
    let pixels = vec![127u8; 64 * 48];
    let mut s = StreamSettings::new(64, 48, 80);
    assert_eq!(encode_frame(&pixels, &s), encode_jpeg(&pixels, 64, 48, 80));
    s.out_width = 16;
    assert_eq!(size_of(&encode_frame(&pixels, &s)), (16, 48));
    s.out_height = 12;
    let full = encode_jpeg(&pixels, 64, 48, 80);
    assert_eq!(encode_frame(&pixels, &s), scale_jpeg(&full, 16, 12, 80));
}
