//! The live view: stream settings, the MJPEG stream and its HTTP interface.
//!
//! A request is dealt with in two steps. `handle_client` answers it, opens the stream, or names
//! the patch that its body has to be parsed as; `put_settings` and `put_streaming` then carry the
//! parsed patch out, or report why it could not be parsed.

use vstd::prelude::*;

use crate::bytes;
use crate::http;
use crate::text;

use crate::http::HttpRequest;

verus! {

/// How finished frames are published.
#[derive(Clone, Copy, Debug, PartialEq, Eq, Structural)]
pub struct StreamSettings {
    /// Sensor width. Fixed at startup.
    pub src_width: u32,
    /// Sensor height. Fixed at startup.
    pub src_height: u32,
    /// Width of the published frames.
    pub out_width: u32,
    /// Height of the published frames.
    pub out_height: u32,
    /// JPEG quality, 1 to 100.
    pub quality: u8,
    /// Whether frames are sent to stream clients. Snapshots are given out regardless.
    pub streaming: bool,
}

/// A change of some of the settings.
#[derive(Clone, Copy, Debug, PartialEq, Eq, Structural)]
pub struct SettingsPatch {
    pub out_width: Option<u32>,
    pub out_height: Option<u32>,
    pub quality: Option<u8>,
}

/// A request to switch streaming.
#[derive(Clone, Copy, Debug, PartialEq, Eq, Structural)]
pub struct StreamingPatch {
    pub streaming: bool,
}

/// What a patch may set: an output within the source size, and a quality from 1 to 100.
pub open spec fn settings_ok(s: StreamSettings) -> bool {
    &&& 1 <= s.out_width <= s.src_width
    &&& 1 <= s.out_height <= s.src_height
    &&& 1 <= s.quality <= 100
}

impl StreamSettings {
    /// The settings at startup: full size, streaming.
    pub fn new(src_width: u32, src_height: u32, quality: u8) -> (s: Self)
        ensures
            s == (StreamSettings {
                src_width,
                src_height,
                out_width: src_width,
                out_height: src_height,
                quality,
                streaming: true,
            }),
    {
        StreamSettings {
            src_width,
            src_height,
            out_width: src_width,
            out_height: src_height,
            quality,
            streaming: true,
        }
    }
}

// ---------------------------------------------------------------------------
// Texts
// ---------------------------------------------------------------------------
/// The sizes and the quality as a JSON object. The streaming state has an endpoint of its own.
pub open spec fn settings_text(s: StreamSettings) -> Seq<char> {
    "{\"src_width\":"@ + text::dec(s.src_width as nat) + ",\"src_height\":"@ + text::dec(
        s.src_height as nat,
    ) + ",\"out_width\":"@ + text::dec(s.out_width as nat) + ",\"out_height\":"@ + text::dec(
        s.out_height as nat,
    ) + ",\"quality\":"@ + text::dec(s.quality as nat) + "}"@
}

/// All of the settings as a JSON object, with which a change of them is answered.
pub open spec fn changed_text(s: StreamSettings) -> Seq<char> {
    "{\"src_width\":"@ + text::dec(s.src_width as nat) + ",\"src_height\":"@ + text::dec(
        s.src_height as nat,
    ) + ",\"out_width\":"@ + text::dec(s.out_width as nat) + ",\"out_height\":"@ + text::dec(
        s.out_height as nat,
    ) + ",\"quality\":"@ + text::dec(s.quality as nat) + ",\"streaming\":"@ + text::bool_text(
        s.streaming,
    ) + "}"@
}

/// The streaming state as a JSON object.
pub open spec fn streaming_text(on: bool) -> Seq<char> {
    "{\"streaming\":"@ + text::bool_text(on) + "}"@
}

/// The settings as a JSON object, but for its closing brace.
fn open_settings_json(s: &StreamSettings) -> (r: String)
    ensures
        settings_text(*s) == r@ + "}"@,
        changed_text(*s) == r@ + ",\"streaming\":"@ + text::bool_text(s.streaming) + "}"@,
{
    let mut r: String = "{\"src_width\":".to_owned();
    r.append(text::decimal(s.src_width as u64).as_str());
    r.append(",\"src_height\":");
    r.append(text::decimal(s.src_height as u64).as_str());
    r.append(",\"out_width\":");
    r.append(text::decimal(s.out_width as u64).as_str());
    r.append(",\"out_height\":");
    r.append(text::decimal(s.out_height as u64).as_str());
    r.append(",\"quality\":");
    r.append(text::decimal(s.quality as u64).as_str());
    r
}

fn settings_json(s: &StreamSettings) -> (r: String)
    ensures
        r@ == settings_text(*s),
{
    let mut r: String = open_settings_json(s);
    r.append("}");
    r
}

fn changed_json(s: &StreamSettings) -> (r: String)
    ensures
        r@ == changed_text(*s),
{
    let mut r: String = open_settings_json(s);
    r.append(",\"streaming\":");
    r.append(text::bool_str(s.streaming));
    r.append("}");
    r
}

fn streaming_json(on: bool) -> (r: String)
    ensures
        r@ == streaming_text(on),
{
    let mut r: String = "{\"streaming\":".to_owned();
    r.append(text::bool_str(on));
    r.append("}");
    r
}

// ---------------------------------------------------------------------------
// The MJPEG stream
// ---------------------------------------------------------------------------
/// The multipart boundary.
pub const BOUNDARY: &'static str = "evk4frame";

/// The head of the stream response.
pub open spec fn stream_head_text() -> Seq<char> {
    "HTTP/1.1 200 OK\r\nContent-Type: multipart/x-mixed-replace; boundary="@ + BOUNDARY@
        + "\r\nCache-Control: no-cache\r\nAccess-Control-Allow-Origin: *\r\nConnection: close\r\n\r\n"@
}

/// The head of one part of the stream.
pub open spec fn part_head_text(length: nat) -> Seq<char> {
    "--"@ + BOUNDARY@ + "\r\nContent-Type: image/jpeg\r\nContent-Length: "@ + text::dec(length)
        + "\r\n\r\n"@
}

/// One part of the stream: its head, the frame, and a line end.
pub open spec fn part_bytes(jpeg: Seq<u8>) -> Seq<u8> {
    vstd::utf8::encode_utf8(part_head_text(jpeg.len())) + jpeg + seq![13u8, 10u8]
}

fn stream_head() -> (r: Vec<u8>)
    ensures
        r@ == vstd::utf8::encode_utf8(stream_head_text()),
{
    let mut head: String =
        "HTTP/1.1 200 OK\r\nContent-Type: multipart/x-mixed-replace; boundary=".to_owned();
    head.append(BOUNDARY);
    head.append(
        "\r\nCache-Control: no-cache\r\nAccess-Control-Allow-Origin: *\r\nConnection: close\r\n\r\n",
    );
    vstd::slice::slice_to_vec(head.as_str().as_bytes())
}

/// Wraps a frame as one part of the stream.
pub fn mjpeg_part(jpeg: &[u8]) -> (r: Vec<u8>)
    ensures
        r@ == part_bytes(jpeg@),
{
    let mut head: String = "--".to_owned();
    head.append(BOUNDARY);
    head.append("\r\nContent-Type: image/jpeg\r\nContent-Length: ");
    head.append(text::decimal(jpeg.len() as u64).as_str());
    head.append("\r\n\r\n");
    let mut part: Vec<u8> = vstd::slice::slice_to_vec(head.as_str().as_bytes());
    bytes::append_bytes(&mut part, jpeg);
    part.push(13);
    part.push(10);
    assert(part@ =~= part_bytes(jpeg@));
    part
}

/// How a stream client is served next. Times are in nanoseconds.
#[derive(Clone, Copy, Debug, PartialEq, Eq, Structural)]
pub enum StreamStep {
    /// Streaming is off: look again after this time. The connection stays open.
    Pause(u128),
    /// Send the latest frame, if there is one, after this time.
    Send(u128),
}

/// How long a paused client waits before it looks again: 100 ms.
pub const PAUSE_NS: u128 = 100_000_000;

/// Decides how a client is served that got its last frame `elapsed` ago.
pub fn stream_step(streaming: bool, elapsed: u128, interval: u128) -> (r: StreamStep)
    ensures
        !streaming ==> r == StreamStep::Pause(100_000_000),
        streaming && elapsed < interval ==> r == StreamStep::Send((interval - elapsed) as u128),
        streaming && elapsed >= interval ==> r == StreamStep::Send(0),
{
    if !streaming {
        StreamStep::Pause(PAUSE_NS)
    } else if elapsed < interval {
        StreamStep::Send(interval - elapsed)
    } else {
        StreamStep::Send(0)
    }
}

/// The time between frames in nanoseconds for a frame rate.
pub fn frame_interval(fps: u64) -> (r: u64)
    requires
        fps > 0,
    ensures
        r as int == 1_000_000_000int / fps as int,
        r * fps <= 1_000_000_000 < (r + 1) * fps,
{
    proof {
        let n = fps as int;
        let q = 1_000_000_000int / n;
        vstd::arithmetic::div_mod::lemma_fundamental_div_mod(1_000_000_000, n);
        assert((q + 1) * n == q * n + n) by (nonlinear_arith);
        assert(q * n == n * q) by (nonlinear_arith);
    }
    1_000_000_000 / fps
}

/// What follows the last colon of a text, or the whole text where it has none.
pub open spec fn after_last_colon(s: Seq<char>) -> Seq<char>
    decreases s.len(),
{
    if s.len() == 0 || s.last() == ':' {
        seq![]
    } else {
        after_last_colon(s.drop_last()).push(s.last())
    }
}

/// Whether a text begins with another.
pub open spec fn starts_with(s: Seq<char>, prefix: Seq<char>) -> bool {
    prefix.len() <= s.len() && s.take(prefix.len() as int) == prefix
}

/// The address to open in a browser: `localhost` where the server listens on all addresses.
pub fn browser_address(bind: &str) -> (r: String)
    ensures
        r@ == (if starts_with(bind@, "0.0.0.0"@) {
            "localhost:"@ + after_last_colon(bind@)
        } else {
            bind@
        }),
{
    let v = text::chars_of(bind);
    let any = "0.0.0.0";
    let n = any.unicode_len();
    if v.len() < n || !text::same_text(bind.substring_char(0, n), any) {
        return bind.to_owned();
    }
    assert(bind@.subrange(0, n as int) =~= bind@.take(n as int));
    let mut i: usize = v.len();
    assert(v@.take(i as int) =~= v@);
    assert(after_last_colon(v@) + v@.skip(i as int) =~= after_last_colon(v@));
    while i > 0 && v[i - 1] != ':'
        invariant
            i <= v@.len(),
            v@ == bind@,
            after_last_colon(v@) == after_last_colon(v@.take(i as int)) + v@.skip(i as int),
        decreases i,
    {
        assert(v@.take(i as int).drop_last() =~= v@.take(i - 1));
        assert(after_last_colon(v@.take(i - 1)) + v@.skip(i - 1) =~= after_last_colon(
            v@.take(i as int),
        ) + v@.skip(i as int));
        i -= 1;
    }
    let tail = bind.substring_char(i, v.len());
    assert(tail@ =~= after_last_colon(bind@));
    let mut r: String = "localhost:".to_owned();
    r.append(tail);
    r
}

// ---------------------------------------------------------------------------
// Settings
// ---------------------------------------------------------------------------
/// Whether a width may be set.
pub open spec fn width_ok(s: StreamSettings, w: u32) -> bool {
    1 <= w <= s.src_width
}

/// Whether a height may be set.
pub open spec fn height_ok(s: StreamSettings, h: u32) -> bool {
    1 <= h <= s.src_height
}

/// Whether a quality may be set.
pub open spec fn quality_ok(q: u8) -> bool {
    1 <= q <= 100
}

/// The settings after a patch: each supplied value that is in bounds is set, whether or not
/// another is out of bounds.
pub open spec fn patched_settings(s: StreamSettings, p: SettingsPatch) -> StreamSettings {
    StreamSettings {
        out_width: match p.out_width {
            Some(w) => if width_ok(s, w) {
                w
            } else {
                s.out_width
            },
            None => s.out_width,
        },
        out_height: match p.out_height {
            Some(h) => if height_ok(s, h) {
                h
            } else {
                s.out_height
            },
            None => s.out_height,
        },
        quality: match p.quality {
            Some(q) => if quality_ok(q) {
                q
            } else {
                s.quality
            },
            None => s.quality,
        },
        ..s
    }
}

/// What is wrong with the width of a patch.
pub open spec fn width_errors(s: StreamSettings, p: SettingsPatch) -> Seq<Seq<char>> {
    if p.out_width matches Some(w) && !width_ok(s, w) {
        seq!["out_width must be 1–"@ + text::dec(s.src_width as nat) + "."@]
    } else {
        seq![]
    }
}

/// What is wrong with the height of a patch.
pub open spec fn height_errors(s: StreamSettings, p: SettingsPatch) -> Seq<Seq<char>> {
    if p.out_height matches Some(h) && !height_ok(s, h) {
        seq!["out_height must be 1–"@ + text::dec(s.src_height as nat) + "."@]
    } else {
        seq![]
    }
}

/// What is wrong with the quality of a patch.
pub open spec fn quality_errors(p: SettingsPatch) -> Seq<Seq<char>> {
    if p.quality matches Some(q) && !quality_ok(q) {
        seq!["quality must be 1–100."@]
    } else {
        seq![]
    }
}

/// What is wrong with a patch: width, height and quality in this order.
pub open spec fn patch_errors(s: StreamSettings, p: SettingsPatch) -> Seq<Seq<char>> {
    width_errors(s, p) + height_errors(s, p) + quality_errors(p)
}

/// Texts joined by `; `.
pub open spec fn joined(texts: Seq<Seq<char>>) -> Seq<char>
    decreases texts.len(),
{
    if texts.len() == 0 {
        seq![]
    } else if texts.len() == 1 {
        texts[0]
    } else {
        joined(texts.drop_last()) + "; "@ + texts.last()
    }
}

/// A text that reports an error. The status text is the same for every status.
pub open spec fn client_error(status: u16, reason: Seq<char>) -> Seq<u8> {
    http::json_bytes(status, "Bad Request"@, http::error_text(reason))
}

/// A successful answer.
pub open spec fn client_ok(json: Seq<char>) -> Seq<u8> {
    http::json_bytes(200, "OK"@, json)
}

/// The settings after a parsed patch, or unchanged where it could not be parsed.
pub open spec fn settings_after(
    s: StreamSettings,
    p: Result<SettingsPatch, String>,
) -> StreamSettings {
    match p {
        Ok(v) => patched_settings(s, v),
        Err(_) => s,
    }
}

/// The response to a patch of the settings `s`.
pub open spec fn settings_response(s: StreamSettings, p: Result<SettingsPatch, String>) -> Seq<
    u8,
> {
    match p {
        Ok(v) => if patch_errors(s, v).len() > 0 {
            client_error(400, joined(patch_errors(s, v)))
        } else {
            client_ok(changed_text(patched_settings(s, v)))
        },
        Err(e) => client_error(400, "Invalid JSON: "@ + e@),
    }
}

/// The settings after switching streaming.
pub open spec fn streaming_after(
    s: StreamSettings,
    p: Result<StreamingPatch, String>,
) -> StreamSettings {
    match p {
        Ok(v) => StreamSettings { streaming: v.streaming, ..s },
        Err(_) => s,
    }
}

/// The response to switching streaming.
pub open spec fn streaming_response(p: Result<StreamingPatch, String>) -> Seq<u8> {
    match p {
        Ok(v) => client_ok(streaming_text(v.streaming)),
        Err(e) => client_error(400, "Invalid JSON: "@ + e@),
    }
}

fn error_reply(status: u16, reason: &str) -> (r: Vec<u8>)
    ensures
        r@ == client_error(status, reason@),
{
    http::json_err(status, "Bad Request", reason)
}

fn bad_json(message: &str) -> (r: Vec<u8>)
    ensures
        r@ == client_error(400, "Invalid JSON: "@ + message@),
{
    let mut reason: String = "Invalid JSON: ".to_owned();
    reason.append(message);
    error_reply(400, reason.as_str())
}

fn bound_error(name: &str, bound: u32) -> (r: String)
    ensures
        r@ == name@ + text::dec(bound as nat) + "."@,
{
    let mut r: String = name.to_owned();
    r.append(text::decimal(bound as u64).as_str());
    r.append(".");
    r
}

fn join(texts: &Vec<String>) -> (r: String)
    ensures
        r@ == joined(texts@.map_values(|t: String| t@)),
{
    let ghost all = texts@.map_values(|t: String| t@);
    let mut r: String = String::new();
    let mut i: usize = 0;
    while i < texts.len()
        invariant
            i <= texts@.len(),
            all == texts@.map_values(|t: String| t@),
            r@ == joined(all.take(i as int)),
        decreases texts@.len() - i,
    {
        assert(all.take(i + 1).drop_last() =~= all.take(i as int));
        if i > 0 {
            r.append("; ");
        }
        r.append(texts[i].as_str());
        assert(r@ =~= joined(all.take(i + 1)));
        i += 1;
    }
    assert(all.take(i as int) =~= all);
    r
}

/// Carries out a patch of the settings and answers it. Values in bounds are set even where
/// another is refused.
pub fn put_settings(s: &mut StreamSettings, p: Result<SettingsPatch, String>) -> (r: Vec<u8>)
    ensures
        *final(s) == settings_after(*old(s), p),
        r@ == settings_response(*old(s), p),
{
    let patch = match p {
        Ok(v) => v,
        Err(e) => {
            return bad_json(e.as_str());
        },
    };
    let mut errors: Vec<String> = Vec::new();
    let ghost texts = |e: Seq<String>| e.map_values(|t: String| t@);
    if let Some(w) = patch.out_width {
        if w < 1 || w > s.src_width {
            errors.push(bound_error("out_width must be 1–", s.src_width));
        } else {
            s.out_width = w;
        }
    }
    assert(texts(errors@) =~= width_errors(*old(s), patch));
    if let Some(h) = patch.out_height {
        if h < 1 || h > s.src_height {
            errors.push(bound_error("out_height must be 1–", s.src_height));
        } else {
            s.out_height = h;
        }
    }
    assert(texts(errors@) =~= width_errors(*old(s), patch) + height_errors(*old(s), patch));
    if let Some(q) = patch.quality {
        if q < 1 || q > 100 {
            errors.push("quality must be 1–100.".to_owned());
        } else {
            s.quality = q;
        }
    }
    assert(texts(errors@) =~= patch_errors(*old(s), patch));
    if errors.len() > 0 {
        let reason = join(&errors);
        return error_reply(400, reason.as_str());
    }
    http::json_ok(changed_json(s).as_str())
}

/// Switches streaming and answers.
pub fn put_streaming(s: &mut StreamSettings, p: Result<StreamingPatch, String>) -> (r: Vec<u8>)
    ensures
        *final(s) == streaming_after(*old(s), p),
        r@ == streaming_response(p),
{
    match p {
        Ok(v) => {
            s.streaming = v.streaming;
            http::json_ok(streaming_json(v.streaming).as_str())
        },
        Err(e) => bad_json(e.as_str()),
    }
}

// ---------------------------------------------------------------------------
// Requests
// ---------------------------------------------------------------------------
/// The endpoints.
#[derive(Clone, Copy, Debug, PartialEq, Eq, Structural)]
pub enum ClientRoute {
    Page,
    Stream,
    Snapshot,
    GetSettings,
    PutSettings,
    GetStreaming,
    PutStreaming,
    /// A CORS preflight request, whatever its path.
    Preflight,
    Unknown,
}

/// The endpoint that a method and a path name.
pub open spec fn client_route_of(method: Seq<char>, path: Seq<char>) -> ClientRoute {
    if method == "GET"@ && (path == "/"@ || path == "/index.html"@) {
        ClientRoute::Page
    } else if method == "GET"@ && path == "/stream"@ {
        ClientRoute::Stream
    } else if method == "GET"@ && path == "/snapshot"@ {
        ClientRoute::Snapshot
    } else if method == "GET"@ && path == "/api/settings"@ {
        ClientRoute::GetSettings
    } else if method == "PUT"@ && path == "/api/settings"@ {
        ClientRoute::PutSettings
    } else if method == "GET"@ && path == "/api/streaming"@ {
        ClientRoute::GetStreaming
    } else if method == "PUT"@ && path == "/api/streaming"@ {
        ClientRoute::PutStreaming
    } else if method == "OPTIONS"@ {
        ClientRoute::Preflight
    } else {
        ClientRoute::Unknown
    }
}

/// Finds the endpoint for a method and a path.
pub fn client_route(method: &str, path: &str) -> (r: ClientRoute)
    ensures
        r == client_route_of(method@, path@),
{
    let get = text::same_text(method, "GET");
    let put = text::same_text(method, "PUT");
    if get && (text::same_text(path, "/") || text::same_text(path, "/index.html")) {
        ClientRoute::Page
    } else if get && text::same_text(path, "/stream") {
        ClientRoute::Stream
    } else if get && text::same_text(path, "/snapshot") {
        ClientRoute::Snapshot
    } else if get && text::same_text(path, "/api/settings") {
        ClientRoute::GetSettings
    } else if put && text::same_text(path, "/api/settings") {
        ClientRoute::PutSettings
    } else if get && text::same_text(path, "/api/streaming") {
        ClientRoute::GetStreaming
    } else if put && text::same_text(path, "/api/streaming") {
        ClientRoute::PutStreaming
    } else if text::same_text(method, "OPTIONS") {
        ClientRoute::Preflight
    } else {
        ClientRoute::Unknown
    }
}

/// How a request is to go on.
#[derive(Debug)]
pub enum ClientStep {
    /// Send this response.
    Reply(Vec<u8>),
    /// Send this head and then parts of the stream, as `stream_step` says.
    Stream(Vec<u8>),
    /// Parse the body as a patch and hand the result to `put_settings`.
    ParseSettings,
    /// Parse the body as a patch and hand the result to `put_streaming`.
    ParseStreaming,
}

/// The mathematical counterpart of `ClientStep`.
pub enum ClientModel {
    Reply(Seq<u8>),
    Stream(Seq<u8>),
    ParseSettings,
    ParseStreaming,
}

impl View for ClientStep {
    type V = ClientModel;

    open spec fn view(&self) -> ClientModel {
        match *self {
            ClientStep::Reply(r) => ClientModel::Reply(r@),
            ClientStep::Stream(r) => ClientModel::Stream(r@),
            ClientStep::ParseSettings => ClientModel::ParseSettings,
            ClientStep::ParseStreaming => ClientModel::ParseStreaming,
        }
    }
}

/// The answer to a request, as far as it does not depend on its body.
pub open spec fn client_step_for(
    s: StreamSettings,
    page: Seq<char>,
    frame: Option<Seq<u8>>,
    route: ClientRoute,
) -> ClientModel {
    match route {
        ClientRoute::Page => ClientModel::Reply(
            http::response_bytes(
                200,
                "OK"@,
                "text/html; charset=utf-8"@,
                vstd::utf8::encode_utf8(page),
            ),
        ),
        ClientRoute::Stream => if s.streaming {
            ClientModel::Stream(vstd::utf8::encode_utf8(stream_head_text()))
        } else {
            ClientModel::Reply(client_error(503, "Streaming is currently disabled."@))
        },
        ClientRoute::Snapshot => match frame {
            Some(jpeg) => ClientModel::Reply(
                http::response_bytes(200, "OK"@, "image/jpeg"@, jpeg),
            ),
            None => ClientModel::Reply(client_error(503, "No frame available yet."@)),
        },
        ClientRoute::GetSettings => ClientModel::Reply(client_ok(settings_text(s))),
        ClientRoute::PutSettings => ClientModel::ParseSettings,
        ClientRoute::GetStreaming => ClientModel::Reply(client_ok(streaming_text(s.streaming))),
        ClientRoute::PutStreaming => ClientModel::ParseStreaming,
        ClientRoute::Preflight => ClientModel::Reply(
            vstd::utf8::encode_utf8(http::preflight_text()),
        ),
        ClientRoute::Unknown => ClientModel::Reply(client_error(404, "Not found."@)),
    }
}

/// Answers a request from the settings, the browser page and the latest frame, opens the stream, or
/// names the patch that the body has to hold.
pub fn handle_client(
    s: &StreamSettings,
    page: &str,
    frame: Option<&[u8]>,
    req: &HttpRequest,
) -> (r: ClientStep)
    ensures
        r@ == client_step_for(
            *s,
            page@,
            match frame {
                Some(jpeg) => Some(jpeg@),
                None => None,
            },
            client_route_of(req.method@, req.path@),
        ),
{
    match client_route(req.method.as_str(), req.path.as_str()) {
        ClientRoute::Page => ClientStep::Reply(
            http::write_response(200, "OK", "text/html; charset=utf-8", page.as_bytes()),
        ),
        ClientRoute::Stream => {
            if s.streaming {
                ClientStep::Stream(stream_head())
            } else {
                ClientStep::Reply(error_reply(503, "Streaming is currently disabled."))
            }
        },
        ClientRoute::Snapshot => match frame {
            Some(jpeg) => ClientStep::Reply(http::write_response(200, "OK", "image/jpeg", jpeg)),
            None => ClientStep::Reply(error_reply(503, "No frame available yet.")),
        },
        ClientRoute::GetSettings => ClientStep::Reply(http::json_ok(settings_json(s).as_str())),
        ClientRoute::PutSettings => ClientStep::ParseSettings,
        ClientRoute::GetStreaming => ClientStep::Reply(
            http::json_ok(streaming_json(s.streaming).as_str()),
        ),
        ClientRoute::PutStreaming => ClientStep::ParseStreaming,
        ClientRoute::Preflight => ClientStep::Reply(http::preflight_response()),
        ClientRoute::Unknown => ClientStep::Reply(error_reply(404, "Not found.")),
    }
}

/// The browser page of the live view.
pub const VIEWER_HTML: &'static str = "<!DOCTYPE html>\n<html lang=\"en\">\n<head>\n<meta charset=\"utf-8\">\n<title>EVK4 live view</title>\n</head>\n<body style=\"margin:0;background:#111;text-align:center\">\n<img src=\"/stream\" alt=\"live stream\" style=\"max-width:100%;max-height:100vh\">\n</body>\n</html>\n";

/// The browser page of the live view.
pub fn viewer_html() -> (r: &'static str)
    ensures
        r@ == VIEWER_HTML@,
{
    VIEWER_HTML
}

// ---------------------------------------------------------------------------
// Laws
// ---------------------------------------------------------------------------
/// A patch never takes the settings out of bounds, and leaves the source size and the streaming
/// state as they are.
pub proof fn patch_keeps_settings_ok(s: StreamSettings, p: Result<SettingsPatch, String>)
    ensures
        settings_ok(s) ==> settings_ok(settings_after(s, p)),
        settings_after(s, p).src_width == s.src_width,
        settings_after(s, p).src_height == s.src_height,
        settings_after(s, p).streaming == s.streaming,
{
}

/// Only supplied values change.
pub proof fn absent_values_stay(s: StreamSettings, p: SettingsPatch)
    ensures
        p.out_width is None ==> patched_settings(s, p).out_width == s.out_width,
        p.out_height is None ==> patched_settings(s, p).out_height == s.out_height,
        p.quality is None ==> patched_settings(s, p).quality == s.quality,
{
}

/// A patch is answered with the new settings exactly where every supplied value is in bounds; all
/// of them are then set, and reading the settings gives them back.
pub proof fn accepted_settings_read_back(
    s: StreamSettings,
    p: SettingsPatch,
    page: Seq<char>,
    frame: Option<Seq<u8>>,
)
    ensures
        patch_errors(s, p).len() == 0 <==> {
            &&& p.out_width matches Some(w) ==> width_ok(s, w)
            &&& p.out_height matches Some(h) ==> height_ok(s, h)
            &&& p.quality matches Some(q) ==> quality_ok(q)
        },
        patch_errors(s, p).len() == 0 ==> {
            let after = patched_settings(s, p);
            &&& p.out_width matches Some(w) ==> after.out_width == w
            &&& p.out_height matches Some(h) ==> after.out_height == h
            &&& p.quality matches Some(q) ==> after.quality == q
            &&& settings_response(s, Ok(p)) == client_ok(changed_text(after))
            &&& client_step_for(after, page, frame, ClientRoute::GetSettings) == ClientModel::Reply(
                client_ok(settings_text(after)),
            )
        },
{
}

/// Switching streaming is read back, changes nothing else, and decides whether the stream opens.
pub proof fn streaming_reads_back(
    s: StreamSettings,
    p: StreamingPatch,
    page: Seq<char>,
    frame: Option<Seq<u8>>,
)
    ensures
        ({
            let after = streaming_after(s, Ok(p));
            &&& after == (StreamSettings { streaming: p.streaming, ..s })
            &&& client_step_for(after, page, frame, ClientRoute::GetStreaming) == ClientModel::Reply(
                streaming_response(Ok(p)),
            )
            &&& (client_step_for(after, page, frame, ClientRoute::Stream) is Stream) == p.streaming
        }),
{
}

/// A snapshot does not depend on the settings: it is the latest frame, streaming or not.
pub proof fn snapshot_ignores_settings(
    a: StreamSettings,
    b: StreamSettings,
    page: Seq<char>,
    frame: Option<Seq<u8>>,
)
    ensures
        client_step_for(a, page, frame, ClientRoute::Snapshot) == client_step_for(
            b,
            page,
            frame,
            ClientRoute::Snapshot,
        ),
{
}

/// A patch whose values are all in bounds, from 1 to the source width, from 1 to the source height
/// and from 1 to 100, sets each of them, leaves the rest as it was, and is answered with status 200
/// and the settings that then hold.
pub proof fn in_bounds_values_are_set(s: StreamSettings, p: SettingsPatch)
    requires
        p.out_width matches Some(w) ==> w >= 1 && w <= s.src_width,
        p.out_height matches Some(h) ==> h >= 1 && h <= s.src_height,
        p.quality matches Some(q) ==> q >= 1 && q <= 100,
    ensures
        ({
            let t = settings_after(s, Ok(p));
            &&& p.out_width matches Some(w) ==> t.out_width == w
            &&& p.out_width is None ==> t.out_width == s.out_width
            &&& p.out_height matches Some(h) ==> t.out_height == h
            &&& p.out_height is None ==> t.out_height == s.out_height
            &&& p.quality matches Some(q) ==> t.quality == q
            &&& p.quality is None ==> t.quality == s.quality
            &&& t.src_width == s.src_width
            &&& t.src_height == s.src_height
            &&& t.streaming == s.streaming
            &&& settings_response(s, Ok(p)) == http::json_bytes(200, "OK"@, changed_text(t))
        }),
{
}

/// A value out of bounds is not set, whatever else the patch holds, and a value in bounds is set,
/// whatever else it holds.
pub proof fn each_value_is_judged_alone(s: StreamSettings, p: SettingsPatch)
    ensures
        ({
            let t = settings_after(s, Ok(p));
            &&& p.out_width matches Some(w) ==> (if w == 0 || w > s.src_width {
                t.out_width == s.out_width
            } else {
                t.out_width == w
            })
            &&& p.out_height matches Some(h) ==> (if h == 0 || h > s.src_height {
                t.out_height == s.out_height
            } else {
                t.out_height == h
            })
            &&& p.quality matches Some(q) ==> (if q == 0 || q > 100 {
                t.quality == s.quality
            } else {
                t.quality == q
            })
        }),
{
}

/// A patch that holds a value out of bounds is answered with status 400 and names the bounds of each
/// such value, and of no other.
pub proof fn refused_values_are_named(s: StreamSettings, p: SettingsPatch)
    ensures
        ({
            let width = p.out_width matches Some(w) && (w == 0 || w > s.src_width);
            let height = p.out_height matches Some(h) && (h == 0 || h > s.src_height);
            let quality = p.quality matches Some(q) && (q == 0 || q > 100);
            let on_width = "out_width must be 1–"@ + text::dec(s.src_width as nat) + "."@;
            let on_height = "out_height must be 1–"@ + text::dec(s.src_height as nat) + "."@;
            let on_quality = "quality must be 1–100."@;
            let told = |reason: Seq<char>|
                settings_response(s, Ok(p)) == http::json_bytes(
                    400,
                    "Bad Request"@,
                    http::error_text(reason),
                );
            &&& width && height && quality ==> told(
                on_width + "; "@ + on_height + "; "@ + on_quality,
            )
            &&& width && height && !quality ==> told(on_width + "; "@ + on_height)
            &&& width && !height && quality ==> told(on_width + "; "@ + on_quality)
            &&& width && !height && !quality ==> told(on_width)
            &&& !width && height && quality ==> told(on_height + "; "@ + on_quality)
            &&& !width && height && !quality ==> told(on_height)
            &&& !width && !height && quality ==> told(on_quality)
        }),
{
    let on_width = "out_width must be 1–"@ + text::dec(s.src_width as nat) + "."@;
    let on_height = "out_height must be 1–"@ + text::dec(s.src_height as nat) + "."@;
    let on_quality = "quality must be 1–100."@;
    joined_one(on_width);
    joined_one(on_height);
    joined_one(on_quality);
    joined_two(on_width, on_height);
    joined_two(on_width, on_quality);
    joined_two(on_height, on_quality);
    joined_three(on_width, on_height, on_quality);
    let errors = patch_errors(s, p);
    let width = p.out_width matches Some(w) && !width_ok(s, w);
    let height = p.out_height matches Some(h) && !height_ok(s, h);
    let quality = p.quality matches Some(q) && !quality_ok(q);
    if width && height && quality {
        assert(errors =~= seq![on_width, on_height, on_quality]);
    } else if width && height {
        assert(errors =~= seq![on_width, on_height]);
    } else if width && quality {
        assert(errors =~= seq![on_width, on_quality]);
    } else if width {
        assert(errors =~= seq![on_width]);
    } else if height && quality {
        assert(errors =~= seq![on_height, on_quality]);
    } else if height {
        assert(errors =~= seq![on_height]);
    } else if quality {
        assert(errors =~= seq![on_quality]);
    }
}

proof fn joined_one(a: Seq<char>)
    ensures
        joined(seq![a]) == a,
{
}

proof fn joined_two(a: Seq<char>, b: Seq<char>)
    ensures
        joined(seq![a, b]) == a + "; "@ + b,
{
    assert(seq![a, b].drop_last() =~= seq![a]);
    joined_one(a);
}

proof fn joined_three(a: Seq<char>, b: Seq<char>, c: Seq<char>)
    ensures
        joined(seq![a, b, c]) == a + "; "@ + b + "; "@ + c,
{
    assert(seq![a, b, c].drop_last() =~= seq![a, b]);
    joined_two(a, b);
}

/// A patch that could not be parsed changes nothing and is answered with status 400 and the parser's
/// message.
pub proof fn unreadable_patch_changes_nothing(s: StreamSettings, message: String)
    ensures
        settings_after(s, Err(message)) == s,
        streaming_after(s, Err(message)) == s,
        settings_response(s, Err(message)) == http::json_bytes(
            400,
            "Bad Request"@,
            http::error_text("Invalid JSON: "@ + message@),
        ),
        streaming_response(Err(message)) == settings_response(s, Err(message)),
{
}

/// Streaming is switched to what was asked for, on or off, and the answer says so.
pub proof fn streaming_is_switched(s: StreamSettings, on: bool)
    ensures
        ({
            let p: Result<StreamingPatch, String> = Ok(StreamingPatch { streaming: on });
            &&& streaming_after(s, p).streaming == on
            &&& streaming_after(s, p) == (StreamSettings { streaming: on, ..s })
            &&& streaming_response(p) == http::json_bytes(
                200,
                "OK"@,
                "{\"streaming\":"@ + (if on {
                    "true"@
                } else {
                    "false"@
                }) + "}"@,
            )
        }),
{
}

/// The JSON object of the settings tells the sizes and the quality, in digits; the one with which a
/// change is answered goes on with the streaming state.
pub proof fn settings_json_tells_settings(s: StreamSettings)
    ensures
        exists|
            src_width: Seq<char>,
            src_height: Seq<char>,
            out_width: Seq<char>,
            out_height: Seq<char>,
            quality: Seq<char>,
        |
            #![trigger text::reads_as(src_width, s.src_width as nat), text::reads_as(src_height, s.src_height as nat), text::reads_as(out_width, s.out_width as nat), text::reads_as(out_height, s.out_height as nat), text::reads_as(quality, s.quality as nat)]
            text::reads_as(src_width, s.src_width as nat) && text::reads_as(
                src_height,
                s.src_height as nat,
            ) && text::reads_as(out_width, s.out_width as nat) && text::reads_as(
                out_height,
                s.out_height as nat,
            ) && text::reads_as(quality, s.quality as nat) && {
                let members = "{\"src_width\":"@ + src_width + ",\"src_height\":"@ + src_height
                    + ",\"out_width\":"@ + out_width + ",\"out_height\":"@ + out_height
                    + ",\"quality\":"@ + quality;
                &&& settings_text(s) == members + "}"@
                &&& changed_text(s) == members + ",\"streaming\":"@ + (if s.streaming {
                    "true"@
                } else {
                    "false"@
                }) + "}"@
            },
{
    text::dec_reads(s.src_width as nat);
    text::dec_reads(s.src_height as nat);
    text::dec_reads(s.out_width as nat);
    text::dec_reads(s.out_height as nat);
    text::dec_reads(s.quality as nat);
}

/// Each endpoint is reached by one method and one path, the page by two paths, and by no other; a
/// preflight request is reached by its method alone.
pub proof fn client_routes_are_exact(method: Seq<char>, path: Seq<char>)
    ensures
        ({
            let r = client_route_of(method, path);
            &&& r == ClientRoute::Page <==> method == "GET"@ && (path == "/"@ || path
                == "/index.html"@)
            &&& r == ClientRoute::Stream <==> method == "GET"@ && path == "/stream"@
            &&& r == ClientRoute::Snapshot <==> method == "GET"@ && path == "/snapshot"@
            &&& r == ClientRoute::GetSettings <==> method == "GET"@ && path == "/api/settings"@
            &&& r == ClientRoute::PutSettings <==> method == "PUT"@ && path == "/api/settings"@
            &&& r == ClientRoute::GetStreaming <==> method == "GET"@ && path == "/api/streaming"@
            &&& r == ClientRoute::PutStreaming <==> method == "PUT"@ && path == "/api/streaming"@
            &&& r == ClientRoute::Preflight <==> method == "OPTIONS"@
        }),
{
    reveal_strlit("GET");
    reveal_strlit("PUT");
    reveal_strlit("OPTIONS");
    reveal_strlit("/");
    reveal_strlit("/index.html");
    reveal_strlit("/stream");
    reveal_strlit("/snapshot");
    reveal_strlit("/api/settings");
    reveal_strlit("/api/streaming");
    assert("GET"@[0] == 'G' && "PUT"@[0] == 'P' && "OPTIONS"@[0] == 'O');
    assert("/"@.len() == 1 && "/index.html"@.len() == 11 && "/stream"@.len() == 7);
    assert("/snapshot"@.len() == 9 && "/api/settings"@.len() == 13 && "/api/streaming"@.len()
        == 14);
}

/// The page, the latest frame, the settings and the streaming state are given out as they are; the
/// stream is opened exactly where streaming is on; what is not there is reported.
pub proof fn clients_are_answered(s: StreamSettings, page: Seq<char>, jpeg: Seq<u8>)
    ensures
        forall|frame: Option<Seq<u8>>|
            #[trigger] client_step_for(s, page, frame, ClientRoute::Page) == ClientModel::Reply(
                http::response_bytes(
                    200,
                    "OK"@,
                    "text/html; charset=utf-8"@,
                    vstd::utf8::encode_utf8(page),
                ),
            ),
        client_step_for(s, page, Some(jpeg), ClientRoute::Snapshot) == ClientModel::Reply(
            http::response_bytes(200, "OK"@, "image/jpeg"@, jpeg),
        ),
        client_step_for(s, page, None, ClientRoute::Snapshot) == ClientModel::Reply(
            http::json_bytes(503, "Bad Request"@, http::error_text("No frame available yet."@)),
        ),
        forall|frame: Option<Seq<u8>>|
            {
                &&& (#[trigger] client_step_for(s, page, frame, ClientRoute::Stream) is Stream)
                    == s.streaming
                &&& s.streaming ==> client_step_for(s, page, frame, ClientRoute::Stream)
                    == ClientModel::Stream(vstd::utf8::encode_utf8(stream_head_text()))
                &&& !s.streaming ==> client_step_for(s, page, frame, ClientRoute::Stream)
                    == ClientModel::Reply(
                    http::json_bytes(
                        503,
                        "Bad Request"@,
                        http::error_text("Streaming is currently disabled."@),
                    ),
                )
            },
        forall|frame: Option<Seq<u8>>|
            #[trigger] client_step_for(s, page, frame, ClientRoute::GetSettings)
                == ClientModel::Reply(http::json_bytes(200, "OK"@, settings_text(s))),
        forall|frame: Option<Seq<u8>>|
            #[trigger] client_step_for(s, page, frame, ClientRoute::GetStreaming)
                == ClientModel::Reply(
                http::json_bytes(
                    200,
                    "OK"@,
                    "{\"streaming\":"@ + (if s.streaming {
                        "true"@
                    } else {
                        "false"@
                    }) + "}"@,
                ),
            ),
        forall|frame: Option<Seq<u8>>|
            #[trigger] client_step_for(s, page, frame, ClientRoute::PutSettings)
                == ClientModel::ParseSettings,
        forall|frame: Option<Seq<u8>>|
            #[trigger] client_step_for(s, page, frame, ClientRoute::PutStreaming)
                == ClientModel::ParseStreaming,
        forall|frame: Option<Seq<u8>>|
            #[trigger] client_step_for(s, page, frame, ClientRoute::Preflight)
                == ClientModel::Reply(vstd::utf8::encode_utf8(http::preflight_text())),
        forall|frame: Option<Seq<u8>>|
            #[trigger] client_step_for(s, page, frame, ClientRoute::Unknown) == ClientModel::Reply(
                http::json_bytes(404, "Bad Request"@, http::error_text("Not found."@)),
            ),
{
}

/// The head of each part of the stream begins with the boundary that the head of the stream
/// announces, behind two hyphens.
pub proof fn parts_begin_with_announced_boundary(length: nat)
    ensures
        exists|boundary: Seq<char>, front: Seq<char>, back: Seq<char>, rest: Seq<char>|
            #![trigger front + "boundary="@ + boundary + "\r\n"@ + back, "--"@ + boundary + "\r\n"@ + rest]
            stream_head_text() == front + "boundary="@ + boundary + "\r\n"@ + back
                && part_head_text(length) == "--"@ + boundary + "\r\n"@ + rest,
{
    reveal_strlit("boundary=");
    reveal_strlit("\r\n");
    reveal_strlit("HTTP/1.1 200 OK\r\nContent-Type: multipart/x-mixed-replace; boundary=");
    reveal_strlit(
        "\r\nCache-Control: no-cache\r\nAccess-Control-Allow-Origin: *\r\nConnection: close\r\n\r\n",
    );
    reveal_strlit("\r\nContent-Type: image/jpeg\r\nContent-Length: ");
    let open = "HTTP/1.1 200 OK\r\nContent-Type: multipart/x-mixed-replace; boundary="@;
    let tail =
        "\r\nCache-Control: no-cache\r\nAccess-Control-Allow-Origin: *\r\nConnection: close\r\n\r\n"@;
    let front = open.take(open.len() - 9);
    let boundary = BOUNDARY@;
    let back = tail.skip(2);
    assert(open =~= front + "boundary="@);
    assert(tail =~= "\r\n"@ + back);
    assert(stream_head_text() =~= front + "boundary="@ + boundary + "\r\n"@ + back);
    let next = "\r\nContent-Type: image/jpeg\r\nContent-Length: "@;
    assert(next =~= "\r\n"@ + next.skip(2));
    let rest = next.skip(2) + text::dec(length) + "\r\n\r\n"@;
    assert(part_head_text(length) =~= "--"@ + boundary + "\r\n"@ + rest);
}

/// What follows the last colon ends the text, holds no colon, and begins behind one, unless the
/// text has none.
pub proof fn after_last_colon_is(s: Seq<char>)
    ensures
        ({
            let r = after_last_colon(s);
            let at = s.len() - r.len();
            &&& r.len() <= s.len()
            &&& r == s.skip(at)
            &&& forall|i: int| at <= i < s.len() ==> #[trigger] s[i] != ':'
            &&& at > 0 ==> s[at - 1] == ':'
        }),
    decreases s.len(),
{
    let r = after_last_colon(s);
    if s.len() == 0 || s.last() == ':' {
        assert(r =~= s.skip(s.len() as int));
    } else {
        let init = s.drop_last();
        after_last_colon_is(init);
        let at = s.len() - r.len();
        assert(r =~= s.skip(at));
        assert forall|i: int| at <= i < s.len() implies #[trigger] s[i] != ':' by {
            if i < init.len() {
                assert(init[i] == s[i]);
            }
        }
        if at > 0 {
            assert(init[at - 1] == s[at - 1]);
        }
    }
}

/// A text begins with another exactly where it is the other and something behind it.
pub proof fn starts_with_is(s: Seq<char>, prefix: Seq<char>)
    ensures
        starts_with(s, prefix) <==> exists|rest: Seq<char>| s == #[trigger] (prefix + rest),
{
    if starts_with(s, prefix) {
        let rest = s.skip(prefix.len() as int);
        assert(s =~= prefix + rest);
    }
    if exists|rest: Seq<char>| s == #[trigger] (prefix + rest) {
        let rest = choose|rest: Seq<char>| s == #[trigger] (prefix + rest);
        assert(s.take(prefix.len() as int) =~= prefix);
    }
}

} // verus!
