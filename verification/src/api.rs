//! The control interface of the pipeline: its state, its endpoints and what they change.
//!
//! A request is dealt with in two steps. `handle_api` answers it from the current state, or names
//! the kind of patch that its body has to be parsed as; `apply_patch` then carries the parsed
//! patch out, or reports why it could not be parsed.

use vstd::prelude::*;

use crate::camera;
use crate::http;
use crate::json;
use crate::text;

use crate::camera::Biases;
use crate::camera::BiasesPatch;
use crate::camera::Configuration;
use crate::http::HttpRequest;

verus! {

/// The state shared by the control interface and the pipeline.
#[derive(Debug)]
pub struct SharedState {
    /// Whether raw data is recorded.
    pub recording: bool,
    /// Whether recording can be switched. Fixed at startup.
    pub recording_toggle: bool,
    /// Cap on the age of buffered data, in seconds.
    pub buffer_max_age_secs: u64,
    /// Cap on the total size of buffered data, in bytes.
    pub buffer_max_bytes: u64,
    /// Bytes in the buffer at present.
    pub buffer_bytes: u64,
    /// Chunks in the buffer at present.
    pub buffer_chunks: u64,
    /// The file being recorded, as it is displayed.
    pub current_file: Option<String>,
    /// The device settings.
    pub configuration: Configuration,
    /// The rate limit as the user gave it, in events per second. 0 means unlimited.
    pub rate_limit_eps: u64,
}

/// What holds of the state at all times: recording is on wherever it cannot be switched, and the
/// hardware limiter is the one for the user's rate limit.
pub open spec fn state_ok(s: SharedState) -> bool {
    &&& !s.recording_toggle ==> s.recording
    &&& s.configuration.rate_limiter == camera::limiter_for(s.rate_limit_eps)
}

/// Whether a text is the word `true`, in capital or small letters.
pub open spec fn is_true_word(s: Seq<char>) -> bool {
    &&& s.len() == "true"@.len()
    &&& forall|i: int| 0 <= i < s.len() ==> http::ascii_lower(#[trigger] s[i]) == "true"@[i]
}

/// Reads the value of the option that makes recording switchable.
pub fn parse_toggle(value: &str) -> (r: bool)
    ensures
        r == is_true_word(value@),
{
    let v = text::chars_of(value);
    let word = text::chars_of("true");
    if v.len() != word.len() {
        return false;
    }
    let mut i: usize = 0;
    while i < v.len()
        invariant
            i <= v@.len(),
            v@ == value@,
            word@ == "true"@,
            v@.len() == word@.len(),
            forall|k: int| 0 <= k < i ==> http::ascii_lower(#[trigger] v@[k]) == word@[k],
        decreases v@.len() - i,
    {
        if http::lower(v[i]) != word[i] {
            return false;
        }
        i += 1;
    }
    true
}

impl SharedState {
    /// The state at startup: the driver's default biases with the two contrast thresholds that
    /// were asked for. Recording is on unless it can be switched, in which case it starts off.
    pub fn new(
        defaults: Biases,
        diff_on: u8,
        diff_off: u8,
        rate_limit: u64,
        record_toggle: bool,
        buffer_max_age: u64,
        buffer_max_bytes: u64,
    ) -> (s: Self)
        ensures
            state_ok(s),
            s == (SharedState {
                recording: !record_toggle,
                recording_toggle: record_toggle,
                buffer_max_age_secs: buffer_max_age,
                buffer_max_bytes,
                buffer_bytes: 0,
                buffer_chunks: 0,
                current_file: None,
                configuration: Configuration {
                    biases: Biases { diff_on, diff_off, ..defaults },
                    rate_limiter: camera::limiter_for(rate_limit),
                },
                rate_limit_eps: rate_limit,
            }),
    {
        let mut biases = defaults;
        biases.diff_on = diff_on;
        biases.diff_off = diff_off;
        SharedState {
            recording: !record_toggle,
            recording_toggle: record_toggle,
            buffer_max_age_secs: buffer_max_age,
            buffer_max_bytes,
            buffer_bytes: 0,
            buffer_chunks: 0,
            current_file: None,
            configuration: Configuration {
                biases,
                rate_limiter: camera::make_rate_limiter(rate_limit),
            },
            rate_limit_eps: rate_limit,
        }
    }
}

impl SharedState {
    /// Notes what the buffer holds.
    pub fn note_fill(&mut self, bytes: u64, chunks: u64)
        ensures
            *final(self) == (SharedState {
                buffer_bytes: bytes,
                buffer_chunks: chunks,
                ..*old(self)
            }),
    {
        self.buffer_bytes = bytes;
        self.buffer_chunks = chunks;
    }

    /// Notes the file being recorded, or that there is none.
    pub fn note_file(&mut self, file: Option<String>)
        ensures
            *final(self) == (SharedState { current_file: file, ..*old(self) }),
    {
        self.current_file = file;
    }
}

// ---------------------------------------------------------------------------
// Texts
// ---------------------------------------------------------------------------
/// The current file as a JSON value.
pub open spec fn current_file_text(s: SharedState) -> Seq<char> {
    match s.current_file {
        Some(f) => json::json_quoted(f@),
        None => "null"@,
    }
}

/// The caps and the fill of the buffer as a JSON object.
pub open spec fn buffer_text(s: SharedState) -> Seq<char> {
    "{\"max_age_secs\":"@ + text::dec(s.buffer_max_age_secs as nat) + ",\"max_bytes\":"@
        + text::dec(s.buffer_max_bytes as nat) + ",\"bytes\":"@ + text::dec(s.buffer_bytes as nat)
        + ",\"chunks\":"@ + text::dec(s.buffer_chunks as nat) + "}"@
}

/// The recording state as a JSON object.
pub open spec fn recording_text(s: SharedState) -> Seq<char> {
    "{\"recording\":"@ + text::bool_text(s.recording) + ",\"recording_control\":"@
        + text::bool_text(s.recording_toggle) + ",\"current_file\":"@ + current_file_text(s) + "}"@
}

/// The rate limit as a JSON object.
pub open spec fn rate_limit_text(s: SharedState) -> Seq<char> {
    "{\"events_per_second\":"@ + text::dec(s.rate_limit_eps as nat) + "}"@
}

/// The whole state as a JSON object.
pub open spec fn status_text(s: SharedState) -> Seq<char> {
    "{\"recording\":"@ + text::bool_text(s.recording) + ",\"recording_control\":"@
        + text::bool_text(s.recording_toggle) + ",\"current_file\":"@ + current_file_text(s)
        + ",\"rate_limit_events_per_second\":"@ + text::dec(s.rate_limit_eps as nat)
        + ",\"biases\":"@ + camera::biases_text(s.configuration.biases) + ",\"buffer\":"@
        + buffer_text(s) + "}"@
}

/// The answer to switching recording.
pub open spec fn switched_text(recording: bool) -> Seq<char> {
    "{\"recording\":"@ + text::bool_text(recording) + "}"@
}

/// Why recording cannot be switched.
pub open spec fn no_control_text() -> Seq<char> {
    "Recording control is disabled — restart with --record-toggle to enable it."@
}

/// The current file as a JSON value.
pub fn current_file_json(s: &SharedState) -> (r: String)
    ensures
        r@ == current_file_text(*s),
{
    match &s.current_file {
        Some(f) => json::json_string(f.as_str()),
        None => "null".to_owned(),
    }
}

/// The caps and the fill of the buffer as a JSON object.
pub fn buffer_json(s: &SharedState) -> (r: String)
    ensures
        r@ == buffer_text(*s),
{
    let mut r: String = "{\"max_age_secs\":".to_owned();
    r.append(text::decimal(s.buffer_max_age_secs).as_str());
    r.append(",\"max_bytes\":");
    r.append(text::decimal(s.buffer_max_bytes).as_str());
    r.append(",\"bytes\":");
    r.append(text::decimal(s.buffer_bytes).as_str());
    r.append(",\"chunks\":");
    r.append(text::decimal(s.buffer_chunks).as_str());
    r.append("}");
    r
}

fn recording_json(s: &SharedState) -> (r: String)
    ensures
        r@ == recording_text(*s),
{
    let mut r: String = "{\"recording\":".to_owned();
    r.append(text::bool_str(s.recording));
    r.append(",\"recording_control\":");
    r.append(text::bool_str(s.recording_toggle));
    r.append(",\"current_file\":");
    r.append(current_file_json(s).as_str());
    r.append("}");
    r
}

fn rate_limit_json(s: &SharedState) -> (r: String)
    ensures
        r@ == rate_limit_text(*s),
{
    let mut r: String = "{\"events_per_second\":".to_owned();
    r.append(text::decimal(s.rate_limit_eps).as_str());
    r.append("}");
    r
}

fn status_json(s: &SharedState) -> (r: String)
    ensures
        r@ == status_text(*s),
{
    let mut r: String = "{\"recording\":".to_owned();
    r.append(text::bool_str(s.recording));
    r.append(",\"recording_control\":");
    r.append(text::bool_str(s.recording_toggle));
    r.append(",\"current_file\":");
    r.append(current_file_json(s).as_str());
    r.append(",\"rate_limit_events_per_second\":");
    r.append(text::decimal(s.rate_limit_eps).as_str());
    r.append(",\"biases\":");
    r.append(camera::biases_json(&s.configuration.biases).as_str());
    r.append(",\"buffer\":");
    r.append(buffer_json(s).as_str());
    r.append("}");
    r
}

// ---------------------------------------------------------------------------
// Routing and reading
// ---------------------------------------------------------------------------
/// The endpoints.
#[derive(Clone, Copy, Debug, PartialEq, Eq, Structural)]
pub enum Route {
    GetStatus,
    GetRecording,
    PutRecording,
    GetBiases,
    PutBiases,
    GetRateLimit,
    PutRateLimit,
    GetBuffer,
    PutBuffer,
    /// A CORS preflight request, whatever its path.
    Preflight,
    Unknown,
}

/// The endpoint that a method and a path name.
pub open spec fn route_of(method: Seq<char>, path: Seq<char>) -> Route {
    if method == "GET"@ && path == "/api/status"@ {
        Route::GetStatus
    } else if method == "GET"@ && path == "/api/recording"@ {
        Route::GetRecording
    } else if method == "PUT"@ && path == "/api/recording"@ {
        Route::PutRecording
    } else if method == "GET"@ && path == "/api/biases"@ {
        Route::GetBiases
    } else if method == "PUT"@ && path == "/api/biases"@ {
        Route::PutBiases
    } else if method == "GET"@ && path == "/api/rate-limit"@ {
        Route::GetRateLimit
    } else if method == "PUT"@ && path == "/api/rate-limit"@ {
        Route::PutRateLimit
    } else if method == "GET"@ && path == "/api/buffer"@ {
        Route::GetBuffer
    } else if method == "PUT"@ && path == "/api/buffer"@ {
        Route::PutBuffer
    } else if method == "OPTIONS"@ {
        Route::Preflight
    } else {
        Route::Unknown
    }
}

/// Finds the endpoint for a method and a path.
pub fn route(method: &str, path: &str) -> (r: Route)
    ensures
        r == route_of(method@, path@),
{
    let get = text::same_text(method, "GET");
    let put = text::same_text(method, "PUT");
    if get && text::same_text(path, "/api/status") {
        Route::GetStatus
    } else if get && text::same_text(path, "/api/recording") {
        Route::GetRecording
    } else if put && text::same_text(path, "/api/recording") {
        Route::PutRecording
    } else if get && text::same_text(path, "/api/biases") {
        Route::GetBiases
    } else if put && text::same_text(path, "/api/biases") {
        Route::PutBiases
    } else if get && text::same_text(path, "/api/rate-limit") {
        Route::GetRateLimit
    } else if put && text::same_text(path, "/api/rate-limit") {
        Route::PutRateLimit
    } else if get && text::same_text(path, "/api/buffer") {
        Route::GetBuffer
    } else if put && text::same_text(path, "/api/buffer") {
        Route::PutBuffer
    } else if text::same_text(method, "OPTIONS") {
        Route::Preflight
    } else {
        Route::Unknown
    }
}

/// The kinds of patch.
#[derive(Clone, Copy, Debug, PartialEq, Eq, Structural)]
pub enum PatchKind {
    Recording,
    Biases,
    RateLimit,
    Buffer,
}

/// How a request is to go on.
#[derive(Debug)]
pub enum ApiStep {
    /// Send this response.
    Reply(Vec<u8>),
    /// Parse the body as this kind of patch and hand the result to `apply_patch`.
    Parse(PatchKind),
}

/// The mathematical counterpart of `ApiStep`.
pub enum StepModel {
    Reply(Seq<u8>),
    Parse(PatchKind),
}

impl View for ApiStep {
    type V = StepModel;

    open spec fn view(&self) -> StepModel {
        match *self {
            ApiStep::Reply(r) => StepModel::Reply(r@),
            ApiStep::Parse(k) => StepModel::Parse(k),
        }
    }
}

/// A successful answer.
pub open spec fn ok_bytes(json: Seq<char>) -> Seq<u8> {
    http::json_bytes(200, "OK"@, json)
}

/// The refusal of a request to switch recording.
pub open spec fn forbidden_bytes() -> Seq<u8> {
    http::json_bytes(403, "Forbidden"@, http::error_text(no_control_text()))
}

/// The answer to a request, as far as it does not depend on its body.
pub open spec fn step_for(s: SharedState, route: Route) -> StepModel {
    match route {
        Route::GetStatus => StepModel::Reply(ok_bytes(status_text(s))),
        Route::GetRecording => StepModel::Reply(ok_bytes(recording_text(s))),
        Route::PutRecording => if s.recording_toggle {
            StepModel::Parse(PatchKind::Recording)
        } else {
            StepModel::Reply(forbidden_bytes())
        },
        Route::GetBiases => StepModel::Reply(ok_bytes(camera::biases_text(s.configuration.biases))),
        Route::PutBiases => StepModel::Parse(PatchKind::Biases),
        Route::GetRateLimit => StepModel::Reply(ok_bytes(rate_limit_text(s))),
        Route::PutRateLimit => StepModel::Parse(PatchKind::RateLimit),
        Route::GetBuffer => StepModel::Reply(ok_bytes(buffer_text(s))),
        Route::PutBuffer => StepModel::Parse(PatchKind::Buffer),
        Route::Preflight => StepModel::Reply(vstd::utf8::encode_utf8(http::preflight_text())),
        Route::Unknown => StepModel::Reply(
            http::json_bytes(404, "Not Found"@, http::error_text("Unknown endpoint."@)),
        ),
    }
}

fn forbidden() -> (r: Vec<u8>)
    ensures
        r@ == forbidden_bytes(),
{
    http::json_err(
        403,
        "Forbidden",
        "Recording control is disabled — restart with --record-toggle to enable it.",
    )
}

/// Answers a request from the current state, or names the patch that its body has to hold.
pub fn handle_api(s: &SharedState, req: &HttpRequest) -> (r: ApiStep)
    ensures
        r@ == step_for(*s, route_of(req.method@, req.path@)),
{
    match route(req.method.as_str(), req.path.as_str()) {
        Route::GetStatus => ApiStep::Reply(http::json_ok(status_json(s).as_str())),
        Route::GetRecording => ApiStep::Reply(http::json_ok(recording_json(s).as_str())),
        Route::PutRecording => {
            if s.recording_toggle {
                ApiStep::Parse(PatchKind::Recording)
            } else {
                ApiStep::Reply(forbidden())
            }
        },
        Route::GetBiases => ApiStep::Reply(
            http::json_ok(camera::biases_json(&s.configuration.biases).as_str()),
        ),
        Route::PutBiases => ApiStep::Parse(PatchKind::Biases),
        Route::GetRateLimit => ApiStep::Reply(http::json_ok(rate_limit_json(s).as_str())),
        Route::PutRateLimit => ApiStep::Parse(PatchKind::RateLimit),
        Route::GetBuffer => ApiStep::Reply(http::json_ok(buffer_json(s).as_str())),
        Route::PutBuffer => ApiStep::Parse(PatchKind::Buffer),
        Route::Preflight => ApiStep::Reply(http::preflight_response()),
        Route::Unknown => ApiStep::Reply(http::json_err(404, "Not Found", "Unknown endpoint.")),
    }
}

// ---------------------------------------------------------------------------
// Patches
// ---------------------------------------------------------------------------
/// A request to switch recording.
#[derive(Clone, Copy, Debug, PartialEq, Eq, Structural)]
pub struct RecordingPatch {
    pub recording: bool,
}

/// A change of the rate limit.
#[derive(Clone, Copy, Debug, PartialEq, Eq, Structural)]
pub struct RateLimitPatch {
    pub events_per_second: u64,
}

/// A change of the buffer caps; either may be changed alone.
#[derive(Clone, Copy, Debug, PartialEq, Eq, Structural)]
pub struct BufferPatch {
    pub max_age_secs: Option<u64>,
    pub max_bytes: Option<u64>,
}

/// A parsed body, or the message of the parser that could not read it.
#[derive(Debug)]
pub enum Patch {
    Recording(Result<RecordingPatch, String>),
    Biases(Result<BiasesPatch, String>),
    RateLimit(Result<RateLimitPatch, String>),
    Buffer(Result<BufferPatch, String>),
}

/// What comes of a patch.
#[derive(Debug)]
pub struct PatchReply {
    /// The response to send.
    pub response: Vec<u8>,
    /// Whether the device settings have to be sent to the device again.
    pub push_configuration: bool,
}

/// Whether a patch is carried out.
pub open spec fn accepted(s: SharedState, p: Patch) -> bool {
    match p {
        Patch::Recording(r) => s.recording_toggle && r is Ok,
        Patch::Biases(r) => r is Ok,
        Patch::RateLimit(r) => r is Ok,
        Patch::Buffer(r) => r is Ok,
    }
}

/// The supplied value, or else the current one.
pub open spec fn patched_cap(current: u64, supplied: Option<u64>) -> u64 {
    match supplied {
        Some(v) => v,
        None => current,
    }
}

/// The state after a patch.
pub open spec fn patched_state(s: SharedState, p: Patch) -> SharedState {
    if !accepted(s, p) {
        s
    } else {
        match p {
            Patch::Recording(r) => SharedState { recording: r->Ok_0.recording, ..s },
            Patch::Biases(r) => SharedState {
                configuration: Configuration {
                    biases: camera::patched_biases(s.configuration.biases, r->Ok_0),
                    ..s.configuration
                },
                ..s
            },
            Patch::RateLimit(r) => SharedState {
                configuration: Configuration {
                    rate_limiter: camera::limiter_for(r->Ok_0.events_per_second),
                    ..s.configuration
                },
                rate_limit_eps: r->Ok_0.events_per_second,
                ..s
            },
            Patch::Buffer(r) => SharedState {
                buffer_max_age_secs: patched_cap(s.buffer_max_age_secs, r->Ok_0.max_age_secs),
                buffer_max_bytes: patched_cap(s.buffer_max_bytes, r->Ok_0.max_bytes),
                ..s
            },
        }
    }
}

/// The answer to a body that could not be parsed.
pub open spec fn bad_request_bytes(message: Seq<char>) -> Seq<u8> {
    http::json_bytes(400, "Bad Request"@, http::error_text("Invalid JSON: "@ + message))
}

/// The response to a patch that met the state `s`.
pub open spec fn patch_response(s: SharedState, p: Patch) -> Seq<u8> {
    let after = patched_state(s, p);
    match p {
        Patch::Recording(r) => if !s.recording_toggle {
            forbidden_bytes()
        } else {
            match r {
                Ok(v) => ok_bytes(switched_text(v.recording)),
                Err(e) => bad_request_bytes(e@),
            }
        },
        Patch::Biases(r) => match r {
            Ok(_) => ok_bytes(camera::biases_text(after.configuration.biases)),
            Err(e) => bad_request_bytes(e@),
        },
        Patch::RateLimit(r) => match r {
            Ok(_) => ok_bytes(rate_limit_text(after)),
            Err(e) => bad_request_bytes(e@),
        },
        Patch::Buffer(r) => match r {
            Ok(_) => ok_bytes(buffer_text(after)),
            Err(e) => bad_request_bytes(e@),
        },
    }
}

fn bad_request(message: &str) -> (r: Vec<u8>)
    ensures
        r@ == bad_request_bytes(message@),
{
    let mut reason: String = "Invalid JSON: ".to_owned();
    reason.append(message);
    http::json_err(400, "Bad Request", reason.as_str())
}

fn refused(message: &str) -> (r: PatchReply)
    ensures
        r.response@ == bad_request_bytes(message@),
        !r.push_configuration,
{
    PatchReply { response: bad_request(message), push_configuration: false }
}

/// Carries out a patch and answers it. The device settings are to be sent to the device again
/// exactly where the biases or the rate limit were set.
pub fn apply_patch(s: &mut SharedState, p: Patch) -> (r: PatchReply)
    ensures
        *final(s) == patched_state(*old(s), p),
        r.response@ == patch_response(*old(s), p),
        r.push_configuration == (accepted(*old(s), p) && (p is Biases || p is RateLimit)),
{
    match p {
        Patch::Recording(parsed) => {
            if !s.recording_toggle {
                return PatchReply { response: forbidden(), push_configuration: false };
            }
            match parsed {
                Ok(v) => {
                    s.recording = v.recording;
                    let mut body: String = "{\"recording\":".to_owned();
                    body.append(text::bool_str(v.recording));
                    body.append("}");
                    PatchReply {
                        response: http::json_ok(body.as_str()),
                        push_configuration: false,
                    }
                },
                Err(e) => refused(e.as_str()),
            }
        },
        Patch::Biases(parsed) => match parsed {
            Ok(v) => {
                let mut biases = s.configuration.biases;
                biases.patch(&v);
                s.configuration.biases = biases;
                PatchReply {
                    response: http::json_ok(camera::biases_json(&biases).as_str()),
                    push_configuration: true,
                }
            },
            Err(e) => refused(e.as_str()),
        },
        Patch::RateLimit(parsed) => match parsed {
            Ok(v) => {
                s.configuration.rate_limiter = camera::make_rate_limiter(v.events_per_second);
                s.rate_limit_eps = v.events_per_second;
                PatchReply {
                    response: http::json_ok(rate_limit_json(s).as_str()),
                    push_configuration: true,
                }
            },
            Err(e) => refused(e.as_str()),
        },
        Patch::Buffer(parsed) => match parsed {
            Ok(v) => {
                if let Some(cap) = v.max_age_secs {
                    s.buffer_max_age_secs = cap;
                }
                if let Some(cap) = v.max_bytes {
                    s.buffer_max_bytes = cap;
                }
                PatchReply {
                    response: http::json_ok(buffer_json(s).as_str()),
                    push_configuration: false,
                }
            },
            Err(e) => refused(e.as_str()),
        },
    }
}

// ---------------------------------------------------------------------------
// Laws
// ---------------------------------------------------------------------------
/// Every patch keeps what holds of the state, and whether recording can be switched never changes.
/// So without the option recording is always on and cannot be disabled.
pub proof fn patches_keep_state_ok(s: SharedState, p: Patch)
    requires
        state_ok(s),
    ensures
        state_ok(patched_state(s, p)),
        patched_state(s, p).recording_toggle == s.recording_toggle,
        !s.recording_toggle ==> patched_state(s, p).recording,
{
}

/// The state after a run of patches.
pub open spec fn patched_all(s: SharedState, ps: Seq<Patch>) -> SharedState
    decreases ps.len(),
{
    if ps.len() == 0 {
        s
    } else {
        patched_state(patched_all(s, ps.drop_last()), ps.last())
    }
}

/// Whatever is asked of the control interface, recording stays on where it cannot be switched, and
/// the hardware limiter stays the one for the user's rate limit.
pub proof fn requests_keep_state_ok(s: SharedState, ps: Seq<Patch>)
    requires
        state_ok(s),
    ensures
        state_ok(patched_all(s, ps)),
        patched_all(s, ps).recording_toggle == s.recording_toggle,
        !s.recording_toggle ==> patched_all(s, ps).recording,
    decreases ps.len(),
{
    if ps.len() > 0 {
        requests_keep_state_ok(s, ps.drop_last());
        patches_keep_state_ok(patched_all(s, ps.drop_last()), ps.last());
    }
}

/// A patch that is not carried out changes nothing and is answered with an error: 403 where
/// recording cannot be switched, else 400 with the parser's message.
pub proof fn refused_patch_changes_nothing(s: SharedState, p: Patch)
    requires
        !accepted(s, p),
    ensures
        patched_state(s, p) == s,
        patch_response(s, p) == forbidden_bytes() || exists|message: Seq<char>|
            patch_response(s, p) == #[trigger] bad_request_bytes(message),
        p is Recording && !s.recording_toggle ==> patch_response(s, p) == forbidden_bytes(),
{
    match p {
        Patch::Recording(r) => {
            if let Err(e) = r {
                assert(bad_request_bytes(e@) == bad_request_bytes(e@));
            }
        },
        Patch::Biases(r) => {
            assert(patch_response(s, p) == bad_request_bytes(r->Err_0@));
        },
        Patch::RateLimit(r) => {
            assert(patch_response(s, p) == bad_request_bytes(r->Err_0@));
        },
        Patch::Buffer(r) => {
            assert(patch_response(s, p) == bad_request_bytes(r->Err_0@));
        },
    }
}

/// What a PUT answers on success is what the GET of the same endpoint answers from then on; for
/// recording, the GET reports the state that was asked for.
pub proof fn get_reads_back_put(s: SharedState, p: Patch)
    requires
        accepted(s, p),
    ensures
        p is Biases ==> step_for(patched_state(s, p), Route::GetBiases) == StepModel::Reply(
            patch_response(s, p),
        ),
        p is RateLimit ==> step_for(patched_state(s, p), Route::GetRateLimit) == StepModel::Reply(
            patch_response(s, p),
        ),
        p is Buffer ==> step_for(patched_state(s, p), Route::GetBuffer) == StepModel::Reply(
            patch_response(s, p),
        ),
        p matches Patch::Recording(r) ==> patched_state(s, p).recording == r->Ok_0.recording
            && patch_response(s, p) == ok_bytes(switched_text(r->Ok_0.recording)),
{
}

/// Carrying out a patch twice is the same as carrying it out once.
pub proof fn patch_is_idempotent(s: SharedState, p: Patch)
    ensures
        patched_state(patched_state(s, p), p) == patched_state(s, p),
{
}

// ---------------------------------------------------------------------------
// What requests do, value by value
// ---------------------------------------------------------------------------
/// The option is the word `true`, letter by letter, each of them capital or small.
pub proof fn toggle_word_is_true(s: Seq<char>)
    ensures
        is_true_word(s) <==> {
            &&& s.len() == 4
            &&& s[0] == 't' || s[0] == 'T'
            &&& s[1] == 'r' || s[1] == 'R'
            &&& s[2] == 'u' || s[2] == 'U'
            &&& s[3] == 'e' || s[3] == 'E'
        },
{
    reveal_strlit("true");
    let w = "true"@;
    assert(w.len() == 4 && w[0] == 't' && w[1] == 'r' && w[2] == 'u' && w[3] == 'e');
    if is_true_word(s) {
        assert(http::ascii_lower(s[0]) == w[0]);
        assert(http::ascii_lower(s[1]) == w[1]);
        assert(http::ascii_lower(s[2]) == w[2]);
        assert(http::ascii_lower(s[3]) == w[3]);
    }
}

/// Each endpoint is reached by one method and one path and by no other; a preflight request is
/// reached by its method alone.
pub proof fn routes_are_exact(method: Seq<char>, path: Seq<char>)
    ensures
        ({
            let r = route_of(method, path);
            &&& r == Route::GetStatus <==> method == "GET"@ && path == "/api/status"@
            &&& r == Route::GetRecording <==> method == "GET"@ && path == "/api/recording"@
            &&& r == Route::PutRecording <==> method == "PUT"@ && path == "/api/recording"@
            &&& r == Route::GetBiases <==> method == "GET"@ && path == "/api/biases"@
            &&& r == Route::PutBiases <==> method == "PUT"@ && path == "/api/biases"@
            &&& r == Route::GetRateLimit <==> method == "GET"@ && path == "/api/rate-limit"@
            &&& r == Route::PutRateLimit <==> method == "PUT"@ && path == "/api/rate-limit"@
            &&& r == Route::GetBuffer <==> method == "GET"@ && path == "/api/buffer"@
            &&& r == Route::PutBuffer <==> method == "PUT"@ && path == "/api/buffer"@
            &&& r == Route::Preflight <==> method == "OPTIONS"@
        }),
{
    reveal_strlit("GET");
    reveal_strlit("PUT");
    reveal_strlit("OPTIONS");
    reveal_strlit("/api/status");
    reveal_strlit("/api/recording");
    reveal_strlit("/api/biases");
    reveal_strlit("/api/rate-limit");
    reveal_strlit("/api/buffer");
    assert("GET"@[0] == 'G' && "PUT"@[0] == 'P' && "OPTIONS"@[0] == 'O');
    assert("/api/status"@.len() == 11 && "/api/status"@[5] == 's');
    assert("/api/biases"@.len() == 11 && "/api/biases"@[5] == 'b' && "/api/biases"@[6] == 'i');
    assert("/api/buffer"@.len() == 11 && "/api/buffer"@[5] == 'b' && "/api/buffer"@[6] == 'u');
    assert("/api/recording"@.len() == 14 && "/api/rate-limit"@.len() == 15);
}

/// A patch of the buffer sets each supplied cap to the supplied value, whatever it was before, and
/// changes nothing else.
pub proof fn buffer_patch_sets_caps(s: SharedState, p: BufferPatch)
    ensures
        ({
            let t = patched_state(s, Patch::Buffer(Ok(p)));
            &&& accepted(s, Patch::Buffer(Ok(p)))
            &&& p.max_age_secs matches Some(v) ==> t.buffer_max_age_secs == v
            &&& p.max_age_secs is None ==> t.buffer_max_age_secs == s.buffer_max_age_secs
            &&& p.max_bytes matches Some(v) ==> t.buffer_max_bytes == v
            &&& p.max_bytes is None ==> t.buffer_max_bytes == s.buffer_max_bytes
            &&& t == (SharedState {
                buffer_max_age_secs: t.buffer_max_age_secs,
                buffer_max_bytes: t.buffer_max_bytes,
                ..s
            })
        }),
{
}

/// A patch of the rate limit sets it to the supplied value, whatever it was before, and the limiter
/// with it, and changes nothing else.
pub proof fn rate_limit_patch_sets_limit(s: SharedState, p: RateLimitPatch)
    ensures
        ({
            let t = patched_state(s, Patch::RateLimit(Ok(p)));
            let n = p.events_per_second;
            &&& accepted(s, Patch::RateLimit(Ok(p)))
            &&& t.rate_limit_eps == n
            &&& t.configuration.rate_limiter == camera::limiter_for(n)
            &&& t.configuration.rate_limiter is None <==> n == 0
            &&& t.configuration.rate_limiter matches Some(l) ==> {
                &&& l.reference_period_us == 1000
                &&& n < 1000 ==> l.maximum_events_per_period == 1
                &&& 1000 <= n < 4_294_967_296_000 ==> l.maximum_events_per_period * 1000 <= n
                    < l.maximum_events_per_period * 1000 + 1000
            }
            &&& t.configuration.biases == s.configuration.biases
            &&& t == (SharedState {
                configuration: t.configuration,
                rate_limit_eps: t.rate_limit_eps,
                ..s
            })
        }),
{
    camera::limiter_allows_the_rate(p.events_per_second);
}

/// A patch of the biases sets each supplied bias to the supplied value and changes nothing else.
pub proof fn biases_patch_sets_biases(s: SharedState, p: BiasesPatch)
    ensures
        ({
            let t = patched_state(s, Patch::Biases(Ok(p)));
            let b = t.configuration.biases;
            &&& accepted(s, Patch::Biases(Ok(p)))
            &&& p.diff matches Some(v) ==> b.diff == v
            &&& p.diff_on matches Some(v) ==> b.diff_on == v
            &&& p.diff_off matches Some(v) ==> b.diff_off == v
            &&& p.hpf matches Some(v) ==> b.hpf == v
            &&& p.refr matches Some(v) ==> b.refr == v
            &&& p.pr matches Some(v) ==> b.pr == v
            &&& p.fo matches Some(v) ==> b.fo == v
            &&& p.inv matches Some(v) ==> b.inv == v
            &&& b == camera::patched_biases(s.configuration.biases, p)
            &&& t.configuration.rate_limiter == s.configuration.rate_limiter
            &&& t == (SharedState { configuration: t.configuration, ..s })
        }),
{
    camera::patch_sets_supplied_biases(s.configuration.biases, p);
}

/// Where recording can be switched, a patch switches it to what was asked for, on or off; where it
/// cannot, nothing changes. Nothing else ever changes.
pub proof fn recording_patch_switches(s: SharedState, p: RecordingPatch)
    ensures
        ({
            let t = patched_state(s, Patch::Recording(Ok(p)));
            &&& accepted(s, Patch::Recording(Ok(p))) == s.recording_toggle
            &&& s.recording_toggle ==> t.recording == p.recording
            &&& !s.recording_toggle ==> t.recording == s.recording
            &&& t == (SharedState { recording: t.recording, ..s })
        }),
{
}

/// A patch that could not be parsed changes nothing; it is answered with status 400 and the parser's
/// message, except that a request to switch what cannot be switched is answered with status 403.
pub proof fn unreadable_patch_is_answered(s: SharedState, p: Patch, message: String)
    requires
        p == Patch::Recording(Err(message)) || p == Patch::Biases(Err(message)) || p
            == Patch::RateLimit(Err(message)) || p == Patch::Buffer(Err(message)),
    ensures
        patched_state(s, p) == s,
        p is Recording && !s.recording_toggle ==> patch_response(s, p) == http::json_bytes(
            403,
            "Forbidden"@,
            http::error_text(
                "Recording control is disabled — restart with --record-toggle to enable it."@,
            ),
        ),
        !(p is Recording) || s.recording_toggle ==> patch_response(s, p) == http::json_bytes(
            400,
            "Bad Request"@,
            http::error_text("Invalid JSON: "@ + message@),
        ),
{
}

/// A patch that is carried out is answered with status 200 and what the state is then.
pub proof fn accepted_patch_is_answered(s: SharedState, p: Patch)
    requires
        accepted(s, p),
    ensures
        ({
            let t = patched_state(s, p);
            let body = match p {
                Patch::Recording(_) => "{\"recording\":"@ + (if t.recording {
                    "true"@
                } else {
                    "false"@
                }) + "}"@,
                Patch::Biases(_) => camera::biases_text(t.configuration.biases),
                Patch::RateLimit(_) => rate_limit_text(t),
                Patch::Buffer(_) => buffer_text(t),
            };
            patch_response(s, p) == http::json_bytes(200, "OK"@, body)
        }),
{
}

/// The buffer's JSON object tells both caps and the fill, in digits.
pub proof fn buffer_json_tells_state(s: SharedState)
    ensures
        exists|age: Seq<char>, cap: Seq<char>, bytes: Seq<char>, chunks: Seq<char>|
            #![trigger text::reads_as(age, s.buffer_max_age_secs as nat), text::reads_as(cap, s.buffer_max_bytes as nat), text::reads_as(bytes, s.buffer_bytes as nat), text::reads_as(chunks, s.buffer_chunks as nat)]
            text::reads_as(age, s.buffer_max_age_secs as nat) && text::reads_as(
                cap,
                s.buffer_max_bytes as nat,
            ) && text::reads_as(bytes, s.buffer_bytes as nat) && text::reads_as(
                chunks,
                s.buffer_chunks as nat,
            ) && buffer_text(s) == "{\"max_age_secs\":"@ + age + ",\"max_bytes\":"@ + cap
                + ",\"bytes\":"@ + bytes + ",\"chunks\":"@ + chunks + "}"@,
{
    text::dec_reads(s.buffer_max_age_secs as nat);
    text::dec_reads(s.buffer_max_bytes as nat);
    text::dec_reads(s.buffer_bytes as nat);
    text::dec_reads(s.buffer_chunks as nat);
}

/// The rate limit's JSON object tells the limit that was set, in digits.
pub proof fn rate_limit_json_tells_state(s: SharedState)
    ensures
        exists|limit: Seq<char>| #[trigger]
            text::reads_as(limit, s.rate_limit_eps as nat) && rate_limit_text(s)
                == "{\"events_per_second\":"@ + limit + "}"@,
{
    text::dec_reads(s.rate_limit_eps as nat);
}

/// The recording's JSON object tells whether recording is on, whether it can be switched, and the
/// file: its name as a JSON string, or `null`.
pub proof fn recording_json_tells_state(s: SharedState)
    ensures
        recording_text(s) == "{\"recording\":"@ + (if s.recording {
            "true"@
        } else {
            "false"@
        }) + ",\"recording_control\":"@ + (if s.recording_toggle {
            "true"@
        } else {
            "false"@
        }) + ",\"current_file\":"@ + (match s.current_file {
            Some(f) => json::json_quoted(f@),
            None => "null"@,
        }) + "}"@,
{
}

/// The status tells what the other endpoints tell: it begins as the recording's object does and
/// holds the rate limit, the biases and the buffer's object.
pub proof fn status_tells_what_the_others_tell(s: SharedState)
    ensures
        exists|limit: Seq<char>| #[trigger]
            text::reads_as(limit, s.rate_limit_eps as nat) && status_text(s) == recording_text(
                s,
            ).drop_last() + ",\"rate_limit_events_per_second\":"@ + limit + ",\"biases\":"@
                + camera::biases_text(s.configuration.biases) + ",\"buffer\":"@ + buffer_text(s)
                + "}"@,
{
    reveal_strlit("}");
    let limit = text::dec(s.rate_limit_eps as nat);
    text::dec_reads(s.rate_limit_eps as nat);
    let open = "{\"recording\":"@ + text::bool_text(s.recording) + ",\"recording_control\":"@
        + text::bool_text(s.recording_toggle) + ",\"current_file\":"@ + current_file_text(s);
    assert(recording_text(s) == open + "}"@);
    assert((open + "}"@).drop_last() =~= open);
}

/// A GET is answered with status 200 and what the state is; a PUT waits for its body, unless it asks
/// to switch what cannot be switched; anything else is not found.
pub proof fn requests_are_answered(s: SharedState)
    ensures
        step_for(s, Route::GetStatus) == StepModel::Reply(
            http::json_bytes(200, "OK"@, status_text(s)),
        ),
        step_for(s, Route::GetRecording) == StepModel::Reply(
            http::json_bytes(200, "OK"@, recording_text(s)),
        ),
        step_for(s, Route::GetBiases) == StepModel::Reply(
            http::json_bytes(200, "OK"@, camera::biases_text(s.configuration.biases)),
        ),
        step_for(s, Route::GetRateLimit) == StepModel::Reply(
            http::json_bytes(200, "OK"@, rate_limit_text(s)),
        ),
        step_for(s, Route::GetBuffer) == StepModel::Reply(
            http::json_bytes(200, "OK"@, buffer_text(s)),
        ),
        s.recording_toggle ==> step_for(s, Route::PutRecording) == StepModel::Parse(
            PatchKind::Recording,
        ),
        !s.recording_toggle ==> step_for(s, Route::PutRecording) == StepModel::Reply(
            http::json_bytes(
                403,
                "Forbidden"@,
                http::error_text(
                    "Recording control is disabled — restart with --record-toggle to enable it."@,
                ),
            ),
        ),
        step_for(s, Route::PutBiases) == StepModel::Parse(PatchKind::Biases),
        step_for(s, Route::PutRateLimit) == StepModel::Parse(PatchKind::RateLimit),
        step_for(s, Route::PutBuffer) == StepModel::Parse(PatchKind::Buffer),
        step_for(s, Route::Preflight) == StepModel::Reply(
            vstd::utf8::encode_utf8(http::preflight_text()),
        ),
        step_for(s, Route::Unknown) == StepModel::Reply(
            http::json_bytes(404, "Not Found"@, http::error_text("Unknown endpoint."@)),
        ),
{
}

} // verus!
