use vstd::prelude::*;
use crate::define::{NotifyInfo, PublishType, PublisherInfo, Uuid};

verus! {

/// The standard reason phrase of an HTTP status code, where it has one.
pub uninterp spec fn canonical_reason_of(code: u16) -> Option<Seq<char>>;

/// Relies on http::StatusCode::from_u16, which accepts exactly the codes 100
/// to 999, and on StatusCode::canonical_reason, which gives the standard
/// reason phrase of a code when it has one.
#[verifier::external_body]
fn canonical_reason(code: u16) -> (r: Option<String>)
    ensures
        code < 100 || code > 999 ==> r is None,
        r is None ==> canonical_reason_of(code) is None,
        r matches Some(s) ==> canonical_reason_of(code) == Some(s@),
{
    match http::StatusCode::from_u16(code) {
        Ok(s) => s.canonical_reason().map(String::from),
        Err(_) => None,
    }
}

/// The head of an HTTP response: version, status code and reason phrase.
#[derive(Debug, Clone)]
pub struct ResponseHead {
    pub version: String,
    pub status_code: u16,
    pub reason_phrase: String,
}

/// The reason phrase a response carries: the standard one, or empty.
pub open spec fn reason_phrase_of(code: u16) -> Seq<char> {
    match canonical_reason_of(code) {
        Some(s) => s,
        None => Seq::empty(),
    }
}

/// An HTTP/1.1 response head for `status_code`, with the code's standard
/// reason phrase, or an empty one when it has none.
pub fn gen_response(status_code: u16) -> (r: ResponseHead)
    ensures
        r.version@ == "HTTP/1.1"@,
        r.status_code == status_code,
        r.reason_phrase@ == reason_phrase_of(status_code),
{
    let reason_phrase = match canonical_reason(status_code) {
        Some(s) => s,
        None => String::new(),
    };
    ResponseHead { version: String::from_str("HTTP/1.1"), status_code, reason_phrase }
}

#[derive(Debug, Clone, Copy, PartialEq, Eq, Structural)]
pub enum SessionErrorValue {
    /// The path has no `/`, or lacks the `app` or `stream` parameter.
    HttpRequestPathError,
    /// A POST came without an SDP offer.
    HttpRequestEmptySdp,
    /// A POST to a path other than `whip` or `whep`.
    HttpRequestNotSupported,
}

/// What a WebRTC HTTP request asks of the session.
#[derive(Debug, Clone)]
pub enum WebRtcAction {
    /// Publish the offered stream (WHIP).
    Whip { app_name: String, stream_name: String },
    /// Play a stream (WHEP).
    Whep,
    /// End a session, named by the `session_id` parameter if present.
    Delete { session_id: Option<String> },
    /// Nothing to do (OPTIONS, PATCH, and methods that are not handled).
    Ignore,
}

/// What follows the first `/` of `p`, if `p` has one.
pub open spec fn after_first_slash(p: Seq<char>) -> Option<Seq<char>>
    decreases p.len(),
{
    if p.len() == 0 {
        None
    } else if p[0] == '/' {
        Some(p.drop_first())
    } else {
        after_first_slash(p.drop_first())
    }
}

/// Whether `t` spells the lowercase ASCII word `w` in any letter case.
pub open spec fn ascii_case_eq(t: Seq<char>, w: Seq<char>) -> bool {
    &&& t.len() == w.len()
    &&& forall|i: int|
        0 <= i < t.len() ==> #[trigger] t[i] == w[i] || ('A' <= t[i] <= 'Z' && t[i] as u32 + 32
            == w[i] as u32)
}

/// The action a request asks for, or the error it is refused with.
pub open spec fn route_of(
    method: Seq<char>,
    path: Seq<char>,
    app: Option<Seq<char>>,
    stream: Option<Seq<char>>,
    has_body: bool,
) -> Result<Seq<char>, SessionErrorValue> {
    if after_first_slash(path) is None || app is None || stream is None {
        Err(SessionErrorValue::HttpRequestPathError)
    } else if method == "POST"@ {
        let t = after_first_slash(path)->0;
        if !has_body {
            Err(SessionErrorValue::HttpRequestEmptySdp)
        } else if ascii_case_eq(t, "whip"@) {
            Ok("whip"@)
        } else if ascii_case_eq(t, "whep"@) {
            Ok("whep"@)
        } else {
            Err(SessionErrorValue::HttpRequestNotSupported)
        }
    } else if method == "DELETE"@ {
        Ok("delete"@)
    } else {
        Ok(""@)
    }
}

/// The text of an optional string.
pub open spec fn text_of(o: Option<String>) -> Option<Seq<char>> {
    match o {
        Some(s) => Some(s@),
        None => None,
    }
}

/// The name of an action, as `route_of` gives it.
pub open spec fn action_name(a: WebRtcAction) -> Seq<char> {
    match a {
        WebRtcAction::Whip { .. } => "whip"@,
        WebRtcAction::Whep => "whep"@,
        WebRtcAction::Delete { .. } => "delete"@,
        WebRtcAction::Ignore => ""@,
    }
}

fn first_slash(p: &str) -> (r: Option<usize>)
    ensures
        r is None ==> after_first_slash(p@) is None,
        r matches Some(i) ==> i < p@.len() && after_first_slash(p@) == Some(
            p@.subrange(i + 1, p@.len() as int),
        ),
{
    let n = p.unicode_len();
    let mut i: usize = 0;
    assert(p@.subrange(0, n as int) =~= p@);
    while i < n
        invariant
            n == p@.len(),
            i <= n,
            after_first_slash(p@) == after_first_slash(p@.subrange(i as int, n as int)),
        decreases n - i,
    {
        let c = p.get_char(i);
        assert(p@.subrange(i as int, n as int).drop_first() =~= p@.subrange(i + 1, n as int));
        if c == '/' {
            return Some(i);
        }
        i += 1;
    }
    None
}

fn ascii_case_equals(t: &str, w: &str) -> (r: bool)
    ensures
        r == ascii_case_eq(t@, w@),
{
    let n = t.unicode_len();
    if n != w.unicode_len() {
        return false;
    }
    let mut i: usize = 0;
    while i < n
        invariant
            n == t@.len(),
            n == w@.len(),
            i <= n,
            forall|j: int|
                0 <= j < i ==> #[trigger] t@[j] == w@[j] || ('A' <= t@[j] <= 'Z' && t@[j] as u32
                    + 32 == w@[j] as u32),
        decreases n - i,
    {
        let a = t.get_char(i);
        let b = w.get_char(i);
        if !(a == b || ('A' <= a && a <= 'Z' && a as u32 + 32 == b as u32)) {
            return false;
        }
        i += 1;
    }
    true
}

fn str_equals(a: &str, b: &str) -> (r: bool)
    ensures
        r == (a@ == b@),
{
    let n = a.unicode_len();
    if n != b.unicode_len() {
        return false;
    }
    let mut i: usize = 0;
    while i < n
        invariant
            n == a@.len(),
            n == b@.len(),
            i <= n,
            forall|j: int| 0 <= j < i ==> a@[j] == b@[j],
        decreases n - i,
    {
        if a.get_char(i) != b.get_char(i) {
            return false;
        }
        i += 1;
    }
    assert(a@ =~= b@);
    true
}

/// Decides what a WebRTC HTTP request asks for. The path's text after its
/// first `/` names the kind of a POST (`whip` or `whep`, in any letter
/// case); `app` and `stream` are the query parameters of those names.
pub fn route_request(
    method: &str,
    path: &str,
    app: Option<String>,
    stream: Option<String>,
    has_body: bool,
    session_id: Option<String>,
) -> (r: Result<WebRtcAction, SessionErrorValue>)
    ensures
        r matches Err(e) ==> route_of(method@, path@, text_of(app), text_of(stream), has_body) == Err::<Seq<char>, SessionErrorValue>(e),
        r matches Ok(a) ==> route_of(method@, path@, text_of(app), text_of(stream), has_body) == Ok::<Seq<char>, SessionErrorValue>(action_name(a)),
        r matches Ok(WebRtcAction::Whip { app_name, stream_name }) ==> app == Some(app_name)
            && stream == Some(stream_name),
        r matches Ok(WebRtcAction::Delete { session_id: s }) ==> s == session_id,
{
    proof {
        reveal_strlit("POST");
        reveal_strlit("DELETE");
        reveal_strlit("whip");
        reveal_strlit("whep");
        reveal_strlit("delete");
        reveal_strlit("");
    }
    let slash = first_slash(path);
    if slash.is_none() || app.is_none() || stream.is_none() {
        return Err(SessionErrorValue::HttpRequestPathError);
    }
    let i = slash.unwrap();
    let app_name = app.unwrap();
    let stream_name = stream.unwrap();
    if str_equals(method, "POST") {
        if !has_body {
            return Err(SessionErrorValue::HttpRequestEmptySdp);
        }
        let n = path.unicode_len();
        let t = path.substring_char(i + 1, n);
        if ascii_case_equals(t, "whip") {
            Ok(WebRtcAction::Whip { app_name, stream_name })
        } else if ascii_case_equals(t, "whep") {
            Ok(WebRtcAction::Whep)
        } else {
            Err(SessionErrorValue::HttpRequestNotSupported)
        }
    } else if str_equals(method, "DELETE") {
        Ok(WebRtcAction::Delete { session_id })
    } else {
        Ok(WebRtcAction::Ignore)
    }
}

/// The publisher record of a WHIP session: the session's id if it has one,
/// else the fresh id supplied, with empty notification details.
pub fn get_publisher_info(session_id: Option<Uuid>, fresh: Uuid) -> (r: PublisherInfo)
    ensures
        r.id == (match session_id {
            Some(u) => u,
            None => fresh,
        }),
        r.pub_type == PublishType::PushWebRTC,
        r.notify_info.request_url@ == Seq::<char>::empty(),
        r.notify_info.remote_addr@ == Seq::<char>::empty(),
{
    let id = match session_id {
        Some(u) => u,
        None => fresh,
    };
    PublisherInfo {
        id,
        pub_type: PublishType::PushWebRTC,
        notify_info: NotifyInfo { request_url: String::new(), remote_addr: String::new() },
    }
}

/// The `Location` of a WHIP resource: `path?params&session_id=<id>`.
pub fn whip_location(path: &str, parameters: &str, session_id: Uuid) -> (r: String)
    ensures
        r@ == path@ + "?"@ + parameters@ + "&session_id="@ + session_id.text(),
{
    proof {
        reveal_strlit("?");
        reveal_strlit("&session_id=");
    }
    let mut r = String::from_str(path);
    r.append("?");
    r.append(parameters);
    r.append("&session_id=");
    let id = session_id.to_string();
    r.append(id.as_str());
    r
}

/// The stream handler of a WebRTC publisher. It has no prior data, no
/// statistics and no negotiation data to hand on.
#[derive(Debug, Clone, Copy, Default)]
pub struct WebRTCStreamHandler {}

impl WebRTCStreamHandler {
    pub fn new() -> (r: WebRTCStreamHandler)
        ensures
            r == (WebRTCStreamHandler {}),
    {
        WebRTCStreamHandler {}
    }
}

} // verus!
