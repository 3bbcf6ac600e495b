//! HTTP-based signaling for the WebRTC SDP/ICE exchange (ICE-Lite mode).
//!
//! In ICE-Lite mode signaling is a single round-trip: the browser posts its SDP
//! offer and receives the SDP answer in the HTTP response, because the server's
//! host candidate is part of the answer.
//!
//! Endpoints:
//! - `POST /webrtc/offer`: the client sends an SDP offer, receives the answer
//! - `POST /webrtc/ice/:id`: the client sends an ICE candidate
//! - `POST /webrtc/close/:id`: the client closes a session

use crate::json::{parse, string_member, write_pair};
use crate::text::{
    decimal_text, lower_hex_text, parse_size, same_text, split_words, strip_prefix, to_lowercase,
    trimmed, utf8_text,
};
use vstd::prelude::*;

verus! {

// Responses

/// The reason phrase that goes with a status code.
pub open spec fn reason(code: u16) -> Seq<char> {
    if code == 200 {
        "OK"@
    } else if code == 400 {
        "Bad Request"@
    } else if code == 404 {
        "Not Found"@
    } else if code == 500 {
        "Internal Server Error"@
    } else {
        "Unknown"@
    }
}

/// The reason phrase that goes with a status code.
pub fn reason_phrase(code: u16) -> (r: &'static str)
    ensures
        r@ == reason(code),
{
    match code {
        200 => "OK",
        400 => "Bad Request",
        404 => "Not Found",
        500 => "Internal Server Error",
        _ => "Unknown",
    }
}

/// The number of bytes of a text in UTF-8.
pub open spec fn byte_len(s: Seq<char>) -> nat {
    vstd::utf8::encode_utf8(s).len()
}

/// The head of a response: the status line and the header fields, up to and
/// including the empty line.
pub open spec fn response_head(code: u16, body_bytes: nat, content_type: Seq<char>) -> Seq<char> {
    "HTTP/1.1 "@ + crate::text::decimal(code as nat) + " "@ + reason(code) + "\r\nContent-Type: "@
        + content_type + "\r\nAccess-Control-Allow-Origin: *\r\nContent-Length: "@
        + crate::text::decimal(body_bytes) + "\r\nConnection: close\r\n\r\n"@
}

/// A complete HTTP/1.1 response. `Content-Length` counts the bytes of the body.
pub open spec fn response(code: u16, body: Seq<char>, content_type: Seq<char>) -> Seq<char> {
    response_head(code, byte_len(body), content_type) + body
}

/// Construct a minimal HTTP/1.1 response.
pub fn http_response(code: u16, body: &str, content_type: &str) -> (r: String)
    ensures
        r@ == response(code, body@, content_type@),
{
    let mut out = "HTTP/1.1 ".to_string();
    out.append(decimal_text(code as u64).as_str());
    out.append(" ");
    out.append(reason_phrase(code));
    out.append("\r\nContent-Type: ");
    out.append(content_type);
    out.append("\r\nAccess-Control-Allow-Origin: *\r\nContent-Length: ");
    out.append(decimal_text(body.as_bytes().len() as u64).as_str());
    out.append("\r\nConnection: close\r\n\r\n");
    out.append(body);
    out
}

// Request heads

/// What a connection can fail with.
#[derive(Clone, Copy, Debug, PartialEq, Eq, Structural)]
pub enum RequestError {
    /// The request line does not hold a method and a path.
    InvalidRequestLine,
}

/// The head of a request, as far as it has been read.
pub struct RequestHead {
    pub method: String,
    pub path: String,
    pub content_length: usize,
}

/// What to do once the head of a request is complete.
pub enum RequestPlan {
    /// Answer at once, without reading a body.
    Respond(String),
    /// Read a body of this many bytes, then route the request.
    ReadBody(usize),
}

/// The length that a `Content-Length` value announces: zero where it denotes
/// none.
pub open spec fn announced_length(value: Seq<char>) -> usize {
    match crate::text::size_value(crate::text::trim(value)) {
        Some(n) => n,
        None => 0,
    }
}

/// The length that a header line announces, given the line in lowercase and
/// without surrounding whitespace.
pub open spec fn lowercase_header_length(line: Seq<char>) -> Option<usize> {
    match crate::text::after_prefix(line, "content-length:"@) {
        Some(value) => Some(announced_length(value)),
        None => None,
    }
}

/// The length that a header line announces, if it is a `Content-Length` line.
pub open spec fn header_length(line: Seq<char>) -> Option<usize> {
    lowercase_header_length(crate::text::lowercase(crate::text::trim(line)))
}

/// The content length after a run of header lines: what the last
/// `Content-Length` line announces, and zero where there is none.
pub open spec fn content_length(lines: Seq<Seq<char>>) -> usize
    decreases lines.len(),
{
    if lines.len() == 0 {
        0
    } else {
        match header_length(lines.last()) {
            Some(n) => n,
            None => content_length(lines.drop_last()),
        }
    }
}

impl RequestHead {
    /// Start reading a head with its request line: the first two words are the
    /// method and the path.
    pub fn start(request_line: &str) -> (r: Result<RequestHead, RequestError>)
        ensures
            r is Err <==> crate::text::words(request_line@).len() < 2,
            r matches Ok(head) ==> {
                &&& head.method@ == crate::text::words(request_line@)[0]
                &&& head.path@ == crate::text::words(request_line@)[1]
                &&& head.content_length == content_length(Seq::empty())
            },
    {
        let parts = split_words(request_line);
        assert(parts@.len() == parts@.map_values(|w: String| w@).len());
        if parts.len() < 2 {
            return Err(RequestError::InvalidRequestLine);
        }
        assert(parts@[0]@ == parts@.map_values(|w: String| w@)[0]);
        assert(parts@[1]@ == parts@.map_values(|w: String| w@)[1]);
        Ok(RequestHead { method: parts[0].clone(), path: parts[1].clone(), content_length: 0 })
    }

    /// Read one line after the request line. Returns whether the head is
    /// complete: an empty line ends it.
    ///
    /// Field names are matched without regard to case.
    pub fn header(&mut self, line: &str) -> (complete: bool)
        ensures
            complete == (crate::text::trim(line@).len() == 0),
            final(self).method == old(self).method,
            final(self).path == old(self).path,
            complete ==> final(self).content_length == old(self).content_length,
            !complete ==> final(self).content_length == (match header_length(line@) {
                Some(n) => n,
                None => old(self).content_length,
            }),
            vstd::utf8::is_ascii_chars(crate::text::trim(line@)) ==> header_length(line@)
                == lowercase_header_length(
                crate::text::trim(line@).map_values(|c: char| crate::text::ascii_lower(c)),
            ) || complete,
    {
        let line = trimmed(line);
        if line.as_str().is_empty() {
            return true;
        }
        let lower = to_lowercase(line.as_str());
        if let Some(value) = strip_prefix(lower.as_str(), "content-length:") {
            let value = trimmed(value.as_str());
            self.content_length = match parse_size(value.as_str()) {
                Some(n) => n,
                None => 0,
            };
        }
        false
    }

    /// What follows a complete head. There are no GET endpoints.
    pub fn plan(&self) -> (r: RequestPlan)
        ensures
            match r {
                RequestPlan::Respond(text) => self.method@ == "GET"@ && text@ == response(
                    404,
                    "Not Found"@,
                    "text/plain"@,
                ),
                RequestPlan::ReadBody(n) => self.method@ != "GET"@ && n == self.content_length,
            },
    {
        if same_text(self.method.as_str(), "GET") {
            return RequestPlan::Respond(http_response(404, "Not Found", "text/plain"));
        }
        RequestPlan::ReadBody(self.content_length)
    }
}

// Bodies

/// What a posted body was found to hold.
pub enum Posted {
    /// The string of the member that was asked for.
    Member(String),
    /// The response that turns the body down.
    Refused(String),
}

/// The response that turns a body down, or the string member of its JSON
/// object that was asked for.
pub open spec fn posted_member(body: Seq<u8>, key: Seq<char>, missing: Seq<char>) -> Result<
    Seq<char>,
    Seq<char>,
> {
    if !vstd::utf8::valid_utf8(body) {
        Err(response(400, "Invalid UTF-8"@, "text/plain"@))
    } else {
        match crate::json::parsed(vstd::utf8::decode_utf8(body)) {
            None => Err(response(400, "Invalid JSON"@, "text/plain"@)),
            Some(members) => if members.dom().contains(key) {
                Ok(members[key])
            } else {
                Err(response(400, missing, "application/json"@))
            },
        }
    }
}

/// Reads one string member out of a posted JSON object.
pub fn read_member(body: &[u8], key: &str, missing: &str) -> (r: Posted)
    ensures
        match r {
            Posted::Member(s) => posted_member(body@, key@, missing@) == Ok::<Seq<char>, Seq<char>>(
                s@,
            ),
            Posted::Refused(text) => posted_member(body@, key@, missing@) == Err::<
                Seq<char>,
                Seq<char>,
            >(text@),
        },
{
    let text = match utf8_text(body) {
        Some(s) => s,
        None => return Posted::Refused(http_response(400, "Invalid UTF-8", "text/plain")),
    };
    let value = match parse(text) {
        Ok(v) => v,
        Err(_) => return Posted::Refused(http_response(400, "Invalid JSON", "text/plain")),
    };
    match string_member(&value, key) {
        Some(s) => Posted::Member(s),
        None => Posted::Refused(http_response(400, missing, "application/json")),
    }
}

// Replies

/// The response to an offer, from what the application replied.
pub open spec fn offer_reply(
    session_id: Seq<char>,
    accepted: bool,
    reply: Seq<char>,
) -> Seq<char> {
    if accepted {
        response(
            200,
            crate::json::pair_text("session_id"@, session_id, "sdp"@, reply),
            "application/json"@,
        )
    } else {
        response(
            400,
            crate::json::pair_text("session_id"@, session_id, "error"@, reply),
            "application/json"@,
        )
    }
}

/// The response to an offer: the session identifier together with the SDP
/// answer or with the reason why the offer was rejected. The client reads both
/// back from the body.
pub fn offer_response(session_id: &str, reply: &Result<String, String>) -> (r: String)
    ensures
        reply matches Ok(sdp) ==> r@ == offer_reply(session_id@, true, sdp@),
        reply matches Err(error) ==> r@ == offer_reply(session_id@, false, error@),
        reply matches Ok(sdp) ==> crate::json::parsed(
            crate::json::pair_text("session_id"@, session_id@, "sdp"@, sdp@),
        ) == Some(map!["session_id"@ => session_id@, "sdp"@ => sdp@]),
        reply matches Err(error) ==> crate::json::parsed(
            crate::json::pair_text("session_id"@, session_id@, "error"@, error@),
        ) == Some(map!["session_id"@ => session_id@, "error"@ => error@]),
{
    proof {
        reveal_strlit("session_id");
        reveal_strlit("sdp");
        reveal_strlit("error");
        assert("session_id"@.len() == 10);
        assert("sdp"@.len() == 3);
        assert("error"@.len() == 5);
    }
    match reply {
        Ok(answer) => http_response(
            200,
            write_pair("session_id", session_id, "sdp", answer.as_str()).as_str(),
            "application/json",
        ),
        Err(error) => http_response(
            400,
            write_pair("session_id", session_id, "error", error.as_str()).as_str(),
            "application/json",
        ),
    }
}

/// The response to an ICE candidate, from what the application replied.
pub open spec fn candidate_reply(error: Option<Seq<char>>) -> Seq<char> {
    match error {
        None => response(200, "{\"status\":\"ok\"}"@, "application/json"@),
        Some(e) => response(400, "{\"error\":\""@ + e + "\"}"@, "application/json"@),
    }
}

/// The response to an ICE candidate.
pub fn candidate_response(reply: &Result<(), String>) -> (r: String)
    ensures
        reply is Ok ==> r@ == candidate_reply(None),
        reply matches Err(e) ==> r@ == candidate_reply(Some(e@)),
{
    match reply {
        Ok(()) => http_response(200, "{\"status\":\"ok\"}", "application/json"),
        Err(e) => {
            let mut body = "{\"error\":\"".to_string();
            body.append(e.as_str());
            body.append("\"}");
            http_response(400, body.as_str(), "application/json")
        },
    }
}

// Session identifiers

/// `SecureRandom::fill` of the *ring* provider of rustls: 16 random bytes, as a
/// number; none where the system has no randomness to give. Nothing is promised
/// of what is drawn.
#[verifier::external_body]
fn draw() -> (r: Option<u128>) {
    let mut bytes = [0u8; 16];
    let filled = rustls::crypto::ring::default_provider().secure_random.fill(&mut bytes);
    filled.ok().map(|_| u128::from_be_bytes(bytes))
}

/// Whether a text is a session identifier: a number in lowercase hexadecimal.
pub open spec fn is_session_id(id: Seq<char>) -> bool {
    exists|n: u128| id == #[trigger] crate::text::lower_hex(n as nat)
}

/// The session identifier made of what was drawn: the number in hexadecimal.
pub fn session_id_of(drawn: u128) -> (r: String)
    ensures
        r@ == crate::text::lower_hex(drawn as nat),
        is_session_id(r@),
{
    lower_hex_text(drawn)
}

/// Generate a short random session ID. There is none where there is no
/// randomness.
pub fn nanoid() -> (r: Option<String>)
    ensures
        r matches Some(id) ==> is_session_id(id@),
{
    match draw() {
        Some(drawn) => Some(session_id_of(drawn)),
        None => None,
    }
}

// Routing

/// The endpoints.
pub enum Endpoint {
    Offer,
    Ice(String),
    Close(String),
    Unknown,
}

/// Whether a request goes to the offer endpoint.
pub open spec fn is_offer(method: Seq<char>, path: Seq<char>) -> bool {
    method == "POST"@ && path == "/webrtc/offer"@
}

/// The session that a request posts an ICE candidate for.
pub open spec fn ice_session(method: Seq<char>, path: Seq<char>) -> Option<Seq<char>> {
    if method == "POST"@ && !is_offer(method, path) {
        crate::text::after_prefix(path, "/webrtc/ice/"@)
    } else {
        None
    }
}

/// The session that a request closes.
pub open spec fn close_session(method: Seq<char>, path: Seq<char>) -> Option<Seq<char>> {
    if method == "POST"@ && !is_offer(method, path) && ice_session(method, path) is None {
        crate::text::after_prefix(path, "/webrtc/close/"@)
    } else {
        None
    }
}

/// The endpoint that a request is for.
pub fn endpoint(method: &str, path: &str) -> (r: Endpoint)
    ensures
        match r {
            Endpoint::Offer => is_offer(method@, path@),
            Endpoint::Ice(id) => ice_session(method@, path@) == Some(id@),
            Endpoint::Close(id) => close_session(method@, path@) == Some(id@),
            Endpoint::Unknown => {
                &&& !is_offer(method@, path@)
                &&& ice_session(method@, path@) is None
                &&& close_session(method@, path@) is None
            },
        },
{
    if !same_text(method, "POST") {
        return Endpoint::Unknown;
    }
    if same_text(path, "/webrtc/offer") {
        return Endpoint::Offer;
    }
    if let Some(id) = strip_prefix(path, "/webrtc/ice/") {
        return Endpoint::Ice(id);
    }
    if let Some(id) = strip_prefix(path, "/webrtc/close/") {
        return Endpoint::Close(id);
    }
    Endpoint::Unknown
}

/// The signaling server: what it does with an offer, with an ICE candidate and
/// with the end of a session is up to three callbacks.
///
/// The callbacks are called synchronously from the HTTP handler, so they must
/// not block.
pub struct SignalingServer<
    O: Fn(&str, &str) -> Result<String, String>,
    I: Fn(&str, &str) -> Result<(), String>,
    C: Fn(&str),
> {
    /// Called with a session identifier and an SDP offer. Returns the SDP
    /// answer or an error.
    pub on_offer: O,
    /// Called with a session identifier and an ICE candidate.
    pub on_ice: I,
    /// Called with the identifier of a session that the browser closed.
    pub on_close: C,
}

impl<
    O: Fn(&str, &str) -> Result<String, String>,
    I: Fn(&str, &str) -> Result<(), String>,
    C: Fn(&str),
> SignalingServer<O, I, C> {
    /// Whether the callbacks accept whatever a browser sends.
    pub open spec fn callable(&self) -> bool {
        &&& forall|id: &str, sdp: &str| call_requires(self.on_offer, (id, sdp))
        &&& forall|id: &str, candidate: &str| call_requires(self.on_ice, (id, candidate))
        &&& forall|id: &str| call_requires(self.on_close, (id,))
    }

    /// What answers an offer in a session of this name: what the application
    /// replied to it. Without a name there is no session, and the application is
    /// not asked.
    pub open spec fn answers_offer_as(
        &self,
        session_id: Option<Seq<char>>,
        sdp: Seq<char>,
        text: Seq<char>,
    ) -> bool {
        match session_id {
            None => text == response(500, "No session ID"@, "text/plain"@),
            Some(name) => exists|id: &str, offer: &str, reply: Result<String, String>|
                {
                    &&& id@ == name
                    &&& offer@ == sdp
                    &&& #[trigger] call_ensures(self.on_offer, (id, offer), reply)
                    &&& reply matches Ok(answer) ==> text == offer_reply(name, true, answer@)
                        && crate::json::parsed(
                        crate::json::pair_text("session_id"@, name, "sdp"@, answer@),
                    ) == Some(map!["session_id"@ => name, "sdp"@ => answer@])
                    &&& reply matches Err(error) ==> text == offer_reply(name, false, error@)
                        && crate::json::parsed(
                        crate::json::pair_text("session_id"@, name, "error"@, error@),
                    ) == Some(map!["session_id"@ => name, "error"@ => error@])
                },
        }
    }

    /// What answers an offer in a new session, whatever name that was given.
    pub open spec fn answers_in_new_session(&self, sdp: Seq<char>, text: Seq<char>) -> bool {
        exists|session_id: Option<Seq<char>>|
            {
                &&& session_id matches Some(name) ==> is_session_id(name)
                &&& #[trigger] self.answers_offer_as(session_id, sdp, text)
            }
    }

    /// What answers a posted offer: a refusal where the body holds none, and
    /// otherwise the answer in a new session.
    pub open spec fn answers_offer(&self, body: Seq<u8>, text: Seq<char>) -> bool {
        match posted_member(body, "sdp"@, "{\"error\":\"missing 'sdp' field\"}"@) {
            Err(refusal) => text == refusal,
            Ok(sdp) => self.answers_in_new_session(sdp, text),
        }
    }

    /// What answers a posted ICE candidate.
    pub open spec fn answers_ice(
        &self,
        session_id: Seq<char>,
        body: Seq<u8>,
        text: Seq<char>,
    ) -> bool {
        match posted_member(body, "candidate"@, "{\"error\":\"missing 'candidate' field\"}"@) {
            Err(refusal) => text == refusal,
            Ok(candidate) => exists|id: &str, given: &str, reply: Result<(), String>|
                {
                    &&& id@ == session_id
                    &&& given@ == candidate
                    &&& #[trigger] call_ensures(self.on_ice, (id, given), reply)
                    &&& reply is Ok ==> text == candidate_reply(None)
                    &&& reply matches Err(e) ==> text == candidate_reply(Some(e@))
                },
        }
    }

    /// What answers the end of a session.
    pub open spec fn answers_close(&self, session_id: Seq<char>, text: Seq<char>) -> bool {
        &&& text == response(200, "{\"status\":\"closed\"}"@, "application/json"@)
        &&& exists|id: &str|
            id@ == session_id && #[trigger] call_ensures(self.on_close, (id,), ())
    }

    /// Create a new signaling server with the given callbacks.
    pub fn new(on_offer: O, on_ice: I, on_close: C) -> (r: Self)
        ensures
            r.on_offer == on_offer,
            r.on_ice == on_ice,
            r.on_close == on_close,
    {
        SignalingServer { on_offer, on_ice, on_close }
    }

    /// Answer a request.
    pub fn route(&self, method: &str, path: &str, body: &[u8]) -> (r: String)
        requires
            self.callable(),
        ensures
            is_offer(method@, path@) ==> self.answers_offer(body@, r@),
            ice_session(method@, path@) matches Some(id) ==> self.answers_ice(id, body@, r@),
            close_session(method@, path@) matches Some(id) ==> self.answers_close(id, r@),
            !is_offer(method@, path@) && ice_session(method@, path@) is None && close_session(
                method@,
                path@,
            ) is None ==> r@ == response(404, "Not Found"@, "text/plain"@),
    {
        match endpoint(method, path) {
            Endpoint::Offer => self.handle_offer(body),
            Endpoint::Ice(id) => self.handle_ice_candidate(id.as_str(), body),
            Endpoint::Close(id) => self.handle_close(id.as_str()),
            Endpoint::Unknown => http_response(404, "Not Found", "text/plain"),
        }
    }

    /// Answer an offer in a session of this name: the application is asked for
    /// the SDP answer.
    pub fn answer_offer(&self, session_id: &Option<String>, sdp: &str) -> (r: String)
        requires
            self.callable(),
        ensures
            self.answers_offer_as(crate::text::maybe(*session_id), sdp@, r@),
    {
        let id = match session_id {
            Some(id) => id.as_str(),
            None => return http_response(500, "No session ID", "text/plain"),
        };
        let reply = (self.on_offer)(id, sdp);
        let text = offer_response(id, &reply);
        assert(call_ensures(self.on_offer, (id, sdp), reply));
        text
    }

    /// Answer an offer: a new session is named and the application is asked for
    /// the SDP answer.
    pub fn handle_offer(&self, body: &[u8]) -> (r: String)
        requires
            self.callable(),
        ensures
            self.answers_offer(body@, r@),
    {
        let sdp = match read_member(body, "sdp", "{\"error\":\"missing 'sdp' field\"}") {
            Posted::Member(s) => s,
            Posted::Refused(text) => return text,
        };
        let session_id = nanoid();
        let text = self.answer_offer(&session_id, sdp.as_str());
        proof {
            let name = crate::text::maybe(session_id);
            assert(name matches Some(id) ==> is_session_id(id));
            assert(self.answers_offer_as(name, sdp@, text@));
            assert(self.answers_in_new_session(sdp@, text@));
        }
        text
    }

    /// Answer an ICE candidate.
    pub fn handle_ice_candidate(&self, session_id: &str, body: &[u8]) -> (r: String)
        requires
            self.callable(),
        ensures
            self.answers_ice(session_id@, body@, r@),
    {
        let candidate = match read_member(
            body,
            "candidate",
            "{\"error\":\"missing 'candidate' field\"}",
        ) {
            Posted::Member(s) => s,
            Posted::Refused(text) => return text,
        };
        let given = candidate.as_str();
        let reply = (self.on_ice)(session_id, given);
        let text = candidate_response(&reply);
        assert(call_ensures(self.on_ice, (session_id, given), reply));
        text
    }

    /// Answer the end of a session.
    pub fn handle_close(&self, session_id: &str) -> (r: String)
        requires
            self.callable(),
        ensures
            self.answers_close(session_id@, r@),
    {
        (self.on_close)(session_id);
        http_response(200, "{\"status\":\"closed\"}", "application/json")
    }
}

// Laws

proof fn lemma_encode_append(a: Seq<char>, b: Seq<char>)
    ensures
        vstd::utf8::encode_utf8(a + b) == vstd::utf8::encode_utf8(a) + vstd::utf8::encode_utf8(b),
    decreases a.len(),
{
    if a.len() == 0 {
        assert(a + b =~= b);
        assert(vstd::utf8::encode_utf8(a) + vstd::utf8::encode_utf8(b) =~= vstd::utf8::encode_utf8(b));
    } else {
        lemma_encode_append(a.drop_first(), b);
        assert((a + b).drop_first() =~= a.drop_first() + b);
        assert((a + b)[0] == a[0]);
        assert(vstd::utf8::encode_utf8(a + b) =~= vstd::utf8::encode_utf8(a)
            + vstd::utf8::encode_utf8(b));
    }
}

/// A client that reads the head of a response and then as many bytes as it
/// announces has read the body, and nothing is left over.
pub proof fn law_content_length_counts_the_body(code: u16, body: Seq<char>, content_type: Seq<char>)
    ensures
        ({
            let head = response_head(code, byte_len(body), content_type);
            let bytes = vstd::utf8::encode_utf8(response(code, body, content_type));
            &&& bytes.len() == byte_len(head) + byte_len(body)
            &&& bytes.skip(byte_len(head) as int) == vstd::utf8::encode_utf8(body)
        }),
{
    let head = response_head(code, byte_len(body), content_type);
    lemma_encode_append(head, body);
    assert((vstd::utf8::encode_utf8(head) + vstd::utf8::encode_utf8(body)).skip(
        byte_len(head) as int,
    ) =~= vstd::utf8::encode_utf8(body));
}

/// Reading a further line of a head does what the length of all lines together
/// says: the last `Content-Length` line counts.
pub proof fn law_last_content_length_counts(lines: Seq<Seq<char>>, line: Seq<char>)
    ensures
        content_length(lines.push(line)) == (match header_length(line) {
            Some(n) => n,
            None => content_length(lines),
        }),
{
    assert(lines.push(line).drop_last() =~= lines);
}

/// Session identifiers made of different draws are different.
pub proof fn law_session_ids_are_distinct(a: u128, b: u128)
    requires
        a != b,
    ensures
        crate::text::lower_hex(a as nat) != crate::text::lower_hex(b as nat),
{
    crate::text::lemma_lower_hex_injective(a as nat, b as nat);
}

/// Every request goes to exactly one place: an offer, an ICE candidate, the end
/// of a session, or nowhere.
pub proof fn law_endpoints_are_disjoint(method: Seq<char>, path: Seq<char>)
    ensures
        is_offer(method, path) ==> ice_session(method, path) is None && close_session(method, path) is None,
        ice_session(method, path) is Some ==> close_session(method, path) is None,
        method != "POST"@ ==> !is_offer(method, path) && ice_session(method, path) is None
            && close_session(method, path) is None,
{
}

/// What is posted for a session is handed on under the identifier that the path
/// ends with.
pub proof fn law_session_of_path(id: Seq<char>)
    ensures
        ice_session("POST"@, "/webrtc/ice/"@ + id) == Some(id),
        close_session("POST"@, "/webrtc/close/"@ + id) == Some(id),
{
    let ice = "/webrtc/ice/"@;
    let close = "/webrtc/close/"@;
    reveal_strlit("/webrtc/offer");
    reveal_strlit("/webrtc/ice/");
    reveal_strlit("/webrtc/close/");
    assert("/webrtc/offer"@[8] == 'o' && ice[8] == 'i' && close[8] == 'c');
    assert((ice + id)[8] == 'i');
    assert((close + id)[8] == 'c');
    assert(ice.is_prefix_of(ice + id)) by {
        assert((ice + id).take(ice.len() as int) =~= ice);
    }
    assert(close.is_prefix_of(close + id)) by {
        assert((close + id).take(close.len() as int) =~= close);
    }
    assert((ice + id).skip(ice.len() as int) =~= id);
    assert((close + id).skip(close.len() as int) =~= id);
    assert(!ice.is_prefix_of(close + id));
}

// How a client reads a response

/// Where the first line of a text ends: before the first CR LF.
pub open spec fn line_end(s: Seq<char>) -> int
    decreases s.len(),
{
    if s.len() < 2 {
        s.len() as int
    } else if s[0] == '\r' && s[1] == '\n' {
        0
    } else {
        1 + line_end(s.drop_first())
    }
}

/// The lines of a text up to the first empty one.
pub open spec fn head_lines(s: Seq<char>) -> Seq<Seq<char>>
    decreases s.len(),
{
    let end = line_end(s);
    if 0 < end && end + 2 <= s.len() {
        seq![s.take(end)] + head_lines(s.skip(end + 2))
    } else {
        Seq::empty()
    }
}

/// What follows the first empty line of a text.
pub open spec fn body_part(s: Seq<char>) -> Seq<char>
    decreases s.len(),
{
    let end = line_end(s);
    if 0 < end && end + 2 <= s.len() {
        body_part(s.skip(end + 2))
    } else if end == 0 && s.len() >= 2 {
        s.skip(2)
    } else {
        Seq::empty()
    }
}

/// The value of the first header field of a name.
pub open spec fn field(lines: Seq<Seq<char>>, name: Seq<char>) -> Option<Seq<char>>
    decreases lines.len(),
{
    if lines.len() == 0 {
        None
    } else {
        match crate::text::after_prefix(lines[0], name + seq![':', ' ']) {
            Some(value) => Some(value),
            None => field(lines.drop_first(), name),
        }
    }
}

/// Whether a text is a decimal number of this value.
pub open spec fn is_number(text: Seq<char>, value: nat) -> bool {
    &&& text.len() > 0
    &&& crate::text::all_digits(text)
    &&& crate::text::digits_value(text) == value
}

/// What a client reads out of a response, line by line: the status code, how
/// many bytes are to follow the head, of which type, and the body.
pub open spec fn client_reads(
    text: Seq<char>,
    code: u16,
    content_type: Seq<char>,
    body: Seq<char>,
) -> bool {
    let lines = head_lines(text);
    let status = crate::text::words(lines[0]);
    &&& lines.len() > 0
    &&& status.len() >= 3
    &&& status[0] == "HTTP/1.1"@
    &&& is_number(status[1], code as nat)
    &&& field(lines, "Content-Length"@) matches Some(n) && is_number(
        n,
        vstd::utf8::encode_utf8(body).len(),
    )
    &&& field(lines, "Content-Type"@) == Some(content_type)
    &&& field(lines, "Access-Control-Allow-Origin"@) == Some("*"@)
    &&& field(lines, "Connection"@) == Some("close"@)
    &&& body_part(text) == body
}

/// Whether a text can stand on one line.
pub open spec fn one_line(s: Seq<char>) -> bool {
    !s.contains('\r')
}

proof fn lemma_line_end(line: Seq<char>, rest: Seq<char>)
    requires
        one_line(line),
    ensures
        line_end(line + seq!['\r', '\n'] + rest) == line.len(),
    decreases line.len(),
{
    let s = line + seq!['\r', '\n'] + rest;
    if line.len() > 0 {
        assert(line[0] != '\r') by {
            assert(line.contains(line[0]));
        }
        assert(s[0] == line[0]);
        assert(s.drop_first() =~= line.drop_first() + seq!['\r', '\n'] + rest);
        assert(one_line(line.drop_first())) by {
            if line.drop_first().contains('\r') {
                let k = line.drop_first().index_of('\r');
                assert(line[k + 1] == '\r');
            }
        }
        lemma_line_end(line.drop_first(), rest);
    } else {
        assert(s[0] == '\r' && s[1] == '\n');
    }
}

/// Reading one more line of a head.
pub proof fn lemma_head_line(line: Seq<char>, rest: Seq<char>)
    requires
        one_line(line),
        line.len() > 0,
    ensures
        head_lines(line + seq!['\r', '\n'] + rest) == seq![line] + head_lines(rest),
        body_part(line + seq!['\r', '\n'] + rest) == body_part(rest),
{
    let s = line + seq!['\r', '\n'] + rest;
    lemma_line_end(line, rest);
    assert(s.take(line.len() as int) =~= line);
    assert(s.skip(line.len() as int + 2) =~= rest);
}

/// Reading the empty line that ends a head.
pub proof fn lemma_head_ends(body: Seq<char>)
    ensures
        head_lines(seq!['\r', '\n'] + body) == Seq::<Seq<char>>::empty(),
        body_part(seq!['\r', '\n'] + body) == body,
{
    let s = seq!['\r', '\n'] + body;
    assert(s[0] == '\r' && s[1] == '\n');
    assert(s.skip(2) =~= body);
}

/// A line that differs from the prefix of a field is not that field.
pub proof fn lemma_other_field(line: Seq<char>, prefix: Seq<char>, i: int)
    requires
        0 <= i < prefix.len(),
        i < line.len() ==> line[i] != prefix[i],
    ensures
        crate::text::after_prefix(line, prefix) is None,
{
    if prefix.is_prefix_of(line) {
        assert(line.take(prefix.len() as int)[i] == prefix[i]);
    }
}

proof fn lemma_number_on_a_line(n: nat)
    ensures
        is_number(crate::text::decimal(n), n),
        one_line(crate::text::decimal(n)),
        crate::text::no_space(crate::text::decimal(n)),
{
    let d = crate::text::decimal(n);
    crate::text::lemma_decimal_reads_back(n);
    assert forall|i: int| 0 <= i < d.len() implies !crate::text::is_space(#[trigger] d[i]) && d[i]
        != '\r' by {
        assert(crate::text::is_digit(d[i]));
    }
    if d.contains('\r') {
        let k = d.index_of('\r');
        assert(d[k] == '\r');
    }
}

proof fn lemma_one_line_append(a: Seq<char>, b: Seq<char>)
    requires
        one_line(a),
        one_line(b),
    ensures
        one_line(a + b),
{
    if (a + b).contains('\r') {
        let k = (a + b).index_of('\r');
        if k < a.len() {
            assert(a[k] == '\r');
        } else {
            assert(b[k - a.len()] == '\r');
        }
    }
}

proof fn lemma_status_line(code: u16) -> (line: Seq<char>)
    ensures
        line == "HTTP/1.1 "@ + crate::text::decimal(code as nat) + " "@ + reason(code),
        line.len() > 0,
        line[0] == 'H',
        one_line(line),
        crate::text::words(line).len() >= 3,
        crate::text::words(line)[0] == "HTTP/1.1"@,
        is_number(crate::text::words(line)[1], code as nat),
{
    reveal_strlit("HTTP/1.1 ");
    reveal_strlit("HTTP/1.1");
    reveal_strlit(" ");
    reveal_strlit("OK");
    reveal_strlit("Bad Request");
    reveal_strlit("Not Found");
    reveal_strlit("Internal Server Error");
    reveal_strlit("Unknown");
    let version = "HTTP/1.1"@;
    let number = crate::text::decimal(code as nat);
    let phrase = reason(code);
    lemma_number_on_a_line(code as nat);
    let line = "HTTP/1.1 "@ + number + " "@ + phrase;
    let tail = number + seq![' '] + phrase;
    assert(line =~= version + seq![' '] + tail);
    crate::text::lemma_first_word(version, ' ', tail);
    crate::text::lemma_first_word(number, ' ', phrase);
    let w = crate::text::words(line);
    assert(w == seq![version] + (seq![number] + crate::text::words(phrase)));
    assert(crate::text::words(phrase).len() > 0) by {
        assert(crate::text::trim_start(phrase) == phrase);
    }
    assert(w[0] == version);
    assert(w[1] == number);
    assert(one_line("HTTP/1.1 "@) && one_line(" "@) && one_line(phrase));
    lemma_one_line_append("HTTP/1.1 "@, number);
    lemma_one_line_append("HTTP/1.1 "@ + number, " "@);
    lemma_one_line_append("HTTP/1.1 "@ + number + " "@, phrase);
    line
}

proof fn lemma_client_reads(code: u16, body: Seq<char>, content_type: Seq<char>)
    requires
        one_line(content_type),
    ensures
        client_reads(response(code, body, content_type), code, content_type, body),
{
    let text = response(code, body, content_type);
    let nl = seq!['\r', '\n'];
    let size = crate::text::decimal(byte_len(body));
    reveal_strlit("\r\nContent-Type: ");
    reveal_strlit("\r\nAccess-Control-Allow-Origin: *\r\nContent-Length: ");
    reveal_strlit("\r\nConnection: close\r\n\r\n");
    reveal_strlit("Content-Type");
    reveal_strlit("Content-Length");
    reveal_strlit("Access-Control-Allow-Origin");
    reveal_strlit("Connection");
    reveal_strlit("*");
    reveal_strlit("close");
    let sep = seq![':', ' '];
    let l0 = lemma_status_line(code);
    let l1 = "Content-Type"@ + sep + content_type;
    let l2 = "Access-Control-Allow-Origin"@ + sep + "*"@;
    let l3 = "Content-Length"@ + sep + size;
    let l4 = "Connection"@ + sep + "close"@;
    lemma_number_on_a_line(byte_len(body));
    lemma_one_line_append("Content-Type"@ + sep, content_type);
    lemma_one_line_append("Content-Length"@ + sep, size);
    let t5 = nl + body;
    let t4 = l4 + nl + t5;
    let t3 = l3 + nl + t4;
    let t2 = l2 + nl + t3;
    let t1 = l1 + nl + t2;
    assert("\r\nContent-Type: "@ =~= nl + "Content-Type"@ + sep);
    assert("\r\nAccess-Control-Allow-Origin: *\r\nContent-Length: "@ =~= nl + l2 + nl
        + "Content-Length"@ + sep);
    assert("\r\nConnection: close\r\n\r\n"@ =~= nl + l4 + nl + nl);
    assert(text =~= l0 + nl + t1);
    lemma_head_line(l0, t1);
    lemma_head_line(l1, t2);
    lemma_head_line(l2, t3);
    lemma_head_line(l3, t4);
    lemma_head_line(l4, t5);
    lemma_head_ends(body);
    let lines = head_lines(text);
    assert(lines =~= seq![l0, l1, l2, l3, l4]);
    reveal_with_fuel(field, 6);
    assert(lines.drop_first() =~= seq![l1, l2, l3, l4]);
    assert(lines.drop_first().drop_first() =~= seq![l2, l3, l4]);
    assert(lines.drop_first().drop_first().drop_first() =~= seq![l3, l4]);
    assert(lines.drop_first().drop_first().drop_first().drop_first() =~= seq![l4]);
    crate::text::lemma_after_prefix("Content-Type"@ + sep, content_type);
    crate::text::lemma_after_prefix("Access-Control-Allow-Origin"@ + sep, "*"@);
    crate::text::lemma_after_prefix("Content-Length"@ + sep, size);
    crate::text::lemma_after_prefix("Connection"@ + sep, "close"@);
    lemma_other_field(l0, "Content-Type"@ + sep, 0);
    lemma_other_field(l0, "Content-Length"@ + sep, 0);
    lemma_other_field(l0, "Access-Control-Allow-Origin"@ + sep, 0);
    lemma_other_field(l0, "Connection"@ + sep, 0);
    lemma_other_field(l1, "Content-Length"@ + sep, 8);
    lemma_other_field(l1, "Access-Control-Allow-Origin"@ + sep, 0);
    lemma_other_field(l1, "Connection"@ + sep, 3);
    lemma_other_field(l2, "Content-Length"@ + sep, 0);
    lemma_other_field(l2, "Connection"@ + sep, 0);
    lemma_other_field(l3, "Connection"@ + sep, 3);
}

/// A client that reads a response line by line finds the status code and the
/// type in its head, and the body after it; and the number that it finds after
/// `Content-Length: ` is the number of bytes of the body.
pub proof fn law_responses_are_read(code: u16, body: &str, content_type: &str, r: String)
    requires
        call_ensures(http_response, (code, body, content_type), r),
        one_line(content_type@),
    ensures
        client_reads(r@, code, content_type@, body@),
{
    lemma_client_reads(code, body@, content_type@);
}

/// What a client reads out of a response of either type.
pub proof fn lemma_reads(code: u16, body: Seq<char>)
    ensures
        client_reads(response(code, body, "text/plain"@), code, "text/plain"@, body),
        client_reads(response(code, body, "application/json"@), code, "application/json"@, body),
{
    reveal_strlit("text/plain");
    reveal_strlit("application/json");
    assert(one_line("text/plain"@));
    assert(one_line("application/json"@));
    lemma_client_reads(code, body, "text/plain"@);
    lemma_client_reads(code, body, "application/json"@);
}

/// The reason phrases are those of HTTP, and no others are known.
pub proof fn law_reason_phrases(code: u16, r: &'static str)
    requires
        call_ensures(reason_phrase, (code,), r),
    ensures
        r@ == "OK"@ <==> code == 200,
        r@ == "Bad Request"@ <==> code == 400,
        r@ == "Not Found"@ <==> code == 404,
        r@ == "Internal Server Error"@ <==> code == 500,
        r@ == "Unknown"@ <==> code != 200 && code != 400 && code != 404 && code != 500,
{
    reveal_strlit("OK");
    reveal_strlit("Bad Request");
    reveal_strlit("Not Found");
    reveal_strlit("Internal Server Error");
    reveal_strlit("Unknown");
    assert("OK"@.len() == 2 && "Bad Request"@.len() == 11 && "Not Found"@.len() == 9
        && "Internal Server Error"@.len() == 21 && "Unknown"@.len() == 7);
}

/// A response names the reason that goes with its status code.
pub proof fn law_status_line(code: u16, body: &str, content_type: &str, r: String)
    requires
        call_ensures(http_response, (code, body, content_type), r),
        one_line(content_type@),
    ensures
        code == 200 ==> head_lines(r@)[0] == "HTTP/1.1 200 OK"@,
        code == 400 ==> head_lines(r@)[0] == "HTTP/1.1 400 Bad Request"@,
        code == 404 ==> head_lines(r@)[0] == "HTTP/1.1 404 Not Found"@,
        code == 500 ==> head_lines(r@)[0] == "HTTP/1.1 500 Internal Server Error"@,
{
    let line = lemma_status_line(code);
    let rest = r@.skip(line.len() as int + 2);
    reveal_strlit("\r\nContent-Type: ");
    assert(r@ =~= line + seq!['\r', '\n'] + rest);
    lemma_head_line(line, rest);
    assert(head_lines(r@)[0] == line);
    reveal_with_fuel(crate::text::decimal, 4);
    reveal_strlit("HTTP/1.1 ");
    reveal_strlit(" ");
    reveal_strlit("OK");
    reveal_strlit("Bad Request");
    reveal_strlit("Not Found");
    reveal_strlit("Internal Server Error");
    reveal_strlit("HTTP/1.1 200 OK");
    reveal_strlit("HTTP/1.1 400 Bad Request");
    reveal_strlit("HTTP/1.1 404 Not Found");
    reveal_strlit("HTTP/1.1 500 Internal Server Error");
    if code == 200 {
        assert(crate::text::decimal(200) =~= seq!['2', '0', '0']);
        assert(line =~= "HTTP/1.1 200 OK"@);
    } else if code == 400 {
        assert(crate::text::decimal(400) =~= seq!['4', '0', '0']);
        assert(line =~= "HTTP/1.1 400 Bad Request"@);
    } else if code == 404 {
        assert(crate::text::decimal(404) =~= seq!['4', '0', '4']);
        assert(line =~= "HTTP/1.1 404 Not Found"@);
    } else if code == 500 {
        assert(crate::text::decimal(500) =~= seq!['5', '0', '0']);
        assert(line =~= "HTTP/1.1 500 Internal Server Error"@);
    }
}

/// A client that was answered in a session reads this out of the response: the
/// status code, and a JSON object with the name of the session and one more
/// member.
pub open spec fn client_is_told(
    text: Seq<char>,
    code: u16,
    session_id: Seq<char>,
    key: Seq<char>,
    value: Seq<char>,
) -> bool {
    &&& client_reads(text, code, "application/json"@, body_part(text))
    &&& crate::json::parsed(body_part(text)) matches Some(members) && {
        &&& members.dom().contains("session_id"@) && members["session_id"@] == session_id
        &&& members.dom().contains(key) && members[key] == value
    }
}

proof fn lemma_keys()
    ensures
        "session_id"@ != "sdp"@,
        "session_id"@ != "error"@,
        "sdp"@ != "error"@,
{
    reveal_strlit("session_id");
    reveal_strlit("sdp");
    reveal_strlit("error");
    assert("session_id"@.len() == 10 && "sdp"@.len() == 3 && "error"@.len() == 5);
}

/// A client whose offer was accepted reads the SDP answer, and one whose offer
/// was rejected reads why; either with the name of its session.
pub proof fn law_offers_are_answered(session_id: &str, reply: &Result<String, String>, r: String)
    requires
        call_ensures(offer_response, (session_id, reply), r),
    ensures
        reply matches Ok(sdp) ==> client_is_told(r@, 200, session_id@, "sdp"@, sdp@),
        reply matches Err(error) ==> client_is_told(r@, 400, session_id@, "error"@, error@),
{
    lemma_keys();
    lemma_reads(200, body_part(r@));
    lemma_reads(400, body_part(r@));
    match reply {
        Ok(sdp) => {
            lemma_reads(
                200,
                crate::json::pair_text("session_id"@, session_id@, "sdp"@, sdp@),
            );
        },
        Err(error) => {
            lemma_reads(
                400,
                crate::json::pair_text("session_id"@, session_id@, "error"@, error@),
            );
        },
    }
}

/// A client learns whether its ICE candidate was accepted, and why not.
pub proof fn law_candidates_are_answered(reply: &Result<(), String>, r: String)
    requires
        call_ensures(candidate_response, (reply,), r),
    ensures
        reply is Ok ==> client_reads(r@, 200, "application/json"@, "{\"status\":\"ok\"}"@),
        reply matches Err(e) ==> client_reads(
            r@,
            400,
            "application/json"@,
            "{\"error\":\""@ + e@ + "\"}"@,
        ),
{
    lemma_reads(200, "{\"status\":\"ok\"}"@);
    if let Err(e) = reply {
        lemma_reads(400, "{\"error\":\""@ + e@ + "\"}"@);
    }
}

/// Offers, ICE candidates and the ends of sessions are posted to their own
/// paths, the latter two with the name of the session at the end. No other
/// request goes anywhere.
pub proof fn law_requests_find_their_endpoint(method: &str, path: &str, r: Endpoint, id: Seq<char>)
    requires
        call_ensures(endpoint, (method, path), r),
    ensures
        r is Offer <==> method@ == "POST"@ && path@ == "/webrtc/offer"@,
        method@ == "POST"@ && path@ == "/webrtc/ice/"@ + id ==> (r matches Endpoint::Ice(i) && i@
            == id),
        method@ == "POST"@ && path@ == "/webrtc/close/"@ + id ==> (r matches Endpoint::Close(i)
            && i@ == id),
        r matches Endpoint::Ice(i) ==> method@ == "POST"@ && path@ == "/webrtc/ice/"@ + i@,
        r matches Endpoint::Close(i) ==> method@ == "POST"@ && path@ == "/webrtc/close/"@ + i@,
{
    law_session_of_path(id);
    law_endpoints_are_disjoint(method@, path@);
    let ice = "/webrtc/ice/"@;
    let close = "/webrtc/close/"@;
    reveal_strlit("/webrtc/offer");
    reveal_strlit("/webrtc/ice/");
    reveal_strlit("/webrtc/close/");
    if ice.is_prefix_of(path@) {
        assert(path@ =~= ice + path@.skip(ice.len() as int));
        assert(path@[8] == 'i');
    }
    if close.is_prefix_of(path@) {
        assert(path@ =~= close + path@.skip(close.len() as int));
        assert(path@[8] == 'c');
    }
    assert("/webrtc/offer"@[8] == 'o');
}

/// A posted body gives the string member that is asked for, if it is a JSON
/// object that has it. Otherwise the client reads that its request was bad.
pub proof fn law_bodies_are_read(body: &[u8], key: &str, missing: &str, r: Posted)
    requires
        call_ensures(read_member, (body, key, missing), r),
    ensures
        r matches Posted::Refused(text) ==> {
            ||| client_reads(text@, 400, "text/plain"@, "Invalid UTF-8"@) && !vstd::utf8::valid_utf8(
                body@,
            )
            ||| client_reads(text@, 400, "text/plain"@, "Invalid JSON"@) && vstd::utf8::valid_utf8(
                body@,
            ) && crate::json::parsed(vstd::utf8::decode_utf8(body@)) is None
            ||| client_reads(text@, 400, "application/json"@, missing@) && (crate::json::parsed(
                vstd::utf8::decode_utf8(body@),
            ) matches Some(members) && !members.dom().contains(key@))
        },
        r matches Posted::Member(value) ==> vstd::utf8::valid_utf8(body@) && (crate::json::parsed(
            vstd::utf8::decode_utf8(body@),
        ) matches Some(members) && members.dom().contains(key@) && members[key@] == value@),
{
    lemma_reads(400, "Invalid UTF-8"@);
    lemma_reads(400, "Invalid JSON"@);
    lemma_reads(400, missing@);
}

/// Whether a body is the JSON text of an object with this string member.
pub open spec fn holds_member(body: Seq<u8>, key: Seq<char>, value: Seq<char>) -> bool {
    &&& vstd::utf8::valid_utf8(body)
    &&& crate::json::parsed(vstd::utf8::decode_utf8(body)) matches Some(members)
        && members.dom().contains(key) && members[key] == value
}

/// A browser that posts an SDP offer: the application is asked with that offer,
/// and the browser is told the session and the answer, or why there is none.
/// Only where there is no randomness for a name it is told that instead.
pub proof fn law_posted_offers_are_answered<
    O: Fn(&str, &str) -> Result<String, String>,
    I: Fn(&str, &str) -> Result<(), String>,
    C: Fn(&str),
>(server: &SignalingServer<O, I, C>, method: &str, path: &str, body: &[u8], r: String, sdp: Seq<char>)
    requires
        call_ensures(SignalingServer::<O, I, C>::route, (server, method, path, body), r),
        method@ == "POST"@,
        path@ == "/webrtc/offer"@,
        holds_member(body@, "sdp"@, sdp),
    ensures
        client_reads(r@, 500, "text/plain"@, "No session ID"@) || exists|
            id: &str,
            offer: &str,
            reply: Result<String, String>,
        |
            {
                &&& offer@ == sdp
                &&& #[trigger] call_ensures(server.on_offer, (id, offer), reply)
                &&& reply matches Ok(answer) ==> client_is_told(r@, 200, id@, "sdp"@, answer@)
                &&& reply matches Err(error) ==> client_is_told(r@, 400, id@, "error"@, error@)
            },
{
    lemma_keys();
    lemma_reads(500, "No session ID"@);
    let name = choose|session_id: Option<Seq<char>>|
        {
            &&& session_id matches Some(name) ==> is_session_id(name)
            &&& #[trigger] server.answers_offer_as(session_id, sdp, r@)
        };
    if let Some(name) = name {
        let (id, offer, reply) = choose|id: &str, offer: &str, reply: Result<String, String>|
            {
                &&& id@ == name
                &&& offer@ == sdp
                &&& #[trigger] call_ensures(server.on_offer, (id, offer), reply)
                &&& reply matches Ok(answer) ==> r@ == offer_reply(name, true, answer@)
                    && crate::json::parsed(
                    crate::json::pair_text("session_id"@, name, "sdp"@, answer@),
                ) == Some(map!["session_id"@ => name, "sdp"@ => answer@])
                &&& reply matches Err(error) ==> r@ == offer_reply(name, false, error@)
                    && crate::json::parsed(
                    crate::json::pair_text("session_id"@, name, "error"@, error@),
                ) == Some(map!["session_id"@ => name, "error"@ => error@])
            };
        match reply {
            Ok(answer) => {
                lemma_reads(200, crate::json::pair_text("session_id"@, name, "sdp"@, answer@));
                assert(client_is_told(r@, 200, id@, "sdp"@, answer@));
            },
            Err(error) => {
                lemma_reads(400, crate::json::pair_text("session_id"@, name, "error"@, error@));
                assert(client_is_told(r@, 400, id@, "error"@, error@));
            },
        }
    }
}

/// A browser that posts an ICE candidate for a session, or the end of a session:
/// the application is called with the name of that session, and the browser is
/// told what came of it.
pub proof fn law_posts_for_a_session_are_answered<
    O: Fn(&str, &str) -> Result<String, String>,
    I: Fn(&str, &str) -> Result<(), String>,
    C: Fn(&str),
>(
    server: &SignalingServer<O, I, C>,
    method: &str,
    path: &str,
    body: &[u8],
    r: String,
    session_id: Seq<char>,
    candidate: Seq<char>,
)
    requires
        call_ensures(SignalingServer::<O, I, C>::route, (server, method, path, body), r),
        method@ == "POST"@,
    ensures
        path@ == "/webrtc/ice/"@ + session_id && holds_member(body@, "candidate"@, candidate)
            ==> exists|id: &str, given: &str, reply: Result<(), String>|
            {
                &&& id@ == session_id
                &&& given@ == candidate
                &&& #[trigger] call_ensures(server.on_ice, (id, given), reply)
                &&& client_reads(
                    r@,
                    if reply is Ok {
                        200
                    } else {
                        400
                    },
                    "application/json"@,
                    body_part(r@),
                )
            },
        path@ == "/webrtc/close/"@ + session_id ==> client_reads(
            r@,
            200,
            "application/json"@,
            "{\"status\":\"closed\"}"@,
        ) && exists|id: &str| id@ == session_id && #[trigger] call_ensures(server.on_close, (id,), ()),
{
    law_session_of_path(session_id);
    lemma_reads(200, "{\"status\":\"closed\"}"@);
    if path@ == "/webrtc/ice/"@ + session_id && holds_member(body@, "candidate"@, candidate) {
        assert(server.answers_ice(session_id, body@, r@));
        let (id, given, reply) = choose|id: &str, given: &str, reply: Result<(), String>|
            {
                &&& id@ == session_id
                &&& given@ == candidate
                &&& #[trigger] call_ensures(server.on_ice, (id, given), reply)
                &&& reply is Ok ==> r@ == candidate_reply(None)
                &&& reply matches Err(e) ==> r@ == candidate_reply(Some(e@))
            };
        lemma_reads(200, "{\"status\":\"ok\"}"@);
        if let Err(e) = reply {
            lemma_reads(400, "{\"error\":\""@ + e@ + "\"}"@);
        }
    }
}

/// A request that goes nowhere is answered that nothing was found.
pub proof fn law_other_requests_find_nothing<
    O: Fn(&str, &str) -> Result<String, String>,
    I: Fn(&str, &str) -> Result<(), String>,
    C: Fn(&str),
>(server: &SignalingServer<O, I, C>, method: &str, path: &str, body: &[u8], r: String)
    requires
        call_ensures(SignalingServer::<O, I, C>::route, (server, method, path, body), r),
        method@ != "POST"@ || (path@ != "/webrtc/offer"@ && !("/webrtc/ice/"@).is_prefix_of(path@)
            && !("/webrtc/close/"@).is_prefix_of(path@)),
    ensures
        client_reads(r@, 404, "text/plain"@, "Not Found"@),
{
    lemma_reads(404, "Not Found"@);
}

/// The method and the path of a request are the first two words of its first
/// line, whatever follows them.
pub proof fn law_request_lines_are_read(
    line: &str,
    r: Result<RequestHead, RequestError>,
    method: Seq<char>,
    path: Seq<char>,
    rest: Seq<char>,
)
    requires
        call_ensures(RequestHead::start, (line,), r),
        method.len() > 0,
        path.len() > 0,
        crate::text::no_space(method),
        crate::text::no_space(path),
        line@ == method + seq![' '] + (path + seq![' '] + rest),
    ensures
        r matches Ok(head) && head.method@ == method && head.path@ == path && head.content_length
            == 0,
{
    crate::text::lemma_first_word(method, ' ', path + seq![' '] + rest);
    crate::text::lemma_first_word(path, ' ', rest);
    let w = crate::text::words(line@);
    assert(w == seq![method] + (seq![path] + crate::text::words(rest)));
    assert(w[0] == method);
    assert(w[1] == path);
}

/// A `Content-Length` line announces the number that it holds, in whatever case
/// its name is written and however much whitespace surrounds the number.
pub proof fn law_content_length_lines_are_read(
    head: &mut RequestHead,
    line: &str,
    complete: bool,
    name: Seq<char>,
    space: Seq<char>,
    digits: Seq<char>,
    end: Seq<char>,
)
    requires
        call_ensures(RequestHead::header, (head, line), complete),
        line@ == name + seq![':'] + space + digits + end,
        vstd::utf8::is_ascii_chars(name),
        name.map_values(|c: char| crate::text::ascii_lower(c)) == "content-length"@,
        vstd::utf8::is_ascii_chars(space),
        crate::text::all_space(space),
        crate::text::all_space(end),
        digits.len() > 0,
        crate::text::all_digits(digits),
        crate::text::digits_value(digits) <= usize::MAX,
    ensures
        !complete,
        final(head).content_length == crate::text::digits_value(digits),
        final(head).method == old(head).method,
        final(head).path == old(head).path,
{
    reveal_strlit("content-length");
    reveal_strlit("content-length:");
    let f = |c: char| crate::text::ascii_lower(c);
    let field = name + seq![':'] + space + digits;
    assert(name.len() == 14) by {
        assert(name.map_values(f).len() == name.len());
    }
    assert forall|i: int| 0 <= i < digits.len() implies !crate::text::is_space(#[trigger] digits[i])
        && crate::text::ascii_lower(digits[i]) == digits[i] && (digits[i] as u32) < 128 by {
        assert(crate::text::is_digit(digits[i]));
    }
    assert(name.map_values(f)[0] == 'c');
    assert(crate::text::ascii_lower(name[0]) == 'c');
    assert(field[0] == name[0]);
    assert(field.last() == digits.last());
    assert(!crate::text::is_space(digits[digits.len() - 1]));
    assert(line@ =~= Seq::<char>::empty() + field + end);
    crate::text::lemma_trim_is(Seq::empty(), field, end);
    assert(crate::text::trim(line@) == field);
    assert(vstd::utf8::is_ascii_chars(field)) by {
        assert forall|i: int| 0 <= i < field.len() implies (field[i] as u32) < 128 by {
            if i < 14 {
                assert(field[i] == name[i]);
            } else if i == 14 {
                assert(field[i] == ':');
            } else if i < 15 + space.len() {
                assert(field[i] == space[i - 15]);
            } else {
                assert(field[i] == digits[i - 15 - space.len()]);
            }
        }
    }
    let lower = field.map_values(f);
    assert forall|i: int| 0 <= i < space.len() implies crate::text::ascii_lower(#[trigger] space[i])
        == space[i] by {
        assert(crate::text::is_space(space[i]));
    }
    assert(lower =~= "content-length:"@ + (space + digits)) by {
        assert("content-length:"@ =~= "content-length"@ + seq![':']);
        assert forall|i: int| 0 <= i < lower.len() implies lower[i] == ("content-length:"@ + (space
            + digits))[i] by {
            if i < 14 {
                assert(lower[i] == name.map_values(f)[i]);
            } else if i == 14 {
                assert(lower[i] == f(':'));
            } else if i < 15 + space.len() {
                assert(lower[i] == f(space[i - 15]));
            } else {
                assert(lower[i] == f(digits[i - 15 - space.len()]));
            }
        }
    }
    crate::text::lemma_after_prefix("content-length:"@, space + digits);
    assert(space + digits =~= space + digits + Seq::<char>::empty());
    crate::text::lemma_trim_is(space, digits, Seq::empty());
    assert(crate::text::is_digit(digits[0]));
    assert(crate::text::unsigned_digits(digits) == digits);
}

/// An empty line ends the head, and nothing else does. A line without a length
/// leaves what was announced as it is.
pub proof fn law_other_lines_announce_nothing(head: &mut RequestHead, line: &str, complete: bool)
    requires
        call_ensures(RequestHead::header, (head, line), complete),
    ensures
        complete <==> crate::text::all_space(line@),
        complete ==> final(head).content_length == old(head).content_length,
        vstd::utf8::is_ascii_chars(crate::text::trim(line@)) && !("content-length:"@).is_prefix_of(
            crate::text::trim(line@).map_values(|c: char| crate::text::ascii_lower(c)),
        ) ==> final(head).content_length == old(head).content_length,
        final(head).method == old(head).method,
        final(head).path == old(head).path,
{
    if crate::text::all_space(line@) {
        assert(line@ =~= line@ + Seq::<char>::empty() + Seq::<char>::empty());
        crate::text::lemma_trim_is(line@, Seq::empty(), Seq::empty());
    } else if complete {
        crate::text::lemma_trim_empty(line@);
    }
}

/// After its head, a GET request is answered that nothing was found, and of any
/// other request as many bytes are read as were announced.
pub proof fn law_what_follows_a_head(head: &RequestHead, r: RequestPlan)
    requires
        call_ensures(RequestHead::plan, (head,), r),
    ensures
        r is Respond <==> head.method@ == "GET"@,
        r matches RequestPlan::Respond(text) ==> client_reads(
            text@,
            404,
            "text/plain"@,
            "Not Found"@,
        ),
        r matches RequestPlan::ReadBody(n) ==> n == head.content_length,
{
    lemma_reads(404, "Not Found"@);
}

/// The name of a session reads back, in hexadecimal, as what was drawn for it.
pub proof fn law_session_ids_read_back(drawn: u128, r: String)
    requires
        call_ensures(session_id_of, (drawn,), r),
    ensures
        r@.len() > 0,
        crate::text::hex_digits_value(r@) == drawn,
{
    crate::text::lemma_lower_hex_reads_back(drawn as nat);
}

/// A browser that posts an offer or a candidate that cannot be read is told that
/// its request was bad, and the application is not asked.
pub proof fn law_bad_posts_are_refused<
    O: Fn(&str, &str) -> Result<String, String>,
    I: Fn(&str, &str) -> Result<(), String>,
    C: Fn(&str),
>(
    server: &SignalingServer<O, I, C>,
    method: &str,
    path: &str,
    body: &[u8],
    r: String,
    session_id: Seq<char>,
)
    requires
        call_ensures(SignalingServer::<O, I, C>::route, (server, method, path, body), r),
        method@ == "POST"@,
    ensures
        path@ == "/webrtc/offer"@ && (forall|sdp: Seq<char>| !holds_member(body@, "sdp"@, sdp)) ==> {
            ||| client_reads(r@, 400, "text/plain"@, "Invalid UTF-8"@)
            ||| client_reads(r@, 400, "text/plain"@, "Invalid JSON"@)
            ||| client_reads(
                r@,
                400,
                "application/json"@,
                "{\"error\":\"missing 'sdp' field\"}"@,
            )
        },
        path@ == "/webrtc/ice/"@ + session_id && (forall|c: Seq<char>|
            !holds_member(body@, "candidate"@, c)) ==> {
            ||| client_reads(r@, 400, "text/plain"@, "Invalid UTF-8"@)
            ||| client_reads(r@, 400, "text/plain"@, "Invalid JSON"@)
            ||| client_reads(
                r@,
                400,
                "application/json"@,
                "{\"error\":\"missing 'candidate' field\"}"@,
            )
        },
{
    law_session_of_path(session_id);
    lemma_reads(400, "Invalid UTF-8"@);
    lemma_reads(400, "Invalid JSON"@);
    lemma_reads(400, "{\"error\":\"missing 'sdp' field\"}"@);
    lemma_reads(400, "{\"error\":\"missing 'candidate' field\"}"@);
    if vstd::utf8::valid_utf8(body@) {
        if let Some(members) = crate::json::parsed(vstd::utf8::decode_utf8(body@)) {
            assert(members.dom().contains("sdp"@) ==> holds_member(
                body@,
                "sdp"@,
                members["sdp"@],
            ));
            assert(members.dom().contains("candidate"@) ==> holds_member(
                body@,
                "candidate"@,
                members["candidate"@],
            ));
        }
    }
}

} // verus!
