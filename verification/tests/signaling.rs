use moq_boy::signaling::{
    candidate_response, endpoint, http_response, nanoid, offer_response, read_member, reason_phrase,
    session_id_of, Endpoint, Posted, RequestError, RequestHead, RequestPlan, SignalingServer,
};
use std::cell::RefCell;

fn json(status: &str, body: &str) -> String {
    format!(
        "HTTP/1.1 {}\r\nContent-Type: application/json\r\nAccess-Control-Allow-Origin: *\r\nContent-Length: {}\r\nConnection: close\r\n\r\n{}",
        status,
        body.len(),
        body
    )
}

#[test]
fn reason_phrases() {
    assert_eq!(reason_phrase(200), "OK");
    assert_eq!(reason_phrase(400), "Bad Request");
    assert_eq!(reason_phrase(404), "Not Found");
    assert_eq!(reason_phrase(500), "Internal Server Error");
    assert_eq!(reason_phrase(418), "Unknown");
}

#[test]
fn responses_count_the_bytes_of_their_body() {
    assert_eq!(
        http_response(404, "Not Found", "text/plain"),
        "HTTP/1.1 404 Not Found\r\nContent-Type: text/plain\r\nAccess-Control-Allow-Origin: *\r\nContent-Length: 9\r\nConnection: close\r\n\r\nNot Found"
    );
    let r = http_response(200, "h\u{e9}", "text/plain");
    assert!(r.contains("Content-Length: 3\r\n"));
    let (head, body) = r.split_once("\r\n\r\n").unwrap();
    assert_eq!(body.len(), 3);
    assert_eq!(r.len(), head.len() + 4 + 3);
}

#[test]
fn request_lines() {
    let head = RequestHead::start("POST /webrtc/offer HTTP/1.1\r\n").unwrap();
    assert_eq!(head.method, "POST");
    assert_eq!(head.path, "/webrtc/offer");
    assert_eq!(head.content_length, 0);
    assert!(matches!(RequestHead::start("POST\r\n"), Err(RequestError::InvalidRequestLine)));
    assert!(matches!(RequestHead::start(""), Err(RequestError::InvalidRequestLine)));
}

#[test]
fn headers_are_read_up_to_the_empty_line() {
    let mut head = RequestHead::start("POST / HTTP/1.1").unwrap();
    assert!(!head.header("Host: localhost\r\n"));
    assert_eq!(head.content_length, 0);
    assert!(!head.header("CONTENT-length:  12 \r\n"));
    assert_eq!(head.content_length, 12);
    // The last one counts, and one that is no number counts as zero.
    assert!(!head.header("Content-Length: 34\r\n"));
    assert_eq!(head.content_length, 34);
    assert!(!head.header("Content-Length: many\r\n"));
    assert_eq!(head.content_length, 0);
    assert!(!head.header("content-length: 5"));
    assert!(head.header("\r\n"));
    assert_eq!(head.content_length, 5);
    assert!(matches!(head.plan(), RequestPlan::ReadBody(5)));
}

#[test]
fn there_are_no_get_endpoints() {
    let head = RequestHead::start("GET /webrtc/offer HTTP/1.1").unwrap();
    match head.plan() {
        RequestPlan::Respond(text) => assert_eq!(text, http_response(404, "Not Found", "text/plain")),
        RequestPlan::ReadBody(_) => panic!("a GET request has no body"),
    }
}

#[test]
fn endpoints() {
    assert!(matches!(endpoint("POST", "/webrtc/offer"), Endpoint::Offer));
    assert!(matches!(endpoint("POST", "/webrtc/ice/abc"), Endpoint::Ice(id) if id == "abc"));
    assert!(matches!(endpoint("POST", "/webrtc/ice/"), Endpoint::Ice(id) if id.is_empty()));
    assert!(matches!(endpoint("POST", "/webrtc/close/abc"), Endpoint::Close(id) if id == "abc"));
    assert!(matches!(endpoint("POST", "/webrtc/offer/"), Endpoint::Unknown));
    assert!(matches!(endpoint("PUT", "/webrtc/offer"), Endpoint::Unknown));
    assert!(matches!(endpoint("post", "/webrtc/offer"), Endpoint::Unknown));
}

#[test]
fn bodies_are_read_by_member() {
    assert!(matches!(read_member(b"{\"sdp\":\"v=0\"}", "sdp", "no"), Posted::Member(s) if s == "v=0"));
    let refused = |body: &[u8]| match read_member(body, "sdp", "no") {
        Posted::Refused(text) => text,
        Posted::Member(s) => panic!("{}", s),
    };
    assert_eq!(refused(b"\xff"), http_response(400, "Invalid UTF-8", "text/plain"));
    assert_eq!(refused(b"{"), http_response(400, "Invalid JSON", "text/plain"));
    assert_eq!(refused(b"{\"sdp\":1}"), http_response(400, "no", "application/json"));
    assert_eq!(refused(b"[]"), http_response(400, "no", "application/json"));
}

#[test]
fn offers_are_answered() {
    let seen = RefCell::new(Vec::new());
    let server = SignalingServer::new(
        |id: &str, sdp: &str| {
            seen.borrow_mut().push((id.to_string(), sdp.to_string()));
            Ok::<String, String>("answer \"quoted\"".to_string())
        },
        |_: &str, _: &str| Ok::<(), String>(()),
        |_: &str| (),
    );
    let r = server.route("POST", "/webrtc/offer", b"{\"sdp\":\"v=0\"}");
    let seen = seen.borrow();
    assert_eq!(seen.len(), 1);
    assert_eq!(seen[0].1, "v=0");
    assert!(r.starts_with("HTTP/1.1 200 OK\r\n"));
    let body = r.split_once("\r\n\r\n").unwrap().1;
    let value: serde_json::Value = serde_json::from_str(body).unwrap();
    assert_eq!(value["session_id"], seen[0].0.as_str());
    assert_eq!(value["sdp"], "answer \"quoted\"");
    assert_eq!(value.as_object().unwrap().len(), 2);
}

#[test]
fn rejected_offers_are_reported() {
    let server = SignalingServer::new(
        |_: &str, _: &str| Err::<String, String>("no room".to_string()),
        |_: &str, _: &str| Ok::<(), String>(()),
        |_: &str| (),
    );
    let r = server.handle_offer(b"{\"sdp\":\"v=0\"}");
    assert!(r.starts_with("HTTP/1.1 400 Bad Request\r\n"));
    let body = r.split_once("\r\n\r\n").unwrap().1;
    let value: serde_json::Value = serde_json::from_str(body).unwrap();
    assert_eq!(value["error"], "no room");
    assert!(value["session_id"].is_string());
    assert_eq!(
        server.handle_offer(b"{}"),
        json("400 Bad Request", "{\"error\":\"missing 'sdp' field\"}")
    );
}

#[test]
fn candidates_are_handed_on() {
    let seen = RefCell::new(Vec::new());
    let server = SignalingServer::new(
        |_: &str, _: &str| Ok::<String, String>(String::new()),
        |id: &str, candidate: &str| {
            seen.borrow_mut().push((id.to_string(), candidate.to_string()));
            if id == "bad" {
                Err("unknown session".to_string())
            } else {
                Ok(())
            }
        },
        |_: &str| (),
    );
    let body = b"{\"candidate\":\"c\"}";
    assert_eq!(server.route("POST", "/webrtc/ice/s1", body), json("200 OK", "{\"status\":\"ok\"}"));
    assert_eq!(
        server.route("POST", "/webrtc/ice/bad", body),
        json("400 Bad Request", "{\"error\":\"unknown session\"}")
    );
    assert_eq!(
        server.handle_ice_candidate("s1", b"{}"),
        json("400 Bad Request", "{\"error\":\"missing 'candidate' field\"}")
    );
    assert_eq!(seen.borrow().len(), 2);
    assert_eq!(seen.borrow()[0], ("s1".to_string(), "c".to_string()));
}

#[test]
fn sessions_are_closed() {
    let seen = RefCell::new(Vec::new());
    let server = SignalingServer::new(
        |_: &str, _: &str| Ok::<String, String>(String::new()),
        |_: &str, _: &str| Ok::<(), String>(()),
        |id: &str| seen.borrow_mut().push(id.to_string()),
    );
    assert_eq!(server.route("POST", "/webrtc/close/s9", b""), json("200 OK", "{\"status\":\"closed\"}"));
    assert_eq!(server.handle_close("s8"), json("200 OK", "{\"status\":\"closed\"}"));
    assert_eq!(*seen.borrow(), vec!["s9".to_string(), "s8".to_string()]);
    assert_eq!(
        server.route("POST", "/elsewhere", b""),
        http_response(404, "Not Found", "text/plain")
    );
}

#[test]
fn replies() {
    assert_eq!(candidate_response(&Ok(())), json("200 OK", "{\"status\":\"ok\"}"));
    let r = offer_response("id", &Ok("x".to_string()));
    let value: serde_json::Value = serde_json::from_str(r.split_once("\r\n\r\n").unwrap().1).unwrap();
    assert_eq!(value["session_id"], "id");
    assert_eq!(value["sdp"], "x");
}

#[test]
fn session_ids_are_what_was_drawn() {
    assert_eq!(session_id_of(0x1234abcd), "1234abcd");
    assert_eq!(session_id_of(0), "0");
    assert_eq!(session_id_of(u128::MAX), "ffffffffffffffffffffffffffffffff");
    assert_ne!(session_id_of(16), session_id_of(1));
}

#[test]
fn session_ids_are_random() {
    let ids: Vec<String> = (0..8).map(|_| nanoid().unwrap()).collect();
    for (i, id) in ids.iter().enumerate() {
        assert!(u128::from_str_radix(id, 16).is_ok());
        assert_eq!(*id, id.to_lowercase());
        assert!(!ids[..i].contains(id));
    }
}

#[test]
fn without_a_name_there_is_no_session() {
    let server = SignalingServer::new(
        |_: &str, _: &str| -> Result<String, String> { panic!("the application was asked") },
        |_: &str, _: &str| Ok::<(), String>(()),
        |_: &str| (),
    );
    assert_eq!(server.answer_offer(&None, "v=0"), http_response(500, "No session ID", "text/plain"));
    let server = SignalingServer::new(
        |id: &str, sdp: &str| Ok::<String, String>(format!("{} {}", id, sdp)),
        |_: &str, _: &str| Ok::<(), String>(()),
        |_: &str| (),
    );
    assert_eq!(
        server.answer_offer(&Some("7f".to_string()), "v=0"),
        offer_response("7f", &Ok("7f v=0".to_string()))
    );
}
