use moq_boy::fingerprint::{certificate_reply, certificate_response};

const OK: &str = "HTTP/1.1 200 OK\r\nContent-Type: text/plain\r\nAccess-Control-Allow-Origin: *\r\nContent-Length: 4\r\nConnection: close\r\n\r\nabcd";
const MISSING: &str = "HTTP/1.1 404 Not Found\r\nContent-Length: 0\r\nConnection: close\r\n\r\n";

#[test]
fn the_first_fingerprint_is_served() {
    let prints = vec!["abcd".to_string(), "ef01".to_string()];
    assert_eq!(certificate_reply("GET /certificate.sha256 HTTP/1.1\r\nHost: x\r\n\r\n", &prints), OK);
    assert_eq!(certificate_response(b"GET /certificate.sha256 HTTP/1.1\r\n\r\n", &prints), OK);
    // The method does not matter.
    assert_eq!(certificate_reply("x /certificate.sha256", &prints), OK);
}

#[test]
fn without_a_certificate_the_fingerprint_is_empty() {
    let r = certificate_reply("GET /certificate.sha256 HTTP/1.1", &vec![]);
    assert!(r.starts_with("HTTP/1.1 200 OK\r\n"));
    assert!(r.ends_with("Content-Length: 0\r\nConnection: close\r\n\r\n"));
}

#[test]
fn anything_else_is_not_found() {
    let prints = vec!["abcd".to_string()];
    assert_eq!(certificate_reply("GET / HTTP/1.1", &prints), MISSING);
    assert_eq!(certificate_reply("", &prints), MISSING);
    assert_eq!(certificate_reply("GET", &prints), MISSING);
    // Only the first line counts.
    assert_eq!(certificate_reply("GET / HTTP/1.1\nGET /certificate.sha256", &prints), MISSING);
    assert_eq!(certificate_reply("GET\n/certificate.sha256", &prints), MISSING);
    assert_eq!(certificate_response(b"GET /certificate.sha256\xff HTTP/1.1", &prints), MISSING);
}
