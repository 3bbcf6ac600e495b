//! Serving the fingerprint of the TLS certificate over plain HTTP.
//!
//! A browser that connects to a server with a self-signed certificate fetches
//! `/certificate.sha256` first.

use crate::signaling::{
    body_part, client_reads, field, head_lines, http_response, is_number, lemma_head_ends, lemma_head_line,
    lemma_reads, one_line, response,
};
use crate::text::{chars_of, lossy, lossy_text, same_text, split_words, text_of, words};
use vstd::prelude::*;

verus! {

/// The first line of a text: what comes before the first line feed.
pub open spec fn first_line(s: Seq<char>) -> Seq<char>
    decreases s.len(),
{
    if s.len() == 0 || s[0] == '\n' {
        Seq::empty()
    } else {
        seq![s[0]] + first_line(s.drop_first())
    }
}

/// The path that a request asks for: the second word of its first line, empty
/// where there is none.
pub open spec fn requested_path(request: Seq<char>) -> Seq<char> {
    let parts = words(first_line(request));
    if parts.len() >= 2 {
        parts[1]
    } else {
        Seq::empty()
    }
}

/// The response to a request that asks for anything but the fingerprint.
pub open spec fn not_found() -> Seq<char> {
    "HTTP/1.1 404 Not Found\r\nContent-Length: 0\r\nConnection: close\r\n\r\n"@
}

/// The response to a request: the first fingerprint, if there is one, to the one
/// path that there is.
pub open spec fn reply(request: Seq<char>, fingerprints: Seq<String>) -> Seq<char> {
    if requested_path(request) == "/certificate.sha256"@ {
        response(
            200,
            if fingerprints.len() > 0 {
                fingerprints[0]@
            } else {
                ""@
            },
            "text/plain"@,
        )
    } else {
        not_found()
    }
}

fn first_line_of(s: &str) -> (r: String)
    ensures
        r@ == first_line(s@),
{
    let chars = chars_of(s);
    let mut end: usize = 0;
    assert(chars@.skip(0) =~= chars@);
    assert(chars@.take(0) + first_line(chars@.skip(0)) =~= first_line(chars@));
    while end < chars.len() && chars[end] != '\n'
        invariant
            end <= chars@.len(),
            chars@ == s@,
            first_line(s@) == chars@.take(end as int) + first_line(chars@.skip(end as int)),
        decreases chars@.len() - end,
    {
        proof {
            let rest = chars@.skip(end as int);
            assert(rest.drop_first() =~= chars@.skip(end + 1));
            assert(chars@.take(end as int) + (seq![rest[0]] + first_line(rest.drop_first()))
                =~= chars@.take(end + 1) + first_line(chars@.skip(end + 1)));
        }
        end += 1;
    }
    proof {
        assert(first_line(chars@.skip(end as int)) =~= Seq::<char>::empty());
        assert(chars@.subrange(0, end as int) =~= first_line(s@));
    }
    text_of(&chars, 0, end)
}

/// The response to a request, given its text.
pub fn certificate_reply(request: &str, fingerprints: &Vec<String>) -> (r: String)
    ensures
        r@ == reply(request@, fingerprints@),
{
    let line = first_line_of(request);
    let parts = split_words(line.as_str());
    assert(parts@.len() == parts@.map_values(|w: String| w@).len());
    if parts.len() >= 2 {
        assert(parts@[1]@ == parts@.map_values(|w: String| w@)[1]);
        if same_text(parts[1].as_str(), "/certificate.sha256") {
            if fingerprints.len() > 0 {
                return http_response(200, fingerprints[0].as_str(), "text/plain");
            } else {
                return http_response(200, "", "text/plain");
            }
        }
    } else {
        proof {
            reveal_strlit("/certificate.sha256");
            assert("/certificate.sha256"@.len() == 19);
        }
    }
    "HTTP/1.1 404 Not Found\r\nContent-Length: 0\r\nConnection: close\r\n\r\n".to_string()
}

/// The response to what was read of a request.
pub fn certificate_response(request: &[u8], fingerprints: &Vec<String>) -> (r: String)
    ensures
        r@ == reply(lossy(request@), fingerprints@),
        vstd::utf8::valid_utf8(request@) ==> r@ == reply(
            vstd::utf8::decode_utf8(request@),
            fingerprints@,
        ),
{
    let text = lossy_text(request);
    certificate_reply(text.as_str(), fingerprints)
}

// Laws

/// The first line of a text ends before its first line feed, or with the text.
pub proof fn law_first_line(line: Seq<char>, rest: Seq<char>)
    requires
        !line.contains('\n'),
    ensures
        first_line(line) == line,
        first_line(line + seq!['\n'] + rest) == line,
    decreases line.len(),
{
    let all = line + seq!['\n'] + rest;
    if line.len() == 0 {
        assert(all[0] == '\n');
        assert(first_line(line) =~= line);
        assert(first_line(all) =~= line);
    } else {
        assert(line.contains(line[0]));
        let tail = line.drop_first();
        assert(!tail.contains('\n')) by {
            if tail.contains('\n') {
                let k = tail.index_of('\n');
                assert(line[k + 1] == '\n');
            }
        }
        law_first_line(tail, rest);
        assert(all[0] == line[0]);
        assert(all.drop_first() =~= tail + seq!['\n'] + rest);
        assert(seq![line[0]] + tail =~= line);
    }
}

/// Whether a client reads that nothing was found, and that nothing follows.
pub open spec fn client_finds_nothing(text: Seq<char>) -> bool {
    let lines = head_lines(text);
    let status = words(lines[0]);
    &&& lines.len() > 0
    &&& status.len() >= 3
    &&& status[0] == "HTTP/1.1"@
    &&& is_number(status[1], 404)
    &&& field(lines, "Content-Length"@) matches Some(n) && is_number(n, 0)
    &&& field(lines, "Connection"@) == Some("close"@)
    &&& body_part(text).len() == 0
}

proof fn lemma_not_found()
    ensures
        client_finds_nothing(not_found()),
{
    reveal_strlit("HTTP/1.1 404 Not Found\r\nContent-Length: 0\r\nConnection: close\r\n\r\n");
    reveal_strlit("HTTP/1.1");
    reveal_strlit("Content-Length");
    reveal_strlit("Connection");
    reveal_strlit("close");
    let nl = seq!['\r', '\n'];
    let sep = seq![':', ' '];
    let version = "HTTP/1.1"@;
    let number = seq!['4', '0', '4'];
    let phrase = seq!['N', 'o', 't', ' ', 'F', 'o', 'u', 'n', 'd'];
    let l0 = version + seq![' '] + (number + seq![' '] + phrase);
    let l1 = "Content-Length"@ + sep + seq!['0'];
    let l2 = "Connection"@ + sep + "close"@;
    let t3 = nl + Seq::<char>::empty();
    let t2 = l2 + nl + t3;
    let t1 = l1 + nl + t2;
    let text = not_found();
    assert(text =~= l0 + nl + t1);
    assert(one_line(l0) && one_line(l1) && one_line(l2));
    lemma_head_line(l0, t1);
    lemma_head_line(l1, t2);
    lemma_head_line(l2, t3);
    lemma_head_ends(Seq::empty());
    let lines = head_lines(text);
    assert(lines =~= seq![l0, l1, l2]);
    assert(lines.drop_first() =~= seq![l1, l2]);
    assert(lines.drop_first().drop_first() =~= seq![l2]);
    reveal_with_fuel(field, 4);
    crate::text::lemma_after_prefix("Content-Length"@ + sep, seq!['0']);
    crate::text::lemma_after_prefix("Connection"@ + sep, "close"@);
    crate::signaling::lemma_other_field(l0, "Content-Length"@ + sep, 0);
    crate::signaling::lemma_other_field(l0, "Connection"@ + sep, 0);
    crate::signaling::lemma_other_field(l1, "Connection"@ + sep, 3);
    crate::text::lemma_first_word(version, ' ', number + seq![' '] + phrase);
    crate::text::lemma_first_word(number, ' ', phrase);
    assert(words(phrase).len() > 0) by {
        assert(crate::text::trim_start(phrase) == phrase);
    }
    let w = words(l0);
    assert(w == seq![version] + (seq![number] + words(phrase)));
    assert(w[0] == version);
    assert(w[1] == number);
    reveal_with_fuel(crate::text::digits_value, 4);
    assert(number.drop_last() =~= seq!['4', '0']);
    assert(number.drop_last().drop_last() =~= seq!['4']);
    assert(number.drop_last().drop_last().drop_last() =~= Seq::empty());
    assert(seq!['0'].drop_last() =~= Seq::empty());
    assert(is_number(number, 404));
    assert(is_number(seq!['0'], 0));
}

/// A browser that asks for `/certificate.sha256` reads the first fingerprint,
/// whole and alone; one that asks for anything else reads that there is nothing.
/// What it asks for is the second word of the first line of its request.
pub proof fn law_the_first_fingerprint_is_served(
    request: &str,
    fingerprints: &Vec<String>,
    r: String,
    line: Seq<char>,
    rest: Seq<char>,
)
    requires
        call_ensures(certificate_reply, (request, fingerprints), r),
        !line.contains('\n'),
        request@ == line || request@ == line + seq!['\n'] + rest,
    ensures
        words(line).len() >= 2 && words(line)[1] == "/certificate.sha256"@ && fingerprints@.len() > 0
            ==> {
            &&& client_reads(r@, 200, "text/plain"@, fingerprints@[0]@)
            &&& r@.len() >= fingerprints@[0]@.len()
            &&& r@.skip(r@.len() - fingerprints@[0]@.len()) == fingerprints@[0]@
        },
        words(line).len() >= 2 && words(line)[1] == "/certificate.sha256"@ && fingerprints@.len()
            == 0 ==> client_reads(r@, 200, "text/plain"@, Seq::empty()),
        words(line).len() < 2 || words(line)[1] != "/certificate.sha256"@ ==> client_finds_nothing(
            r@,
        ),
{
    law_first_line(line, rest);
    reveal_strlit("/certificate.sha256");
    reveal_strlit("");
    assert("/certificate.sha256"@.len() == 19);
    assert(""@ =~= Seq::<char>::empty());
    lemma_not_found();
    lemma_reads(200, ""@);
    if fingerprints@.len() > 0 {
        let body = fingerprints@[0]@;
        lemma_reads(200, body);
        let head = crate::signaling::response_head(
            200,
            crate::signaling::byte_len(body),
            "text/plain"@,
        );
        assert((head + body).skip(head.len() as int) =~= body);
    }
}

/// A browser's request, `GET /certificate.sha256 HTTP/1.1` and whatever header
/// fields follow, is answered with the first fingerprint, as its bytes came off
/// the network.
pub proof fn law_requests_off_the_network_are_served(
    request: &[u8],
    fingerprints: &Vec<String>,
    r: String,
    method: Seq<char>,
    rest: Seq<char>,
)
    requires
        call_ensures(certificate_response, (request, fingerprints), r),
        method.len() > 0,
        crate::text::no_space(method),
        vstd::utf8::valid_utf8(request@),
        vstd::utf8::decode_utf8(request@) == method + seq![' '] + ("/certificate.sha256"@ + seq![' ']
            + rest),
        fingerprints@.len() > 0,
    ensures
        client_reads(r@, 200, "text/plain"@, fingerprints@[0]@),
{
    let text = vstd::utf8::decode_utf8(request@);
    let path = "/certificate.sha256"@;
    reveal_strlit("/certificate.sha256");
    let start = method + seq![' '] + (path + seq![' ']);
    lemma_first_line_of(start, rest);
    let tail = first_line(rest);
    assert(text =~= start + rest);
    assert(first_line(text) =~= method + seq![' '] + (path + seq![' '] + tail));
    crate::text::lemma_first_word(method, ' ', path + seq![' '] + tail);
    crate::text::lemma_first_word(path, ' ', tail);
    let w = words(first_line(text));
    assert(w == seq![method] + (seq![path] + words(tail)));
    assert(w[1] == path);
    lemma_reads(200, fingerprints@[0]@);
}

proof fn lemma_first_line_of(start: Seq<char>, rest: Seq<char>)
    requires
        forall|i: int| 0 <= i < start.len() ==> #[trigger] start[i] != '\n',
    ensures
        first_line(start + rest) == start + first_line(rest),
    decreases start.len(),
{
    let all = start + rest;
    if start.len() == 0 {
        assert(all =~= rest);
        assert(start + first_line(rest) =~= first_line(rest));
    } else {
        assert(all[0] == start[0]);
        assert(all.drop_first() =~= start.drop_first() + rest);
        assert forall|i: int| 0 <= i < start.drop_first().len() implies #[trigger] start.drop_first()[i]
            != '\n' by {
            assert(start[i + 1] != '\n');
        }
        lemma_first_line_of(start.drop_first(), rest);
        assert(seq![start[0]] + (start.drop_first() + first_line(rest)) =~= start + first_line(rest));
    }
}

} // verus!
