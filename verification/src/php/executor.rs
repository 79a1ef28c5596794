//! Splitting PHP output into status, headers and body, and resolving request URIs to scripts.
use vstd::prelude::*;
use super::Headers;
use crate::backend::BackendError;
use crate::error::framed_message;
use crate::path::{join, join_path, path_starts_with, path_within};
use crate::text::{append_chars, before_first, before_first_char, trim_start_char, trim_start_chars};
use crate::text::{
    chars_end_with, chars_of, eq_ignore_ascii_case, eq_ignore_ascii_case_spec, first_word,
    first_word_chars, from_utf8_lossy, parse_u16_chars, parse_u16_spec, seq_ends_with,
    seq_starts_with, split_once_char, split_once_spec, string_of, trim_white, trim_white_chars,
    utf8_lossy,
};

verus! {

broadcast use vstd::string::group_string_axioms;

/// Index of the first occurrence of `needle` in `haystack`.
pub open spec fn first_occurrence(haystack: Seq<u8>, needle: Seq<u8>) -> Option<int>
    decreases haystack.len(),
{
    if needle.len() > haystack.len() {
        None
    } else if haystack.subrange(0, needle.len() as int) == needle {
        Some(0)
    } else if haystack.len() == 0 {
        None
    } else {
        match first_occurrence(haystack.drop_first(), needle) {
            Some(i) => Some(i + 1),
            None => None,
        }
    }
}

/// `memchr::memmem::find`: claims, as its documentation says, to return the index of the
/// first occurrence of `needle` in `haystack`, or nothing when there is none.
#[verifier::external_body]
fn find_bytes(haystack: &[u8], needle: &[u8]) -> (r: Option<usize>)
    ensures
        match r {
            Some(i) => first_occurrence(haystack@, needle@) == Some(i as int),
            None => first_occurrence(haystack@, needle@) is None,
        },
{
    memchr::memmem::find(haystack, needle)
}

/// The pieces of `b` between the `sep` bytes (empty pieces included), as `<[u8]>::split` yields.
pub open spec fn split_on(b: Seq<u8>, sep: u8) -> Seq<Seq<u8>>
    decreases b.len(),
{
    if b.len() == 0 {
        seq![Seq::empty()]
    } else {
        let prev = split_on(b.drop_last(), sep);
        if b.last() == sep {
            prev.push(Seq::empty())
        } else {
            prev.update(prev.len() - 1, prev.last().push(b.last()))
        }
    }
}

/// The status code and header map read so far.
pub type HeaderState = (u16, Map<Seq<char>, Seq<char>>);

/// The effect of one header line: empty lines and lines without `:` change nothing; a
/// `Status` line (name compared ignoring ASCII case) sets the status code to its first word
/// read as a number (200 when it is not one); any other line with a non-empty name sets that
/// header. Name and value are taken with surrounding white space removed.
pub open spec fn apply_header_line(st: HeaderState, line: Seq<u8>) -> HeaderState {
    if line.len() == 0 {
        st
    } else {
        match split_once_spec(utf8_lossy(line), ':') {
            None => st,
            Some((n, v)) => {
                let name = trim_white(n);
                let value = trim_white(v);
                if eq_ignore_ascii_case_spec(name, "Status"@) {
                    match first_word(value) {
                        Some(w) => (
                            match parse_u16_spec(w) {
                                Some(c) => c,
                                None => 200,
                            },
                            st.1,
                        ),
                        None => st,
                    }
                } else if name.len() > 0 {
                    (st.0, st.1.insert(name, value))
                } else {
                    st
                }
            },
        }
    }
}

/// The effect of a sequence of header lines, in order.
pub open spec fn apply_header_lines(st: HeaderState, lines: Seq<Seq<u8>>) -> HeaderState
    decreases lines.len(),
{
    if lines.len() == 0 {
        st
    } else {
        apply_header_line(apply_header_lines(st, lines.drop_last()), lines.last())
    }
}

/// The bytes "\r\n\r\n".
pub open spec fn crlf_crlf() -> Seq<u8> {
    seq![13u8, 10u8, 13u8, 10u8]
}

/// The bytes "\n\n".
pub open spec fn lf_lf() -> Seq<u8> {
    seq![10u8, 10u8]
}

/// Where the header block ends: after the first blank line, found as "\r\n\r\n" (lines
/// split at '\r') or else as "\n\n" (lines split at '\n'); with the line separator.
pub open spec fn response_layout(data: Seq<u8>) -> Option<(u8, int)> {
    match first_occurrence(data, crlf_crlf()) {
        Some(p) => Some((13u8, p + 4)),
        None => match first_occurrence(data, lf_lf()) {
            Some(p) => Some((10u8, p + 2)),
            None => None,
        },
    }
}

/// The header map with a default `Content-Type` unless one is present (in either spelling).
pub open spec fn with_default_content_type(h: Map<Seq<char>, Seq<char>>) -> Map<Seq<char>, Seq<char>> {
    if h.dom().contains("Content-Type"@) || h.dom().contains("content-type"@) {
        h
    } else {
        h.insert("Content-Type"@, "text/html; charset=UTF-8"@)
    }
}

/// Status, headers and body of CGI-style output: the header block up to the first blank
/// line is read line by line; without a blank line everything is body, sent as HTML with
/// status 200.
pub open spec fn parsed_response(data: Seq<u8>) -> (u16, Map<Seq<char>, Seq<char>>, Seq<u8>) {
    match response_layout(data) {
        None => (200, Map::empty().insert("Content-Type"@, "text/html; charset=UTF-8"@), data),
        Some((sep, start)) => {
            let st = apply_header_lines((200, Map::empty()), split_on(data.subrange(0, start), sep));
            (st.0, with_default_content_type(st.1), data.subrange(start, data.len() as int))
        },
    }
}

/// The bytes "HTTP/".
pub open spec fn http_marker() -> Seq<u8> {
    seq![72u8, 84u8, 84u8, 80u8, 47u8]
}

/// The bytes "Status:".
pub open spec fn status_marker() -> Seq<u8> {
    seq![83u8, 116u8, 97u8, 116u8, 117u8, 115u8, 58u8]
}

/// The bytes "Content-Type:".
pub open spec fn content_type_marker() -> Seq<u8> {
    seq![67u8, 111u8, 110u8, 116u8, 101u8, 110u8, 116u8, 45u8, 84u8, 121u8, 112u8, 101u8, 58u8]
}

/// Output of the embedded runtime: read as CGI-style output only when it is at least four
/// bytes long and starts with "HTTP/", "Status:" or "Content-Type:"; otherwise all of it is
/// an HTML body with status 200.
pub open spec fn parsed_php_output(data: Seq<u8>) -> (u16, Map<Seq<char>, Seq<char>>, Seq<u8>) {
    if data.len() < 4 || !seq_starts_with(data, http_marker()) && !seq_starts_with(data, status_marker())
        && !seq_starts_with(data, content_type_marker()) {
        (200, Map::empty().insert("Content-Type"@, "text/html; charset=UTF-8"@), data)
    } else {
        parsed_response(data)
    }
}

/// `s` begins with `p`.
fn bytes_start_with(s: &[u8], p: &[u8]) -> (r: bool)
    ensures
        r == seq_starts_with(s@, p@),
{
    if p.len() > s.len() {
        return false;
    }
    let mut i: usize = 0;
    while i < p.len()
        invariant
            p@.len() <= s@.len(),
            i <= p@.len(),
            forall|j: int| 0 <= j < i ==> s@[j] == p@[j],
        decreases p@.len() - i,
    {
        if s[i] != p[i] {
            assert(s@.subrange(0, p@.len() as int)[i as int] != p@[i as int]);
            return false;
        }
        i += 1;
    }
    assert(s@.subrange(0, p@.len() as int) =~= p@);
    true
}

/// Applies one header line to the status code and headers.
fn apply_line(status: &mut u16, headers: &mut Headers, line: &[u8])
    ensures
        (*final(status), final(headers)@) == apply_header_line((*old(status), old(headers)@), line@),
{
    if line.len() == 0 {
        return;
    }
    let text = from_utf8_lossy(line);
    let chars = chars_of(text.as_str());
    match split_once_char(&chars, ':') {
        None => {},
        Some((n, v)) => {
            let name = trim_white_chars(&n);
            let value = trim_white_chars(&v);
            let status_word = chars_of("Status");
            if eq_ignore_ascii_case(&name, &status_word) {
                match first_word_chars(&value) {
                    Some(w) => {
                        *status = match parse_u16_chars(&w) {
                            Some(c) => c,
                            None => 200,
                        };
                    },
                    None => {},
                }
            } else if name.len() > 0 {
                headers.insert(string_of(&name), string_of(&value));
            }
        },
    }
}

/// Splits CGI-style output into status code, headers and body (see `parsed_response`).
pub fn parse_headers_and_body(data: &[u8]) -> (r: (u16, Headers, Vec<u8>))
    ensures
        (r.0, r.1@, r.2@) == parsed_response(data@),
{
    let crlf2: Vec<u8> = vec![13u8, 10u8, 13u8, 10u8];
    let lf2: Vec<u8> = vec![10u8, 10u8];
    assert(crlf2@ =~= crlf_crlf());
    assert(lf2@ =~= lf_lf());
    let n = data.len();
    let (sep, body_start) = match find_bytes(data, &crlf2) {
        Some(pos) => {
            proof {
                lemma_first_occurrence_bounds(data@, crlf_crlf());
            }
            assert(pos + 4 <= n);
            (13u8, pos + 4)
        },
        None => match find_bytes(data, &lf2) {
            Some(pos) => {
                proof {
                    lemma_first_occurrence_bounds(data@, lf_lf());
                }
                assert(pos + 2 <= n);
                (10u8, pos + 2)
            },
            None => {
                let mut headers = Headers::new();
                headers.insert("Content-Type".to_string(), "text/html; charset=UTF-8".to_string());
                return (200, headers, crate::text::copy_range(data, 0, data.len()));
            },
        },
    };
    let mut status: u16 = 200;
    let mut headers = Headers::new();
    let mut line: Vec<u8> = Vec::new();
    let mut i: usize = 0;
    assert(data@.subrange(0, 0) =~= Seq::<u8>::empty());
    while i < body_start
        invariant
            body_start <= data@.len(),
            i <= body_start,
            (status, headers@) == apply_header_lines(
                (200, Map::empty()),
                split_on(data@.subrange(0, i as int), sep).drop_last(),
            ),
            line@ == split_on(data@.subrange(0, i as int), sep).last(),
            split_on(data@.subrange(0, i as int), sep).len() >= 1,
        decreases body_start - i,
    {
        let b = data[i];
        let ghost pre = data@.subrange(0, i as int);
        let ghost next = data@.subrange(0, i + 1);
        assert(next.drop_last() =~= pre);
        if b == sep {
            apply_line(&mut status, &mut headers, &line);
            line = Vec::new();
            proof {
                let sp = split_on(pre, sep);
                assert(split_on(next, sep) == sp.push(Seq::empty()));
                assert(split_on(next, sep).drop_last() =~= sp);
                assert(sp.drop_last().push(sp.last()) =~= sp);
                assert(line@ =~= Seq::<u8>::empty());
            }
        } else {
            line.push(b);
            proof {
                let sp = split_on(pre, sep);
                assert(split_on(next, sep).drop_last() =~= sp.drop_last());
            }
        }
        i += 1;
    }
    apply_line(&mut status, &mut headers, &line);
    proof {
        let sp = split_on(data@.subrange(0, body_start as int), sep);
        assert(sp.drop_last().push(sp.last()) =~= sp);
        assert(sp.drop_last() =~= sp.drop_last().push(sp.last()).drop_last());
    }
    let has_ct = headers.contains_key("Content-Type") || headers.contains_key("content-type");
    if !has_ct {
        headers.insert("Content-Type".to_string(), "text/html; charset=UTF-8".to_string());
    }
    let body = crate::text::copy_range(data, body_start, data.len());
    (status, headers, body)
}

/// Splits output of the embedded runtime into status code, headers and body (see
/// `parsed_php_output`).
pub fn parse_php_output(data: &[u8]) -> (r: (u16, Headers, Vec<u8>))
    ensures
        (r.0, r.1@, r.2@) == parsed_php_output(data@),
{
    let http: Vec<u8> = vec![72u8, 84u8, 84u8, 80u8, 47u8];
    let status: Vec<u8> = vec![83u8, 116u8, 97u8, 116u8, 117u8, 115u8, 58u8];
    let ctype: Vec<u8> = vec![67u8, 111u8, 110u8, 116u8, 101u8, 110u8, 116u8, 45u8, 84u8, 121u8, 112u8, 101u8, 58u8];
    assert(http@ =~= http_marker());
    assert(status@ =~= status_marker());
    assert(ctype@ =~= content_type_marker());
    if data.len() < 4 || !bytes_start_with(data, &http) && !bytes_start_with(data, &status) && !bytes_start_with(data, &ctype) {
        let mut headers = Headers::new();
        headers.insert("Content-Type".to_string(), "text/html; charset=UTF-8".to_string());
        return (200, headers, crate::text::copy_range(data, 0, data.len()));
    }
    parse_headers_and_body(data)
}

/// Splits a FastCGI response's standard output into status code, headers and body.
pub fn parse_fastcgi_response(data: &[u8]) -> (r: (u16, Headers, Vec<u8>))
    ensures
        (r.0, r.1@, r.2@) == parsed_response(data@),
{
    parse_headers_and_body(data)
}

/// The script a request URI names, relative to the document root: the part before any '?',
/// without leading '/'; "index.php" is appended to an empty or directory path, ".php" to a
/// path not ending in ".php".
pub open spec fn script_relative(uri: Seq<char>) -> Seq<char> {
    let p = trim_start_char(before_first(uri, '?'), '/');
    if p.len() == 0 || p.last() == '/' {
        p + "index.php"@
    } else if !seq_ends_with(p, ".php"@) {
        p + ".php"@
    } else {
        p
    }
}

/// The script path a request URI names under the document root (before resolving links).
pub fn script_candidate(document_root: &str, uri: &str) -> (r: String)
    ensures
        r@ == join_path(document_root@, script_relative(uri@)),
{
    let u = chars_of(uri);
    let before = before_first_char(&u, '?');
    let mut p = trim_start_chars(&before, '/');
    let php = chars_of(".php");
    if p.len() == 0 || p[p.len() - 1] == '/' {
        let idx = chars_of("index.php");
        append_chars(&mut p, &idx);
    } else if !chars_end_with(&p, &php) {
        append_chars(&mut p, &php);
    }
    let rel = string_of(&p);
    join(document_root, rel.as_str())
}

/// Accepts a resolved (canonical) script path only if it lies under the document root.
pub fn confine_to_document_root(canonical: &str, document_root: &str) -> (r: Result<String, BackendError>)
    ensures
        path_starts_with(canonical@, document_root@) ==> (r matches Ok(p) && p@ == canonical@),
        !path_starts_with(canonical@, document_root@) ==> (r matches Err(BackendError::Other(m)) && m@
            == "Path traversal attempt detected: '"@ + canonical@ + "' is outside document root '"@
            + document_root@ + "'"@),
{
    if path_within(canonical, document_root) {
        Ok(canonical.to_string())
    } else {
        let mut m = framed_message("Path traversal attempt detected: '", canonical, "' is outside document root '");
        let tail = framed_message("", document_root, "'");
        proof {
            reveal_strlit("");
            assert(""@ + document_root@ =~= document_root@);
        }
        m.append(tail.as_str());
        Err(BackendError::Other(m))
    }
}

/// The first occurrence lies inside the haystack.
pub proof fn lemma_first_occurrence_bounds(haystack: Seq<u8>, needle: Seq<u8>)
    ensures
        first_occurrence(haystack, needle) matches Some(p) ==> 0 <= p && p + needle.len() <= haystack.len(),
    decreases haystack.len(),
{
    if needle.len() <= haystack.len() && haystack.subrange(0, needle.len() as int) != needle && haystack.len() > 0 {
        lemma_first_occurrence_bounds(haystack.drop_first(), needle);
    }
}

/// Content-type law: in parsed CGI output with a header block, every header the output sent
/// keeps its value (a `Content-Type` sent by the script above all), and the only header
/// added is a `Content-Type` of "text/html; charset=UTF-8", added exactly when the output
/// sent neither "Content-Type" nor "content-type".
pub proof fn lemma_sent_headers_kept(data: Seq<u8>)
    requires
        response_layout(data) is Some,
    ensures
        ({
            let (sep, start) = response_layout(data)->0;
            let sent = apply_header_lines((200, Map::empty()), split_on(data.subrange(0, start), sep)).1;
            let h = parsed_response(data).1;
            let has_type = sent.dom().contains("Content-Type"@) || sent.dom().contains("content-type"@);
            &&& forall|k: Seq<char>| #[trigger] sent.dom().contains(k) ==> h.dom().contains(k) && h[k] == sent[k]
            &&& has_type ==> h.dom() == sent.dom()
            &&& !has_type ==> h.dom() == sent.dom().insert("Content-Type"@)
                && h["Content-Type"@] == "text/html; charset=UTF-8"@
        }),
{
    let (sep, start) = response_layout(data)->0;
    let sent = apply_header_lines((200, Map::empty()), split_on(data.subrange(0, start), sep)).1;
    if !(sent.dom().contains("Content-Type"@) || sent.dom().contains("content-type"@)) {
        assert(sent.insert("Content-Type"@, "text/html; charset=UTF-8"@).dom() =~= sent.dom().insert("Content-Type"@));
    }
}

} // verus!
