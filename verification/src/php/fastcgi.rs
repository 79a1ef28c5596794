//! The FastCGI wire format: the records a request is sent as, and the reading of the
//! records that answer it.
use vstd::prelude::*;
use vstd::utf8::encode_utf8;
use super::Headers;
use crate::text::{before_first, before_first_char, chars_of, str_uppercase, string_of, to_uppercase};

verus! {

broadcast use vstd::string::group_string_axioms;

pub const FCGI_VERSION_1: u8 = 1;
pub const FCGI_BEGIN_REQUEST: u8 = 1;
pub const FCGI_ABORT_REQUEST: u8 = 2;
pub const FCGI_END_REQUEST: u8 = 3;
pub const FCGI_PARAMS: u8 = 4;
pub const FCGI_STDIN: u8 = 5;
pub const FCGI_STDOUT: u8 = 6;
pub const FCGI_STDERR: u8 = 7;
pub const FCGI_RESPONDER: u16 = 1;
pub const FCGI_KEEP_CONN: u8 = 1;

/// Largest content a single record carries.
pub const MAX_CONTENT_LEN: usize = 65535;

/// `x` (taken modulo 65536) as two big-endian bytes.
pub open spec fn u16_be(x: int) -> Seq<u8> {
    seq![((x / 256) % 256) as u8, (x % 256) as u8]
}

/// Padding that brings `len` bytes of content to a multiple of eight.
pub open spec fn padding_for(len: nat) -> nat {
    ((8 - (len % 8) as int) % 8) as nat
}

/// A record: version 1, its type, request id, content length (modulo 65536), padding
/// length and a reserved byte, then the content and zero padding to a multiple of eight.
pub open spec fn record_bytes(record_type: u8, request_id: u16, content: Seq<u8>) -> Seq<u8> {
    let pad = padding_for(content.len());
    seq![FCGI_VERSION_1, record_type] + u16_be(request_id as int) + u16_be(content.len() as int) + seq![
        pad as u8,
        0u8,
    ] + content + Seq::new(pad, |i: int| 0u8)
}

/// The records that carry `data`, in pieces of at most 65535 bytes (none for no data).
pub open spec fn chunk_records(record_type: u8, request_id: u16, data: Seq<u8>) -> Seq<Seq<u8>>
    decreases data.len(),
{
    if data.len() == 0 {
        Seq::empty()
    } else if data.len() <= MAX_CONTENT_LEN {
        seq![record_bytes(record_type, request_id, data)]
    } else {
        seq![record_bytes(record_type, request_id, data.subrange(0, MAX_CONTENT_LEN as int))] + chunk_records(
            record_type,
            request_id,
            data.subrange(MAX_CONTENT_LEN as int, data.len() as int),
        )
    }
}

/// The records that carry `data`: its pieces, or a single empty record for no data.
pub open spec fn data_records(record_type: u8, request_id: u16, data: Seq<u8>) -> Seq<Seq<u8>> {
    if data.len() == 0 {
        seq![record_bytes(record_type, request_id, Seq::empty())]
    } else {
        chunk_records(record_type, request_id, data)
    }
}

/// The begin-request record: responder role, connection closed after the request.
pub open spec fn begin_request_bytes(request_id: u16) -> Seq<u8> {
    seq![FCGI_VERSION_1, FCGI_BEGIN_REQUEST] + u16_be(request_id as int) + seq![0u8, 8u8, 0u8, 0u8] + seq![
        0u8,
        1u8,
        0u8,
        0u8,
        0u8,
        0u8,
        0u8,
        0u8,
    ]
}

/// The length prefix of a name or value: one byte below 128, otherwise four big-endian
/// bytes of the length (as `u32`) with the top bit set.
pub open spec fn length_prefix(n: usize) -> Seq<u8> {
    if n < 128 {
        seq![n as u8]
    } else {
        let v: u32 = (n as u32) | 0x8000_0000u32;
        seq![(v >> 24u32) as u8, (v >> 16u32) as u8, (v >> 8u32) as u8, v as u8]
    }
}

/// A name-value pair: both length prefixes, then the name and the value.
pub open spec fn pair_bytes(name: Seq<u8>, value: Seq<u8>) -> Seq<u8> {
    length_prefix(name.len() as usize) + length_prefix(value.len() as usize) + name + value
}

/// The pairs of `entries` (each name and value in UTF-8), one after another.
pub open spec fn params_payload(entries: Seq<(String, String)>) -> Seq<u8>
    decreases entries.len(),
{
    if entries.len() == 0 {
        Seq::empty()
    } else {
        params_payload(entries.drop_last()) + pair_bytes(
            encode_utf8(entries.last().0@),
            encode_utf8(entries.last().1@),
        )
    }
}

/// The CGI variable a request header is passed as: its name in upper case with '-' turned
/// into '_', prefixed with "HTTP_" unless it is CONTENT_TYPE or CONTENT_LENGTH.
pub open spec fn header_param_name(name: Seq<char>) -> Seq<char> {
    let upper = str_uppercase(name).map_values(|c: char| if c == '-' { '_' } else { c });
    if upper == "CONTENT_TYPE"@ || upper == "CONTENT_LENGTH"@ {
        upper
    } else {
        "HTTP_"@ + upper
    }
}

/// The header map with each request header added as a CGI variable, in order.
pub open spec fn with_header_params(base: Map<Seq<char>, Seq<char>>, headers: Seq<(String, String)>) -> Map<Seq<char>, Seq<char>>
    decreases headers.len(),
{
    if headers.len() == 0 {
        base
    } else {
        with_header_params(base, headers.drop_last()).insert(
            header_param_name(headers.last().0@),
            headers.last().1@,
        )
    }
}

/// The CGI variables of a request.
pub open spec fn request_params(
    script_path: Seq<char>,
    method: Seq<char>,
    uri: Seq<char>,
    query_string: Seq<char>,
    headers: Seq<(String, String)>,
    remote_addr: Seq<char>,
) -> Map<Seq<char>, Seq<char>> {
    let base = Map::<Seq<char>, Seq<char>>::empty().insert("SCRIPT_FILENAME"@, script_path).insert(
        "REQUEST_METHOD"@,
        method,
    ).insert("REQUEST_URI"@, uri).insert("QUERY_STRING"@, query_string).insert(
        "DOCUMENT_URI"@,
        before_first(uri, '?'),
    ).insert("REMOTE_ADDR"@, remote_addr).insert("REMOTE_PORT"@, "0"@).insert(
        "SERVER_SOFTWARE"@,
        "fe-php/0.1.0"@,
    ).insert("SERVER_PROTOCOL"@, "HTTP/1.1"@).insert("GATEWAY_INTERFACE"@, "CGI/1.1"@);
    with_header_params(base, headers)
}

/// Appends `x` (modulo 65536) as two big-endian bytes.
fn push_u16_be(buf: &mut Vec<u8>, x: usize)
    ensures
        final(buf)@ == old(buf)@ + u16_be(x as int),
{
    buf.push(((x / 256) % 256) as u8);
    buf.push((x % 256) as u8);
    assert(final(buf)@ =~= old(buf)@ + u16_be(x as int));
}

/// Appends the bytes of `b`.
fn push_all(buf: &mut Vec<u8>, b: &[u8])
    ensures
        final(buf)@ == old(buf)@ + b@,
{
    let ghost start = buf@;
    let mut i: usize = 0;
    while i < b.len()
        invariant
            i <= b@.len(),
            buf@ == start + b@.subrange(0, i as int),
        decreases b@.len() - i,
    {
        buf.push(b[i]);
        i += 1;
        assert(buf@ =~= start + b@.subrange(0, i as int));
    }
    assert(b@.subrange(0, b@.len() as int) =~= b@);
}

/// The begin-request record.
pub fn build_begin_request(request_id: u16) -> (r: Vec<u8>)
    ensures
        r@ == begin_request_bytes(request_id),
{
    let mut buf: Vec<u8> = Vec::new();
    buf.push(FCGI_VERSION_1);
    buf.push(FCGI_BEGIN_REQUEST);
    push_u16_be(&mut buf, request_id as usize);
    push_u16_be(&mut buf, 8);
    buf.push(0);
    buf.push(0);
    push_u16_be(&mut buf, FCGI_RESPONDER as usize);
    buf.push(0);
    buf.push(0);
    buf.push(0);
    buf.push(0);
    buf.push(0);
    buf.push(0);
    assert(buf@ =~= begin_request_bytes(request_id));
    buf
}

/// One record carrying `content` (whose length is taken modulo 65536 in the header).
pub fn build_record(record_type: u8, request_id: u16, content: &[u8]) -> (r: Vec<u8>)
    ensures
        r@ == record_bytes(record_type, request_id, content@),
{
    let content_len = content.len();
    let padding_len = (8 - (content_len % 8)) % 8;
    let mut buf: Vec<u8> = Vec::new();
    buf.push(FCGI_VERSION_1);
    buf.push(record_type);
    push_u16_be(&mut buf, request_id as usize);
    push_u16_be(&mut buf, content_len);
    buf.push(padding_len as u8);
    buf.push(0);
    push_all(&mut buf, content);
    let ghost head = buf@;
    let mut k: usize = 0;
    while k < padding_len
        invariant
            k <= padding_len,
            padding_len < 8,
            buf@ == head + Seq::new(k as nat, |i: int| 0u8),
        decreases padding_len - k,
    {
        buf.push(0);
        k += 1;
        assert(buf@ =~= head + Seq::new(k as nat, |i: int| 0u8));
    }
    assert(padding_len == padding_for(content@.len()));
    buf
}

/// The records that carry `data` (see `data_records`).
pub fn build_data_records(record_type: u8, request_id: u16, data: &[u8]) -> (r: Vec<Vec<u8>>)
    ensures
        r@.len() == data_records(record_type, request_id, data@).len(),
        forall|i: int| 0 <= i < r@.len() ==> (#[trigger] r@[i])@ == data_records(record_type, request_id, data@)[i],
{
    let mut records: Vec<Vec<u8>> = Vec::new();
    let mut offset: usize = 0;
    let n = data.len();
    if n == 0 {
        let empty: Vec<u8> = Vec::new();
        records.push(build_record(record_type, request_id, &empty));
        assert(empty@ =~= Seq::<u8>::empty());
        return records;
    }
    proof {
        assert(data@.subrange(0, n as int) =~= data@);
        assert(records@.map_values(|v: Vec<u8>| v@) + chunk_records(record_type, request_id, data@) =~= chunk_records(
            record_type,
            request_id,
            data@,
        ));
    }
    while offset < n
        invariant
            n == data@.len(),
            n > 0,
            offset <= n,
            chunk_records(record_type, request_id, data@) == records@.map_values(|v: Vec<u8>| v@) + chunk_records(
                record_type,
                request_id,
                data@.subrange(offset as int, n as int),
            ),
        decreases n - offset,
    {
        let chunk_len = if MAX_CONTENT_LEN < n - offset { MAX_CONTENT_LEN } else { n - offset };
        let chunk = crate::text::copy_range(data, offset, offset + chunk_len);
        let ghost rest = data@.subrange(offset as int, n as int);
        let ghost before = records@.map_values(|v: Vec<u8>| v@);
        let rec = build_record(record_type, request_id, &chunk);
        records.push(rec);
        proof {
            assert(records@.map_values(|v: Vec<u8>| v@) =~= before.push(rec@));
            assert(rest.subrange(0, chunk_len as int) =~= chunk@);
            if rest.len() <= MAX_CONTENT_LEN {
                assert(rest =~= chunk@);
                assert(data@.subrange((offset + chunk_len) as int, n as int) =~= Seq::<u8>::empty());
                assert(chunk_records(record_type, request_id, Seq::<u8>::empty()) =~= Seq::<Seq<u8>>::empty());
            } else {
                assert(rest.subrange(MAX_CONTENT_LEN as int, rest.len() as int) =~= data@.subrange(
                    (offset + chunk_len) as int,
                    n as int,
                ));
            }
            assert(before + chunk_records(record_type, request_id, rest) =~= before.push(rec@) + chunk_records(
                record_type,
                request_id,
                data@.subrange((offset + chunk_len) as int, n as int),
            ));
        }
        offset += chunk_len;
    }
    proof {
        assert(data@.subrange(n as int, n as int) =~= Seq::<u8>::empty());
        assert(chunk_records(record_type, request_id, Seq::<u8>::empty()) =~= Seq::<Seq<u8>>::empty());
        assert(records@.map_values(|v: Vec<u8>| v@) + Seq::<Seq<u8>>::empty() =~= records@.map_values(|v: Vec<u8>| v@));
    }
    records
}

/// Appends the length prefix of `n`.
fn push_length(buf: &mut Vec<u8>, n: usize)
    ensures
        final(buf)@ == old(buf)@ + length_prefix(n),
{
    if n < 128 {
        buf.push(n as u8);
    } else {
        let v: u32 = (n as u32) | 0x8000_0000u32;
        buf.push((v >> 24u32) as u8);
        buf.push((v >> 16u32) as u8);
        buf.push((v >> 8u32) as u8);
        buf.push(v as u8);
    }
    assert(final(buf)@ =~= old(buf)@ + length_prefix(n));
}

/// Appends one name-value pair.
pub fn encode_name_value_pair(buf: &mut Vec<u8>, name: &str, value: &str)
    ensures
        final(buf)@ == old(buf)@ + pair_bytes(encode_utf8(name@), encode_utf8(value@)),
{
    let name_bytes = name.as_bytes();
    let value_bytes = value.as_bytes();
    push_length(buf, name_bytes.len());
    push_length(buf, value_bytes.len());
    push_all(buf, name_bytes);
    push_all(buf, value_bytes);
    assert(final(buf)@ =~= old(buf)@ + pair_bytes(encode_utf8(name@), encode_utf8(value@)));
}

/// The params records of a request: all its variables as name-value pairs, in the order
/// the map lists them, cut into records.
pub fn build_params_records(request_id: u16, params: &Headers) -> (r: Vec<Vec<u8>>)
    ensures
        r@.len() == data_records(FCGI_PARAMS, request_id, params_payload(params.entries_view())).len(),
        forall|i: int|
            0 <= i < r@.len() ==> (#[trigger] r@[i])@ == data_records(
                FCGI_PARAMS,
                request_id,
                params_payload(params.entries_view()),
            )[i],
{
    let entries = params.entries();
    let mut data: Vec<u8> = Vec::new();
    let mut i: usize = 0;
    while i < entries.len()
        invariant
            i <= entries@.len(),
            entries@ == params.entries_view(),
            data@ == params_payload(entries@.subrange(0, i as int)),
        decreases entries@.len() - i,
    {
        assert(entries@.subrange(0, i + 1).drop_last() =~= entries@.subrange(0, i as int));
        encode_name_value_pair(&mut data, entries[i].0.as_str(), entries[i].1.as_str());
        i += 1;
    }
    assert(entries@.subrange(0, entries@.len() as int) =~= entries@);
    build_data_records(FCGI_PARAMS, request_id, &data)
}

/// The CGI variable name a request header is passed as.
pub fn header_param(name: &str) -> (r: String)
    ensures
        r@ == header_param_name(name@),
{
    let upper = to_uppercase(name);
    let u = chars_of(upper.as_str());
    let mut v: Vec<char> = Vec::new();
    let mut i: usize = 0;
    while i < u.len()
        invariant
            i <= u@.len(),
            v@ == u@.subrange(0, i as int).map_values(|c: char| if c == '-' { '_' } else { c }),
        decreases u@.len() - i,
    {
        let c = u[i];
        v.push(if c == '-' { '_' } else { c });
        i += 1;
        assert(v@ =~= u@.subrange(0, i as int).map_values(|c: char| if c == '-' { '_' } else { c }));
    }
    assert(u@.subrange(0, u@.len() as int) =~= u@);
    let replaced = string_of(&v);
    if replaced == "CONTENT_TYPE".to_string() || replaced == "CONTENT_LENGTH".to_string() {
        replaced
    } else {
        let mut p = chars_of("HTTP_");
        crate::text::append_chars(&mut p, &v);
        string_of(&p)
    }
}

/// The CGI variables of a request (see `request_params`).
pub fn build_params(
    script_path: &str,
    method: &str,
    uri: &str,
    query_string: &str,
    headers: &Headers,
    remote_addr: &str,
) -> (r: Headers)
    ensures
        r@ == request_params(script_path@, method@, uri@, query_string@, headers.entries_view(), remote_addr@),
{
    let mut params = Headers::new();
    params.insert("SCRIPT_FILENAME".to_string(), script_path.to_string());
    params.insert("REQUEST_METHOD".to_string(), method.to_string());
    params.insert("REQUEST_URI".to_string(), uri.to_string());
    params.insert("QUERY_STRING".to_string(), query_string.to_string());
    let u = chars_of(uri);
    let doc = before_first_char(&u, '?');
    params.insert("DOCUMENT_URI".to_string(), string_of(&doc));
    params.insert("REMOTE_ADDR".to_string(), remote_addr.to_string());
    params.insert("REMOTE_PORT".to_string(), "0".to_string());
    params.insert("SERVER_SOFTWARE".to_string(), "fe-php/0.1.0".to_string());
    params.insert("SERVER_PROTOCOL".to_string(), "HTTP/1.1".to_string());
    params.insert("GATEWAY_INTERFACE".to_string(), "CGI/1.1".to_string());
    let ghost base = params@;
    let entries = headers.entries();
    let mut i: usize = 0;
    while i < entries.len()
        invariant
            i <= entries@.len(),
            entries@ == headers.entries_view(),
            params@ == with_header_params(base, entries@.subrange(0, i as int)),
        decreases entries@.len() - i,
    {
        assert(entries@.subrange(0, i + 1).drop_last() =~= entries@.subrange(0, i as int));
        let name = header_param(entries[i].0.as_str());
        params.insert(name, entries[i].1.clone());
        i += 1;
    }
    assert(entries@.subrange(0, entries@.len() as int) =~= entries@);
    params
}

/// The fixed part of a record: what the eight header bytes say.
#[derive(Debug, Clone, Copy, PartialEq, Eq, Structural)]
pub struct RecordHeader {
    pub version: u8,
    pub record_type: u8,
    pub request_id: u16,
    pub content_length: u16,
    pub padding_length: u8,
}

/// Reads a record header from its eight bytes.
pub fn parse_record_header(header: &[u8]) -> (r: RecordHeader)
    requires
        header@.len() == 8,
    ensures
        r.version == header@[0],
        r.record_type == header@[1],
        r.request_id == header@[2] as int * 256 + header@[3] as int,
        r.content_length == header@[4] as int * 256 + header@[5] as int,
        r.padding_length == header@[6],
{
    RecordHeader {
        version: header[0],
        record_type: header[1],
        request_id: (header[2] as u16) * 256 + (header[3] as u16),
        content_length: (header[4] as u16) * 256 + (header[5] as u16),
        padding_length: header[6],
    }
}

/// What to do after reading a record header.
#[derive(Debug, Clone, Copy, PartialEq, Eq, Structural)]
pub enum HeaderAction {
    /// The record belongs to another request: skip this many bytes.
    Skip(usize),
    /// Read this much content and then this much padding.
    Read(usize, usize),
}

/// Why reading a response failed.
#[derive(Debug, Clone, Copy, PartialEq, Eq, Structural)]
pub enum ReadError {
    /// A record of a protocol version other than 1.
    UnsupportedVersion(u8),
}

/// The standard output and error collected while reading the records that answer a request.
#[derive(Debug)]
pub struct ResponseReader {
    expected_request_id: u16,
    stdout: Vec<u8>,
    stderr: Vec<u8>,
    finished: bool,
}

impl ResponseReader {
    /// The request whose records are collected.
    pub closed spec fn request_id(&self) -> u16 {
        self.expected_request_id
    }

    /// Standard output collected so far.
    pub closed spec fn stdout_view(&self) -> Seq<u8> {
        self.stdout@
    }

    /// Standard error collected so far.
    pub closed spec fn stderr_view(&self) -> Seq<u8> {
        self.stderr@
    }

    /// Whether the end-of-request record has been seen.
    pub closed spec fn is_finished(&self) -> bool {
        self.finished
    }

    /// Starts collecting for request `expected_request_id`.
    pub fn new(expected_request_id: u16) -> (r: ResponseReader)
        ensures
            r.request_id() == expected_request_id,
            r.stdout_view().len() == 0,
            r.stderr_view().len() == 0,
            !r.is_finished(),
    {
        ResponseReader { expected_request_id, stdout: Vec::new(), stderr: Vec::new(), finished: false }
    }

    /// What a record header asks for: a version other than 1 is an error; a record of
    /// another request is skipped whole; otherwise its content and padding are read.
    pub fn on_header(&self, header: RecordHeader) -> (r: Result<HeaderAction, ReadError>)
        ensures
            header.version != FCGI_VERSION_1 ==> r == Err::<HeaderAction, ReadError>(
                ReadError::UnsupportedVersion(header.version),
            ),
            header.version == FCGI_VERSION_1 && header.request_id != self.request_id() ==> r == Ok::<
                HeaderAction,
                ReadError,
            >(HeaderAction::Skip((header.content_length + header.padding_length) as usize)),
            header.version == FCGI_VERSION_1 && header.request_id == self.request_id() ==> r == Ok::<
                HeaderAction,
                ReadError,
            >(HeaderAction::Read(header.content_length as usize, header.padding_length as usize)),
    {
        if header.version != FCGI_VERSION_1 {
            return Err(ReadError::UnsupportedVersion(header.version));
        }
        if header.request_id != self.expected_request_id {
            return Ok(HeaderAction::Skip(header.content_length as usize + header.padding_length as usize));
        }
        Ok(HeaderAction::Read(header.content_length as usize, header.padding_length as usize))
    }

    /// Takes in the content of a record of this request: standard output and error are
    /// appended, the end-of-request record finishes the response, other types are ignored.
    pub fn on_record(&mut self, record_type: u8, content: &[u8])
        ensures
            final(self).request_id() == old(self).request_id(),
            final(self).stdout_view() == if record_type == FCGI_STDOUT {
                old(self).stdout_view() + content@
            } else {
                old(self).stdout_view()
            },
            final(self).stderr_view() == if record_type == FCGI_STDERR {
                old(self).stderr_view() + content@
            } else {
                old(self).stderr_view()
            },
            final(self).is_finished() == (old(self).is_finished() || record_type == FCGI_END_REQUEST),
    {
        if record_type == FCGI_STDOUT {
            push_all(&mut self.stdout, content);
        } else if record_type == FCGI_STDERR {
            push_all(&mut self.stderr, content);
        } else if record_type == FCGI_END_REQUEST {
            self.finished = true;
        }
    }

    /// Whether the end-of-request record has been seen.
    pub fn finished(&self) -> (r: bool)
        ensures
            r == self.is_finished(),
    {
        self.finished
    }

    /// The collected standard output and error.
    pub fn into_output(self) -> (r: (Vec<u8>, Vec<u8>))
        ensures
            r.0@ == self.stdout_view(),
            r.1@ == self.stderr_view(),
    {
        (self.stdout, self.stderr)
    }
}

/// A record's eight header bytes read back what it was built with: version 1, its type,
/// request id and content length (content under 65536 bytes) and its padding; the whole
/// record is a multiple of eight bytes long.
pub proof fn lemma_record_header_round_trip(record_type: u8, request_id: u16, content: Seq<u8>)
    requires
        content.len() < 65536,
    ensures
        ({
            let r = record_bytes(record_type, request_id, content);
            &&& r[0] == FCGI_VERSION_1
            &&& r[1] == record_type
            &&& r[2] as int * 256 + r[3] as int == request_id
            &&& r[4] as int * 256 + r[5] as int == content.len()
            &&& r[6] as int == padding_for(content.len())
            &&& r.len() % 8 == 0
            &&& r.subrange(8, 8 + content.len() as int) == content
        }),
{
    let r = record_bytes(record_type, request_id, content);
    let len = content.len() as int;
    let pad = padding_for(content.len());
    lemma_u16_be_round_trip(request_id as int);
    lemma_u16_be_round_trip(len);
    assert(r[2] == u16_be(request_id as int)[0]);
    assert(r[3] == u16_be(request_id as int)[1]);
    assert(r[4] == u16_be(len)[0]);
    assert(r[5] == u16_be(len)[1]);
    assert(pad < 8);
    assert(r[6] == pad as u8);
    assert(r.len() == 8 + len + pad);
    assert((8 + len + pad) % 8 == 0) by {
        vstd::arithmetic::div_mod::lemma_fundamental_div_mod(len, 8);
        let q = len / 8;
        let m = len % 8;
        if m == 0 {
            assert(pad == 0);
            assert(8 + len + pad == 8 * (q + 1)) by (nonlinear_arith)
                requires
                    len == 8 * q + m,
                    m == 0,
                    pad == 0,
            ;
        } else {
            assert(pad == 8 - m);
            assert(8 + len + pad == 8 * (q + 2)) by (nonlinear_arith)
                requires
                    len == 8 * q + m,
                    pad == 8 - m,
            ;
        }
        vstd::arithmetic::div_mod::lemma_mod_multiples_basic(if m == 0 { q + 1 } else { q + 2 }, 8);
    }
    assert(r.subrange(8, 8 + len) =~= content);
}

/// Two big-endian bytes of a number under 65536 give the number back.
proof fn lemma_u16_be_round_trip(x: int)
    requires
        0 <= x < 65536,
    ensures
        u16_be(x)[0] as int * 256 + u16_be(x)[1] as int == x,
{
    let hi = x / 256;
    let lo = x % 256;
    vstd::arithmetic::div_mod::lemma_fundamental_div_mod(x, 256);
    assert(0 <= hi < 256) by {
        vstd::arithmetic::div_mod::lemma_div_is_ordered(x, 65535, 256);
    }
    vstd::arithmetic::div_mod::lemma_small_mod(hi as nat, 256);
    vstd::arithmetic::div_mod::lemma_small_mod(lo as nat, 256);
    assert(u16_be(x)[0] as int == hi);
    assert(u16_be(x)[1] as int == lo);
}

/// No request header becomes the QUERY_STRING or REQUEST_URI variable.
proof fn lemma_header_param_not_request_line(name: Seq<char>)
    ensures
        header_param_name(name) != "QUERY_STRING"@,
        header_param_name(name) != "REQUEST_URI"@,
{
    reveal_strlit("QUERY_STRING");
    reveal_strlit("REQUEST_URI");
    reveal_strlit("CONTENT_TYPE");
    reveal_strlit("CONTENT_LENGTH");
    reveal_strlit("HTTP_");
    let upper = str_uppercase(name).map_values(|c: char| if c == '-' { '_' } else { c });
    if upper == "CONTENT_TYPE"@ || upper == "CONTENT_LENGTH"@ {
        assert(upper[0] == 'C');
        assert("QUERY_STRING"@[0] == 'Q');
        assert("REQUEST_URI"@[0] == 'R');
    } else {
        let h = "HTTP_"@ + upper;
        assert(h[0] == 'H');
        assert("QUERY_STRING"@[0] == 'Q');
        assert("REQUEST_URI"@[0] == 'R');
    }
}

/// Request headers leave the QUERY_STRING and REQUEST_URI variables as they were.
proof fn lemma_header_params_keep_request_line(base: Map<Seq<char>, Seq<char>>, headers: Seq<(String, String)>)
    ensures
        base.dom().contains("QUERY_STRING"@) ==> with_header_params(base, headers).dom().contains("QUERY_STRING"@)
            && with_header_params(base, headers)["QUERY_STRING"@] == base["QUERY_STRING"@],
        base.dom().contains("REQUEST_URI"@) ==> with_header_params(base, headers).dom().contains("REQUEST_URI"@)
            && with_header_params(base, headers)["REQUEST_URI"@] == base["REQUEST_URI"@],
    decreases headers.len(),
{
    if headers.len() > 0 {
        lemma_header_params_keep_request_line(base, headers.drop_last());
        lemma_header_param_not_request_line(headers.last().0@);
    }
}

/// CGI-variable law: whatever the request headers, the variables passed to PHP give the
/// query string exactly as the `query_string` argument and the request URI exactly as the
/// `uri` argument.
pub proof fn lemma_request_params_query_and_uri(
    script_path: Seq<char>,
    method: Seq<char>,
    uri: Seq<char>,
    query_string: Seq<char>,
    headers: Seq<(String, String)>,
    remote_addr: Seq<char>,
)
    ensures
        ({
            let p = request_params(script_path, method, uri, query_string, headers, remote_addr);
            &&& p.dom().contains("QUERY_STRING"@)
            &&& p["QUERY_STRING"@] == query_string
            &&& p.dom().contains("REQUEST_URI"@)
            &&& p["REQUEST_URI"@] == uri
        }),
{
    reveal_strlit("QUERY_STRING");
    reveal_strlit("REQUEST_URI");
    reveal_strlit("SCRIPT_FILENAME");
    reveal_strlit("REQUEST_METHOD");
    reveal_strlit("DOCUMENT_URI");
    reveal_strlit("REMOTE_ADDR");
    reveal_strlit("REMOTE_PORT");
    reveal_strlit("SERVER_SOFTWARE");
    reveal_strlit("SERVER_PROTOCOL");
    reveal_strlit("GATEWAY_INTERFACE");
    let base = Map::<Seq<char>, Seq<char>>::empty().insert("SCRIPT_FILENAME"@, script_path).insert(
        "REQUEST_METHOD"@,
        method,
    ).insert("REQUEST_URI"@, uri).insert("QUERY_STRING"@, query_string).insert(
        "DOCUMENT_URI"@,
        before_first(uri, '?'),
    ).insert("REMOTE_ADDR"@, remote_addr).insert("REMOTE_PORT"@, "0"@).insert(
        "SERVER_SOFTWARE"@,
        "fe-php/0.1.0"@,
    ).insert("SERVER_PROTOCOL"@, "HTTP/1.1"@).insert("GATEWAY_INTERFACE"@, "CGI/1.1"@);
    assert("DOCUMENT_URI"@[0] != "QUERY_STRING"@[0] && "DOCUMENT_URI"@[0] != "REQUEST_URI"@[0]);
    assert("REMOTE_ADDR"@[0] != "QUERY_STRING"@[0] && "REMOTE_ADDR"@[2] != "REQUEST_URI"@[2]);
    assert("REMOTE_PORT"@[0] != "QUERY_STRING"@[0] && "REMOTE_PORT"@[2] != "REQUEST_URI"@[2]);
    assert("SERVER_SOFTWARE"@[0] != "QUERY_STRING"@[0] && "SERVER_SOFTWARE"@[0] != "REQUEST_URI"@[0]);
    assert("SERVER_PROTOCOL"@[0] != "QUERY_STRING"@[0] && "SERVER_PROTOCOL"@[0] != "REQUEST_URI"@[0]);
    assert("GATEWAY_INTERFACE"@[0] != "QUERY_STRING"@[0] && "GATEWAY_INTERFACE"@[0] != "REQUEST_URI"@[0]);
    assert("QUERY_STRING"@[0] != "REQUEST_URI"@[0]);
    assert("DOCUMENT_URI"@ != "QUERY_STRING"@ && "DOCUMENT_URI"@ != "REQUEST_URI"@);
    assert("REMOTE_ADDR"@ != "QUERY_STRING"@ && "REMOTE_ADDR"@ != "REQUEST_URI"@);
    assert("REMOTE_PORT"@ != "QUERY_STRING"@ && "REMOTE_PORT"@ != "REQUEST_URI"@);
    assert("SERVER_SOFTWARE"@ != "QUERY_STRING"@ && "SERVER_SOFTWARE"@ != "REQUEST_URI"@);
    assert("SERVER_PROTOCOL"@ != "QUERY_STRING"@ && "SERVER_PROTOCOL"@ != "REQUEST_URI"@);
    assert("GATEWAY_INTERFACE"@ != "QUERY_STRING"@ && "GATEWAY_INTERFACE"@ != "REQUEST_URI"@);
    assert("QUERY_STRING"@ != "REQUEST_URI"@);
    assert(base["QUERY_STRING"@] == query_string);
    assert(base["REQUEST_URI"@] == uri);
    lemma_header_params_keep_request_line(base, headers);
}

} // verus!
