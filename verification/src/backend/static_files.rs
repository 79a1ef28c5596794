//! Serving files from a directory: which file a URI names, its content type, caching
//! headers and the responses built around it.
use vstd::prelude::*;
use super::{BackendError, ResponseParts};
use crate::config::defaults::default_index_files;
use crate::error::{framed_message, prefixed_message};
use crate::path::{extension, extension_of, join, join_path, path_starts_with, path_within};
use crate::php::Headers;
use crate::text::{
    before_first, before_first_char, chars_of, decimal, decimal_string, hex_chars, hex_lower,
    string_of, trim_start_char, trim_start_chars,
};

verus! {

broadcast use vstd::string::group_string_axioms;

/// What `urlencoding::decode` yields for this text: the percent-decoded text, or nothing when
/// the decoded bytes are not UTF-8.
pub uninterp spec fn url_decoded(s: Seq<char>) -> Option<Seq<char>>;

/// `urlencoding::decode`: claims its result is the named decoding of `s`; on failure the
/// error's message is returned. What that message says is not stated.
#[verifier::external_body]
fn url_decode(s: &str) -> (r: Result<String, String>)
    ensures
        r is Ok <==> url_decoded(s@) is Some,
        r matches Ok(d) ==> url_decoded(s@) == Some(d@),
{
    match urlencoding::decode(s) {
        Ok(d) => Ok(d.into_owned()),
        Err(e) => Err(e.to_string()),
    }
}

/// The part of a request URI that names a file: before any '?', without leading '/'.
pub open spec fn uri_file_part(uri: Seq<char>) -> Seq<char> {
    trim_start_char(before_first(uri, '?'), '/')
}

/// The content type sent for a file with this extension.
pub open spec fn mime_type_for(ext: Option<Seq<char>>) -> Seq<char> {
    match ext {
        Some(e) => if e == "html"@ || e == "htm"@ {
            "text/html; charset=utf-8"@
        } else if e == "css"@ {
            "text/css; charset=utf-8"@
        } else if e == "js"@ {
            "application/javascript; charset=utf-8"@
        } else if e == "json"@ {
            "application/json; charset=utf-8"@
        } else if e == "xml"@ {
            "application/xml; charset=utf-8"@
        } else if e == "png"@ {
            "image/png"@
        } else if e == "jpg"@ || e == "jpeg"@ {
            "image/jpeg"@
        } else if e == "gif"@ {
            "image/gif"@
        } else if e == "svg"@ {
            "image/svg+xml"@
        } else if e == "webp"@ {
            "image/webp"@
        } else if e == "ico"@ {
            "image/x-icon"@
        } else if e == "woff"@ {
            "font/woff"@
        } else if e == "woff2"@ {
            "font/woff2"@
        } else if e == "ttf"@ {
            "font/ttf"@
        } else if e == "otf"@ {
            "font/otf"@
        } else if e == "pdf"@ {
            "application/pdf"@
        } else if e == "txt"@ {
            "text/plain; charset=utf-8"@
        } else if e == "mp4"@ {
            "video/mp4"@
        } else if e == "webm"@ {
            "video/webm"@
        } else if e == "mp3"@ {
            "audio/mpeg"@
        } else if e == "wav"@ {
            "audio/wav"@
        } else if e == "zip"@ {
            "application/zip"@
        } else if e == "gz"@ {
            "application/gzip"@
        } else {
            "application/octet-stream"@
        },
        None => "application/octet-stream"@,
    }
}

/// The `Cache-Control` value sent for a file with this extension: fonts a year and
/// immutable, images a day, stylesheets and scripts an hour, HTML never cached, the rest
/// ten minutes.
pub open spec fn cache_control_for(ext: Option<Seq<char>>) -> Seq<char> {
    match ext {
        Some(e) => if e == "woff"@ || e == "woff2"@ || e == "ttf"@ || e == "otf"@ {
            "public, max-age=31536000, immutable"@
        } else if e == "png"@ || e == "jpg"@ || e == "jpeg"@ || e == "gif"@ || e == "webp"@ || e == "ico"@ {
            "public, max-age=86400"@
        } else if e == "css"@ || e == "js"@ {
            "public, max-age=3600"@
        } else if e == "html"@ || e == "htm"@ {
            "no-cache"@
        } else {
            "public, max-age=600"@
        },
        None => "public, max-age=600"@,
    }
}

/// The entity tag of a file: its size and modification time (seconds since the epoch, 0
/// when unknown) in lower-case hexadecimal, joined by '-' and quoted.
pub open spec fn etag_for(size: u64, modified_secs: u64) -> Seq<char> {
    seq!['"'] + hex_lower(size as nat) + seq!['-'] + hex_lower(modified_secs as nat) + seq!['"']
}

/// Serves files under a root directory.
#[derive(Debug, Clone)]
pub struct StaticBackend {
    root: String,
    index_files: Vec<String>,
}

impl StaticBackend {
    /// The root directory.
    pub closed spec fn root_view(&self) -> Seq<char> {
        self.root@
    }

    /// The index files looked for in a directory, in order.
    pub closed spec fn index_view(&self) -> Seq<Seq<char>> {
        self.index_files@.map_values(|s: String| s@)
    }

    /// Serves the files under `root`, with index.html and index.htm as index files.
    pub fn new(root: String) -> (r: StaticBackend)
        ensures
            r.root_view() == root@,
            r.index_view() == seq!["index.html"@, "index.htm"@],
    {
        let r = StaticBackend { root, index_files: default_index_files() };
        assert(r.index_view() =~= seq!["index.html"@, "index.htm"@]);
        r
    }

    /// The same backend with other index files.
    pub fn with_index_files(self, index_files: Vec<String>) -> (r: StaticBackend)
        ensures
            r.root_view() == self.root_view(),
            r.index_view() == index_files@.map_values(|s: String| s@),
    {
        StaticBackend { root: self.root, index_files }
    }

    /// The root directory.
    pub fn root(&self) -> (r: &str)
        ensures
            r@ == self.root_view(),
    {
        self.root.as_str()
    }

    /// The file a request URI names, relative to the root: the part before any '?', without
    /// leading '/', percent-decoded. Text that does not decode to UTF-8 is an error.
    pub fn requested_path(&self, uri: &str) -> (r: Result<String, BackendError>)
        ensures
            match url_decoded(uri_file_part(uri@)) {
                Some(d) => r matches Ok(p) && p@ == d,
                None => r matches Err(BackendError::Other(m)) && crate::text::seq_starts_with(
                    m@,
                    "Invalid URL encoding: "@,
                ),
            },
    {
        let u = chars_of(uri);
        let before = before_first_char(&u, '?');
        let trimmed = trim_start_chars(&before, '/');
        let part = string_of(&trimmed);
        match url_decode(part.as_str()) {
            Ok(d) => Ok(d),
            Err(msg) => {
                let m = prefixed_message("Invalid URL encoding: ", msg.as_str());
                proof {
                    assert(m@.subrange(0, "Invalid URL encoding: "@.len() as int) =~= "Invalid URL encoding: "@);
                }
                Err(BackendError::Other(m))
            },
        }
    }

    /// Where the file named by `relative` is expected: under the root, unless `relative` is
    /// itself absolute.
    pub fn candidate_path(&self, relative: &str) -> (r: String)
        ensures
            r@ == join_path(self.root_view(), relative@),
    {
        join(self.root.as_str(), relative)
    }

    /// Accepts a resolved (canonical) path only if it lies under the root.
    pub fn confine(&self, canonical: &str) -> (r: Result<String, BackendError>)
        ensures
            path_starts_with(canonical@, self.root_view()) ==> (r matches Ok(p) && p@ == canonical@),
            !path_starts_with(canonical@, self.root_view()) ==> (r matches Err(BackendError::Other(m)) && m@
                == "Path traversal attempt detected: '"@ + canonical@ + "' is outside root '"@ + self.root_view()
                + "'"@),
    {
        if path_within(canonical, self.root.as_str()) {
            Ok(canonical.to_string())
        } else {
            let mut m = framed_message("Path traversal attempt detected: '", canonical, "' is outside root '");
            let tail = framed_message("", self.root.as_str(), "'");
            proof {
                reveal_strlit("");
                assert(""@ + self.root_view() =~= self.root_view());
            }
            m.append(tail.as_str());
            Err(BackendError::Other(m))
        }
    }

    /// The paths tried, in order, for a request that names a directory.
    pub fn index_candidates(&self, dir: &str) -> (r: Vec<String>)
        ensures
            r@.len() == self.index_view().len(),
            forall|i: int| 0 <= i < r@.len() ==> (#[trigger] r@[i])@ == join_path(dir@, self.index_view()[i]),
    {
        let mut out: Vec<String> = Vec::new();
        let mut i: usize = 0;
        while i < self.index_files.len()
            invariant
                i <= self.index_files@.len(),
                out@.len() == i,
                forall|j: int| 0 <= j < i ==> (#[trigger] out@[j])@ == join_path(dir@, self.index_files@[j]@),
            decreases self.index_files@.len() - i,
        {
            out.push(join(dir, self.index_files[i].as_str()));
            i += 1;
        }
        out
    }

    /// The error reported when a directory has none of the index files.
    pub fn no_index_error(dir: &str) -> (r: BackendError)
        ensures
            r matches BackendError::NotFound(m) && m@ == "No index file found in directory: "@ + dir@,
    {
        BackendError::NotFound(prefixed_message("No index file found in directory: ", dir))
    }

    /// Whether a request method may be served: only GET and HEAD.
    pub fn method_allowed(method: &str) -> (r: bool)
        ensures
            r == (method@ == "GET"@ || method@ == "HEAD"@),
    {
        let m = method.to_string();
        m == "GET".to_string() || m == "HEAD".to_string()
    }

    /// The 405 response to any other method.
    pub fn method_not_allowed() -> (r: ResponseParts)
        ensures
            r.status_code == 405,
            r.headers@ == Map::<Seq<char>, Seq<char>>::empty().insert("Allow"@, "GET, HEAD"@).insert(
                "Content-Type"@,
                "text/plain"@,
            ),
            r.body@ == "Method Not Allowed"@.map_values(|c: char| c as u8),
    {
        let mut headers = Headers::new();
        headers.insert("Allow".to_string(), "GET, HEAD".to_string());
        headers.insert("Content-Type".to_string(), "text/plain".to_string());
        let body: Vec<u8> = vec![77u8, 101, 116, 104, 111, 100, 32, 78, 111, 116, 32, 65, 108, 108, 111, 119, 101, 100];
        proof {
            reveal_strlit("Method Not Allowed");
            assert(body@ =~= "Method Not Allowed"@.map_values(|c: char| c as u8));
        }
        ResponseParts { status_code: 405, headers, body }
    }

    /// The content type of a file.
    pub fn guess_mime_type(&self, path: &str) -> (r: &'static str)
        ensures
            r@ == mime_type_for(extension(path@)),
    {
        match extension_of(path) {
            None => "application/octet-stream",
            Some(e) => {
                let e = string_of(&e);
                if e == "html".to_string() || e == "htm".to_string() {
                    "text/html; charset=utf-8"
                } else if e == "css".to_string() {
                    "text/css; charset=utf-8"
                } else if e == "js".to_string() {
                    "application/javascript; charset=utf-8"
                } else if e == "json".to_string() {
                    "application/json; charset=utf-8"
                } else if e == "xml".to_string() {
                    "application/xml; charset=utf-8"
                } else if e == "png".to_string() {
                    "image/png"
                } else if e == "jpg".to_string() || e == "jpeg".to_string() {
                    "image/jpeg"
                } else if e == "gif".to_string() {
                    "image/gif"
                } else if e == "svg".to_string() {
                    "image/svg+xml"
                } else if e == "webp".to_string() {
                    "image/webp"
                } else if e == "ico".to_string() {
                    "image/x-icon"
                } else if e == "woff".to_string() {
                    "font/woff"
                } else if e == "woff2".to_string() {
                    "font/woff2"
                } else if e == "ttf".to_string() {
                    "font/ttf"
                } else if e == "otf".to_string() {
                    "font/otf"
                } else if e == "pdf".to_string() {
                    "application/pdf"
                } else if e == "txt".to_string() {
                    "text/plain; charset=utf-8"
                } else if e == "mp4".to_string() {
                    "video/mp4"
                } else if e == "webm".to_string() {
                    "video/webm"
                } else if e == "mp3".to_string() {
                    "audio/mpeg"
                } else if e == "wav".to_string() {
                    "audio/wav"
                } else if e == "zip".to_string() {
                    "application/zip"
                } else if e == "gz".to_string() {
                    "application/gzip"
                } else {
                    "application/octet-stream"
                }
            },
        }
    }

    /// The `Cache-Control` value for a file.
    pub fn get_cache_control(&self, path: &str) -> (r: String)
        ensures
            r@ == cache_control_for(extension(path@)),
    {
        match extension_of(path) {
            None => "public, max-age=600".to_string(),
            Some(e) => {
                let e = string_of(&e);
                if e == "woff".to_string() || e == "woff2".to_string() || e == "ttf".to_string() || e
                    == "otf".to_string() {
                    "public, max-age=31536000, immutable".to_string()
                } else if e == "png".to_string() || e == "jpg".to_string() || e == "jpeg".to_string() || e
                    == "gif".to_string() || e == "webp".to_string() || e == "ico".to_string() {
                    "public, max-age=86400".to_string()
                } else if e == "css".to_string() || e == "js".to_string() {
                    "public, max-age=3600".to_string()
                } else if e == "html".to_string() || e == "htm".to_string() {
                    "no-cache".to_string()
                } else {
                    "public, max-age=600".to_string()
                }
            },
        }
    }

    /// The entity tag of a file of `size` bytes last modified at `modified_secs`.
    pub fn etag(size: u64, modified_secs: u64) -> (r: String)
        ensures
            r@ == etag_for(size, modified_secs),
    {
        let mut v: Vec<char> = Vec::new();
        v.push('"');
        let a = hex_chars(size);
        crate::text::append_chars(&mut v, &a);
        v.push('-');
        let b = hex_chars(modified_secs);
        crate::text::append_chars(&mut v, &b);
        v.push('"');
        proof {
            assert(v@ =~= etag_for(size, modified_secs));
        }
        string_of(&v)
    }

    /// The headers sent with a file: content type, length and caching; for a full response
    /// (not HEAD) also the entity tag from the file's size and modification time.
    pub fn file_headers(&self, path: &str, content_length: u64, etag: Option<(u64, u64)>) -> (r: Headers)
        ensures
            r@ == {
                let base = Map::<Seq<char>, Seq<char>>::empty().insert("Content-Type"@, mime_type_for(extension(path@))).insert(
                    "Content-Length"@,
                    decimal(content_length as nat),
                ).insert("Cache-Control"@, cache_control_for(extension(path@)));
                match etag {
                    Some((size, modified)) => base.insert("ETag"@, etag_for(size, modified)),
                    None => base,
                }
            },
    {
        let mut headers = Headers::new();
        headers.insert("Content-Type".to_string(), self.guess_mime_type(path).to_string());
        headers.insert("Content-Length".to_string(), decimal_string(content_length));
        headers.insert("Cache-Control".to_string(), self.get_cache_control(path));
        match etag {
            Some((size, modified)) => {
                headers.insert("ETag".to_string(), Self::etag(size, modified));
            },
            None => {},
        }
        headers
    }
}

/// HTML law: any file whose extension is "html" or "htm" is served as
/// "text/html; charset=utf-8", whatever the rest of its path.
pub proof fn lemma_html_files_are_html(path: Seq<char>)
    requires
        extension(path) == Some("html"@) || extension(path) == Some("htm"@),
    ensures
        mime_type_for(extension(path)) == "text/html; charset=utf-8"@,
{
}

} // verus!
