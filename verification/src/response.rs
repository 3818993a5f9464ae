//! Content types and the response: how one is built, and the bytes it is
//! sent as.

use crate::errors::{HttpCode, NetError};
use crate::request::{lemma_put, lemma_put_other, lookup, put, HeaderSeq, Headers};
use crate::text::{
    chars_of, decimal, find_last_char, last_position, lowercase, push_decimal, str_equal,
    string_of, take, to_lower,
};
use vstd::prelude::*;
use vstd::string::*;
use vstd::utf8::encode_utf8;

verus! {

/// The kinds of content that the server can name in a response.
#[derive(Clone, Copy, Debug, PartialEq, Eq, Structural)]
pub enum ContentType {
    HTML,
    JSON,
    XML,
    PLAIN,
    CSS,
    JAVASCRIPT,
    JPEG,
    PNG,
    GIF,
    BMP,
    SVG,
    WEBP,
    MP3,
    MP4,
    WAV,
    OGG,
    AVI,
    PDF,
    ZIP,
    TAR,
    GZIP,
    BZIP2,
    WEBM,
    ICO,
    NONE,
    UNKNOWN,
}

impl ContentType {
    /// The MIME name of the content type; empty for `NONE`.
    pub open spec fn mime(self) -> Seq<char> {
        match self {
            ContentType::HTML => "text/html"@,
            ContentType::JSON => "application/json"@,
            ContentType::XML => "application/xml"@,
            ContentType::PLAIN => "text/plain"@,
            ContentType::CSS => "text/css"@,
            ContentType::JAVASCRIPT => "application/javascript"@,
            ContentType::JPEG => "image/jpeg"@,
            ContentType::PNG => "image/png"@,
            ContentType::GIF => "image/gif"@,
            ContentType::BMP => "image/bmp"@,
            ContentType::SVG => "image/svg+xml"@,
            ContentType::WEBP => "image/webp"@,
            ContentType::MP3 => "audio/mpeg"@,
            ContentType::MP4 => "video/mp4"@,
            ContentType::WAV => "audio/wav"@,
            ContentType::OGG => "audio/ogg"@,
            ContentType::AVI => "video/x-msvideo"@,
            ContentType::PDF => "application/pdf"@,
            ContentType::ZIP => "application/zip"@,
            ContentType::TAR => "application/x-tar"@,
            ContentType::GZIP => "application/gzip"@,
            ContentType::BZIP2 => "application/x-bzip2"@,
            ContentType::WEBM => "video/webm"@,
            ContentType::ICO => "image/x-icon"@,
            ContentType::NONE => ""@,
            ContentType::UNKNOWN => "application/octet-stream"@,
        }
    }

    /// The content type that a lower-case file extension stands for.
    pub open spec fn of_lower(l: Seq<char>) -> ContentType {
        if l == "html"@ || l == "htm"@ {
            ContentType::HTML
        } else if l == "json"@ {
            ContentType::JSON
        } else if l == "xml"@ {
            ContentType::XML
        } else if l == "txt"@ {
            ContentType::PLAIN
        } else if l == "css"@ {
            ContentType::CSS
        } else if l == "js"@ {
            ContentType::JAVASCRIPT
        } else if l == "jpeg"@ || l == "jpg"@ {
            ContentType::JPEG
        } else if l == "png"@ {
            ContentType::PNG
        } else if l == "gif"@ {
            ContentType::GIF
        } else if l == "bmp"@ {
            ContentType::BMP
        } else if l == "svg"@ {
            ContentType::SVG
        } else if l == "webp"@ {
            ContentType::WEBP
        } else if l == "mp3"@ {
            ContentType::MP3
        } else if l == "mp4"@ {
            ContentType::MP4
        } else if l == "wav"@ {
            ContentType::WAV
        } else if l == "ogg"@ {
            ContentType::OGG
        } else if l == "avi"@ {
            ContentType::AVI
        } else if l == "pdf"@ {
            ContentType::PDF
        } else if l == "zip"@ {
            ContentType::ZIP
        } else if l == "tar"@ {
            ContentType::TAR
        } else if l == "gz"@ {
            ContentType::GZIP
        } else if l == "bz2"@ {
            ContentType::BZIP2
        } else if l == "webm"@ {
            ContentType::WEBM
        } else if l == "ico"@ {
            ContentType::ICO
        } else if l == ""@ {
            ContentType::NONE
        } else {
            ContentType::UNKNOWN
        }
    }

    /// The content type that a file extension stands for, whatever its
    /// letter case. An extension that is known as it stands is taken so;
    /// any other is looked up in lower case.
    pub open spec fn of_ext(ext: Seq<char>) -> ContentType {
        if Self::of_lower(ext) != ContentType::UNKNOWN {
            Self::of_lower(ext)
        } else {
            Self::of_lower(lowercase(ext))
        }
    }

    /// The name of the file itself: what follows the last slash of a path,
    /// or the whole of a path without slash.
    pub open spec fn file_part(name: Seq<char>) -> Seq<char> {
        if name.contains('/') {
            name.subrange(last_position(name, '/') + 1, name.len() as int)
        } else {
            name
        }
    }

    /// The extension of a file: what follows the last dot of its own name.
    pub open spec fn extension(name: Seq<char>) -> Seq<char> {
        Self::file_part(name).subrange(
            last_position(Self::file_part(name), '.') + 1,
            Self::file_part(name).len() as int,
        )
    }

    /// The content type of a file with the given path: that of its
    /// extension, whatever the letter case; unknown where the file's own
    /// name holds no dot.
    pub open spec fn of_file_name(name: Seq<char>) -> ContentType {
        if Self::file_part(name).contains('.') {
            Self::of_ext(Self::extension(name))
        } else {
            ContentType::UNKNOWN
        }
    }

    /// The MIME name of the content type.
    pub fn label(&self) -> (s: &'static str)
        ensures
            s@ == self.mime(),
    {
        match self {
            ContentType::HTML => "text/html",
            ContentType::JSON => "application/json",
            ContentType::XML => "application/xml",
            ContentType::PLAIN => "text/plain",
            ContentType::CSS => "text/css",
            ContentType::JAVASCRIPT => "application/javascript",
            ContentType::JPEG => "image/jpeg",
            ContentType::PNG => "image/png",
            ContentType::GIF => "image/gif",
            ContentType::BMP => "image/bmp",
            ContentType::SVG => "image/svg+xml",
            ContentType::WEBP => "image/webp",
            ContentType::MP3 => "audio/mpeg",
            ContentType::MP4 => "video/mp4",
            ContentType::WAV => "audio/wav",
            ContentType::OGG => "audio/ogg",
            ContentType::AVI => "video/x-msvideo",
            ContentType::PDF => "application/pdf",
            ContentType::ZIP => "application/zip",
            ContentType::TAR => "application/x-tar",
            ContentType::GZIP => "application/gzip",
            ContentType::BZIP2 => "application/x-bzip2",
            ContentType::WEBM => "video/webm",
            ContentType::ICO => "image/x-icon",
            ContentType::NONE => "",
            ContentType::UNKNOWN => "application/octet-stream",
        }
    }

    /// The MIME name of the content type, as an owned string.
    pub fn to_string(&self) -> (s: String)
        ensures
            s@ == self.mime(),
    {
        self.label().to_owned()
    }

    /// The content type of the extension `l`, which is taken as it stands.
    pub fn from_lower(l: &str) -> (t: ContentType)
        ensures
            t == Self::of_lower(l@),
    {
        if str_equal(l, "html") || str_equal(l, "htm") {
            ContentType::HTML
        } else if str_equal(l, "json") {
            ContentType::JSON
        } else if str_equal(l, "xml") {
            ContentType::XML
        } else if str_equal(l, "txt") {
            ContentType::PLAIN
        } else if str_equal(l, "css") {
            ContentType::CSS
        } else if str_equal(l, "js") {
            ContentType::JAVASCRIPT
        } else if str_equal(l, "jpeg") || str_equal(l, "jpg") {
            ContentType::JPEG
        } else if str_equal(l, "png") {
            ContentType::PNG
        } else if str_equal(l, "gif") {
            ContentType::GIF
        } else if str_equal(l, "bmp") {
            ContentType::BMP
        } else if str_equal(l, "svg") {
            ContentType::SVG
        } else if str_equal(l, "webp") {
            ContentType::WEBP
        } else if str_equal(l, "mp3") {
            ContentType::MP3
        } else if str_equal(l, "mp4") {
            ContentType::MP4
        } else if str_equal(l, "wav") {
            ContentType::WAV
        } else if str_equal(l, "ogg") {
            ContentType::OGG
        } else if str_equal(l, "avi") {
            ContentType::AVI
        } else if str_equal(l, "pdf") {
            ContentType::PDF
        } else if str_equal(l, "zip") {
            ContentType::ZIP
        } else if str_equal(l, "tar") {
            ContentType::TAR
        } else if str_equal(l, "gz") {
            ContentType::GZIP
        } else if str_equal(l, "bz2") {
            ContentType::BZIP2
        } else if str_equal(l, "webm") {
            ContentType::WEBM
        } else if str_equal(l, "ico") {
            ContentType::ICO
        } else if str_equal(l, "") {
            ContentType::NONE
        } else {
            ContentType::UNKNOWN
        }
    }

    /// The content type of the extension `ext`, whatever its letter case.
    pub fn from_ext(ext: &str) -> (t: ContentType)
        ensures
            t == Self::of_ext(ext@),
    {
        let known = Self::from_lower(ext);
        if known != ContentType::UNKNOWN {
            return known;
        }
        let l = to_lower(ext);
        Self::from_lower(l.as_str())
    }

    /// The content type of a file with the name `file_name`.
    pub fn from_file_name(file_name: &str) -> (t: ContentType)
        ensures
            t == Self::of_file_name(file_name@),
    {
        let path = chars_of(file_name);
        let n: usize = path.len();
        let start: usize = match find_last_char(&path, '/') {
            Some(i) => i + 1,
            None => 0,
        };
        let file = take(&path, start, n);
        assert(file@ == Self::file_part(file_name@)) by {
            assert(path@.subrange(0, n as int) =~= path@);
        }
        match find_last_char(&file, '.') {
            None => ContentType::UNKNOWN,
            Some(i) => {
                let m: usize = file.len();
                let ext = string_of(&file, i + 1, m);
                Self::from_ext(ext.as_str())
            },
        }
    }
}

/// What a response holds, as plain values.
pub struct ResponseView {
    pub protocol: Seq<char>,
    pub code: HttpCode,
    pub message: Seq<char>,
    pub headers: HeaderSeq,
    pub body: Seq<u8>,
    pub kind: ContentType,
    pub has_content: bool,
    pub reroute: bool,
}

/// The response that is built from a status, headers and content: with a
/// content type, the length and the type of the content are stored among
/// the headers.
pub open spec fn built(
    code: HttpCode,
    message: Seq<char>,
    headers: HeaderSeq,
    body: Seq<u8>,
    kind: ContentType,
    reroute: bool,
) -> ResponseView {
    ResponseView {
        protocol: "HTTP/1.1"@,
        code,
        message,
        headers: if kind.mime().len() > 0 {
            put(put(headers, "Content-Length"@, decimal(body.len())), "Content-Type"@, kind.mime())
        } else {
            headers
        },
        body,
        kind,
        has_content: kind.mime().len() > 0,
        reroute,
    }
}

/// A response built with a content type says so in its headers: under
/// `Content-Length` stands the length of the body as a decimal numeral, and
/// under `Content-Type` the MIME name of the type. One built without a
/// content type has the headers it was given.
pub proof fn lemma_built_describes_content(
    code: HttpCode,
    message: Seq<char>,
    headers: HeaderSeq,
    body: Seq<u8>,
    kind: ContentType,
    reroute: bool,
)
    ensures
        kind.mime().len() > 0 ==> lookup(
            built(code, message, headers, body, kind, reroute).headers,
            "Content-Length"@,
        ) == Some(decimal(body.len())) && lookup(
            built(code, message, headers, body, kind, reroute).headers,
            "Content-Type"@,
        ) == Some(kind.mime()),
        kind.mime().len() == 0 ==> built(code, message, headers, body, kind, reroute).headers
            == headers,
        built(code, message, headers, body, kind, reroute).body == body,
{
    reveal_strlit("Content-Length");
    reveal_strlit("Content-Type");
    let length = decimal(body.len());
    let first = put(headers, "Content-Length"@, length);
    lemma_put(headers, "Content-Length"@, length);
    lemma_put(first, "Content-Type"@, kind.mime());
    assert("Content-Length"@.len() != "Content-Type"@.len());
    lemma_put_other(first, "Content-Type"@, kind.mime(), "Content-Length"@);
}

/// The header lines, each a name, `": "`, a value and a line feed.
pub open spec fn header_lines(h: HeaderSeq) -> Seq<char>
    decreases h.len(),
{
    if h.len() == 0 {
        Seq::<char>::empty()
    } else {
        header_lines(h.drop_last()) + h.last().0 + ": "@ + h.last().1 + "\n"@
    }
}

/// The text that precedes the body on the wire: the status line, the header
/// lines and, before a body that is not empty, two line feeds.
pub open spec fn head_text(v: ResponseView) -> Seq<char> {
    v.protocol + " "@ + decimal(v.code.number() as nat) + " "@ + v.message + "\r\n"@
        + header_lines(v.headers) + if v.body.len() > 0 {
        "\n\n"@
    } else {
        Seq::<char>::empty()
    }
}

/// The bytes of a response on the wire.
pub open spec fn wire(v: ResponseView) -> Seq<u8> {
    encode_utf8(head_text(v)) + v.body
}

/// A response: status line, headers and content.
#[derive(Debug)]
pub struct HttpResponse {
    pub protocol_v: String,
    pub response: (HttpCode, String),
    pub headers: Headers,
    pub content: (Vec<u8>, ContentType),
    pub has_content: bool,
    pub reroute: bool,
}

impl View for HttpResponse {
    type V = ResponseView;

    open spec fn view(&self) -> ResponseView {
        ResponseView {
            protocol: self.protocol_v@,
            code: self.response.0,
            message: self.response.1@,
            headers: self.headers@,
            body: self.content.0@,
            kind: self.content.1,
            has_content: self.has_content,
            reroute: self.reroute,
        }
    }
}

impl HttpResponse {
    /// The response with the given status, headers and content; the headers
    /// describe the content where it has a type.
    pub fn new(
        response: (HttpCode, String),
        headers: Headers,
        content: (Vec<u8>, ContentType),
        reroute: bool,
    ) -> (r: Self)
        ensures
            r@ == built(response.0, response.1@, headers@, content.0@, content.1, reroute),
    {
        let mut header_c = headers;
        let kind = content.1.label();
        let has_content = !kind.is_empty();
        if has_content {
            let mut length = String::new();
            push_decimal(&mut length, content.0.len());
            assert(length@ =~= decimal(content.0@.len()));
            header_c.insert("Content-Length".to_owned(), length);
            header_c.insert("Content-Type".to_owned(), kind.to_owned());
        }
        Self {
            protocol_v: "HTTP/1.1".to_owned(),
            response,
            headers: header_c,
            content,
            has_content,
            reroute,
        }
    }

    /// The failure that the status and message of this response stand for.
    pub fn to_net_error(&self) -> (e: NetError)
        ensures
            e@ == (self@.code, self@.message),
    {
        NetError::new(self.response.0, Some(self.response.1.clone()))
    }

    /// The bytes that are sent for this response.
    pub fn make(&self) -> (bytes: Vec<u8>)
        ensures
            bytes@ == wire(self@),
    {
        let mut r = self.protocol_v.clone();
        r.append(" ");
        push_decimal(&mut r, self.response.0.to_num() as usize);
        r.append(" ");
        r.append(self.response.1.as_str());
        r.append("\r\n");
        let ghost status = r@;
        let n: usize = self.headers.len();
        let mut i: usize = 0;
        while i < n
            invariant
                i <= n,
                n == self.headers@.len(),
                r@ == status + header_lines(self.headers@.subrange(0, i as int)),
            decreases n - i,
        {
            proof {
                let next = self.headers@.subrange(0, i + 1);
                assert(next.drop_last() =~= self.headers@.subrange(0, i as int));
                assert(next.last() == self.headers@[i as int]);
            }
            let ghost before = r@;
            let entry = self.headers.entry(i);
            r.append(entry.0.as_str());
            r.append(": ");
            r.append(entry.1.as_str());
            r.append("\n");
            assert(r@ =~= status + header_lines(self.headers@.subrange(0, i + 1)));
            i += 1;
        }
        assert(self.headers@.subrange(0, n as int) =~= self.headers@);
        if self.content.0.len() > 0 {
            r.append("\n\n");
        }
        assert(r@ =~= head_text(self@));
        let mut bytes = r.as_str().as_bytes_vec();
        let ghost head = bytes@;
        let m: usize = self.content.0.len();
        let mut k: usize = 0;
        while k < m
            invariant
                k <= m,
                m == self.content.0@.len(),
                bytes@ =~= head + self.content.0@.subrange(0, k as int),
            decreases m - k,
        {
            bytes.push(self.content.0[k]);
            k += 1;
        }
        assert(self.content.0@.subrange(0, m as int) =~= self.content.0@);
        bytes
    }
}

} // verus!
