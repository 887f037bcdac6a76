//! The media streaming responder's pure core: choosing a content type from a
//! file path's extension, choosing a file extension for an incoming image,
//! and classifying how an image payload arrives (embedded base64, remote
//! URL, or a local path). Reading files and fetching URLs stays outside;
//! this module only decides.

use vstd::prelude::*;
use vstd::string::StrSliceExecFns;
use vstd::string::StringExecFns;

verus! {

// ---------------------------------------------------------------------------
// Character-level string predicates and their executable counterparts.
// ---------------------------------------------------------------------------

pub open spec fn has_suffix(s: Seq<char>, suffix: Seq<char>) -> bool {
    s.len() >= suffix.len() && s.subrange(s.len() - suffix.len(), s.len() as int) == suffix
}

pub open spec fn has_prefix(s: Seq<char>, prefix: Seq<char>) -> bool {
    s.len() >= prefix.len() && s.subrange(0, prefix.len() as int) == prefix
}

pub open spec fn lower_char(c: char) -> char {
    if 'A' <= c && c <= 'Z' {
        ((c as u8) + 32) as char
    } else {
        c
    }
}

pub open spec fn lower_chars(s: Seq<char>) -> Seq<char> {
    s.map_values(|c: char| lower_char(c))
}

fn lower_char_ex(c: char) -> (r: char)
    ensures
        r == lower_char(c),
{
    if 'A' <= c && c <= 'Z' {
        ((c as u8) + 32) as char
    } else {
        c
    }
}

/// Whether `s` ends with `suffix`, character-wise.
pub fn ends_with_chars(s: &str, suffix: &str) -> (r: bool)
    ensures
        r == has_suffix(s@, suffix@),
{
    let n = s.unicode_len();
    let m = suffix.unicode_len();
    if m > n {
        return false;
    }
    let mut i: usize = 0;
    while i < m
        invariant
            0 <= i <= m,
            m <= n,
            n == s@.len(),
            m == suffix@.len(),
            forall|j: int| 0 <= j < i ==> s@[n - m + j] == suffix@[j],
        decreases m - i,
    {
        if s.get_char(n - m + i) != suffix.get_char(i) {
            proof {
                assert(s@.subrange(n as int - m, n as int)[i as int] == s@[n - m + i]);
            }
            return false;
        }
        i = i + 1;
    }
    proof {
        assert(s@.subrange(n as int - m, n as int) =~= suffix@);
    }
    true
}

/// Whether `s` starts with `prefix`, character-wise.
pub fn starts_with_chars(s: &str, prefix: &str) -> (r: bool)
    ensures
        r == has_prefix(s@, prefix@),
{
    let n = s.unicode_len();
    let m = prefix.unicode_len();
    if m > n {
        return false;
    }
    let mut i: usize = 0;
    while i < m
        invariant
            0 <= i <= m,
            m <= n,
            n == s@.len(),
            m == prefix@.len(),
            forall|j: int| 0 <= j < i ==> s@[j] == prefix@[j],
        decreases m - i,
    {
        if s.get_char(i) != prefix.get_char(i) {
            proof {
                assert(s@.subrange(0, m as int)[i as int] == s@[i as int]);
            }
            return false;
        }
        i = i + 1;
    }
    proof {
        assert(s@.subrange(0, m as int) =~= prefix@);
    }
    true
}

/// Whether `s`, lowercased, equals `pat`, character-wise.
fn eq_lowered(s: &str, pat: &str) -> (r: bool)
    ensures
        r == (lower_chars(s@) == pat@),
{
    let n = s.unicode_len();
    let m = pat.unicode_len();
    if n != m {
        proof {
            assert(lower_chars(s@).len() == n);
        }
        return false;
    }
    let mut i: usize = 0;
    while i < n
        invariant
            0 <= i <= n,
            n == m,
            n == s@.len(),
            m == pat@.len(),
            forall|j: int| 0 <= j < i ==> lower_chars(s@)[j] == pat@[j],
        decreases n - i,
    {
        let c = lower_char_ex(s.get_char(i));
        proof {
            assert(lower_chars(s@)[i as int] == lower_char(s@[i as int]));
        }
        if c != pat.get_char(i) {
            return false;
        }
        i = i + 1;
    }
    proof {
        assert(lower_chars(s@) =~= pat@);
    }
    true
}

// ---------------------------------------------------------------------------
// Image handling decisions.
// ---------------------------------------------------------------------------

/// How an incoming image payload arrives.
#[derive(Debug, Clone, Copy, PartialEq, Eq)]
pub enum ImageSource {
    /// A non-empty base64 field: decode it and write it locally.
    EmbeddedBase64,
    /// The path is a URL: fetch it, then write it locally.
    RemoteUrl,
    /// The path is already a local file.
    LocalPath,
}

/// A non-empty base64 payload wins over everything; otherwise a path that
/// starts with `http` is fetched; anything else is a local file.
pub open spec fn image_source_spec(path: Seq<char>, b64: Seq<char>) -> ImageSource {
    if b64.len() > 0 {
        ImageSource::EmbeddedBase64
    } else if has_prefix(path, "http"@) {
        ImageSource::RemoteUrl
    } else {
        ImageSource::LocalPath
    }
}

/// Decides how to obtain the image an incoming message names.
pub fn classify_image_input(path: &str, b64: &str) -> (r: ImageSource)
    ensures
        r == image_source_spec(path@, b64@),
{
    if b64.unicode_len() > 0 {
        ImageSource::EmbeddedBase64
    } else if starts_with_chars(path, "http") {
        ImageSource::RemoteUrl
    } else {
        ImageSource::LocalPath
    }
}

/// The extension a locally saved image gets, from the name the sender used:
/// `jpg` for JPEG names, `png` for everything else.
pub open spec fn image_extension_spec(path: Seq<char>) -> Seq<char> {
    if has_suffix(path, ".jpg"@) || has_suffix(path, ".jpeg"@) {
        "jpg"@
    } else {
        "png"@
    }
}

/// Chooses the saved file's extension from the incoming image's name.
pub fn image_extension_for_path(path: &str) -> (e: String)
    ensures
        e@ == image_extension_spec(path@),
{
    if ends_with_chars(path, ".jpg") || ends_with_chars(path, ".jpeg") {
        String::from_str("jpg")
    } else {
        String::from_str("png")
    }
}

/// The extension a fetched image gets, from the server's content type:
/// `jpg` for `image/jpeg`, `png` for everything else.
pub open spec fn extension_for_content_type_spec(ct: Seq<char>) -> Seq<char> {
    if ct == "image/jpeg"@ {
        "jpg"@
    } else {
        "png"@
    }
}

/// Whether two texts are equal, character-wise.
pub fn str_eq_chars(a: &str, b: &str) -> (r: bool)
    ensures
        r == (a@ == b@),
{
    let n = a.unicode_len();
    let m = b.unicode_len();
    if n != m {
        return false;
    }
    let mut i: usize = 0;
    while i < n
        invariant
            0 <= i <= n,
            n == m,
            n == a@.len(),
            m == b@.len(),
            forall|j: int| 0 <= j < i ==> a@[j] == b@[j],
        decreases n - i,
    {
        if a.get_char(i) != b.get_char(i) {
            return false;
        }
        i = i + 1;
    }
    proof {
        assert(a@ =~= b@);
    }
    true
}

/// Chooses the saved file's extension from a fetched image's content type.
pub fn extension_for_content_type(ct: &str) -> (e: String)
    ensures
        e@ == extension_for_content_type_spec(ct@),
{
    if str_eq_chars(ct, "image/jpeg") {
        String::from_str("jpg")
    } else {
        String::from_str("png")
    }
}

/// The content type the image streaming endpoint sends with a resolved file.
pub open spec fn image_content_type_spec(path: Seq<char>) -> Seq<char> {
    if has_suffix(path, ".jpg"@) || has_suffix(path, ".jpeg"@) {
        "image/jpeg"@
    } else if has_suffix(path, ".png"@) {
        "image/png"@
    } else {
        "application/octet-stream"@
    }
}

/// Content type for a streamed image, from its resolved path's ending.
pub fn image_content_type(path: &str) -> (ct: String)
    ensures
        ct@ == image_content_type_spec(path@),
{
    if ends_with_chars(path, ".jpg") || ends_with_chars(path, ".jpeg") {
        String::from_str("image/jpeg")
    } else if ends_with_chars(path, ".png") {
        String::from_str("image/png")
    } else {
        String::from_str("application/octet-stream")
    }
}

// ---------------------------------------------------------------------------
// File extensions and the generic content-type table.
// ---------------------------------------------------------------------------

/// Index of the last occurrence of `c`, or -1 when it never occurs.
pub open spec fn last_index_of(s: Seq<char>, c: char) -> int
    decreases s.len(),
{
    if s.len() == 0 {
        -1
    } else if s.last() == c {
        s.len() - 1
    } else {
        last_index_of(s.drop_last(), c)
    }
}

/// Where the path's final component starts: right after the last separator.
pub open spec fn file_name_start(p: Seq<char>) -> int {
    let a = last_index_of(p, '/');
    let b = last_index_of(p, '\\');
    if a >= b {
        a + 1
    } else {
        b + 1
    }
}

/// The extension of the path's final component: what follows its last dot,
/// none when the component has no dot or only a leading one.
pub open spec fn extension_of(p: Seq<char>) -> Option<Seq<char>> {
    let fstart = file_name_start(p);
    let d = last_index_of(p, '.');
    if d > fstart {
        Some(p.subrange(d + 1, p.len() as int))
    } else {
        None
    }
}

/// The fixed lookup from a lowercased extension to a content type, with
/// `application/octet-stream` for anything unrecognized.
pub open spec fn media_type_for(ext: Seq<char>) -> Seq<char> {
    let e = lower_chars(ext);
    if e == "pdf"@ {
        "application/pdf"@
    } else if e == "doc"@ || e == "docx"@ {
        "application/msword"@
    } else if e == "xls"@ || e == "xlsx"@ {
        "application/vnd.ms-excel"@
    } else if e == "ppt"@ || e == "pptx"@ {
        "application/vnd.ms-powerpoint"@
    } else if e == "zip"@ {
        "application/zip"@
    } else if e == "rar"@ {
        "application/x-rar-compressed"@
    } else if e == "txt"@ {
        "text/plain"@
    } else if e == "json"@ {
        "application/json"@
    } else if e == "xml"@ {
        "application/xml"@
    } else if e == "html"@ || e == "htm"@ {
        "text/html"@
    } else if e == "css"@ {
        "text/css"@
    } else if e == "js"@ {
        "application/javascript"@
    } else if e == "mp3"@ {
        "audio/mpeg"@
    } else if e == "mp4"@ {
        "video/mp4"@
    } else if e == "jpg"@ || e == "jpeg"@ {
        "image/jpeg"@
    } else if e == "png"@ {
        "image/png"@
    } else if e == "gif"@ {
        "image/gif"@
    } else {
        "application/octet-stream"@
    }
}

/// The content type the generic file streaming endpoint sends.
pub open spec fn file_content_type_spec(path: Seq<char>) -> Seq<char> {
    match extension_of(path) {
        Some(e) => media_type_for(e),
        None => "application/octet-stream"@,
    }
}

/// Index of the last occurrence of `c` in `s`, if any.
fn last_occurrence(s: &str, c: char) -> (r: Option<usize>)
    ensures
        s@.len() <= usize::MAX,
        match r {
            Some(i) => i < s@.len() && last_index_of(s@, c) == i as int,
            None => last_index_of(s@, c) == -1,
        },
{
    let n = s.unicode_len();
    let mut found: Option<usize> = None;
    let mut i: usize = 0;
    proof {
        assert(s@.take(0) =~= Seq::<char>::empty());
    }
    while i < n
        invariant
            0 <= i <= n,
            n == s@.len(),
            match found {
                Some(j) => j < i && last_index_of(s@.take(i as int), c) == j as int,
                None => last_index_of(s@.take(i as int), c) == -1,
            },
        decreases n - i,
    {
        proof {
            assert(s@.take(i + 1).drop_last() =~= s@.take(i as int));
            assert(s@.take(i + 1).last() == s@[i as int]);
        }
        if s.get_char(i) == c {
            found = Some(i);
        }
        i = i + 1;
    }
    proof {
        assert(s@.take(n as int) =~= s@);
    }
    found
}

/// The extension the streaming endpoint keys its table on.
pub fn path_extension(path: &str) -> (r: Option<String>)
    ensures
        match r {
            Some(e) => extension_of(path@) == Some(e@),
            None => extension_of(path@) is None,
        },
{
    let slash = last_occurrence(path, '/');
    let back = last_occurrence(path, '\\');
    let fstart: usize = {
        let a: usize = match slash {
            Some(i) => i + 1,
            None => 0,
        };
        let b: usize = match back {
            Some(i) => i + 1,
            None => 0,
        };
        if a >= b {
            a
        } else {
            b
        }
    };
    proof {
        assert(fstart as int == file_name_start(path@));
    }
    let dot = last_occurrence(path, '.');
    match dot {
        Some(d) => {
            if d > fstart {
                let n = path.unicode_len();
                let e = path.substring_char(d + 1, n);
                Some(e.to_owned())
            } else {
                None
            }
        },
        None => None,
    }
}

/// Content type for a streamed file, from its extension, lowercased, through
/// the fixed table.
pub fn file_content_type(path: &str) -> (ct: String)
    ensures
        ct@ == file_content_type_spec(path@),
{
    let ext = match path_extension(path) {
        Some(e) => e,
        None => {
            return String::from_str("application/octet-stream");
        },
    };
    let e = ext.as_str();
    if eq_lowered(e, "pdf") {
        String::from_str("application/pdf")
    } else if eq_lowered(e, "doc") || eq_lowered(e, "docx") {
        String::from_str("application/msword")
    } else if eq_lowered(e, "xls") || eq_lowered(e, "xlsx") {
        String::from_str("application/vnd.ms-excel")
    } else if eq_lowered(e, "ppt") || eq_lowered(e, "pptx") {
        String::from_str("application/vnd.ms-powerpoint")
    } else if eq_lowered(e, "zip") {
        String::from_str("application/zip")
    } else if eq_lowered(e, "rar") {
        String::from_str("application/x-rar-compressed")
    } else if eq_lowered(e, "txt") {
        String::from_str("text/plain")
    } else if eq_lowered(e, "json") {
        String::from_str("application/json")
    } else if eq_lowered(e, "xml") {
        String::from_str("application/xml")
    } else if eq_lowered(e, "html") || eq_lowered(e, "htm") {
        String::from_str("text/html")
    } else if eq_lowered(e, "css") {
        String::from_str("text/css")
    } else if eq_lowered(e, "js") {
        String::from_str("application/javascript")
    } else if eq_lowered(e, "mp3") {
        String::from_str("audio/mpeg")
    } else if eq_lowered(e, "mp4") {
        String::from_str("video/mp4")
    } else if eq_lowered(e, "jpg") || eq_lowered(e, "jpeg") {
        String::from_str("image/jpeg")
    } else if eq_lowered(e, "png") {
        String::from_str("image/png")
    } else if eq_lowered(e, "gif") {
        String::from_str("image/gif")
    } else {
        String::from_str("application/octet-stream")
    }
}

// ---------------------------------------------------------------------------
// Base64 payload decoding for embedded images.
// ---------------------------------------------------------------------------

#[verifier::external_type_specification]
#[verifier::external_body]
pub struct ExDecodeError(base64::DecodeError);

/// What `base64::decode` yields: the decoded bytes, or nothing when the text
/// is not valid standard base64. Pinned only by the decoder below.
pub uninterp spec fn base64_decoding(s: Seq<char>) -> Option<Seq<u8>>;

/// Relies on `base64::decode` (standard alphabet): whether it succeeds, and
/// the bytes it yields, depend on the text alone.
#[verifier::external_body]
fn base64_decode(data: &str) -> (r: Result<Vec<u8>, base64::DecodeError>)
    ensures
        match r {
            Ok(v) => base64_decoding(data@) == Some(v@),
            Err(_) => base64_decoding(data@) is None,
        },
{
    base64::decode(data)
}

/// Decodes an embedded base64 attachment payload, with the gateway's own
/// error message for malformed text.
pub fn decode_attachment_data(data: &str) -> (r: Result<Vec<u8>, String>)
    ensures
        match r {
            Ok(v) => base64_decoding(data@) == Some(v@),
            Err(e) => base64_decoding(data@) is None && e@ == "base64 decode failed"@,
        },
{
    match base64_decode(data) {
        Ok(v) => Ok(v),
        Err(_) => Err(String::from_str("base64 decode failed")),
    }
}

/// The compute step behind saving an embedded image: decode the payload and
/// choose the saved file's extension from the name the sender used.
pub fn decode_image_payload(b64: &str, path_hint: &str) -> (r: Result<(Vec<u8>, String), String>)
    ensures
        match r {
            Ok(p) => base64_decoding(b64@) == Some(p.0@) && p.1@ == image_extension_spec(
                path_hint@,
            ),
            Err(e) => base64_decoding(b64@) is None && e@ == "base64 decode failed"@,
        },
{
    match decode_attachment_data(b64) {
        Ok(bytes) => Ok((bytes, image_extension_for_path(path_hint))),
        Err(e) => Err(e),
    }
}

} // verus!
