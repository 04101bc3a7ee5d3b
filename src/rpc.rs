//! Settings of the presence backend.
use crate::command::OwnedMetadata;
use crate::listener::text_or_empty;
use crate::locator::{opt_text, parse_url, url_file_path, url_parses, url_scheme, url_serialization};
use crate::text::text_eq;
use serde_json::Value;
use vstd::prelude::*;

verus! {

/// Where covers are uploaded for the presence service.
#[derive(Clone, Copy, Debug, PartialEq, Eq, Structural)]
pub enum Service {
    Litterbox,
    Imgur,
}

impl Service {
    /// Whether uploaded covers must be deleted when the backend detaches.
    pub fn needs_deleting(&self) -> (r: bool)
        ensures
            r == (*self == Service::Imgur),
    {
        match self {
            Service::Litterbox => false,
            Service::Imgur => true,
        }
    }
}

/// The image shown when the track has no cover.
pub const DEFAULT_COVER: &'static str = "https://www.getmusicbee.com/img/musicbee.png";

/// The two lines of text that the presence service shows for a track.
pub struct PresenceText {
    /// The title.
    pub state: String,
    /// `artist - album`.
    pub details: String,
}

pub fn presence_text(metadata: &OwnedMetadata) -> (r: PresenceText)
    ensures
        r.state@ == text_or_empty(metadata.title),
        r.details@ == text_or_empty(metadata.artist) + " - "@ + text_or_empty(metadata.album),
{
    let state = match &metadata.title {
        Some(t) => String::from_str(t.as_str()),
        None => String::new(),
    };
    let mut details = match &metadata.artist {
        Some(a) => String::from_str(a.as_str()),
        None => String::new(),
    };
    details.append(" - ");
    match &metadata.album {
        Some(a) => details.append(a.as_str()),
        None => {},
    }
    PresenceText { state, details }
}

/// Whether `serde_json::from_str` reads `doc` as a JSON value.
pub uninterp spec fn json_parses(doc: Seq<char>) -> bool;

/// Whether `Value::pointer` finds a value at `pointer` in the document.
pub uninterp spec fn json_found(doc: Seq<char>, pointer: Seq<char>) -> bool;

/// `Value::as_str` of the value found at `pointer`.
pub uninterp spec fn json_text_at(doc: Seq<char>, pointer: Seq<char>) -> Option<Seq<char>>;

/// `Value::as_bool` of the value found at `pointer`.
pub uninterp spec fn json_flag_at(doc: Seq<char>, pointer: Seq<char>) -> Option<bool>;

/// The JSON text (`Display`) of the value found at `pointer`.
pub uninterp spec fn json_shown_at(doc: Seq<char>, pointer: Seq<char>) -> Seq<char>;

/// What is read of one value of a JSON document.
pub struct JsonLeaf {
    pub text: Option<String>,
    pub flag: Option<bool>,
    pub shown: String,
}

/// Relies on `serde_json::from_str` into a `Value`, on `Value::pointer`,
/// and on `Value::as_str`, `Value::as_bool` and the `Display` of the value
/// found.
#[verifier::external_body]
fn json_at(doc: &str, pointer: &str) -> (r: Result<Option<JsonLeaf>, ()>)
    ensures
        r is Ok == json_parses(doc@),
        r matches Ok(found) ==> (found is Some == json_found(doc@, pointer@)),
        r matches Ok(Some(leaf)) ==> opt_text(leaf.text) == json_text_at(doc@, pointer@) && leaf.flag
            == json_flag_at(doc@, pointer@) && leaf.shown@ == json_shown_at(doc@, pointer@),
{
    match serde_json::from_str::<Value>(doc) {
        Err(_) => Err(()),
        Ok(value) => Ok(match value.pointer(pointer) {
            None => None,
            Some(found) => Some(
                JsonLeaf { text: found.as_str().map(str::to_owned), flag: found.as_bool(), shown: found.to_string() },
            ),
        }),
    }
}

/// The string at `pointer`, if the document has one there.
pub open spec fn text_at(doc: Seq<char>, pointer: Seq<char>) -> Option<Seq<char>> {
    if json_found(doc, pointer) {
        json_text_at(doc, pointer)
    } else {
        None
    }
}

/// The JSON text at `pointer`, `null` where there is nothing.
pub open spec fn shown_at(doc: Seq<char>, pointer: Seq<char>) -> Seq<char> {
    if json_found(doc, pointer) {
        json_shown_at(doc, pointer)
    } else {
        "null"@
    }
}

/// Why the answer of an upload service was refused.
#[derive(Clone, Debug)]
pub enum UploadError {
    /// The answer is not JSON.
    Unreadable(String),
    /// The service reports a failure; the text is its error.
    Refused(String),
    MissingLink,
    /// The link is no URL.
    BadLink(String),
    MissingDeleteHash,
}

/// An uploaded image: its public link, and what deletes it.
pub struct UploadedImage {
    pub link: String,
    pub delete_hash: Option<String>,
}

/// Whether the imgur answer `doc` reports success.
pub open spec fn imgur_succeeded(doc: Seq<char>) -> bool {
    json_found(doc, "/success"@) && json_flag_at(doc, "/success"@) == Some(true)
}

/// Reads the answer of an imgur upload.
pub fn imgur_upload_result(response: &str) -> (r: Result<UploadedImage, UploadError>)
    ensures
        !json_parses(response@) ==> (r matches Err(UploadError::Unreadable(s)) && s@ == response@),
        json_parses(response@) && !imgur_succeeded(response@) ==> (r matches Err(UploadError::Refused(s)) && s@
            == shown_at(response@, "/data/error"@)),
        json_parses(response@) && imgur_succeeded(response@) ==> match text_at(response@, "/data/link"@) {
            None => r matches Err(UploadError::MissingLink),
            Some(link) => if !url_parses(link) {
                r matches Err(UploadError::BadLink(s)) && s@ == link
            } else {
                match text_at(response@, "/data/deletehash"@) {
                    None => r matches Err(UploadError::MissingDeleteHash),
                    Some(hash) => r matches Ok(image) && image.link@ == url_serialization(link) && (
                    image.delete_hash matches Some(h) && h@ == hash),
                }
            },
        },
{
    let success = match json_at(response, "/success") {
        Err(()) => {
            return Err(UploadError::Unreadable(String::from_str(response)));
        },
        Ok(None) => false,
        Ok(Some(leaf)) => match leaf.flag {
            Some(flag) => flag,
            None => false,
        },
    };
    if !success {
        let shown = match json_at(response, "/data/error") {
            Ok(Some(leaf)) => leaf.shown,
            _ => String::from_str("null"),
        };
        return Err(UploadError::Refused(shown));
    }
    let link = match json_at(response, "/data/link") {
        Ok(Some(leaf)) => match leaf.text {
            Some(link) => link,
            None => {
                return Err(UploadError::MissingLink);
            },
        },
        _ => {
            return Err(UploadError::MissingLink);
        },
    };
    let url = match parse_url(link.as_str()) {
        Some(url) => url,
        None => {
            return Err(UploadError::BadLink(link));
        },
    };
    match json_at(response, "/data/deletehash") {
        Ok(Some(leaf)) => match leaf.text {
            Some(hash) => Ok(UploadedImage { link: url.serialization, delete_hash: Some(hash) }),
            None => Err(UploadError::MissingDeleteHash),
        },
        _ => Err(UploadError::MissingDeleteHash),
    }
}

/// Reads the answer of a litterbox upload: the link itself.
pub fn litterbox_upload_result(response: &str) -> (r: Result<UploadedImage, UploadError>)
    ensures
        url_parses(response@) ==> (r matches Ok(image) && image.link@ == url_serialization(response@)
            && image.delete_hash is None),
        !url_parses(response@) ==> (r matches Err(UploadError::BadLink(s)) && s@ == response@),
{
    match parse_url(response) {
        Some(url) => Ok(UploadedImage { link: url.serialization, delete_hash: None }),
        None => Err(UploadError::BadLink(String::from_str(response))),
    }
}

/// Where the image for a cover comes from.
#[derive(Clone, Debug)]
pub enum CoverSource {
    /// A local file, to be uploaded from this path.
    Upload(String),
    /// A public link, used as it is.
    Link(String),
    /// No usable URL.
    Invalid(String),
}

/// Where the image for the cover locator `cover_url` comes from: a `file:`
/// URL is uploaded from its path, another URL is linked to.
pub fn cover_source(cover_url: &str) -> (r: CoverSource)
    ensures
        !url_parses(cover_url@) ==> (r matches CoverSource::Invalid(s) && s@ == cover_url@),
        url_parses(cover_url@) && url_scheme(cover_url@) == "file"@ ==> match url_file_path(cover_url@) {
            Some(p) => r matches CoverSource::Upload(s) && s@ == p,
            None => r matches CoverSource::Invalid(s) && s@ == cover_url@,
        },
        url_parses(cover_url@) && url_scheme(cover_url@) != "file"@ ==> (r matches CoverSource::Link(s) && s@
            == url_serialization(cover_url@)),
{
    match parse_url(cover_url) {
        None => CoverSource::Invalid(String::from_str(cover_url)),
        Some(url) => {
            if text_eq(url.scheme.as_str(), "file") {
                match url.file_path {
                    Some(path) => CoverSource::Upload(path),
                    None => CoverSource::Invalid(String::from_str(cover_url)),
                }
            } else {
                CoverSource::Link(url.serialization)
            }
        },
    }
}

} // verus!
