//! What an event of the operating system's media controls asks of the
//! player.
use crate::command::{ControlEvent, SeekDirection};
use crate::communication::Action;
use crate::locator::{parse_url, url_file_path, url_parses, url_scheme, url_serialization, opt_text, ParsedUrl};
use crate::text::text_eq;
use vstd::prelude::*;

verus! {

/// What the player is asked to do.
#[derive(Clone, Debug)]
pub enum Request {
    /// Run the player's command `name`, with `arg` if given.
    Command { name: String, arg: Option<String> },
    /// Hand an action to the plugin.
    Action(Action),
    /// Nothing is done for this event.
    Unsupported,
}

/// Why an event could not be turned into a request.
#[derive(Clone, Copy, Debug, PartialEq, Eq, Structural)]
pub enum EventError {
    /// The seek is longer than an `i32` of milliseconds.
    SeekTooLong,
}

/// The seek for a duration in milliseconds, backwards as a negative number.
pub open spec fn seek_of(direction: SeekDirection, duration: u64) -> Option<Action> {
    if duration > i32::MAX {
        None
    } else {
        match direction {
            SeekDirection::Forward => Some(Action::Seek { milis: duration as i32 }),
            SeekDirection::Backward => Some(Action::Seek { milis: -(duration as int) as i32 }),
        }
    }
}

pub fn directioned_duration_to_seek(direction: SeekDirection, duration: u64) -> (r: Result<Action, EventError>)
    ensures
        match seek_of(direction, duration) {
            Some(a) => r == Ok::<Action, EventError>(a),
            None => r == Err::<Action, EventError>(EventError::SeekTooLong),
        },
{
    if duration > i32::MAX as u64 {
        return Err(EventError::SeekTooLong);
    }
    let milis = duration as i32;
    match direction {
        SeekDirection::Forward => Ok(Action::Seek { milis }),
        SeekDirection::Backward => Ok(Action::Seek { milis: -milis }),
    }
}

/// The URI that the player is handed: a local file as a path on the `Z:`
/// drive, another URL as it serializes, and text that is no URL as it is.
pub open spec fn mapped_uri(uri: Seq<char>, parsed: Option<(Seq<char>, Seq<char>, Option<Seq<char>>)>) -> Seq<char> {
    match parsed {
        None => uri,
        Some((scheme, serialization, file_path)) => if scheme == "file"@ {
            match file_path {
                Some(p) => "Z:"@ + p,
                None => serialization,
            }
        } else {
            serialization
        },
    }
}

pub open spec fn parsed_view(p: Option<ParsedUrl>) -> Option<(Seq<char>, Seq<char>, Option<Seq<char>>)> {
    match p {
        Some(u) => Some((u.scheme@, u.serialization@, opt_text(u.file_path))),
        None => None,
    }
}

/// What `url::Url` makes of `uri`.
pub open spec fn url_view(uri: Seq<char>) -> Option<(Seq<char>, Seq<char>, Option<Seq<char>>)> {
    if url_parses(uri) {
        Some((url_scheme(uri), url_serialization(uri), url_file_path(uri)))
    } else {
        None
    }
}

/// The URI handed to the player for `uri`, given what parsing it gave.
pub fn map_parsed_uri(uri: &str, parsed: Option<ParsedUrl>) -> (r: String)
    ensures
        r@ == mapped_uri(uri@, parsed_view(parsed)),
{
    match parsed {
        None => String::from_str(uri),
        Some(url) => {
            if text_eq(url.scheme.as_str(), "file") {
                map_file_uri(url)
            } else {
                url.serialization
            }
        },
    }
}

fn map_file_uri(url: ParsedUrl) -> (r: String)
    ensures
        r@ == match opt_text(url.file_path) {
            Some(p) => "Z:"@ + p,
            None => url.serialization@,
        },
{
    match url.file_path {
        Some(path) => {
            let mut r = String::from_str("Z:");
            r.append(path.as_str());
            r
        },
        None => url.serialization,
    }
}

/// The URI handed to the player for `uri`.
pub fn map_uri(uri: &str) -> (r: String)
    ensures
        r@ == mapped_uri(uri@, url_view(uri@)),
{
    let parsed = parse_url(uri);
    map_parsed_uri(uri, parsed)
}

pub open spec fn command_request(r: Request, name: Seq<char>) -> bool {
    r matches Request::Command { name: n, arg: None } && n@ == name
}

/// What `event` asks of the player; `seek_amount` is the configured length
/// of a plain seek, in milliseconds.
pub fn handle_event(event: ControlEvent, seek_amount: u64) -> (r: Result<Request, EventError>)
    ensures
        match event {
            ControlEvent::Play | ControlEvent::Pause | ControlEvent::Toggle => r matches Ok(q) && command_request(q, "/PlayPause"@),
            ControlEvent::Next => r matches Ok(q) && command_request(q, "/Next"@),
            ControlEvent::Previous => r matches Ok(q) && command_request(q, "/Previous"@),
            ControlEvent::Stop => r matches Ok(q) && command_request(q, "/Stop"@),
            ControlEvent::OpenUri(uri) => r matches Ok(Request::Command { name, arg: Some(a) })
                && name@ == "/Play"@ && a@ == mapped_uri(uri@, url_view(uri@)),
            ControlEvent::Seek(d) => match seek_of(d, seek_amount) {
                Some(a) => r == Ok::<Request, EventError>(Request::Action(a)),
                None => r == Err::<Request, EventError>(EventError::SeekTooLong),
            },
            ControlEvent::SeekBy(d, ms) => match seek_of(d, ms) {
                Some(a) => r == Ok::<Request, EventError>(Request::Action(a)),
                None => r == Err::<Request, EventError>(EventError::SeekTooLong),
            },
            ControlEvent::SetPosition(ms) => r == Ok::<Request, EventError>(Request::Action(Action::Position(ms))),
            ControlEvent::SetVolume(v) => r == Ok::<Request, EventError>(Request::Action(Action::Volume(v))),
            ControlEvent::Raise | ControlEvent::Quit => r == Ok::<Request, EventError>(Request::Unsupported),
        },
{
    match event {
        ControlEvent::Play | ControlEvent::Pause | ControlEvent::Toggle => Ok(
            Request::Command { name: String::from_str("/PlayPause"), arg: None },
        ),
        ControlEvent::Next => Ok(Request::Command { name: String::from_str("/Next"), arg: None }),
        ControlEvent::Previous => Ok(Request::Command { name: String::from_str("/Previous"), arg: None }),
        ControlEvent::Stop => Ok(Request::Command { name: String::from_str("/Stop"), arg: None }),
        ControlEvent::OpenUri(uri) => Ok(
            Request::Command { name: String::from_str("/Play"), arg: Some(map_uri(uri.as_str())) },
        ),
        ControlEvent::Seek(direction) => match directioned_duration_to_seek(direction, seek_amount) {
            Ok(action) => Ok(Request::Action(action)),
            Err(e) => Err(e),
        },
        ControlEvent::SeekBy(direction, duration) => match directioned_duration_to_seek(direction, duration) {
            Ok(action) => Ok(Request::Action(action)),
            Err(e) => Err(e),
        },
        ControlEvent::SetPosition(position) => Ok(Request::Action(Action::Position(position))),
        ControlEvent::SetVolume(volume) => Ok(Request::Action(Action::Volume(volume))),
        ControlEvent::Raise | ControlEvent::Quit => Ok(Request::Unsupported),
    }
}

} // verus!
