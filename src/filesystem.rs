//! The files through which the player's plugin reports its state: their
//! names, and how their text becomes state updates.
use crate::command::PlaybackState;
use crate::config::Config;
use crate::locator::{file_url, file_url_of, opt_text};
use crate::config::mapped_filename;
use crate::text::{lines, lines_of, parse_bool, parse_u64, text_eq, trim, trimmed, bool_of, u64_of};
use std::path::Path;
use vstd::prelude::*;

verus! {

pub const METADATA_FILE: &'static str = "metadata";

pub const PLAYBACK_FILE: &'static str = "playback";

pub const ACTION_FILE: &'static str = "action";

pub const PLUGIN_ACTIVATED_FILE: &'static str = "plugin-activated";

pub const VOLUME_FILE: &'static str = "volume";

/// Which exchange file changed.
#[derive(Clone, Copy, Debug, PartialEq, Eq, Structural)]
pub enum FileUpdate {
    Metadata,
    Playback,
    Volume,
    PluginActivation,
}

pub open spec fn update_of(name: Seq<char>) -> Option<FileUpdate> {
    if name == "metadata"@ {
        Some(FileUpdate::Metadata)
    } else if name == "playback"@ {
        Some(FileUpdate::Playback)
    } else if name == "volume"@ {
        Some(FileUpdate::Volume)
    } else if name == "plugin-activated"@ {
        Some(FileUpdate::PluginActivation)
    } else {
        None
    }
}

/// The update that a change of the file named `file_name` calls for.
pub fn file_update(file_name: &str) -> (r: Option<FileUpdate>)
    ensures
        r == update_of(file_name@),
{
    if text_eq(file_name, METADATA_FILE) {
        Some(FileUpdate::Metadata)
    } else if text_eq(file_name, PLAYBACK_FILE) {
        Some(FileUpdate::Playback)
    } else if text_eq(file_name, VOLUME_FILE) {
        Some(FileUpdate::Volume)
    } else if text_eq(file_name, PLUGIN_ACTIVATED_FILE) {
        Some(FileUpdate::PluginActivation)
    } else {
        None
    }
}

/// Why the text of an exchange file was refused.
#[derive(Clone, Debug)]
pub enum MalformedFile {
    /// The playback file, or its state word.
    Playback(String),
    /// The metadata file.
    Metadata(String),
    /// The volume file.
    Volume(String),
    /// The plugin activation file.
    PluginActivation(String),
    /// A number that the file should hold.
    Number(String),
}

/// The state that the two lines of the playback file give: `word`, the
/// first line trimmed, names the state, and `progress` is the position in
/// milliseconds.  An error says whether a number was malformed, and what
/// text was refused.
pub open spec fn playback_of_fields(word: Seq<char>, progress: Seq<char>) -> Result<Option<PlaybackState>, (bool, Seq<char>)> {
    match u64_of(progress) {
        None => Err((true, progress)),
        Some(p) => if word == "stopped"@ {
            Ok(Some(PlaybackState::Stopped))
        } else if word == "paused"@ {
            Ok(Some(PlaybackState::Paused { progress: Some(p) }))
        } else if word == "playing"@ {
            Ok(Some(PlaybackState::Playing { progress: Some(p) }))
        } else if word == "loading"@ {
            Ok(None)
        } else {
            Err((false, word))
        },
    }
}

/// The state of the playback file `text`: `None` for an empty file (it is
/// being written) or while loading; two lines, a state word and a position
/// in milliseconds, otherwise.
pub open spec fn playback_of(text: Seq<char>) -> Result<Option<PlaybackState>, (bool, Seq<char>)> {
    let ls = lines_of(text);
    if text.len() == 0 {
        Ok(None)
    } else if ls.len() != 2 {
        Err((false, trimmed(text)))
    } else {
        playback_of_fields(trimmed(ls[0]), ls[1])
    }
}

/// The error for a refused text: a malformed number, or a malformed
/// playback file.
pub open spec fn playback_error(r: MalformedFile, e: (bool, Seq<char>)) -> bool {
    if e.0 {
        r matches MalformedFile::Number(s) && s@ == e.1
    } else {
        r matches MalformedFile::Playback(s) && s@ == e.1
    }
}

/// The state from the two lines of the playback file, the first trimmed.
pub fn playback_from_fields(word: &str, progress: &str) -> (r: Result<Option<PlaybackState>, MalformedFile>)
    ensures
        match playback_of_fields(word@, progress@) {
            Ok(p) => r == Ok::<Option<PlaybackState>, MalformedFile>(p),
            Err(e) => r matches Err(m) && playback_error(m, e),
        },
{
    let progress = match parse_u64(progress) {
        Some(p) => p,
        None => {
            return Err(MalformedFile::Number(String::from_str(progress)));
        },
    };
    if text_eq(word, "stopped") {
        Ok(Some(PlaybackState::Stopped))
    } else if text_eq(word, "paused") {
        Ok(Some(PlaybackState::Paused { progress: Some(progress) }))
    } else if text_eq(word, "playing") {
        Ok(Some(PlaybackState::Playing { progress: Some(progress) }))
    } else if text_eq(word, "loading") {
        Ok(None)
    } else {
        Err(MalformedFile::Playback(String::from_str(word)))
    }
}

/// Reads the playback file.
pub fn parse_playback(text: &str) -> (r: Result<Option<PlaybackState>, MalformedFile>)
    ensures
        match playback_of(text@) {
            Ok(p) => r == Ok::<Option<PlaybackState>, MalformedFile>(p),
            Err(e) => r matches Err(m) && playback_error(m, e),
        },
{
    if text.is_empty() {
        return Ok(None);
    }
    let ls = lines(text);
    assert(ls@.len() == lines_of(text@).len());
    if ls.len() != 2 {
        return Err(MalformedFile::Playback(String::from_str(trim(text))));
    }
    assert(ls@[0]@ == lines_of(text@)[0]);
    assert(ls@[1]@ == lines_of(text@)[1]);
    playback_from_fields(trim(ls[0].as_str()), ls[1].as_str())
}

/// What the metadata file holds: five lines, the title, album, artist, the
/// player's path of the cover, and the duration in milliseconds.
pub struct MetadataFile {
    pub title: String,
    pub album: String,
    pub artist: String,
    pub cover: String,
    pub duration: u64,
}

/// The metadata from the lines of a non-empty metadata file `text`.  An
/// error says whether a number was malformed, and what text was refused.
pub open spec fn metadata_of_lines(ls: Seq<Seq<char>>, text: Seq<char>) -> Result<Option<(Seq<Seq<char>>, u64)>, (bool, Seq<char>)> {
    if ls.len() != 5 {
        Err((false, text))
    } else {
        match u64_of(ls[4]) {
            None => Err((true, ls[4])),
            Some(d) => Ok(Some((ls.subrange(0, 4), d))),
        }
    }
}

/// The metadata file `text`: `None` when it is empty (it is being written).
pub open spec fn metadata_of(text: Seq<char>) -> Result<Option<(Seq<Seq<char>>, u64)>, (bool, Seq<char>)> {
    if text.len() == 0 {
        Ok(None)
    } else {
        metadata_of_lines(lines_of(text), text)
    }
}

pub open spec fn metadata_result(
    r: Result<Option<MetadataFile>, MalformedFile>,
    expected: Result<Option<(Seq<Seq<char>>, u64)>, (bool, Seq<char>)>,
) -> bool {
    match expected {
        Ok(None) => r matches Ok(None),
        Ok(Some((fields, d))) => r matches Ok(Some(m)) && m.title@ == fields[0] && m.album@ == fields[1]
            && m.artist@ == fields[2] && m.cover@ == fields[3] && m.duration == d,
        Err((true, e)) => r matches Err(MalformedFile::Number(s)) && s@ == e,
        Err((false, e)) => r matches Err(MalformedFile::Metadata(s)) && s@ == e,
    }
}

/// The metadata from the lines `ls` of the metadata file `text`.
pub fn metadata_from_lines(ls: Vec<String>, text: &str) -> (r: Result<Option<MetadataFile>, MalformedFile>)
    ensures
        metadata_result(r, metadata_of_lines(ls@.map_values(|l: String| l@), text@)),
{
    let mut ls = ls;
    let ghost fields = ls@.map_values(|l: String| l@);
    if ls.len() != 5 {
        return Err(MalformedFile::Metadata(String::from_str(text)));
    }
    assert(forall|i: int| 0 <= i < 5 ==> ls@[i]@ == #[trigger] fields[i]);
    let duration = match parse_u64(ls[4].as_str()) {
        Some(d) => d,
        None => {
            return Err(MalformedFile::Number(String::from_str(ls[4].as_str())));
        },
    };
    let _ = ls.pop();
    let cover = ls.pop().unwrap();
    let artist = ls.pop().unwrap();
    let album = ls.pop().unwrap();
    let title = ls.pop().unwrap();
    Ok(Some(MetadataFile { title, album, artist, cover, duration }))
}

/// Reads the metadata file.
pub fn parse_metadata(text: &str) -> (r: Result<Option<MetadataFile>, MalformedFile>)
    ensures
        metadata_result(r, metadata_of(text@)),
{
    if text.is_empty() {
        return Ok(None);
    }
    let ls = lines(text);
    metadata_from_lines(ls, text)
}

/// Whether the player's plugin is active, from its file `text`: `None`
/// while the file is empty; else `true` or `false`, exactly.
pub open spec fn plugin_activation_of(text: Seq<char>) -> Result<Option<bool>, Seq<char>> {
    if text.len() == 0 {
        Ok(None)
    } else {
        match bool_of(text) {
            Some(b) => Ok(Some(b)),
            None => Err(text),
        }
    }
}

/// Reads the plugin activation file.
pub fn plugin_available(text: &str) -> (r: Result<Option<bool>, MalformedFile>)
    ensures
        match plugin_activation_of(text@) {
            Ok(a) => r == Ok::<Option<bool>, MalformedFile>(a),
            Err(e) => r matches Err(MalformedFile::PluginActivation(s)) && s@ == e,
        },
{
    if text.is_empty() {
        return Ok(None);
    }
    match parse_bool(text) {
        Some(b) => Ok(Some(b)),
        None => Err(MalformedFile::PluginActivation(String::from_str(text))),
    }
}

/// `Path::file_stem` of `p`, when it is valid UTF-8.
pub uninterp spec fn file_stem_of(p: Seq<char>) -> Option<Seq<char>>;

/// `Path::extension` of `p`, when it is valid UTF-8.
pub uninterp spec fn extension_of(p: Seq<char>) -> Option<Seq<char>>;

/// `Path::with_file_name` of `p` and `name`.
pub uninterp spec fn with_file_name_of(p: Seq<char>, name: Seq<char>) -> Seq<char>;

/// Relies on `std::path::Path::file_stem`.
#[verifier::external_body]
fn file_stem(p: &str) -> (r: Option<String>)
    ensures
        opt_text(r) == file_stem_of(p@),
{
    match Path::new(p).file_stem() {
        Some(part) => part.to_str().map(str::to_owned),
        None => None,
    }
}

/// Relies on `std::path::Path::extension`.
#[verifier::external_body]
fn extension(p: &str) -> (r: Option<String>)
    ensures
        opt_text(r) == extension_of(p@),
{
    match Path::new(p).extension() {
        Some(part) => part.to_str().map(str::to_owned),
        None => None,
    }
}

/// Relies on `std::path::Path::with_file_name`; both arguments are UTF-8, so
/// the result is too.
#[verifier::external_body]
fn with_file_name(p: &str, name: &str) -> (r: String)
    ensures
        r@ == with_file_name_of(p@, name@),
{
    Path::new(p).with_file_name(name).to_string_lossy().into_owned()
}

/// The other capitalization of a cover's file stem that the player is known
/// to get wrong.
pub open spec fn recapitalized(stem: Seq<char>) -> Option<Seq<char>> {
    if stem == "folder"@ {
        Some("Folder"@)
    } else if stem == "Folder"@ {
        Some("folder"@)
    } else if stem == "cover"@ {
        Some("Cover"@)
    } else if stem == "Cover"@ {
        Some("cover"@)
    } else {
        None
    }
}

/// The file name with the other capitalization of the stem `stem`, the
/// extension kept.
pub open spec fn recapitalized_name(stem: Seq<char>, extension: Option<Seq<char>>) -> Option<Seq<char>> {
    match recapitalized(stem) {
        None => None,
        Some(name) => Some(
            match extension {
                Some(e) => name + "."@ + e,
                None => name,
            },
        ),
    }
}

/// The cover path with the other capitalization of its file stem, the
/// extension kept.
pub open spec fn changed_capitalization(path: Seq<char>) -> Option<Seq<char>> {
    match file_stem_of(path) {
        None => None,
        Some(stem) => match recapitalized_name(stem, extension_of(path)) {
            None => None,
            Some(name) => Some(with_file_name_of(path, name)),
        },
    }
}

/// The file name with the other capitalization of `stem`, and `extension`.
pub fn recapitalized_file_name(stem: &str, extension: Option<String>) -> (r: Option<String>)
    ensures
        opt_text(r) == recapitalized_name(stem@, opt_text(extension)),
{
    let replacement = if text_eq(stem, "folder") {
        "Folder"
    } else if text_eq(stem, "Folder") {
        "folder"
    } else if text_eq(stem, "cover") {
        "Cover"
    } else if text_eq(stem, "Cover") {
        "cover"
    } else {
        return None;
    };
    let mut name = String::from_str(replacement);
    match extension {
        Some(e) => {
            name.append(".");
            name.append(e.as_str());
        },
        None => {},
    }
    Some(name)
}

pub fn change_cover_capitalization(path: &str) -> (r: Option<String>)
    ensures
        opt_text(r) == changed_capitalization(path@),
{
    let stem = match file_stem(path) {
        Some(stem) => stem,
        None => {
            return None;
        },
    };
    match recapitalized_file_name(stem.as_str(), extension(path)) {
        Some(name) => Some(with_file_name(path, name.as_str())),
        None => None,
    }
}

/// The local paths where the cover that the player names may be, in the
/// order in which to look: none for an empty name, else the mapped path,
/// then the path with the other capitalization.
pub open spec fn cover_candidates_of(config: Config, cover: Seq<char>) -> Seq<Seq<char>> {
    if cover.len() == 0 {
        Seq::empty()
    } else {
        let mapped = mapped_filename(config, cover);
        match changed_capitalization(mapped) {
            Some(other) => seq![mapped, other],
            None => seq![mapped],
        }
    }
}

pub fn cover_candidates(cover: &str, config: &Config) -> (r: Vec<String>)
    ensures
        r@.map_values(|s: String| s@) == cover_candidates_of(*config, cover@),
{
    let mut r: Vec<String> = Vec::new();
    if cover.is_empty() {
        assert(r@.map_values(|s: String| s@) =~= cover_candidates_of(*config, cover@));
        return r;
    }
    let mapped = config.map_filename(cover);
    let other = change_cover_capitalization(mapped.as_str());
    r.push(mapped);
    match other {
        Some(o) => r.push(o),
        None => {},
    }
    assert(r@.map_values(|s: String| s@) =~= cover_candidates_of(*config, cover@));
    r
}

/// The locator of the cover file at `path`: its `file:` URL, or `None` when
/// the path is not absolute.
pub fn cover_url(path: &str) -> (r: Option<String>)
    ensures
        opt_text(r) == file_url_of(path@),
{
    file_url(path)
}

} // verus!
