//! The configuration: templates that refer to the environment, and the
//! mappings and paths derived from them.
use crate::text::{contains_text, replace_text, replaced, text_contains};
use crate::rpc::Service;
use aho_corasick::AhoCorasick;
use vstd::prelude::*;

verus! {

/// Whether `AhoCorasick::new` builds an automaton for `patterns`.
pub uninterp spec fn automaton_builds(patterns: Seq<Seq<char>>) -> bool;

/// What `AhoCorasick::replace_all` returns for an automaton built from
/// `patterns`.
pub uninterp spec fn replaced_all(patterns: Seq<Seq<char>>, haystack: Seq<char>, replace_with: Seq<Seq<char>>) -> Seq<char>;

pub open spec fn texts(v: Seq<String>) -> Seq<Seq<char>> {
    v.map_values(|s: String| s@)
}

/// Relies on `aho_corasick::AhoCorasick::new`, with its default standard
/// match semantics, and on `AhoCorasick::replace_all`, which replaces each
/// match of the pattern with index `k` by `replace_with[k]`.
#[verifier::external_body]
fn replace_all(patterns: &Vec<String>, haystack: &str, replace_with: &Vec<String>) -> (r: Option<String>)
    requires
        patterns@.len() == replace_with@.len(),
    ensures
        r is Some == automaton_builds(texts(patterns@)),
        r matches Some(s) ==> s@ == replaced_all(texts(patterns@), haystack@, texts(replace_with@)),
{
    match AhoCorasick::new(patterns) {
        Ok(automaton) => Some(automaton.replace_all(haystack, replace_with)),
        Err(_) => None,
    }
}

/// The references that a template may hold, in the order of their values:
/// the home directory, the user name, and the wine prefix.
pub open spec fn reference_names() -> Seq<Seq<char>> {
    seq!["{home_dir}"@, "{username}"@, "{wine_prefix}"@]
}

fn reference_patterns() -> (r: Vec<String>)
    ensures
        r@.len() == 3,
        texts(r@) == reference_names(),
{
    let mut r: Vec<String> = Vec::new();
    r.push(String::from_str("{home_dir}"));
    r.push(String::from_str("{username}"));
    r.push(String::from_str("{wine_prefix}"));
    assert(texts(r@) =~= reference_names());
    r
}

/// The user name: the home directory without its `/home/` part.
pub open spec fn username_of(home_dir: Seq<char>) -> Seq<char> {
    replaced(home_dir, "/home/"@, ""@)
}

/// `template` with each reference replaced by its value in `values`; left
/// as it is when no automaton can be built.
pub open spec fn substituted(template: Seq<char>, values: Seq<Seq<char>>) -> Seq<char> {
    if automaton_builds(reference_names()) {
        replaced_all(reference_names(), template, values)
    } else {
        template
    }
}

/// The wine prefix: its template resolved, where a reference of the prefix
/// to itself stays as written.
pub open spec fn wine_prefix_of(wine_template: Seq<char>, home_dir: Seq<char>) -> Seq<char> {
    substituted(wine_template, seq![home_dir, username_of(home_dir), "{wine_prefix}"@])
}

/// The values of the references for a configuration whose wine prefix is
/// written `wine_template`.
pub open spec fn reference_values(wine_template: Seq<char>, home_dir: Seq<char>) -> Seq<Seq<char>> {
    seq![home_dir, username_of(home_dir), wine_prefix_of(wine_template, home_dir)]
}

/// A configuration string that may refer to `{home_dir}`, `{username}` and
/// `{wine_prefix}`.
#[derive(Clone, Debug)]
pub struct UnresolvedReference {
    template: String,
}

impl View for UnresolvedReference {
    type V = Seq<char>;

    closed spec fn view(&self) -> Seq<char> {
        self.template@
    }
}

/// A configuration string together with its resolved value.
#[derive(Clone, Debug)]
pub struct ReferencedString {
    template: String,
    referred: String,
}

impl View for ReferencedString {
    type V = Seq<char>;

    /// The resolved value.
    closed spec fn view(&self) -> Seq<char> {
        self.referred@
    }
}

impl ReferencedString {
    pub closed spec fn template_spec(&self) -> Seq<char> {
        self.template@
    }

    /// The resolved value.
    pub fn get(&self) -> (r: &str)
        ensures
            r@ == self@,
    {
        self.referred.as_str()
    }

    /// The template as written.
    pub fn template(&self) -> (r: &str)
        ensures
            r@ == self.template_spec(),
    {
        self.template.as_str()
    }
}

fn home_and_user(home_dir: &str) -> (r: Vec<String>)
    ensures
        r@.len() == 2,
        texts(r@) == seq![home_dir@, username_of(home_dir@)],
{
    let home = String::from_str(home_dir);
    let user = replace_text(home_dir, "/home/", "");
    let mut r: Vec<String> = Vec::new();
    r.push(home);
    r.push(user);
    assert(texts(r@) =~= seq![home_dir@, username_of(home_dir@)]);
    r
}

fn substitute(template: &str, values: &Vec<String>) -> (r: String)
    requires
        values@.len() == 3,
    ensures
        r@ == substituted(template@, texts(values@)),
{
    let patterns = reference_patterns();
    match replace_all(&patterns, template, values) {
        Some(s) => s,
        None => String::from_str(template),
    }
}

impl UnresolvedReference {
    pub fn from_template(template: &str) -> (r: UnresolvedReference)
        ensures
            r@ == template@,
    {
        UnresolvedReference { template: String::from_str(template) }
    }

    pub fn template(&self) -> (r: &str)
        ensures
            r@ == self@,
    {
        self.template.as_str()
    }

    /// The value of the wine prefix that `self` writes, with a reference of
    /// the prefix to itself left as written.
    fn get_recursive(&self, home_dir: &str) -> (r: String)
        ensures
            r@ == wine_prefix_of(self@, home_dir@),
    {
        let mut values = home_and_user(home_dir);
        values.push(String::from_str("{wine_prefix}"));
        assert(texts(values@) =~= seq![home_dir@, username_of(home_dir@), "{wine_prefix}"@]);
        substitute(self.template.as_str(), &values)
    }

    /// The values of the references, for a configuration whose wine prefix
    /// is `self`.
    fn values(&self, home_dir: &str) -> (r: Vec<String>)
        ensures
            r@.len() == 3,
            texts(r@) == reference_values(self@, home_dir@),
    {
        let mut values = home_and_user(home_dir);
        values.push(self.get_recursive(home_dir));
        assert(texts(values@) =~= reference_values(self@, home_dir@));
        values
    }

    fn resolve_with(self, values: &Vec<String>) -> (r: ReferencedString)
        requires
            values@.len() == 3,
        ensures
            r.template_spec() == self@,
            r@ == substituted(self@, texts(values@)),
    {
        let referred = substitute(self.template.as_str(), values);
        ReferencedString { referred, template: self.template }
    }

    /// Resolves the references against `config`, with `home_dir` the home
    /// directory of the user, and keeps the template beside the value.
    pub fn resolve(self, config: &UnresolvedConfig, home_dir: &str) -> (r: ReferencedString)
        ensures
            r.template_spec() == self@,
            r@ == substituted(self@, reference_values(config.commands.wine_prefix@, home_dir@)),
    {
        let values = config.commands.wine_prefix.values(home_dir);
        self.resolve_with(&values)
    }
}

/// A replacement of one prefix of file names by another.
#[derive(Clone, Debug)]
pub struct Mapping<T> {
    pub from: T,
    pub to: T,
}

impl Mapping<UnresolvedReference> {
    pub fn resolve(self, config: &UnresolvedConfig, home_dir: &str) -> (r: Mapping<ReferencedString>)
        ensures
            r.from.template_spec() == self.from@,
            r.to.template_spec() == self.to@,
            r.from@ == substituted(self.from@, reference_values(config.commands.wine_prefix@, home_dir@)),
            r.to@ == substituted(self.to@, reference_values(config.commands.wine_prefix@, home_dir@)),
    {
        let values = config.commands.wine_prefix.values(home_dir);
        self.resolve_with(&values)
    }

    fn resolve_with(self, values: &Vec<String>) -> (r: Mapping<ReferencedString>)
        requires
            values@.len() == 3,
        ensures
            r.from.template_spec() == self.from@,
            r.to.template_spec() == self.to@,
            r.from@ == substituted(self.from@, texts(values@)),
            r.to@ == substituted(self.to@, texts(values@)),
    {
        Mapping { from: self.from.resolve_with(values), to: self.to.resolve_with(values) }
    }
}

impl Mapping<ReferencedString> {
    /// `string` with each occurrence of `from` replaced by `to`.
    pub fn map(&self, string: &str) -> (r: String)
        ensures
            r@ == replaced(string@, self.from@, self.to@),
    {
        replace_text(string, self.from.get(), self.to.get())
    }
}

/// How to run the media player's own commands.
#[derive(Clone, Debug)]
pub struct Commands<T> {
    pub wine_command: String,
    pub wine_prefix: T,
    pub musicbee_location: String,
}

/// A program to start: its path, one environment variable, its arguments.
#[derive(Clone, Debug)]
pub struct Invocation {
    pub program: String,
    pub env_key: String,
    pub env_value: String,
    pub args: Vec<String>,
}

impl Commands<UnresolvedReference> {
    pub fn resolve(self, config: &UnresolvedConfig, home_dir: &str) -> (r: Commands<ReferencedString>)
        ensures
            r.wine_command == self.wine_command,
            r.musicbee_location == self.musicbee_location,
            r.wine_prefix.template_spec() == self.wine_prefix@,
            r.wine_prefix@ == substituted(self.wine_prefix@, reference_values(config.commands.wine_prefix@, home_dir@)),
    {
        let values = config.commands.wine_prefix.values(home_dir);
        self.resolve_with(&values)
    }

    fn resolve_with(self, values: &Vec<String>) -> (r: Commands<ReferencedString>)
        requires
            values@.len() == 3,
        ensures
            r.wine_command == self.wine_command,
            r.musicbee_location == self.musicbee_location,
            r.wine_prefix.template_spec() == self.wine_prefix@,
            r.wine_prefix@ == substituted(self.wine_prefix@, texts(values@)),
    {
        Commands {
            wine_prefix: self.wine_prefix.resolve_with(values),
            wine_command: self.wine_command,
            musicbee_location: self.musicbee_location,
        }
    }
}

impl Commands<ReferencedString> {
    /// The wine command with `WINEPREFIX` set, run on the player with
    /// `command` and, if given, `arg`.
    pub fn invocation(&self, command: &str, arg: Option<String>) -> (r: Invocation)
        ensures
            r.program@ == self.wine_command@,
            r.env_key@ == "WINEPREFIX"@,
            r.env_value@ == self.wine_prefix@,
            texts(r.args@) == match arg {
                Some(a) => seq![self.musicbee_location@, command@, a@],
                None => seq![self.musicbee_location@, command@],
            },
    {
        let mut args: Vec<String> = Vec::new();
        args.push(String::from_str(self.musicbee_location.as_str()));
        args.push(String::from_str(command));
        match arg {
            Some(a) => args.push(a),
            None => {},
        }
        let r = Invocation {
            program: String::from_str(self.wine_command.as_str()),
            env_key: String::from_str("WINEPREFIX"),
            env_value: String::from_str(self.wine_prefix.get()),
            args,
        };
        assert(texts(r.args@) =~= match arg {
            Some(a) => seq![self.musicbee_location@, command@, a@],
            None => seq![self.musicbee_location@, command@],
        });
        r
    }
}

/// Where the daemon and the player's plugin exchange files.
#[derive(Clone, Debug)]
pub struct Communication {
    pub directory: String,
}

impl Communication {
    /// The path of the exchange file `name`.
    pub fn get_comm_path(&self, name: &str) -> (r: String)
        ensures
            r@ == self.directory@ + "/"@ + name@,
    {
        let mut r = String::from_str(self.directory.as_str());
        r.append("/");
        r.append(name);
        r
    }
}

/// The configuration, with references of type `T`: unresolved as read, or
/// resolved.
#[derive(Clone, Debug)]
pub struct Referenced<T> {
    pub commands: Commands<T>,
    pub communication: Communication,
    pub music_file_mapper: Mapping<T>,
    pub temporary_file_mapper: Mapping<T>,
    pub detach_on_stop: bool,
    pub exit_with_plugin: bool,
    /// How far a seek goes, in milliseconds.
    pub seek_amount: u64,
    /// Where covers are uploaded for the presence service.
    pub rpc_service: Service,
}

pub type Config = Referenced<ReferencedString>;

pub type UnresolvedConfig = Referenced<UnresolvedReference>;

/// The name of the configuration file in its folder.
pub const CONFIG_FILE: &'static str = "config.ron";

/// Why no configuration could be read.
#[derive(Clone, Copy, Debug, PartialEq, Eq, Structural)]
pub enum GetError {
    NotFound,
}

/// Why the configuration as written could not be used.
#[derive(Clone, Debug)]
pub enum ConfigError {
    /// There is no configuration file.
    Get(GetError),
    /// The file could not be read or parsed; the text says why.
    Other(String),
}

/// The configuration to run with: the one read, else `fallback` (the
/// defaults, saved for next time), together with the error to report; a
/// missing file is no error.
pub fn get_or_save_default(loaded: Result<Config, ConfigError>, fallback: Config) -> (r: (Config, Option<ConfigError>))
    ensures
        match loaded {
            Ok(c) => r.0 == c && r.1 is None,
            Err(ConfigError::Get(_)) => r.0 == fallback && r.1 is None,
            Err(e) => r.0 == fallback && r.1 == Some(e),
        },
{
    match loaded {
        Ok(config) => (config, None),
        Err(ConfigError::Get(_)) => (fallback, None),
        Err(e) => (fallback, Some(e)),
    }
}

/// A template resolved with `values`, its template kept.
pub open spec fn resolved_from(r: ReferencedString, template: UnresolvedReference, values: Seq<Seq<char>>) -> bool {
    r.template_spec() == template@ && r@ == substituted(template@, values)
}

impl UnresolvedConfig {
    /// Resolves every reference, with `home_dir` the home directory of the
    /// user; the values are taken from the configuration as read.
    pub fn resolve(self, home_dir: &str) -> (r: Config)
        ensures
            ({
                let values = reference_values(self.commands.wine_prefix@, home_dir@);
                &&& resolved_from(r.music_file_mapper.from, self.music_file_mapper.from, values)
                &&& resolved_from(r.music_file_mapper.to, self.music_file_mapper.to, values)
                &&& resolved_from(r.temporary_file_mapper.from, self.temporary_file_mapper.from, values)
                &&& resolved_from(r.temporary_file_mapper.to, self.temporary_file_mapper.to, values)
                &&& resolved_from(r.commands.wine_prefix, self.commands.wine_prefix, values)
            }),
            r.commands.wine_command == self.commands.wine_command,
            r.commands.musicbee_location == self.commands.musicbee_location,
            r.communication == self.communication,
            r.detach_on_stop == self.detach_on_stop,
            r.exit_with_plugin == self.exit_with_plugin,
            r.seek_amount == self.seek_amount,
            r.rpc_service == self.rpc_service,
    {
        let values = self.commands.wine_prefix.values(home_dir);
        Referenced {
            music_file_mapper: self.music_file_mapper.resolve_with(&values),
            temporary_file_mapper: self.temporary_file_mapper.resolve_with(&values),
            commands: self.commands.resolve_with(&values),
            communication: self.communication,
            detach_on_stop: self.detach_on_stop,
            exit_with_plugin: self.exit_with_plugin,
            seek_amount: self.seek_amount,
            rpc_service: self.rpc_service,
        }
    }

    /// The configuration used when none has been written.
    pub fn defaults() -> (r: UnresolvedConfig)
        ensures
            r.commands.wine_command@ == "wine"@,
            r.commands.musicbee_location@ == "C:/Program Files/MusicBee/MusicBee.exe"@,
            r.commands.wine_prefix@ == "{home_dir}/Documents/executables/musicbee/.wine"@,
            r.communication.directory@ == "/tmp/musicbee-mediakeys"@,
            r.music_file_mapper.from@ == "C:/Users/{username}/Music"@,
            r.music_file_mapper.to@ == "{home_dir}/Music"@,
            r.temporary_file_mapper.from@ == "C:/"@,
            r.temporary_file_mapper.to@ == "{wine_prefix}/drive_c/"@,
            r.detach_on_stop,
            r.exit_with_plugin,
            r.seek_amount == 5000,
            r.rpc_service == Service::Litterbox,
    {
        Referenced {
            communication: Communication { directory: String::from_str("/tmp/musicbee-mediakeys") },
            commands: Commands {
                wine_command: String::from_str("wine"),
                musicbee_location: String::from_str("C:/Program Files/MusicBee/MusicBee.exe"),
                wine_prefix: UnresolvedReference::from_template("{home_dir}/Documents/executables/musicbee/.wine"),
            },
            music_file_mapper: Mapping {
                from: UnresolvedReference::from_template("C:/Users/{username}/Music"),
                to: UnresolvedReference::from_template("{home_dir}/Music"),
            },
            temporary_file_mapper: Mapping {
                from: UnresolvedReference::from_template("C:/"),
                to: UnresolvedReference::from_template("{wine_prefix}/drive_c/"),
            },
            detach_on_stop: true,
            exit_with_plugin: true,
            seek_amount: 5000,
            rpc_service: Service::Litterbox,
        }
    }
}

/// The file name with back slashes turned into slashes.
pub open spec fn slashed(name: Seq<char>) -> Seq<char> {
    replaced(name, "\\"@, "/"@)
}

/// Where a file name of the player, with slashes only, is found here:
/// names of temporary files go through the temporary mapper, the others
/// through the music mapper.
pub open spec fn mapped_slashed(config: Config, name: Seq<char>) -> Seq<char> {
    if contains_text(name, "Temp"@) {
        replaced(name, config.temporary_file_mapper.from@, config.temporary_file_mapper.to@)
    } else {
        replaced(name, config.music_file_mapper.from@, config.music_file_mapper.to@)
    }
}

/// Where a file name of the player is found here.
pub open spec fn mapped_filename(config: Config, name: Seq<char>) -> Seq<char> {
    mapped_slashed(config, slashed(name))
}

impl Config {
    /// The local path of a file that the player names.
    pub fn map_filename(&self, name: &str) -> (r: String)
        ensures
            r@ == mapped_filename(*self, name@),
    {
        let name = replace_text(name, "\\", "/");
        self.map_slashed_filename(name.as_str())
    }

    /// The local path of a file that the player names, its back slashes
    /// already turned into slashes.
    pub fn map_slashed_filename(&self, name: &str) -> (r: String)
        ensures
            r@ == mapped_slashed(*self, name@),
    {
        if text_contains(name, "Temp") {
            self.temporary_file_mapper.map(name)
        } else {
            self.music_file_mapper.map(name)
        }
    }

    /// The path of the exchange file `name`.
    pub fn get_comm_path(&self, name: &str) -> (r: String)
        ensures
            r@ == self.communication.directory@ + "/"@ + name@,
    {
        self.communication.get_comm_path(name)
    }

    /// How to run the player's command `command` with the optional `arg`.
    pub fn invocation(&self, command: &str, arg: Option<String>) -> (r: Invocation)
        ensures
            r.program@ == self.commands.wine_command@,
            r.env_key@ == "WINEPREFIX"@,
            r.env_value@ == self.commands.wine_prefix@,
            texts(r.args@) == match arg {
                Some(a) => seq![self.commands.musicbee_location@, command@, a@],
                None => seq![self.commands.musicbee_location@, command@],
            },
    {
        self.commands.invocation(command, arg)
    }
}

} // verus!
