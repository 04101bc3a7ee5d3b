use handler::cli::{default_config_path, Cli, Commands, RunConfig};
use handler::command::OwnedMetadata;
use handler::rpc::presence_text;
use handler::config::{
    get_or_save_default, Communication, Config, ConfigError, GetError, UnresolvedConfig,
    UnresolvedReference, CONFIG_FILE,
};
use handler::daemon::pid_file;
use handler::rpc::Service;

fn resolved() -> Config {
    UnresolvedConfig::defaults().resolve("/home/alice")
}

#[test]
fn defaults_resolve_against_home() {
    let config = resolved();
    assert_eq!(config.music_file_mapper.from.get(), "C:/Users/alice/Music");
    assert_eq!(config.music_file_mapper.to.get(), "/home/alice/Music");
    assert_eq!(config.music_file_mapper.from.template(), "C:/Users/{username}/Music");
    assert_eq!(config.temporary_file_mapper.from.get(), "C:/");
    assert_eq!(
        config.temporary_file_mapper.to.get(),
        "/home/alice/Documents/executables/musicbee/.wine/drive_c/"
    );
    assert_eq!(config.commands.wine_prefix.get(), "/home/alice/Documents/executables/musicbee/.wine");
    assert_eq!(config.commands.wine_command, "wine");
    assert!(config.detach_on_stop);
    assert!(config.exit_with_plugin);
    assert_eq!(config.seek_amount, 5000);
    assert_eq!(config.rpc_service, Service::Litterbox);
}

#[test]
fn reference_resolves_with_config_values() {
    let mut config = UnresolvedConfig::defaults();
    config.commands.wine_prefix = UnresolvedReference::from_template("/opt/{username}/wine");
    let r = UnresolvedReference::from_template("{wine_prefix}|{home_dir}|{username}|{other}")
        .resolve(&config, "/home/bob");
    assert_eq!(r.get(), "/opt/bob/wine|/home/bob|bob|{other}");
    assert_eq!(r.template(), "{wine_prefix}|{home_dir}|{username}|{other}");
}

#[test]
fn wine_prefix_refering_to_itself_expands_once() {
    let mut config = UnresolvedConfig::defaults();
    config.commands.wine_prefix = UnresolvedReference::from_template("{wine_prefix}/x");
    let resolved = config.resolve("/home/carol");
    assert_eq!(resolved.commands.wine_prefix.get(), "{wine_prefix}/x/x");
}

#[test]
fn username_outside_home_keeps_the_path() {
    let config = UnresolvedConfig::defaults();
    let r = UnresolvedReference::from_template("{username}").resolve(&config, "/root");
    assert_eq!(r.get(), "/root");
}

#[test]
fn mapping_replaces_prefix() {
    let config = resolved();
    assert_eq!(config.music_file_mapper.map("C:/Users/alice/Music/a.mp3"), "/home/alice/Music/a.mp3");
    assert_eq!(config.music_file_mapper.map("D:/elsewhere.mp3"), "D:/elsewhere.mp3");
}

#[test]
fn map_filename_of_music_and_temporary_files() {
    let config = resolved();
    assert_eq!(
        config.map_filename("C:\\Users\\alice\\Music\\Artist\\song.mp3"),
        "/home/alice/Music/Artist/song.mp3"
    );
    assert_eq!(
        config.map_filename("C:\\Users\\alice\\AppData\\Local\\Temp\\cover.jpg"),
        "/home/alice/Documents/executables/musicbee/.wine/drive_c/Users/alice/AppData/Local/Temp/cover.jpg"
    );
}

#[test]
fn comm_paths() {
    let config = resolved();
    assert_eq!(config.get_comm_path("metadata"), "/tmp/musicbee-mediakeys/metadata");
    let c = Communication { directory: "/x".to_string() };
    assert_eq!(c.get_comm_path("volume"), "/x/volume");
}

#[test]
fn pid_file_location() {
    let config = resolved();
    assert_eq!(pid_file(&config, None), "/tmp/musicbee-mediakeys/daemon.pid");
    assert_eq!(pid_file(&config, Some("/run/user/1000".to_string())), "/run/user/1000/daemon.pid");
    assert_eq!(pid_file(&config, Some("/run/".to_string())), "/run/daemon.pid");
}

#[test]
fn config_file_in_folder() {
    let cli = Cli {
        config_path: "/home/alice/.config/mk".to_string(),
        command: Commands::Run {
            run_config: RunConfig { force: false, detach: true, tray: true, replace: true },
        },
    };
    assert_eq!(cli.config_file(), "/home/alice/.config/mk/config.ron");
    let cli = Cli { config_path: "/etc/".to_string(), command: Commands::End };
    assert_eq!(cli.config_file(), format!("/etc/{CONFIG_FILE}"));
}

#[test]
fn invocation_of_player_command() {
    let config = resolved();
    let inv = config.invocation("/Play", Some("Z:/a.mp3".to_string()));
    assert_eq!(inv.program, "wine");
    assert_eq!(inv.env_key, "WINEPREFIX");
    assert_eq!(inv.env_value, "/home/alice/Documents/executables/musicbee/.wine");
    assert_eq!(inv.args, vec!["C:/Program Files/MusicBee/MusicBee.exe", "/Play", "Z:/a.mp3"]);
    let inv = config.commands.invocation("/Next", None);
    assert_eq!(inv.args, vec!["C:/Program Files/MusicBee/MusicBee.exe", "/Next"]);
}

#[test]
fn services() {
    assert!(Service::Imgur.needs_deleting());
    assert!(!Service::Litterbox.needs_deleting());
}

#[test]
fn pid_file_text() {
    assert_eq!(handler::daemon::parse_pid(" 4242\n"), Some(4242));
    assert_eq!(handler::daemon::parse_pid("4294967295"), Some(4294967295));
    assert_eq!(handler::daemon::parse_pid("4294967296"), None);
    assert_eq!(handler::daemon::parse_pid("pid"), None);
}

#[test]
fn default_config_folder() {
    assert_eq!(default_config_path(Some("/cfg/mk".to_string()), Some("/home/a".to_string())), "/cfg/mk");
    assert_eq!(default_config_path(None, Some("/home/a".to_string())), "/home/a/.config/musicbeemediakeys");
    assert_eq!(default_config_path(None, None), "");
}

#[test]
fn config_fallback_decision() {
    let mut read = resolved();
    read.detach_on_stop = false;
    let (config, err) = get_or_save_default(Ok(read), resolved());
    assert!(!config.detach_on_stop);
    assert!(err.is_none());
    let (config, err) = get_or_save_default(Err(ConfigError::Get(GetError::NotFound)), resolved());
    assert!(config.detach_on_stop);
    assert!(err.is_none());
    let (config, err) = get_or_save_default(Err(ConfigError::Other("bad".to_string())), resolved());
    assert!(config.detach_on_stop);
    assert!(matches!(err, Some(ConfigError::Other(s)) if s == "bad"));
}

#[test]
fn presence_lines() {
    let m = OwnedMetadata {
        title: Some("Song".to_string()),
        album: Some("Album".to_string()),
        artist: Some("Artist".to_string()),
        cover_url: None,
        duration: None,
    };
    let text = presence_text(&m);
    assert_eq!(text.state, "Song");
    assert_eq!(text.details, "Artist - Album");
    let empty = OwnedMetadata { title: None, album: None, artist: None, cover_url: None, duration: None };
    let text = presence_text(&empty);
    assert_eq!(text.state, "");
    assert_eq!(text.details, " - ");
}

#[test]
fn map_slashed_names() {
    let config = resolved();
    assert_eq!(config.map_slashed_filename("C:/Users/alice/Music/a.mp3"), "/home/alice/Music/a.mp3");
    assert_eq!(
        config.map_slashed_filename("C:/Temp/x.jpg"),
        "/home/alice/Documents/executables/musicbee/.wine/drive_c/Temp/x.jpg"
    );
    assert_eq!(config.map_slashed_filename("C:\\Users\\alice\\Music\\a.mp3"), "C:\\Users\\alice\\Music\\a.mp3");
}
