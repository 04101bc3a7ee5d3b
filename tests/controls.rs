use handler::command::{ControlEvent, SeekDirection, Volume};
use handler::communication::{Action, RepeatMode};
use handler::media_controls::{
    directioned_duration_to_seek, handle_event, map_parsed_uri, map_uri, EventError, Request,
};

fn command_of(r: Result<Request, EventError>) -> (String, Option<String>) {
    match r {
        Ok(Request::Command { name, arg }) => (name, arg),
        _ => panic!("not a command"),
    }
}

#[test]
fn action_texts() {
    assert_eq!(Action::Seek { milis: -5000 }.to_string(), "seek -5000");
    assert_eq!(Action::Seek { milis: 0 }.to_string(), "seek 0");
    assert_eq!(Action::Seek { milis: i32::MIN }.to_string(), "seek -2147483648");
    assert_eq!(Action::Position(1234).to_string(), "position 1234");
    assert_eq!(Action::Volume(Volume { millionths: 530000 }).to_string(), "volume 53");
    assert_eq!(Action::Shuffle(true).to_string(), "shuffle true");
    assert_eq!(Action::Repeat(RepeatMode::Off).to_string(), "repeat none");
    assert_eq!(Action::Repeat(RepeatMode::One).to_string(), "repeat one");
}

#[test]
fn seeks() {
    assert_eq!(
        directioned_duration_to_seek(SeekDirection::Backward, 5000),
        Ok(Action::Seek { milis: -5000 })
    );
    assert_eq!(
        directioned_duration_to_seek(SeekDirection::Forward, 2147483647),
        Ok(Action::Seek { milis: 2147483647 })
    );
    assert_eq!(
        directioned_duration_to_seek(SeekDirection::Forward, 2147483648),
        Err(EventError::SeekTooLong)
    );
}

#[test]
fn events_to_requests() {
    assert_eq!(command_of(handle_event(ControlEvent::Toggle, 5000)), ("/PlayPause".to_string(), None));
    assert_eq!(command_of(handle_event(ControlEvent::Play, 5000)), ("/PlayPause".to_string(), None));
    assert_eq!(command_of(handle_event(ControlEvent::Next, 5000)), ("/Next".to_string(), None));
    assert_eq!(command_of(handle_event(ControlEvent::Previous, 5000)), ("/Previous".to_string(), None));
    assert_eq!(command_of(handle_event(ControlEvent::Stop, 5000)), ("/Stop".to_string(), None));
    assert!(matches!(
        handle_event(ControlEvent::Seek(SeekDirection::Backward), 5000),
        Ok(Request::Action(Action::Seek { milis: -5000 }))
    ));
    assert!(matches!(
        handle_event(ControlEvent::SeekBy(SeekDirection::Forward, 3000000000), 5000),
        Err(EventError::SeekTooLong)
    ));
    assert!(matches!(
        handle_event(ControlEvent::SetPosition(42), 5000),
        Ok(Request::Action(Action::Position(42)))
    ));
    assert!(matches!(
        handle_event(ControlEvent::SetVolume(Volume { millionths: 10 }), 5000),
        Ok(Request::Action(Action::Volume(Volume { millionths: 10 })))
    ));
    assert!(matches!(handle_event(ControlEvent::Raise, 5000), Ok(Request::Unsupported)));
    assert_eq!(
        command_of(handle_event(ControlEvent::OpenUri("file:///home/alice/a%20b.mp3".to_string()), 1)),
        ("/Play".to_string(), Some("Z:/home/alice/a b.mp3".to_string()))
    );
}

#[test]
fn uris() {
    assert_eq!(map_uri("file:///home/alice/a%20b.mp3"), "Z:/home/alice/a b.mp3");
    assert_eq!(map_uri("https://example.org/a"), "https://example.org/a");
    assert_eq!(map_uri("HTTPS://Example.org"), "https://example.org/");
    assert_eq!(map_uri("not a uri"), "not a uri");
    assert_eq!(map_parsed_uri("x", None), "x");
}

#[test]
fn volumes() {
    assert_eq!(Volume::from_millionths(1000001), None);
    assert_eq!(Volume::from_millionths(1000000), Some(Volume { millionths: 1000000 }));
    assert_eq!(Volume { millionths: 999999 }.percent(), 99);
    assert_eq!(Volume { millionths: 1000000 }.percent(), 100);
}
