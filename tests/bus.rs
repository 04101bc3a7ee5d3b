use handler::command::{Command, ControlEvent, OwnedMetadata, PlaybackState, Volume};
use handler::listener::{List, Listener, ListenerError, Logger};
use handler::messages::Messages;
use std::cell::RefCell;
use std::rc::Rc;

type Log = Rc<RefCell<Vec<String>>>;

struct Recorder {
    name: &'static str,
    attached: bool,
    fail_attach: bool,
    log: Log,
}

impl Recorder {
    fn new(name: &'static str, log: &Log) -> Recorder {
        Recorder { name, attached: false, fail_attach: false, log: log.clone() }
    }

    fn record(&self, what: String) {
        self.log.borrow_mut().push(format!("{}.{}", self.name, what));
    }
}

impl Listener for Recorder {
    fn attached(&self) -> bool {
        self.attached
    }

    fn is_attached(&self) -> bool {
        self.attached
    }

    fn attach(&mut self) -> Result<(), ListenerError> {
        self.record("attach".to_string());
        if self.attached {
            return Err(ListenerError::AlreadyAttached);
        }
        if self.fail_attach {
            return Err(ListenerError::Backend("unavailable".to_string()));
        }
        self.attached = true;
        Ok(())
    }

    fn detach(&mut self) -> Result<(), ListenerError> {
        self.record("detach".to_string());
        if !self.attached {
            return Err(ListenerError::AlreadyDetached);
        }
        self.attached = false;
        Ok(())
    }

    fn on_metadata(&mut self, metadata: &OwnedMetadata) -> Result<(), ListenerError> {
        let title = metadata.title.clone().unwrap_or_default();
        self.record(format!("metadata({title})"));
        Ok(())
    }

    fn on_playback(&mut self, playback: &PlaybackState) -> Result<(), ListenerError> {
        self.record(format!("playback({})", playback.display()));
        Ok(())
    }

    fn on_volume(&mut self, volume: Volume) -> Result<(), ListenerError> {
        self.record(format!("volume({})", volume.millionths));
        Ok(())
    }

    fn on_control_event(&mut self, event: &ControlEvent) -> Result<(), ListenerError> {
        self.record(format!("event({event:?})"));
        Ok(())
    }

    fn name(&self) -> String {
        self.name.to_string()
    }
}

fn song(title: &str) -> OwnedMetadata {
    OwnedMetadata {
        title: Some(title.to_string()),
        album: None,
        artist: None,
        cover_url: None,
        duration: None,
    }
}

fn two_members(log: &Log, detach_on_stop: bool) -> Messages<Recorder> {
    let mut list = List::new();
    list.add(Recorder::new("A", log));
    list.add(Recorder::new("B", log));
    Messages::new(list, detach_on_stop, true)
}

fn take(log: &Log) -> Vec<String> {
    std::mem::take(&mut *log.borrow_mut())
}

fn of(log: &[String], member: &str) -> Vec<String> {
    let prefix = format!("{member}.");
    log.iter().filter(|l| l.starts_with(&prefix)).map(|l| l[prefix.len()..].to_string()).collect()
}

#[test]
fn scenario_two_backends() {
    let log: Log = Rc::new(RefCell::new(Vec::new()));
    let mut bus = two_members(&log, true);

    bus.submit(Command::AttachmentRequested(true));
    bus.run();
    assert_eq!(take(&log), vec!["A.attach", "B.attach"]);
    assert!(bus.is_attached());

    bus.submit(Command::MetadataChanged(song("Song")));
    bus.run();
    assert_eq!(take(&log), vec!["A.metadata(Song)", "B.metadata(Song)"]);
    assert_eq!(bus.list().cache().metadata.as_ref().unwrap().title.as_deref(), Some("Song"));

    bus.submit(Command::PlaybackChanged(PlaybackState::Stopped));
    bus.run();
    assert_eq!(
        take(&log),
        vec!["A.detach", "B.detach", "A.playback(stopped)", "B.playback(stopped)"]
    );
    assert!(!bus.is_attached());

    bus.submit(Command::PlaybackChanged(PlaybackState::Playing { progress: None }));
    bus.run();
    assert_eq!(
        take(&log),
        vec![
            "A.attach",
            "B.attach",
            "A.metadata(Song)",
            "B.metadata(Song)",
            "A.playback(stopped)",
            "B.playback(stopped)",
            "A.playback(playing)",
            "B.playback(playing)",
        ]
    );
    assert!(bus.is_attached());

    bus.submit(Command::Exit);
    let failures = bus.run();
    assert!(failures.is_empty());
    assert_eq!(take(&log), vec!["A.detach", "B.detach"]);
    assert!(bus.has_exited());
    assert!(!bus.is_attached());
}

#[test]
fn attach_then_metadata_reaches_both() {
    let log: Log = Rc::new(RefCell::new(Vec::new()));
    let mut bus = two_members(&log, true);
    bus.attach();
    bus.metadata(song("Song"));
    bus.run();
    let all = take(&log);
    assert_eq!(of(&all, "A"), vec!["attach", "metadata(Song)"]);
    assert_eq!(of(&all, "B"), vec!["attach", "metadata(Song)"]);
}

#[test]
fn stop_detaches_before_delivering() {
    let log: Log = Rc::new(RefCell::new(Vec::new()));
    let mut bus = two_members(&log, true);
    bus.attach();
    bus.run();
    take(&log);
    bus.playback(PlaybackState::Stopped);
    bus.volume(Volume { millionths: 500000 });
    bus.run();
    let all = take(&log);
    assert_eq!(of(&all, "A"), vec!["detach", "playback(stopped)", "volume(500000)"]);
    assert!(!bus.is_attached());
}

#[test]
fn stop_without_policy_keeps_attachment() {
    let log: Log = Rc::new(RefCell::new(Vec::new()));
    let mut bus = two_members(&log, false);
    bus.attach();
    bus.run();
    take(&log);
    bus.playback(PlaybackState::Stopped);
    bus.run();
    assert_eq!(take(&log), vec!["A.playback(stopped)", "B.playback(stopped)"]);
    assert!(bus.is_attached());
}

#[test]
fn playing_while_attached_only_forwards() {
    let log: Log = Rc::new(RefCell::new(Vec::new()));
    let mut bus = two_members(&log, true);
    bus.attach();
    bus.run();
    take(&log);
    bus.playback(PlaybackState::Paused { progress: Some(10) });
    bus.run();
    assert_eq!(take(&log), vec!["A.playback(paused)", "B.playback(paused)"]);
}

#[test]
fn order_of_submission_is_kept() {
    let log: Log = Rc::new(RefCell::new(Vec::new()));
    let mut bus = two_members(&log, false);
    bus.submit(Command::VolumeChanged(Volume { millionths: 1 }));
    bus.submit(Command::MetadataChanged(song("One")));
    bus.submit(Command::VolumeChanged(Volume { millionths: 2 }));
    bus.submit(Command::MetadataChanged(song("Two")));
    bus.submit(Command::ExternalControlEvent(ControlEvent::Next));
    bus.run();
    let all = take(&log);
    let expected = vec!["volume(1)", "metadata(One)", "volume(2)", "metadata(Two)", "event(Next)"];
    assert_eq!(of(&all, "A"), expected);
    assert_eq!(of(&all, "B"), expected);
    assert_eq!(all[0], "A.volume(1)");
    assert_eq!(all[1], "B.volume(1)");
}

#[test]
fn aggregate_is_false_when_one_member_fails_to_attach() {
    let log: Log = Rc::new(RefCell::new(Vec::new()));
    let mut list = List::new();
    list.add(Recorder::new("A", &log));
    let mut b = Recorder::new("B", &log);
    b.fail_attach = true;
    list.add(b);
    let outcome = list.dispatch(Command::AttachmentRequested(true));
    assert_eq!(outcome.failures.len(), 1);
    assert_eq!(outcome.failures[0].member, 1);
    assert!(list.member(0).is_attached());
    assert!(!list.member(1).is_attached());
    assert!(!list.is_attached());
    list.member_mut(1).fail_attach = false;
    list.dispatch(Command::AttachmentRequested(true));
    assert!(list.is_attached());
    assert_eq!(of(&take(&log), "A"), vec!["attach"]);
}

#[test]
fn empty_and_full_aggregate() {
    let log: Log = Rc::new(RefCell::new(Vec::new()));
    let mut list = List::new();
    list.add(Recorder::new("A", &log));
    list.add(Recorder::new("B", &log));
    assert!(!list.is_attached());
    list.member_mut(0).attached = true;
    assert!(!list.is_attached());
    list.member_mut(1).attached = true;
    assert!(list.is_attached());
    list.member_mut(0).attached = false;
    assert!(!list.is_attached());
}

#[test]
fn attach_and_detach_twice_call_once() {
    let log: Log = Rc::new(RefCell::new(Vec::new()));
    let mut list = List::new();
    list.add(Recorder::new("A", &log));
    list.add(Recorder::new("B", &log));
    list.dispatch(Command::AttachmentRequested(true));
    list.dispatch(Command::AttachmentRequested(true));
    assert_eq!(take(&log), vec!["A.attach", "B.attach"]);
    list.dispatch(Command::AttachmentRequested(false));
    let second = list.dispatch(Command::AttachmentRequested(false));
    assert!(second.failures.is_empty());
    assert_eq!(take(&log), vec!["A.detach", "B.detach"]);
}

#[test]
fn refresh_after_attach_delivers_cache_in_order() {
    let log: Log = Rc::new(RefCell::new(Vec::new()));
    let mut list = List::new();
    list.add(Recorder::new("A", &log));
    list.dispatch(Command::MetadataChanged(song("M")));
    list.dispatch(Command::PlaybackChanged(PlaybackState::Paused { progress: Some(3) }));
    list.dispatch(Command::VolumeChanged(Volume { millionths: 250000 }));
    take(&log);
    list.dispatch(Command::AttachmentRequested(true));
    list.dispatch(Command::RefreshRequested);
    assert_eq!(
        take(&log),
        vec!["A.attach", "A.metadata(M)", "A.playback(paused)", "A.volume(250000)"]
    );
}

#[test]
fn refresh_skips_detached_members_and_empty_cache() {
    let log: Log = Rc::new(RefCell::new(Vec::new()));
    let mut list = List::new();
    list.add(Recorder::new("A", &log));
    list.add(Recorder::new("B", &log));
    list.dispatch(Command::RefreshRequested);
    assert!(take(&log).is_empty());
    list.dispatch(Command::VolumeChanged(Volume { millionths: 7 }));
    list.member_mut(1).attached = true;
    take(&log);
    list.dispatch(Command::RefreshRequested);
    assert_eq!(take(&log), vec!["B.volume(7)"]);
}

#[test]
fn exit_detaches_only_attached_members() {
    let log: Log = Rc::new(RefCell::new(Vec::new()));
    let mut list = List::new();
    list.add(Recorder::new("A", &log));
    list.add(Recorder::new("B", &log));
    list.add(Recorder::new("C", &log));
    list.member_mut(0).attached = true;
    list.member_mut(2).attached = true;
    let outcome = list.dispatch(Command::Exit);
    assert!(outcome.exit);
    assert_eq!(take(&log), vec!["A.detach", "C.detach"]);
}

#[test]
fn nothing_is_delivered_after_exit() {
    let log: Log = Rc::new(RefCell::new(Vec::new()));
    let mut bus = two_members(&log, true);
    bus.exit();
    bus.metadata(song("Late"));
    bus.run();
    assert!(bus.has_exited());
    assert!(take(&log).is_empty());
    assert!(bus.step().is_none());
}

#[test]
fn plugin_activation_follows_policy() {
    let log: Log = Rc::new(RefCell::new(Vec::new()));
    let mut bus = two_members(&log, true);
    bus.plugin_activated(true);
    bus.run();
    assert!(bus.is_attached());
    bus.plugin_activated(false);
    bus.run();
    assert!(bus.has_exited());
    assert_eq!(take(&log), vec!["A.attach", "B.attach", "A.detach", "B.detach"]);

    let mut list = List::new();
    list.add(Recorder::new("A", &log));
    let mut stays = Messages::new(list, true, false);
    stays.plugin_activated(true);
    stays.plugin_activated(false);
    stays.run();
    assert!(!stays.has_exited());
    assert_eq!(take(&log), vec!["A.attach", "A.detach"]);
}

#[test]
fn logger_describes_updates() {
    let mut list = List::new();
    list.add(Logger::new());
    list.dispatch(Command::AttachmentRequested(true));
    let mut metadata = song("Title");
    metadata.artist = Some("Artist".to_string());
    list.dispatch(Command::MetadataChanged(metadata));
    list.dispatch(Command::PlaybackChanged(PlaybackState::Playing { progress: Some(1) }));
    list.dispatch(Command::VolumeChanged(Volume { millionths: 530000 }));
    list.dispatch(Command::Exit);
    let lines = list.member_mut(0).take_lines();
    assert_eq!(
        lines,
        vec![
            "attaching...",
            "updating metadata: Artist - Title",
            "updating playback: playing",
            "updating volume: 53%",
            "detaching...",
        ]
    );
    assert!(list.member_mut(0).take_lines().is_empty());
}

#[test]
fn step_on_empty_queue_does_nothing() {
    let log: Log = Rc::new(RefCell::new(Vec::new()));
    let mut bus = two_members(&log, true);
    assert!(bus.step().is_none());
    bus.update();
    let outcome = bus.step().unwrap();
    assert!(!outcome.exit);
    assert!(bus.step().is_none());
    assert!(take(&log).is_empty());
}

struct Flaky {
    inner: Recorder,
}

impl Listener for Flaky {
    fn attached(&self) -> bool {
        self.inner.attached
    }
    fn is_attached(&self) -> bool {
        self.inner.is_attached()
    }
    fn attach(&mut self) -> Result<(), ListenerError> {
        self.inner.attach()
    }
    fn detach(&mut self) -> Result<(), ListenerError> {
        self.inner.detach()
    }
    fn on_metadata(&mut self, metadata: &OwnedMetadata) -> Result<(), ListenerError> {
        self.inner.on_metadata(metadata)?;
        Err(ListenerError::Backend("metadata refused".to_string()))
    }
    fn on_playback(&mut self, playback: &PlaybackState) -> Result<(), ListenerError> {
        self.inner.on_playback(playback)
    }
    fn on_volume(&mut self, volume: Volume) -> Result<(), ListenerError> {
        self.inner.on_volume(volume)
    }
    fn on_control_event(&mut self, event: &ControlEvent) -> Result<(), ListenerError> {
        self.inner.on_control_event(event)
    }
    fn name(&self) -> String {
        self.inner.name()
    }
}

#[test]
fn failures_do_not_stop_the_run() {
    let log: Log = Rc::new(RefCell::new(Vec::new()));
    let mut list = List::new();
    list.add(Flaky { inner: Recorder::new("A", &log) });
    let mut bus = Messages::new(list, false, true);
    bus.metadata(song("One"));
    bus.volume(Volume { millionths: 3 });
    bus.metadata(song("Two"));
    bus.exit();
    bus.metadata(song("Late"));
    let failures = bus.run();
    assert_eq!(failures.len(), 2);
    assert!(failures.iter().all(|f| f.member == 0));
    assert_eq!(take(&log), vec!["A.metadata(One)", "A.volume(3)", "A.metadata(Two)"]);
    assert!(bus.has_exited());
}

#[test]
fn logger_ignores_repeated_attach() {
    let mut logger = Logger::new();
    assert!(logger.attach().is_ok());
    assert!(matches!(logger.attach(), Err(ListenerError::AlreadyAttached)));
    assert!(logger.on_control_event(&ControlEvent::Next).is_ok());
    assert_eq!(logger.take_lines(), vec!["attaching..."]);
    assert!(logger.detach().is_ok());
    assert!(matches!(logger.detach(), Err(ListenerError::AlreadyDetached)));
    assert_eq!(logger.take_lines(), vec!["detaching..."]);
}
