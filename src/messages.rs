//! The command bus: a queue in front of the registry, and the lifecycle
//! policy that it applies on delivery.
use crate::command::{Command, ControlEvent, OwnedMetadata, PlaybackState, Volume};
use crate::listener::{
    cache_after, calls, lemma_reported_append, reported_called, Call, Failure, List, Listener, Outcome,
    StateCache,
};
use std::collections::VecDeque;
use vstd::prelude::*;

verus! {

/// The commands that the bus delivers for an incoming `c`: with
/// `detach_on_stop`, a stop is preceded by a detach request, and playing or
/// pausing while not every listener is attached is preceded by an attach
/// request and a refresh.
pub open spec fn expansion(c: Command, detach_on_stop: bool, all_attached: bool) -> Seq<Command> {
    match c {
        Command::PlaybackChanged(p) => if !detach_on_stop {
            seq![c]
        } else if p is Stopped {
            seq![Command::AttachmentRequested(false), c]
        } else if !all_attached {
            seq![Command::AttachmentRequested(true), Command::RefreshRequested, c]
        } else {
            seq![c]
        },
        _ => seq![c],
    }
}

/// The calls made by delivering `cmds` one after the other, numbered from
/// `command`, where none of them changes the attached flags `flags`.
pub open spec fn later_calls(command: nat, cmds: Seq<Command>, flags: Seq<bool>, cache: StateCache) -> Seq<Call>
    decreases cmds.len(),
{
    if cmds.len() == 0 {
        Seq::empty()
    } else {
        calls(command, cmds[0], flags, cache) + later_calls(command + 1, cmds.drop_first(), flags, cache_after(cmds[0], cache))
    }
}

/// The calls made by delivering `cmds` in order, numbered from `command`:
/// the first one finds the flags `before`; only it may change them, and the
/// others find `after`.
pub open spec fn expansion_calls(
    command: nat,
    cmds: Seq<Command>,
    before: Seq<bool>,
    after: Seq<bool>,
    cache: StateCache,
) -> Seq<Call> {
    if cmds.len() == 0 {
        Seq::empty()
    } else {
        calls(command, cmds[0], before, cache) + later_calls(command + 1, cmds.drop_first(), after, cache_after(cmds[0], cache))
    }
}

pub proof fn lemma_later_one(command: nat, c: Command, flags: Seq<bool>, cache: StateCache)
    ensures
        later_calls(command, seq![c], flags, cache) == calls(command, c, flags, cache),
{
    assert(seq![c].drop_first() =~= Seq::<Command>::empty());
    assert(seq![c][0] == c);
    assert(later_calls(command + 1, Seq::<Command>::empty(), flags, cache_after(c, cache))
        == Seq::<Call>::empty());
    assert(later_calls(command, seq![c], flags, cache) =~= calls(command, c, flags, cache));
}

pub proof fn lemma_later_two(command: nat, a: Command, c: Command, flags: Seq<bool>, cache: StateCache)
    ensures
        later_calls(command, seq![a, c], flags, cache) == calls(command, a, flags, cache) + calls(
            command + 1,
            c,
            flags,
            cache_after(a, cache),
        ),
{
    assert(seq![a, c].drop_first() =~= seq![c]);
    assert(seq![a, c][0] == a);
    lemma_later_one(command + 1, c, flags, cache_after(a, cache));
}

/// What the bus holds, as the contracts see it.
pub struct BusState {
    pub pending: Seq<Command>,
    pub history: Seq<Call>,
    pub delivered: nat,
    pub flags: Seq<bool>,
    pub cache: StateCache,
    pub exited: bool,
}

/// Whether every flag is set.
pub open spec fn all_set(flags: Seq<bool>) -> bool {
    forall|i: int| 0 <= i < flags.len() ==> #[trigger] flags[i]
}

/// One delivery by the bus takes it from `a` to `b`: the oldest pending
/// command leaves the queue and is delivered, preceded by what the
/// lifecycle policy asks for, and `failures` are reported for members that
/// were called.
pub open spec fn delivers(a: BusState, b: BusState, detach_on_stop: bool, failures: Seq<Failure>) -> bool {
    &&& !a.exited
    &&& a.pending.len() > 0
    &&& {
        let c = a.pending[0];
        let cmds = expansion(c, detach_on_stop, all_set(a.flags));
        let added = expansion_calls(a.delivered, cmds, a.flags, b.flags, a.cache);
        &&& b.pending == a.pending.drop_first()
        &&& b.exited == (c is Exit)
        &&& b.flags.len() == a.flags.len()
        &&& b.delivered == a.delivered + cmds.len()
        &&& b.history == a.history + added
        &&& b.cache == cache_after(c, a.cache)
        &&& reported_called(failures, added)
    }
}

/// `states` are the successive states of a run: each delivery takes one to
/// the next (the failures reported by delivery `i` being `reports[i]`), and
/// the run stops once the queue is empty or `Exit` has been delivered.
pub open spec fn run_of(states: Seq<BusState>, reports: Seq<Seq<Failure>>, detach_on_stop: bool) -> bool {
    &&& deliveries(states, reports, detach_on_stop)
    &&& states.last().exited || states.last().pending.len() == 0
}

/// `states` are successive states, each delivery taking one to the next.
pub open spec fn deliveries(states: Seq<BusState>, reports: Seq<Seq<Failure>>, detach_on_stop: bool) -> bool {
    &&& states.len() >= 1
    &&& reports.len() == states.len() - 1
    &&& forall|i: int| 0 <= i < states.len() - 1 ==> delivers(#[trigger] states[i], states[i + 1], detach_on_stop, reports[i])
}

/// The reports of a run, one after the other.
pub open spec fn all_reports(reports: Seq<Seq<Failure>>) -> Seq<Failure>
    decreases reports.len(),
{
    if reports.len() == 0 {
        Seq::empty()
    } else {
        all_reports(reports.drop_last()) + reports.last()
    }
}

proof fn lemma_bounded_append(f1: Seq<Failure>, f2: Seq<Failure>, n: nat)
    requires
        forall|k: int| 0 <= k < f1.len() ==> #[trigger] f1[k].member < n,
        forall|k: int| 0 <= k < f2.len() ==> #[trigger] f2[k].member < n,
    ensures
        forall|k: int| 0 <= k < (f1 + f2).len() ==> #[trigger] (f1 + f2)[k].member < n,
{
    assert forall|k: int| 0 <= k < (f1 + f2).len() implies #[trigger] (f1 + f2)[k].member < n by {
        if k < f1.len() {
            assert((f1 + f2)[k] == f1[k]);
        } else {
            assert((f1 + f2)[k] == f2[k - f1.len()]);
        }
    }
}

/// The command bus: a first-in first-out queue of commands in front of the
/// registry that owns every listener.
pub struct Messages<L> {
    queue: VecDeque<Command>,
    list: List<L>,
    detach_on_stop: bool,
    exit_with_plugin: bool,
    exited: bool,
}

impl<L: Listener> Messages<L> {
    /// The commands submitted and not yet delivered, oldest first.
    pub closed spec fn pending(&self) -> Seq<Command> {
        self.queue@
    }

    pub closed spec fn registry(&self) -> &List<L> {
        &self.list
    }

    pub closed spec fn detaches_on_stop(&self) -> bool {
        self.detach_on_stop
    }

    pub closed spec fn exits_with_plugin(&self) -> bool {
        self.exit_with_plugin
    }

    /// `Exit` has been delivered: the bus delivers nothing more.
    pub closed spec fn exited(&self) -> bool {
        self.exited
    }

    pub open spec fn wf(&self) -> bool {
        self.registry().wf()
    }

    pub open spec fn state(&self) -> BusState {
        BusState {
            pending: self.pending(),
            history: self.registry().history(),
            delivered: self.registry().delivered(),
            flags: self.registry().flags(),
            cache: *self.registry().cached(),
            exited: self.exited(),
        }
    }

    pub fn new(list: List<L>, detach_on_stop: bool, exit_with_plugin: bool) -> (r: Self)
        requires
            list.wf(),
        ensures
            r.wf(),
            *r.registry() == list,
            r.pending() == Seq::<Command>::empty(),
            r.detaches_on_stop() == detach_on_stop,
            r.exits_with_plugin() == exit_with_plugin,
            !r.exited(),
    {
        Messages { queue: VecDeque::new(), list, detach_on_stop, exit_with_plugin, exited: false }
    }

    /// The registry behind the bus.
    pub fn list(&self) -> (r: &List<L>)
        ensures
            r == self.registry(),
    {
        &self.list
    }

    /// The registry behind the bus, to be changed in place.
    pub fn list_mut(&mut self) -> (r: &mut List<L>)
        ensures
            *r == *old(self).registry(),
            *final(self).registry() == *final(r),
            final(self).pending() == old(self).pending(),
            final(self).exited() == old(self).exited(),
            final(self).detaches_on_stop() == old(self).detaches_on_stop(),
            final(self).exits_with_plugin() == old(self).exits_with_plugin(),
    {
        &mut self.list
    }

    pub fn has_exited(&self) -> (r: bool)
        ensures
            r == self.exited(),
    {
        self.exited
    }

    /// Whether every listener is attached.
    pub fn is_attached(&self) -> (r: bool)
        ensures
            r == self.registry().all_attached(),
    {
        self.list.is_attached()
    }

    /// Queues `command` after every command submitted before it.
    pub fn submit(&mut self, command: Command)
        ensures
            final(self).pending() == old(self).pending().push(command),
            final(self).registry() == old(self).registry(),
            final(self).exited() == old(self).exited(),
            final(self).detaches_on_stop() == old(self).detaches_on_stop(),
            final(self).exits_with_plugin() == old(self).exits_with_plugin(),
    {
        self.queue.push_back(command);
    }

    /// Asks for the bus to stop, after every listener has been detached.
    pub fn exit(&mut self)
        ensures
            final(self).pending() == old(self).pending().push(Command::Exit),
            final(self).registry() == old(self).registry(),
            final(self).exited() == old(self).exited(),
            final(self).detaches_on_stop() == old(self).detaches_on_stop(),
            final(self).exits_with_plugin() == old(self).exits_with_plugin(),
    {
        self.submit(Command::Exit);
    }

    /// Asks for the last known state to be delivered again.
    pub fn update(&mut self)
        ensures
            final(self).pending() == old(self).pending().push(Command::RefreshRequested),
            final(self).registry() == old(self).registry(),
            final(self).exited() == old(self).exited(),
            final(self).detaches_on_stop() == old(self).detaches_on_stop(),
            final(self).exits_with_plugin() == old(self).exits_with_plugin(),
    {
        self.submit(Command::RefreshRequested);
    }

    pub fn playback(&mut self, playback: PlaybackState)
        ensures
            final(self).pending() == old(self).pending().push(Command::PlaybackChanged(playback)),
            final(self).registry() == old(self).registry(),
            final(self).exited() == old(self).exited(),
            final(self).detaches_on_stop() == old(self).detaches_on_stop(),
            final(self).exits_with_plugin() == old(self).exits_with_plugin(),
    {
        self.submit(Command::PlaybackChanged(playback));
    }

    pub fn metadata(&mut self, metadata: OwnedMetadata)
        ensures
            final(self).pending() == old(self).pending().push(Command::MetadataChanged(metadata)),
            final(self).registry() == old(self).registry(),
            final(self).exited() == old(self).exited(),
            final(self).detaches_on_stop() == old(self).detaches_on_stop(),
            final(self).exits_with_plugin() == old(self).exits_with_plugin(),
    {
        self.submit(Command::MetadataChanged(metadata));
    }

    pub fn volume(&mut self, volume: Volume)
        ensures
            final(self).pending() == old(self).pending().push(Command::VolumeChanged(volume)),
            final(self).registry() == old(self).registry(),
            final(self).exited() == old(self).exited(),
            final(self).detaches_on_stop() == old(self).detaches_on_stop(),
            final(self).exits_with_plugin() == old(self).exits_with_plugin(),
    {
        self.submit(Command::VolumeChanged(volume));
    }

    pub fn media_control_event(&mut self, event: ControlEvent)
        ensures
            final(self).pending() == old(self).pending().push(Command::ExternalControlEvent(event)),
            final(self).registry() == old(self).registry(),
            final(self).exited() == old(self).exited(),
            final(self).detaches_on_stop() == old(self).detaches_on_stop(),
            final(self).exits_with_plugin() == old(self).exits_with_plugin(),
    {
        self.submit(Command::ExternalControlEvent(event));
    }

    /// Asks for every listener to attach (then refresh) or to detach.
    pub fn attach_as(&mut self, attached: bool)
        ensures
            final(self).pending() == if attached {
                old(self).pending().push(Command::AttachmentRequested(true)).push(Command::RefreshRequested)
            } else {
                old(self).pending().push(Command::AttachmentRequested(false))
            },
            final(self).registry() == old(self).registry(),
            final(self).exited() == old(self).exited(),
            final(self).detaches_on_stop() == old(self).detaches_on_stop(),
            final(self).exits_with_plugin() == old(self).exits_with_plugin(),
    {
        self.submit(Command::AttachmentRequested(attached));
        if attached {
            self.update();
        }
    }

    pub fn attach(&mut self)
        ensures
            final(self).pending() == old(self).pending().push(Command::AttachmentRequested(true)).push(
                Command::RefreshRequested,
            ),
            final(self).registry() == old(self).registry(),
            final(self).exited() == old(self).exited(),
            final(self).detaches_on_stop() == old(self).detaches_on_stop(),
            final(self).exits_with_plugin() == old(self).exits_with_plugin(),
    {
        self.attach_as(true)
    }

    pub fn detach(&mut self)
        ensures
            final(self).pending() == old(self).pending().push(Command::AttachmentRequested(false)),
            final(self).registry() == old(self).registry(),
            final(self).exited() == old(self).exited(),
            final(self).detaches_on_stop() == old(self).detaches_on_stop(),
            final(self).exits_with_plugin() == old(self).exits_with_plugin(),
    {
        self.attach_as(false)
    }

    /// The media source became available (`true`) or unavailable: the bus
    /// exits if so configured, and otherwise attaches or detaches.
    pub fn plugin_activated(&mut self, activated: bool)
        ensures
            final(self).pending() == if !activated && old(self).exits_with_plugin() {
                old(self).pending().push(Command::Exit)
            } else if activated {
                old(self).pending().push(Command::AttachmentRequested(true)).push(Command::RefreshRequested)
            } else {
                old(self).pending().push(Command::AttachmentRequested(false))
            },
            final(self).registry() == old(self).registry(),
            final(self).exited() == old(self).exited(),
            final(self).detaches_on_stop() == old(self).detaches_on_stop(),
            final(self).exits_with_plugin() == old(self).exits_with_plugin(),
    {
        if !activated && self.exit_with_plugin {
            self.exit()
        } else {
            self.attach_as(activated)
        }
    }

    /// Delivers the oldest pending command, preceded by what the lifecycle
    /// policy asks for; does nothing once `Exit` has been delivered.
    pub fn step(&mut self) -> (r: Option<Outcome>)
        requires
            old(self).wf(),
        ensures
            final(self).wf(),
            final(self).detaches_on_stop() == old(self).detaches_on_stop(),
            final(self).exits_with_plugin() == old(self).exits_with_plugin(),
            old(self).exited() || old(self).pending().len() == 0 ==> {
                &&& r is None
                &&& final(self).pending() == old(self).pending()
                &&& final(self).registry() == old(self).registry()
                &&& final(self).exited() == old(self).exited()
            },
            !old(self).exited() && old(self).pending().len() > 0 ==> {
                let c = old(self).pending()[0];
                let before = old(self).registry();
                let after = final(self).registry();
                let cmds = expansion(c, old(self).detaches_on_stop(), before.all_attached());
                &&& r is Some
                &&& final(self).pending() == old(self).pending().drop_first()
                &&& final(self).exited() == (c is Exit)
                &&& r->0.exit == (c is Exit)
                &&& after.members().len() == before.members().len()
                &&& after.delivered() == before.delivered() + cmds.len()
                &&& after.history() == before.history() + expansion_calls(
                    before.delivered(),
                    cmds,
                    before.flags(),
                    after.flags(),
                    *before.cached(),
                )
                &&& *after.cached() == cache_after(c, *before.cached())
                &&& cmds[0] is AttachmentRequested || cmds[0] is Exit || after.flags() == before.flags()
                &&& cmds[0] == Command::AttachmentRequested(true) ==> forall|i: int|
                    0 <= i < before.flags().len() ==> (before.flags()[i] || r->0.failures@.len() == 0)
                        ==> #[trigger] after.flags()[i]
                &&& (cmds[0] == Command::AttachmentRequested(false) || cmds[0] is Exit) ==> forall|i: int|
                    0 <= i < before.flags().len() ==> (!before.flags()[i] || r->0.failures@.len() == 0)
                        ==> !#[trigger] after.flags()[i]
                &&& forall|k: int| 0 <= k < r->0.failures@.len() ==> #[trigger] r->0.failures@[k].member
                    < before.members().len()
                &&& delivers(old(self).state(), final(self).state(), old(self).detaches_on_stop(), r->0.failures@)
            },
    {
        if self.exited {
            return None;
        }
        let next = self.queue.pop_front();
        let command = match next {
            None => {
                return None;
            },
            Some(command) => command,
        };
        let ghost n = self.list.delivered();
        let ghost flags0 = self.list.flags();
        let ghost cache0 = *self.list.cached();
        let ghost cmds = expansion(command, self.detach_on_stop, self.list.all_attached());
        let ghost c = command;
        let mut outcome;
        match command {
            Command::PlaybackChanged(playback) if self.detach_on_stop => {
                if matches!(playback, PlaybackState::Stopped) {
                    let first = self.list.dispatch(Command::AttachmentRequested(false));
                    let ghost flags1 = self.list.flags();
                    outcome = self.list.dispatch(command);
                    let mut failures = first.failures;
                    proof {
                        lemma_reported_append(
                            failures@,
                            outcome.failures@,
                            calls(n, Command::AttachmentRequested(false), flags0, cache0),
                            calls(n + 1, c, flags1, cache0),
                        );
                        lemma_bounded_append(failures@, outcome.failures@, flags0.len());
                    }
                    failures.append(&mut outcome.failures);
                    outcome.failures = failures;
                    assert(cmds.drop_first() =~= seq![c]);
                    proof {
                        lemma_later_one(n + 1, c, self.list.flags(), cache0);
                    }
                } else if !self.list.is_attached() {
                    let first = self.list.dispatch(Command::AttachmentRequested(true));
                    let ghost flags1 = self.list.flags();
                    let mut second = self.list.dispatch(Command::RefreshRequested);
                    outcome = self.list.dispatch(command);
                    let mut failures = first.failures;
                    proof {
                        let a = calls(n, Command::AttachmentRequested(true), flags0, cache0);
                        let b = calls(n + 1, Command::RefreshRequested, flags1, cache0);
                        let d = calls(n + 2, c, flags1, cache0);
                        lemma_reported_append(failures@, second.failures@, a, b);
                        lemma_reported_append(failures@ + second.failures@, outcome.failures@, a + b, d);
                        lemma_bounded_append(failures@, second.failures@, flags0.len());
                        lemma_bounded_append(failures@ + second.failures@, outcome.failures@, flags0.len());
                        assert(a + (b + d) =~= a + b + d);
                    }
                    failures.append(&mut second.failures);
                    failures.append(&mut outcome.failures);
                    outcome.failures = failures;
                    assert(cmds.drop_first() =~= seq![Command::RefreshRequested, c]);
                    proof {
                        lemma_later_two(n + 1, Command::RefreshRequested, c, self.list.flags(), cache0);
                    }
                } else {
                    outcome = self.list.dispatch(command);
                    assert(cmds.drop_first() =~= Seq::<Command>::empty());
                    assert(cmds =~= seq![c]);
                }
            },
            _ => {
                outcome = self.list.dispatch(command);
                assert(cmds.drop_first() =~= Seq::<Command>::empty());
                assert(cmds =~= seq![c]);
            },
        }
        if outcome.exit {
            self.exited = true;
        }
        proof {
            assert(all_set(flags0) == old(self).registry().all_attached());
            let added = expansion_calls(n, cmds, flags0, self.list.flags(), cache0);
            assert(self.list.history() == old(self).registry().history() + added);
            assert(reported_called(outcome.failures@, added));
        }
        Some(outcome)
    }

    /// Delivers pending commands, oldest first, until none is left or `Exit`
    /// has been delivered; returns every failure that was reported.
    pub fn run(&mut self) -> (failures: Vec<Failure>)
        requires
            old(self).wf(),
        ensures
            final(self).wf(),
            exists|states: Seq<BusState>, reports: Seq<Seq<Failure>>|
                #[trigger] run_of(states, reports, old(self).detaches_on_stop()) && states[0] == old(self).state()
                    && states.last() == final(self).state() && #[trigger] all_reports(reports) == failures@,
            old(self).exited() ==> final(self).state() == old(self).state() && failures@.len() == 0,
            final(self).registry().members().len() == old(self).registry().members().len(),
            forall|k: int| 0 <= k < failures@.len() ==> #[trigger] failures@[k].member < old(self).registry().members().len(),
            final(self).detaches_on_stop() == old(self).detaches_on_stop(),
            final(self).exits_with_plugin() == old(self).exits_with_plugin(),
    {
        let mut failures: Vec<Failure> = Vec::new();
        let ghost mut states: Seq<BusState> = seq![self.state()];
        let ghost mut reports: Seq<Seq<Failure>> = Seq::empty();
        assert(all_reports(reports) =~= failures@);
        loop
            invariant
                self.wf(),
                deliveries(states, reports, old(self).detaches_on_stop()),
                states[0] == old(self).state(),
                states.last() == self.state(),
                all_reports(reports) == failures@,
                old(self).exited() ==> self.state() == old(self).state() && failures@.len() == 0,
                self.registry().members().len() == old(self).registry().members().len(),
                forall|k: int| 0 <= k < failures@.len() ==> #[trigger] failures@[k].member < old(self).registry().members().len(),
                self.detaches_on_stop() == old(self).detaches_on_stop(),
                self.exits_with_plugin() == old(self).exits_with_plugin(),
            decreases self.pending().len(),
        {
            let ghost before = self.state();
            match self.step() {
                None => {
                    assert(run_of(states, reports, old(self).detaches_on_stop()));
                    return failures;
                },
                Some(mut outcome) => {
                    let ghost report = outcome.failures@;
                    proof {
                        let next = self.state();
                        let s2 = states.push(next);
                        let r2 = reports.push(report);
                        assert forall|i: int| 0 <= i < s2.len() - 1 implies delivers(
                            #[trigger] s2[i],
                            s2[i + 1],
                            old(self).detaches_on_stop(),
                            r2[i],
                        ) by {
                            if i < states.len() - 1 {
                                assert(s2[i] == states[i]);
                                assert(s2[i + 1] == states[i + 1]);
                                assert(r2[i] == reports[i]);
                            } else {
                                assert(s2[i] == before);
                                assert(s2[i + 1] == next);
                                assert(r2[i] == report);
                            }
                        }
                        assert(r2.drop_last() =~= reports);
                        lemma_bounded_append(failures@, report, old(self).registry().members().len());
                        states = s2;
                        reports = r2;
                    }
                    failures.append(&mut outcome.failures);
                },
            }
        }
    }
}

} // verus!
