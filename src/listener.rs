//! Listeners, and the registry that fans commands out to them.
use crate::command::{playback_word, Command, ControlEvent, OwnedMetadata, PlaybackState, Volume};
use vstd::prelude::*;

verus! {

/// Why a listener could not carry out one call.
#[derive(Clone, Debug)]
pub enum ListenerError {
    AlreadyAttached,
    AlreadyDetached,
    /// The backend behind the listener failed; the text says how.
    Backend(String),
}

/// The capability that every backend offers to the bus.
///
/// A listener is either attached or detached.  Registering with an outside
/// service happens only on `attach`, releasing it only on `detach`.
pub trait Listener {
    /// Whether the listener is attached.
    spec fn attached(&self) -> bool;

    /// Side-effect free query of the lifecycle state.
    fn is_attached(&self) -> (r: bool)
        ensures
            r == self.attached(),
    ;

    /// Starts the integration; on failure the state is left as it was.
    fn attach(&mut self) -> (r: Result<(), ListenerError>)
        ensures
            r is Ok ==> final(self).attached(),
            r is Err ==> final(self).attached() == old(self).attached(),
    ;

    /// Stops the integration; on failure the state is left as it was.
    fn detach(&mut self) -> (r: Result<(), ListenerError>)
        ensures
            r is Ok ==> !final(self).attached(),
            r is Err ==> final(self).attached() == old(self).attached(),
    ;

    fn on_metadata(&mut self, metadata: &OwnedMetadata) -> (r: Result<(), ListenerError>)
        ensures
            final(self).attached() == old(self).attached(),
    ;

    fn on_playback(&mut self, playback: &PlaybackState) -> (r: Result<(), ListenerError>)
        ensures
            final(self).attached() == old(self).attached(),
    ;

    fn on_volume(&mut self, volume: Volume) -> (r: Result<(), ListenerError>)
        ensures
            final(self).attached() == old(self).attached(),
    ;

    fn on_control_event(&mut self, event: &ControlEvent) -> (r: Result<(), ListenerError>)
        ensures
            final(self).attached() == old(self).attached(),
    ;

    /// A short name for reports.
    fn name(&self) -> String;
}

/// One call that the registry made on a member, as recorded in its history.
pub enum Op {
    Attach,
    Detach,
    Metadata(OwnedMetadata),
    Playback(PlaybackState),
    Volume(Volume),
    ControlEvent(ControlEvent),
}

/// A call on member `member`, made while delivering the command numbered
/// `command` (commands are numbered from zero in the order of delivery).
pub struct Call {
    pub command: nat,
    pub member: nat,
    pub op: Op,
}

/// The calls on each member below `upto` whose attached flag is `want`.
pub open spec fn select_calls(command: nat, flags: Seq<bool>, want: bool, upto: nat, op: Op) -> Seq<Call>
    decreases upto,
{
    if upto == 0 {
        Seq::empty()
    } else {
        let prev = select_calls(command, flags, want, (upto - 1) as nat, op);
        if flags[upto - 1] == want {
            prev.push(Call { command, member: (upto - 1) as nat, op })
        } else {
            prev
        }
    }
}

/// The calls on every member below `upto`, or, with `only_attached`, on the
/// attached ones.
pub open spec fn deliver_calls(
    command: nat,
    flags: Seq<bool>,
    only_attached: bool,
    upto: nat,
    op: Op,
) -> Seq<Call>
    decreases upto,
{
    if upto == 0 {
        Seq::empty()
    } else {
        let prev = deliver_calls(command, flags, only_attached, (upto - 1) as nat, op);
        if !only_attached || flags[upto - 1] {
            prev.push(Call { command, member: (upto - 1) as nat, op })
        } else {
            prev
        }
    }
}


/// The last known state of the media source, re-delivered on refresh.
pub struct StateCache {
    pub metadata: Option<OwnedMetadata>,
    pub playback: Option<PlaybackState>,
    pub volume: Option<Volume>,
}

impl StateCache {
    pub fn empty() -> (r: StateCache)
        ensures
            r.metadata is None,
            r.playback is None,
            r.volume is None,
    {
        StateCache { metadata: None, playback: None, volume: None }
    }
}

/// A state update on its way to the members.
pub enum Payload {
    Metadata(OwnedMetadata),
    Playback(PlaybackState),
    Volume(Volume),
    ControlEvent(ControlEvent),
}

pub open spec fn payload_op(p: Payload) -> Op {
    match p {
        Payload::Metadata(m) => Op::Metadata(m),
        Payload::Playback(s) => Op::Playback(s),
        Payload::Volume(v) => Op::Volume(v),
        Payload::ControlEvent(e) => Op::ControlEvent(e),
    }
}

/// The calls that delivering `c` makes on members whose attached flags are
/// `flags`, with `cache` the state that a refresh delivers.
pub open spec fn calls(command: nat, c: Command, flags: Seq<bool>, cache: StateCache) -> Seq<Call> {
    let n = flags.len();
    match c {
        Command::Exit => select_calls(command, flags, true, n, Op::Detach),
        Command::MetadataChanged(m) => deliver_calls(command, flags, false, n, Op::Metadata(m)),
        Command::PlaybackChanged(p) => deliver_calls(command, flags, false, n, Op::Playback(p)),
        Command::VolumeChanged(v) => deliver_calls(command, flags, false, n, Op::Volume(v)),
        Command::AttachmentRequested(attach) => if attach {
            select_calls(command, flags, false, n, Op::Attach)
        } else {
            select_calls(command, flags, true, n, Op::Detach)
        },
        Command::RefreshRequested => refresh_calls(command, flags, cache),
        Command::ExternalControlEvent(e) => deliver_calls(command, flags, false, n, Op::ControlEvent(e)),
    }
}

/// A refresh: the cached metadata to every attached member, then the cached
/// playback, then the cached volume; what is not cached is skipped.
pub open spec fn refresh_calls(command: nat, flags: Seq<bool>, cache: StateCache) -> Seq<Call> {
    let n = flags.len();
    let metadata = match cache.metadata {
        Some(m) => deliver_calls(command, flags, true, n, Op::Metadata(m)),
        None => Seq::empty(),
    };
    let playback = match cache.playback {
        Some(p) => deliver_calls(command, flags, true, n, Op::Playback(p)),
        None => Seq::empty(),
    };
    let volume = match cache.volume {
        Some(v) => deliver_calls(command, flags, true, n, Op::Volume(v)),
        None => Seq::empty(),
    };
    metadata + playback + volume
}

/// The cache after `c` has been delivered: a state update replaces what was
/// cached of its kind.
pub open spec fn cache_after(c: Command, cache: StateCache) -> StateCache {
    match c {
        Command::MetadataChanged(m) => StateCache { metadata: Some(m), ..cache },
        Command::PlaybackChanged(p) => StateCache { playback: Some(p), ..cache },
        Command::VolumeChanged(v) => StateCache { volume: Some(v), ..cache },
        _ => cache,
    }
}

/// How the attached flags `before` become `after` when `c` is delivered and
/// the members named in `failures` fail: a member asked to attach (detach)
/// is attached (detached) afterwards unless it failed; the others keep their
/// state.
pub open spec fn flags_after(c: Command, before: Seq<bool>, after: Seq<bool>, failures: Seq<Failure>) -> bool {
    &&& after.len() == before.len()
    &&& match c {
        Command::AttachmentRequested(true) => forall|i: int| 0 <= i < before.len()
            ==> (#[trigger] after[i] == (before[i] || !failed(failures, i))),
        Command::AttachmentRequested(false) | Command::Exit => forall|i: int| 0 <= i < before.len()
            ==> (#[trigger] after[i] == (before[i] && failed(failures, i))),
        _ => after == before,
    }
}

proof fn lemma_select_numbered(command: nat, flags: Seq<bool>, want: bool, upto: nat, op: Op)
    ensures
        forall|k: int| 0 <= k < select_calls(command, flags, want, upto, op).len()
            ==> (#[trigger] select_calls(command, flags, want, upto, op)[k]).command == command,
    decreases upto,
{
    if upto > 0 {
        lemma_select_numbered(command, flags, want, (upto - 1) as nat, op);
    }
}

proof fn lemma_deliver_numbered(command: nat, flags: Seq<bool>, only_attached: bool, upto: nat, op: Op)
    ensures
        forall|k: int| 0 <= k < deliver_calls(command, flags, only_attached, upto, op).len()
            ==> (#[trigger] deliver_calls(command, flags, only_attached, upto, op)[k]).command == command,
    decreases upto,
{
    if upto > 0 {
        lemma_deliver_numbered(command, flags, only_attached, (upto - 1) as nat, op);
    }
}

/// Every call that delivering a command makes carries that command's number.
pub proof fn lemma_calls_numbered(command: nat, c: Command, flags: Seq<bool>, cache: StateCache)
    ensures
        forall|k: int| 0 <= k < calls(command, c, flags, cache).len()
            ==> (#[trigger] calls(command, c, flags, cache)[k]).command == command,
{
    let n = flags.len();
    lemma_select_numbered(command, flags, true, n, Op::Detach);
    lemma_select_numbered(command, flags, false, n, Op::Attach);
    match c {
        Command::MetadataChanged(m) => lemma_deliver_numbered(command, flags, false, n, Op::Metadata(m)),
        Command::PlaybackChanged(p) => lemma_deliver_numbered(command, flags, false, n, Op::Playback(p)),
        Command::VolumeChanged(v) => lemma_deliver_numbered(command, flags, false, n, Op::Volume(v)),
        Command::ExternalControlEvent(e) => lemma_deliver_numbered(command, flags, false, n, Op::ControlEvent(e)),
        Command::RefreshRequested => {
            if let Some(m) = cache.metadata {
                lemma_deliver_numbered(command, flags, true, n, Op::Metadata(m));
            }
            if let Some(p) = cache.playback {
                lemma_deliver_numbered(command, flags, true, n, Op::Playback(p));
            }
            if let Some(v) = cache.volume {
                lemma_deliver_numbered(command, flags, true, n, Op::Volume(v));
            }
            let r = refresh_calls(command, flags, cache);
            assert forall|k: int| 0 <= k < r.len() implies (#[trigger] r[k]).command == command by {}
        },
        _ => {},
    }
}

/// What delivering one command came to.
pub struct Outcome {
    /// The command was `Exit`: the bus stops.
    pub exit: bool,
    /// The calls that failed; they are reported, never fatal.
    pub failures: Vec<Failure>,
}

/// Which call on which member failed, and why.
#[derive(Clone, Debug)]
pub struct Failure {
    pub member: usize,
    pub error: ListenerError,
}

/// Whether `failures` reports member `i`.
pub open spec fn failed(failures: Seq<Failure>, i: int) -> bool {
    exists|k: int| 0 <= k < failures.len() && failures[k].member == i
}

/// Whether `calls` holds a call on `member`.
pub open spec fn called(calls: Seq<Call>, member: int) -> bool {
    exists|j: int| 0 <= j < calls.len() && #[trigger] calls[j].member == member
}

pub proof fn lemma_called_push(s: Seq<Call>, x: Call)
    ensures
        forall|m: int| called(s, m) ==> called(s.push(x), m),
        called(s.push(x), x.member as int),
{
    assert forall|m: int| called(s, m) implies called(s.push(x), m) by {
        let j = choose|j: int| 0 <= j < s.len() && #[trigger] s[j].member == m;
        assert(s.push(x)[j] == s[j]);
    }
    assert(s.push(x)[s.len() as int] == x);
}

pub proof fn lemma_called_concat(a: Seq<Call>, b: Seq<Call>)
    ensures
        forall|m: int| called(a, m) ==> called(a + b, m),
        forall|m: int| called(b, m) ==> called(a + b, m),
{
    assert forall|m: int| called(a, m) implies called(a + b, m) by {
        let j = choose|j: int| 0 <= j < a.len() && #[trigger] a[j].member == m;
        assert((a + b)[j] == a[j]);
    }
    assert forall|m: int| called(b, m) implies called(a + b, m) by {
        let j = choose|j: int| 0 <= j < b.len() && #[trigger] b[j].member == m;
        assert((a + b)[a.len() + j] == b[j]);
    }
}

/// Every failure in `failures` names a member that `calls` called.
pub open spec fn reported_called(failures: Seq<Failure>, calls: Seq<Call>) -> bool {
    forall|k: int| 0 <= k < failures.len() ==> called(calls, #[trigger] failures[k].member as int)
}

pub proof fn lemma_reported_append(f1: Seq<Failure>, f2: Seq<Failure>, a: Seq<Call>, b: Seq<Call>)
    requires
        reported_called(f1, a),
        reported_called(f2, b),
    ensures
        reported_called(f1 + f2, a + b),
{
    lemma_called_concat(a, b);
    assert forall|k: int| 0 <= k < (f1 + f2).len() implies called(a + b, #[trigger] (f1 + f2)[k].member as int) by {
        if k < f1.len() {
            assert((f1 + f2)[k] == f1[k]);
        } else {
            assert((f1 + f2)[k] == f2[k - f1.len()]);
        }
    }
}

/// The registry: an ordered collection of listeners, in the order in which
/// they were added, and the cached state that a refresh delivers again.
pub struct List<L> {
    listeners: Vec<L>,
    cache: StateCache,
    delivered: Ghost<nat>,
    history: Ghost<Seq<Call>>,
}

impl<L: Listener> List<L> {
    /// The members, in the order in which they were added.
    pub closed spec fn members(&self) -> Seq<L> {
        self.listeners@
    }

    /// The attached flag of each member.
    pub open spec fn flags(&self) -> Seq<bool> {
        self.members().map_values(|l: L| l.attached())
    }

    pub closed spec fn cached(&self) -> &StateCache {
        &self.cache
    }

    /// How many commands the registry has delivered.
    pub closed spec fn delivered(&self) -> nat {
        self.delivered@
    }

    /// Every call that the registry made on its members, in order.
    pub closed spec fn history(&self) -> Seq<Call> {
        self.history@
    }

    /// Each recorded call belongs to a delivered command, and the calls of a
    /// command all come before those of any later command.
    pub open spec fn wf(&self) -> bool {
        &&& forall|k: int| 0 <= k < self.history().len() ==> #[trigger] self.history()[k].command < self.delivered()
        &&& forall|k: int, l: int| 0 <= k < l < self.history().len() ==> #[trigger] self.history()[k].command <= #[trigger] self.history()[l].command
    }

    /// The whole registry is attached when every member is.
    pub open spec fn all_attached(&self) -> bool {
        forall|i: int| 0 <= i < self.flags().len() ==> #[trigger] self.flags()[i]
    }

    pub fn new() -> (r: Self)
        ensures
            r.wf(),
            r.members() == Seq::<L>::empty(),
            r.history() == Seq::<Call>::empty(),
            r.delivered() == 0,
            r.cached().metadata is None,
            r.cached().playback is None,
            r.cached().volume is None,
    {
        List { listeners: Vec::new(), cache: StateCache::empty(), delivered: Ghost(0), history: Ghost(Seq::empty()) }
    }

    /// Adds a member after the existing ones.
    pub fn add(&mut self, listener: L)
        ensures
            final(self).members() == old(self).members().push(listener),
            final(self).history() == old(self).history(),
            final(self).delivered() == old(self).delivered(),
            final(self).cached() == old(self).cached(),
            old(self).wf() ==> final(self).wf(),
    {
        self.listeners.push(listener);
    }

    pub fn len(&self) -> (r: usize)
        ensures
            r == self.members().len(),
    {
        self.listeners.len()
    }

    /// The state that a refresh delivers.
    pub fn cache(&self) -> (r: &StateCache)
        ensures
            r == self.cached(),
    {
        &self.cache
    }

    /// The member at `index`.
    pub fn member(&self, index: usize) -> (r: &L)
        requires
            index < self.members().len(),
        ensures
            *r == self.members()[index as int],
    {
        &self.listeners[index]
    }

    /// The member at `index`, to be changed in place.
    pub fn member_mut(&mut self, index: usize) -> (r: &mut L)
        requires
            index < old(self).members().len(),
        ensures
            *r == old(self).members()[index as int],
            final(self).members() == old(self).members().update(index as int, *final(r)),
            final(self).history() == old(self).history(),
            final(self).delivered() == old(self).delivered(),
            final(self).cached() == old(self).cached(),
    {
        &mut self.listeners[index]
    }

    /// Whether every member is attached, computed afresh from the members.
    pub fn is_attached(&self) -> (r: bool)
        ensures
            r == self.all_attached(),
    {
        let mut i: usize = 0;
        while i < self.listeners.len()
            invariant
                0 <= i <= self.flags().len(),
                self.flags().len() == self.listeners@.len(),
                forall|j: int| 0 <= j < i ==> #[trigger] self.flags()[j],
            decreases self.listeners.len() - i,
        {
            if !self.listeners[i].is_attached() {
                assert(!self.flags()[i as int]);
                return false;
            }
            i += 1;
        }
        true
    }

    /// Calls `attach` (or `detach`) on each member that is not yet attached
    /// (or detached), in order.
    fn set_attachment(&mut self, attach: bool) -> (failures: Vec<Failure>)
        requires
            old(self).wf(),
        ensures
            final(self).history() == old(self).history() + select_calls(
                old(self).delivered(),
                old(self).flags(),
                !attach,
                old(self).flags().len(),
                if attach { Op::Attach } else { Op::Detach },
            ),
            final(self).flags().len() == old(self).flags().len(),
            forall|i: int| 0 <= i < old(self).flags().len() && old(self).flags()[i] == attach
                ==> #[trigger] final(self).flags()[i] == attach,
            forall|i: int| 0 <= i < old(self).flags().len() && old(self).flags()[i] != attach
                ==> (#[trigger] final(self).flags()[i] == attach <==> !failed(failures@, i)),
            forall|k: int| 0 <= k < failures@.len() ==> #[trigger] failures@[k].member < old(self).flags().len(),
            forall|k: int| 0 <= k < failures@.len() ==> called(
                select_calls(
                    old(self).delivered(),
                    old(self).flags(),
                    !attach,
                    old(self).flags().len(),
                    if attach { Op::Attach } else { Op::Detach },
                ),
                #[trigger] failures@[k].member as int,
            ),
            final(self).delivered() == old(self).delivered(),
            final(self).cached() == old(self).cached(),
    {
        let ghost flags0 = self.flags();
        let ghost history0 = self.history();
        let ghost op = if attach { Op::Attach } else { Op::Detach };
        let mut failures: Vec<Failure> = Vec::new();
        let mut i: usize = 0;
        while i < self.listeners.len()
            invariant
                0 <= i <= flags0.len(),
                self.listeners@.len() == flags0.len(),
                self.flags().len() == flags0.len(),
                forall|j: int| i <= j < flags0.len() ==> #[trigger] self.flags()[j] == flags0[j],
                forall|j: int| 0 <= j < i && flags0[j] == attach ==> #[trigger] self.flags()[j] == attach,
                forall|j: int| 0 <= j < i && flags0[j] != attach
                    ==> (#[trigger] self.flags()[j] == attach <==> !failed(failures@, j)),
                forall|k: int| 0 <= k < failures@.len() ==> #[trigger] failures@[k].member < i,
                forall|k: int| 0 <= k < failures@.len() ==> called(
                    select_calls(self.delivered@, flags0, !attach, i as nat, op),
                    #[trigger] failures@[k].member as int,
                ),
                self.history@ == history0 + select_calls(self.delivered@, flags0, !attach, i as nat, op),
                self.delivered@ == old(self).delivered@,
                self.cache == old(self).cache,
                history0 == old(self).history@,
                flags0 == old(self).flags(),
                op == (if attach { Op::Attach } else { Op::Detach }),
            decreases self.listeners.len() - i,
        {
            let ghost before = self.listeners@;
            let ghost flags_before = self.flags();
            assert(self.flags()[i as int] == before[i as int].attached());
            if self.listeners[i].is_attached() != attach {
                let result = if attach {
                    self.listeners[i].attach()
                } else {
                    self.listeners[i].detach()
                };
                self.history = Ghost(self.history@.push(Call { command: self.delivered@, member: i as nat, op }));
                let ghost failures_before = failures@;
                proof {
                    lemma_called_push(
                        select_calls(self.delivered@, flags0, !attach, i as nat, op),
                        Call { command: self.delivered@, member: i as nat, op },
                    );
                }
                match result {
                    Ok(()) => {
                        assert(!failed(failures@, i as int));
                    },
                    Err(error) => {
                        failures.push(Failure { member: i, error });
                        assert(failures@[failures@.len() - 1].member == i);
                    },
                }
                assert forall|j: int| 0 <= j < i implies failed(failures@, j) == failed(failures_before, j) by {
                    if failed(failures@, j) {
                        let k = choose|k: int| 0 <= k < failures@.len() && failures@[k].member == j;
                        assert(failures_before[k].member == j);
                    }
                    if failed(failures_before, j) {
                        let k = choose|k: int| 0 <= k < failures_before.len() && failures_before[k].member == j;
                        assert(failures@[k].member == j);
                    }
                }
                assert(self.listeners@ == before.update(i as int, self.listeners@[i as int]));
                assert forall|j: int| 0 <= j < flags0.len() && j != i implies #[trigger] self.flags()[j] == flags_before[j] by {
                    assert(self.listeners@[j] == before[j]);
                    assert(flags_before[j] == before[j].attached());
                }
                assert(self.flags()[i as int] == self.listeners@[i as int].attached());
            }
            i += 1;
        }
        failures
    }

    /// Hands `payload` to every member, or with `only_attached` to each
    /// attached member, in order.
    fn deliver(&mut self, payload: &Payload, only_attached: bool) -> (failures: Vec<Failure>)
        ensures
            final(self).history() == old(self).history() + deliver_calls(
                old(self).delivered(),
                old(self).flags(),
                only_attached,
                old(self).flags().len(),
                payload_op(*payload),
            ),
            final(self).flags() == old(self).flags(),
            forall|k: int| 0 <= k < failures@.len() ==> #[trigger] failures@[k].member < old(self).flags().len(),
            forall|k: int| 0 <= k < failures@.len() ==> called(
                deliver_calls(
                    old(self).delivered(),
                    old(self).flags(),
                    only_attached,
                    old(self).flags().len(),
                    payload_op(*payload),
                ),
                #[trigger] failures@[k].member as int,
            ),
            final(self).delivered() == old(self).delivered(),
            final(self).cached() == old(self).cached(),
    {
        let ghost flags0 = self.flags();
        let ghost history0 = self.history();
        let ghost op = payload_op(*payload);
        let mut failures: Vec<Failure> = Vec::new();
        let mut i: usize = 0;
        while i < self.listeners.len()
            invariant
                0 <= i <= flags0.len(),
                self.listeners@.len() == flags0.len(),
                self.flags() == flags0,
                forall|k: int| 0 <= k < failures@.len() ==> #[trigger] failures@[k].member < i,
                forall|k: int| 0 <= k < failures@.len() ==> called(
                    deliver_calls(self.delivered@, flags0, only_attached, i as nat, op),
                    #[trigger] failures@[k].member as int,
                ),
                self.history@ == history0 + deliver_calls(self.delivered@, flags0, only_attached, i as nat, op),
                self.delivered@ == old(self).delivered@,
                self.cache == old(self).cache,
                history0 == old(self).history@,
                flags0 == old(self).flags(),
                op == payload_op(*payload),
            decreases self.listeners.len() - i,
        {
            let ghost before = self.listeners@;
            assert(self.flags()[i as int] == before[i as int].attached());
            if !only_attached || self.listeners[i].is_attached() {
                let result = match payload {
                    Payload::Metadata(m) => self.listeners[i].on_metadata(m),
                    Payload::Playback(p) => self.listeners[i].on_playback(p),
                    Payload::Volume(v) => self.listeners[i].on_volume(*v),
                    Payload::ControlEvent(e) => self.listeners[i].on_control_event(e),
                };
                self.history = Ghost(self.history@.push(Call { command: self.delivered@, member: i as nat, op }));
                proof {
                    lemma_called_push(
                        deliver_calls(self.delivered@, flags0, only_attached, i as nat, op),
                        Call { command: self.delivered@, member: i as nat, op },
                    );
                }
                match result {
                    Ok(()) => {},
                    Err(error) => {
                        failures.push(Failure { member: i, error });
                    },
                }
                assert(self.listeners@ == before.update(i as int, self.listeners@[i as int]));
                assert forall|j: int| 0 <= j < flags0.len() implies #[trigger] self.flags()[j] == flags0[j] by {
                    if j != i {
                        assert(self.listeners@[j] == before[j]);
                    }
                }
                assert(self.flags() =~= flags0);
            }
            i += 1;
        }
        failures
    }

    /// Delivers the cached state again to the attached members.
    fn refresh(&mut self) -> (failures: Vec<Failure>)
        ensures
            final(self).history() == old(self).history() + refresh_calls(
                old(self).delivered(),
                old(self).flags(),
                *old(self).cached(),
            ),
            final(self).flags() == old(self).flags(),
            forall|k: int| 0 <= k < failures@.len() ==> #[trigger] failures@[k].member < old(self).flags().len(),
            reported_called(failures@, refresh_calls(old(self).delivered(), old(self).flags(), *old(self).cached())),
            final(self).delivered() == old(self).delivered(),
            final(self).cached() == old(self).cached(),
    {
        let ghost history0 = self.history();
        let ghost flags0 = self.flags();
        let ghost cache0 = self.cache;
        let ghost n = self.delivered();
        let ghost len = flags0.len();
        let ghost mc = match cache0.metadata {
            Some(m) => deliver_calls(n, flags0, true, len, Op::Metadata(m)),
            None => Seq::<Call>::empty(),
        };
        let ghost pc = match cache0.playback {
            Some(p) => deliver_calls(n, flags0, true, len, Op::Playback(p)),
            None => Seq::<Call>::empty(),
        };
        let ghost vc = match cache0.volume {
            Some(v) => deliver_calls(n, flags0, true, len, Op::Volume(v)),
            None => Seq::<Call>::empty(),
        };
        let mut failures: Vec<Failure> = Vec::new();
        let metadata = self.cache.metadata.take();
        if let Some(m) = metadata {
            let payload = Payload::Metadata(m);
            let mut more = self.deliver(&payload, true);
            proof {
                lemma_reported_append(failures@, more@, Seq::<Call>::empty(), mc);
                assert(Seq::<Call>::empty() + mc =~= mc);
            }
            failures.append(&mut more);
            if let Payload::Metadata(m) = payload {
                self.cache.metadata = Some(m);
            }
        }
        assert(self.cache == cache0);
        assert(reported_called(failures@, mc));
        if let Some(p) = self.cache.playback {
            let mut more = self.deliver(&Payload::Playback(p), true);
            proof {
                lemma_reported_append(failures@, more@, mc, pc);
            }
            failures.append(&mut more);
        } else {
            proof {
                lemma_reported_append(failures@, Seq::<Failure>::empty(), mc, pc);
                assert(failures@ + Seq::<Failure>::empty() =~= failures@);
            }
        }
        assert(reported_called(failures@, mc + pc));
        if let Some(v) = self.cache.volume {
            let mut more = self.deliver(&Payload::Volume(v), true);
            proof {
                lemma_reported_append(failures@, more@, mc + pc, vc);
            }
            failures.append(&mut more);
        } else {
            proof {
                lemma_reported_append(failures@, Seq::<Failure>::empty(), mc + pc, vc);
                assert(failures@ + Seq::<Failure>::empty() =~= failures@);
            }
        }
        assert(refresh_calls(n, flags0, cache0) == mc + pc + vc);
        assert(self.history() =~= history0 + refresh_calls(n, flags0, cache0));
        failures
    }

    /// Delivers one command to the members, in order, and records the state
    /// that a refresh will deliver again.
    pub fn dispatch(&mut self, command: Command) -> (r: Outcome)
        requires
            old(self).wf(),
        ensures
            final(self).wf(),
            final(self).members().len() == old(self).members().len(),
            final(self).delivered() == old(self).delivered() + 1,
            final(self).history() == old(self).history() + calls(
                old(self).delivered(),
                command,
                old(self).flags(),
                *old(self).cached(),
            ),
            *final(self).cached() == cache_after(command, *old(self).cached()),
            flags_after(command, old(self).flags(), final(self).flags(), r.failures@),
            r.exit == (command is Exit),
            forall|k: int| 0 <= k < r.failures@.len() ==> #[trigger] r.failures@[k].member < old(self).flags().len(),
            reported_called(
                r.failures@,
                calls(old(self).delivered(), command, old(self).flags(), *old(self).cached()),
            ),
    {
        let ghost flags0 = self.flags();
        let ghost cache0 = *self.cached();
        let ghost n = self.delivered();
        let mut exit = false;
        let failures = match command {
            Command::Exit => {
                exit = true;
                self.set_attachment(false)
            },
            Command::AttachmentRequested(attach) => self.set_attachment(attach),
            Command::MetadataChanged(m) => {
                let payload = Payload::Metadata(m);
                let failures = self.deliver(&payload, false);
                if let Payload::Metadata(m) = payload {
                    self.cache.metadata = Some(m);
                }
                failures
            },
            Command::PlaybackChanged(p) => {
                let failures = self.deliver(&Payload::Playback(p), false);
                self.cache.playback = Some(p);
                failures
            },
            Command::VolumeChanged(v) => {
                let failures = self.deliver(&Payload::Volume(v), false);
                self.cache.volume = Some(v);
                failures
            },
            Command::ExternalControlEvent(e) => self.deliver(&Payload::ControlEvent(e), false),
            Command::RefreshRequested => self.refresh(),
        };
        self.delivered = Ghost(self.delivered@ + 1);
        proof {
            let added = calls(n, command, flags0, cache0);
            lemma_calls_numbered(n, command, flags0, cache0);
            let h = self.history@;
            let h0 = old(self).history@;
            assert(h == h0 + added);
            assert forall|k: int| 0 <= k < h.len() implies #[trigger] h[k].command < self.delivered@ by {
                if k >= h0.len() {
                    assert(h[k] == added[k - h0.len()]);
                }
            }
            assert forall|k: int, l: int| 0 <= k < l < h.len() implies #[trigger] h[k].command <= #[trigger] h[l].command by {
                if l >= h0.len() {
                    assert(h[l] == added[l - h0.len()]);
                    if k >= h0.len() {
                        assert(h[k] == added[k - h0.len()]);
                    }
                }
            }
        }
        Outcome { exit, failures }
    }
}

/// The text of an optional field, empty when it is absent.
pub open spec fn text_or_empty(s: Option<String>) -> Seq<char> {
    match s {
        Some(s) => s@,
        None => Seq::empty(),
    }
}

fn append_field(line: &mut String, field: &Option<String>)
    ensures
        final(line)@ == old(line)@ + text_or_empty(*field),
{
    match field {
        Some(text) => line.append(text.as_str()),
        None => {},
    }
}

/// A diagnostic listener: it describes each update in a line of text and
/// keeps the lines until they are taken.
pub struct Logger {
    attached: bool,
    lines: Vec<String>,
}

impl Logger {
    /// The lines not yet taken, oldest first.
    pub closed spec fn lines(&self) -> Seq<Seq<char>> {
        self.lines@.map_values(|l: String| l@)
    }

    pub fn new() -> (r: Logger)
        ensures
            !r.attached(),
            r.lines() == Seq::<Seq<char>>::empty(),
    {
        let r = Logger { attached: false, lines: Vec::new() };
        assert(r.lines() =~= Seq::<Seq<char>>::empty());
        r
    }

    /// Hands out the lines written so far and forgets them.
    pub fn take_lines(&mut self) -> (r: Vec<String>)
        ensures
            r@.map_values(|l: String| l@) == old(self).lines(),
            final(self).lines() == Seq::<Seq<char>>::empty(),
            final(self).attached() == old(self).attached(),
    {
        let mut r: Vec<String> = Vec::new();
        std::mem::swap(&mut r, &mut self.lines);
        assert(self.lines() =~= Seq::<Seq<char>>::empty());
        r
    }

    fn write(&mut self, line: String)
        ensures
            final(self).lines() == old(self).lines().push(line@),
            final(self).attached() == old(self).attached(),
    {
        self.lines.push(line);
        assert(self.lines() =~= old(self).lines().push(line@));
    }
}

impl Listener for Logger {
    closed spec fn attached(&self) -> bool {
        self.attached
    }

    fn is_attached(&self) -> (r: bool) {
        self.attached
    }

    fn attach(&mut self) -> (r: Result<(), ListenerError>)
        ensures
            old(self).attached() ==> r is Err && final(self).lines() == old(self).lines(),
            !old(self).attached() ==> r is Ok && final(self).lines() == old(self).lines().push("attaching..."@),
    {
        if self.attached {
            return Err(ListenerError::AlreadyAttached);
        }
        self.write(String::from_str("attaching..."));
        self.attached = true;
        Ok(())
    }

    fn detach(&mut self) -> (r: Result<(), ListenerError>)
        ensures
            !old(self).attached() ==> r is Err && final(self).lines() == old(self).lines(),
            old(self).attached() ==> r is Ok && final(self).lines() == old(self).lines().push("detaching..."@),
    {
        if !self.attached {
            return Err(ListenerError::AlreadyDetached);
        }
        self.write(String::from_str("detaching..."));
        self.attached = false;
        Ok(())
    }

    fn on_metadata(&mut self, metadata: &OwnedMetadata) -> (r: Result<(), ListenerError>)
        ensures
            r is Ok,
            final(self).lines() == old(self).lines().push(
                "updating metadata: "@ + text_or_empty(metadata.artist) + " - "@ + text_or_empty(metadata.title),
            ),
    {
        let mut line = String::from_str("updating metadata: ");
        append_field(&mut line, &metadata.artist);
        line.append(" - ");
        append_field(&mut line, &metadata.title);
        self.write(line);
        Ok(())
    }

    fn on_playback(&mut self, playback: &PlaybackState) -> (r: Result<(), ListenerError>)
        ensures
            r is Ok,
            final(self).lines() == old(self).lines().push("updating playback: "@ + playback_word(*playback)),
    {
        let mut line = String::from_str("updating playback: ");
        line.append(playback.display());
        self.write(line);
        Ok(())
    }

    fn on_volume(&mut self, volume: Volume) -> (r: Result<(), ListenerError>)
        ensures
            r is Ok,
            final(self).lines().len() == old(self).lines().len() + 1,
            final(self).lines().drop_last() == old(self).lines(),
    {
        let mut line = String::from_str("updating volume: ");
        line.append(volume.percent().to_string().as_str());
        line.append("%");
        self.write(line);
        Ok(())
    }

    fn on_control_event(&mut self, event: &ControlEvent) -> (r: Result<(), ListenerError>)
        ensures
            r is Ok,
            final(self).lines() == old(self).lines(),
    {
        Ok(())
    }

    fn name(&self) -> String {
        String::from_str("logger")
    }
}

} // verus!
