//! Laws of delivery and of the attach/detach lifecycle, stated over the calls
//! that the registry records.
use crate::command::{Command, PlaybackState};
use crate::listener::{
    calls, deliver_calls, failed, flags_after, select_calls, Call, Failure, List, Listener, Op,
    StateCache,
};
use crate::messages::{
    all_set, delivers, deliveries, expansion, expansion_calls, lemma_later_two, later_calls, run_of, BusState,
};
use vstd::prelude::*;

verus! {

/// The calls that `member` received, in the order of `history`.
pub open spec fn ops_on(history: Seq<Call>, member: nat) -> Seq<Op>
    decreases history.len(),
{
    if history.len() == 0 {
        Seq::empty()
    } else {
        let prev = ops_on(history.drop_last(), member);
        if history.last().member == member {
            prev.push(history.last().op)
        } else {
            prev
        }
    }
}

/// How many flags are set.
pub open spec fn count_set(flags: Seq<bool>) -> nat
    decreases flags.len(),
{
    if flags.len() == 0 {
        0
    } else {
        count_set(flags.drop_last()) + if flags.last() { 1nat } else { 0nat }
    }
}

/// Order preservation: what a member receives from two stretches of
/// delivery is what it receives from the first, then what it receives from
/// the second; no call of a later command comes before one of an earlier.
pub proof fn lemma_ops_on_concat(earlier: Seq<Call>, later: Seq<Call>, member: nat)
    ensures
        ops_on(earlier + later, member) == ops_on(earlier, member) + ops_on(later, member),
    decreases later.len(),
{
    if later.len() == 0 {
        assert(earlier + later =~= earlier);
        assert(ops_on(earlier, member) + ops_on(later, member) =~= ops_on(earlier, member));
    } else {
        lemma_ops_on_concat(earlier, later.drop_last(), member);
        assert((earlier + later).drop_last() =~= earlier + later.drop_last());
        assert((earlier + later).last() == later.last());
        if later.last().member == member {
            assert(ops_on(earlier, member) + ops_on(later.drop_last(), member).push(later.last().op)
                =~= (ops_on(earlier, member) + ops_on(later.drop_last(), member)).push(later.last().op));
        }
    }
}

/// Order preservation, within the registry's history: the calls that one
/// member received follow the order in which the commands that caused them
/// were delivered.
pub proof fn lemma_member_calls_in_delivery_order<L: Listener>(list: &List<L>, member: nat, k: int, l: int)
    requires
        list.wf(),
        0 <= k < l < list.history().len(),
        list.history()[k].member == member,
        list.history()[l].member == member,
    ensures
        list.history()[k].command <= list.history()[l].command,
{
}

/// The calls on one member among those made on members whose flag is `want`.
pub proof fn lemma_ops_on_select(command: nat, flags: Seq<bool>, want: bool, upto: nat, op: Op, member: nat)
    requires
        upto <= flags.len(),
    ensures
        ops_on(select_calls(command, flags, want, upto, op), member) == if member < upto && flags[member as int] == want {
            seq![op]
        } else {
            Seq::<Op>::empty()
        },
    decreases upto,
{
    if upto > 0 {
        let prev = select_calls(command, flags, want, (upto - 1) as nat, op);
        lemma_ops_on_select(command, flags, want, (upto - 1) as nat, op, member);
        if flags[upto - 1] == want {
            let s = prev.push(Call { command, member: (upto - 1) as nat, op });
            assert(s.drop_last() =~= prev);
        }
        assert(seq![op] =~= Seq::<Op>::empty().push(op));
    }
}

/// The calls on one member among those of a delivery.
pub proof fn lemma_ops_on_deliver(
    command: nat,
    flags: Seq<bool>,
    only_attached: bool,
    upto: nat,
    op: Op,
    member: nat,
)
    requires
        upto <= flags.len(),
    ensures
        ops_on(deliver_calls(command, flags, only_attached, upto, op), member) == if member < upto && (
        !only_attached || flags[member as int]) {
            seq![op]
        } else {
            Seq::<Op>::empty()
        },
    decreases upto,
{
    if upto > 0 {
        let prev = deliver_calls(command, flags, only_attached, (upto - 1) as nat, op);
        lemma_ops_on_deliver(command, flags, only_attached, (upto - 1) as nat, op, member);
        if !only_attached || flags[upto - 1] {
            let s = prev.push(Call { command, member: (upto - 1) as nat, op });
            assert(s.drop_last() =~= prev);
        }
        assert(seq![op] =~= Seq::<Op>::empty().push(op));
    }
}

proof fn lemma_select_count(command: nat, flags: Seq<bool>, upto: nat, op: Op)
    requires
        upto <= flags.len(),
    ensures
        select_calls(command, flags, true, upto, op).len() == count_set(flags.subrange(0, upto as int)),
        forall|k: int| 0 <= k < select_calls(command, flags, true, upto, op).len()
            ==> (#[trigger] select_calls(command, flags, true, upto, op)[k]).op == op,
    decreases upto,
{
    if upto > 0 {
        lemma_select_count(command, flags, (upto - 1) as nat, op);
        assert(flags.subrange(0, upto as int).drop_last() =~= flags.subrange(0, upto - 1));
    }
}

/// Aggregate attach state: the registry is attached exactly when every member
/// is, so one detached member makes the whole registry detached.
pub proof fn lemma_one_detached_member<L: Listener>(list: &List<L>, member: int)
    requires
        0 <= member < list.flags().len(),
        !list.flags()[member],
    ensures
        !list.all_attached(),
{
}

/// Attach requests are idempotent: over two attach requests in a row, a
/// member that was attached is asked nothing, a detached one is asked once,
/// and asked a second time only if its first attach failed (`failures` are
/// those of the first request).  When the first request succeeds for every
/// member, the second one calls nothing.
pub proof fn lemma_attach_idempotent(
    command: nat,
    flags: Seq<bool>,
    after: Seq<bool>,
    failures: Seq<Failure>,
    cache: StateCache,
)
    requires
        flags_after(Command::AttachmentRequested(true), flags, after, failures),
    ensures
        failures.len() == 0 ==> calls(command + 1, Command::AttachmentRequested(true), after, cache) == Seq::<
            Call,
        >::empty(),
        forall|member: nat| member < flags.len() ==> #[trigger] ops_on(
            calls(command, Command::AttachmentRequested(true), flags, cache) + calls(
                command + 1,
                Command::AttachmentRequested(true),
                after,
                cache,
            ),
            member,
        ) == if flags[member as int] {
            Seq::<Op>::empty()
        } else if failed(failures, member as int) {
            seq![Op::Attach, Op::Attach]
        } else {
            seq![Op::Attach]
        },
{
    let n = flags.len();
    if failures.len() == 0 {
        assert forall|i: int| 0 <= i < n implies #[trigger] after[i] by {
            assert(!failed(failures, i));
        }
        lemma_select_none(command + 1, after, false, n, Op::Attach);
    }
    assert forall|member: nat| member < flags.len() implies #[trigger] ops_on(
        calls(command, Command::AttachmentRequested(true), flags, cache) + calls(
            command + 1,
            Command::AttachmentRequested(true),
            after,
            cache,
        ),
        member,
    ) == if flags[member as int] {
        Seq::<Op>::empty()
    } else if failed(failures, member as int) {
        seq![Op::Attach, Op::Attach]
    } else {
        seq![Op::Attach]
    } by {
        let first = calls(command, Command::AttachmentRequested(true), flags, cache);
        let second = calls(command + 1, Command::AttachmentRequested(true), after, cache);
        lemma_ops_on_concat(first, second, member);
        lemma_ops_on_select(command, flags, false, n, Op::Attach, member);
        lemma_ops_on_select(command + 1, after, false, n, Op::Attach, member);
        assert(after[member as int] == (flags[member as int] || !failed(failures, member as int)));
        assert(seq![Op::Attach] + seq![Op::Attach] =~= seq![Op::Attach, Op::Attach]);
        assert(seq![Op::Attach] + Seq::<Op>::empty() =~= seq![Op::Attach]);
        assert(Seq::<Op>::empty() + Seq::<Op>::empty() =~= Seq::<Op>::empty());
    }
}

/// Detach requests are idempotent, as attach requests are.
pub proof fn lemma_detach_idempotent(
    command: nat,
    flags: Seq<bool>,
    after: Seq<bool>,
    failures: Seq<Failure>,
    cache: StateCache,
)
    requires
        flags_after(Command::AttachmentRequested(false), flags, after, failures),
    ensures
        failures.len() == 0 ==> calls(command + 1, Command::AttachmentRequested(false), after, cache) == Seq::<
            Call,
        >::empty(),
        forall|member: nat| member < flags.len() ==> #[trigger] ops_on(
            calls(command, Command::AttachmentRequested(false), flags, cache) + calls(
                command + 1,
                Command::AttachmentRequested(false),
                after,
                cache,
            ),
            member,
        ) == if !flags[member as int] {
            Seq::<Op>::empty()
        } else if failed(failures, member as int) {
            seq![Op::Detach, Op::Detach]
        } else {
            seq![Op::Detach]
        },
{
    let n = flags.len();
    if failures.len() == 0 {
        assert forall|i: int| 0 <= i < n implies !#[trigger] after[i] by {
            assert(!failed(failures, i));
        }
        lemma_select_none(command + 1, after, true, n, Op::Detach);
    }
    assert forall|member: nat| member < flags.len() implies #[trigger] ops_on(
        calls(command, Command::AttachmentRequested(false), flags, cache) + calls(
            command + 1,
            Command::AttachmentRequested(false),
            after,
            cache,
        ),
        member,
    ) == if !flags[member as int] {
        Seq::<Op>::empty()
    } else if failed(failures, member as int) {
        seq![Op::Detach, Op::Detach]
    } else {
        seq![Op::Detach]
    } by {
        let first = calls(command, Command::AttachmentRequested(false), flags, cache);
        let second = calls(command + 1, Command::AttachmentRequested(false), after, cache);
        lemma_ops_on_concat(first, second, member);
        lemma_ops_on_select(command, flags, true, n, Op::Detach, member);
        lemma_ops_on_select(command + 1, after, true, n, Op::Detach, member);
        assert(after[member as int] == (flags[member as int] && failed(failures, member as int)));
        assert(seq![Op::Detach] + seq![Op::Detach] =~= seq![Op::Detach, Op::Detach]);
        assert(seq![Op::Detach] + Seq::<Op>::empty() =~= seq![Op::Detach]);
        assert(Seq::<Op>::empty() + Seq::<Op>::empty() =~= Seq::<Op>::empty());
    }
}

proof fn lemma_select_none(command: nat, flags: Seq<bool>, want: bool, upto: nat, op: Op)
    requires
        upto <= flags.len(),
        forall|i: int| 0 <= i < upto ==> flags[i] != want,
    ensures
        select_calls(command, flags, want, upto, op) == Seq::<Call>::empty(),
    decreases upto,
{
    if upto > 0 {
        lemma_select_none(command, flags, want, (upto - 1) as nat, op);
    }
}

/// Refresh after attach: a detached member that attaches on an attach
/// request, then receives the refresh that follows it, is asked to attach
/// once and then gets the cached metadata, playback and volume, in that
/// order, once each.
pub proof fn lemma_refresh_after_attach(
    command: nat,
    flags: Seq<bool>,
    after: Seq<bool>,
    cache: StateCache,
    member: nat,
)
    requires
        member < flags.len(),
        !flags[member as int],
        after.len() == flags.len(),
        after[member as int],
        cache.metadata is Some,
        cache.playback is Some,
        cache.volume is Some,
    ensures
        ops_on(calls(command, Command::AttachmentRequested(true), flags, cache), member) == seq![Op::Attach],
        ops_on(calls(command + 1, Command::RefreshRequested, after, cache), member) == seq![
            Op::Metadata(cache.metadata->0),
            Op::Playback(cache.playback->0),
            Op::Volume(cache.volume->0),
        ],
{
    let n = flags.len();
    lemma_ops_on_select(command, flags, false, n, Op::Attach, member);
    let m = deliver_calls(command + 1, after, true, n, Op::Metadata(cache.metadata->0));
    let p = deliver_calls(command + 1, after, true, n, Op::Playback(cache.playback->0));
    let v = deliver_calls(command + 1, after, true, n, Op::Volume(cache.volume->0));
    lemma_ops_on_deliver(command + 1, after, true, n, Op::Metadata(cache.metadata->0), member);
    lemma_ops_on_deliver(command + 1, after, true, n, Op::Playback(cache.playback->0), member);
    lemma_ops_on_deliver(command + 1, after, true, n, Op::Volume(cache.volume->0), member);
    lemma_ops_on_concat(m, p, member);
    lemma_ops_on_concat(m + p, v, member);
    assert(calls(command + 1, Command::RefreshRequested, after, cache) == m + p + v);
    assert(seq![Op::Metadata(cache.metadata->0)] + seq![Op::Playback(cache.playback->0)] + seq![
        Op::Volume(cache.volume->0)] =~= seq![
        Op::Metadata(cache.metadata->0),
        Op::Playback(cache.playback->0),
        Op::Volume(cache.volume->0),
    ]);
}

/// Exit drains the attach state: delivering `Exit` asks each attached
/// member to detach once, asks nothing of a detached one, and makes no other
/// call, so there are as many calls as attached members.
pub proof fn lemma_exit_detaches_attached(command: nat, flags: Seq<bool>, cache: StateCache)
    ensures
        calls(command, Command::Exit, flags, cache).len() == count_set(flags),
        forall|k: int| 0 <= k < calls(command, Command::Exit, flags, cache).len()
            ==> (#[trigger] calls(command, Command::Exit, flags, cache)[k]).op == Op::Detach,
        forall|member: nat| member < flags.len() ==> #[trigger] ops_on(calls(command, Command::Exit, flags, cache), member)
            == if flags[member as int] {
            seq![Op::Detach]
        } else {
            Seq::<Op>::empty()
        },
{
    let n = flags.len();
    lemma_select_count(command, flags, n, Op::Detach);
    assert(flags.subrange(0, n as int) =~= flags);
    assert forall|member: nat| member < flags.len() implies #[trigger] ops_on(calls(command, Command::Exit, flags, cache), member)
        == if flags[member as int] {
        seq![Op::Detach]
    } else {
        Seq::<Op>::empty()
    } by {
        lemma_ops_on_select(command, flags, true, n, Op::Detach, member);
    }
}

/// Stop triggers detach: with detach-on-stop, an attached member receives,
/// for a stop, one detach and then the stopped state, and nothing else.
pub proof fn lemma_stop_detaches(
    command: nat,
    flags: Seq<bool>,
    after: Seq<bool>,
    cache: StateCache,
    all_attached: bool,
    member: nat,
)
    requires
        member < flags.len(),
        flags[member as int],
        after.len() == flags.len(),
    ensures
        ops_on(
            expansion_calls(
                command,
                expansion(Command::PlaybackChanged(PlaybackState::Stopped), true, all_attached),
                flags,
                after,
                cache,
            ),
            member,
        ) == seq![Op::Detach, Op::Playback(PlaybackState::Stopped)],
{
    let n = flags.len();
    let stop = Command::PlaybackChanged(PlaybackState::Stopped);
    let cmds = expansion(stop, true, all_attached);
    assert(cmds == seq![Command::AttachmentRequested(false), stop]);
    assert(cmds.drop_first() =~= seq![stop]);
    assert(seq![stop].drop_first() =~= Seq::<Command>::empty());
    let first = calls(command, Command::AttachmentRequested(false), flags, cache);
    let second = calls(command + 1, stop, after, cache);
    assert(later_calls(command + 2, Seq::<Command>::empty(), after, cache_after_stop(cache)) == Seq::<Call>::empty());
    assert(later_calls(command + 1, seq![stop], after, cache) =~= second);
    assert(expansion_calls(command, cmds, flags, after, cache) == first + second);
    lemma_ops_on_select(command, flags, true, n, Op::Detach, member);
    lemma_ops_on_deliver(command + 1, after, false, n, Op::Playback(PlaybackState::Stopped), member);
    lemma_ops_on_concat(first, second, member);
    assert(seq![Op::Detach] + seq![Op::Playback(PlaybackState::Stopped)] =~= seq![
        Op::Detach,
        Op::Playback(PlaybackState::Stopped),
    ]);
}

spec fn cache_after_stop(cache: StateCache) -> StateCache {
    crate::listener::cache_after(Command::PlaybackChanged(PlaybackState::Stopped), cache)
}

proof fn lemma_deliver_ops(command: nat, flags: Seq<bool>, only_attached: bool, upto: nat, op: Op)
    ensures
        forall|k: int| 0 <= k < deliver_calls(command, flags, only_attached, upto, op).len()
            ==> (#[trigger] deliver_calls(command, flags, only_attached, upto, op)[k]).op == op,
    decreases upto,
{
    if upto > 0 {
        lemma_deliver_ops(command, flags, only_attached, (upto - 1) as nat, op);
    }
}

/// Only an attach request asks members to attach.
pub proof fn lemma_attach_only_on_request(command: nat, c: Command, flags: Seq<bool>, cache: StateCache)
    requires
        c != Command::AttachmentRequested(true),
    ensures
        forall|k: int| 0 <= k < calls(command, c, flags, cache).len()
            ==> !((#[trigger] calls(command, c, flags, cache)[k]).op is Attach),
{
    let n = flags.len();
    lemma_select_count(command, flags, n, Op::Detach);
    match c {
        Command::MetadataChanged(m) => lemma_deliver_ops(command, flags, false, n, Op::Metadata(m)),
        Command::PlaybackChanged(p) => lemma_deliver_ops(command, flags, false, n, Op::Playback(p)),
        Command::VolumeChanged(v) => lemma_deliver_ops(command, flags, false, n, Op::Volume(v)),
        Command::ExternalControlEvent(e) => lemma_deliver_ops(command, flags, false, n, Op::ControlEvent(e)),
        Command::RefreshRequested => {
            let m = match cache.metadata {
                Some(m) => deliver_calls(command, flags, true, n, Op::Metadata(m)),
                None => Seq::empty(),
            };
            let p = match cache.playback {
                Some(p) => deliver_calls(command, flags, true, n, Op::Playback(p)),
                None => Seq::empty(),
            };
            let v = match cache.volume {
                Some(v) => deliver_calls(command, flags, true, n, Op::Volume(v)),
                None => Seq::empty(),
            };
            if let Some(x) = cache.metadata {
                lemma_deliver_ops(command, flags, true, n, Op::Metadata(x));
            }
            if let Some(x) = cache.playback {
                lemma_deliver_ops(command, flags, true, n, Op::Playback(x));
            }
            if let Some(x) = cache.volume {
                lemma_deliver_ops(command, flags, true, n, Op::Volume(x));
            }
            let h = m + p + v;
            assert(calls(command, c, flags, cache) == h);
            assert forall|k: int| 0 <= k < h.len() implies !((#[trigger] h[k]).op is Attach) by {
                if k < m.len() {
                    assert(h[k] == m[k]);
                } else if k < m.len() + p.len() {
                    assert(h[k] == p[k - m.len()]);
                } else {
                    assert(h[k] == v[k - m.len() - p.len()]);
                }
            }
        },
        _ => {},
    }
}

/// Of the commands that the bus delivers for one incoming command, an attach
/// request comes only from an attach request or from playing or pausing.
pub proof fn lemma_attach_only_on_play(c: Command, detach_on_stop: bool, all_attached: bool)
    ensures
        expansion(c, detach_on_stop, all_attached).contains(Command::AttachmentRequested(true)) ==> (c
            == Command::AttachmentRequested(true) || (c is PlaybackChanged && !(c->PlaybackChanged_0 is Stopped))),
{
    let cmds = expansion(c, detach_on_stop, all_attached);
    if cmds.contains(Command::AttachmentRequested(true)) {
        let k = choose|k: int| 0 <= k < cmds.len() && cmds[k] == Command::AttachmentRequested(true);
        match c {
            Command::PlaybackChanged(p) => {},
            _ => {
                assert(cmds[k] == c);
            },
        }
    }
}

proof fn lemma_delivers_facts(a: BusState, b: BusState, detach_on_stop: bool, f: Seq<Failure>)
    requires
        delivers(a, b, detach_on_stop, f),
    ensures
        !a.exited,
        a.pending.len() > 0,
        b.pending == a.pending.drop_first(),
        b.exited == (a.pending[0] is Exit),
        a.history.len() <= b.history.len(),
        b.history.subrange(0, a.history.len() as int) == a.history,
{
    let cmds = expansion(a.pending[0], detach_on_stop, all_set(a.flags));
    let added = expansion_calls(a.delivered, cmds, a.flags, b.flags, a.cache);
    assert(b.history.subrange(0, a.history.len() as int) =~= a.history);
}

proof fn lemma_deliveries_prefix(states: Seq<BusState>, reports: Seq<Seq<Failure>>, detach_on_stop: bool)
    requires
        deliveries(states, reports, detach_on_stop),
        states.len() > 1,
    ensures
        deliveries(states.drop_last(), reports.drop_last(), detach_on_stop),
{
    let prev = states.drop_last();
    let prev_reports = reports.drop_last();
    assert forall|i: int| 0 <= i < prev.len() - 1 implies delivers(
        #[trigger] prev[i],
        prev[i + 1],
        detach_on_stop,
        prev_reports[i],
    ) by {
        assert(delivers(states[i], states[i + 1], detach_on_stop, reports[i]));
    }
}

/// The queue over a run: the `i`-th delivery takes the `i`-th command that
/// was pending when the run began, none is skipped, and none comes after an
/// `Exit`.
pub proof fn lemma_run_takes_queue_in_order(states: Seq<BusState>, reports: Seq<Seq<Failure>>, detach_on_stop: bool)
    requires
        deliveries(states, reports, detach_on_stop),
    ensures
        states.len() - 1 <= states[0].pending.len(),
        forall|i: int| 0 <= i < states.len() ==> #[trigger] states[i].pending == states[0].pending.skip(i),
        forall|i: int| 0 <= i < states.len() - 1 ==> #[trigger] states[i].pending[0] == states[0].pending[i],
        forall|i: int| 0 <= i < states.len() - 2 ==> !(#[trigger] states[0].pending[i] is Exit),
    decreases states.len(),
{
    if states.len() > 1 {
        let prev = states.drop_last();
        lemma_deliveries_prefix(states, reports, detach_on_stop);
        lemma_run_takes_queue_in_order(prev, reports.drop_last(), detach_on_stop);
        let n = states.len() - 1;
        assert(delivers(states[n - 1], states[n], detach_on_stop, reports[n - 1]));
        lemma_delivers_facts(states[n - 1], states[n], detach_on_stop, reports[n - 1]);
        assert(prev[n - 1] == states[n - 1]);
        assert(states[n].pending =~= states[0].pending.skip(n));
        assert forall|i: int| 0 <= i < states.len() implies #[trigger] states[i].pending == states[0].pending.skip(i) by {
            if i < n {
                assert(prev[i] == states[i]);
            }
        }
        assert forall|i: int| 0 <= i < states.len() - 1 implies #[trigger] states[i].pending[0] == states[0].pending[i] by {
            assert(prev[i] == states[i]);
        }
        assert forall|i: int| 0 <= i < states.len() - 2 implies !(#[trigger] states[0].pending[i] is Exit) by {
            assert(prev[i] == states[i]);
            assert(prev[i + 1] == states[i + 1]);
            assert(delivers(states[i], states[i + 1], detach_on_stop, reports[i]));
            assert(delivers(states[i + 1], states[i + 2], detach_on_stop, reports[i + 1]));
            lemma_delivers_facts(states[i], states[i + 1], detach_on_stop, reports[i]);
            lemma_delivers_facts(states[i + 1], states[i + 2], detach_on_stop, reports[i + 1]);
        }
    } else {
        assert(states[0].pending.skip(0) =~= states[0].pending);
    }
}

/// Over a run, the history of an earlier state is a prefix of the history
/// of any later state.
pub proof fn lemma_run_history_grows(states: Seq<BusState>, reports: Seq<Seq<Failure>>, detach_on_stop: bool)
    requires
        deliveries(states, reports, detach_on_stop),
    ensures
        forall|i: int, j: int| 0 <= i <= j < states.len() ==> #[trigger] states[i].history.len()
            <= #[trigger] states[j].history.len() && states[j].history.subrange(0, states[i].history.len() as int)
            == states[i].history,
    decreases states.len(),
{
    if states.len() > 1 {
        let prev = states.drop_last();
        lemma_deliveries_prefix(states, reports, detach_on_stop);
        lemma_run_history_grows(prev, reports.drop_last(), detach_on_stop);
        let n = states.len() - 1;
        assert(delivers(states[n - 1], states[n], detach_on_stop, reports[n - 1]));
        lemma_delivers_facts(states[n - 1], states[n], detach_on_stop, reports[n - 1]);
        assert forall|i: int, j: int| 0 <= i <= j < states.len() implies #[trigger] states[i].history.len()
            <= #[trigger] states[j].history.len() && states[j].history.subrange(0, states[i].history.len() as int)
            == states[i].history by {
            let hi = states[i].history;
            let hj = states[j].history;
            if j < n {
                assert(prev[i] == states[i]);
                assert(prev[j] == states[j]);
            } else if i == n {
                assert(hj.subrange(0, hi.len() as int) =~= hi);
            } else {
                assert(prev[i] == states[i]);
                assert(prev[n - 1] == states[n - 1]);
                let hp = states[n - 1].history;
                assert(hp.subrange(0, hi.len() as int) == hi);
                assert(hj.subrange(0, hi.len() as int) =~= hp.subrange(0, hi.len() as int));
            }
        }
    } else {
        assert(states[0].history.subrange(0, states[0].history.len() as int) =~= states[0].history);
    }
}

/// Order preservation over a run of the bus: what a member has received at
/// any state of the run is what it had received at any earlier state,
/// followed by the calls made in between; nothing is reordered.
pub proof fn lemma_run_in_delivery_order(
    states: Seq<BusState>,
    reports: Seq<Seq<Failure>>,
    detach_on_stop: bool,
    member: nat,
    i: int,
    j: int,
)
    requires
        deliveries(states, reports, detach_on_stop),
        0 <= i <= j < states.len(),
    ensures
        ops_on(states[j].history, member) == ops_on(states[i].history, member) + ops_on(
            states[j].history.skip(states[i].history.len() as int),
            member,
        ),
{
    lemma_run_history_grows(states, reports, detach_on_stop);
    let hi = states[i].history;
    let hj = states[j].history;
    assert(states[i].history.len() <= states[j].history.len());
    assert(hi + hj.skip(hi.len() as int) =~= hj);
    lemma_ops_on_concat(hi, hj.skip(hi.len() as int), member);
}

/// Exit drains the attach state over a run: a run that ends with the bus
/// exited, from a bus that had not, ended by delivering an `Exit`, whose
/// calls are one detach for each member then attached and nothing else.
pub proof fn lemma_run_ends_with_exit(states: Seq<BusState>, reports: Seq<Seq<Failure>>, detach_on_stop: bool)
    requires
        run_of(states, reports, detach_on_stop),
        !states[0].exited,
        states.last().exited,
    ensures
        states.len() >= 2,
        ({
            let k = states.len() - 2;
            let last = states[k];
            &&& last.pending[0] is Exit
            &&& states.last().history == last.history + calls(last.delivered, Command::Exit, last.flags, last.cache)
            &&& states.last().history.len() == last.history.len() + count_set(last.flags)
        }),
{
    let k = states.len() - 2;
    assert(delivers(states[k], states[k + 1], detach_on_stop, reports[k]));
    let last = states[k];
    let cmds = expansion(Command::Exit, detach_on_stop, all_set(last.flags));
    assert(cmds == seq![Command::Exit]);
    assert(cmds.drop_first() =~= Seq::<Command>::empty());
    assert(later_calls(
        last.delivered + 1,
        Seq::<Command>::empty(),
        states[k + 1].flags,
        crate::listener::cache_after(Command::Exit, last.cache),
    ) == Seq::<Call>::empty());
    let c = calls(last.delivered, Command::Exit, last.flags, last.cache);
    assert(expansion_calls(last.delivered, cmds, last.flags, states[k + 1].flags, last.cache) =~= c);
    lemma_exit_detaches_attached(last.delivered, last.flags, last.cache);
}

/// Playing while detached: with detach-on-stop, a playing or paused state
/// that finds the registry not wholly attached makes a detached member that
/// attaches receive, in order, the attach request, the cached metadata,
/// playback and volume, and then the new state.
pub proof fn lemma_play_attaches_then_refreshes(
    command: nat,
    playback: PlaybackState,
    flags: Seq<bool>,
    after: Seq<bool>,
    cache: StateCache,
    member: nat,
)
    requires
        !(playback is Stopped),
        member < flags.len(),
        !flags[member as int],
        after.len() == flags.len(),
        after[member as int],
        cache.metadata is Some,
        cache.playback is Some,
        cache.volume is Some,
    ensures
        ops_on(
            expansion_calls(
                command,
                expansion(Command::PlaybackChanged(playback), true, all_set(flags)),
                flags,
                after,
                cache,
            ),
            member,
        ) == seq![
            Op::Attach,
            Op::Metadata(cache.metadata->0),
            Op::Playback(cache.playback->0),
            Op::Volume(cache.volume->0),
            Op::Playback(playback),
        ],
{
    let n = flags.len();
    let c = Command::PlaybackChanged(playback);
    assert(!all_set(flags));
    let cmds = expansion(c, true, all_set(flags));
    assert(cmds == seq![Command::AttachmentRequested(true), Command::RefreshRequested, c]);
    assert(cmds.drop_first() =~= seq![Command::RefreshRequested, c]);
    lemma_later_two(command + 1, Command::RefreshRequested, c, after, cache);
    let a = calls(command, Command::AttachmentRequested(true), flags, cache);
    let r = calls(command + 1, Command::RefreshRequested, after, cache);
    let d = calls(command + 2, c, after, cache);
    assert(expansion_calls(command, cmds, flags, after, cache) == a + (r + d));
    lemma_refresh_after_attach(command, flags, after, cache, member);
    lemma_ops_on_deliver(command + 2, after, false, n, Op::Playback(playback), member);
    lemma_ops_on_concat(r, d, member);
    lemma_ops_on_concat(a, r + d, member);
    assert(seq![Op::Attach] + (seq![
        Op::Metadata(cache.metadata->0),
        Op::Playback(cache.playback->0),
        Op::Volume(cache.volume->0),
    ] + seq![Op::Playback(playback)]) =~= seq![
        Op::Attach,
        Op::Metadata(cache.metadata->0),
        Op::Playback(cache.playback->0),
        Op::Volume(cache.volume->0),
        Op::Playback(playback),
    ]);
}

} // verus!
