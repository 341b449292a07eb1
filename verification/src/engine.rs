//! The two bridge loops as state machines: the publisher loop that polls
//! the device and publishes snapshots, and the dispatcher loop that applies
//! desired-state updates.
//!
//! The outside work of each cycle (the HTTP fetch, the bus publish, the
//! command call, the interval sleep, the channel wait) is performed by the
//! surrounding program; these machines make every decision: what to publish,
//! where, which command to issue, and whether the loop lives on.
use vstd::prelude::*;

use crate::codec::{serialize_state, spec_serialize_state};
use crate::command::MusicCastCmd;
use crate::dispatch::{select_command, spec_select_command};
use crate::state::{BridgeError, MqttDevice, MusicCastConfig, MusicCastState};

verus! {

/// Whether a bridge loop is still running.
#[derive(Clone, Copy, PartialEq, Eq, Structural, Debug)]
pub enum LoopStatus {
    Running,
    Terminated,
}

/// The per-device bus topic: every placeholder character of the template is
/// replaced by the device's name.
pub open spec fn spec_topic(template: Seq<char>, name: Seq<char>) -> Seq<char>
    decreases template.len(),
{
    if template.len() == 0 {
        Seq::empty()
    } else {
        (if template[0] == '+' {
            name
        } else {
            seq![template[0]]
        }) + spec_topic(template.drop_first(), name)
    }
}

/// Topic substitution distributes over appending one template character.
pub proof fn lemma_topic_push(template: Seq<char>, c: char, name: Seq<char>)
    ensures
        spec_topic(template.push(c), name) == spec_topic(template, name) + (if c == '+' {
            name
        } else {
            seq![c]
        }),
    decreases template.len(),
{
    let tp = template.push(c);
    let tail = if c == '+' {
        name
    } else {
        seq![c]
    };
    if template.len() == 0 {
        assert(tp[0] == c);
        assert(tp.drop_first() =~= Seq::<char>::empty());
        assert(spec_topic(tp.drop_first(), name) == Seq::<char>::empty());
        assert(spec_topic(tp, name) =~= spec_topic(template, name) + tail);
    } else {
        assert(tp[0] == template[0]);
        assert(tp.drop_first() =~= template.drop_first().push(c));
        lemma_topic_push(template.drop_first(), c, name);
        assert(spec_topic(tp, name) =~= spec_topic(template, name) + tail);
    }
}

/// Build the per-device topic from the configured template and device name.
pub fn topic_for(template: &Vec<char>, name: &Vec<char>) -> (r: Vec<char>)
    ensures
        r@ == spec_topic(template@, name@),
{
    let mut out: Vec<char> = Vec::new();
    let n = template.len();
    let mut i: usize = 0;
    assert(template@.subrange(0, 0) =~= Seq::<char>::empty());
    while i < n
        invariant
            n == template@.len(),
            0 <= i <= n,
            out@ == spec_topic(template@.subrange(0, i as int), name@),
        decreases n - i,
    {
        let c = template[i];
        if c == '+' {
            crate::codec::push_chars(&mut out, name);
        } else {
            out.push(c);
        }
        proof {
            assert(template@.subrange(0, i + 1) =~= template@.subrange(0, i as int).push(
                template@[i as int],
            ));
            lemma_topic_push(template@.subrange(0, i as int), template@[i as int], name@);
        }
        i = i + 1;
    }
    assert(template@.subrange(0, n as int) =~= template@);
    out
}

/// The poll interval, in seconds, used when the configuration names none.
pub fn default_poll_rate() -> (r: u64)
    ensures
        r == 5,
{
    5
}

/// The publisher's next status after a cycle: a failed fetch or publish is
/// fatal, and a dead loop stays dead.
pub open spec fn spec_publisher_next(st: LoopStatus, cycle_ok: bool) -> LoopStatus {
    if st is Terminated {
        LoopStatus::Terminated
    } else if cycle_ok {
        LoopStatus::Running
    } else {
        LoopStatus::Terminated
    }
}

/// Whether a publisher cycle publishes: only a running loop with a
/// successful fetch does.
pub open spec fn spec_publisher_emits(st: LoopStatus, fetch_ok: bool) -> bool {
    st is Running && fetch_ok
}

/// The cycle-by-cycle emissions of a publisher over a trace of fetch
/// outcomes.
pub open spec fn spec_publisher_trace(st: LoopStatus, fetches: Seq<bool>) -> Seq<bool>
    decreases fetches.len(),
{
    if fetches.len() == 0 {
        Seq::empty()
    } else {
        seq![spec_publisher_emits(st, fetches[0])] + spec_publisher_trace(
            spec_publisher_next(st, fetches[0]),
            fetches.drop_first(),
        )
    }
}

/// A publisher trace has one emission decision per cycle.
pub proof fn lemma_publisher_trace_len(st: LoopStatus, fetches: Seq<bool>)
    ensures
        spec_publisher_trace(st, fetches).len() == fetches.len(),
    decreases fetches.len(),
{
    if fetches.len() > 0 {
        lemma_publisher_trace_len(spec_publisher_next(st, fetches[0]), fetches.drop_first());
    }
}

/// A fetch failure terminates the publisher, and a terminated publisher
/// never publishes again, whatever later fetches would have returned.
pub proof fn lemma_fetch_failure_halts_publisher(fetches: Seq<bool>)
    ensures
        spec_publisher_next(LoopStatus::Running, false) is Terminated,
        forall|i: int|
            0 <= i < fetches.len() ==> !spec_publisher_trace(LoopStatus::Terminated, fetches)[i],
    decreases fetches.len(),
{
    if fetches.len() > 0 {
        lemma_fetch_failure_halts_publisher(fetches.drop_first());
        let tr = spec_publisher_trace(LoopStatus::Terminated, fetches);
        lemma_publisher_trace_len(LoopStatus::Terminated, fetches);
        lemma_publisher_trace_len(LoopStatus::Terminated, fetches.drop_first());
        assert(spec_publisher_next(LoopStatus::Terminated, fetches[0]) is Terminated);
        assert(tr == seq![spec_publisher_emits(LoopStatus::Terminated, fetches[0])]
            + spec_publisher_trace(LoopStatus::Terminated, fetches.drop_first()));
        assert forall|i: int| 0 <= i < fetches.len() implies !tr[i] by {
            if i > 0 {
                assert(tr[i] == spec_publisher_trace(
                    LoopStatus::Terminated,
                    fetches.drop_first(),
                )[i - 1]);
            }
        }
    }
}

/// The state publisher loop.
pub struct PublisherLoop {
    pub status: LoopStatus,
}

impl PublisherLoop {
    /// A freshly started publisher is running.
    pub fn new() -> (r: PublisherLoop)
        ensures
            r.status is Running,
    {
        PublisherLoop { status: LoopStatus::Running }
    }

    /// One poll cycle, given what the fetch returned: a running publisher
    /// turns a fetched snapshot into the topic and payload to publish; a
    /// failed fetch is fatal; a dead publisher does nothing.
    pub fn poll_step(
        &mut self,
        template: &Vec<char>,
        config: &MusicCastConfig,
        fetch: Result<MusicCastState, BridgeError>,
    ) -> (r: Option<(Vec<char>, Vec<char>)>)
        ensures
            old(self).status is Terminated ==> r is None && final(self).status is Terminated,
            old(self).status is Running && fetch is Err ==> r is None && (final(
                self).status is Terminated),
            fetch matches Ok(st) ==> (old(self).status is Running ==> (final(
                self).status is Running) && (r matches Some(tp) && tp.0@ == spec_topic(
                template@,
                config.name@,
            ) && tp.1@ == spec_serialize_state(st@))),
            final(self).status == spec_publisher_next(old(self).status, fetch is Ok),
            r is Some <==> spec_publisher_emits(old(self).status, fetch is Ok),
    {
        match self.status {
            LoopStatus::Terminated => None,
            LoopStatus::Running => match fetch {
                Err(_) => {
                    self.status = LoopStatus::Terminated;
                    None
                },
                Ok(st) => {
                    let topic = topic_for(template, &config.name);
                    let payload = serialize_state(&st);
                    Some((topic, payload))
                },
            },
        }
    }

    /// Record what the bus publish returned: a failed publish is fatal.
    pub fn publish_result(&mut self, res: Result<(), BridgeError>)
        ensures
            final(self).status == spec_publisher_next(old(self).status, res is Ok),
    {
        if res.is_err() {
            self.status = LoopStatus::Terminated;
        }
    }
}

/// The dispatcher's next status after a command application: failures are
/// swallowed and the loop lives on; only a closed subscription channel,
/// handled separately, is fatal.
pub open spec fn spec_dispatcher_next(st: LoopStatus, apply_ok: bool) -> LoopStatus {
    st
}

/// A running dispatcher is still running after any sequence of command
/// outcomes, failures included, so a subsequent valid update is processed.
pub proof fn lemma_dispatch_failure_recovers(outcomes: Seq<bool>)
    ensures
        spec_dispatcher_run(LoopStatus::Running, outcomes) is Running,
    decreases outcomes.len(),
{
    if outcomes.len() > 0 {
        lemma_dispatch_failure_recovers(outcomes.drop_first());
    }
}

/// The dispatcher's status after a trace of command outcomes.
pub open spec fn spec_dispatcher_run(st: LoopStatus, outcomes: Seq<bool>) -> LoopStatus
    decreases outcomes.len(),
{
    if outcomes.len() == 0 {
        st
    } else {
        spec_dispatcher_run(spec_dispatcher_next(st, outcomes[0]), outcomes.drop_first())
    }
}

/// The command dispatcher loop.
pub struct DispatcherLoop {
    pub status: LoopStatus,
}

impl DispatcherLoop {
    /// A freshly started dispatcher is running.
    pub fn new() -> (r: DispatcherLoop)
        ensures
            r.status is Running,
    {
        DispatcherLoop { status: LoopStatus::Running }
    }

    /// One wake-up, given the snapshot read from the command slot: a running
    /// dispatcher picks at most one command for it.
    pub fn wake(&mut self, update: Option<&MqttDevice>) -> (r: Option<MusicCastCmd>)
        ensures
            final(self).status == old(self).status,
            old(self).status is Terminated ==> r is None,
            old(self).status is Running ==> r == (match update {
                Some(d) => spec_select_command(*d),
                None => None,
            }),
    {
        match self.status {
            LoopStatus::Terminated => None,
            LoopStatus::Running => match update {
                Some(d) => select_command(d),
                None => None,
            },
        }
    }

    /// Record what the command application returned: failures are logged by
    /// the caller and swallowed here; the loop never stops for them.
    pub fn apply_result(&mut self, res: Result<(), BridgeError>)
        ensures
            final(self).status == spec_dispatcher_next(old(self).status, res is Ok),
            final(self).status == old(self).status,
    {
    }

    /// Record that the subscription channel closed: an unrecoverable
    /// precondition violation, fatal to the dispatcher.
    pub fn channel_closed(&mut self)
        ensures
            final(self).status is Terminated,
    {
        self.status = LoopStatus::Terminated;
    }
}

} // verus!
