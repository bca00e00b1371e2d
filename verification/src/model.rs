//! The mathematical model of the simulation kernel: what one tick does to
//! the state, given what the agents that were called asked for.
use crate::agent::{AgentCommandView, AgentMode, AgentStateView, CommandView, MessageProcessingStatus};
use crate::message::MessageView;
use crate::{DiscreteTime, SimulationMode};
use vstd::prelude::*;

verus! {

/// The mathematical value of the telemetry kept for one agent.
pub struct AgentMetadataView {
    pub queue_depth_metrics: Seq<usize>,
    pub asleep_cycle_count: DiscreteTime,
}

/// What came back from one agent's dispatch: the commands it issued, oldest
/// first, and what it reported of the message it was handed.
pub struct Reaction {
    pub commands: Seq<CommandView>,
    pub status: MessageProcessingStatus,
}

/// The mathematical value of the kernel's state: the clock, the run mode,
/// the metrics flags and, by handle, each agent's name, state and telemetry.
pub struct SimulationStateView {
    pub time: DiscreteTime,
    pub mode: SimulationMode,
    pub enable_queue_depth_metric: bool,
    pub enable_agent_asleep_cycles_metric: bool,
    pub names: Seq<Seq<char>>,
    pub agents: Seq<AgentStateView>,
    pub metadata: Seq<AgentMetadataView>,
}

/// The handle that a name stands for: the last agent of the roster that
/// bears it, if any does.
pub open spec fn lookup(names: Seq<Seq<char>>, name: Seq<char>) -> Option<int>
    decreases names.len(),
{
    if names.len() == 0 {
        None
    } else if names.last() == name {
        Some(names.len() - 1)
    } else {
        lookup(names.drop_last(), name)
    }
}

/// The tick until which an agent sleeps that asks at `now` to sleep for
/// `ticks`: their sum, or the last tick of the clock if the sum is beyond it.
pub open spec fn wake_tick(now: DiscreteTime, ticks: DiscreteTime) -> DiscreteTime {
    if now + ticks <= u64::MAX {
        (now + ticks) as u64
    } else {
        u64::MAX
    }
}

/// Commands paired with the handle of the agent that issued them.
pub open spec fn tagged(commands: Seq<CommandView>, handle: int) -> Seq<AgentCommandView> {
    commands.map_values(|c: CommandView| AgentCommandView { ty: c, agent_handle: handle })
}

impl AgentStateView {
    /// The state after the wake check at tick `now`: an agent asleep until
    /// `now` or earlier is in its wake mode.
    pub open spec fn woken(self, now: DiscreteTime) -> AgentStateView {
        match self.mode {
            AgentMode::AsleepUntil(t) => if t <= now {
                AgentStateView { mode: self.wake_mode, ..self }
            } else {
                self
            },
            _ => self,
        }
    }

    /// Whether the agent's behavior is called in a tick that finds it in
    /// this state after the wake check.
    pub open spec fn is_called(self) -> bool {
        self.mode == AgentMode::Proactive || (self.mode == AgentMode::Reactive && self.queue.len()
            > 0)
    }

    /// Whether the agent is handed the front of its queue and consumes it.
    pub open spec fn consumes(self, status: MessageProcessingStatus) -> bool {
        self.mode == AgentMode::Reactive && self.queue.len() > 0 && !status.retries()
    }

    /// The state after the agent's dispatch at tick `now`: a message that
    /// was handed over and not reported as unfinished leaves the queue and
    /// joins the consumed log with its completion time; any other message
    /// stays where it is.
    pub open spec fn settled(self, now: DiscreteTime, status: MessageProcessingStatus) -> AgentStateView {
        if self.consumes(status) {
            AgentStateView {
                queue: self.queue.drop_first(),
                consumed: self.consumed.push(self.queue[0].completed_at(now)),
                ..self
            }
        } else {
            self
        }
    }

    /// The state with the front of the queue taken out, if there is one.
    pub open spec fn taken(self) -> AgentStateView {
        if self.queue.len() > 0 {
            AgentStateView { queue: self.queue.drop_first(), ..self }
        } else {
            self
        }
    }

    /// The state, given with its front message taken out, after that
    /// message has met its fate at tick `now`: a reactive agent that did not
    /// report it as unfinished has consumed it; with any other agent it is
    /// back at the front of the queue.
    pub open spec fn restored(
        self,
        popped: Option<MessageView>,
        now: DiscreteTime,
        status: MessageProcessingStatus,
    ) -> AgentStateView {
        match popped {
            Some(message) => if self.mode == AgentMode::Reactive && !status.retries() {
                AgentStateView { consumed: self.consumed.push(message.completed_at(now)), ..self }
            } else {
                AgentStateView { queue: seq![message] + self.queue, ..self }
            },
            None => self,
        }
    }

    /// The message at the front of the queue, if there is one.
    pub open spec fn front(self) -> Option<MessageView> {
        if self.queue.len() > 0 {
            Some(self.queue[0])
        } else {
            None
        }
    }

    /// The queue depth that is recorded at a dispatch: the messages behind
    /// the one at the front.
    pub open spec fn depth_sample(self) -> usize {
        if self.queue.len() > 0 {
            (self.queue.len() - 1) as usize
        } else {
            0
        }
    }

    /// The commands that count of a reaction: those of an agent that was
    /// called.
    pub open spec fn issued(self, reaction: Reaction) -> Seq<CommandView> {
        if self.is_called() {
            reaction.commands
        } else {
            Seq::empty()
        }
    }
}

impl AgentMetadataView {
    /// The telemetry after the dispatch of an agent that the wake check
    /// left in `state`.
    pub open spec fn measured(
        self,
        state: AgentStateView,
        depth_enabled: bool,
        asleep_enabled: bool,
    ) -> AgentMetadataView {
        AgentMetadataView {
            queue_depth_metrics: if depth_enabled {
                self.queue_depth_metrics.push(state.depth_sample())
            } else {
                self.queue_depth_metrics
            },
            asleep_cycle_count: if asleep_enabled && state.mode is AsleepUntil {
                (self.asleep_cycle_count + 1) as u64
            } else {
                self.asleep_cycle_count
            },
        }
    }
}

impl SimulationStateView {
    /// Every agent has a name, a state and telemetry, and no agent is on
    /// record as asleep for more than `bound` ticks.
    pub open spec fn wf_within(self, bound: int) -> bool {
        &&& self.names.len() == self.agents.len()
        &&& self.metadata.len() == self.agents.len()
        &&& forall|i: int|
            0 <= i < self.metadata.len() ==> (#[trigger] self.metadata[i]).asleep_cycle_count
                <= bound
    }

    /// Every agent has a name, a state and telemetry, and no agent is on
    /// record as asleep for more ticks than the clock has counted.
    pub open spec fn wf(self) -> bool {
        self.wf_within(self.time as int)
    }

    /// The state after the first half of the dispatch of the agent with this
    /// handle: the front of its queue is taken out, and its telemetry is
    /// brought up to date.
    pub open spec fn begun(self, handle: int) -> SimulationStateView {
        SimulationStateView {
            agents: self.agents.update(handle, self.agents[handle].taken()),
            metadata: self.metadata.update(
                handle,
                self.metadata[handle].measured(
                    self.agents[handle],
                    self.enable_queue_depth_metric,
                    self.enable_agent_asleep_cycles_metric,
                ),
            ),
            ..self
        }
    }

    /// The state after the second half of the dispatch of the agent with
    /// this handle: the message that was taken out has met its fate.
    pub open spec fn finished(
        self,
        handle: int,
        popped: Option<MessageView>,
        status: MessageProcessingStatus,
    ) -> SimulationStateView {
        SimulationStateView {
            agents: self.agents.update(
                handle,
                self.agents[handle].restored(popped, self.time, status),
            ),
            ..self
        }
    }

    /// The state after the wake check.
    pub open spec fn woken(self) -> SimulationStateView {
        SimulationStateView {
            agents: Seq::new(self.agents.len(), |i: int| self.agents[i].woken(self.time)),
            ..self
        }
    }

    /// The state after the dispatch of the agents with a handle below
    /// `upto`, given what came back from each.
    pub open spec fn dispatched_upto(self, reactions: Seq<Reaction>, upto: int) -> SimulationStateView {
        SimulationStateView {
            agents: Seq::new(
                self.agents.len(),
                |i: int|
                    if i < upto {
                        self.agents[i].settled(self.time, reactions[i].status)
                    } else {
                        self.agents[i]
                    },
            ),
            metadata: Seq::new(
                self.metadata.len(),
                |i: int|
                    if i < upto {
                        self.metadata[i].measured(
                            self.agents[i],
                            self.enable_queue_depth_metric,
                            self.enable_agent_asleep_cycles_metric,
                        )
                    } else {
                        self.metadata[i]
                    },
            ),
            ..self
        }
    }

    /// The state after the dispatch of every agent.
    pub open spec fn dispatched(self, reactions: Seq<Reaction>) -> SimulationStateView {
        self.dispatched_upto(reactions, self.agents.len() as int)
    }

    /// The command buffer after the dispatch of the agents with a handle
    /// below `upto`: their commands in roster order, each agent's in the
    /// order of issue.
    pub open spec fn gathered_upto(self, reactions: Seq<Reaction>, upto: int) -> Seq<AgentCommandView>
        decreases upto,
    {
        if upto <= 0 {
            Seq::empty()
        } else {
            self.gathered_upto(reactions, upto - 1) + tagged(
                self.agents[upto - 1].issued(reactions[upto - 1]),
                upto - 1,
            )
        }
    }

    /// The command buffer after the dispatch of every agent.
    pub open spec fn gathered(self, reactions: Seq<Reaction>) -> Seq<AgentCommandView> {
        self.gathered_upto(reactions, self.agents.len() as int)
    }

    /// The state with `message` at the back of the queue of the agent that
    /// its destination names, if there is one.
    pub open spec fn delivered(self, message: MessageView) -> SimulationStateView {
        match lookup(self.names, message.destination) {
            Some(receiver) => if 0 <= receiver < self.agents.len() {
                SimulationStateView {
                    agents: self.agents.update(
                        receiver,
                        AgentStateView {
                            queue: self.agents[receiver].queue.push(message),
                            ..self.agents[receiver]
                        },
                    ),
                    ..self
                }
            } else {
                self
            },
            None => self,
        }
    }

    /// The state with `message` at the end of the produced log of the agent
    /// with this handle.
    pub open spec fn logged(self, handle: int, message: MessageView) -> SimulationStateView {
        SimulationStateView {
            agents: self.agents.update(
                handle,
                AgentStateView {
                    produced: self.agents[handle].produced.push(message),
                    ..self.agents[handle]
                },
            ),
            ..self
        }
    }

    /// The state after one command is applied. A message goes to the agent
    /// that its destination names at this moment, if any, and in either case
    /// into the sender's produced log; a sleep sets the issuer's mode; a halt
    /// completes the simulation. A command of a handle that no agent has
    /// changes nothing.
    pub open spec fn apply(self, command: AgentCommandView) -> SimulationStateView {
        let handle = command.agent_handle;
        if handle < 0 || handle >= self.agents.len() {
            self
        } else {
            match command.ty {
                CommandView::SendMessage(message) => self.delivered(message).logged(handle, message),
                CommandView::Sleep(ticks) => SimulationStateView {
                    agents: self.agents.update(
                        handle,
                        AgentStateView {
                            mode: AgentMode::AsleepUntil(wake_tick(self.time, ticks)),
                            ..self.agents[handle]
                        },
                    ),
                    ..self
                },
                CommandView::HaltSimulation(_) => SimulationStateView {
                    mode: SimulationMode::Completed,
                    ..self
                },
            }
        }
    }

    /// The state after a buffer of commands is applied, first in, first
    /// applied.
    pub open spec fn applied(self, commands: Seq<AgentCommandView>) -> SimulationStateView
        decreases commands.len(),
    {
        if commands.len() == 0 {
            self
        } else {
            self.applied(commands.drop_last()).apply(commands.last())
        }
    }

    /// The handle of the agent that `name` stands for, where that agent has
    /// a state and telemetry on record.
    pub open spec fn agent_named(self, name: Seq<char>) -> Option<int> {
        match lookup(self.names, name) {
            Some(handle) => if 0 <= handle < self.agents.len() && handle < self.metadata.len() {
                Some(handle)
            } else {
                None
            },
            None => None,
        }
    }

    /// For each agent, the length of its queue.
    pub open spec fn queue_lengths(self) -> Seq<Option<u64>> {
        Seq::new(self.agents.len(), |i: int| Some(self.agents[i].queue.len() as u64))
    }

    /// For each agent, the number of messages that it has consumed.
    pub open spec fn consumed_lengths(self) -> Seq<Option<u64>> {
        Seq::new(self.agents.len(), |i: int| Some(self.agents[i].consumed.len() as u64))
    }

    /// For each agent, the number of messages that it has produced.
    pub open spec fn produced_lengths(self) -> Seq<Option<u64>> {
        Seq::new(self.agents.len(), |i: int| Some(self.agents[i].produced.len() as u64))
    }

    /// For each agent that has consumed a message, the mean of the ticks
    /// that its consumed messages waited.
    pub open spec fn average_waits(self) -> Seq<Option<u64>> {
        Seq::new(self.agents.len(), |i: int| average_wait(self.agents[i].consumed))
    }

    /// The state with the clock advanced by one tick.
    pub open spec fn advanced(self) -> SimulationStateView {
        SimulationStateView { time: (self.time + 1) as u64, ..self }
    }

    /// The state after one tick in which the agents' dispatches gave
    /// `reactions`, by handle: the wake check, the dispatch of every agent in
    /// roster order, the drain of the command buffer, and the advance of the
    /// clock by one.
    pub open spec fn tick(self, reactions: Seq<Reaction>) -> SimulationStateView {
        let awake = self.woken();
        awake.dispatched(reactions).applied(awake.gathered(reactions)).advanced()
    }
}

/// The handle that `lookup` gives is the last one that bears the name.
pub proof fn lemma_lookup(names: Seq<Seq<char>>, name: Seq<char>)
    ensures
        match lookup(names, name) {
            Some(handle) => {
                &&& 0 <= handle < names.len()
                &&& names[handle] == name
                &&& forall|i: int| handle < i < names.len() ==> names[i] != name
            },
            None => forall|i: int| 0 <= i < names.len() ==> names[i] != name,
        },
    decreases names.len(),
{
    if names.len() > 0 && names.last() != name {
        let rest = names.drop_last();
        lemma_lookup(rest, name);
        assert(forall|i: int| 0 <= i < rest.len() ==> rest[i] == names[i]);
        match lookup(rest, name) {
            Some(handle) => {
                assert forall|i: int| handle < i < names.len() implies names[i] != name by {
                    if i < rest.len() {
                        assert(rest[i] == names[i]);
                    }
                }
            },
            None => {
                assert forall|i: int| 0 <= i < names.len() implies names[i] != name by {
                    if i < rest.len() {
                        assert(rest[i] == names[i]);
                    }
                }
            },
        }
    }
}

/// A handle that bears the name, with none after it that does, is what
/// `lookup` gives.
pub proof fn lemma_lookup_is_last(names: Seq<Seq<char>>, name: Seq<char>, handle: int)
    requires
        0 <= handle < names.len(),
        names[handle] == name,
        forall|i: int| handle < i < names.len() ==> names[i] != name,
    ensures
        lookup(names, name) == Some(handle),
{
    lemma_lookup(names, name);
}

/// The ticks that a consumed message waited: from the tick at which it was
/// queued to the tick at which it was consumed. A message without a
/// completion time, or with one before the tick at which it was queued,
/// counts as one that did not wait.
pub open spec fn wait_of(message: MessageView) -> nat {
    match message.completed_time {
        Some(completed) => if completed >= message.queued_time {
            (completed - message.queued_time) as nat
        } else {
            0
        },
        None => 0,
    }
}

/// The ticks that the messages of a log waited, all together.
pub open spec fn total_wait(log: Seq<MessageView>) -> nat
    decreases log.len(),
{
    if log.len() == 0 {
        0
    } else {
        total_wait(log.drop_last()) + wait_of(log.last())
    }
}

/// The mean of the ticks that the messages of a log waited, rounded down;
/// an empty log has none.
pub open spec fn average_wait(log: Seq<MessageView>) -> Option<u64> {
    if log.len() == 0 {
        None
    } else {
        Some((total_wait(log) / log.len()) as u64)
    }
}

/// The messages of a log waited less than 2^64 ticks each.
pub proof fn lemma_total_wait_bound(log: Seq<MessageView>)
    ensures
        total_wait(log) <= log.len() * u64::MAX,
    decreases log.len(),
{
    if log.len() > 0 {
        lemma_total_wait_bound(log.drop_last());
        assert(wait_of(log.last()) <= u64::MAX);
        assert((log.len() - 1) * u64::MAX + u64::MAX == log.len() * u64::MAX) by (nonlinear_arith);
    }
}

/// Applying commands changes neither the clock, the names, the telemetry,
/// the flags nor the number of agents, and the only change of mode that it
/// can make is to `Completed`.
pub proof fn lemma_applied_frame(s: SimulationStateView, commands: Seq<AgentCommandView>)
    ensures
        s.applied(commands).time == s.time,
        s.applied(commands).names == s.names,
        s.applied(commands).metadata == s.metadata,
        s.applied(commands).enable_queue_depth_metric == s.enable_queue_depth_metric,
        s.applied(commands).enable_agent_asleep_cycles_metric
            == s.enable_agent_asleep_cycles_metric,
        s.applied(commands).agents.len() == s.agents.len(),
        s.applied(commands).mode == s.mode || s.applied(commands).mode
            == SimulationMode::Completed,
    decreases commands.len(),
{
    if commands.len() > 0 {
        lemma_applied_frame(s, commands.drop_last());
        let earlier = s.applied(commands.drop_last());
        lemma_apply_frame(earlier, commands.last());
    }
}

/// Applying one command changes neither the clock, the names, the
/// telemetry, the flags nor the number of agents, and the only change of
/// mode that it can make is to `Completed`.
pub proof fn lemma_apply_frame(s: SimulationStateView, command: AgentCommandView)
    ensures
        s.apply(command).time == s.time,
        s.apply(command).names == s.names,
        s.apply(command).metadata == s.metadata,
        s.apply(command).enable_queue_depth_metric == s.enable_queue_depth_metric,
        s.apply(command).enable_agent_asleep_cycles_metric == s.enable_agent_asleep_cycles_metric,
        s.apply(command).agents.len() == s.agents.len(),
        s.apply(command).mode == s.mode || s.apply(command).mode == SimulationMode::Completed,
{
    match command.ty {
        CommandView::SendMessage(message) => {
            let sent = s.delivered(message);
            assert(sent.agents.len() == s.agents.len());
            if 0 <= command.agent_handle < s.agents.len() {
                assert(sent.logged(command.agent_handle, message).agents.len()
                    == sent.agents.len());
            }
        },
        _ => {},
    }
}

/// What was gathered below a handle does not depend on the reactions at
/// that handle or above it.
pub proof fn lemma_gathered_prefix(
    s: SimulationStateView,
    first: Seq<Reaction>,
    second: Seq<Reaction>,
    upto: int,
)
    requires
        0 <= upto <= first.len(),
        upto <= second.len(),
        forall|i: int| 0 <= i < upto ==> first[i] == second[i],
    ensures
        s.gathered_upto(first, upto) == s.gathered_upto(second, upto),
    decreases upto,
{
    if upto > 0 {
        lemma_gathered_prefix(s, first, second, upto - 1);
    }
}

} // verus!
