//! The simulation kernel: the roster, the clock, and the tick loop.
//!
//! A tick wakes the agents that are due, dispatches every agent in roster
//! order, drains the command buffer, and advances the clock by one. Four
//! choices shape it:
//!
//! - Commands are applied in the order in which they were issued: agents in
//!   roster order, each agent's commands first in, first applied.
//! - A name that several agents bear stands for the last of them, in message
//!   routing and in queries alike.
//! - A message leaves a queue only by being consumed. The message that is
//!   taken out for a dispatch goes back to the front of the queue unless a
//!   reactive agent was handed it and did not report it as unfinished.
//! - The clock never wraps. A request to sleep past its last tick lasts to
//!   its last tick, and a run that reaches the last tick without halting ends
//!   as `Failed`.
use crate::agent::{
    buffer_views, clone_log, clone_queue, command_views, AgentCommand, AgentCommandType,
    AgentContext, AgentInitializer, AgentMode, AgentOptionsView, AgentState, AgentStateView,
    BoxedAgent, MessageProcessingStatus,
};
use crate::message::{message_views, Message, MessageView};
use crate::model::{
    average_wait, lemma_applied_frame, lemma_gathered_prefix, lemma_lookup, lemma_lookup_is_last,
    lemma_total_wait_bound, lookup, tagged, total_wait, wait_of, wake_tick, AgentMetadataView,
    Reaction, SimulationStateView,
};
use crate::statistics::{statistics_of, Statistics};
use crate::{DiscreteTime, SimulationMode};
use vstd::prelude::*;

verus! {

/// Telemetry that the simulation keeps for one agent.
#[derive(Debug)]
pub struct AgentMetadata {
    /// The queue depth recorded at each of the agent's dispatches, if enabled.
    pub queue_depth_metrics: Vec<usize>,
    /// The number of ticks that found the agent asleep, if enabled.
    pub asleep_cycle_count: DiscreteTime,
}

impl View for AgentMetadata {
    type V = AgentMetadataView;

    open spec fn view(&self) -> AgentMetadataView {
        AgentMetadataView {
            queue_depth_metrics: self.queue_depth_metrics@,
            asleep_cycle_count: self.asleep_cycle_count,
        }
    }
}

impl Clone for AgentMetadata {
    fn clone(&self) -> (copy: Self)
        ensures
            copy@ == self@,
    {
        let queue_depth_metrics = self.queue_depth_metrics.clone();
        assert(queue_depth_metrics@ =~= self.queue_depth_metrics@);
        AgentMetadata { queue_depth_metrics, asleep_cycle_count: self.asleep_cycle_count }
    }
}

/// The state of a simulation that its halt check sees: everything but the
/// agents' own behaviors.
#[derive(Debug)]
pub struct SimulationState {
    /// The current discrete time of the Simulation.
    pub time: DiscreteTime,
    /// The mode of the Simulation.
    pub mode: SimulationMode,
    /// Whether to record metrics on queue depths. Takes space.
    pub enable_queue_depth_metric: bool,
    /// Records a metric on the number of cycles an agent was asleep for.
    pub enable_agent_asleep_cycles_metric: bool,
    /// The name of each agent, by handle.
    pub agent_names: Vec<String>,
    /// The state of each agent, by handle.
    pub agent_states: Vec<AgentState>,
    /// The telemetry of each agent, by handle.
    pub agent_metadata: Vec<AgentMetadata>,
}

/// The values of a sequence of names, in the same order.
pub open spec fn name_views(names: Seq<String>) -> Seq<Seq<char>> {
    names.map_values(|name: String| name@)
}

/// The values of a sequence of agent states, in the same order.
pub open spec fn state_views(states: Seq<AgentState>) -> Seq<AgentStateView> {
    states.map_values(|state: AgentState| state@)
}

/// The values of a sequence of telemetry records, in the same order.
pub open spec fn metadata_views(records: Seq<AgentMetadata>) -> Seq<AgentMetadataView> {
    records.map_values(|record: AgentMetadata| record@)
}

impl View for SimulationState {
    type V = SimulationStateView;

    open spec fn view(&self) -> SimulationStateView {
        SimulationStateView {
            time: self.time,
            mode: self.mode,
            enable_queue_depth_metric: self.enable_queue_depth_metric,
            enable_agent_asleep_cycles_metric: self.enable_agent_asleep_cycles_metric,
            names: name_views(self.agent_names@),
            agents: state_views(self.agent_states@),
            metadata: metadata_views(self.agent_metadata@),
        }
    }
}

impl Clone for SimulationState {
    fn clone(&self) -> (copy: Self)
        ensures
            copy@ == self@,
    {
        let mut agent_states: Vec<AgentState> = Vec::new();
        let mut i: usize = 0;
        while i < self.agent_states.len()
            invariant
                i <= self.agent_states@.len(),
                agent_states@.len() == i,
                forall|j: int|
                    0 <= j < i ==> (#[trigger] agent_states@[j])@ == self.agent_states@[j]@,
            decreases self.agent_states@.len() - i,
        {
            agent_states.push(self.agent_states[i].clone());
            i += 1;
        }
        let mut agent_metadata: Vec<AgentMetadata> = Vec::new();
        let mut k: usize = 0;
        while k < self.agent_metadata.len()
            invariant
                k <= self.agent_metadata@.len(),
                agent_metadata@.len() == k,
                forall|j: int|
                    0 <= j < k ==> (#[trigger] agent_metadata@[j])@ == self.agent_metadata@[j]@,
            decreases self.agent_metadata@.len() - k,
        {
            agent_metadata.push(self.agent_metadata[k].clone());
            k += 1;
        }
        let copy = SimulationState {
            time: self.time,
            mode: self.mode,
            enable_queue_depth_metric: self.enable_queue_depth_metric,
            enable_agent_asleep_cycles_metric: self.enable_agent_asleep_cycles_metric,
            agent_names: self.names(),
            agent_states,
            agent_metadata,
        };
        assert(copy@.agents =~= self@.agents);
        assert(copy@.metadata =~= self@.metadata);
        copy
    }
}

impl SimulationState {
    /// Whether the state is well formed: see [`SimulationStateView::wf`].
    pub open spec fn wf(&self) -> bool {
        self@.wf()
    }

    /// The handle of the agent that `name` stands for: the last agent of
    /// the roster that bears it.
    pub fn find_agent(&self, name: &str) -> (found: Option<usize>)
        ensures
            match found {
                Some(handle) => lookup(self@.names, name@) == Some(handle as int),
                None => lookup(self@.names, name@) is None,
            },
    {
        let wanted = name.to_string();
        let mut i: usize = self.agent_names.len();
        while i > 0
            invariant
                i <= self.agent_names@.len(),
                wanted@ == name@,
                forall|j: int| i <= j < self.agent_names@.len() ==> self@.names[j] != name@,
            decreases i,
        {
            i -= 1;
            if self.agent_names[i] == wanted {
                proof {
                    lemma_lookup_is_last(self@.names, name@, i as int);
                }
                return Some(i);
            }
        }
        proof {
            lemma_lookup(self@.names, name@);
        }
        None
    }

    /// The handle of the agent that `name` stands for, where that agent has
    /// a state and telemetry on record.
    pub fn resolve(&self, name: &str) -> (found: Option<usize>)
        ensures
            match found {
                Some(handle) => self@.agent_named(name@) == Some(handle as int),
                None => self@.agent_named(name@) is None,
            },
    {
        match self.find_agent(name) {
            Some(handle) => {
                if handle < self.agent_states.len() && handle < self.agent_metadata.len() {
                    Some(handle)
                } else {
                    None
                }
            },
            None => None,
        }
    }

    /// The state of the agent that `id` stands for.
    pub fn agent_state(&self, id: &str) -> (state: Option<&AgentState>)
        ensures
            match state {
                Some(found) => self@.agent_named(id@) is Some && *found
                    == self.agent_states@[self@.agent_named(id@).unwrap()],
                None => self@.agent_named(id@) is None,
            },
    {
        match self.resolve(id) {
            Some(handle) => Some(&self.agent_states[handle]),
            None => None,
        }
    }

    /// Returns the consumed messages for a given Agent during the Simulation.
    pub fn consumed_for_agent(&self, name: &str) -> (log: Option<Vec<Message>>)
        ensures
            match log {
                Some(messages) => self@.agent_named(name@) is Some && message_views(messages@)
                    == self@.agents[self@.agent_named(name@).unwrap()].consumed,
                None => self@.agent_named(name@) is None,
            },
    {
        match self.resolve(name) {
            Some(handle) => Some(clone_log(&self.agent_states[handle].consumed)),
            None => None,
        }
    }

    /// Returns the produced messages for a given Agent during the Simulation.
    pub fn produced_for_agent(&self, name: &str) -> (log: Option<Vec<Message>>)
        ensures
            match log {
                Some(messages) => self@.agent_named(name@) is Some && message_views(messages@)
                    == self@.agents[self@.agent_named(name@).unwrap()].produced,
                None => self@.agent_named(name@) is None,
            },
    {
        match self.resolve(name) {
            Some(handle) => Some(clone_log(&self.agent_states[handle].produced)),
            None => None,
        }
    }

    /// Returns the queue depth timeseries for a given Agent during the Simulation.
    pub fn queue_depth_metrics(&self, id: &str) -> (series: Option<Vec<usize>>)
        ensures
            match series {
                Some(depths) => self@.agent_named(id@) is Some && depths@
                    == self@.metadata[self@.agent_named(id@).unwrap()].queue_depth_metrics,
                None => self@.agent_named(id@) is None,
            },
    {
        match self.resolve(id) {
            Some(handle) => {
                let depths = self.agent_metadata[handle].queue_depth_metrics.clone();
                assert(depths@ =~= self.agent_metadata@[handle as int].queue_depth_metrics@);
                Some(depths)
            },
            None => None,
        }
    }

    /// Returns the asleep cycle count for a given Agent during the Simulation.
    pub fn asleep_cycle_count(&self, id: &str) -> (count: Option<DiscreteTime>)
        ensures
            match count {
                Some(cycles) => self@.agent_named(id@) is Some && cycles
                    == self@.metadata[self@.agent_named(id@).unwrap()].asleep_cycle_count,
                None => self@.agent_named(id@) is None,
            },
    {
        match self.resolve(id) {
            Some(handle) => Some(self.agent_metadata[handle].asleep_cycle_count),
            None => None,
        }
    }

    /// A copy of the agents' names, by handle.
    pub fn names(&self) -> (names: Vec<String>)
        ensures
            name_views(names@) == self@.names,
    {
        let mut names: Vec<String> = Vec::new();
        let mut i: usize = 0;
        while i < self.agent_names.len()
            invariant
                i <= self.agent_names@.len(),
                names@.len() == i,
                forall|j: int| 0 <= j < i ==> (#[trigger] names@[j])@ == self.agent_names@[j]@,
            decreases self.agent_names@.len() - i,
        {
            names.push(self.agent_names[i].clone());
            i += 1;
        }
        assert(name_views(names@) =~= self@.names);
        names
    }

    /// A helper to calculate the average waiting time to process items:
    /// for each agent that has consumed a message, the mean of the ticks
    /// between the queueing and the consumption of its consumed messages.
    pub fn calc_avg_wait_statistics(&self) -> (statistics: Statistics)
        ensures
            statistics@ == statistics_of(self@.names, self@.average_waits()),
    {
        let mut values: Vec<Option<u64>> = Vec::new();
        let mut i: usize = 0;
        while i < self.agent_states.len()
            invariant
                i <= self.agent_states@.len(),
                values@.len() == i,
                forall|j: int|
                    0 <= j < i ==> #[trigger] values@[j] == average_wait(
                        self.agent_states@[j]@.consumed,
                    ),
            decreases self.agent_states@.len() - i,
        {
            values.push(average_wait_of(&self.agent_states[i].consumed));
            i += 1;
        }
        assert(values@ =~= self@.average_waits());
        Statistics { names: self.names(), values }
    }

    /// Calculates the statistics of queue lengths.
    /// Mostly useful for checking which agents still have queues of work after halting.
    pub fn calc_queue_len_statistics(&self) -> (statistics: Statistics)
        ensures
            statistics@ == statistics_of(self@.names, self@.queue_lengths()),
    {
        let mut values: Vec<Option<u64>> = Vec::new();
        let mut i: usize = 0;
        while i < self.agent_states.len()
            invariant
                i <= self.agent_states@.len(),
                values@.len() == i,
                forall|j: int|
                    0 <= j < i ==> #[trigger] values@[j] == Some(
                        self.agent_states@[j]@.queue.len() as u64,
                    ),
            decreases self.agent_states@.len() - i,
        {
            values.push(Some(self.agent_states[i].queue.len() as u64));
            i += 1;
        }
        assert(values@ =~= self@.queue_lengths());
        Statistics { names: self.names(), values }
    }

    /// Calculates the length of the consumed messages for each Agent.
    pub fn calc_consumed_len_statistics(&self) -> (statistics: Statistics)
        ensures
            statistics@ == statistics_of(self@.names, self@.consumed_lengths()),
    {
        let mut values: Vec<Option<u64>> = Vec::new();
        let mut i: usize = 0;
        while i < self.agent_states.len()
            invariant
                i <= self.agent_states@.len(),
                values@.len() == i,
                forall|j: int|
                    0 <= j < i ==> #[trigger] values@[j] == Some(
                        self.agent_states@[j]@.consumed.len() as u64,
                    ),
            decreases self.agent_states@.len() - i,
        {
            values.push(Some(self.agent_states[i].consumed.len() as u64));
            i += 1;
        }
        assert(values@ =~= self@.consumed_lengths());
        Statistics { names: self.names(), values }
    }

    /// Calculates the length of the produced messages for each Agent.
    pub fn calc_produced_len_statistics(&self) -> (statistics: Statistics)
        ensures
            statistics@ == statistics_of(self@.names, self@.produced_lengths()),
    {
        let mut values: Vec<Option<u64>> = Vec::new();
        let mut i: usize = 0;
        while i < self.agent_states.len()
            invariant
                i <= self.agent_states@.len(),
                values@.len() == i,
                forall|j: int|
                    0 <= j < i ==> #[trigger] values@[j] == Some(
                        self.agent_states@[j]@.produced.len() as u64,
                    ),
            decreases self.agent_states@.len() - i,
        {
            values.push(Some(self.agent_states[i].produced.len() as u64));
            i += 1;
        }
        assert(values@ =~= self@.produced_lengths());
        Statistics { names: self.names(), values }
    }

    /// An internal function used to wakeup sleeping Agents due to wake.
    pub fn wakeup_agents_scheduled_to_wakeup_now(&mut self)
        ensures
            final(self)@ == old(self)@.woken(),
    {
        let mut i: usize = 0;
        while i < self.agent_states.len()
            invariant
                i <= self.agent_states@.len(),
                self.agent_states@.len() == old(self).agent_states@.len(),
                self.time == old(self).time,
                self.mode == old(self).mode,
                self.enable_queue_depth_metric == old(self).enable_queue_depth_metric,
                self.enable_agent_asleep_cycles_metric == old(
                    self,
                ).enable_agent_asleep_cycles_metric,
                self.agent_names == old(self).agent_names,
                self.agent_metadata == old(self).agent_metadata,
                forall|j: int|
                    0 <= j < i ==> (#[trigger] self.agent_states@[j])@ == old(
                        self,
                    ).agent_states@[j]@.woken(self.time),
                forall|j: int|
                    i <= j < self.agent_states@.len() ==> self.agent_states@[j] == old(
                        self,
                    ).agent_states@[j],
            decreases self.agent_states@.len() - i,
        {
            let now = self.time;
            let agent_state = &mut self.agent_states[i];
            if let AgentMode::AsleepUntil(wakeup_at) = agent_state.mode {
                if now >= wakeup_at {
                    agent_state.mode = agent_state.wake_mode;
                }
            }
            i += 1;
        }
        assert(self@.agents =~= old(self)@.woken().agents);
    }

    /// Applies one command: see [`SimulationStateView::apply`].
    pub fn apply_command(&mut self, command: &AgentCommand)
        ensures
            final(self)@ == old(self)@.apply(command@),
    {
        let handle = command.agent_handle;
        if handle >= self.agent_states.len() {
            return ;
        }
        match &command.ty {
            AgentCommandType::SendMessage(message) => {
                let receiver = self.find_agent(message.destination.as_str());
                if let Some(r) = receiver {
                    if r < self.agent_states.len() {
                        let ghost before = self.agent_states@;
                        self.agent_states[r].queue.push_back(message.clone());
                        assert(self.agent_states@[r as int]@.queue =~= before[r as int]@.queue.push(
                            message@,
                        ));
                        assert(state_views(self.agent_states@) =~= state_views(before).update(
                            r as int,
                            AgentStateView {
                                queue: before[r as int]@.queue.push(message@),
                                ..before[r as int]@
                            },
                        ));
                    }
                }
                assert(self@ == old(self)@.delivered(message@));
                let ghost before = self.agent_states@;
                self.agent_states[handle].produced.push(message.clone());
                assert(self.agent_states@[handle as int]@.produced =~= before[handle as int]@.produced.push(
                    message@,
                ));
                assert(state_views(self.agent_states@) =~= state_views(before).update(
                    handle as int,
                    AgentStateView {
                        produced: before[handle as int]@.produced.push(message@),
                        ..before[handle as int]@
                    },
                ));
            },
            AgentCommandType::Sleep(ticks) => {
                let until: DiscreteTime = if *ticks <= u64::MAX - self.time {
                    self.time + *ticks
                } else {
                    u64::MAX
                };
                let ghost before = self.agent_states@;
                self.agent_states[handle].mode = AgentMode::AsleepUntil(until);
                assert(state_views(self.agent_states@) =~= state_views(before).update(
                    handle as int,
                    AgentStateView {
                        mode: AgentMode::AsleepUntil(wake_tick(self.time, *ticks)),
                        ..before[handle as int]@
                    },
                ));
            },
            AgentCommandType::HaltSimulation(_) => {
                self.mode = SimulationMode::Completed;
            },
        }
    }

    /// Applies the buffered commands, first in, first applied, and leaves
    /// the buffer empty.
    pub fn process_command_buffer(&mut self, command_buffer: &mut Vec<AgentCommand>)
        ensures
            final(self)@ == old(self)@.applied(buffer_views(old(command_buffer)@)),
            final(command_buffer)@.len() == 0,
    {
        let ghost commands = buffer_views(command_buffer@);
        let mut i: usize = 0;
        while i < command_buffer.len()
            invariant
                i <= command_buffer@.len(),
                command_buffer@ == old(command_buffer)@,
                commands == buffer_views(command_buffer@),
                self@ == old(self)@.applied(commands.take(i as int)),
            decreases command_buffer@.len() - i,
        {
            self.apply_command(&command_buffer[i]);
            proof {
                let next = commands.take(i as int + 1);
                assert(next.drop_last() =~= commands.take(i as int));
                assert(next.last() == command_buffer@[i as int]@);
            }
            i += 1;
        }
        assert(commands.take(i as int) =~= commands);
        command_buffer.clear();
    }

    /// The first half of the dispatch of the agent with this handle: takes
    /// the front of its queue out, to be handed to the agent, and brings its
    /// telemetry up to date.
    pub fn begin_dispatch(&mut self, handle: usize) -> (popped: Option<Message>)
        requires
            handle < old(self).agent_states@.len(),
            handle < old(self).agent_metadata@.len(),
            old(self).agent_metadata@[handle as int].asleep_cycle_count < u64::MAX,
        ensures
            final(self)@ == old(self)@.begun(handle as int),
            match popped {
                Some(message) => old(self)@.agents[handle as int].front() == Some(message@),
                None => old(self)@.agents[handle as int].front() is None,
            },
    {
        let ghost before = self.agent_states@;
        let ghost records = self.agent_metadata@;
        let popped = self.agent_states[handle].queue.pop_front();
        let depth = self.agent_states[handle].queue.len();
        let asleep = match self.agent_states[handle].mode {
            AgentMode::AsleepUntil(_) => true,
            _ => false,
        };
        proof {
            let taken = before[handle as int]@.taken();
            assert(self.agent_states@[handle as int]@.queue =~= taken.queue);
            assert(state_views(self.agent_states@) =~= state_views(before).update(
                handle as int,
                taken,
            ));
            assert(depth == before[handle as int]@.depth_sample());
        }
        if self.enable_queue_depth_metric {
            self.agent_metadata[handle].queue_depth_metrics.push(depth);
        }
        if self.enable_agent_asleep_cycles_metric && asleep {
            let count = self.agent_metadata[handle].asleep_cycle_count;
            self.agent_metadata[handle].asleep_cycle_count = count + 1;
        }
        proof {
            assert(metadata_views(self.agent_metadata@) =~= metadata_views(records).update(
                handle as int,
                records[handle as int]@.measured(
                    before[handle as int]@,
                    self.enable_queue_depth_metric,
                    self.enable_agent_asleep_cycles_metric,
                ),
            ));
        }
        popped
    }

    /// The second half of the dispatch of the agent with this handle, given
    /// the message that was taken out for it and what the agent reported: a
    /// reactive agent that did not report the message as unfinished has
    /// consumed it at the current tick; with any other agent the message goes
    /// back to the front of the queue.
    pub fn finish_dispatch(
        &mut self,
        handle: usize,
        popped: Option<Message>,
        status: MessageProcessingStatus,
    )
        requires
            handle < old(self).agent_states@.len(),
        ensures
            final(self)@ == old(self)@.finished(
                handle as int,
                match popped {
                    Some(message) => Some(message@),
                    None => None,
                },
                status,
            ),
    {
        let ghost before = self.agent_states@;
        let now = self.time;
        match popped {
            Some(message) => {
                let reactive = match self.agent_states[handle].mode {
                    AgentMode::Reactive => true,
                    _ => false,
                };
                if reactive && !status.is_retry() {
                    let ghost stamped = message@.completed_at(now);
                    self.agent_states[handle].consumed.push(message.into_completed(now));
                    assert(self.agent_states@[handle as int]@.consumed
                        =~= before[handle as int]@.consumed.push(stamped));
                } else {
                    let ghost returned = message@;
                    self.agent_states[handle].queue.push_front(message);
                    assert(self.agent_states@[handle as int]@.queue =~= seq![returned]
                        + before[handle as int]@.queue);
                }
            },
            None => {},
        }
        assert(state_views(self.agent_states@) =~= state_views(before).update(
            handle as int,
            before[handle as int]@.restored(
                match popped {
                    Some(message) => Some(message@),
                    None => None,
                },
                now,
                status,
            ),
        ));
    }
}

/// Moves the commands that one agent issued to the end of the command
/// buffer, in the order of issue, each with the agent's handle.
pub fn tag_commands(
    command_buffer: &mut Vec<AgentCommand>,
    issued: Vec<AgentCommandType>,
    handle: usize,
)
    ensures
        buffer_views(final(command_buffer)@) == buffer_views(old(command_buffer)@) + tagged(
            command_views(issued@),
            handle as int,
        ),
{
    let ghost wanted = tagged(command_views(issued@), handle as int);
    let ghost total = issued@.len();
    let mut issued = issued;
    let ghost whole = issued@;
    let mut reversed: Vec<AgentCommandType> = Vec::new();
    loop
        invariant
            whole.len() == total,
            issued@.len() + reversed@.len() == total,
            issued@ =~= whole.take(issued@.len() as int),
            forall|k: int|
                0 <= k < reversed@.len() ==> #[trigger] reversed@[k] == whole[total - 1 - k],
        ensures
            reversed@.len() == total,
            forall|k: int|
                0 <= k < reversed@.len() ==> #[trigger] reversed@[k] == whole[total - 1 - k],
        decreases issued@.len(),
    {
        let ghost left = issued@.len();
        match issued.pop() {
            Some(command) => {
                assert(command == whole[left - 1]);
                reversed.push(command);
            },
            None => {
                break ;
            },
        }
    }
    loop
        invariant
            reversed@.len() <= total,
            whole.len() == total,
            wanted == tagged(command_views(whole), handle as int),
            forall|k: int|
                0 <= k < reversed@.len() ==> #[trigger] reversed@[k] == whole[total - 1 - k],
            buffer_views(command_buffer@) == buffer_views(old(command_buffer)@) + wanted.take(
                total - reversed@.len(),
            ),
        ensures
            buffer_views(command_buffer@) == buffer_views(old(command_buffer)@) + wanted,
        decreases reversed@.len(),
    {
        let ghost done = total - reversed@.len();
        let ghost earlier = command_buffer@;
        match reversed.pop() {
            Some(command) => {
                let ghost view = command@;
                command_buffer.push(AgentCommand { ty: command, agent_handle: handle });
                assert(buffer_views(command_buffer@) =~= buffer_views(earlier).push(
                    wanted[done],
                ));
                assert(wanted.take(done + 1) =~= wanted.take(done).push(wanted[done]));
                assert(buffer_views(command_buffer@) =~= buffer_views(old(command_buffer)@)
                    + wanted.take(done + 1));
            },
            None => {
                assert(wanted.take(total as int) =~= wanted);
                break ;
            },
        }
    }
}

/// The parameters to create a Simulation.
pub struct SimulationParameters<H> {
    /// The agents within the simulation, e.g. adaptive agents.
    pub agent_initializers: Vec<AgentInitializer>,
    /// Given the state of the Simulation a function that determines if the Simulation is complete.
    pub halt_check: H,
    /// The discrete time at which the simulation should begin.
    /// For the vast majority of simulations, 0 is the correct default.
    pub starting_time: DiscreteTime,
    /// Whether to record metrics on queue depths at every tick of the simulation.
    pub enable_queue_depth_metrics: bool,
    /// Records a metric on the number of cycles an agent was asleep for.
    pub enable_agent_asleep_cycles_metric: bool,
}

/// The mathematical value of a set of parameters, the behaviors and the
/// halt check aside.
pub struct SimulationParametersView {
    pub options: Seq<AgentOptionsView>,
    pub starting_time: DiscreteTime,
    pub enable_queue_depth_metrics: bool,
    pub enable_agent_asleep_cycles_metric: bool,
}

/// The values of the options of a sequence of initializers, in the same order.
pub open spec fn option_views(initializers: Seq<AgentInitializer>) -> Seq<AgentOptionsView> {
    initializers.map_values(|initializer: AgentInitializer| initializer.options@)
}

impl<H> View for SimulationParameters<H> {
    type V = SimulationParametersView;

    open spec fn view(&self) -> SimulationParametersView {
        SimulationParametersView {
            options: option_views(self.agent_initializers@),
            starting_time: self.starting_time,
            enable_queue_depth_metrics: self.enable_queue_depth_metrics,
            enable_agent_asleep_cycles_metric: self.enable_agent_asleep_cycles_metric,
        }
    }
}

impl SimulationParametersView {
    /// The state in which a simulation with these parameters starts.
    pub open spec fn starting_state(self) -> SimulationStateView {
        SimulationStateView {
            time: self.starting_time,
            mode: SimulationMode::Constructed,
            enable_queue_depth_metric: self.enable_queue_depth_metrics,
            enable_agent_asleep_cycles_metric: self.enable_agent_asleep_cycles_metric,
            names: self.options.map_values(|options: AgentOptionsView| options.name),
            agents: self.options.map_values(
                |options: AgentOptionsView| options.starting_state(),
            ),
            metadata: self.options.map_values(
                |options: AgentOptionsView|
                    AgentMetadataView { queue_depth_metrics: Seq::empty(), asleep_cycle_count: 0 },
            ),
        }
    }
}

impl<H> SimulationParameters<H> {
    /// Parameters with this halt check and nothing else: no agent, a start
    /// at tick 0, and no metrics.
    pub fn with_halt_check(halt_check: H) -> (parameters: Self)
        ensures
            parameters.halt_check == halt_check,
            parameters@ == (SimulationParametersView {
                options: Seq::empty(),
                starting_time: 0,
                enable_queue_depth_metrics: false,
                enable_agent_asleep_cycles_metric: false,
            }),
    {
        let parameters = SimulationParameters {
            agent_initializers: Vec::new(),
            halt_check,
            starting_time: 0,
            enable_queue_depth_metrics: false,
            enable_agent_asleep_cycles_metric: false,
        };
        assert(parameters@.options =~= Seq::empty());
        parameters
    }
}

/// A Simulation struct is responsible to hold all the state for a simulation
/// and coordinates the actions and interactions of the agents.
///
/// A Simulation has its own concept of time, which is implemented as discrete
/// ticks of the u64 field `time`. Every tick is modeled as an instantaneous
/// point in time at which interactions can occur. The Simulation engine uses a
/// concept of `Messages` to communicate between agents. Agents can receive
/// messages and send messages to other Agents.
pub struct Simulation<H> {
    /// The agents within the simulation, e.g. adaptive agents.
    pub agents: Vec<BoxedAgent>,
    /// A halt check function: given the state of the Simulation determine halt or not.
    pub halt_check: H,
    /// The clock, the mode, and what is kept for each agent.
    pub state: SimulationState,
}

impl<H: Fn(&SimulationState) -> bool + Copy> Simulation<H> {
    /// Whether the simulation is well formed: its state is, and every
    /// agent of the roster has its record there.
    pub open spec fn wf(&self) -> bool {
        &&& self.state.wf()
        &&& self.agents@.len() == self.state@.agents.len()
    }

    /// A simulation of the agents that the parameters name, each in its
    /// starting state, with the clock at the starting time.
    pub fn new(parameters: SimulationParameters<H>) -> (simulation: Simulation<H>)
        ensures
            simulation.wf(),
            simulation.halt_check == parameters.halt_check,
            simulation.state@ == parameters@.starting_state(),
    {
        Simulation::from_parameters(&parameters)
    }

    /// A simulation of the agents that the parameters name, each made anew
    /// and in its starting state, with the clock at the starting time. The
    /// parameters stay as they are.
    pub fn from_parameters(parameters: &SimulationParameters<H>) -> (simulation: Simulation<H>)
        ensures
            simulation.wf(),
            simulation.halt_check == parameters.halt_check,
            simulation.state@ == parameters@.starting_state(),
    {
        let mut agents: Vec<BoxedAgent> = Vec::new();
        let mut agent_names: Vec<String> = Vec::new();
        let mut agent_states: Vec<AgentState> = Vec::new();
        let mut agent_metadata: Vec<AgentMetadata> = Vec::new();
        let ghost options = parameters@.options;
        let mut i: usize = 0;
        while i < parameters.agent_initializers.len()
            invariant
                i <= parameters.agent_initializers@.len(),
                options == option_views(parameters.agent_initializers@),
                agents@.len() == i,
                agent_names@.len() == i,
                agent_states@.len() == i,
                agent_metadata@.len() == i,
                forall|j: int| 0 <= j < i ==> (#[trigger] agent_names@[j])@ == options[j].name,
                forall|j: int|
                    0 <= j < i ==> (#[trigger] agent_states@[j])@ == options[j].starting_state(),
                forall|j: int|
                    0 <= j < i ==> (#[trigger] agent_metadata@[j])@ == (AgentMetadataView {
                        queue_depth_metrics: Seq::empty(),
                        asleep_cycle_count: 0,
                    }),
            decreases parameters.agent_initializers@.len() - i,
        {
            let initializer = &parameters.agent_initializers[i];
            agents.push(initializer.agent.spawn());
            agent_names.push(initializer.options.name.clone());
            let state = AgentState {
                mode: initializer.options.initial_mode,
                wake_mode: initializer.options.wake_mode,
                queue: clone_queue(&initializer.options.initial_queue),
                consumed: Vec::new(),
                produced: Vec::new(),
            };
            assert(state@.consumed =~= Seq::<MessageView>::empty());
            assert(state@.produced =~= Seq::<MessageView>::empty());
            agent_states.push(state);
            agent_metadata.push(
                AgentMetadata { queue_depth_metrics: Vec::new(), asleep_cycle_count: 0 },
            );
            i += 1;
        }
        let state = SimulationState {
            time: parameters.starting_time,
            mode: SimulationMode::Constructed,
            enable_queue_depth_metric: parameters.enable_queue_depth_metrics,
            enable_agent_asleep_cycles_metric: parameters.enable_agent_asleep_cycles_metric,
            agent_names,
            agent_states,
            agent_metadata,
        };
        proof {
            let start = parameters@.starting_state();
            assert(state@.names =~= start.names);
            assert(state@.agents =~= start.agents);
            assert(state@.metadata =~= start.metadata);
        }
        Simulation { agents, halt_check: parameters.halt_check, state }
    }

    /// Returns the consumed messages for a given Agent during the Simulation.
    pub fn consumed_for_agent(&self, name: &str) -> (log: Option<Vec<Message>>)
        ensures
            match log {
                Some(messages) => self.state@.agent_named(name@) is Some && message_views(
                    messages@,
                ) == self.state@.agents[self.state@.agent_named(name@).unwrap()].consumed,
                None => self.state@.agent_named(name@) is None,
            },
    {
        self.state.consumed_for_agent(name)
    }

    /// Returns the produced messages for a given Agent during the Simulation.
    pub fn produced_for_agent(&self, name: &str) -> (log: Option<Vec<Message>>)
        ensures
            match log {
                Some(messages) => self.state@.agent_named(name@) is Some && message_views(
                    messages@,
                ) == self.state@.agents[self.state@.agent_named(name@).unwrap()].produced,
                None => self.state@.agent_named(name@) is None,
            },
    {
        self.state.produced_for_agent(name)
    }

    /// The state of the agent that `id` stands for.
    pub fn agent_state(&self, id: &str) -> (state: Option<&AgentState>)
        ensures
            match state {
                Some(found) => self.state@.agent_named(id@) is Some && *found
                    == self.state.agent_states@[self.state@.agent_named(id@).unwrap()],
                None => self.state@.agent_named(id@) is None,
            },
    {
        self.state.agent_state(id)
    }

    /// The state of the agent that `id` stands for, for a caller that holds
    /// the simulation exclusively. The simulation stays as it is.
    pub fn agent_state_mut(&mut self, id: &str) -> (state: Option<&AgentState>)
        ensures
            *final(self) == *old(self),
            match state {
                Some(found) => old(self).state@.agent_named(id@) is Some && *found == old(
                    self,
                ).state.agent_states@[old(self).state@.agent_named(id@).unwrap()],
                None => old(self).state@.agent_named(id@) is None,
            },
    {
        self.state.agent_state(id)
    }

    /// Returns the queue depth timeseries for a given Agent during the Simulation.
    pub fn queue_depth_metrics(&self, id: &str) -> (series: Option<Vec<usize>>)
        ensures
            match series {
                Some(depths) => self.state@.agent_named(id@) is Some && depths@
                    == self.state@.metadata[self.state@.agent_named(
                    id@,
                ).unwrap()].queue_depth_metrics,
                None => self.state@.agent_named(id@) is None,
            },
    {
        self.state.queue_depth_metrics(id)
    }

    /// Returns the asleep cycle count for a given Agent during the Simulation.
    pub fn asleep_cycle_count(&self, id: &str) -> (count: Option<DiscreteTime>)
        ensures
            match count {
                Some(cycles) => self.state@.agent_named(id@) is Some && cycles
                    == self.state@.metadata[self.state@.agent_named(
                    id@,
                ).unwrap()].asleep_cycle_count,
                None => self.state@.agent_named(id@) is None,
            },
    {
        self.state.asleep_cycle_count(id)
    }

    /// A helper to calculate the average waiting time to process items:
    /// for each agent that has consumed a message, the mean of the ticks
    /// between the queueing and the consumption of its consumed messages.
    pub fn calc_avg_wait_statistics(&self) -> (statistics: Statistics)
        ensures
            statistics@ == statistics_of(self.state@.names, self.state@.average_waits()),
    {
        self.state.calc_avg_wait_statistics()
    }

    /// Calculates the statistics of queue lengths.
    /// Mostly useful for checking which agents still have queues of work after halting.
    pub fn calc_queue_len_statistics(&self) -> (statistics: Statistics)
        ensures
            statistics@ == statistics_of(self.state@.names, self.state@.queue_lengths()),
    {
        self.state.calc_queue_len_statistics()
    }

    /// Calculates the length of the consumed messages for each Agent.
    pub fn calc_consumed_len_statistics(&self) -> (statistics: Statistics)
        ensures
            statistics@ == statistics_of(self.state@.names, self.state@.consumed_lengths()),
    {
        self.state.calc_consumed_len_statistics()
    }

    /// Calculates the length of the produced messages for each Agent.
    pub fn calc_produced_len_statistics(&self) -> (statistics: Statistics)
        ensures
            statistics@ == statistics_of(self.state@.names, self.state@.produced_lengths()),
    {
        self.state.calc_produced_len_statistics()
    }

    /// One tick of the simulation: the wake check, the dispatch of every
    /// agent in roster order, the drain of the command buffer, and the
    /// advance of the clock by one. What the state is afterwards follows,
    /// as [`SimulationStateView::tick`] says, from what came back from the
    /// agents' dispatches, by handle; what is handed to each agent is what
    /// [`AgentContext::new`] makes of its handle, its name, the tick and its
    /// state without the message at the front of its queue.
    pub fn tick(&mut self)
        requires
            old(self).wf(),
            old(self).state.time < u64::MAX,
        ensures
            final(self).wf(),
            final(self).halt_check == old(self).halt_check,
            final(self).state.time == old(self).state.time + 1,
            exists|reactions: Seq<Reaction>|
                reactions.len() == old(self).state@.agents.len() && final(self).state@ == old(
                    self,
                ).state@.tick(reactions),
    {
        self.state.wakeup_agents_scheduled_to_wakeup_now();
        let ghost awake = self.state@;
        let mut command_buffer: Vec<AgentCommand> = Vec::new();
        let ghost mut reactions: Seq<Reaction> = Seq::empty();
        let n = self.agents.len();
        assert(buffer_views(command_buffer@) =~= awake.gathered_upto(reactions, 0));
        assert(self.state@.agents =~= awake.dispatched_upto(reactions, 0).agents);
        assert(self.state@.metadata =~= awake.dispatched_upto(reactions, 0).metadata);
        let mut i: usize = 0;
        while i < n
            invariant
                i <= n,
                n == self.agents@.len(),
                n == awake.agents.len(),
                awake.wf(),
                awake.time < u64::MAX,
                self.halt_check == old(self).halt_check,
                reactions.len() == i,
                self.state@ == awake.dispatched_upto(reactions, i as int),
                buffer_views(command_buffer@) == awake.gathered_upto(reactions, i as int),
            decreases n - i,
        {
            assert(self.state@.agents.len() == self.state.agent_states@.len());
            assert(self.state@.metadata.len() == self.state.agent_metadata@.len());
            assert(self.state@.names.len() == self.state.agent_names@.len());
            assert(self.state@.metadata[i as int] == awake.metadata[i as int]);
            assert(self.state@.agents[i as int] == awake.agents[i as int]);
            let popped = self.state.begin_dispatch(i);
            assert(self.state@.agents.len() == self.state.agent_states@.len());
            assert(self.state@.names.len() == self.state.agent_names@.len());
            assert(self.state@.agents[i as int] == awake.agents[i as int].taken());
            assert(self.state.agent_states@[i as int]@ == self.state@.agents[i as int]);
            let ghost begun = self.state@;
            let mut status = MessageProcessingStatus::Initialized;
            let mut issued: Vec<AgentCommandType> = Vec::new();
            match self.state.agent_states[i].mode {
                AgentMode::Proactive => {
                    let mut ctx = AgentContext::new(
                        i,
                        self.state.agent_names[i].as_str(),
                        self.state.time,
                        &self.state.agent_states[i],
                    );
                    self.agents[i].0.on_tick(&mut ctx);
                    status = ctx.message_processing_status;
                    issued = ctx.commands;
                },
                AgentMode::Reactive => {
                    if let Some(message) = &popped {
                        let mut ctx = AgentContext::new(
                            i,
                            self.state.agent_names[i].as_str(),
                            self.state.time,
                            &self.state.agent_states[i],
                        );
                        self.agents[i].0.on_message(&mut ctx, message);
                        status = ctx.message_processing_status;
                        issued = ctx.commands;
                    }
                },
                _ => {},
            }
            assert(self.state@ == begun);
            assert(!awake.agents[i as int].is_called() ==> issued@.len() == 0);
            let ghost reaction = Reaction { commands: command_views(issued@), status };
            let ghost earlier = reactions;
            proof {
                reactions = reactions.push(reaction);
                let agent = awake.agents[i as int];
                assert(agent.issued(reaction) =~= command_views(issued@));
                lemma_gathered_prefix(awake, earlier, reactions, i as int);
            }
            self.state.finish_dispatch(i, popped, status);
            tag_commands(&mut command_buffer, issued, i);
            proof {
                let agent = awake.agents[i as int];
                let next = awake.dispatched_upto(reactions, i as int + 1);
                assert(agent.taken().restored(agent.front(), awake.time, status) == agent.settled(
                    awake.time,
                    status,
                )) by {
                    if agent.queue.len() > 0 {
                        assert(seq![agent.queue[0]] + agent.queue.drop_first() =~= agent.queue);
                    }
                }
                assert(self.state@.agents =~= next.agents);
                assert(self.state@.metadata =~= next.metadata);
            }
            i += 1;
        }
        self.state.process_command_buffer(&mut command_buffer);
        proof {
            lemma_applied_frame(awake.dispatched(reactions), awake.gathered(reactions));
        }
        self.state.time = self.state.time + 1;
        assert(self.state@ == old(self).state@.tick(reactions));
    }

    /// Whether `worlds` and `trace` tell of a run that the halt check lets
    /// pass from `start` to `end`. `worlds` holds the state before each tick
    /// and after the last; `trace` holds, for each tick, what came back from
    /// the agents' dispatches.
    ///
    /// The run starts in the mode `Running`. A tick follows only while the
    /// mode is `Running`, the halt check answered no, and the clock has a
    /// tick left. The run ends as `Completed` where an agent has halted it
    /// or the halt check answered yes, and as `Failed` where the halt check
    /// answered no with the clock at its last tick.
    pub open spec fn is_run(
        halt_check: H,
        start: SimulationStateView,
        worlds: Seq<SimulationState>,
        trace: Seq<Seq<Reaction>>,
        end: SimulationStateView,
    ) -> bool {
        let last = worlds.last();
        &&& worlds.len() == trace.len() + 1
        &&& worlds[0]@ == (SimulationStateView { mode: SimulationMode::Running, ..start })
        &&& forall|j: int|
            0 <= j < trace.len() ==> {
                &&& worlds[j].mode == SimulationMode::Running
                &&& worlds[j].time < u64::MAX
                &&& call_ensures(halt_check, (&worlds[j],), false)
                &&& (#[trigger] trace[j]).len() == worlds[j]@.agents.len()
                &&& worlds[j + 1]@ == worlds[j]@.tick(trace[j])
            }
        &&& end == (SimulationStateView { mode: end.mode, ..last@ })
        &&& {
            ||| {
                &&& end.mode == SimulationMode::Completed
                &&& last.mode != SimulationMode::Running
            }
            ||| {
                &&& end.mode == SimulationMode::Completed
                &&& last.mode == SimulationMode::Running
                &&& call_ensures(halt_check, (&last,), true)
            }
            ||| {
                &&& end.mode == SimulationMode::Failed
                &&& last.mode == SimulationMode::Running
                &&& last.time == u64::MAX
                &&& call_ensures(halt_check, (&last,), false)
            }
        }
    }

    /// Runs the simulation: tick after tick until an agent halts it, the
    /// halt check says that it is complete, or the clock has no tick left.
    /// This should only be called after adding all the beginning state.
    pub fn run(&mut self)
        requires
            old(self).wf(),
            forall|state: SimulationState| call_requires(old(self).halt_check, (&state,)),
        ensures
            final(self).wf(),
            final(self).halt_check == old(self).halt_check,
            exists|worlds: Seq<SimulationState>, trace: Seq<Seq<Reaction>>|
                Self::is_run(
                    old(self).halt_check,
                    old(self).state@,
                    worlds,
                    trace,
                    final(self).state@,
                ),
    {
        self.state.mode = SimulationMode::Running;
        let ghost mut worlds: Seq<SimulationState> = seq![self.state];
        let ghost mut trace: Seq<Seq<Reaction>> = Seq::empty();
        loop
            invariant_except_break
                worlds.last() == self.state,
            invariant
                self.wf(),
                self.halt_check == old(self).halt_check,
                forall|state: SimulationState| call_requires(self.halt_check, (&state,)),
                worlds.len() == trace.len() + 1,
                worlds[0]@ == (SimulationStateView {
                    mode: SimulationMode::Running,
                    ..old(self).state@
                }),
                forall|j: int|
                    0 <= j < trace.len() ==> {
                        &&& worlds[j].mode == SimulationMode::Running
                        &&& worlds[j].time < u64::MAX
                        &&& call_ensures(self.halt_check, (&worlds[j],), false)
                        &&& (#[trigger] trace[j]).len() == worlds[j]@.agents.len()
                        &&& worlds[j + 1]@ == worlds[j]@.tick(trace[j])
                    },
            ensures
                self.wf(),
                self.halt_check == old(self).halt_check,
                Self::is_run(old(self).halt_check, old(self).state@, worlds, trace, self.state@),
            decreases u64::MAX - self.state.time,
        {
            let running = match self.state.mode {
                SimulationMode::Running => true,
                _ => false,
            };
            if !running {
                self.state.mode = SimulationMode::Completed;
                break ;
            }
            let halted = (self.halt_check)(&self.state);
            if halted {
                self.state.mode = SimulationMode::Completed;
                break ;
            }
            if self.state.time == u64::MAX {
                self.state.mode = SimulationMode::Failed;
                break ;
            }
            let ghost before = self.state;
            self.tick();
            proof {
                let reactions = choose|reactions: Seq<Reaction>|
                    reactions.len() == before@.agents.len() && self.state@ == before@.tick(
                        reactions,
                    );
                let earlier_worlds = worlds;
                let earlier_trace = trace;
                worlds = worlds.push(self.state);
                trace = trace.push(reactions);
                assert forall|j: int| 0 <= j < trace.len() implies {
                    &&& worlds[j].mode == SimulationMode::Running
                    &&& worlds[j].time < u64::MAX
                    &&& call_ensures(self.halt_check, (&worlds[j],), false)
                    &&& (#[trigger] trace[j]).len() == worlds[j]@.agents.len()
                    &&& worlds[j + 1]@ == worlds[j]@.tick(trace[j])
                } by {
                    if j < earlier_trace.len() {
                        assert(trace[j] == earlier_trace[j]);
                        assert(worlds[j] == earlier_worlds[j]);
                        assert(worlds[j + 1] == earlier_worlds[j + 1]);
                    } else {
                        assert(worlds[j] == before);
                    }
                }
            }
        }
    }
}


/// The mean of the ticks that the messages of a log waited between being
/// queued and being consumed, rounded down; an empty log has none.
pub fn average_wait_of(log: &Vec<Message>) -> (average: Option<u64>)
    ensures
        average == average_wait(message_views(log@)),
{
    if log.len() == 0 {
        return None;
    }
    let ghost views = message_views(log@);
    let mut sum: u128 = 0;
    let mut i: usize = 0;
    while i < log.len()
        invariant
            i <= log@.len(),
            views == message_views(log@),
            sum == total_wait(views.take(i as int)),
        decreases log@.len() - i,
    {
        let message = &log[i];
        let wait: u64 = match message.completed_time {
            Some(completed) => if completed >= message.queued_time {
                completed - message.queued_time
            } else {
                0
            },
            None => 0,
        };
        proof {
            let next = views.take(i as int + 1);
            assert(next.drop_last() =~= views.take(i as int));
            assert(next.last() == message@);
            assert(wait == wait_of(message@));
            lemma_total_wait_bound(next);
            assert(next.len() * u64::MAX <= u64::MAX * u64::MAX) by (nonlinear_arith)
                requires
                    next.len() <= u64::MAX,
            ;
        }
        sum = sum + wait as u128;
        i += 1;
    }
    proof {
        assert(views.take(i as int) =~= views);
        lemma_total_wait_bound(views);
        assert(total_wait(views) / views.len() <= u64::MAX) by (nonlinear_arith)
            requires
                views.len() > 0,
                total_wait(views) <= views.len() * u64::MAX,
        ;
    }
    let average = sum / (log.len() as u128);
    Some(average as u64)
}

} // verus!
