//! Agents, their scheduling modes, and the context through which they ask
//! the simulation for side effects.
use crate::experiment::ObjectiveScore;
use crate::message::{message_views, payload_view, Message, MessageView};
use crate::DiscreteTime;
use std::collections::VecDeque;
use vstd::prelude::*;

verus! {

/// Possible states an Agent can be in.
#[derive(Debug, Clone, Copy, PartialEq, Eq, Structural, PartialOrd, Ord, Hash)]
pub enum AgentMode {
    /// The Agent is active; `on_tick` is called on every tick of the simulation.
    Proactive,
    /// The Agent is reactive; `on_message` is called when this agent has a message.
    Reactive,
    /// The Agent is sleeping (or on cooldown) until a scheduled wakeup.
    AsleepUntil(DiscreteTime),
    /// The Agent is dead (inactive) and does nothing in this state.
    Dead,
}

impl Default for AgentMode {
    fn default() -> (mode: Self)
        ensures
            mode == AgentMode::Reactive,
    {
        AgentMode::Reactive
    }
}

/// State that the simulation keeps for one agent.
#[derive(Debug)]
pub struct AgentState {
    /// The mode that the agent is in.
    pub mode: AgentMode,
    /// The mode that the agent wakes up into.
    pub wake_mode: AgentMode,
    /// The queue of incoming Messages for the Agent.
    pub queue: VecDeque<Message>,
    /// The messages already consumed by the agent, oldest first.
    pub consumed: Vec<Message>,
    /// The messages produced by the agent, oldest first.
    pub produced: Vec<Message>,
}

/// The mathematical value of an [`AgentState`].
pub struct AgentStateView {
    pub mode: AgentMode,
    pub wake_mode: AgentMode,
    pub queue: Seq<MessageView>,
    pub consumed: Seq<MessageView>,
    pub produced: Seq<MessageView>,
}

impl View for AgentState {
    type V = AgentStateView;

    open spec fn view(&self) -> AgentStateView {
        AgentStateView {
            mode: self.mode,
            wake_mode: self.wake_mode,
            queue: message_views(self.queue@),
            consumed: message_views(self.consumed@),
            produced: message_views(self.produced@),
        }
    }
}

impl Default for AgentState {
    fn default() -> (state: Self)
        ensures
            state@ == (AgentStateView {
                mode: AgentMode::Dead,
                wake_mode: AgentMode::Dead,
                queue: Seq::<MessageView>::empty(),
                consumed: Seq::<MessageView>::empty(),
                produced: Seq::<MessageView>::empty(),
            }),
    {
        let state = AgentState {
            mode: AgentMode::Dead,
            wake_mode: AgentMode::Dead,
            queue: VecDeque::new(),
            consumed: Vec::new(),
            produced: Vec::new(),
        };
        assert(state@.queue =~= Seq::<MessageView>::empty());
        assert(state@.consumed =~= Seq::<MessageView>::empty());
        assert(state@.produced =~= Seq::<MessageView>::empty());
        state
    }
}

/// A copy of a queue of messages, message by message.
pub fn clone_queue(queue: &VecDeque<Message>) -> (copy: VecDeque<Message>)
    ensures
        message_views(copy@) == message_views(queue@),
{
    let mut copy: VecDeque<Message> = VecDeque::new();
    let mut i: usize = 0;
    while i < queue.len()
        invariant
            i <= queue@.len(),
            copy@.len() == i,
            forall|j: int| 0 <= j < i ==> (#[trigger] copy@[j])@ == queue@[j]@,
        decreases queue@.len() - i,
    {
        copy.push_back(queue[i].clone());
        i += 1;
    }
    assert(message_views(copy@) =~= message_views(queue@));
    copy
}

/// A copy of a log of messages, message by message.
pub fn clone_log(log: &Vec<Message>) -> (copy: Vec<Message>)
    ensures
        message_views(copy@) == message_views(log@),
{
    let mut copy: Vec<Message> = Vec::new();
    let mut i: usize = 0;
    while i < log.len()
        invariant
            i <= log@.len(),
            copy@.len() == i,
            forall|j: int| 0 <= j < i ==> (#[trigger] copy@[j])@ == log@[j]@,
        decreases log@.len() - i,
    {
        copy.push(log[i].clone());
        i += 1;
    }
    assert(message_views(copy@) =~= message_views(log@));
    copy
}

impl Clone for AgentState {
    fn clone(&self) -> (copy: Self)
        ensures
            copy@ == self@,
    {
        AgentState {
            mode: self.mode,
            wake_mode: self.wake_mode,
            queue: clone_queue(&self.queue),
            consumed: clone_log(&self.consumed),
            produced: clone_log(&self.produced),
        }
    }
}

/// Actions the Agent can perform.
#[derive(Debug)]
pub enum AgentCommandType {
    /// Send a message to another agent
    SendMessage(Message),
    /// Sleep for a relative number of ticks
    Sleep(DiscreteTime),
    /// Stop the simulation
    HaltSimulation(String),
}

/// The mathematical value of an [`AgentCommandType`].
pub enum CommandView {
    SendMessage(MessageView),
    Sleep(DiscreteTime),
    HaltSimulation(Seq<char>),
}

impl View for AgentCommandType {
    type V = CommandView;

    open spec fn view(&self) -> CommandView {
        match self {
            AgentCommandType::SendMessage(message) => CommandView::SendMessage(message@),
            AgentCommandType::Sleep(ticks) => CommandView::Sleep(*ticks),
            AgentCommandType::HaltSimulation(reason) => CommandView::HaltSimulation(reason@),
        }
    }
}

/// The values of a sequence of commands, in the same order.
pub open spec fn command_views(commands: Seq<AgentCommandType>) -> Seq<CommandView> {
    commands.map_values(|c: AgentCommandType| c@)
}

/// A command together with the handle of the agent that issued it.
#[derive(Debug)]
pub struct AgentCommand {
    pub ty: AgentCommandType,
    pub agent_handle: usize,
}

/// The mathematical value of an [`AgentCommand`].
pub struct AgentCommandView {
    pub ty: CommandView,
    pub agent_handle: int,
}

impl View for AgentCommand {
    type V = AgentCommandView;

    open spec fn view(&self) -> AgentCommandView {
        AgentCommandView { ty: self.ty@, agent_handle: self.agent_handle as int }
    }
}

/// The values of a buffer of commands, in the same order.
pub open spec fn buffer_views(commands: Seq<AgentCommand>) -> Seq<AgentCommandView> {
    commands.map_values(|c: AgentCommand| c@)
}

/// What an agent reports of the message it was handed.
#[derive(Debug, Clone, Copy, PartialEq, Eq, Structural)]
pub enum MessageProcessingStatus {
    Initialized,
    Completed,
    InProgress,
    Failed,
}

impl MessageProcessingStatus {
    /// Whether the message stays with the agent to be handed to it again:
    /// true for `InProgress` and `Failed`.
    pub open spec fn retries(self) -> bool {
        self == MessageProcessingStatus::InProgress || self == MessageProcessingStatus::Failed
    }

    /// Whether the message stays with the agent to be handed to it again.
    pub fn is_retry(&self) -> (retry: bool)
        ensures
            retry == self.retries(),
    {
        match self {
            MessageProcessingStatus::InProgress => true,
            MessageProcessingStatus::Failed => true,
            MessageProcessingStatus::Initialized => false,
            MessageProcessingStatus::Completed => false,
        }
    }
}

/// The Context holds the capability for Agents to act on the world.
pub struct AgentContext<'a> {
    /// The handle id of the Agent.
    pub handle: usize,
    /// The name of the Agent.
    pub name: &'a str,
    /// The current simulation time.
    pub time: DiscreteTime,
    /// The commands issued so far during this dispatch, oldest first.
    pub commands: Vec<AgentCommandType>,
    /// The agent's own state, as it is when the agent is called.
    pub state: &'a AgentState,
    /// What the agent reports of the message it was handed.
    pub message_processing_status: MessageProcessingStatus,
}

impl<'a> AgentContext<'a> {
    /// The context that the simulation hands to the agent with this handle
    /// and name at tick `time`: no command issued yet, and the processing
    /// status `Initialized`.
    pub fn new(handle: usize, name: &'a str, time: DiscreteTime, state: &'a AgentState) -> (ctx:
        Self)
        ensures
            ctx.handle == handle,
            ctx.name@ == name@,
            ctx.time == time,
            ctx.commands@ == Seq::<AgentCommandType>::empty(),
            ctx.state == state,
            ctx.message_processing_status == MessageProcessingStatus::Initialized,
    {
        AgentContext {
            handle,
            name,
            time,
            commands: Vec::new(),
            state,
            message_processing_status: MessageProcessingStatus::Initialized,
        }
    }

    /// Whether everything but the issued commands is the same in `self` and `other`.
    pub open spec fn same_but_commands(&self, other: &Self) -> bool {
        &&& self.handle == other.handle
        &&& self.name@ == other.name@
        &&& self.time == other.time
        &&& self.state == other.state
        &&& self.message_processing_status == other.message_processing_status
    }

    /// Asks for a message to `target`, queued now in this agent's name.
    pub fn send(&mut self, target: &str, payload: Option<Vec<u8>>)
        ensures
            final(self).same_but_commands(old(self)),
            command_views(final(self).commands@) == command_views(old(self).commands@).push(
                CommandView::SendMessage(
                    MessageView::sent(
                        old(self).time,
                        old(self).name@,
                        target@,
                        payload_view(payload),
                    ),
                ),
            ),
    {
        let message = Message {
            queued_time: self.time,
            completed_time: None,
            source: self.name.to_string(),
            destination: target.to_string(),
            custom_payload: payload,
            interrupt: None,
        };
        let ghost sent = CommandView::SendMessage(message@);
        self.commands.push(AgentCommandType::SendMessage(message));
        assert(command_views(self.commands@) =~= command_views(old(self).commands@).push(sent));
    }

    /// Sends an interrupt to HALT the simulation.
    pub fn send_halt_interrupt(&mut self, reason: &str)
        ensures
            final(self).same_but_commands(old(self)),
            command_views(final(self).commands@) == command_views(old(self).commands@).push(
                CommandView::HaltSimulation(reason@),
            ),
    {
        self.commands.push(AgentCommandType::HaltSimulation(reason.to_string()));
        assert(command_views(self.commands@) =~= command_views(old(self).commands@).push(
            CommandView::HaltSimulation(reason@),
        ));
    }

    /// Sleeps the Agent for a relative amount of time.
    pub fn sleep_for(&mut self, ticks: DiscreteTime)
        ensures
            final(self).same_but_commands(old(self)),
            command_views(final(self).commands@) == command_views(old(self).commands@).push(
                CommandView::Sleep(ticks),
            ),
    {
        self.commands.push(AgentCommandType::Sleep(ticks));
        assert(command_views(self.commands@) =~= command_views(old(self).commands@).push(
            CommandView::Sleep(ticks),
        ));
    }

    /// Reports what became of the message that the agent was handed.
    pub fn set_processing_status(&mut self, status: MessageProcessingStatus)
        ensures
            final(self).handle == old(self).handle,
            final(self).name@ == old(self).name@,
            final(self).time == old(self).time,
            final(self).state == old(self).state,
            final(self).commands@ == old(self).commands@,
            final(self).message_processing_status == status,
    {
        self.message_processing_status = status;
    }
}

/// Configuration for how an agent should start the simulation.
#[derive(Debug)]
pub struct AgentOptions {
    pub initial_mode: AgentMode,
    pub wake_mode: AgentMode,
    pub initial_queue: VecDeque<Message>,
    pub name: String,
}

/// The mathematical value of an [`AgentOptions`].
pub struct AgentOptionsView {
    pub initial_mode: AgentMode,
    pub wake_mode: AgentMode,
    pub initial_queue: Seq<MessageView>,
    pub name: Seq<char>,
}

impl AgentOptionsView {
    /// The options of a reactive agent with this name and nothing queued.
    pub open spec fn defaults_with_name(name: Seq<char>) -> AgentOptionsView {
        AgentOptionsView {
            initial_mode: AgentMode::Reactive,
            wake_mode: AgentMode::Reactive,
            initial_queue: Seq::<MessageView>::empty(),
            name,
        }
    }

    /// The state in which an agent with these options starts a simulation.
    pub open spec fn starting_state(self) -> AgentStateView {
        AgentStateView {
            mode: self.initial_mode,
            wake_mode: self.wake_mode,
            queue: self.initial_queue,
            consumed: Seq::<MessageView>::empty(),
            produced: Seq::<MessageView>::empty(),
        }
    }
}

impl View for AgentOptions {
    type V = AgentOptionsView;

    open spec fn view(&self) -> AgentOptionsView {
        AgentOptionsView {
            initial_mode: self.initial_mode,
            wake_mode: self.wake_mode,
            initial_queue: message_views(self.initial_queue@),
            name: self.name@,
        }
    }
}

impl Default for AgentOptions {
    fn default() -> (options: Self)
        ensures
            options@ == AgentOptionsView::defaults_with_name(Seq::<char>::empty()),
    {
        AgentOptions::defaults_with_name(String::new())
    }
}

impl Clone for AgentOptions {
    fn clone(&self) -> (copy: Self)
        ensures
            copy@ == self@,
    {
        AgentOptions {
            initial_mode: self.initial_mode,
            wake_mode: self.wake_mode,
            initial_queue: clone_queue(&self.initial_queue),
            name: self.name.clone(),
        }
    }
}

impl AgentOptions {
    /// The options of a reactive agent with this name and nothing queued.
    pub fn defaults_with_name(name: String) -> (options: Self)
        ensures
            options@ == AgentOptionsView::defaults_with_name(name@),
    {
        let options = AgentOptions {
            initial_mode: AgentMode::Reactive,
            wake_mode: AgentMode::Reactive,
            initial_queue: VecDeque::new(),
            name,
        };
        assert(options@.initial_queue =~= Seq::<MessageView>::empty());
        options
    }
}

/// The bread and butter of the Simulation -- the Agent.
/// In a Complex Adaptive System (CAS), an Adaptive Agent does things and
/// interacts with the Simulation, itself, and other Agents.
///
/// An agent acts on the world only through the context that it is handed:
/// the simulation reads the issued commands and the processing status from
/// the context when the call returns, whatever they are.
pub trait Agent {
    /// The main action an agent performs, processing messages that come in to it.
    fn on_message(&mut self, ctx: &mut AgentContext, msg: &Message);

    /// Some Agents do things all the time, they are `Proactive`.
    fn on_tick(&mut self, ctx: &mut AgentContext) {
    }

    /// Whether the agent says of itself that it costs nothing. An agent
    /// that leaves `cost` as it is here may say so; no agent says so unless
    /// it states it.
    open spec fn is_free(&self) -> bool {
        false
    }

    /// For annealing experiments, you may implement a cost function for the agent.
    /// For example, a periodic consuming agent has cost equal to its period.
    /// An agent that implements none costs nothing.
    fn cost(&self) -> (cost: ObjectiveScore)
        ensures
            self.is_free() ==> cost == 0,
    {
        0
    }
}

/// An agent of any type, owned behind a box.
pub struct BoxedAgent(pub Box<dyn Agent>);

/// The agent, owned behind a box of its own.
pub open spec fn boxed<A: Agent + 'static>(agent: A) -> BoxedAgent {
    BoxedAgent(Box::new(agent))
}

/// What a set of simulation parameters holds of each agent: the means to
/// make the agent anew for every simulation that is built from them.
pub trait AgentPrototype {
    /// A new agent in its starting condition.
    fn spawn(&self) -> BoxedAgent;
}

/// An initializer for an agent. The `agent` makes the behavior with its
/// `on_` functions; the options are configuration for constructing the agent.
pub struct AgentInitializer {
    pub agent: Box<dyn AgentPrototype>,
    pub options: AgentOptions,
}

/// A simple agent that produces messages on a period, directed to target.
#[derive(Debug)]
pub struct PeriodicProducer {
    pub period: DiscreteTime,
    pub target: String,
}

/// The cost of acting once every `period` ticks: the period, negated, and
/// no lower than the lowest score but one.
pub open spec fn period_cost(period: DiscreteTime) -> ObjectiveScore {
    if period <= i64::MAX {
        (-(period as int)) as i64
    } else {
        (-(i64::MAX as int)) as i64
    }
}

/// The cost of acting once every `period` ticks.
pub fn cost_of_period(period: DiscreteTime) -> (cost: ObjectiveScore)
    ensures
        cost == period_cost(period),
{
    if period <= 9223372036854775807u64 {
        let bounded: i64 = period as i64;
        -bounded
    } else {
        -9223372036854775807i64
    }
}

impl Clone for PeriodicProducer {
    fn clone(&self) -> (copy: Self)
        ensures
            copy == *self,
    {
        PeriodicProducer { period: self.period, target: self.target.clone() }
    }
}

impl Agent for PeriodicProducer {
    fn cost(&self) -> (cost: ObjectiveScore)
        ensures
            cost == period_cost(self.period),
    {
        cost_of_period(self.period)
    }

    /// A producer takes no notice of what it is sent.
    fn on_message(&mut self, ctx: &mut AgentContext, msg: &Message)
        ensures
            *final(ctx) == *old(ctx),
            *final(self) == *old(self),
    {
    }

    /// Asks to sleep for one period, then for a message to the target.
    fn on_tick(&mut self, ctx: &mut AgentContext)
        ensures
            *final(self) == *old(self),
            final(ctx).same_but_commands(old(ctx)),
            command_views(final(ctx).commands@) == command_views(old(ctx).commands@).push(
                CommandView::Sleep(old(self).period),
            ).push(
                CommandView::SendMessage(
                    MessageView::sent(old(ctx).time, old(ctx).name@, old(self).target@, None),
                ),
            ),
    {
        ctx.sleep_for(self.period);
        ctx.send(self.target.as_str(), None);
    }
}

impl AgentPrototype for PeriodicProducer {
    /// A producer with the same period and target, behind a box of its own.
    fn spawn(&self) -> (agent: BoxedAgent)
        ensures
            agent == boxed(*self),
    {
        BoxedAgent(Box::new(self.clone()))
    }
}

/// A simple agent that consumes messages on a period with no side effects.
/// Period can be thought of the time to consume 1 message.
#[derive(Debug, Clone, Copy)]
pub struct PeriodicConsumer {
    pub period: DiscreteTime,
}

impl Agent for PeriodicConsumer {
    fn cost(&self) -> (cost: ObjectiveScore)
        ensures
            cost == period_cost(self.period),
    {
        cost_of_period(self.period)
    }

    /// Consumes the message and asks to sleep for one period.
    fn on_message(&mut self, ctx: &mut AgentContext, msg: &Message)
        ensures
            *final(self) == *old(self),
            final(ctx).same_but_commands(old(ctx)),
            command_views(final(ctx).commands@) == command_views(old(ctx).commands@).push(
                CommandView::Sleep(old(self).period),
            ),
    {
        ctx.sleep_for(self.period);
    }
}

impl AgentPrototype for PeriodicConsumer {
    /// A consumer with the same period, behind a box of its own.
    fn spawn(&self) -> (agent: BoxedAgent)
        ensures
            agent == boxed(*self),
    {
        BoxedAgent(Box::new(PeriodicConsumer { period: self.period }))
    }
}

/// A simple agent that produces messages on a period, directed to target:
/// proactive from the start and whenever it wakes.
pub fn periodic_producing_agent(name: String, period: DiscreteTime, target: String) -> (initializer:
    AgentInitializer)
    ensures
        initializer.options@ == (AgentOptionsView {
            initial_mode: AgentMode::Proactive,
            wake_mode: AgentMode::Proactive,
            initial_queue: Seq::<MessageView>::empty(),
            name: name@,
        }),
{
    let options = AgentOptions {
        initial_mode: AgentMode::Proactive,
        wake_mode: AgentMode::Proactive,
        initial_queue: VecDeque::new(),
        name,
    };
    assert(options@.initial_queue =~= Seq::<MessageView>::empty());
    AgentInitializer { agent: Box::new(PeriodicProducer { period, target }), options }
}

/// A simple agent that consumes messages on a period with no side effects:
/// reactive from the start and whenever it wakes.
pub fn periodic_consuming_agent(name: String, period: DiscreteTime) -> (initializer:
    AgentInitializer)
    ensures
        initializer.options@ == AgentOptionsView::defaults_with_name(name@),
{
    AgentInitializer {
        agent: Box::new(PeriodicConsumer { period }),
        options: AgentOptions::defaults_with_name(name),
    }
}

} // verus!
