use simul::agent::{cost_of_period, PeriodicConsumer, PeriodicProducer};
use simul::{
    periodic_consuming_agent, periodic_producing_agent, Agent, AgentCommand, AgentCommandType,
    AgentContext, AgentMode, AgentOptions, AgentPrototype, AgentState, Interrupt, Message,
    MessageProcessingStatus, SimulationState, Statistics, Ticket,
};
use simul::{AgentMetadata, SimulationMode};
use std::collections::VecDeque;

fn empty_state(time: u64, names: &[&str]) -> SimulationState {
    SimulationState {
        time,
        mode: SimulationMode::Running,
        enable_queue_depth_metric: true,
        enable_agent_asleep_cycles_metric: true,
        agent_names: names.iter().map(|n| n.to_string()).collect(),
        agent_states: names
            .iter()
            .map(|_| AgentState { mode: AgentMode::Reactive, wake_mode: AgentMode::Reactive, ..AgentState::default() })
            .collect(),
        agent_metadata: names
            .iter()
            .map(|_| AgentMetadata { queue_depth_metrics: vec![], asleep_cycle_count: 0 })
            .collect(),
    }
}

#[test]
fn message_new_has_no_payload_and_no_completion() {
    let message = Message::new(7, "alice".to_string(), "bob".to_string());
    assert_eq!(message.queued_time, 7);
    assert_eq!(message.completed_time, None);
    assert_eq!(message.source, "alice");
    assert_eq!(message.destination, "bob");
    assert!(message.custom_payload.is_none());
    assert!(message.interrupt.is_none());
}

#[test]
fn message_default_is_empty() {
    let message = Message::default();
    assert_eq!(message.queued_time, 0);
    assert_eq!(message.completed_time, None);
    assert_eq!(message.source, "");
    assert_eq!(message.destination, "");
    assert!(message.custom_payload.is_none());
    assert!(message.interrupt.is_none());
}

#[test]
fn message_clone_keeps_every_field() {
    let mut message = Message::new(3, "a".to_string(), "b".to_string());
    message.custom_payload = Some(vec![1, 2, 3]);
    message.interrupt = Some(Interrupt::HaltSimulation("stop".to_string()));
    message.completed_time = Some(9);
    let copy = message.clone();
    assert_eq!(copy.queued_time, 3);
    assert_eq!(copy.completed_time, Some(9));
    assert_eq!(copy.source, "a");
    assert_eq!(copy.destination, "b");
    assert_eq!(copy.custom_payload, Some(vec![1, 2, 3]));
    assert!(matches!(copy.interrupt, Some(Interrupt::HaltSimulation(reason)) if reason == "stop"));
}

#[test]
fn message_into_completed_stamps_the_tick() {
    let message = Message::new(3, "a".to_string(), "b".to_string()).into_completed(11);
    assert_eq!(message.completed_time, Some(11));
    assert_eq!(message.queued_time, 3);
    assert_eq!(message.source, "a");
}

#[test]
fn ticket_new_is_not_completed() {
    let ticket = Ticket::new(42, "counter".to_string(), "kitchen".to_string());
    assert_eq!(ticket.queued_time, 42);
    assert_eq!(ticket.completed_time, None);
    assert_eq!(ticket.source, "counter");
    assert_eq!(ticket.destination, "kitchen");
    let copy = ticket.clone();
    assert_eq!(copy.queued_time, 42);
    assert_eq!(copy.destination, "kitchen");
    let empty = Ticket::default();
    assert_eq!(empty.queued_time, 0);
    assert_eq!(empty.source, "");
}

#[test]
fn agent_defaults() {
    assert_eq!(AgentMode::default(), AgentMode::Reactive);
    let state = AgentState::default();
    assert_eq!(state.mode, AgentMode::Dead);
    assert_eq!(state.wake_mode, AgentMode::Dead);
    assert!(state.queue.is_empty());
    assert!(state.consumed.is_empty());
    assert!(state.produced.is_empty());
    let options = AgentOptions::default();
    assert_eq!(options.initial_mode, AgentMode::Reactive);
    assert_eq!(options.wake_mode, AgentMode::Reactive);
    assert!(options.initial_queue.is_empty());
    assert_eq!(options.name, "");
    let named = AgentOptions::defaults_with_name("clerk".to_string());
    assert_eq!(named.name, "clerk");
    assert_eq!(named.initial_mode, AgentMode::Reactive);
    assert_eq!(named.wake_mode, AgentMode::Reactive);
    assert!(named.initial_queue.is_empty());
}

#[test]
fn context_records_commands_in_the_order_of_issue() {
    let state = AgentState::default();
    let mut ctx = AgentContext::new(3, "me", 17, &state);
    assert_eq!(ctx.handle, 3);
    assert_eq!(ctx.name, "me");
    assert_eq!(ctx.time, 17);
    assert!(ctx.commands.is_empty());
    assert_eq!(ctx.message_processing_status, MessageProcessingStatus::Initialized);

    ctx.send("you", Some(vec![9, 8]));
    ctx.sleep_for(5);
    ctx.send_halt_interrupt("done");
    ctx.set_processing_status(MessageProcessingStatus::Failed);

    assert_eq!(ctx.commands.len(), 3);
    match &ctx.commands[0] {
        AgentCommandType::SendMessage(message) => {
            assert_eq!(message.source, "me");
            assert_eq!(message.destination, "you");
            assert_eq!(message.queued_time, 17);
            assert_eq!(message.completed_time, None);
            assert_eq!(message.custom_payload, Some(vec![9, 8]));
            assert!(message.interrupt.is_none());
        }
        _ => panic!("the first command is the message"),
    }
    assert!(matches!(ctx.commands[1], AgentCommandType::Sleep(5)));
    assert!(matches!(&ctx.commands[2], AgentCommandType::HaltSimulation(reason) if reason == "done"));
    assert_eq!(ctx.message_processing_status, MessageProcessingStatus::Failed);
    assert_eq!(ctx.time, 17);
    assert_eq!(ctx.handle, 3);
}

#[test]
fn processing_status_says_whether_to_retry() {
    assert!(!MessageProcessingStatus::Initialized.is_retry());
    assert!(!MessageProcessingStatus::Completed.is_retry());
    assert!(MessageProcessingStatus::InProgress.is_retry());
    assert!(MessageProcessingStatus::Failed.is_retry());
}

#[test]
fn periodic_agents_start_as_described() {
    let producer = periodic_producing_agent("p".to_string(), 4, "c".to_string());
    assert_eq!(producer.options.name, "p");
    assert_eq!(producer.options.initial_mode, AgentMode::Proactive);
    assert_eq!(producer.options.wake_mode, AgentMode::Proactive);
    assert!(producer.options.initial_queue.is_empty());
    assert_eq!(producer.agent.spawn().0.cost(), -4);

    let consumer = periodic_consuming_agent("c".to_string(), 6);
    assert_eq!(consumer.options.name, "c");
    assert_eq!(consumer.options.initial_mode, AgentMode::Reactive);
    assert_eq!(consumer.options.wake_mode, AgentMode::Reactive);
    assert!(consumer.options.initial_queue.is_empty());
    assert_eq!(consumer.agent.spawn().0.cost(), -6);
}

#[test]
fn period_cost_is_the_negated_period() {
    assert_eq!(cost_of_period(0), 0);
    assert_eq!(cost_of_period(1), -1);
    assert_eq!(cost_of_period(i64::MAX as u64), -i64::MAX);
    assert_eq!(cost_of_period(i64::MAX as u64 + 1), -i64::MAX);
    assert_eq!(cost_of_period(u64::MAX), -i64::MAX);
}

#[test]
fn periodic_producer_sleeps_then_sends() {
    let state = AgentState::default();
    let mut ctx = AgentContext::new(0, "p", 5, &state);
    let mut producer = PeriodicProducer { period: 3, target: "c".to_string() };
    producer.on_tick(&mut ctx);
    assert_eq!(ctx.commands.len(), 2);
    assert!(matches!(ctx.commands[0], AgentCommandType::Sleep(3)));
    match &ctx.commands[1] {
        AgentCommandType::SendMessage(message) => {
            assert_eq!(message.source, "p");
            assert_eq!(message.destination, "c");
            assert_eq!(message.queued_time, 5);
            assert!(message.custom_payload.is_none());
        }
        _ => panic!("the second command is the message"),
    }
    let message = Message::new(0, "x".to_string(), "p".to_string());
    producer.on_message(&mut ctx, &message);
    assert_eq!(ctx.commands.len(), 2);
    assert_eq!(producer.period, 3);
}

#[test]
fn periodic_consumer_sleeps_for_its_period() {
    let state = AgentState::default();
    let mut ctx = AgentContext::new(1, "c", 5, &state);
    let mut consumer = PeriodicConsumer { period: 7 };
    let message = Message::new(4, "p".to_string(), "c".to_string());
    consumer.on_message(&mut ctx, &message);
    assert_eq!(ctx.commands.len(), 1);
    assert!(matches!(ctx.commands[0], AgentCommandType::Sleep(7)));
    assert_eq!(ctx.message_processing_status, MessageProcessingStatus::Initialized);
    consumer.on_tick(&mut ctx);
    assert_eq!(ctx.commands.len(), 1);
}

#[test]
fn statistics_resolve_a_name_to_its_last_bearer() {
    let statistics = Statistics {
        names: vec!["a".to_string(), "b".to_string(), "a".to_string(), "c".to_string()],
        values: vec![Some(1), Some(2), Some(3), None],
    };
    assert_eq!(statistics.get("a"), Some(3));
    assert_eq!(statistics.get("b"), Some(2));
    assert_eq!(statistics.get("c"), None);
    assert_eq!(statistics.get("d"), None);
    let short = Statistics { names: vec!["a".to_string(), "b".to_string()], values: vec![Some(1)] };
    assert_eq!(short.get("a"), Some(1));
    assert_eq!(short.get("b"), None);
}

#[test]
fn commands_apply_in_the_order_of_the_buffer() {
    let mut state = empty_state(10, &["a", "b"]);
    let mut buffer = vec![
        AgentCommand { ty: AgentCommandType::Sleep(5), agent_handle: 0 },
        AgentCommand {
            ty: AgentCommandType::SendMessage(Message::new(10, "a".to_string(), "b".to_string())),
            agent_handle: 0,
        },
        AgentCommand { ty: AgentCommandType::Sleep(7), agent_handle: 0 },
        AgentCommand {
            ty: AgentCommandType::SendMessage(Message::new(10, "b".to_string(), "b".to_string())),
            agent_handle: 1,
        },
        AgentCommand {
            ty: AgentCommandType::SendMessage(Message::new(10, "b".to_string(), "z".to_string())),
            agent_handle: 1,
        },
        AgentCommand { ty: AgentCommandType::Sleep(1), agent_handle: 9 },
    ];
    state.process_command_buffer(&mut buffer);
    assert!(buffer.is_empty());
    assert_eq!(state.time, 10);
    assert_eq!(state.mode, SimulationMode::Running);
    assert_eq!(state.agent_states[0].mode, AgentMode::AsleepUntil(17));
    assert_eq!(state.agent_states[1].mode, AgentMode::Reactive);
    assert_eq!(state.agent_states[0].produced.len(), 1);
    assert_eq!(state.agent_states[1].produced.len(), 2);
    assert_eq!(state.agent_states[1].produced[1].destination, "z");
    let sources: Vec<&str> = state.agent_states[1].queue.iter().map(|m| m.source.as_str()).collect();
    assert_eq!(sources, vec!["a", "b"]);
    assert!(state.agent_states[0].queue.is_empty());

    state.apply_command(&AgentCommand {
        ty: AgentCommandType::HaltSimulation("stop".to_string()),
        agent_handle: 1,
    });
    assert_eq!(state.mode, SimulationMode::Completed);
    state.apply_command(&AgentCommand { ty: AgentCommandType::Sleep(u64::MAX), agent_handle: 1 });
    assert_eq!(state.agent_states[1].mode, AgentMode::AsleepUntil(u64::MAX));
    assert_eq!(state.mode, SimulationMode::Completed);
}

#[test]
fn wake_check_wakes_those_that_are_due() {
    let mut state = empty_state(10, &["early", "due", "late", "dead"]);
    state.agent_states[0].mode = AgentMode::AsleepUntil(3);
    state.agent_states[0].wake_mode = AgentMode::Proactive;
    state.agent_states[1].mode = AgentMode::AsleepUntil(10);
    state.agent_states[1].wake_mode = AgentMode::Dead;
    state.agent_states[2].mode = AgentMode::AsleepUntil(11);
    state.agent_states[2].wake_mode = AgentMode::Proactive;
    state.agent_states[3].mode = AgentMode::Dead;
    state.agent_states[3].wake_mode = AgentMode::Proactive;
    state.wakeup_agents_scheduled_to_wakeup_now();
    assert_eq!(state.agent_states[0].mode, AgentMode::Proactive);
    assert_eq!(state.agent_states[1].mode, AgentMode::Dead);
    assert_eq!(state.agent_states[2].mode, AgentMode::AsleepUntil(11));
    assert_eq!(state.agent_states[3].mode, AgentMode::Dead);
    assert_eq!(state.time, 10);
}

#[test]
fn dispatch_halves_take_and_settle_the_front_message() {
    let mut state = empty_state(10, &["a"]);
    state.agent_states[0].queue = VecDeque::from(vec![
        Message::new(1, "x".to_string(), "a".to_string()),
        Message::new(2, "y".to_string(), "a".to_string()),
    ]);
    let popped = state.begin_dispatch(0);
    assert_eq!(popped.as_ref().unwrap().source, "x");
    assert_eq!(state.agent_states[0].queue.len(), 1);
    assert_eq!(state.agent_metadata[0].queue_depth_metrics, vec![1]);
    assert_eq!(state.agent_metadata[0].asleep_cycle_count, 0);
    state.finish_dispatch(0, popped, MessageProcessingStatus::InProgress);
    assert_eq!(state.agent_states[0].queue.len(), 2);
    assert_eq!(state.agent_states[0].queue[0].source, "x");
    assert!(state.agent_states[0].consumed.is_empty());

    let popped = state.begin_dispatch(0);
    state.finish_dispatch(0, popped, MessageProcessingStatus::Completed);
    assert_eq!(state.agent_states[0].queue.len(), 1);
    assert_eq!(state.agent_states[0].queue[0].source, "y");
    assert_eq!(state.agent_states[0].consumed.len(), 1);
    assert_eq!(state.agent_states[0].consumed[0].source, "x");
    assert_eq!(state.agent_states[0].consumed[0].completed_time, Some(10));
    assert_eq!(state.agent_metadata[0].queue_depth_metrics, vec![1, 1]);

    state.agent_states[0].mode = AgentMode::AsleepUntil(20);
    let popped = state.begin_dispatch(0);
    assert_eq!(state.agent_metadata[0].asleep_cycle_count, 1);
    assert_eq!(state.agent_metadata[0].queue_depth_metrics, vec![1, 1, 0]);
    state.finish_dispatch(0, popped, MessageProcessingStatus::Completed);
    assert_eq!(state.agent_states[0].queue.len(), 1);
    assert_eq!(state.agent_states[0].consumed.len(), 1);

    state.agent_states[0].queue.clear();
    let popped = state.begin_dispatch(0);
    assert!(popped.is_none());
    state.finish_dispatch(0, popped, MessageProcessingStatus::Completed);
    assert!(state.agent_states[0].queue.is_empty());
}

#[test]
fn average_wait_rounds_down() {
    let mut state = empty_state(0, &["a", "b"]);
    state.agent_states[0].consumed = vec![
        Message::new(0, "x".to_string(), "a".to_string()).into_completed(4),
        Message::new(1, "x".to_string(), "a".to_string()).into_completed(4),
        Message::new(9, "x".to_string(), "a".to_string()).into_completed(4),
        Message::new(2, "x".to_string(), "a".to_string()),
    ];
    let statistics = state.calc_avg_wait_statistics();
    assert_eq!(statistics.get("a"), Some(1));
    assert_eq!(statistics.get("b"), None);
    state.agent_states[1].consumed =
        vec![Message::new(0, "x".to_string(), "b".to_string()).into_completed(u64::MAX)];
    assert_eq!(state.calc_avg_wait_statistics().get("b"), Some(u64::MAX));
}

#[test]
fn state_clone_keeps_everything() {
    let mut state = empty_state(12, &["a", "b"]);
    state.agent_states[1].queue.push_back(Message::new(3, "a".to_string(), "b".to_string()));
    state.agent_states[0].produced.push(Message::new(3, "a".to_string(), "b".to_string()));
    state.agent_metadata[1].queue_depth_metrics = vec![4, 5];
    state.agent_metadata[1].asleep_cycle_count = 7;
    let copy = state.clone();
    assert_eq!(copy.time, 12);
    assert_eq!(copy.mode, SimulationMode::Running);
    assert!(copy.enable_queue_depth_metric);
    assert!(copy.enable_agent_asleep_cycles_metric);
    assert_eq!(copy.agent_names, vec!["a".to_string(), "b".to_string()]);
    assert_eq!(copy.agent_states.len(), 2);
    assert_eq!(copy.agent_states[1].queue.len(), 1);
    assert_eq!(copy.agent_states[1].queue[0].queued_time, 3);
    assert_eq!(copy.agent_states[0].produced[0].destination, "b");
    assert_eq!(copy.agent_states[0].mode, AgentMode::Reactive);
    assert_eq!(copy.agent_metadata[1].queue_depth_metrics, vec![4, 5]);
    assert_eq!(copy.agent_metadata[1].asleep_cycle_count, 7);
    assert_eq!(copy.agent_metadata[0].asleep_cycle_count, 0);
}

/// An agent that implements nothing but what it must.
struct Plain;

impl Agent for Plain {
    fn on_message(&mut self, _ctx: &mut AgentContext, _msg: &Message) {}
}

#[test]
fn agent_without_a_cost_function_costs_nothing() {
    let mut plain = Plain;
    assert_eq!(plain.cost(), 0);
    let state = AgentState::default();
    let mut ctx = AgentContext::new(0, "plain", 1, &state);
    plain.on_tick(&mut ctx);
    assert!(ctx.commands.is_empty());
    assert_eq!(ctx.message_processing_status, MessageProcessingStatus::Initialized);
    assert_eq!(plain.cost(), 0);
}

#[test]
fn spawned_periodic_agents_are_copies_of_their_prototypes() {
    let state = AgentState::default();

    let producer = PeriodicProducer { period: 6, target: "sink".to_string() };
    let mut spawned = producer.spawn();
    assert_eq!(spawned.0.cost(), -6);
    let mut ctx = AgentContext::new(2, "source", 9, &state);
    spawned.0.on_tick(&mut ctx);
    assert_eq!(ctx.commands.len(), 2);
    assert!(matches!(ctx.commands[0], AgentCommandType::Sleep(6)));
    match &ctx.commands[1] {
        AgentCommandType::SendMessage(message) => {
            assert_eq!(message.source, "source");
            assert_eq!(message.destination, "sink");
            assert_eq!(message.queued_time, 9);
        }
        _ => panic!("the second command is the message"),
    }
    assert_eq!(producer.period, 6);
    assert_eq!(producer.target, "sink");
    let copy = producer.clone();
    assert_eq!(copy.period, 6);
    assert_eq!(copy.target, "sink");

    let consumer = PeriodicConsumer { period: 8 };
    let mut spawned = consumer.spawn();
    assert_eq!(spawned.0.cost(), -8);
    let mut ctx = AgentContext::new(3, "drain", 9, &state);
    let message = Message::new(1, "source".to_string(), "drain".to_string());
    spawned.0.on_message(&mut ctx, &message);
    assert_eq!(ctx.commands.len(), 1);
    assert!(matches!(ctx.commands[0], AgentCommandType::Sleep(8)));
    assert_eq!(consumer.period, 8);
}
