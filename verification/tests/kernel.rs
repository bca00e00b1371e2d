use rand_distr::{Distribution, Poisson};
use simul::{
    periodic_consuming_agent, periodic_producing_agent, Agent, AgentContext, AgentInitializer,
    AgentMode, AgentOptions, AgentPrototype, BoxedAgent, Message, MessageProcessingStatus,
    Simulation, SimulationMode, SimulationParameters, SimulationState,
};
use std::collections::VecDeque;

/// A clerk who needs a hundred ticks for each customer.
#[derive(Clone, Debug)]
struct Clerk {
    #[allow(dead_code)]
    id: String,
}

impl Agent for Clerk {
    fn on_message(&mut self, ctx: &mut AgentContext, msg: &Message) {
        if let Some(last) = ctx.state.consumed.last() {
            let _still_serving = last.completed_time.unwrap() + 60 > ctx.time;
        }
        if ctx.state.queue.front().is_some() && msg.queued_time + 100 > ctx.time {
            ctx.set_processing_status(MessageProcessingStatus::InProgress);
        }
    }
}

impl AgentPrototype for Clerk {
    fn spawn(&self) -> BoxedAgent {
        BoxedAgent(Box::new(self.clone()))
    }
}

/// Sends to its target whenever it is handed a message, then cools down
/// for a number of ticks drawn from a Poisson distribution.
#[derive(Clone, Debug)]
struct PoissonProducer {
    period: Poisson<f64>,
    target: String,
}

impl Agent for PoissonProducer {
    fn on_message(&mut self, ctx: &mut AgentContext, _msg: &Message) {
        let cooldown_period = self.period.sample(&mut rand::rng()) as u64;
        ctx.sleep_for(cooldown_period);
        ctx.send(&self.target, None);
    }
}

impl AgentPrototype for PoissonProducer {
    fn spawn(&self) -> BoxedAgent {
        BoxedAgent(Box::new(self.clone()))
    }
}

/// Sends one message to its target on every tick on which it is called.
#[derive(Clone, Debug)]
struct Ticker {
    target: String,
}

impl Agent for Ticker {
    fn on_message(&mut self, _ctx: &mut AgentContext, _msg: &Message) {}

    fn on_tick(&mut self, ctx: &mut AgentContext) {
        ctx.send(&self.target, None);
    }
}

impl AgentPrototype for Ticker {
    fn spawn(&self) -> BoxedAgent {
        BoxedAgent(Box::new(self.clone()))
    }
}

/// Reports the first `failures` messages that it is handed as failed.
#[derive(Clone, Debug)]
struct Flaky {
    failures: u32,
}

impl Agent for Flaky {
    fn on_message(&mut self, ctx: &mut AgentContext, _msg: &Message) {
        if self.failures > 0 {
            self.failures -= 1;
            ctx.set_processing_status(MessageProcessingStatus::Failed);
        } else {
            ctx.set_processing_status(MessageProcessingStatus::Completed);
        }
    }
}

impl AgentPrototype for Flaky {
    fn spawn(&self) -> BoxedAgent {
        BoxedAgent(Box::new(self.clone()))
    }
}

/// Asks to halt the simulation at a given tick, and sends a message to
/// itself on every tick.
#[derive(Clone, Debug)]
struct Halter {
    at: u64,
}

impl Agent for Halter {
    fn on_message(&mut self, _ctx: &mut AgentContext, _msg: &Message) {}

    fn on_tick(&mut self, ctx: &mut AgentContext) {
        if ctx.time == self.at {
            ctx.send_halt_interrupt("enough");
        }
        ctx.send("halter", None);
    }
}

impl AgentPrototype for Halter {
    fn spawn(&self) -> BoxedAgent {
        BoxedAgent(Box::new(self.clone()))
    }
}

/// Asks to sleep for a given number of ticks whenever it is called.
#[derive(Clone, Debug)]
struct Sleeper {
    ticks: u64,
}

impl Agent for Sleeper {
    fn on_message(&mut self, _ctx: &mut AgentContext, _msg: &Message) {}

    fn on_tick(&mut self, ctx: &mut AgentContext) {
        ctx.sleep_for(self.ticks);
    }
}

impl AgentPrototype for Sleeper {
    fn spawn(&self) -> BoxedAgent {
        BoxedAgent(Box::new(self.clone()))
    }
}

fn halt_at(limit: u64) -> impl Fn(&SimulationState) -> bool + Copy {
    move |s: &SimulationState| s.time == limit
}

fn never(_: &SimulationState) -> bool {
    false
}

fn numbered(time: u64, payload: u8, destination: &str) -> Message {
    let mut message = Message::new(time, "test".to_string(), destination.to_string());
    message.custom_payload = Some(vec![payload]);
    message
}

fn options(name: &str, mode: AgentMode, wake_mode: AgentMode, queue: Vec<Message>) -> AgentOptions {
    AgentOptions {
        initial_mode: mode,
        wake_mode,
        initial_queue: VecDeque::from(queue),
        name: name.to_string(),
    }
}

fn payloads(messages: &[Message]) -> Vec<u8> {
    messages.iter().map(|m| m.custom_payload.as_ref().unwrap()[0]).collect()
}

#[test]
fn basic_periodic_test() {
    let mut simulation = Simulation::new(SimulationParameters {
        agent_initializers: vec![
            periodic_producing_agent("producer".to_string(), 1, "consumer".to_string()),
            periodic_consuming_agent("consumer".to_string(), 1),
        ],
        halt_check: |s: &SimulationState| s.time == 5,
        starting_time: 0,
        enable_queue_depth_metrics: false,
        enable_agent_asleep_cycles_metric: false,
    });
    simulation.run();
    let produced_stats = simulation.calc_produced_len_statistics();
    assert_eq!(produced_stats.get("producer"), Some(5));
    assert_eq!(produced_stats.get("consumer"), Some(0));

    let consumed_stats = simulation.calc_consumed_len_statistics();
    assert_eq!(consumed_stats.get("producer"), Some(0));
    assert_eq!(consumed_stats.get("consumer"), Some(4));
}

#[test]
fn starbucks_clerk() {
    let mut simulation = Simulation::new(SimulationParameters {
        starting_time: 1,
        enable_queue_depth_metrics: false,
        enable_agent_asleep_cycles_metric: false,
        halt_check: |s: &SimulationState| s.time > 500,
        agent_initializers: vec![
            AgentInitializer {
                agent: Box::new(PoissonProducer {
                    period: Poisson::new(80.0).unwrap(),
                    target: "Starbucks Clerk".to_string(),
                }),
                options: AgentOptions::defaults_with_name("Starbucks Customers".to_string()),
            },
            AgentInitializer {
                agent: Box::new(Clerk { id: "Starbucks Clerk".to_string() }),
                options: AgentOptions::default(),
            },
        ],
    });

    simulation.run();
    assert!(Some(simulation).is_some());
}

#[test]
fn run_ends_completed_at_the_halting_time() {
    let mut simulation = Simulation::new(SimulationParameters {
        agent_initializers: vec![],
        halt_check: halt_at(9),
        starting_time: 4,
        enable_queue_depth_metrics: false,
        enable_agent_asleep_cycles_metric: false,
    });
    assert_eq!(simulation.state.mode, SimulationMode::Constructed);
    assert_eq!(simulation.state.time, 4);
    simulation.run();
    assert_eq!(simulation.state.mode, SimulationMode::Completed);
    assert_eq!(simulation.state.time, 9);
}

#[test]
fn run_that_halts_at_once_does_not_tick() {
    let mut simulation = Simulation::new(SimulationParameters {
        agent_initializers: vec![periodic_producing_agent(
            "producer".to_string(),
            1,
            "nobody".to_string(),
        )],
        halt_check: |_: &SimulationState| true,
        starting_time: 0,
        enable_queue_depth_metrics: true,
        enable_agent_asleep_cycles_metric: true,
    });
    simulation.run();
    assert_eq!(simulation.state.time, 0);
    assert_eq!(simulation.state.mode, SimulationMode::Completed);
    assert_eq!(simulation.calc_produced_len_statistics().get("producer"), Some(0));
    assert_eq!(simulation.queue_depth_metrics("producer"), Some(vec![]));
}

#[test]
fn run_fails_when_the_clock_has_no_tick_left() {
    let mut simulation = Simulation::new(SimulationParameters {
        agent_initializers: vec![periodic_producing_agent(
            "producer".to_string(),
            1,
            "nobody".to_string(),
        )],
        halt_check: never,
        starting_time: u64::MAX - 2,
        enable_queue_depth_metrics: false,
        enable_agent_asleep_cycles_metric: false,
    });
    simulation.run();
    assert_eq!(simulation.state.time, u64::MAX);
    assert_eq!(simulation.state.mode, SimulationMode::Failed);
    assert_eq!(simulation.calc_produced_len_statistics().get("producer"), Some(2));
}

#[test]
fn messages_are_consumed_in_the_order_of_their_arrival() {
    let mut simulation = Simulation::new(SimulationParameters {
        agent_initializers: vec![AgentInitializer {
            agent: Box::new(Flaky { failures: 0 }),
            options: options(
                "worker",
                AgentMode::Reactive,
                AgentMode::Reactive,
                vec![numbered(0, 1, "worker"), numbered(0, 2, "worker"), numbered(0, 3, "worker")],
            ),
        }],
        halt_check: halt_at(10),
        starting_time: 0,
        enable_queue_depth_metrics: true,
        enable_agent_asleep_cycles_metric: false,
    });
    simulation.run();
    let consumed = simulation.consumed_for_agent("worker").unwrap();
    assert_eq!(payloads(&consumed), vec![1, 2, 3]);
    let stamps: Vec<Option<u64>> = consumed.iter().map(|m| m.completed_time).collect();
    assert_eq!(stamps, vec![Some(0), Some(1), Some(2)]);
    assert_eq!(simulation.calc_queue_len_statistics().get("worker"), Some(0));
    assert_eq!(
        simulation.queue_depth_metrics("worker"),
        Some(vec![2, 1, 0, 0, 0, 0, 0, 0, 0, 0])
    );
    assert_eq!(simulation.calc_avg_wait_statistics().get("worker"), Some(1));
}

#[test]
fn failed_message_is_retried_before_later_ones() {
    let mut simulation = Simulation::new(SimulationParameters {
        agent_initializers: vec![AgentInitializer {
            agent: Box::new(Flaky { failures: 2 }),
            options: options(
                "worker",
                AgentMode::Reactive,
                AgentMode::Reactive,
                vec![numbered(0, 1, "worker"), numbered(0, 2, "worker")],
            ),
        }],
        halt_check: halt_at(2),
        starting_time: 0,
        enable_queue_depth_metrics: false,
        enable_agent_asleep_cycles_metric: false,
    });
    simulation.run();
    assert_eq!(simulation.consumed_for_agent("worker").unwrap().len(), 0);
    let state = simulation.agent_state("worker").unwrap();
    let queued: Vec<u8> = state.queue.iter().map(|m| m.custom_payload.as_ref().unwrap()[0]).collect();
    assert_eq!(queued, vec![1, 2]);
    assert_eq!(state.queue[0].completed_time, None);

    let mut simulation = Simulation::new(SimulationParameters {
        agent_initializers: vec![AgentInitializer {
            agent: Box::new(Flaky { failures: 2 }),
            options: options(
                "worker",
                AgentMode::Reactive,
                AgentMode::Reactive,
                vec![numbered(0, 1, "worker"), numbered(0, 2, "worker")],
            ),
        }],
        halt_check: halt_at(4),
        starting_time: 0,
        enable_queue_depth_metrics: false,
        enable_agent_asleep_cycles_metric: false,
    });
    simulation.run();
    let consumed = simulation.consumed_for_agent("worker").unwrap();
    assert_eq!(payloads(&consumed), vec![1, 2]);
    assert_eq!(consumed[0].completed_time, Some(2));
    assert_eq!(consumed[1].completed_time, Some(3));
}

#[test]
fn asleep_agent_acts_from_its_wake_tick_on() {
    let mut simulation = Simulation::new(SimulationParameters {
        agent_initializers: vec![AgentInitializer {
            agent: Box::new(Ticker { target: "nobody".to_string() }),
            options: options("late", AgentMode::AsleepUntil(3), AgentMode::Proactive, vec![]),
        }],
        halt_check: halt_at(6),
        starting_time: 0,
        enable_queue_depth_metrics: false,
        enable_agent_asleep_cycles_metric: true,
    });
    simulation.run();
    let produced = simulation.produced_for_agent("late").unwrap();
    let times: Vec<u64> = produced.iter().map(|m| m.queued_time).collect();
    assert_eq!(times, vec![3, 4, 5]);
    assert_eq!(simulation.asleep_cycle_count("late"), Some(3));
    assert_eq!(simulation.agent_state("late").unwrap().mode, AgentMode::Proactive);
}

#[test]
fn asleep_agent_keeps_its_queue() {
    let mut simulation = Simulation::new(SimulationParameters {
        agent_initializers: vec![AgentInitializer {
            agent: Box::new(Flaky { failures: 0 }),
            options: options(
                "worker",
                AgentMode::AsleepUntil(2),
                AgentMode::Reactive,
                vec![numbered(0, 1, "worker"), numbered(0, 2, "worker")],
            ),
        }],
        halt_check: halt_at(3),
        starting_time: 0,
        enable_queue_depth_metrics: true,
        enable_agent_asleep_cycles_metric: true,
    });
    simulation.run();
    let consumed = simulation.consumed_for_agent("worker").unwrap();
    assert_eq!(payloads(&consumed), vec![1]);
    assert_eq!(consumed[0].completed_time, Some(2));
    assert_eq!(simulation.calc_queue_len_statistics().get("worker"), Some(1));
    assert_eq!(simulation.asleep_cycle_count("worker"), Some(2));
    assert_eq!(simulation.queue_depth_metrics("worker"), Some(vec![1, 1, 1]));
    assert_eq!(simulation.calc_avg_wait_statistics().get("worker"), Some(2));
}

#[test]
fn dead_agent_does_nothing() {
    let mut simulation = Simulation::new(SimulationParameters {
        agent_initializers: vec![AgentInitializer {
            agent: Box::new(Ticker { target: "nobody".to_string() }),
            options: options("gone", AgentMode::Dead, AgentMode::Proactive, vec![numbered(0, 1, "gone")]),
        }],
        halt_check: halt_at(5),
        starting_time: 0,
        enable_queue_depth_metrics: false,
        enable_agent_asleep_cycles_metric: true,
    });
    simulation.run();
    assert_eq!(simulation.produced_for_agent("gone").unwrap().len(), 0);
    assert_eq!(simulation.consumed_for_agent("gone").unwrap().len(), 0);
    assert_eq!(simulation.calc_queue_len_statistics().get("gone"), Some(1));
    assert_eq!(simulation.asleep_cycle_count("gone"), Some(0));
    assert_eq!(simulation.agent_state("gone").unwrap().mode, AgentMode::Dead);
}

#[test]
fn halt_command_ends_the_run_after_its_tick() {
    let mut simulation = Simulation::new(SimulationParameters {
        agent_initializers: vec![AgentInitializer {
            agent: Box::new(Halter { at: 2 }),
            options: options("halter", AgentMode::Proactive, AgentMode::Proactive, vec![]),
        }],
        halt_check: never,
        starting_time: 0,
        enable_queue_depth_metrics: false,
        enable_agent_asleep_cycles_metric: false,
    });
    simulation.run();
    assert_eq!(simulation.state.mode, SimulationMode::Completed);
    assert_eq!(simulation.state.time, 3);
    assert_eq!(simulation.produced_for_agent("halter").unwrap().len(), 3);
    assert_eq!(simulation.calc_queue_len_statistics().get("halter"), Some(3));
}

#[test]
fn message_to_nobody_is_dropped_and_still_produced() {
    let mut simulation = Simulation::new(SimulationParameters {
        agent_initializers: vec![
            AgentInitializer {
                agent: Box::new(Ticker { target: "nobody".to_string() }),
                options: options("talker", AgentMode::Proactive, AgentMode::Proactive, vec![]),
            },
            periodic_consuming_agent("listener".to_string(), 0),
        ],
        halt_check: halt_at(4),
        starting_time: 0,
        enable_queue_depth_metrics: false,
        enable_agent_asleep_cycles_metric: false,
    });
    simulation.run();
    let produced = simulation.produced_for_agent("talker").unwrap();
    assert_eq!(produced.len(), 4);
    assert_eq!(produced[0].source, "talker");
    assert_eq!(produced[0].destination, "nobody");
    assert_eq!(produced[3].queued_time, 3);
    assert_eq!(simulation.calc_queue_len_statistics().get("listener"), Some(0));
    assert_eq!(simulation.calc_queue_len_statistics().get("talker"), Some(0));
    assert_eq!(simulation.calc_consumed_len_statistics().get("listener"), Some(0));
}

#[test]
fn a_name_borne_twice_stands_for_the_last_agent() {
    let mut simulation = Simulation::new(SimulationParameters {
        agent_initializers: vec![
            periodic_consuming_agent("twin".to_string(), 0),
            AgentInitializer {
                agent: Box::new(Ticker { target: "twin".to_string() }),
                options: options("talker", AgentMode::Proactive, AgentMode::Proactive, vec![]),
            },
            periodic_consuming_agent("twin".to_string(), 0),
        ],
        halt_check: halt_at(3),
        starting_time: 0,
        enable_queue_depth_metrics: false,
        enable_agent_asleep_cycles_metric: false,
    });
    simulation.run();
    assert_eq!(simulation.state.find_agent("twin"), Some(2));
    assert_eq!(simulation.state.find_agent("talker"), Some(1));
    assert_eq!(simulation.state.find_agent("nobody"), None);
    assert_eq!(simulation.state.agent_states[0].consumed.len(), 0);
    assert_eq!(simulation.state.agent_states[0].queue.len(), 0);
    assert_eq!(simulation.state.agent_states[2].consumed.len(), 2);
    assert_eq!(simulation.state.agent_states[2].queue.len(), 1);
    assert_eq!(simulation.calc_consumed_len_statistics().get("twin"), Some(2));
}

#[test]
fn sleep_past_the_end_of_the_clock_lasts_to_its_last_tick() {
    let mut simulation = Simulation::new(SimulationParameters {
        agent_initializers: vec![AgentInitializer {
            agent: Box::new(Sleeper { ticks: u64::MAX }),
            options: options("sleeper", AgentMode::Proactive, AgentMode::Proactive, vec![]),
        }],
        halt_check: halt_at(8),
        starting_time: 5,
        enable_queue_depth_metrics: false,
        enable_agent_asleep_cycles_metric: true,
    });
    simulation.run();
    assert_eq!(
        simulation.agent_state("sleeper").unwrap().mode,
        AgentMode::AsleepUntil(u64::MAX)
    );
    assert_eq!(simulation.asleep_cycle_count("sleeper"), Some(2));
}

#[test]
fn periodic_consumer_with_a_period_of_three_falls_behind() {
    let mut simulation = Simulation::new(SimulationParameters {
        agent_initializers: vec![
            periodic_producing_agent("producer".to_string(), 1, "consumer".to_string()),
            periodic_consuming_agent("consumer".to_string(), 3),
        ],
        halt_check: halt_at(10),
        starting_time: 0,
        enable_queue_depth_metrics: true,
        enable_agent_asleep_cycles_metric: true,
    });
    simulation.run();
    assert_eq!(simulation.calc_produced_len_statistics().get("producer"), Some(10));
    assert_eq!(simulation.calc_consumed_len_statistics().get("consumer"), Some(3));
    assert_eq!(simulation.calc_queue_len_statistics().get("consumer"), Some(7));
    let consumed = simulation.consumed_for_agent("consumer").unwrap();
    let waits: Vec<u64> =
        consumed.iter().map(|m| m.completed_time.unwrap() - m.queued_time).collect();
    assert_eq!(waits, vec![1, 3, 5]);
    assert_eq!(simulation.calc_avg_wait_statistics().get("consumer"), Some(3));
    assert_eq!(simulation.calc_avg_wait_statistics().get("producer"), None);
    assert_eq!(simulation.asleep_cycle_count("consumer"), Some(6));
    assert_eq!(
        simulation.queue_depth_metrics("consumer"),
        Some(vec![0, 0, 0, 1, 2, 2, 3, 4, 4, 5])
    );
}

#[test]
fn queries_on_an_unknown_name_give_nothing() {
    let mut simulation = Simulation::new(SimulationParameters {
        agent_initializers: vec![periodic_consuming_agent("consumer".to_string(), 1)],
        halt_check: halt_at(1),
        starting_time: 0,
        enable_queue_depth_metrics: true,
        enable_agent_asleep_cycles_metric: true,
    });
    simulation.run();
    assert!(simulation.consumed_for_agent("stranger").is_none());
    assert!(simulation.produced_for_agent("stranger").is_none());
    assert!(simulation.agent_state("stranger").is_none());
    assert!(simulation.agent_state_mut("stranger").is_none());
    assert!(simulation.agent_state_mut("consumer").is_some());
    assert!(simulation.queue_depth_metrics("stranger").is_none());
    assert!(simulation.asleep_cycle_count("stranger").is_none());
    assert_eq!(simulation.calc_queue_len_statistics().get("stranger"), None);
}

#[test]
fn asking_twice_gives_the_same_statistics() {
    let mut simulation = Simulation::new(SimulationParameters {
        agent_initializers: vec![
            periodic_producing_agent("producer".to_string(), 2, "consumer".to_string()),
            periodic_consuming_agent("consumer".to_string(), 1),
        ],
        halt_check: halt_at(12),
        starting_time: 0,
        enable_queue_depth_metrics: true,
        enable_agent_asleep_cycles_metric: true,
    });
    simulation.run();
    for name in ["producer", "consumer", "stranger"] {
        assert_eq!(
            simulation.calc_avg_wait_statistics().get(name),
            simulation.calc_avg_wait_statistics().get(name)
        );
        assert_eq!(
            simulation.calc_queue_len_statistics().get(name),
            simulation.calc_queue_len_statistics().get(name)
        );
        assert_eq!(
            simulation.calc_consumed_len_statistics().get(name),
            simulation.calc_consumed_len_statistics().get(name)
        );
        assert_eq!(
            simulation.calc_produced_len_statistics().get(name),
            simulation.calc_produced_len_statistics().get(name)
        );
        assert_eq!(simulation.queue_depth_metrics(name), simulation.queue_depth_metrics(name));
        assert_eq!(simulation.asleep_cycle_count(name), simulation.asleep_cycle_count(name));
    }
    assert_eq!(simulation.calc_produced_len_statistics().get("producer"), Some(6));
    assert_eq!(simulation.state.time, 12);
}

#[test]
fn one_tick_wakes_dispatches_drains_and_advances() {
    let mut simulation = Simulation::new(SimulationParameters {
        agent_initializers: vec![
            periodic_producing_agent("producer".to_string(), 4, "consumer".to_string()),
            periodic_consuming_agent("consumer".to_string(), 1),
        ],
        halt_check: never,
        starting_time: 7,
        enable_queue_depth_metrics: false,
        enable_agent_asleep_cycles_metric: false,
    });
    simulation.tick();
    assert_eq!(simulation.state.time, 8);
    assert_eq!(simulation.state.mode, SimulationMode::Constructed);
    assert_eq!(simulation.state.agent_states[0].mode, AgentMode::AsleepUntil(11));
    assert_eq!(simulation.state.agent_states[0].produced.len(), 1);
    assert_eq!(simulation.state.agent_states[1].queue.len(), 1);
    assert_eq!(simulation.state.agent_states[1].queue[0].queued_time, 7);
    assert_eq!(simulation.state.agent_states[1].queue[0].source, "producer");
}

#[test]
fn periodic_producer_produces_once_per_period() {
    for (period, limit, expected) in
        [(1u64, 5u64, 5u64), (2, 10, 5), (3, 10, 4), (4, 10, 3), (10, 10, 1), (25, 10, 1), (0, 10, 10), (3, 0, 0), (3, 1, 1)]
    {
        let mut simulation = Simulation::new(SimulationParameters {
            agent_initializers: vec![periodic_producing_agent(
                "producer".to_string(),
                period,
                "nobody".to_string(),
            )],
            halt_check: halt_at(limit),
            starting_time: 0,
            enable_queue_depth_metrics: false,
            enable_agent_asleep_cycles_metric: true,
        });
        simulation.run();
        assert_eq!(simulation.state.time, limit);
        assert_eq!(simulation.calc_produced_len_statistics().get("producer"), Some(expected));
        assert_eq!(expected, if period == 0 { limit } else { limit.div_ceil(period) });
        assert_eq!(simulation.asleep_cycle_count("producer"), Some(limit - expected));
    }
}
