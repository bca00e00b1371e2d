//! A discrete-time, multi-agent simulation kernel and two search strategies
//! that drive it.
pub mod agent;
pub mod experiment;
pub mod laws;
pub mod message;
pub mod model;
pub mod simulation;
pub mod statistics;
pub mod ticket;

pub use agent::{
    periodic_consuming_agent, periodic_producing_agent, Agent, AgentCommand, AgentCommandType,
    AgentContext, AgentInitializer, AgentMode, AgentOptions, AgentPrototype, AgentState,
    BoxedAgent, MessageProcessingStatus,
};
pub use message::{Interrupt, Message};
pub use simulation::{AgentMetadata, Simulation, SimulationParameters, SimulationState};
pub use statistics::Statistics;
pub use ticket::Ticket;

use vstd::prelude::*;

verus! {

/// DiscreteTime is a Simulation's internal representation of time.
pub type DiscreteTime = u64;

/// The current mode of a Simulation.
#[derive(Clone, Copy, Debug, PartialEq, Eq, Structural, PartialOrd, Ord, Hash)]
pub enum SimulationMode {
    /// The Simulation has only been constructed.
    Constructed,
    /// The Simulation is actively simulating.
    Running,
    /// The Simulation successfully reached the halt condition.
    Completed,
    /// The Simulation could not go on: the clock has no tick left.
    Failed,
}

} // verus!
