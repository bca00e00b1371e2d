//! Messages: the data units that agents exchange.
use crate::DiscreteTime;
use vstd::prelude::*;

verus! {

/// A control signal that a message may carry up to the simulation engine.
#[derive(Debug)]
pub enum Interrupt {
    /// Immediately halt the simulation (with some reason why).
    HaltSimulation(String),
}

/// The mathematical value of an [`Interrupt`].
pub enum InterruptView {
    HaltSimulation(Seq<char>),
}

impl View for Interrupt {
    type V = InterruptView;

    open spec fn view(&self) -> InterruptView {
        match self {
            Interrupt::HaltSimulation(reason) => InterruptView::HaltSimulation(reason@),
        }
    }
}

impl Clone for Interrupt {
    fn clone(&self) -> (copy: Self)
        ensures
            copy@ == self@,
    {
        match self {
            Interrupt::HaltSimulation(reason) => Interrupt::HaltSimulation(reason.clone()),
        }
    }
}

/// A Message represents an interaction between Agents.
#[derive(Debug)]
pub struct Message {
    /// When the message was first created and put onto a queue.
    pub queued_time: DiscreteTime,
    /// When the Message was consumed and processed.
    pub completed_time: Option<DiscreteTime>,
    /// The name of the Agent that created this Message.
    pub source: String,
    /// The name of the Agent that received this Message.
    pub destination: String,
    /// Uninterpreted bytes for domain-specific data.
    pub custom_payload: Option<Vec<u8>>,
    /// A control interrupt to bubble up to the Simulation engine.
    pub interrupt: Option<Interrupt>,
}

/// The mathematical value of a [`Message`]: its times, the two names as
/// character sequences, the payload as a byte sequence and the interrupt.
pub struct MessageView {
    pub queued_time: DiscreteTime,
    pub completed_time: Option<DiscreteTime>,
    pub source: Seq<char>,
    pub destination: Seq<char>,
    pub custom_payload: Option<Seq<u8>>,
    pub interrupt: Option<InterruptView>,
}

impl MessageView {
    /// The same message, stamped as consumed at tick `now`.
    pub open spec fn completed_at(self, now: DiscreteTime) -> MessageView {
        MessageView { completed_time: Some(now), ..self }
    }

    /// The message that an agent named `source` sends to `destination` at
    /// tick `now`: not yet consumed, and without an interrupt.
    pub open spec fn sent(
        now: DiscreteTime,
        source: Seq<char>,
        destination: Seq<char>,
        payload: Option<Seq<u8>>,
    ) -> MessageView {
        MessageView {
            queued_time: now,
            completed_time: None,
            source,
            destination,
            custom_payload: payload,
            interrupt: None,
        }
    }
}

/// The mathematical value of an optional payload.
pub open spec fn payload_view(payload: Option<Vec<u8>>) -> Option<Seq<u8>> {
    match payload {
        Some(bytes) => Some(bytes@),
        None => None,
    }
}

/// The mathematical value of an optional interrupt.
pub open spec fn interrupt_view(interrupt: Option<Interrupt>) -> Option<InterruptView> {
    match interrupt {
        Some(signal) => Some(signal@),
        None => None,
    }
}

/// The values of a sequence of messages, in the same order.
pub open spec fn message_views(messages: Seq<Message>) -> Seq<MessageView> {
    messages.map_values(|m: Message| m@)
}

impl View for Message {
    type V = MessageView;

    open spec fn view(&self) -> MessageView {
        MessageView {
            queued_time: self.queued_time,
            completed_time: self.completed_time,
            source: self.source@,
            destination: self.destination@,
            custom_payload: payload_view(self.custom_payload),
            interrupt: interrupt_view(self.interrupt),
        }
    }
}

impl Default for Message {
    fn default() -> (m: Self)
        ensures
            m@ == MessageView::sent(0, Seq::<char>::empty(), Seq::<char>::empty(), None),
    {
        Message {
            queued_time: 0,
            completed_time: None,
            source: String::new(),
            destination: String::new(),
            custom_payload: None,
            interrupt: None,
        }
    }
}

impl Clone for Message {
    fn clone(&self) -> (copy: Self)
        ensures
            copy@ == self@,
    {
        let custom_payload = match &self.custom_payload {
            Some(bytes) => {
                let copied = bytes.clone();
                assert(copied@ =~= bytes@);
                Some(copied)
            },
            None => None,
        };
        let interrupt = match &self.interrupt {
            Some(signal) => Some(signal.clone()),
            None => None,
        };
        Message {
            queued_time: self.queued_time,
            completed_time: self.completed_time,
            source: self.source.clone(),
            destination: self.destination.clone(),
            custom_payload,
            interrupt,
        }
    }
}

impl Message {
    /// A message queued at `time` from `src` to `dst`, with no payload and
    /// no interrupt, not yet consumed.
    pub fn new(time: DiscreteTime, src: String, dst: String) -> (m: Self)
        ensures
            m@ == MessageView::sent(time, src@, dst@, None),
    {
        Message {
            queued_time: time,
            completed_time: None,
            source: src,
            destination: dst,
            custom_payload: None,
            interrupt: None,
        }
    }

    /// The same message, stamped as consumed at tick `now`.
    pub fn into_completed(self, now: DiscreteTime) -> (m: Self)
        ensures
            m@ == self@.completed_at(now),
    {
        Message { completed_time: Some(now), ..self }
    }
}

} // verus!
