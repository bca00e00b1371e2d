//! Tickets: the minimal record of one interaction between agents.
use vstd::prelude::*;

verus! {

/// A ticket is a message between Agents that captures the necessary data to
/// perform the interaction.
#[derive(Debug)]
pub struct Ticket {
    pub queued_time: u64,
    pub completed_time: Option<u64>,
    pub source: String,
    pub destination: String,
}

/// The mathematical value of a [`Ticket`].
pub struct TicketView {
    pub queued_time: u64,
    pub completed_time: Option<u64>,
    pub source: Seq<char>,
    pub destination: Seq<char>,
}

impl View for Ticket {
    type V = TicketView;

    open spec fn view(&self) -> TicketView {
        TicketView {
            queued_time: self.queued_time,
            completed_time: self.completed_time,
            source: self.source@,
            destination: self.destination@,
        }
    }
}

impl Default for Ticket {
    fn default() -> (t: Self)
        ensures
            t@ == (TicketView {
                queued_time: 0,
                completed_time: None,
                source: Seq::<char>::empty(),
                destination: Seq::<char>::empty(),
            }),
    {
        Ticket {
            queued_time: 0,
            completed_time: None,
            source: String::new(),
            destination: String::new(),
        }
    }
}

impl Clone for Ticket {
    fn clone(&self) -> (copy: Self)
        ensures
            copy@ == self@,
    {
        Ticket {
            queued_time: self.queued_time,
            completed_time: self.completed_time,
            source: self.source.clone(),
            destination: self.destination.clone(),
        }
    }
}

impl Ticket {
    /// A ticket queued at `time` from `src` to `dst`, not yet completed.
    pub fn new(time: u64, src: String, dst: String) -> (t: Ticket)
        ensures
            t@ == (TicketView {
                queued_time: time,
                completed_time: None,
                source: src@,
                destination: dst@,
            }),
    {
        Ticket { queued_time: time, completed_time: None, source: src, destination: dst }
    }
}

} // verus!
