//! What holds of every tick and of every run of the simulation kernel,
//! proved from the model of the tick.
use crate::agent::{AgentCommandView, AgentMode, AgentStateView, CommandView};
use crate::message::MessageView;
use crate::model::{
    lemma_applied_frame, lemma_apply_frame, tagged, wake_tick, Reaction, SimulationStateView,
};
use crate::experiment::{
    follows_metropolis, is_annealing, is_annealing_step, metropolis, AnnealingTrace,
    ObjectiveScore, Odds, Temperature,
};
use crate::simulation::{Simulation, SimulationParameters, SimulationState};
use crate::statistics::Statistics;
use crate::{DiscreteTime, SimulationMode};
use vstd::prelude::*;

verus! {

/// Applying one command leaves an agent's consumed log and wake mode as
/// they are, lengthens its queue and its produced log at the end only, and
/// changes its mode only if the command is the agent's own request to sleep.
pub proof fn lemma_apply_agent(s: SimulationStateView, command: AgentCommandView, i: int)
    requires
        0 <= i < s.agents.len(),
    ensures
        s.apply(command).agents[i].consumed == s.agents[i].consumed,
        s.apply(command).agents[i].wake_mode == s.agents[i].wake_mode,
        s.agents[i].queue.is_prefix_of(s.apply(command).agents[i].queue),
        s.agents[i].produced.is_prefix_of(s.apply(command).agents[i].produced),
        command.agent_handle != i || !(command.ty is Sleep) ==> s.apply(command).agents[i].mode
            == s.agents[i].mode,
{
    let handle = command.agent_handle;
    if 0 <= handle < s.agents.len() {
        match command.ty {
            CommandView::SendMessage(message) => {
                let sent = s.delivered(message);
                assert(sent.agents.len() == s.agents.len());
                assert(sent.agents[i].consumed == s.agents[i].consumed);
                assert(s.agents[i].queue.is_prefix_of(sent.agents[i].queue));
                assert(sent.agents[i].produced == s.agents[i].produced);
                let logged = sent.logged(handle, message);
                assert(logged.agents[i].queue == sent.agents[i].queue);
                assert(sent.agents[i].produced.is_prefix_of(logged.agents[i].produced));
            },
            _ => {},
        }
    }
}

/// Applying a buffer of commands leaves an agent's consumed log and wake
/// mode as they are, lengthens its queue and its produced log at the end
/// only, and leaves its mode as it is unless the buffer holds a request of
/// the agent's own to sleep.
pub proof fn lemma_applied_agent(s: SimulationStateView, commands: Seq<AgentCommandView>, i: int)
    requires
        0 <= i < s.agents.len(),
    ensures
        s.applied(commands).agents[i].consumed == s.agents[i].consumed,
        s.applied(commands).agents[i].wake_mode == s.agents[i].wake_mode,
        s.agents[i].queue.is_prefix_of(s.applied(commands).agents[i].queue),
        s.agents[i].produced.is_prefix_of(s.applied(commands).agents[i].produced),
        (forall|k: int|
            0 <= k < commands.len() ==> (#[trigger] commands[k]).agent_handle != i
                || !(commands[k].ty is Sleep)) ==> s.applied(commands).agents[i].mode
            == s.agents[i].mode,
    decreases commands.len(),
{
    if commands.len() > 0 {
        let rest = commands.drop_last();
        lemma_applied_agent(s, rest, i);
        lemma_applied_frame(s, rest);
        lemma_apply_agent(s.applied(rest), commands.last(), i);
        if forall|k: int|
            0 <= k < commands.len() ==> (#[trigger] commands[k]).agent_handle != i
                || !(commands[k].ty is Sleep) {
            assert forall|k: int| 0 <= k < rest.len() implies (#[trigger] rest[k]).agent_handle
                != i || !(rest[k].ty is Sleep) by {
                assert(rest[k] == commands[k]);
            }
            assert(commands[commands.len() - 1] == commands.last());
        }
    }
}

/// Every command that was gathered bears the handle of an agent that was
/// called.
pub proof fn lemma_gathered_from_called(
    s: SimulationStateView,
    reactions: Seq<Reaction>,
    upto: int,
    k: int,
)
    requires
        0 <= upto <= s.agents.len(),
        0 <= k < s.gathered_upto(reactions, upto).len(),
    ensures
        0 <= s.gathered_upto(reactions, upto)[k].agent_handle < upto,
        s.agents[s.gathered_upto(reactions, upto)[k].agent_handle].is_called(),
    decreases upto,
{
    if upto > 0 {
        let earlier = s.gathered_upto(reactions, upto - 1);
        if k < earlier.len() {
            lemma_gathered_from_called(s, reactions, upto - 1, k);
        } else {
            let issued = s.agents[upto - 1].issued(reactions[upto - 1]);
            assert(tagged(issued, upto - 1)[k - earlier.len()].agent_handle == upto - 1);
        }
    }
}

/// A command that an agent issued when it was called is among those that
/// were gathered, under the agent's handle.
pub proof fn lemma_gathered_holds(
    s: SimulationStateView,
    reactions: Seq<Reaction>,
    upto: int,
    i: int,
    c: int,
) -> (k: int)
    requires
        0 <= i < upto <= s.agents.len(),
        s.agents[i].is_called(),
        0 <= c < reactions[i].commands.len(),
    ensures
        0 <= k < s.gathered_upto(reactions, upto).len(),
        s.gathered_upto(reactions, upto)[k] == (AgentCommandView {
            ty: reactions[i].commands[c],
            agent_handle: i,
        }),
    decreases upto,
{
    let earlier = s.gathered_upto(reactions, upto - 1);
    if i < upto - 1 {
        lemma_gathered_holds(s, reactions, upto - 1, i, c)
    } else {
        let issued = s.agents[i].issued(reactions[i]);
        assert(tagged(issued, i)[c] == (AgentCommandView {
            ty: reactions[i].commands[c],
            agent_handle: i,
        }));
        earlier.len() + c
    }
}

/// A buffer that holds a request to halt, from an agent that exists, leaves
/// the simulation completed.
pub proof fn lemma_applied_halt(s: SimulationStateView, commands: Seq<AgentCommandView>, k: int)
    requires
        0 <= k < commands.len(),
        commands[k].ty is HaltSimulation,
        0 <= commands[k].agent_handle < s.agents.len(),
    ensures
        s.applied(commands).mode == SimulationMode::Completed,
    decreases commands.len(),
{
    let rest = commands.drop_last();
    lemma_applied_frame(s, rest);
    lemma_apply_frame(s.applied(rest), commands.last());
    if k < commands.len() - 1 {
        assert(rest[k] == commands[k]);
        lemma_applied_halt(s, rest, k);
    }
}

/// A tick advances the clock by exactly one and keeps the roster as long as
/// it is; it changes the mode of the simulation only to `Completed`.
pub proof fn law_tick_advances_time(s: SimulationStateView, reactions: Seq<Reaction>)
    ensures
        s.tick(reactions).time == (s.time + 1) as u64,
        s.tick(reactions).agents.len() == s.agents.len(),
        s.tick(reactions).names == s.names,
        s.tick(reactions).mode == s.mode || s.tick(reactions).mode == SimulationMode::Completed,
{
    let awake = s.woken();
    lemma_applied_frame(awake.dispatched(reactions), awake.gathered(reactions));
}

/// A message, its completion time aside.
pub open spec fn unstamped(message: MessageView) -> MessageView {
    MessageView { completed_time: None, ..message }
}

/// The messages that an agent has consumed, followed by those that it
/// still has queued, completion times aside.
pub open spec fn lineage(agent: AgentStateView) -> Seq<MessageView> {
    agent.consumed.map_values(|m: MessageView| unstamped(m)) + agent.queue.map_values(
        |m: MessageView| unstamped(m),
    )
}

/// First in, first out: over a tick, what an agent has consumed followed
/// by what it has queued grows at its end and nowhere else. So an agent
/// consumes its messages in the order in which they were queued, and a
/// message that arrives later is consumed later.
pub proof fn law_fifo(s: SimulationStateView, reactions: Seq<Reaction>, i: int)
    requires
        0 <= i < s.agents.len(),
    ensures
        lineage(s.agents[i]).is_prefix_of(lineage(s.tick(reactions).agents[i])),
{
    let awake = s.woken();
    let settled = awake.dispatched(reactions);
    let drained = settled.applied(awake.gathered(reactions));
    lemma_applied_agent(settled, awake.gathered(reactions), i);
    let before = s.agents[i];
    let middle = settled.agents[i];
    let after = drained.agents[i];
    assert(awake.agents[i].queue == before.queue);
    assert(awake.agents[i].consumed == before.consumed);
    assert(lineage(middle) =~= lineage(before)) by {
        if awake.agents[i].consumes(reactions[i].status) {
            assert(unstamped(before.queue[0].completed_at(awake.time)) == unstamped(
                before.queue[0],
            ));
        }
    }
    assert(lineage(middle).is_prefix_of(lineage(after))) by {
        assert(after.consumed == middle.consumed);
        assert(middle.queue.is_prefix_of(after.queue));
        assert forall|k: int| 0 <= k < lineage(middle).len() implies lineage(middle)[k]
            == lineage(after)[k] by {
            if k >= middle.consumed.len() {
                assert(middle.queue[k - middle.consumed.len()] == after.queue[k
                    - middle.consumed.len()]);
            }
        }
    }
}

/// Append only: over a tick, an agent's consumed log and its produced log
/// grow at their ends and nowhere else.
pub proof fn law_logs_only_grow(s: SimulationStateView, reactions: Seq<Reaction>, i: int)
    requires
        0 <= i < s.agents.len(),
    ensures
        s.agents[i].consumed.is_prefix_of(s.tick(reactions).agents[i].consumed),
        s.agents[i].produced.is_prefix_of(s.tick(reactions).agents[i].produced),
{
    let awake = s.woken();
    let settled = awake.dispatched(reactions);
    lemma_applied_agent(settled, awake.gathered(reactions), i);
    assert(awake.agents[i].consumed == s.agents[i].consumed);
    assert(awake.agents[i].produced == s.agents[i].produced);
    assert(settled.agents[i].produced == s.agents[i].produced);
    assert(s.agents[i].consumed.is_prefix_of(settled.agents[i].consumed));
}

/// The messages that the agent with handle `i` asks to send in a buffer
/// of commands, in the order of the buffer.
pub open spec fn sent_by(commands: Seq<AgentCommandView>, i: int) -> Seq<MessageView>
    decreases commands.len(),
{
    if commands.len() == 0 {
        Seq::empty()
    } else {
        let earlier = sent_by(commands.drop_last(), i);
        match commands.last().ty {
            CommandView::SendMessage(message) => if commands.last().agent_handle == i {
                earlier.push(message)
            } else {
                earlier
            },
            _ => earlier,
        }
    }
}

/// The messages that a sequence of commands asks to send, in the same order.
pub open spec fn messages_of(commands: Seq<CommandView>) -> Seq<MessageView>
    decreases commands.len(),
{
    if commands.len() == 0 {
        Seq::empty()
    } else {
        let earlier = messages_of(commands.drop_last());
        match commands.last() {
            CommandView::SendMessage(message) => earlier.push(message),
            _ => earlier,
        }
    }
}

/// What an agent asks to send in two buffers, one after the other, is
/// what it asks to send in the first, followed by what it asks in the second.
proof fn lemma_sent_by_concat(first: Seq<AgentCommandView>, second: Seq<AgentCommandView>, i: int)
    ensures
        sent_by(first + second, i) == sent_by(first, i) + sent_by(second, i),
    decreases second.len(),
{
    if second.len() == 0 {
        assert(first + second =~= first);
        assert(sent_by(first, i) + sent_by(second, i) =~= sent_by(first, i));
    } else {
        let whole = first + second;
        assert(whole.drop_last() =~= first + second.drop_last());
        assert(whole.last() == second.last());
        lemma_sent_by_concat(first, second.drop_last(), i);
        let earlier = sent_by(first, i) + sent_by(second.drop_last(), i);
        match second.last().ty {
            CommandView::SendMessage(message) => {
                if second.last().agent_handle == i {
                    assert(earlier.push(message) =~= sent_by(first, i) + sent_by(
                        second.drop_last(),
                        i,
                    ).push(message));
                }
            },
            _ => {},
        }
    }
}

/// Of commands that bear one handle, the agent with that handle asks to
/// send all the messages, and no other agent any.
proof fn lemma_sent_by_tagged(commands: Seq<CommandView>, handle: int, i: int)
    ensures
        sent_by(tagged(commands, handle), i) == if handle == i {
            messages_of(commands)
        } else {
            Seq::empty()
        },
    decreases commands.len(),
{
    if commands.len() > 0 {
        let whole = tagged(commands, handle);
        assert(whole.drop_last() =~= tagged(commands.drop_last(), handle));
        assert(whole.last() == (AgentCommandView { ty: commands.last(), agent_handle: handle }));
        lemma_sent_by_tagged(commands.drop_last(), handle, i);
    } else {
        assert(tagged(commands, handle) =~= Seq::empty());
    }
}

/// In the commands that were gathered, an agent that was called asks to
/// send what it issued, and an agent that was not called asks for nothing.
proof fn lemma_sent_by_gathered(s: SimulationStateView, reactions: Seq<Reaction>, upto: int, i: int)
    requires
        0 <= upto <= s.agents.len(),
        0 <= i < s.agents.len(),
    ensures
        sent_by(s.gathered_upto(reactions, upto), i) == if i < upto {
            messages_of(s.agents[i].issued(reactions[i]))
        } else {
            Seq::empty()
        },
    decreases upto,
{
    if upto > 0 {
        let earlier = s.gathered_upto(reactions, upto - 1);
        let issued = s.agents[upto - 1].issued(reactions[upto - 1]);
        lemma_sent_by_gathered(s, reactions, upto - 1, i);
        lemma_sent_by_concat(earlier, tagged(issued, upto - 1), i);
        lemma_sent_by_tagged(issued, upto - 1, i);
        assert(sent_by(earlier, i) + Seq::<MessageView>::empty() =~= sent_by(earlier, i));
        assert(Seq::<MessageView>::empty() + messages_of(issued) =~= messages_of(issued));
    }
}

/// Applying a buffer of commands adds to an agent's produced log the
/// messages that the agent asks to send, and nothing else.
proof fn lemma_applied_produced(s: SimulationStateView, commands: Seq<AgentCommandView>, i: int)
    requires
        0 <= i < s.agents.len(),
    ensures
        s.applied(commands).agents[i].produced == s.agents[i].produced + sent_by(commands, i),
    decreases commands.len(),
{
    if commands.len() == 0 {
        assert(s.agents[i].produced + sent_by(commands, i) =~= s.agents[i].produced);
    } else {
        let rest = commands.drop_last();
        let command = commands.last();
        lemma_applied_produced(s, rest, i);
        lemma_applied_frame(s, rest);
        let before = s.applied(rest);
        let handle = command.agent_handle;
        match command.ty {
            CommandView::SendMessage(message) => {
                if 0 <= handle < before.agents.len() {
                    let sent = before.delivered(message);
                    assert(sent.agents.len() == before.agents.len());
                    assert(sent.agents[i].produced == before.agents[i].produced);
                    if handle == i {
                        assert(before.apply(command).agents[i].produced
                            == before.agents[i].produced.push(message));
                        assert(s.agents[i].produced + sent_by(rest, i).push(message) =~= (
                        s.agents[i].produced + sent_by(rest, i)).push(message));
                    } else {
                        assert(before.apply(command).agents[i].produced
                            == before.agents[i].produced);
                    }
                }
            },
            _ => {},
        }
    }
}

/// The ticks of the last request to sleep in a sequence of commands.
pub open spec fn last_sleep_of(commands: Seq<CommandView>) -> Option<DiscreteTime>
    decreases commands.len(),
{
    if commands.len() == 0 {
        None
    } else {
        match commands.last() {
            CommandView::Sleep(ticks) => Some(ticks),
            _ => last_sleep_of(commands.drop_last()),
        }
    }
}

/// The ticks of the last request to sleep that the agent with handle `i`
/// makes in a buffer of commands.
pub open spec fn last_sleep_by(commands: Seq<AgentCommandView>, i: int) -> Option<DiscreteTime>
    decreases commands.len(),
{
    if commands.len() == 0 {
        None
    } else {
        match commands.last().ty {
            CommandView::Sleep(ticks) => if commands.last().agent_handle == i {
                Some(ticks)
            } else {
                last_sleep_by(commands.drop_last(), i)
            },
            _ => last_sleep_by(commands.drop_last(), i),
        }
    }
}

/// An agent's last request to sleep in two buffers, one after the other,
/// is its last in the second, or else its last in the first.
proof fn lemma_last_sleep_by_concat(
    first: Seq<AgentCommandView>,
    second: Seq<AgentCommandView>,
    i: int,
)
    ensures
        last_sleep_by(first + second, i) == match last_sleep_by(second, i) {
            Some(ticks) => Some(ticks),
            None => last_sleep_by(first, i),
        },
    decreases second.len(),
{
    if second.len() == 0 {
        assert(first + second =~= first);
    } else {
        let whole = first + second;
        assert(whole.drop_last() =~= first + second.drop_last());
        assert(whole.last() == second.last());
        lemma_last_sleep_by_concat(first, second.drop_last(), i);
    }
}

/// Of commands that bear one handle, the agent with that handle makes all
/// the requests to sleep, and no other agent any.
proof fn lemma_last_sleep_by_tagged(commands: Seq<CommandView>, handle: int, i: int)
    ensures
        last_sleep_by(tagged(commands, handle), i) == if handle == i {
            last_sleep_of(commands)
        } else {
            None
        },
    decreases commands.len(),
{
    if commands.len() > 0 {
        let whole = tagged(commands, handle);
        assert(whole.drop_last() =~= tagged(commands.drop_last(), handle));
        assert(whole.last() == (AgentCommandView { ty: commands.last(), agent_handle: handle }));
        lemma_last_sleep_by_tagged(commands.drop_last(), handle, i);
    } else {
        assert(tagged(commands, handle) =~= Seq::empty());
    }
}

/// In the commands that were gathered, an agent's last request to sleep
/// is the last that it issued when it was called.
proof fn lemma_last_sleep_by_gathered(
    s: SimulationStateView,
    reactions: Seq<Reaction>,
    upto: int,
    i: int,
)
    requires
        0 <= upto <= s.agents.len(),
        0 <= i < s.agents.len(),
    ensures
        last_sleep_by(s.gathered_upto(reactions, upto), i) == if i < upto {
            last_sleep_of(s.agents[i].issued(reactions[i]))
        } else {
            None
        },
    decreases upto,
{
    if upto > 0 {
        let earlier = s.gathered_upto(reactions, upto - 1);
        let issued = s.agents[upto - 1].issued(reactions[upto - 1]);
        lemma_last_sleep_by_gathered(s, reactions, upto - 1, i);
        lemma_last_sleep_by_concat(earlier, tagged(issued, upto - 1), i);
        lemma_last_sleep_by_tagged(issued, upto - 1, i);
    }
}

/// Applying a buffer of commands sets an agent's mode by the last request
/// to sleep that the agent makes in it, and leaves the mode as it is if the
/// agent makes none.
proof fn lemma_applied_mode(s: SimulationStateView, commands: Seq<AgentCommandView>, i: int)
    requires
        0 <= i < s.agents.len(),
    ensures
        s.applied(commands).agents[i].mode == match last_sleep_by(commands, i) {
            Some(ticks) => AgentMode::AsleepUntil(wake_tick(s.time, ticks)),
            None => s.agents[i].mode,
        },
    decreases commands.len(),
{
    if commands.len() > 0 {
        let rest = commands.drop_last();
        let command = commands.last();
        lemma_applied_mode(s, rest, i);
        lemma_applied_frame(s, rest);
        lemma_apply_agent(s.applied(rest), command, i);
    }
}

/// What a tick does to an agent's mode, exactly: the wake check brings an
/// agent whose sleep is over into its wake mode; after that only the agent's
/// own last request to sleep, issued when it was called in this tick,
/// changes its mode, to asleep until the tick of the request plus the ticks
/// asked for.
pub proof fn law_tick_accounts_for_mode(s: SimulationStateView, reactions: Seq<Reaction>, i: int)
    requires
        0 <= i < s.agents.len(),
    ensures
        s.tick(reactions).agents[i].wake_mode == s.agents[i].wake_mode,
        s.tick(reactions).agents[i].mode == match last_sleep_of(
            s.woken().agents[i].issued(reactions[i]),
        ) {
            Some(ticks) => AgentMode::AsleepUntil(wake_tick(s.time, ticks)),
            None => s.woken().agents[i].mode,
        },
{
    let awake = s.woken();
    let settled = awake.dispatched(reactions);
    let commands = awake.gathered(reactions);
    lemma_applied_agent(settled, commands, i);
    lemma_applied_mode(settled, commands, i);
    lemma_last_sleep_by_gathered(awake, reactions, awake.agents.len() as int, i);
    assert(settled.agents[i].mode == awake.agents[i].mode);
    assert(settled.agents[i].wake_mode == s.agents[i].wake_mode);
}

/// What a tick does to an agent's logs, exactly. The agent's consumed log
/// gains the message that the agent was handed, stamped with the tick,
/// if the agent is reactive, has a message queued and did not report it as
/// unfinished; otherwise it stays as it is. The agent's produced log gains
/// the messages that the agent asked to send when it was called, in the
/// order in which it asked, whether or not their destinations exist.
pub proof fn law_tick_accounts_for_logs(s: SimulationStateView, reactions: Seq<Reaction>, i: int)
    requires
        0 <= i < s.agents.len(),
    ensures
        s.tick(reactions).agents[i].consumed == s.woken().agents[i].settled(
            s.time,
            reactions[i].status,
        ).consumed,
        s.tick(reactions).agents[i].produced == s.agents[i].produced + messages_of(
            s.woken().agents[i].issued(reactions[i]),
        ),
{
    let awake = s.woken();
    let settled = awake.dispatched(reactions);
    let commands = awake.gathered(reactions);
    lemma_applied_agent(settled, commands, i);
    lemma_applied_produced(settled, commands, i);
    lemma_sent_by_gathered(awake, reactions, awake.agents.len() as int, i);
    assert(settled.agents[i].produced == s.agents[i].produced);
}

/// Retry: a message that a reactive agent was handed and reported as
/// failed or still in progress is at the front of the agent's queue after
/// the tick, ahead of everything that the agent had queued behind it and of
/// every message that arrived in the tick; the agent has consumed nothing.
pub proof fn law_retry(s: SimulationStateView, reactions: Seq<Reaction>, i: int)
    requires
        0 <= i < s.agents.len(),
        s.woken().agents[i].mode == AgentMode::Reactive,
        s.agents[i].queue.len() > 0,
        reactions[i].status.retries(),
    ensures
        s.agents[i].queue.is_prefix_of(s.tick(reactions).agents[i].queue),
        s.tick(reactions).agents[i].queue[0] == s.agents[i].queue[0],
        s.tick(reactions).agents[i].consumed == s.agents[i].consumed,
{
    let awake = s.woken();
    let settled = awake.dispatched(reactions);
    lemma_applied_agent(settled, awake.gathered(reactions), i);
    assert(settled.agents[i] == awake.agents[i]);
}

/// Wake: over a tick before tick `t`, an agent that is asleep until `t` is
/// not called and stays asleep until `t`; in a tick at `t` or after it, the
/// agent is dispatched in its wake mode.
pub proof fn law_wake(s: SimulationStateView, reactions: Seq<Reaction>, i: int, t: DiscreteTime)
    requires
        0 <= i < s.agents.len(),
        s.agents[i].mode == AgentMode::AsleepUntil(t),
    ensures
        s.time < t ==> !s.woken().agents[i].is_called(),
        s.time < t ==> s.tick(reactions).agents[i].mode == AgentMode::AsleepUntil(t),
        s.time >= t ==> s.woken().agents[i] == (AgentStateView {
            mode: s.agents[i].wake_mode,
            ..s.agents[i]
        }),
{
    let awake = s.woken();
    let settled = awake.dispatched(reactions);
    let commands = awake.gathered(reactions);
    if s.time < t {
        assert(awake.agents[i] == s.agents[i]);
        assert(settled.agents[i] == awake.agents[i]);
        assert forall|k: int| 0 <= k < commands.len() implies (#[trigger] commands[k]).agent_handle
            != i || !(commands[k].ty is Sleep) by {
            lemma_gathered_from_called(awake, reactions, awake.agents.len() as int, k);
        }
        lemma_applied_agent(settled, commands, i);
    }
}

/// Whether, in a tick that starts from `s`, the agent with handle `i` is
/// called and its command number `c` asks to halt the simulation.
pub open spec fn halts_in_tick(s: SimulationStateView, reactions: Seq<Reaction>, i: int, c: int) -> bool {
    &&& 0 <= i < s.agents.len()
    &&& s.woken().agents[i].is_called()
    &&& 0 <= c < reactions[i].commands.len()
    &&& reactions[i].commands[c] is HaltSimulation
}

/// A tick in which an agent asks to halt leaves the simulation completed,
/// with the clock advanced by one.
pub proof fn law_halt_completes_tick(s: SimulationStateView, reactions: Seq<Reaction>, i: int, c: int)
    requires
        halts_in_tick(s, reactions, i, c),
    ensures
        s.tick(reactions).mode == SimulationMode::Completed,
        s.tick(reactions).time == (s.time + 1) as u64,
{
    let awake = s.woken();
    let settled = awake.dispatched(reactions);
    let k = lemma_gathered_holds(awake, reactions, awake.agents.len() as int, i, c);
    lemma_applied_halt(settled, awake.gathered(reactions), k);
    law_tick_advances_time(s, reactions);
}

/// Halt: in a run, a tick in which an agent asks to halt is the last one.
/// The run ends as completed, with the clock one tick past the tick in which
/// the agent asked.
pub proof fn law_halt_ends_run<H: Fn(&SimulationState) -> bool + Copy>(
    halt_check: H,
    start: SimulationStateView,
    worlds: Seq<SimulationState>,
    trace: Seq<Seq<Reaction>>,
    end: SimulationStateView,
    j: int,
    i: int,
    c: int,
)
    requires
        Simulation::<H>::is_run(halt_check, start, worlds, trace, end),
        0 <= j < trace.len(),
        halts_in_tick(worlds[j]@, trace[j], i, c),
    ensures
        j == trace.len() - 1,
        end.mode == SimulationMode::Completed,
        end.time == worlds[j].time + 1,
{
    let before = worlds[j]@;
    assert(trace[j].len() == before.agents.len());
    law_halt_completes_tick(before, trace[j], i, c);
    assert(worlds[j + 1]@ == before.tick(trace[j]));
    if j + 1 < trace.len() {
        assert(trace[j + 1].len() == worlds[j + 1]@.agents.len());
        assert(worlds[j + 1].mode == SimulationMode::Running);
    }
}

/// After `upto` ticks of a run the clock has advanced by `upto`, and the
/// roster is as long as it was and bears the same names.
proof fn lemma_run_upto<H: Fn(&SimulationState) -> bool + Copy>(
    halt_check: H,
    start: SimulationStateView,
    worlds: Seq<SimulationState>,
    trace: Seq<Seq<Reaction>>,
    end: SimulationStateView,
    upto: int,
)
    requires
        Simulation::<H>::is_run(halt_check, start, worlds, trace, end),
        0 <= upto <= trace.len(),
    ensures
        worlds[upto]@.time == start.time + upto,
        worlds[upto]@.names == start.names,
        worlds[upto]@.agents.len() == start.agents.len(),
    decreases upto,
{
    if upto > 0 {
        lemma_run_upto(halt_check, start, worlds, trace, end, upto - 1);
        assert(trace[upto - 1].len() == worlds[upto - 1]@.agents.len());
        law_tick_advances_time(worlds[upto - 1]@, trace[upto - 1]);
    }
}

/// A run advances the clock by exactly one for each of its ticks, and
/// keeps the roster as long as it was, under the same names.
pub proof fn law_run_counts_ticks<H: Fn(&SimulationState) -> bool + Copy>(
    halt_check: H,
    start: SimulationStateView,
    worlds: Seq<SimulationState>,
    trace: Seq<Seq<Reaction>>,
    end: SimulationStateView,
)
    requires
        Simulation::<H>::is_run(halt_check, start, worlds, trace, end),
    ensures
        end.time == start.time + trace.len(),
        end.names == start.names,
        end.agents.len() == start.agents.len(),
{
    lemma_run_upto(halt_check, start, worlds, trace, end, trace.len() as int);
}

/// Before each tick of a run whose halt check answers yes at tick `limit`
/// and at no other, and which starts no later than `limit`, the clock is
/// short of `limit`.
proof fn lemma_timed_run_upto<H: Fn(&SimulationState) -> bool + Copy>(
    halt_check: H,
    start: SimulationStateView,
    worlds: Seq<SimulationState>,
    trace: Seq<Seq<Reaction>>,
    end: SimulationStateView,
    limit: DiscreteTime,
    upto: int,
)
    requires
        Simulation::<H>::is_run(halt_check, start, worlds, trace, end),
        forall|state: SimulationState, answer: bool|
            call_ensures(halt_check, (&state,), answer) ==> answer == (state.time == limit),
        start.time <= limit,
        0 <= upto <= trace.len(),
    ensures
        worlds[upto]@.time <= limit,
    decreases upto,
{
    lemma_run_upto(halt_check, start, worlds, trace, end, upto);
    if upto > 0 {
        lemma_timed_run_upto(halt_check, start, worlds, trace, end, limit, upto - 1);
        lemma_run_upto(halt_check, start, worlds, trace, end, upto - 1);
        assert(trace[upto - 1].len() == worlds[upto - 1]@.agents.len());
        assert(call_ensures(halt_check, (&worlds[upto - 1],), false));
    }
}

/// A run whose halt check answers yes at tick `limit` and at no other, and
/// which starts no later than `limit`, ends as completed and no later than
/// `limit`; unless an agent halts it, it ends at `limit` exactly, after as
/// many ticks as lie between its start and `limit`.
pub proof fn law_timed_run_ends_on_time<H: Fn(&SimulationState) -> bool + Copy>(
    halt_check: H,
    start: SimulationStateView,
    worlds: Seq<SimulationState>,
    trace: Seq<Seq<Reaction>>,
    end: SimulationStateView,
    limit: DiscreteTime,
)
    requires
        Simulation::<H>::is_run(halt_check, start, worlds, trace, end),
        forall|state: SimulationState, answer: bool|
            call_ensures(halt_check, (&state,), answer) ==> answer == (state.time == limit),
        start.time <= limit,
    ensures
        end.mode == SimulationMode::Completed,
        end.time <= limit,
        worlds.last().mode == SimulationMode::Running ==> end.time == limit && trace.len()
            == limit - start.time,
{
    lemma_timed_run_upto(halt_check, start, worlds, trace, end, limit, trace.len() as int);
    lemma_run_upto(halt_check, start, worlds, trace, end, trace.len() as int);
    let last = worlds.last();
    if last.mode == SimulationMode::Running {
        if end.mode == SimulationMode::Failed {
            assert(call_ensures(halt_check, (&last,), false));
        } else {
            assert(call_ensures(halt_check, (&last,), true));
        }
    }
}

/// What a periodic producer issues when it is called: a request to sleep
/// for its period, then one message.
pub open spec fn is_periodic_production(commands: Seq<CommandView>, period: DiscreteTime) -> bool {
    &&& commands.len() == 2
    &&& commands[0] == CommandView::Sleep(period)
    &&& commands[1] is SendMessage
}

/// The number of periods that have begun in a number of ticks: one for
/// every tick if the period is no longer than a tick, and otherwise the
/// number of ticks divided by the period, rounded up.
pub open spec fn periods_begun(ticks: int, period: DiscreteTime) -> int {
    if ticks <= 0 {
        0
    } else if period <= 1 {
        ticks
    } else {
        (ticks - 1) / (period as int) + 1
    }
}

/// Where a periodic producer stands before tick number `j` of a run that
/// started at `start`, after `made` productions: it has produced `made`
/// messages more than the `before` that it began with, and it is asleep
/// since its last production, which began the period that holds tick `j`.
spec fn producer_stands(
    agent: AgentStateView,
    before: nat,
    start: DiscreteTime,
    period: DiscreteTime,
    j: int,
    made: int,
) -> bool {
    let stride = if period == 0 {
        1
    } else {
        period as int
    };
    &&& agent.wake_mode == AgentMode::Proactive
    &&& agent.produced.len() == before + made
    &&& if j == 0 {
        made == 0 && agent.mode == AgentMode::Proactive
    } else {
        &&& made >= 1
        &&& (made - 1) * stride < j <= made * stride
        &&& start + (made - 1) * stride < u64::MAX
        &&& agent.mode == AgentMode::AsleepUntil(
            wake_tick((start + (made - 1) * stride) as u64, period),
        )
    }
}

/// What a periodic producer issues holds one request to sleep and one
/// message.
proof fn lemma_periodic_production(commands: Seq<CommandView>, period: DiscreteTime)
    requires
        is_periodic_production(commands, period),
    ensures
        last_sleep_of(commands) == Some(period),
        messages_of(commands).len() == 1,
{
    let first = commands.drop_last();
    assert(first.len() == 1);
    assert(first.last() == commands[0]);
    assert(first.drop_last().len() == 0);
    assert(commands.last() == commands[1]);
    assert(messages_of(first.drop_last()).len() == 0);
    assert(messages_of(first).len() == 0);
    assert(last_sleep_of(first) == Some(period));
}

/// One tick of a periodic producer: it stands after the tick where the
/// count of its productions says, one more if it was due in the tick.
proof fn lemma_producer_step(
    s: SimulationStateView,
    reactions: Seq<Reaction>,
    i: int,
    before: nat,
    start: DiscreteTime,
    period: DiscreteTime,
    j: int,
    made: int,
) -> (now_made: int)
    requires
        0 <= i < s.agents.len(),
        0 <= j,
        s.time == start + j,
        s.time < u64::MAX,
        producer_stands(s.agents[i], before, start, period, j, made),
        s.woken().agents[i].is_called() ==> is_periodic_production(
            reactions[i].commands,
            period,
        ),
    ensures
        producer_stands(s.tick(reactions).agents[i], before, start, period, j + 1, now_made),
{
    let stride = if period == 0 {
        1
    } else {
        period as int
    };
    let agent = s.agents[i];
    let awake = s.woken().agents[i];
    law_tick_accounts_for_mode(s, reactions, i);
    law_tick_accounts_for_logs(s, reactions, i);
    let due = j == made * stride;
    if j > 0 {
        let last = (start + (made - 1) * stride) as u64;
        assert(made * stride == (made - 1) * stride + stride) by (nonlinear_arith);
        if last + period <= u64::MAX {
            assert(wake_tick(last, period) == last + period);
        } else {
            assert(wake_tick(last, period) == u64::MAX);
        }
        assert(awake.mode == AgentMode::Proactive <==> due);
    }
    if due {
        assert(awake.mode == AgentMode::Proactive);
        assert(awake.is_called());
        lemma_periodic_production(reactions[i].commands, period);
        assert(awake.issued(reactions[i]) == reactions[i].commands);
        assert((made + 1) * stride == made * stride + stride) by (nonlinear_arith);
        assert(s.agents[i].produced.len() + 1 == s.tick(reactions).agents[i].produced.len());
        made + 1
    } else {
        assert(!awake.is_called());
        assert(awake.issued(reactions[i]) =~= Seq::empty());
        assert(s.tick(reactions).agents[i].produced =~= s.agents[i].produced);
        made
    }
}

/// Through the ticks of a run, a periodic producer stands where the count
/// of its productions says.
proof fn lemma_producer_upto<H: Fn(&SimulationState) -> bool + Copy>(
    halt_check: H,
    start: SimulationStateView,
    worlds: Seq<SimulationState>,
    trace: Seq<Seq<Reaction>>,
    end: SimulationStateView,
    i: int,
    period: DiscreteTime,
    upto: int,
) -> (made: int)
    requires
        Simulation::<H>::is_run(halt_check, start, worlds, trace, end),
        0 <= i < start.agents.len(),
        start.agents[i].mode == AgentMode::Proactive,
        start.agents[i].wake_mode == AgentMode::Proactive,
        forall|j: int|
            0 <= j < trace.len() && worlds[j]@.woken().agents[i].is_called()
                ==> is_periodic_production((#[trigger] trace[j])[i].commands, period),
        0 <= upto <= trace.len(),
    ensures
        producer_stands(
            worlds[upto]@.agents[i],
            start.agents[i].produced.len(),
            start.time,
            period,
            upto,
            made,
        ),
    decreases upto,
{
    if upto == 0 {
        0
    } else {
        let made = lemma_producer_upto(halt_check, start, worlds, trace, end, i, period, upto - 1);
        lemma_run_upto(halt_check, start, worlds, trace, end, upto - 1);
        let s = worlds[upto - 1]@;
        assert(trace[upto - 1].len() == s.agents.len());
        assert(worlds[upto]@ == s.tick(trace[upto - 1]));
        lemma_producer_step(
            s,
            trace[upto - 1],
            i,
            start.agents[i].produced.len(),
            start.time,
            period,
            upto - 1,
            made,
        )
    }
}

/// A periodic producer produces once per period. In a run, an agent that
/// starts proactive, wakes proactive, and on every call asks to sleep for
/// `period` and sends one message has, at the end, produced one message for
/// every period that began in the ticks of the run: as many as there were
/// ticks if the period is a tick or less, and otherwise the number of ticks
/// divided by the period, rounded up.
pub proof fn law_periodic_producer<H: Fn(&SimulationState) -> bool + Copy>(
    halt_check: H,
    start: SimulationStateView,
    worlds: Seq<SimulationState>,
    trace: Seq<Seq<Reaction>>,
    end: SimulationStateView,
    i: int,
    period: DiscreteTime,
)
    requires
        Simulation::<H>::is_run(halt_check, start, worlds, trace, end),
        0 <= i < start.agents.len(),
        start.agents[i].mode == AgentMode::Proactive,
        start.agents[i].wake_mode == AgentMode::Proactive,
        forall|j: int|
            0 <= j < trace.len() && worlds[j]@.woken().agents[i].is_called()
                ==> is_periodic_production((#[trigger] trace[j])[i].commands, period),
    ensures
        end.agents[i].produced.len() == start.agents[i].produced.len() + periods_begun(
            trace.len() as int,
            period,
        ),
{
    let ticks = trace.len() as int;
    let made = lemma_producer_upto(halt_check, start, worlds, trace, end, i, period, ticks);
    assert(end.agents == worlds.last()@.agents);
    if ticks > 0 && period > 1 {
        let stride = period as int;
        let rest = ticks - 1 - (made - 1) * stride;
        assert(made * stride == (made - 1) * stride + stride) by (nonlinear_arith);
        vstd::arithmetic::div_mod::lemma_fundamental_div_mod_converse(
            ticks - 1,
            stride,
            made - 1,
            rest,
        );
    } else if ticks > 0 {
        assert((made - 1) * 1 < ticks <= made * 1);
    }
}

/// Asking again gives the same answer: two results of one statistics
/// query on one simulation are the same statistics, whichever of the four
/// queries it is.
pub proof fn law_statistics_repeat<H: Fn(&SimulationState) -> bool + Copy>(
    simulation: Simulation<H>,
    first: Statistics,
    second: Statistics,
)
    requires
        ({
            ||| {
                &&& call_ensures(Simulation::<H>::calc_avg_wait_statistics, (&simulation,), first)
                &&& call_ensures(Simulation::<H>::calc_avg_wait_statistics, (&simulation,), second)
            }
            ||| {
                &&& call_ensures(Simulation::<H>::calc_queue_len_statistics, (&simulation,), first)
                &&& call_ensures(
                    Simulation::<H>::calc_queue_len_statistics,
                    (&simulation,),
                    second,
                )
            }
            ||| {
                &&& call_ensures(
                    Simulation::<H>::calc_consumed_len_statistics,
                    (&simulation,),
                    first,
                )
                &&& call_ensures(
                    Simulation::<H>::calc_consumed_len_statistics,
                    (&simulation,),
                    second,
                )
            }
            ||| {
                &&& call_ensures(
                    Simulation::<H>::calc_produced_len_statistics,
                    (&simulation,),
                    first,
                )
                &&& call_ensures(
                    Simulation::<H>::calc_produced_len_statistics,
                    (&simulation,),
                    second,
                )
            }
        }),
    ensures
        first@ == second@,
{
}

/// At a temperature of zero or below, a candidate that is not strictly
/// better is never accepted: whatever the odds and however a draw comes out,
/// the Metropolis criterion refuses it, and so does every decision that
/// follows the criterion.
pub proof fn law_frozen_search_only_climbs<A: Fn(u64, Temperature) -> Odds>(
    acceptance_odds: A,
    current_score: ObjectiveScore,
    candidate_score: ObjectiveScore,
    temperature: Temperature,
)
    requires
        temperature <= 0,
        candidate_score <= current_score,
    ensures
        forall|odds: Odds, hit: bool|
            !#[trigger] metropolis(current_score, candidate_score, temperature, odds, hit),
        forall|accept: bool|
            #[trigger] follows_metropolis(
                acceptance_odds,
                current_score,
                candidate_score,
                temperature,
                accept,
            ) ==> !accept,
{
}

/// A search by annealing keeps the best: at every stage, the best score
/// on record is no lower than the score of the parameters that were current
/// at that stage or at any stage before it. So the parameters that the
/// search returns score no lower than the first parameters and no lower
/// than any candidate that was accepted.
pub proof fn law_annealing_keeps_the_best<H, G, P, O, F, A>(
    initial_parameters_generator: G,
    perturb_function: P,
    objective_function: O,
    summon_chaotic_flux: F,
    acceptance_odds: A,
    trace: AnnealingTrace<H>,
    stage: int,
    earlier: int,
) where
    H: Fn(&SimulationState) -> bool + Copy,
    G: Fn() -> SimulationParameters<H>,
    P: Fn(&SimulationParameters<H>) -> SimulationParameters<H>,
    O: Fn(&Simulation<H>) -> ObjectiveScore,
    F: Fn(u32) -> Temperature,
    A: Fn(u64, Temperature) -> Odds,

    requires
        is_annealing(
            initial_parameters_generator,
            perturb_function,
            objective_function,
            summon_chaotic_flux,
            acceptance_odds,
            trace,
        ),
        0 <= earlier <= stage < trace.stages.len(),
    ensures
        trace.stages[earlier].current_score <= trace.stages[stage].best_score,
    decreases stage,
{
    if stage > 0 {
        assert(is_annealing_step(
            perturb_function,
            objective_function,
            summon_chaotic_flux,
            acceptance_odds,
            trace,
            stage - 1,
        ));
        law_annealing_keeps_the_best(
            initial_parameters_generator,
            perturb_function,
            objective_function,
            summon_chaotic_flux,
            acceptance_odds,
            trace,
            stage - 1,
            stage - 1,
        );
        if earlier < stage {
            law_annealing_keeps_the_best(
                initial_parameters_generator,
                perturb_function,
                objective_function,
                summon_chaotic_flux,
                acceptance_odds,
                trace,
                stage - 1,
                earlier,
            );
        }
    }
}

} // verus!
