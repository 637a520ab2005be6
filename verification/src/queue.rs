//! Taking commands from a queue in which a newer request of one kind stands for the
//! older ones right before it.
use std::collections::VecDeque;

use vstd::prelude::*;

verus! {

/// A command that may be replaced by a later one of its kind.
pub trait QueuedCommand: Sized {
    /// Whether a command that follows at once and is replaceable too stands for this
    /// one.
    spec fn spec_replaceable(&self) -> bool;

    /// Whether a command that follows at once and is replaceable too stands for this
    /// one.
    fn replaceable(&self) -> (replaceable: bool)
        ensures
            replaceable == self.spec_replaceable(),
    ;
}

/// How many replaceable commands stand at the front of a queue.
pub open spec fn run_len<C: QueuedCommand>(queue: Seq<C>) -> nat
    decreases queue.len(),
{
    if queue.len() == 0 || !queue.first().spec_replaceable() {
        0
    } else {
        1 + run_len(queue.drop_first())
    }
}

/// A command taken from two queues, and what they hold then.
pub struct Taken<C> {
    pub command: C,
    pub deferred: Seq<C>,
    pub incoming: Seq<C>,
}

/// What is taken when `first` was at the front of the incoming commands: `first`, or
/// the last of the replaceable commands that follow it at once. The command after those
/// waits its turn among the deferred ones.
pub open spec fn taken_with<C: QueuedCommand>(
    first: C,
    deferred: Seq<C>,
    incoming: Seq<C>,
) -> Taken<C> {
    if !first.spec_replaceable() {
        Taken { command: first, deferred, incoming }
    } else {
        let run = run_len(incoming) as int;
        let command = if run == 0 {
            first
        } else {
            incoming[run - 1]
        };
        if run == incoming.len() {
            Taken { command, deferred, incoming: Seq::empty() }
        } else {
            Taken {
                command,
                deferred: deferred.push(incoming[run]),
                incoming: incoming.skip(run + 1),
            }
        }
    }
}

/// What is taken next: a deferred command before an incoming one.
pub open spec fn taken<C: QueuedCommand>(deferred: Seq<C>, incoming: Seq<C>) -> Option<Taken<C>> {
    if deferred.len() > 0 {
        Some(taken_with(deferred.first(), deferred.drop_first(), incoming))
    } else if incoming.len() > 0 {
        Some(taken_with(incoming.first(), deferred, incoming.drop_first()))
    } else {
        None
    }
}

/// Takes the next command from commands that have come in and those that were deferred;
/// nothing where there is none.
pub fn next_queued<C: QueuedCommand>(
    incoming: &mut VecDeque<C>,
    deferred: &mut VecDeque<C>,
) -> (command: Option<C>)
    ensures
        match taken(old(deferred)@, old(incoming)@) {
            Some(next) => {
                &&& command == Some(next.command)
                &&& final(deferred)@ == next.deferred
                &&& final(incoming)@ == next.incoming
            },
            None => {
                &&& command is None
                &&& final(deferred)@ == old(deferred)@
                &&& final(incoming)@ == old(incoming)@
            },
        },
{
    let ghost old_deferred = deferred@;
    let ghost old_incoming = incoming@;
    let mut command: C = match deferred.pop_front() {
        Some(command) => {
            proof {
                assert(deferred@ =~= old_deferred.drop_first());
            }
            command
        },
        None => match incoming.pop_front() {
            Some(command) => {
                proof {
                    assert(incoming@ =~= old_incoming.drop_first());
                }
                command
            },
            None => {
                return None;
            },
        },
    };
    let ghost first = command;
    let ghost waiting = deferred@;
    let ghost pending = incoming@;
    if command.replaceable() {
        let ghost mut run: int = 0;
        proof {
            run_is_bounded(pending);
            assert(pending.skip(0) =~= pending);
        }
        loop
            invariant_except_break
                first.spec_replaceable(),
                0 <= run <= run_len(pending) <= pending.len(),
                run_len(pending) == run + run_len(incoming@),
                incoming@ == pending.skip(run),
                deferred@ == waiting,
                command == if run == 0 {
                    first
                } else {
                    pending[run - 1]
                },
            ensures
                command == taken_with(first, waiting, pending).command,
                deferred@ == taken_with(first, waiting, pending).deferred,
                incoming@ == taken_with(first, waiting, pending).incoming,
            decreases incoming@.len(),
        {
            let ghost before = incoming@;
            match incoming.pop_front() {
                None => {
                    proof {
                        assert(incoming@ =~= Seq::empty());
                    }
                    break ;
                },
                Some(next) => {
                    proof {
                        assert(next == pending[run]);
                        assert(incoming@ =~= before.drop_first());
                        assert(incoming@ =~= pending.skip(run + 1));
                    }
                    if next.replaceable() {
                        command = next;
                        proof {
                            run_is_bounded(incoming@);
                            run = run + 1;
                        }
                    } else {
                        deferred.push_back(next);
                        proof {
                            assert(deferred@ =~= waiting.push(pending[run]));
                        }
                        break ;
                    }
                },
            }
        }
    }
    Some(command)
}

/// The commands of a queue that nothing replaces, in their order.
pub open spec fn lasting<C: QueuedCommand>(queue: Seq<C>) -> Seq<C>
    decreases queue.len(),
{
    if queue.len() == 0 {
        Seq::empty()
    } else if queue.first().spec_replaceable() {
        lasting(queue.drop_first())
    } else {
        seq![queue.first()] + lasting(queue.drop_first())
    }
}

/// Whether every command of a queue is one that nothing replaces.
pub open spec fn all_lasting<C: QueuedCommand>(queue: Seq<C>) -> bool {
    forall|i: int| 0 <= i < queue.len() ==> !(#[trigger] queue[i]).spec_replaceable()
}

/// At most one command is ever deferred, and never a replaceable one.
pub proof fn one_lasting_command_is_deferred<C: QueuedCommand>(deferred: Seq<C>, incoming: Seq<C>)
    requires
        deferred.len() <= 1,
        all_lasting(deferred),
        taken(deferred, incoming) is Some,
    ensures
        taken(deferred, incoming).unwrap().deferred.len() <= 1,
        all_lasting(taken(deferred, incoming).unwrap().deferred),
{
    if deferred.len() == 0 {
        run_is_bounded(incoming.drop_first());
    }
}

/// Commands that nothing replaces are all taken, in the order in which they came in.
pub proof fn lasting_commands_keep_their_order<C: QueuedCommand>(
    deferred: Seq<C>,
    incoming: Seq<C>,
)
    requires
        all_lasting(deferred),
        taken(deferred, incoming) is Some,
    ensures
        ({
            let next = taken(deferred, incoming).unwrap();
            lasting(deferred + incoming) == lasting(
                seq![next.command] + next.deferred + next.incoming,
            )
        }),
{
    let next = taken(deferred, incoming).unwrap();
    let after = seq![next.command] + next.deferred + next.incoming;
    if deferred.len() > 0 {
        assert(after =~= deferred + incoming);
    } else {
        let first = incoming.first();
        let rest = incoming.drop_first();
        assert(deferred + incoming =~= incoming);
        assert(after.drop_first() =~= next.deferred + next.incoming);
        if first.spec_replaceable() {
            run_is_bounded(rest);
            run_holds_nothing_lasting(rest);
            let run = run_len(rest) as int;
            assert(lasting(incoming) == lasting(rest.skip(run)));
            assert(next.command.spec_replaceable());
            assert(next.deferred + next.incoming =~= rest.skip(run));
        } else {
            assert(after =~= incoming);
        }
    }
}

/// A replaceable command is taken only where no newer one waits right behind it.
pub proof fn newest_of_a_run_is_taken<C: QueuedCommand>(deferred: Seq<C>, incoming: Seq<C>)
    requires
        all_lasting(deferred),
        taken(deferred, incoming) is Some,
        taken(deferred, incoming).unwrap().command.spec_replaceable(),
    ensures
        ({
            let next = taken(deferred, incoming).unwrap();
            next.deferred.len() > 0 || next.incoming.len() == 0
        }),
{
}

/// A queue in which only the last command of each run of replaceable ones is left.
pub open spec fn condensed<C: QueuedCommand>(queue: Seq<C>) -> Seq<C>
    decreases queue.len(),
{
    if queue.len() == 0 {
        Seq::empty()
    } else if queue.first().spec_replaceable() && queue.len() > 1
        && queue[1].spec_replaceable() {
        condensed(queue.drop_first())
    } else {
        seq![queue.first()] + condensed(queue.drop_first())
    }
}

/// All commands that are taken, one after the other, until none is left.
pub open spec fn drained<C: QueuedCommand>(deferred: Seq<C>, incoming: Seq<C>) -> Seq<C>
    decreases deferred.len() + incoming.len(),
{
    match taken(deferred, incoming) {
        None => Seq::empty(),
        Some(next) => {
            proof {
                run_is_bounded(incoming);
                if deferred.len() == 0 && incoming.len() > 0 {
                    run_is_bounded(incoming.drop_first());
                }
            }
            seq![next.command] + drained(next.deferred, next.incoming)
        },
    }
}

/// A queue taken to its end gives the last command of each run of replaceable ones, and
/// every other command once, all in the order in which they came in.
pub proof fn queue_comes_out_condensed<C: QueuedCommand>(deferred: Seq<C>, incoming: Seq<C>)
    requires
        all_lasting(deferred),
    ensures
        drained(deferred, incoming) == condensed(deferred + incoming),
    decreases deferred.len() + incoming.len(),
{
    let all = deferred + incoming;
    if deferred.len() > 0 {
        let next = taken(deferred, incoming).unwrap();
        assert(all.drop_first() =~= next.deferred + next.incoming);
        assert forall|i: int| 0 <= i < next.deferred.len() implies !(
        #[trigger] next.deferred[i]).spec_replaceable() by {
            assert(next.deferred[i] == deferred[i + 1]);
        }
        queue_comes_out_condensed(next.deferred, next.incoming);
    } else if incoming.len() > 0 {
        let next = taken(deferred, incoming).unwrap();
        let rest = incoming.drop_first();
        assert(all =~= incoming);
        run_is_bounded(rest);
        if incoming.first().spec_replaceable() {
            let run = run_len(rest) as int;
            run_condenses(incoming);
            assert(next.deferred + next.incoming =~= rest.skip(run));
        } else {
            assert(next.deferred + next.incoming =~= rest);
        }
        queue_comes_out_condensed(next.deferred, next.incoming);
    }
}

proof fn run_condenses<C: QueuedCommand>(queue: Seq<C>)
    requires
        queue.len() > 0,
        queue.first().spec_replaceable(),
    ensures
        run_len(queue.drop_first()) < queue.len(),
        condensed(queue) == seq![queue[run_len(queue.drop_first()) as int]] + condensed(
            queue.drop_first().skip(run_len(queue.drop_first()) as int),
        ),
    decreases queue.len(),
{
    let rest = queue.drop_first();
    run_is_bounded(rest);
    if rest.len() > 0 && rest.first().spec_replaceable() {
        run_condenses(rest);
        let run = run_len(rest.drop_first()) as int;
        assert(rest[run] == queue[run + 1]);
        assert(rest.drop_first().skip(run) =~= rest.skip(run + 1));
    } else {
        assert(rest.skip(0) =~= rest);
    }
}

proof fn run_holds_nothing_lasting<C: QueuedCommand>(queue: Seq<C>)
    ensures
        lasting(queue) == lasting(queue.skip(run_len(queue) as int)),
    decreases queue.len(),
{
    if queue.len() > 0 && queue.first().spec_replaceable() {
        let rest = queue.drop_first();
        run_holds_nothing_lasting(rest);
        run_is_bounded(rest);
        assert(rest.skip(run_len(rest) as int) =~= queue.skip(run_len(queue) as int));
    } else {
        assert(queue.skip(0) =~= queue);
    }
}

/// A run is no longer than its queue, holds replaceable commands, and ends where the queue
/// does or before a command that nothing replaces.
pub proof fn run_is_bounded<C: QueuedCommand>(queue: Seq<C>)
    ensures
        run_len(queue) <= queue.len(),
        forall|i: int| 0 <= i < run_len(queue) ==> (#[trigger] queue[i]).spec_replaceable(),
        run_len(queue) < queue.len() ==> !queue[run_len(queue) as int].spec_replaceable(),
    decreases queue.len(),
{
    if queue.len() > 0 && queue.first().spec_replaceable() {
        run_is_bounded(queue.drop_first());
        assert forall|i: int| 0 <= i < run_len(queue) implies (
        #[trigger] queue[i]).spec_replaceable() by {
            if i > 0 {
                assert(queue[i] == queue.drop_first()[i - 1]);
            }
        }
    }
}

/// What is taken from a queue with nothing deferred: its first command, if nothing
/// replaces that; otherwise the last of the `run` replaceable commands that it begins
/// with, all of which are gone then, and the command behind them is deferred.
pub proof fn runs_give_their_last_command<C: QueuedCommand>(queue: Seq<C>, run: int)
    requires
        0 <= run <= queue.len(),
        queue.len() > 0,
        forall|i: int| 0 <= i < run ==> (#[trigger] queue[i]).spec_replaceable(),
        run < queue.len() ==> !queue[run].spec_replaceable(),
    ensures
        taken(Seq::empty(), queue) matches Some(next) && {
            &&& run == 0 ==> next.command == queue[0] && next.deferred.len() == 0 && next.incoming
                == queue.skip(1)
            &&& run > 0 ==> next.command == queue[run - 1]
            &&& 0 < run < queue.len() ==> next.deferred == seq![queue[run]] && next.incoming
                == queue.skip(run + 1)
            &&& run == queue.len() ==> next.deferred.len() == 0 && next.incoming.len() == 0
        },
{
    let rest = queue.drop_first();
    assert(queue.skip(1) =~= rest);
    if run > 0 {
        run_is_bounded(rest);
        let len = run_len(rest) as int;
        if len < run - 1 {
            assert(rest[len] == queue[len + 1]);
            assert(queue[len + 1].spec_replaceable());
        } else if len > run - 1 {
            assert(rest[run - 1] == queue[run]);
            assert(rest[run - 1].spec_replaceable());
        }
        assert(queue[0].spec_replaceable());
        if run < queue.len() {
            assert(rest.skip(len + 1) =~= queue.skip(run + 1));
            assert(Seq::<C>::empty().push(rest[len]) =~= seq![queue[run]]);
        }
    }
}

/// A deferred command that nothing replaces is taken before all others, which stay as they
/// are.
pub proof fn deferred_commands_come_first<C: QueuedCommand>(deferred: Seq<C>, incoming: Seq<C>)
    requires
        deferred.len() > 0,
        !deferred[0].spec_replaceable(),
    ensures
        taken(deferred, incoming) matches Some(next) && next.command == deferred[0]
            && next.deferred == deferred.skip(1) && next.incoming == incoming,
        taken(Seq::<C>::empty(), Seq::<C>::empty()) is None,
{
    assert(deferred.skip(1) =~= deferred.drop_first());
}

} // verus!
