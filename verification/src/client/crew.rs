//! The workers of a client, side by side: what they do together, in whatever order
//! their steps fall.

use crate::client::exchange;
use crate::client::worker::{Answer, Worker, WorkerAction, WorkerPhase};
use crate::server::state;
use vstd::multiset::Multiset;
use vstd::prelude::*;

verus! {

/// The workers of a client that is to transfer `concurrency` files at a time.
pub fn crew(concurrency: usize) -> (r: Vec<Worker>)
    ensures
        r@ == Seq::new(concurrency as nat, |i: int| Worker::start()),
{
    let mut workers: Vec<Worker> = Vec::new();
    while workers.len() < concurrency
        invariant
            workers.len() <= concurrency,
            workers@ == Seq::new(workers@.len(), |i: int| Worker::start()),
        decreases concurrency - workers.len(),
    {
        workers.push(Worker::new());
    }
    workers
}

/// A step of one worker, or the user's wish for an end, which reaches all of them.
pub enum Turn {
    /// The worker of this number does what is next for it. If that is a transfer, it
    /// ends in success or not.
    Act { worker: int, succeeded: bool },
    /// The worker of this number asks for work and gets no answer that it can use. The
    /// request may have reached the server, so that the file in its answer is lost.
    AskFailed { worker: int, reached: bool },
    Interrupt,
}

/// The workers of a client and the server that they ask.
#[verifier::ext_equal]
pub struct Crew {
    pub workers: Seq<Worker>,
    /// The file that each worker transfers, if it is at one.
    pub held: Seq<Option<Seq<char>>>,
    /// The files that wait at the server.
    pub queue: Seq<Seq<char>>,
    /// The files that the server handed out, in that order.
    pub handed: Seq<Seq<char>>,
    /// The files that were handed out in an answer that did not arrive, in that order.
    pub lost: Seq<Seq<char>>,
    /// The files whose transfer is over, whether it succeeded or failed, in that order.
    pub over: Seq<Seq<char>>,
    /// Whether a worker was told that no file is left.
    pub drained: bool,
}

impl Crew {
    /// `n` workers that have not begun, and a server with the files `queue`.
    pub open spec fn start(n: nat, queue: Seq<Seq<char>>) -> Crew {
        Crew {
            workers: Seq::new(n, |i: int| Worker::start()),
            held: Seq::new(n, |i: int| None),
            queue,
            handed: Seq::empty(),
            lost: Seq::empty(),
            over: Seq::empty(),
            drained: false,
        }
    }

    /// The crew after the worker of number `w` asked for work.
    pub open spec fn asked(self, w: int) -> Crew {
        let (status, body) = state::work_given(self.queue);
        match exchange::work_taken(status.number(), body) {
            Ok(Some(path)) => Crew {
                workers: self.workers.update(w, self.workers[w].after_answer(Answer::File)),
                held: self.held.update(w, Some(path)),
                queue: state::work_left(self.queue),
                handed: self.handed.push(path),
                ..self
            },
            _ => Crew {
                workers: self.workers.update(w, self.workers[w].after_answer(Answer::NoneLeft)),
                drained: true,
                ..self
            },
        }
    }

    /// The crew after the worker of number `w` asked for work and its request failed,
    /// having reached the server or not.
    pub open spec fn ask_failed(self, w: int, reached: bool) -> Crew {
        let workers = self.workers.update(w, self.workers[w].after_answer(Answer::Failed));
        if reached && self.queue.len() > 0 {
            Crew {
                workers,
                queue: state::work_left(self.queue),
                handed: self.handed.push(self.queue[0]),
                lost: self.lost.push(self.queue[0]),
                ..self
            }
        } else {
            Crew { workers, ..self }
        }
    }

    /// The crew after the worker of number `w` came to the end of its transfer.
    pub open spec fn transferred(self, w: int, succeeded: bool) -> Crew {
        Crew {
            workers: self.workers.update(w, self.workers[w].after_transfer(succeeded)),
            held: self.held.update(w, None),
            over: self.over.push(self.held[w].unwrap()),
            ..self
        }
    }

    /// The crew after `turn`.
    pub open spec fn next(self, turn: Turn) -> Crew {
        match turn {
            Turn::Act { worker, succeeded } => if 0 <= worker < self.workers.len() {
                match self.workers[worker].due() {
                    WorkerAction::Ask => self.asked(worker),
                    WorkerAction::Transfer => self.transferred(worker, succeeded),
                    WorkerAction::Stop => self,
                }
            } else {
                self
            },
            Turn::AskFailed { worker, reached } => if 0 <= worker < self.workers.len()
                && self.workers[worker].due() == WorkerAction::Ask {
                self.ask_failed(worker, reached)
            } else {
                self
            },
            Turn::Interrupt => Crew {
                workers: self.workers.map_values(|w: Worker| Worker { interrupted: true, ..w }),
                ..self
            },
        }
    }

    /// Whether every worker has stopped.
    pub open spec fn stopped(self) -> bool {
        forall|i: int|
            0 <= i < self.workers.len() ==> (#[trigger] self.workers[i]).due()
                == WorkerAction::Stop
    }

    /// The files under way, each as often as it is.
    pub open spec fn in_flight(self) -> Multiset<Seq<char>> {
        files_held(self.held)
    }
}

/// The files among `held`, each as often as it stands there.
pub open spec fn files_held(held: Seq<Option<Seq<char>>>) -> Multiset<Seq<char>>
    decreases held.len(),
{
    if held.len() == 0 {
        Multiset::empty()
    } else {
        match held.last() {
            Some(path) => files_held(held.drop_last()).insert(path),
            None => files_held(held.drop_last()),
        }
    }
}

/// The number of turns that `worker` still takes if it gets no more files.
pub open spec fn turns_of(worker: Worker) -> nat {
    match worker.phase {
        WorkerPhase::Asking => 1,
        WorkerPhase::Transferring => 2,
        WorkerPhase::Finished => 0,
    }
}

/// The number of turns that `workers` still take if they get no more files.
pub open spec fn turns_owed(workers: Seq<Worker>) -> nat
    decreases workers.len(),
{
    if workers.len() == 0 {
        0
    } else {
        turns_owed(workers.drop_last()) + turns_of(workers.last())
    }
}

/// `n` workers and a server with the files `queue` after `turns`, in that order.
pub open spec fn run(n: nat, queue: Seq<Seq<char>>, turns: Seq<Turn>) -> Crew
    decreases turns.len(),
{
    if turns.len() == 0 {
        Crew::start(n, queue)
    } else {
        run(n, queue, turns.drop_last()).next(turns.last())
    }
}

/// Whether the user never asked for an end and no request for work failed.
pub open spec fn smooth(turns: Seq<Turn>) -> bool {
    forall|i: int| 0 <= i < turns.len() ==> #[trigger] turns[i] is Act
}

proof fn lemma_files_held_at(held: Seq<Option<Seq<char>>>, w: int)
    requires
        0 <= w < held.len(),
    ensures
        files_held(held) == (match held[w] {
            Some(path) => files_held(held.update(w, None)).insert(path),
            None => files_held(held.update(w, None)),
        }),
    decreases held.len(),
{
    let without = held.update(w, None);
    if w == held.len() - 1 {
        assert(without.drop_last() =~= held.drop_last());
    } else {
        lemma_files_held_at(held.drop_last(), w);
        assert(without.drop_last() =~= held.drop_last().update(w, None));
        assert(without.last() == held.last());
        assert(held.drop_last()[w] == held[w]);
        assert(files_held(held) =~= match held[w] {
            Some(path) => files_held(without).insert(path),
            None => files_held(without),
        });
    }
}

proof fn lemma_files_held_bound(held: Seq<Option<Seq<char>>>)
    ensures
        files_held(held).len() <= held.len(),
    decreases held.len(),
{
    if held.len() > 0 {
        lemma_files_held_bound(held.drop_last());
    }
}

proof fn lemma_none_held(held: Seq<Option<Seq<char>>>)
    requires
        forall|i: int| 0 <= i < held.len() ==> (#[trigger] held[i]) is None,
    ensures
        files_held(held) == Multiset::<Seq<char>>::empty(),
    decreases held.len(),
{
    if held.len() > 0 {
        assert(held[held.len() - 1] is None);
        lemma_none_held(held.drop_last());
    }
}

proof fn lemma_crew(n: nat, queue: Seq<Seq<char>>, turns: Seq<Turn>)
    ensures
        ({
            let c = run(n, queue, turns);
            &&& c.workers.len() == n && c.held.len() == n
            &&& forall|i: int|
                0 <= i < n ==> ((#[trigger] c.held[i]) is Some <==> c.workers[i].phase
                    == WorkerPhase::Transferring)
            &&& c.drained ==> c.queue.len() == 0
            &&& c.handed + c.queue == queue
            &&& c.over.to_multiset().add(c.in_flight()).add(c.lost.to_multiset())
                == c.handed.to_multiset()
        }),
    decreases turns.len(),
{
    if turns.len() == 0 {
        let c = Crew::start(n, queue);
        assert(c.handed + c.queue =~= queue);
        lemma_none_held(c.held);
        c.lost.to_multiset_ensures();
        assert(c.lost.to_multiset() =~= Multiset::empty());
        assert(c.over.to_multiset().add(c.in_flight()).add(c.lost.to_multiset())
            =~= c.handed.to_multiset());
    } else {
        let b = run(n, queue, turns.drop_last());
        let c = run(n, queue, turns);
        lemma_crew(n, queue, turns.drop_last());
        b.handed.to_multiset_ensures();
        b.lost.to_multiset_ensures();
        b.over.to_multiset_ensures();
        match turns.last() {
            Turn::Act { worker, succeeded } => {
                if 0 <= worker < n {
                    lemma_files_held_at(b.held, worker);
                    lemma_files_held_at(c.held, worker);
                    assert(b.held.update(worker, None) =~= c.held.update(worker, None));
                    match b.workers[worker].due() {
                        WorkerAction::Ask => {
                            if b.queue.len() > 0 {
                                assert(c.handed + c.queue =~= b.handed + b.queue);
                            }
                        },
                        WorkerAction::Transfer => {
                            assert(b.held[worker] is Some);
                        },
                        WorkerAction::Stop => {},
                    }
                }
            },
            Turn::AskFailed { worker, reached } => {
                assert(c.handed + c.queue =~= b.handed + b.queue);
            },
            Turn::Interrupt => {
                assert(forall|i: int|
                    0 <= i < n ==> (#[trigger] c.workers[i]).phase == b.workers[i].phase);
            },
        }
        assert(c.over.to_multiset().add(c.in_flight()).add(c.lost.to_multiset())
            =~= c.handed.to_multiset());
    }
}

proof fn lemma_smooth_crew(n: nat, queue: Seq<Seq<char>>, turns: Seq<Turn>)
    requires
        smooth(turns),
    ensures
        ({
            let c = run(n, queue, turns);
            &&& c.workers.len() == n
            &&& c.lost == Seq::<Seq<char>>::empty()
            &&& forall|i: int|
                0 <= i < n ==> {
                    &&& !(#[trigger] c.workers[i]).interrupted
                    &&& c.workers[i].phase == WorkerPhase::Finished ==> c.drained
                }
        }),
    decreases turns.len(),
{
    if turns.len() > 0 {
        assert(turns[turns.len() - 1] is Act);
        assert forall|i: int| 0 <= i < turns.drop_last().len() implies #[trigger]
            turns.drop_last()[i] is Act by {
            assert(turns[i] is Act);
        }
        lemma_smooth_crew(n, queue, turns.drop_last());
    }
}

/// In whatever order `n` workers take their turns, and whatever fails in them, no more
/// than `n` transfers are under way, and each file is handed out once, in the order of
/// the queue. Each file handed out is under way, or its transfer is over, in success or
/// not, or it was lost with the answer that named it: one of these, once.
pub proof fn law_crew_shares_the_work(n: nat, queue: Seq<Seq<char>>, turns: Seq<Turn>)
    ensures
        ({
            let c = run(n, queue, turns);
            &&& c.workers.len() == n
            &&& c.in_flight().len() <= n
            &&& c.handed + c.queue == queue
            &&& c.over.to_multiset().add(c.in_flight()).add(c.lost.to_multiset())
                == c.handed.to_multiset()
        }),
{
    lemma_crew(n, queue, turns);
    lemma_files_held_bound(run(n, queue, turns).held);
}

/// When all workers have stopped and one of them was told that no file is left, every
/// file of the queue was handed out and its transfer is over, in success or not, each as
/// often as the queue lists it, but for the files that were lost with an answer.
/// Interruptions and requests that failed may have come in between.
pub proof fn law_drained_crew_transfers_all(n: nat, queue: Seq<Seq<char>>, turns: Seq<Turn>)
    requires
        run(n, queue, turns).drained,
        run(n, queue, turns).stopped(),
    ensures
        run(n, queue, turns).handed == queue,
        run(n, queue, turns).over.to_multiset().add(run(n, queue, turns).lost.to_multiset())
            == queue.to_multiset(),
{
    lemma_crew(n, queue, turns);
    let c = run(n, queue, turns);
    assert(c.handed =~= queue);
    assert forall|i: int| 0 <= i < c.held.len() implies (#[trigger] c.held[i]) is None by {
        assert(c.workers[i].due() == WorkerAction::Stop);
    }
    lemma_none_held(c.held);
    assert(c.over.to_multiset().add(c.lost.to_multiset()) =~= queue.to_multiset());
}

/// When all of at least one worker have stopped, uninterrupted, and no request for work
/// failed, the transfer of every file of the queue is over, in success or not, each as
/// often as the queue lists it, and that of nothing else.
pub proof fn law_crew_transfers_all(n: nat, queue: Seq<Seq<char>>, turns: Seq<Turn>)
    requires
        n >= 1,
        smooth(turns),
        run(n, queue, turns).stopped(),
    ensures
        run(n, queue, turns).drained,
        run(n, queue, turns).lost.len() == 0,
        run(n, queue, turns).handed == queue,
        run(n, queue, turns).over.to_multiset() == queue.to_multiset(),
{
    lemma_smooth_crew(n, queue, turns);
    let c = run(n, queue, turns);
    assert(c.workers[0].due() == WorkerAction::Stop);
    law_drained_crew_transfers_all(n, queue, turns);
    assert(c.over.to_multiset() =~= c.over.to_multiset().add(c.lost.to_multiset())) by {
        c.lost.to_multiset_ensures();
    }
}

/// The number of workers makes no difference to which files are transferred, nor does
/// the order of their steps: if in both of two runs all workers have stopped, a worker
/// was told that no file is left, and no file was lost with an answer, the same files
/// were transferred, in success or not. Where some were lost, those that were
/// transferred and those that were lost make up the same files.
pub proof fn law_worker_count_makes_no_difference(
    queue: Seq<Seq<char>>,
    n: nat,
    turns: Seq<Turn>,
    m: nat,
    others: Seq<Turn>,
)
    requires
        run(n, queue, turns).drained,
        run(n, queue, turns).stopped(),
        run(m, queue, others).drained,
        run(m, queue, others).stopped(),
    ensures
        ({
            let one = run(n, queue, turns);
            let other = run(m, queue, others);
            &&& one.over.to_multiset().add(one.lost.to_multiset())
                == other.over.to_multiset().add(other.lost.to_multiset())
            &&& one.lost.len() == 0 && other.lost.len() == 0 ==> one.over.to_multiset()
                == other.over.to_multiset()
        }),
{
    law_drained_crew_transfers_all(n, queue, turns);
    law_drained_crew_transfers_all(m, queue, others);
    let one = run(n, queue, turns);
    let other = run(m, queue, others);
    one.lost.to_multiset_ensures();
    other.lost.to_multiset_ensures();
    if one.lost.len() == 0 && other.lost.len() == 0 {
        assert(one.over.to_multiset() =~= one.over.to_multiset().add(one.lost.to_multiset()));
        assert(other.over.to_multiset() =~= other.over.to_multiset().add(other.lost.to_multiset()));
    }
}

proof fn lemma_turns_owed_at(workers: Seq<Worker>, w: int, worker: Worker)
    requires
        0 <= w < workers.len(),
    ensures
        turns_owed(workers.update(w, worker)) == turns_owed(workers) - turns_of(workers[w])
            + turns_of(worker),
    decreases workers.len(),
{
    let changed = workers.update(w, worker);
    if w == workers.len() - 1 {
        assert(changed.drop_last() =~= workers.drop_last());
    } else {
        lemma_turns_owed_at(workers.drop_last(), w, worker);
        assert(changed.drop_last() =~= workers.drop_last().update(w, worker));
    }
}

proof fn lemma_turns_owed_none(workers: Seq<Worker>)
    requires
        turns_owed(workers) == 0,
    ensures
        forall|i: int|
            0 <= i < workers.len() ==> (#[trigger] workers[i]).phase == WorkerPhase::Finished,
    decreases workers.len(),
{
    if workers.len() > 0 {
        lemma_turns_owed_none(workers.drop_last());
        assert forall|i: int| 0 <= i < workers.len() implies (#[trigger] workers[i]).phase
            == WorkerPhase::Finished by {
            if i < workers.len() - 1 {
                assert(workers.drop_last()[i] == workers[i]);
            }
        }
    }
}

/// A crew comes to an end: each turn of a worker that has not stopped leaves one turn
/// fewer to take, counting two for each file that waits, and a request that fails leaves
/// fewer too. When none is left every worker has stopped.
pub proof fn law_crew_comes_to_an_end(c: Crew, w: int, outcome: bool)
    ensures
        0 <= w < c.workers.len() && c.workers[w].due() != WorkerAction::Stop ==> {
            let then = c.next(Turn::Act { worker: w, succeeded: outcome });
            2 * then.queue.len() + turns_owed(then.workers) == 2 * c.queue.len() + turns_owed(
                c.workers,
            ) - 1
        },
        0 <= w < c.workers.len() && c.workers[w].due() == WorkerAction::Ask ==> {
            let then = c.next(Turn::AskFailed { worker: w, reached: outcome });
            2 * then.queue.len() + turns_owed(then.workers) < 2 * c.queue.len() + turns_owed(
                c.workers,
            )
        },
        2 * c.queue.len() + turns_owed(c.workers) == 0 ==> c.stopped(),
{
    if 0 <= w < c.workers.len() && c.workers[w].due() != WorkerAction::Stop {
        let then = c.next(Turn::Act { worker: w, succeeded: outcome });
        lemma_turns_owed_at(c.workers, w, then.workers[w]);
        assert(then.workers =~= c.workers.update(w, then.workers[w]));
    }
    if 0 <= w < c.workers.len() && c.workers[w].due() == WorkerAction::Ask {
        let then = c.next(Turn::AskFailed { worker: w, reached: outcome });
        lemma_turns_owed_at(c.workers, w, then.workers[w]);
        assert(then.workers =~= c.workers.update(w, then.workers[w]));
    }
    if turns_owed(c.workers) == 0 {
        lemma_turns_owed_none(c.workers);
    }
}

} // verus!
