//! One of the workers that transfer files side by side: what it does next, and
//! when it stops.

use crate::client::config::Mode;
use crate::client::transfer;
use crate::client::transfer::FileTransferClient;
use vstd::prelude::*;

verus! {

/// The transfer of one file.
pub enum Task {
    /// The server's file `remote` is stored as `local`.
    Download { remote: String, local: String },
    /// The local file `source` is sent under the path `remote`, which is mapped as
    /// every path of an upload is.
    Upload { source: String, remote: String },
}

/// The transfer that the file `path` of the server asks for. Its place on the
/// client is the mapping of `path` for a pull, whichever way the file goes.
pub fn plan(client: &FileTransferClient, mode: Mode, path: String) -> (r: Task)
    ensures
        match r {
            Task::Download { remote, local } => {
                &&& mode == Mode::Pull
                &&& remote == path
                &&& local@ == transfer::remapped(client.remapping(), path@, Mode::Pull)
            },
            Task::Upload { source, remote } => {
                &&& mode == Mode::Push
                &&& source@ == transfer::remapped(client.remapping(), path@, Mode::Pull)
                &&& remote@ == source@
            },
        },
{
    let local = client.apply_remap(path.as_str(), Mode::Pull);
    match mode {
        Mode::Pull => Task::Download { remote: path, local },
        Mode::Push => Task::Upload { remote: local.clone(), source: local },
    }
}

/// A file that is pushed arrives at the path of the server that asked for it. It
/// holds of every path but those that only a push maps.
pub proof fn law_push_arrives_where_asked(remap: Option<(Seq<char>, Seq<char>)>, path: Seq<char>)
    requires
        transfer::remapped(remap, path, Mode::Pull) == path ==> transfer::remapped(
            remap,
            path,
            Mode::Push,
        ) == path,
    ensures
        transfer::remapped(remap, transfer::remapped(remap, path, Mode::Pull), Mode::Push) == path,
{
    transfer::law_remap_round_trip(remap, path, Mode::Pull, Mode::Push);
}

/// What a worker is at.
#[derive(Clone, Copy, Debug, PartialEq, Eq, Structural)]
pub enum WorkerPhase {
    /// It is about to ask for a file, or waits for the answer.
    Asking,
    /// It transfers a file.
    Transferring,
    /// It is done.
    Finished,
}

/// What a worker does next.
#[derive(Clone, Copy, Debug, PartialEq, Eq, Structural)]
pub enum WorkerAction {
    Ask,
    Transfer,
    Stop,
}

/// One worker.
#[derive(Clone, Copy, Debug, PartialEq, Eq, Structural)]
pub struct Worker {
    pub phase: WorkerPhase,
    /// Whether the user asked for an end.
    pub interrupted: bool,
    /// The number of files transferred.
    pub completed: u64,
    /// The number of files whose transfer failed.
    pub failed: u64,
}

/// The answer to a request for work.
#[derive(Clone, Copy, Debug, PartialEq, Eq, Structural)]
pub enum Answer {
    /// There is a file to transfer.
    File,
    /// There is none left.
    NoneLeft,
    /// The request failed.
    Failed,
}

impl Worker {
    /// A worker that has not begun.
    pub open spec fn start() -> Worker {
        Worker { phase: WorkerPhase::Asking, interrupted: false, completed: 0, failed: 0 }
    }

    /// What the worker does next: it asks for no more work once it is interrupted.
    pub open spec fn due(self) -> WorkerAction {
        match self.phase {
            WorkerPhase::Asking => if self.interrupted {
                WorkerAction::Stop
            } else {
                WorkerAction::Ask
            },
            WorkerPhase::Transferring => WorkerAction::Transfer,
            WorkerPhase::Finished => WorkerAction::Stop,
        }
    }

    /// The worker after the answer to a request for work.
    pub open spec fn after_answer(self, answer: Answer) -> Worker {
        Worker {
            phase: if answer == Answer::File {
                WorkerPhase::Transferring
            } else {
                WorkerPhase::Finished
            },
            ..self
        }
    }

    /// The worker after a transfer. The counts stay at the greatest number that they
    /// can hold.
    pub open spec fn after_transfer(self, succeeded: bool) -> Worker {
        Worker {
            phase: WorkerPhase::Asking,
            completed: if succeeded && self.completed < u64::MAX {
                (self.completed + 1) as u64
            } else {
                self.completed
            },
            failed: if !succeeded && self.failed < u64::MAX {
                (self.failed + 1) as u64
            } else {
                self.failed
            },
            ..self
        }
    }

    /// A worker that has not begun.
    pub fn new() -> (r: Self)
        ensures
            r == Worker::start(),
    {
        Worker { phase: WorkerPhase::Asking, interrupted: false, completed: 0, failed: 0 }
    }

    /// What the worker does next.
    pub fn action(&self) -> (r: WorkerAction)
        ensures
            r == self.due(),
    {
        match self.phase {
            WorkerPhase::Asking => if self.interrupted {
                WorkerAction::Stop
            } else {
                WorkerAction::Ask
            },
            WorkerPhase::Transferring => WorkerAction::Transfer,
            WorkerPhase::Finished => WorkerAction::Stop,
        }
    }

    /// Takes in that the user asked for an end.
    pub fn interrupt(&mut self)
        ensures
            *final(self) == (Worker { interrupted: true, ..*old(self) }),
    {
        self.interrupted = true;
    }

    /// Takes in the answer to a request for work. A file that was handed out is
    /// transferred, even if an end was asked for meanwhile.
    pub fn answered(&mut self, answer: Answer)
        requires
            old(self).phase == WorkerPhase::Asking,
        ensures
            *final(self) == old(self).after_answer(answer),
    {
        match answer {
            Answer::File => {
                self.phase = WorkerPhase::Transferring;
            },
            _ => {
                self.phase = WorkerPhase::Finished;
            },
        }
    }

    /// Takes in the end of a transfer. The counts stay at the greatest number that
    /// they can hold.
    pub fn transferred(&mut self, succeeded: bool)
        requires
            old(self).phase == WorkerPhase::Transferring,
        ensures
            *final(self) == old(self).after_transfer(succeeded),
    {
        self.phase = WorkerPhase::Asking;
        if succeeded {
            self.completed = self.completed.saturating_add(1);
        } else {
            self.failed = self.failed.saturating_add(1);
        }
    }
}

/// An interrupted worker asks for no more files. One that is at a transfer carries
/// it through, and stops when it is done, however that ends.
pub proof fn law_interrupted_worker_winds_down(w: Worker, succeeded: bool)
    requires
        w.interrupted,
    ensures
        w.due() != WorkerAction::Ask,
        w.phase == WorkerPhase::Transferring ==> {
            &&& w.due() == WorkerAction::Transfer
            &&& w.after_transfer(succeeded).due() == WorkerAction::Stop
        },
{
}

/// A worker asks for work if and only if it is at no transfer, has not finished and is not
/// interrupted, and it transfers if and only if it was handed a file.
pub proof fn law_worker_does_what_is_next(w: Worker)
    ensures
        w.due() == WorkerAction::Ask <==> w.phase == WorkerPhase::Asking && !w.interrupted,
        w.due() == WorkerAction::Transfer <==> w.phase == WorkerPhase::Transferring,
        w.due() == WorkerAction::Stop <==> w.phase == WorkerPhase::Finished || (w.phase
            == WorkerPhase::Asking && w.interrupted),
        Worker::start().due() == WorkerAction::Ask,
        Worker::start().completed == 0 && Worker::start().failed == 0,
{
}

/// A worker that is handed a file transfers it next, and one that is told that none is left,
/// or whose request failed, stops. Nothing is counted and an interruption is not forgotten.
pub proof fn law_worker_follows_the_answer(w: Worker, answer: Answer)
    ensures
        answer == Answer::File ==> w.after_answer(answer).due() == WorkerAction::Transfer,
        answer == Answer::NoneLeft || answer == Answer::Failed ==> w.after_answer(answer).due()
            == WorkerAction::Stop && w.after_answer(answer).phase == WorkerPhase::Finished,
        w.after_answer(answer).interrupted == w.interrupted,
        w.after_answer(answer).completed == w.completed,
        w.after_answer(answer).failed == w.failed,
{
}

/// Each transfer is counted once, as a success or as a failure, unless that count is at the
/// greatest number that it can hold. Then the worker asks again, unless it is interrupted.
pub proof fn law_worker_counts_each_transfer(w: Worker, succeeded: bool)
    ensures
        ({
            let then = w.after_transfer(succeeded);
            &&& succeeded && w.completed < u64::MAX ==> then.completed == w.completed + 1
            &&& !succeeded && w.failed < u64::MAX ==> then.failed == w.failed + 1
            &&& !succeeded || w.completed == u64::MAX ==> then.completed == w.completed
            &&& succeeded || w.failed == u64::MAX ==> then.failed == w.failed
            &&& then.interrupted == w.interrupted
            &&& then.phase == WorkerPhase::Asking
        }),
{
}

} // verus!
