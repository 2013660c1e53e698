//! The queue of the files that are waiting to be handed out.

use crate::text;
use std::collections::VecDeque;
use vstd::prelude::*;

verus! {

/// File paths in the order in which they are handed out.
pub struct FileQueue {
    files: VecDeque<String>,
}

impl View for FileQueue {
    type V = Seq<Seq<char>>;

    closed spec fn view(&self) -> Seq<Seq<char>> {
        text::texts(self.files@)
    }
}

impl FileQueue {
    /// A queue of `files`, the first of which is handed out first.
    pub fn new(files: VecDeque<String>) -> (r: Self)
        ensures
            r@ == text::texts(files@),
    {
        FileQueue { files }
    }

    /// The number of files that wait.
    pub fn len(&self) -> (r: usize)
        ensures
            r == self@.len(),
    {
        self.files.len()
    }

    /// Takes the first file off the queue.
    pub fn pop_front(&mut self) -> (r: Option<String>)
        ensures
            match r {
                Some(p) => {
                    &&& old(self)@.len() > 0
                    &&& p@ == old(self)@[0]
                    &&& final(self)@ == old(self)@.drop_first()
                },
                None => old(self)@.len() == 0 && final(self)@ == old(self)@,
            },
    {
        let ghost before = self.files@;
        let r = self.files.pop_front();
        proof {
            if before.len() > 0 {
                assert(self@ =~= text::texts(before).drop_first());
            }
        }
        r
    }
}

} // verus!
