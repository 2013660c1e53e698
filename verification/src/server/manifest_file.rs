//! How the manifest is written to its file, in batches, and what happens when that
//! fails.

use crate::text;
use std::collections::VecDeque;
use vstd::prelude::*;
use vstd::string::*;

verus! {

/// The number of paths that are written to the manifest at once.
pub const BATCH_SIZE: usize = 100_000;

/// A place in the writing of a manifest.
#[derive(Clone, Copy, Debug, PartialEq, Eq)]
pub struct ManifestCursor {
    /// The first file of the batch to write.
    pub start: usize,
    /// Whether nothing is written behind this batch, whatever comes of it.
    pub last: bool,
}

impl ManifestCursor {
    /// The end of the batch in a manifest of `total` files.
    pub open spec fn end(self, total: int) -> int {
        if self.start + BATCH_SIZE <= total {
            self.start + BATCH_SIZE
        } else {
            total
        }
    }

    /// Whether there is something to write at this place, and a batch that does
    /// not fill up is the last.
    pub open spec fn valid(self, total: int) -> bool {
        &&& self.start < total
        &&& self.last || self.start + BATCH_SIZE <= total
    }

    /// The place `at`, or none where the manifest of `total` files ends before.
    pub open spec fn place(at: int, total: int) -> Option<ManifestCursor> {
        if at < total {
            Some(ManifestCursor { start: at as usize, last: at + BATCH_SIZE > total })
        } else {
            None
        }
    }

    /// The place behind this one in a manifest of `total` files.
    pub open spec fn following(self, total: int, written: bool) -> Option<ManifestCursor> {
        if self.last {
            None
        } else if written {
            ManifestCursor::place(self.start + BATCH_SIZE, total)
        } else {
            Some(ManifestCursor { start: self.start, last: true })
        }
    }

    /// The text to write at this place of the manifest of `files`.
    pub open spec fn batch_text(self, files: Seq<Seq<char>>) -> Seq<char> {
        text::unlines(files.subrange(self.start as int, self.end(files.len() as int)))
    }

    fn at(start: usize, total: usize) -> (r: Option<ManifestCursor>)
        ensures
            r == ManifestCursor::place(start as int, total as int),
    {
        if start < total {
            Some(ManifestCursor { start, last: total - start < BATCH_SIZE })
        } else {
            None
        }
    }

    /// The first place; none if there is no file to list.
    pub fn first(total: usize) -> (r: Option<ManifestCursor>)
        ensures
            r == ManifestCursor::place(0, total as int),
            r matches Some(c) ==> c.valid(total as int),
    {
        ManifestCursor::at(0, total)
    }

    /// The place behind this one. If a full batch could not be written, it is
    /// tried once more, and then the writing ends.
    pub fn after(self, total: usize, written: bool) -> (r: Option<ManifestCursor>)
        requires
            self.valid(total as int),
        ensures
            r == self.following(total as int, written),
            r matches Some(c) ==> c.valid(total as int),
    {
        if self.last {
            None
        } else if written {
            ManifestCursor::at(self.start + BATCH_SIZE, total)
        } else {
            Some(ManifestCursor { start: self.start, last: true })
        }
    }

    /// The text to write at this place.
    pub fn batch(self, files: &VecDeque<String>) -> (r: String)
        requires
            self.valid(files@.len() as int),
        ensures
            r@ == self.batch_text(text::texts(files@)),
    {
        let ghost all = text::texts(files@);
        let mut out = String::new();
        let total: usize = files.len();
        let end: usize = if total - self.start < BATCH_SIZE {
            total
        } else {
            self.start + BATCH_SIZE
        };
        let mut i: usize = self.start;
        assert(all.subrange(i as int, i as int) =~= Seq::<Seq<char>>::empty());
        while i < end
            invariant
                self.start <= i <= end <= files@.len(),
                all == text::texts(files@),
                out@ == text::unlines(all.subrange(self.start as int, i as int)),
            decreases end - i,
        {
            let ghost before = out@;
            out.append(files[i].as_str());
            out.push('\n');
            proof {
                let next = all.subrange(self.start as int, i + 1);
                assert(next.drop_last() =~= all.subrange(self.start as int, i as int));
                assert(out@ =~= before + next.last().push('\n'));
            }
            i = i + 1;
        }
        out
    }
}

/// How far the writing of a manifest has come.
#[derive(Clone, Copy, Debug, PartialEq, Eq)]
pub enum WritePhase {
    /// The file is to be made.
    Creating,
    /// The batch at this place is to be written.
    Writing(ManifestCursor),
    /// The file is to be flushed.
    Flushing,
    /// All was tried that there was to write.
    Written,
    /// The file could not be made.
    NotCreated,
}

/// What is to be done next.
#[derive(Clone, Copy, Debug, PartialEq, Eq, Structural)]
pub enum WriteAction {
    Create,
    WriteBatch,
    Flush,
    /// Nothing: the writing is over, and the file could be made or not.
    Finish { created: bool },
}

/// What came of the last action.
#[derive(Clone, Copy, Debug, PartialEq, Eq, Structural)]
pub enum WriteEvent {
    Created,
    CreateFailed,
    BatchWritten,
    BatchFailed,
    Flushed,
    FlushFailed,
}

/// `ManifestWriting` in terms of plain values.
#[verifier::ext_equal]
pub struct WritingModel {
    /// The files that the manifest lists.
    pub files: Seq<Seq<char>>,
    /// The number of files up to which full batches are written.
    pub position: nat,
    pub phase: WritePhase,
}

/// The writing of a manifest.
pub struct ManifestWriting {
    files: VecDeque<String>,
    position: usize,
    phase: WritePhase,
}

impl WritePhase {
    /// What is to be done in the phase.
    pub open spec fn due(self) -> WriteAction {
        match self {
            WritePhase::Creating => WriteAction::Create,
            WritePhase::Writing(_) => WriteAction::WriteBatch,
            WritePhase::Flushing => WriteAction::Flush,
            WritePhase::Written => WriteAction::Finish { created: true },
            WritePhase::NotCreated => WriteAction::Finish { created: false },
        }
    }

    /// The phase of writing the batch at `place`, or of flushing where there is none.
    pub open spec fn at(place: Option<ManifestCursor>) -> WritePhase {
        match place {
            Some(cursor) => WritePhase::Writing(cursor),
            None => WritePhase::Flushing,
        }
    }
}

impl WriteEvent {
    /// The action that the event is an outcome of.
    pub open spec fn outcome_of(self) -> WriteAction {
        match self {
            WriteEvent::Created | WriteEvent::CreateFailed => WriteAction::Create,
            WriteEvent::BatchWritten | WriteEvent::BatchFailed => WriteAction::WriteBatch,
            WriteEvent::Flushed | WriteEvent::FlushFailed => WriteAction::Flush,
        }
    }

    /// Whether the event is a failure.
    pub open spec fn failure(self) -> bool {
        self is CreateFailed || self is BatchFailed || self is FlushFailed
    }
}

impl WritingModel {
    /// The writing of a manifest of `files` that has not begun.
    pub open spec fn start(files: Seq<Seq<char>>) -> WritingModel {
        WritingModel { files, position: 0, phase: WritePhase::Creating }
    }

    /// The writing after `event`, which is an outcome of its action.
    pub open spec fn next(self, event: WriteEvent) -> WritingModel {
        let total = self.files.len() as int;
        let phase = match self.phase {
            WritePhase::Creating => if event is Created {
                WritePhase::at(ManifestCursor::place(0, total))
            } else {
                WritePhase::NotCreated
            },
            WritePhase::Writing(cursor) => WritePhase::at(
                cursor.following(total, event is BatchWritten),
            ),
            WritePhase::Flushing => WritePhase::Written,
            _ => self.phase,
        };
        let position = match self.phase {
            WritePhase::Writing(cursor) => if event is BatchWritten && !cursor.last {
                cursor.start as nat + BATCH_SIZE as nat
            } else {
                self.position
            },
            _ => self.position,
        };
        WritingModel { files: self.files, position, phase }
    }
}

impl View for ManifestWriting {
    type V = WritingModel;

    closed spec fn view(&self) -> WritingModel {
        WritingModel {
            files: text::texts(self.files@),
            position: self.position as nat,
            phase: self.phase,
        }
    }
}

impl ManifestWriting {
    #[verifier::type_invariant]
    spec fn wf(&self) -> bool {
        self.phase matches WritePhase::Writing(cursor) ==> cursor.valid(self.files@.len() as int)
    }

    /// The writing of a manifest of `files` that has not begun.
    pub fn new(files: VecDeque<String>) -> (r: Self)
        ensures
            r@ == WritingModel::start(text::texts(files@)),
    {
        ManifestWriting { files, position: 0, phase: WritePhase::Creating }
    }

    /// What is to be done next.
    pub fn action(&self) -> (r: WriteAction)
        ensures
            r == self@.phase.due(),
    {
        match self.phase {
            WritePhase::Creating => WriteAction::Create,
            WritePhase::Writing(_) => WriteAction::WriteBatch,
            WritePhase::Flushing => WriteAction::Flush,
            WritePhase::Written => WriteAction::Finish { created: true },
            WritePhase::NotCreated => WriteAction::Finish { created: false },
        }
    }

    /// The text that is to be written, if one is.
    pub fn batch(&self) -> (r: Option<String>)
        ensures
            match self@.phase {
                WritePhase::Writing(cursor) => r matches Some(s) && s@ == cursor.batch_text(
                    self@.files,
                ),
                _ => r is None,
            },
    {
        proof {
            use_type_invariant(self);
        }
        match self.phase {
            WritePhase::Writing(cursor) => Some(cursor.batch(&self.files)),
            _ => None,
        }
    }

    /// The number of files up to which full batches are written.
    pub fn position(&self) -> (r: usize)
        ensures
            r == self@.position,
    {
        self.position
    }

    /// Takes in what came of the last action.
    pub fn step(&mut self, event: WriteEvent)
        requires
            old(self)@.phase.due() == event.outcome_of(),
        ensures
            final(self)@ == old(self)@.next(event),
    {
        proof {
            use_type_invariant(&*self);
        }
        let ghost before = self@;
        let total: usize = self.files.len();
        let phase = match self.phase {
            WritePhase::Creating => match event {
                WriteEvent::Created => match ManifestCursor::first(total) {
                    Some(cursor) => WritePhase::Writing(cursor),
                    None => WritePhase::Flushing,
                },
                _ => WritePhase::NotCreated,
            },
            WritePhase::Writing(cursor) => {
                let written: bool = match event {
                    WriteEvent::BatchWritten => true,
                    _ => false,
                };
                if written && !cursor.last {
                    self.position = cursor.start + BATCH_SIZE;
                }
                match cursor.after(total, written) {
                    Some(next) => WritePhase::Writing(next),
                    None => WritePhase::Flushing,
                }
            },
            WritePhase::Flushing => WritePhase::Written,
            WritePhase::Written => WritePhase::Written,
            WritePhase::NotCreated => WritePhase::NotCreated,
        };
        self.phase = phase;
        assert(self@ =~= before.next(event));
    }

    /// The files that the manifest lists, whatever came of writing it.
    pub fn into_files(self) -> (r: VecDeque<String>)
        ensures
            text::texts(r@) == self@.files,
    {
        self.files
    }
}

/// The writing of a manifest of `files` after `events`, in that order.
pub open spec fn run(files: Seq<Seq<char>>, events: Seq<WriteEvent>) -> WritingModel
    decreases events.len(),
{
    if events.len() == 0 {
        WritingModel::start(files)
    } else {
        run(files, events.drop_last()).next(events.last())
    }
}

/// Whether each of `events` is an outcome of the action that was due.
pub open spec fn due(files: Seq<Seq<char>>, events: Seq<WriteEvent>) -> bool
    decreases events.len(),
{
    events.len() > 0 ==> {
        &&& due(files, events.drop_last())
        &&& run(files, events.drop_last()).phase.due() == events.last().outcome_of()
    }
}

/// Whether none of `events` is a failure.
pub open spec fn smooth(events: Seq<WriteEvent>) -> bool {
    forall|i: int| 0 <= i < events.len() ==> !(#[trigger] events[i]).failure()
}

/// The batches that were written in the course of `events`, one behind the other.
pub open spec fn written(files: Seq<Seq<char>>, events: Seq<WriteEvent>) -> Seq<char>
    decreases events.len(),
{
    if events.len() == 0 {
        Seq::empty()
    } else {
        let before = written(files, events.drop_last());
        match (run(files, events.drop_last()).phase, events.last()) {
            (WritePhase::Writing(cursor), WriteEvent::BatchWritten) => before + cursor.batch_text(
                files,
            ),
            _ => before,
        }
    }
}

/// The list of files is what was scanned, whatever comes of writing the manifest: if
/// the file cannot be made, a batch or the flush fails, or nothing does, it is neither
/// shortened nor changed.
pub proof fn law_list_does_not_depend_on_writing(
    files: Seq<Seq<char>>,
    one: Seq<WriteEvent>,
    other: Seq<WriteEvent>,
)
    ensures
        run(files, one).files == files,
        run(files, one).files == run(files, other).files,
{
    lemma_files_kept(files, one);
    lemma_files_kept(files, other);
}

proof fn lemma_files_kept(files: Seq<Seq<char>>, events: Seq<WriteEvent>)
    ensures
        run(files, events).files == files,
    decreases events.len(),
{
    if events.len() > 0 {
        lemma_files_kept(files, events.drop_last());
    }
}

/// If nothing fails, the batches that were written, one behind the other, make up the
/// text that lists all the files.
pub proof fn law_batches_make_manifest(files: Seq<Seq<char>>, events: Seq<WriteEvent>)
    requires
        files.len() <= usize::MAX,
        due(files, events),
        smooth(events),
        run(files, events).phase is Written,
    ensures
        written(files, events) == text::unlines(files),
{
    lemma_written(files, events);
}

proof fn lemma_written(files: Seq<Seq<char>>, events: Seq<WriteEvent>)
    requires
        files.len() <= usize::MAX,
        due(files, events),
        smooth(events),
    ensures
        run(files, events).files == files,
        match run(files, events).phase {
            WritePhase::Creating => written(files, events).len() == 0,
            WritePhase::Writing(c) => {
                &&& 0 <= c.start < files.len()
                &&& Some(c) == ManifestCursor::place(c.start as int, files.len() as int)
                &&& written(files, events) == text::unlines(files.take(c.start as int))
            },
            WritePhase::Flushing | WritePhase::Written => written(files, events) == text::unlines(
                files,
            ),
            WritePhase::NotCreated => false,
        },
    decreases events.len(),
{
    if events.len() > 0 {
        let before = events.drop_last();
        assert forall|i: int| 0 <= i < before.len() implies !(#[trigger] before[i]).failure() by {
            assert(!events[i].failure());
        }
        assert(!events[events.len() - 1].failure());
        lemma_written(files, before);
        let total = files.len() as int;
        match run(files, before).phase {
            WritePhase::Creating => {
                assert(files.take(0) =~= Seq::<Seq<char>>::empty());
                assert(written(files, events) =~= text::unlines(files.take(0)));
                if total == 0 {
                    assert(files.take(0) =~= files);
                }
            },
            WritePhase::Writing(c) => {
                let end = c.end(total);
                let batch = files.subrange(c.start as int, end);
                text::law_unlines_concat(files.take(c.start as int), batch);
                assert(files.take(c.start as int) + batch =~= files.take(end));
                assert(files.take(total) =~= files);
            },
            _ => {},
        }
    }
}

/// A bound on the number of events that can still follow.
pub open spec fn rest(m: WritingModel) -> nat {
    match m.phase {
        WritePhase::Creating => (m.files.len() + 3) as nat,
        WritePhase::Writing(c) => (m.files.len() - c.start + 1 + if c.last {
            0int
        } else {
            1int
        }) as nat,
        WritePhase::Flushing => 1,
        _ => 0,
    }
}

/// Each step of the writing of a manifest brings its end nearer.
pub proof fn law_writing_comes_to_an_end(m: WritingModel, event: WriteEvent)
    requires
        m.files.len() <= usize::MAX,
        m.phase matches WritePhase::Writing(c) ==> c.valid(m.files.len() as int),
        m.phase.due() == event.outcome_of(),
    ensures
        rest(m.next(event)) < rest(m),
{
}

/// A batch is one hundred thousand files, or what is left of the list. There is a place to
/// write at if and only if there are files behind it, it begins there, and nothing follows it
/// if and only if the batch does not fill up.
pub proof fn law_places_of_batches(at: int, files: Seq<Seq<char>>)
    requires
        0 <= at,
        files.len() <= usize::MAX,
    ensures
        match ManifestCursor::place(at, files.len() as int) {
            Some(c) => {
                &&& at < files.len()
                &&& c.start == at
                &&& c.last <==> files.len() - at < 100_000
                &&& c.valid(files.len() as int)
                &&& files.len() - at >= 100_000 ==> c.batch_text(files) == text::unlines(
                    files.subrange(at, at + 100_000),
                )
                &&& files.len() - at < 100_000 ==> c.batch_text(files) == text::unlines(
                    files.skip(at),
                )
            },
            None => at >= files.len(),
        },
{
    if at < files.len() && files.len() - at < 100_000 {
        assert(files.subrange(at, files.len() as int) =~= files.skip(at));
    }
}

/// After a batch that was written comes the one behind it. A full batch that could not be
/// written is tried once more, and behind a last one nothing is written. What is written at a
/// place is the files from there on, whether for the first time or again.
pub proof fn law_batches_follow(c: ManifestCursor, files: Seq<Seq<char>>)
    requires
        files.len() <= usize::MAX,
        c.start < files.len(),
    ensures
        c.last ==> c.following(files.len() as int, true) is None && c.following(
            files.len() as int,
            false,
        ) is None,
        !c.last ==> c.following(files.len() as int, true) == ManifestCursor::place(
            c.start + 100_000,
            files.len() as int,
        ),
        !c.last ==> (c.following(files.len() as int, false) matches Some(again) && again.start
            == c.start && again.last && again.batch_text(files) == c.batch_text(files)),
        c.valid(files.len() as int) <==> c.last || files.len() - c.start >= 100_000,
{
}

/// The manifest's file is made, then written batch by batch, then flushed, and then the writing
/// is over. It is over at once if the file cannot be made. The list never changes, and the
/// position moves to behind a full batch that was written, and else stays.
pub proof fn law_writing_goes_on(m: WritingModel, event: WriteEvent)
    requires
        m.files.len() <= usize::MAX,
        m.phase matches WritePhase::Writing(c) ==> c.valid(m.files.len() as int),
    ensures
        ({
            let then = m.next(event);
            let total = m.files.len() as int;
            &&& then.files == m.files
            &&& m.phase is Creating && event is Created ==> if total == 0 {
                then.phase is Flushing
            } else {
                then.phase matches WritePhase::Writing(c) && c.start == 0
            }
            &&& m.phase is Creating && event is CreateFailed ==> then.phase is NotCreated
            &&& m.phase matches WritePhase::Writing(c) ==> match c.following(
                total,
                event is BatchWritten,
            ) {
                Some(next) => then.phase == WritePhase::Writing(next),
                None => then.phase is Flushing,
            }
            &&& m.phase is Flushing ==> then.phase is Written
            &&& if m.phase matches WritePhase::Writing(c) && event is BatchWritten && !c.last {
                then.position == m.phase->Writing_0.start + 100_000
            } else {
                then.position == m.position
            }
        }),
        WritingModel::start(m.files).files == m.files,
        WritingModel::start(m.files).position == 0,
        WritingModel::start(m.files).phase is Creating,
{
}

/// What is to be done next in each phase, and what can come of it.
pub proof fn law_writing_does_what_is_next(phase: WritePhase, event: WriteEvent)
    ensures
        phase.due() == WriteAction::Create <==> phase is Creating,
        phase.due() == WriteAction::WriteBatch <==> phase is Writing,
        phase.due() == WriteAction::Flush <==> phase is Flushing,
        phase.due() == (WriteAction::Finish { created: true }) <==> phase is Written,
        phase.due() == (WriteAction::Finish { created: false }) <==> phase is NotCreated,
        phase.due() == event.outcome_of() <==> {
            ||| phase is Creating && (event is Created || event is CreateFailed)
            ||| phase is Writing && (event is BatchWritten || event is BatchFailed)
            ||| phase is Flushing && (event is Flushed || event is FlushFailed)
        },
        event.failure() <==> event is CreateFailed || event is BatchFailed || event is FlushFailed,
{
}

/// What one more event adds to the writing of a manifest: it is in place if and only if the action
/// was due, the writing goes on from where it stood, and a batch that was written stands behind the
/// others.
pub proof fn law_writing_event_by_event(
    files: Seq<Seq<char>>,
    events: Seq<WriteEvent>,
    event: WriteEvent,
)
    ensures
        run(files, Seq::empty()) == WritingModel::start(files),
        due(files, Seq::empty()),
        run(files, events.push(event)) == run(files, events).next(event),
        due(files, events.push(event)) <==> due(files, events) && run(files, events).phase.due()
            == event.outcome_of(),
        event is BatchWritten ==> (run(files, events).phase matches WritePhase::Writing(c)
            ==> written(files, events.push(event)) == written(files, events) + c.batch_text(
            files,
        )),
        !(event is BatchWritten) ==> written(files, events.push(event)) == written(files, events),
        written(files, Seq::empty()).len() == 0,
{
    assert(events.push(event).drop_last() =~= events);
}

} // verus!
