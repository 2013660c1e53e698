//! How the server takes in an uploaded file: into a temporary file beside the
//! place it is meant for, which is renamed when all of it has arrived.

use crate::http::{Reply, Status};
use crate::text;
use vstd::prelude::*;
use vstd::string::*;

verus! {

/// How far an upload has come.
pub enum UploadPhase {
    /// The parent directory is to be made.
    MakingParent,
    /// The temporary file is to be made.
    CreatingTemp,
    /// The next chunk of the body is awaited.
    Receiving,
    /// This chunk is to be written.
    Writing(Vec<u8>),
    /// The body has ended and the temporary file is to be flushed.
    Flushing,
    /// The temporary file is to be renamed to its final path.
    Renaming,
    /// The upload failed with this message, and the temporary file is to go.
    Removing(String),
    /// The upload is over, with this reply.
    Done(Reply),
}

/// What the caller of an upload has to do next.
#[derive(Clone, Copy, Debug, PartialEq, Eq, Structural)]
pub enum UploadAction {
    CreateParent,
    CreateTemp,
    NextChunk,
    WriteChunk,
    Flush,
    Rename,
    RemoveTemp,
    Reply,
}

/// What came of the last action. The failures carry the message of the error.
pub enum UploadEvent {
    /// The parent directory is there, or the path has none.
    ParentReady,
    ParentFailed(String),
    TempCreated,
    TempFailed(String),
    /// This chunk of the body arrived.
    Chunk(Vec<u8>),
    BodyEnded,
    ReceiveFailed(String),
    ChunkWritten,
    WriteFailed(String),
    Flushed,
    FlushFailed(String),
    Renamed,
    RenameFailed(String),
    /// The removal of the temporary file was tried. Whether it succeeded makes no
    /// difference to the upload.
    TempRemoved,
}

/// `UploadPhase` in terms of plain values.
#[verifier::ext_equal]
pub enum PhaseModel {
    MakingParent,
    CreatingTemp,
    Receiving,
    Writing(Seq<u8>),
    Flushing,
    Renaming,
    Removing(Seq<char>),
    Done(Status, Seq<char>),
}

/// `Upload` in terms of plain values.
#[verifier::ext_equal]
pub struct UploadModel {
    /// The path that the file is meant for.
    pub path: Seq<char>,
    /// The bytes written so far.
    pub content: Seq<u8>,
    /// The count of them.
    pub total: nat,
    pub phase: PhaseModel,
}

/// An upload of one file.
pub struct Upload {
    file_path: String,
    content: Ghost<Seq<u8>>,
    total_bytes: usize,
    phase: UploadPhase,
}

impl View for UploadPhase {
    type V = PhaseModel;

    open spec fn view(&self) -> PhaseModel {
        match *self {
            UploadPhase::MakingParent => PhaseModel::MakingParent,
            UploadPhase::CreatingTemp => PhaseModel::CreatingTemp,
            UploadPhase::Receiving => PhaseModel::Receiving,
            UploadPhase::Writing(chunk) => PhaseModel::Writing(chunk@),
            UploadPhase::Flushing => PhaseModel::Flushing,
            UploadPhase::Renaming => PhaseModel::Renaming,
            UploadPhase::Removing(m) => PhaseModel::Removing(m@),
            UploadPhase::Done(r) => PhaseModel::Done(r.status, r.body@),
        }
    }
}

impl View for Upload {
    type V = UploadModel;

    closed spec fn view(&self) -> UploadModel {
        UploadModel {
            path: self.file_path@,
            content: self.content@,
            total: self.total_bytes as nat,
            phase: self.phase@,
        }
    }
}

impl PhaseModel {
    /// What is to be done in the phase.
    pub open spec fn action(self) -> UploadAction {
        match self {
            PhaseModel::MakingParent => UploadAction::CreateParent,
            PhaseModel::CreatingTemp => UploadAction::CreateTemp,
            PhaseModel::Receiving => UploadAction::NextChunk,
            PhaseModel::Writing(_) => UploadAction::WriteChunk,
            PhaseModel::Flushing => UploadAction::Flush,
            PhaseModel::Renaming => UploadAction::Rename,
            PhaseModel::Removing(_) => UploadAction::RemoveTemp,
            PhaseModel::Done(_, _) => UploadAction::Reply,
        }
    }
}

impl UploadEvent {
    /// The action that the event is an outcome of.
    pub open spec fn outcome_of(self) -> UploadAction {
        match self {
            UploadEvent::ParentReady | UploadEvent::ParentFailed(_) => UploadAction::CreateParent,
            UploadEvent::TempCreated | UploadEvent::TempFailed(_) => UploadAction::CreateTemp,
            UploadEvent::Chunk(_) | UploadEvent::BodyEnded | UploadEvent::ReceiveFailed(_) =>
                UploadAction::NextChunk,
            UploadEvent::ChunkWritten | UploadEvent::WriteFailed(_) => UploadAction::WriteChunk,
            UploadEvent::Flushed | UploadEvent::FlushFailed(_) => UploadAction::Flush,
            UploadEvent::Renamed | UploadEvent::RenameFailed(_) => UploadAction::Rename,
            UploadEvent::TempRemoved => UploadAction::RemoveTemp,
        }
    }

    /// The text that a failure is answered with; none for a success.
    pub open spec fn failure(self) -> Option<Seq<char>> {
        match self {
            UploadEvent::ParentFailed(e) => Some("Failed to create directory: "@ + e@),
            UploadEvent::TempFailed(e) => Some("Failed to create temp file: "@ + e@),
            UploadEvent::ReceiveFailed(e) => Some("Error receiving chunk: "@ + e@),
            UploadEvent::WriteFailed(e) => Some("Failed to write chunk: "@ + e@),
            UploadEvent::FlushFailed(e) => Some("Failed to flush file: "@ + e@),
            UploadEvent::RenameFailed(e) => Some("Failed to rename temp file: "@ + e@),
            _ => None,
        }
    }
}

/// The text that a completed upload is answered with.
pub open spec fn uploaded_text(path: Seq<char>, total: nat) -> Seq<char> {
    "File uploaded to "@ + path + " ("@ + text::decimal(total) + " bytes)"@
}

/// The temporary path of an upload to `path`.
pub open spec fn temp_path_of(path: Seq<char>) -> Seq<char> {
    path + ".TEMP"@
}

impl UploadModel {
    /// An upload to `path` that has not begun.
    pub open spec fn start(path: Seq<char>) -> UploadModel {
        UploadModel { path, content: Seq::empty(), total: 0, phase: PhaseModel::MakingParent }
    }

    /// The upload after `event`, which is an outcome of its action.
    pub open spec fn next(self, event: UploadEvent) -> UploadModel {
        let phase = match (self.phase, event.failure()) {
            (PhaseModel::MakingParent, None) => PhaseModel::CreatingTemp,
            (PhaseModel::MakingParent, Some(m)) => PhaseModel::Done(Status::InternalServerError, m),
            (PhaseModel::CreatingTemp, None) => PhaseModel::Receiving,
            (PhaseModel::CreatingTemp, Some(m)) => PhaseModel::Done(Status::InternalServerError, m),
            (PhaseModel::Receiving, None) => match event {
                UploadEvent::Chunk(chunk) => PhaseModel::Writing(chunk@),
                _ => PhaseModel::Flushing,
            },
            (PhaseModel::Writing(_), None) => PhaseModel::Receiving,
            (PhaseModel::Flushing, None) => PhaseModel::Renaming,
            (PhaseModel::Renaming, None) => PhaseModel::Done(
                Status::Created,
                uploaded_text(self.path, self.total),
            ),
            (PhaseModel::Removing(m), _) => PhaseModel::Done(Status::InternalServerError, m),
            (PhaseModel::Done(s, b), _) => PhaseModel::Done(s, b),
            (_, Some(m)) => PhaseModel::Removing(m),
        };
        let added = match (self.phase, event) {
            (PhaseModel::Writing(chunk), UploadEvent::ChunkWritten) => chunk,
            _ => Seq::empty(),
        };
        UploadModel {
            path: self.path,
            content: self.content + added,
            total: self.total + added.len(),
            phase,
        }
    }
}

/// `label` and behind it `detail`.
fn joined(label: &str, detail: &str) -> (r: String)
    ensures
        r@ == label@ + detail@,
{
    let mut s = label.to_owned();
    s.append(detail);
    s
}

fn failed(body: String) -> (r: UploadPhase)
    ensures
        r@ == PhaseModel::Done(Status::InternalServerError, body@),
{
    UploadPhase::Done(Reply { status: Status::InternalServerError, body })
}

impl Upload {
    /// An upload to `file_path` that has not begun.
    pub fn new(file_path: String) -> (r: Self)
        ensures
            r@ == UploadModel::start(file_path@),
    {
        Upload {
            file_path,
            content: Ghost(Seq::empty()),
            total_bytes: 0,
            phase: UploadPhase::MakingParent,
        }
    }

    /// The path that the file is meant for.
    pub fn file_path(&self) -> (r: &str)
        ensures
            r@ == self@.path,
    {
        self.file_path.as_str()
    }

    /// The path of the temporary file.
    pub fn temp_path(&self) -> (r: String)
        ensures
            r@ == temp_path_of(self@.path),
            r@ == self@.path + ".TEMP"@,
            r@ != self@.path,
    {
        proof {
            law_temp_path_is_beside_its_place(self@.path, self@.path);
        }
        joined(self.file_path.as_str(), ".TEMP")
    }

    /// What is to be done next.
    pub fn action(&self) -> (r: UploadAction)
        ensures
            r == self@.phase.action(),
    {
        match &self.phase {
            UploadPhase::MakingParent => UploadAction::CreateParent,
            UploadPhase::CreatingTemp => UploadAction::CreateTemp,
            UploadPhase::Receiving => UploadAction::NextChunk,
            UploadPhase::Writing(_) => UploadAction::WriteChunk,
            UploadPhase::Flushing => UploadAction::Flush,
            UploadPhase::Renaming => UploadAction::Rename,
            UploadPhase::Removing(_) => UploadAction::RemoveTemp,
            UploadPhase::Done(_) => UploadAction::Reply,
        }
    }

    /// The chunk that is to be written, if one is.
    pub fn chunk(&self) -> (r: Option<&Vec<u8>>)
        ensures
            match r {
                Some(chunk) => self@.phase == PhaseModel::Writing(chunk@),
                None => !(self@.phase is Writing),
            },
    {
        match &self.phase {
            UploadPhase::Writing(chunk) => Some(chunk),
            _ => None,
        }
    }

    /// The reply, once the upload is over.
    pub fn reply(self) -> (r: Option<Reply>)
        ensures
            match r {
                Some(reply) => self@.phase == PhaseModel::Done(reply.status, reply.body@),
                None => !(self@.phase is Done),
            },
    {
        match self.phase {
            UploadPhase::Done(reply) => Some(reply),
            _ => None,
        }
    }

    /// Whether the count of written bytes can still take in `len` more.
    pub fn has_room_for(&self, len: usize) -> (r: bool)
        ensures
            r == (self@.total + len <= usize::MAX),
    {
        len <= usize::MAX - self.total_bytes
    }

    /// Takes in what came of the last action. A rename that succeeded is not
    /// among these events: the server's record of uploads has a part in it.
    pub fn step(&mut self, event: UploadEvent)
        requires
            old(self)@.phase.action() == event.outcome_of(),
            !(event is Renamed),
            old(self)@.phase matches PhaseModel::Writing(chunk) ==> old(self)@.total + chunk.len()
                <= usize::MAX,
        ensures
            final(self)@ == old(self)@.next(event),
    {
        let ghost before = self@;
        let ghost seen = event;
        let phase = match event {
            UploadEvent::ParentReady => UploadPhase::CreatingTemp,
            UploadEvent::ParentFailed(e) => failed(
                joined("Failed to create directory: ", e.as_str()),
            ),
            UploadEvent::TempCreated => UploadPhase::Receiving,
            UploadEvent::TempFailed(e) => failed(
                joined("Failed to create temp file: ", e.as_str()),
            ),
            UploadEvent::Chunk(chunk) => UploadPhase::Writing(chunk),
            UploadEvent::BodyEnded => UploadPhase::Flushing,
            UploadEvent::ReceiveFailed(e) => UploadPhase::Removing(
                joined("Error receiving chunk: ", e.as_str()),
            ),
            UploadEvent::ChunkWritten => {
                if let UploadPhase::Writing(chunk) = &self.phase {
                    let len: usize = chunk.len();
                    self.content = Ghost(before.content + chunk@);
                    self.total_bytes = self.total_bytes + len;
                }
                UploadPhase::Receiving
            },
            UploadEvent::WriteFailed(e) => UploadPhase::Removing(
                joined("Failed to write chunk: ", e.as_str()),
            ),
            UploadEvent::Flushed => UploadPhase::Renaming,
            UploadEvent::FlushFailed(e) => UploadPhase::Removing(
                joined("Failed to flush file: ", e.as_str()),
            ),
            UploadEvent::RenameFailed(e) => UploadPhase::Removing(
                joined("Failed to rename temp file: ", e.as_str()),
            ),
            UploadEvent::Renamed | UploadEvent::TempRemoved => {
                match &self.phase {
                    UploadPhase::Removing(m) => failed(m.clone()),
                    _ => UploadPhase::Renaming,
                }
            },
        };
        self.phase = phase;
        assert(self@ =~= before.next(seen));
    }

    /// Takes in that the temporary file was renamed to its final path.
    pub(crate) fn renamed(&mut self)
        requires
            old(self)@.phase is Renaming,
        ensures
            final(self)@ == old(self)@.next(UploadEvent::Renamed),
    {
        let ghost before = self@;
        let mut body = joined("File uploaded to ", self.file_path.as_str());
        body.append(" (");
        body.append(text::to_decimal(self.total_bytes as u64).as_str());
        body.append(" bytes)");
        self.phase = UploadPhase::Done(Reply { status: Status::Created, body });
        assert(self@ =~= before.next(UploadEvent::Renamed));
    }
}

/// The upload to `path` after `events`, in that order.
pub open spec fn run(path: Seq<char>, events: Seq<UploadEvent>) -> UploadModel
    decreases events.len(),
{
    if events.len() == 0 {
        UploadModel::start(path)
    } else {
        run(path, events.drop_last()).next(events.last())
    }
}

/// Whether each of `events` is an outcome of the action that was due.
pub open spec fn due(path: Seq<char>, events: Seq<UploadEvent>) -> bool
    decreases events.len(),
{
    events.len() > 0 ==> {
        &&& due(path, events.drop_last())
        &&& run(path, events.drop_last()).phase.action() == events.last().outcome_of()
    }
}

/// Whether the temporary file is left lying after `events`: it was made, and
/// neither renamed nor removed since. A removal that was tried is taken to succeed.
pub open spec fn temp_left(events: Seq<UploadEvent>) -> bool
    decreases events.len(),
{
    if events.len() == 0 {
        false
    } else {
        match events.last() {
            UploadEvent::TempCreated => true,
            UploadEvent::Renamed | UploadEvent::TempRemoved => false,
            _ => temp_left(events.drop_last()),
        }
    }
}

/// The chunk whose writing `events` end with; empty if they end otherwise.
pub open spec fn chunk_written_last(events: Seq<UploadEvent>) -> Seq<u8> {
    if events.len() < 2 {
        Seq::empty()
    } else {
        match (events[events.len() - 2], events.last()) {
            (UploadEvent::Chunk(chunk), UploadEvent::ChunkWritten) => chunk@,
            _ => Seq::empty(),
        }
    }
}

/// The chunks that were written in the course of `events`, one behind the other.
pub open spec fn written(events: Seq<UploadEvent>) -> Seq<u8>
    decreases events.len(),
{
    if events.len() == 0 {
        Seq::empty()
    } else {
        written(events.drop_last()) + chunk_written_last(events)
    }
}

/// The chunks that arrived in the course of `events`, one behind the other.
pub open spec fn received(events: Seq<UploadEvent>) -> Seq<u8>
    decreases events.len(),
{
    if events.len() == 0 {
        Seq::empty()
    } else {
        match events.last() {
            UploadEvent::Chunk(chunk) => received(events.drop_last()) + chunk@,
            _ => received(events.drop_last()),
        }
    }
}

/// The files of `disk`, by path, after the `events` of an upload to `path`. A write
/// that failed is taken to have left nothing: the file that it went to is removed. A
/// removal that was tried is taken to succeed.
pub open spec fn disk_after(
    disk: Map<Seq<char>, Seq<u8>>,
    path: Seq<char>,
    events: Seq<UploadEvent>,
) -> Map<Seq<char>, Seq<u8>>
    decreases events.len(),
{
    if events.len() == 0 {
        disk
    } else {
        let before = disk_after(disk, path, events.drop_last());
        let temp = temp_path_of(path);
        match events.last() {
            UploadEvent::TempCreated => before.insert(temp, Seq::empty()),
            UploadEvent::ChunkWritten => before.insert(
                temp,
                before[temp] + chunk_written_last(events),
            ),
            UploadEvent::Renamed => before.remove(temp).insert(path, before[temp]),
            UploadEvent::TempRemoved => before.remove(temp),
            _ => before,
        }
    }
}

/// The record `uploaded` of uploads after the `events` of an upload to `path`.
pub open spec fn recorded_after(
    uploaded: Set<Seq<char>>,
    path: Seq<char>,
    events: Seq<UploadEvent>,
) -> Set<Seq<char>>
    decreases events.len(),
{
    if events.len() == 0 {
        uploaded
    } else {
        let before = recorded_after(uploaded, path, events.drop_last());
        if events.last() is Renamed {
            before.insert(path)
        } else {
            before
        }
    }
}

/// The first failure among `events`, as the text that it is answered with.
pub open spec fn first_failure(events: Seq<UploadEvent>) -> Option<Seq<char>>
    decreases events.len(),
{
    if events.len() == 0 {
        None
    } else if first_failure(events.drop_last()) is Some {
        first_failure(events.drop_last())
    } else {
        events.last().failure()
    }
}

/// While an upload is under way its temporary file is there exactly in the phases
/// that need it. Once the upload is over, none is left lying, where a removal that was
/// tried succeeds.
pub proof fn law_upload_leaves_no_temp(path: Seq<char>, events: Seq<UploadEvent>)
    requires
        due(path, events),
    ensures
        temp_left(events) == {
            match run(path, events).phase {
                PhaseModel::MakingParent => false,
                PhaseModel::CreatingTemp => false,
                PhaseModel::Done(_, _) => false,
                _ => true,
            }
        },
        run(path, events).phase is Done ==> !temp_left(events),
    decreases events.len(),
{
    if events.len() > 0 {
        law_upload_leaves_no_temp(path, events.drop_last());
    }
}

/// The content of an upload is the chunks that were written, its count is the number
/// of their bytes, and its path never changes.
pub proof fn law_upload_counts_written(path: Seq<char>, events: Seq<UploadEvent>)
    requires
        due(path, events),
    ensures
        run(path, events).path == path,
        run(path, events).content == written(events),
        run(path, events).total == written(events).len(),
    decreases events.len(),
{
    if events.len() > 0 {
        let before = events.drop_last();
        law_upload_counts_written(path, before);
        if let UploadEvent::ChunkWritten = events.last() {
            assert(run(path, before).phase is Writing);
            assert(before.len() > 0);
            assert(before.last() is Chunk);
            assert(before.last() == events[events.len() - 2]);
        } else {
            assert(chunk_written_last(events) =~= Seq::empty());
        }
    }
}

/// As long as an upload has met no failure, all that arrived is written but for the
/// chunk that is at hand.
pub proof fn law_upload_writes_what_arrives(path: Seq<char>, events: Seq<UploadEvent>)
    requires
        due(path, events),
        first_failure(events) is None,
    ensures
        received(events) == (match run(path, events).phase {
            PhaseModel::Writing(chunk) => written(events) + chunk,
            _ => written(events),
        }),
    decreases events.len(),
{
    if events.len() > 0 {
        let before = events.drop_last();
        law_upload_writes_what_arrives(path, before);
        law_upload_counts_written(path, before);
        law_upload_counts_written(path, events);
        assert(run(path, events) == run(path, before).next(events.last()));
        match events.last() {
            UploadEvent::ChunkWritten => {
                assert(run(path, before).phase is Writing);
            },
            _ => {
                assert(written(events) =~= written(before));
            },
        }
    }
}

proof fn lemma_disk(disk: Map<Seq<char>, Seq<u8>>, path: Seq<char>, events: Seq<UploadEvent>)
    requires
        due(path, events),
    ensures
        match run(path, events).phase {
            PhaseModel::MakingParent | PhaseModel::CreatingTemp => disk_after(disk, path, events)
                == disk,
            PhaseModel::Done(s, _) => {
                if events.last() is Renamed {
                    disk_after(disk, path, events) == disk.remove(temp_path_of(path)).insert(
                        path,
                        written(events),
                    )
                } else {
                    ||| disk_after(disk, path, events) == disk
                    ||| disk_after(disk, path, events) == disk.remove(temp_path_of(path))
                }
            },
            _ => disk_after(disk, path, events) == disk.insert(
                temp_path_of(path),
                written(events),
            ),
        },
    decreases events.len(),
{
    if events.len() > 0 {
        let before = events.drop_last();
        let temp = temp_path_of(path);
        lemma_disk(disk, path, before);
        law_upload_counts_written(path, before);
        law_upload_counts_written(path, events);
        assert(run(path, events) == run(path, before).next(events.last()));
        match events.last() {
            UploadEvent::ChunkWritten => {
                assert(run(path, before).phase is Writing);
                assert(disk.insert(temp, written(before)).insert(temp, written(events))
                    =~= disk.insert(temp, written(events)));
            },
            UploadEvent::TempCreated => {
                assert(run(path, before).phase is CreatingTemp);
                lemma_nothing_written(path, before);
                assert(written(events) =~= Seq::empty());
            },
            UploadEvent::Renamed => {
                assert(run(path, before).phase is Renaming);
                assert(written(events) =~= written(before));
                assert(disk.insert(temp, written(before)).remove(temp) =~= disk.remove(temp));
            },
            UploadEvent::TempRemoved => {
                assert(run(path, before).phase is Removing);
                assert(disk.insert(temp, written(before)).remove(temp) =~= disk.remove(temp));
            },
            _ => {
                assert(written(events) =~= written(before));
            },
        }
    }
}

proof fn lemma_nothing_written(path: Seq<char>, events: Seq<UploadEvent>)
    requires
        due(path, events),
        run(path, events).phase is MakingParent || run(path, events).phase is CreatingTemp,
    ensures
        written(events) == Seq::<u8>::empty(),
    decreases events.len(),
{
    if events.len() > 0 {
        lemma_nothing_written(path, events.drop_last());
        assert(chunk_written_last(events) =~= Seq::empty());
    }
}

proof fn lemma_recorded(uploaded: Set<Seq<char>>, path: Seq<char>, events: Seq<UploadEvent>)
    requires
        due(path, events),
    ensures
        recorded_after(uploaded, path, events) == (if events.len() > 0 && events.last() is Renamed {
            uploaded.insert(path)
        } else {
            uploaded
        }),
    decreases events.len(),
{
    if events.len() > 0 {
        let before = events.drop_last();
        lemma_recorded(uploaded, path, before);
        if before.len() > 0 && before.last() is Renamed {
            law_upload_created_after_rename(path, before);
        }
    }
}

/// An upload that met no failure is not answered with one, and an upload that met
/// one is answered with the first that it met, and only with that.
pub proof fn law_upload_reports_first_failure(path: Seq<char>, events: Seq<UploadEvent>)
    requires
        due(path, events),
    ensures
        match (run(path, events).phase, first_failure(events)) {
            (PhaseModel::Removing(m), f) => f == Some(m),
            (PhaseModel::Done(s, m), Some(f)) => s == Status::InternalServerError && m == f,
            (PhaseModel::Done(s, m), None) => s == Status::Created,
            (_, f) => f is None,
        },
    decreases events.len(),
{
    if events.len() > 0 {
        law_upload_reports_first_failure(path, events.drop_last());
    }
}

/// An upload is answered as created exactly if the last thing that happened is
/// the rename. Then the body had ended, the file had been flushed right before,
/// all that arrived is written, and the answer tells the number of its bytes.
pub proof fn law_upload_created_after_rename(path: Seq<char>, events: Seq<UploadEvent>)
    requires
        due(path, events),
    ensures
        (run(path, events).phase matches PhaseModel::Done(s, _) && s == Status::Created) <==> (
        events.len() > 0 && events.last() is Renamed),
        events.len() > 0 && events.last() is Renamed ==> {
            &&& events.len() >= 5
            &&& events[events.len() - 2] is Flushed
            &&& events[events.len() - 3] is BodyEnded
            &&& run(path, events).phase == PhaseModel::Done(
                Status::Created,
                uploaded_text(path, received(events).len()),
            )
            &&& written(events) == received(events)
        },
    decreases events.len(),
{
    if events.len() > 0 {
        let before = events.drop_last();
        law_upload_created_after_rename(path, before);
        law_upload_counts_written(path, events);
        law_upload_counts_written(path, before);
        if events.last() is Renamed {
            assert(due(path, before));
            assert(run(path, before).phase is Renaming);
            assert(before.len() > 0);
            let earlier = before.drop_last();
            assert(run(path, before) == run(path, earlier).next(before.last()));
            assert(due(path, earlier));
            assert(before.last() is Flushed);
            assert(run(path, earlier).phase is Flushing);
            assert(earlier.len() > 0);
            let body = earlier.drop_last();
            assert(run(path, earlier) == run(path, body).next(earlier.last()));
            assert(due(path, body));
            assert(earlier.last() is BodyEnded);
            assert(run(path, body).phase is Receiving);
            lemma_receiving_len(path, body);
            law_upload_reports_first_failure(path, events);
            law_upload_writes_what_arrives(path, events);
            assert(before.last() == events[events.len() - 2]);
            assert(earlier.last() == events[events.len() - 3]);
        }
    }
}

proof fn lemma_receiving_len(path: Seq<char>, events: Seq<UploadEvent>)
    requires
        due(path, events),
        run(path, events).phase is Receiving,
    ensures
        events.len() >= 2,
{
    assert(events.len() > 0);
    let before = events.drop_last();
    assert(run(path, before).phase is CreatingTemp || run(path, before).phase is Writing);
    assert(before.len() > 0);
}

/// Once an upload is over, nothing more happens in it.
pub proof fn law_upload_replies_once(path: Seq<char>, events: Seq<UploadEvent>, event: UploadEvent)
    requires
        run(path, events).phase is Done,
    ensures
        !due(path, events.push(event)),
{
    assert(events.push(event).drop_last() =~= events);
    assert(events.push(event).last() == event);
}

/// A finished upload that was answered as created left the chunks that arrived, one
/// behind the other, at its path, and its path is recorded. One that failed left every
/// file as it was, but that a file at its temporary path may be gone, and nothing is
/// recorded. A removal of the temporary file that was tried is taken to succeed.
pub proof fn law_upload_stores_body(
    disk: Map<Seq<char>, Seq<u8>>,
    uploaded: Set<Seq<char>>,
    path: Seq<char>,
    events: Seq<UploadEvent>,
)
    requires
        due(path, events),
        run(path, events).phase is Done,
    ensures
        ({
            let then = disk_after(disk, path, events);
            let records = recorded_after(uploaded, path, events);
            if run(path, events).phase->Done_0 == Status::Created {
                &&& then == disk.remove(temp_path_of(path)).insert(path, received(events))
                &&& records == uploaded.insert(path)
            } else {
                &&& then == disk || then == disk.remove(temp_path_of(path))
                &&& records == uploaded
            }
        }),
{
    lemma_disk(disk, path, events);
    lemma_recorded(uploaded, path, events);
    law_upload_created_after_rename(path, events);
}

/// How a body is cut into chunks makes no difference: two uploads to the same path
/// that succeed, and whose chunks are the same bytes in all, are answered alike and
/// leave the same files and the same record.
pub proof fn law_chunking_makes_no_difference(
    disk: Map<Seq<char>, Seq<u8>>,
    uploaded: Set<Seq<char>>,
    path: Seq<char>,
    one: Seq<UploadEvent>,
    other: Seq<UploadEvent>,
)
    requires
        due(path, one) && one.len() > 0 && one.last() is Renamed,
        due(path, other) && other.len() > 0 && other.last() is Renamed,
        received(one) == received(other),
    ensures
        run(path, one) == run(path, other),
        run(path, one).phase == PhaseModel::Done(
            Status::Created,
            uploaded_text(path, received(one).len()),
        ),
        disk_after(disk, path, one) == disk_after(disk, path, other),
        disk_after(disk, path, one)[path] == received(one),
        recorded_after(uploaded, path, one) == recorded_after(uploaded, path, other),
{
    law_upload_created_after_rename(path, one);
    law_upload_created_after_rename(path, other);
    law_upload_counts_written(path, one);
    law_upload_counts_written(path, other);
    law_upload_stores_body(disk, uploaded, path, one);
    law_upload_stores_body(disk, uploaded, path, other);
}

/// What happens in an upload of the chunks `parts` while nothing fails, up to the end
/// of the body.
pub open spec fn chunks(parts: Seq<Vec<u8>>) -> Seq<UploadEvent>
    decreases parts.len(),
{
    if parts.len() == 0 {
        seq![UploadEvent::ParentReady, UploadEvent::TempCreated]
    } else {
        chunks(parts.drop_last()).push(UploadEvent::Chunk(parts.last())).push(
            UploadEvent::ChunkWritten,
        )
    }
}

/// What happens in an upload of the chunks `parts` in which nothing fails.
pub open spec fn smooth(parts: Seq<Vec<u8>>) -> Seq<UploadEvent> {
    chunks(parts).push(UploadEvent::BodyEnded).push(UploadEvent::Flushed).push(UploadEvent::Renamed)
}

/// The bytes of `parts`, one behind the other.
pub open spec fn bytes_of(parts: Seq<Vec<u8>>) -> Seq<u8>
    decreases parts.len(),
{
    if parts.len() == 0 {
        Seq::empty()
    } else {
        bytes_of(parts.drop_last()) + parts.last()@
    }
}

proof fn lemma_chunks(path: Seq<char>, parts: Seq<Vec<u8>>)
    ensures
        due(path, chunks(parts)),
        run(path, chunks(parts)).phase is Receiving,
        received(chunks(parts)) == bytes_of(parts),
    decreases parts.len(),
{
    if parts.len() == 0 {
        let none = Seq::<UploadEvent>::empty();
        let one = seq![UploadEvent::ParentReady];
        assert(chunks(parts).drop_last() =~= one);
        assert(one.drop_last() =~= none);
        assert(run(path, none) == UploadModel::start(path));
        assert(run(path, one).phase is CreatingTemp);
        assert(due(path, none));
        assert(due(path, one));
        assert(received(none) =~= Seq::empty());
        assert(received(one) =~= Seq::empty());
    } else {
        let before = chunks(parts.drop_last());
        lemma_chunks(path, parts.drop_last());
        let got = before.push(UploadEvent::Chunk(parts.last()));
        assert(got.drop_last() =~= before);
        assert(chunks(parts).drop_last() =~= got);
        assert(run(path, got).phase is Writing);
        assert(due(path, got));
        assert(received(got) == bytes_of(parts));
    }
}

/// An upload in which nothing fails is answered as created, with the number of bytes
/// of its chunks, whatever they are: none, or empty ones, are as good as any. What
/// arrived is these chunks.
pub proof fn law_upload_succeeds(path: Seq<char>, parts: Seq<Vec<u8>>)
    ensures
        due(path, smooth(parts)),
        smooth(parts).last() is Renamed,
        received(smooth(parts)) == bytes_of(parts),
        run(path, smooth(parts)).phase == PhaseModel::Done(
            Status::Created,
            uploaded_text(path, bytes_of(parts).len()),
        ),
{
    lemma_chunks(path, parts);
    let all = chunks(parts);
    let ended = all.push(UploadEvent::BodyEnded);
    let flushed = ended.push(UploadEvent::Flushed);
    let done = flushed.push(UploadEvent::Renamed);
    assert(ended.drop_last() =~= all);
    assert(flushed.drop_last() =~= ended);
    assert(done.drop_last() =~= flushed);
    assert(run(path, ended).phase is Flushing && due(path, ended));
    assert(run(path, flushed).phase is Renaming && due(path, flushed));
    assert(due(path, done));
    assert(received(ended) == bytes_of(parts));
    assert(received(flushed) == bytes_of(parts));
    assert(received(done) == bytes_of(parts));
    law_upload_created_after_rename(path, done);
}

/// The temporary path of an upload is its path with `.TEMP` behind it, so it is never the
/// path itself, and two uploads share a temporary path only if they share a path.
pub proof fn law_temp_path_is_beside_its_place(path: Seq<char>, other: Seq<char>)
    ensures
        temp_path_of(path) == path + seq!['.', 'T', 'E', 'M', 'P'],
        temp_path_of(path).len() == path.len() + 5,
        temp_path_of(path) != path,
        path.is_prefix_of(temp_path_of(path)),
        temp_path_of(path) == temp_path_of(other) ==> path == other,
{
    reveal_strlit(".TEMP");
    let temp = temp_path_of(path);
    assert(temp =~= path + seq!['.', 'T', 'E', 'M', 'P']);
    assert(temp.len() == path.len() + 5);
    assert(path =~= temp.subrange(0, path.len() as int));
    if temp == temp_path_of(other) {
        assert(temp_path_of(other).len() == other.len() + 5);
        assert(other =~= temp_path_of(other).subrange(0, other.len() as int));
    }
}

/// Before the rename an upload touches no file but the one at its path with `.TEMP` behind
/// it: whatever was at its path, and at every other, is there as it was, or still missing.
pub proof fn law_files_are_untouched_until_renamed(
    disk: Map<Seq<char>, Seq<u8>>,
    path: Seq<char>,
    events: Seq<UploadEvent>,
    file: Seq<char>,
)
    requires
        due(path, events),
        forall|i: int| 0 <= i < events.len() ==> !(#[trigger] events[i] is Renamed),
        file != path + ".TEMP"@,
    ensures
        disk_after(disk, path, events).dom().contains(file) <==> disk.dom().contains(file),
        disk.dom().contains(file) ==> disk_after(disk, path, events)[file] == disk[file],
        disk_after(disk, path, events).dom().contains(path) <==> disk.dom().contains(path),
        disk.dom().contains(path) ==> disk_after(disk, path, events)[path] == disk[path],
{
    lemma_disk(disk, path, events);
    law_temp_path_is_beside_its_place(path, path);
    if events.len() > 0 {
        assert(!(events[events.len() - 1] is Renamed));
    }
}

/// An upload that failed never renamed its temporary file: whatever was at its path, and at
/// every other but its path with `.TEMP` behind it, is there as it was, or still missing.
pub proof fn law_failed_upload_leaves_files(
    disk: Map<Seq<char>, Seq<u8>>,
    path: Seq<char>,
    events: Seq<UploadEvent>,
    file: Seq<char>,
)
    requires
        due(path, events),
        run(path, events).phase matches PhaseModel::Done(s, _) && s.number() != 201,
        file != path + ".TEMP"@,
    ensures
        forall|i: int| 0 <= i < events.len() ==> !(#[trigger] events[i] is Renamed),
        disk_after(disk, path, events).dom().contains(file) <==> disk.dom().contains(file),
        disk.dom().contains(file) ==> disk_after(disk, path, events)[file] == disk[file],
        disk_after(disk, path, events).dom().contains(path) <==> disk.dom().contains(path),
        disk.dom().contains(path) ==> disk_after(disk, path, events)[path] == disk[path],
{
    law_upload_created_after_rename(path, events);
    lemma_renamed_is_last(path, events);
    assert forall|i: int| 0 <= i < events.len() implies !(#[trigger] events[i] is Renamed) by {
        if i == events.len() - 1 {
            assert(events[i] == events.last());
        }
    }
    law_files_are_untouched_until_renamed(disk, path, events, file);
}

proof fn lemma_renamed_is_last(path: Seq<char>, events: Seq<UploadEvent>)
    requires
        due(path, events),
    ensures
        forall|i: int| 0 <= i < events.len() - 1 ==> !(#[trigger] events[i] is Renamed),
    decreases events.len(),
{
    if events.len() > 0 {
        let before = events.drop_last();
        lemma_renamed_is_last(path, before);
        law_upload_created_after_rename(path, before);
        assert forall|i: int| 0 <= i < events.len() - 1 implies !(#[trigger] events[i]
            is Renamed) by {
            assert(events[i] == before[i]);
            if i == before.len() - 1 {
                assert(before.last() == before[i]);
            }
        }
    }
}

/// A completed upload is answered with its path and the number of bytes, in these words.
pub proof fn law_uploaded_text(path: Seq<char>, total: nat)
    ensures
        uploaded_text(path, total) == "File uploaded to "@ + path + " ("@ + text::decimal(total)
            + " bytes)"@,
{
}

/// An upload makes the parent directory, then the temporary file, then takes in and writes
/// chunk by chunk, and at the end of the body flushes and renames. After a failure to make
/// either of the first two it replies at once, and after any later one it removes the
/// temporary file first. What came of an action is taken in only where that action was due.
pub proof fn law_upload_does_what_is_next(phase: PhaseModel, event: UploadEvent)
    ensures
        phase.action() == UploadAction::CreateParent <==> phase is MakingParent,
        phase.action() == UploadAction::CreateTemp <==> phase is CreatingTemp,
        phase.action() == UploadAction::NextChunk <==> phase is Receiving,
        phase.action() == UploadAction::WriteChunk <==> phase is Writing,
        phase.action() == UploadAction::Flush <==> phase is Flushing,
        phase.action() == UploadAction::Rename <==> phase is Renaming,
        phase.action() == UploadAction::RemoveTemp <==> phase is Removing,
        phase.action() == UploadAction::Reply <==> phase is Done,
        phase.action() == event.outcome_of() <==> {
            ||| phase is MakingParent && (event is ParentReady || event is ParentFailed)
            ||| phase is CreatingTemp && (event is TempCreated || event is TempFailed)
            ||| phase is Receiving && (event is Chunk || event is BodyEnded
                || event is ReceiveFailed)
            ||| phase is Writing && (event is ChunkWritten || event is WriteFailed)
            ||| phase is Flushing && (event is Flushed || event is FlushFailed)
            ||| phase is Renaming && (event is Renamed || event is RenameFailed)
            ||| phase is Removing && event is TempRemoved
        },
{
}

/// Where an upload stands after each thing that can happen: the phase that follows, with the
/// chunk, or the message of the failure, whole. Its path never changes, and its content and
/// its count grow by the chunk that was written and by nothing else.
pub proof fn law_upload_goes_on(m: UploadModel, event: UploadEvent)
    requires
        m.phase.action() == event.outcome_of(),
    ensures
        ({
            let then = m.next(event);
            let replied = Status::InternalServerError;
            &&& then.path == m.path
            &&& match (m.phase, event) {
                (PhaseModel::Writing(chunk), UploadEvent::ChunkWritten) => then.content == m.content
                    + chunk && then.total == m.total + chunk.len(),
                _ => then.content == m.content && then.total == m.total,
            }
            &&& match event {
                UploadEvent::ParentReady => then.phase is CreatingTemp,
                UploadEvent::ParentFailed(e) => then.phase == PhaseModel::Done(
                    replied,
                    "Failed to create directory: "@ + e@,
                ),
                UploadEvent::TempCreated => then.phase is Receiving,
                UploadEvent::TempFailed(e) => then.phase == PhaseModel::Done(
                    replied,
                    "Failed to create temp file: "@ + e@,
                ),
                UploadEvent::Chunk(chunk) => then.phase == PhaseModel::Writing(chunk@),
                UploadEvent::BodyEnded => then.phase is Flushing,
                UploadEvent::ReceiveFailed(e) => then.phase == PhaseModel::Removing(
                    "Error receiving chunk: "@ + e@,
                ),
                UploadEvent::ChunkWritten => then.phase is Receiving,
                UploadEvent::WriteFailed(e) => then.phase == PhaseModel::Removing(
                    "Failed to write chunk: "@ + e@,
                ),
                UploadEvent::Flushed => then.phase is Renaming,
                UploadEvent::FlushFailed(e) => then.phase == PhaseModel::Removing(
                    "Failed to flush file: "@ + e@,
                ),
                UploadEvent::Renamed => then.phase == PhaseModel::Done(
                    Status::Created,
                    "File uploaded to "@ + m.path + " ("@ + text::decimal(m.total) + " bytes)"@,
                ),
                UploadEvent::RenameFailed(e) => then.phase == PhaseModel::Removing(
                    "Failed to rename temp file: "@ + e@,
                ),
                UploadEvent::TempRemoved => m.phase matches PhaseModel::Removing(message)
                    && then.phase == PhaseModel::Done(replied, message),
            }
        }),
{
    match (m.phase, event) {
        (PhaseModel::Writing(_), UploadEvent::ChunkWritten) => {},
        _ => {
            assert(m.next(event).content =~= m.content);
        },
    }
}

/// An upload begins with its path, nothing written, and the parent directory to be made.
pub proof fn law_upload_starts_empty(path: Seq<char>)
    ensures
        UploadModel::start(path).path == path,
        UploadModel::start(path).content.len() == 0,
        UploadModel::start(path).total == 0,
        UploadModel::start(path).phase is MakingParent,
{
}

/// What one more event adds to the course of an upload: it is in place if and only if the action
/// was due, and the upload goes on from where it stood. A chunk adds its bytes to those that
/// arrived, and to those written once it is.
pub proof fn law_upload_event_by_event(
    path: Seq<char>,
    events: Seq<UploadEvent>,
    event: UploadEvent,
    chunk: Vec<u8>,
)
    ensures
        run(path, Seq::empty()) == UploadModel::start(path),
        due(path, Seq::empty()),
        run(path, events.push(event)) == run(path, events).next(event),
        due(path, events.push(event)) <==> due(path, events) && run(path, events).phase.action()
            == event.outcome_of(),
        received(events.push(UploadEvent::Chunk(chunk))) == received(events) + chunk@,
        !(event is Chunk) ==> received(events.push(event)) == received(events),
        written(events.push(UploadEvent::Chunk(chunk)).push(UploadEvent::ChunkWritten)) == written(
            events,
        ) + chunk@,
        !(event is ChunkWritten) ==> written(events.push(event)) == written(events),
        received(Seq::empty()).len() == 0 && written(Seq::empty()).len() == 0,
{
    let more = events.push(event);
    assert(more.drop_last() =~= events);
    let got = events.push(UploadEvent::Chunk(chunk));
    let put = got.push(UploadEvent::ChunkWritten);
    assert(got.drop_last() =~= events);
    assert(put.drop_last() =~= got);
    assert(put[put.len() - 2] == UploadEvent::Chunk(chunk));
    assert(chunk_written_last(got) =~= Seq::empty());
    assert(written(got) =~= written(events));
    if !(event is ChunkWritten) {
        assert(chunk_written_last(more) =~= Seq::empty());
        assert(written(more) =~= written(events));
    }
}

/// What each event of an upload does to the files: the temporary file is made empty, a chunk that
/// was written goes to its end, the rename moves it to its place, and a removal removes it. Every
/// other event leaves all files alone.
pub proof fn law_disk_event_by_event(
    disk: Map<Seq<char>, Seq<u8>>,
    path: Seq<char>,
    events: Seq<UploadEvent>,
    event: UploadEvent,
    chunk: Vec<u8>,
)
    ensures
        ({
            let temp = path + ".TEMP"@;
            let before = disk_after(disk, path, events);
            let got = events.push(UploadEvent::Chunk(chunk));
            &&& disk_after(disk, path, Seq::empty()) == disk
            &&& disk_after(disk, path, events.push(UploadEvent::TempCreated)) == before.insert(
                temp,
                Seq::empty(),
            )
            &&& disk_after(disk, path, got.push(UploadEvent::ChunkWritten)) == before.insert(
                temp,
                before[temp] + chunk@,
            )
            &&& disk_after(disk, path, events.push(UploadEvent::Renamed)) == before.remove(
                temp,
            ).insert(path, before[temp])
            &&& disk_after(disk, path, events.push(UploadEvent::TempRemoved)) == before.remove(temp)
            &&& !(event is TempCreated || event is ChunkWritten || event is Renamed
                || event is TempRemoved) ==> disk_after(disk, path, events.push(event)) == before
        }),
{
    let got = events.push(UploadEvent::Chunk(chunk));
    let put = got.push(UploadEvent::ChunkWritten);
    assert(got.drop_last() =~= events);
    assert(disk_after(disk, path, got) == disk_after(disk, path, events));
    assert(put.drop_last() =~= got);
    assert(put[put.len() - 2] == UploadEvent::Chunk(chunk));
    assert(events.push(UploadEvent::TempCreated).drop_last() =~= events);
    assert(events.push(UploadEvent::Renamed).drop_last() =~= events);
    assert(events.push(UploadEvent::TempRemoved).drop_last() =~= events);
    assert(events.push(event).drop_last() =~= events);
}

} // verus!
