use vstd::prelude::*;

use crate::error::{persistence_kind, ErrorKind, PersistenceError, PersistenceErrorView};
use crate::file_name::{
    has_traversal, is_valid_file_name, lemma_temp_is_not_stored, lemma_temp_paths_distinct,
    lemma_traversal_is_invalid, scratch_dir, scratch_dir_string, storage_dir, storage_dir_string, stored_path, stored_path_string, temp_path, temp_path_string, validate_file_name,
};

verus! {

/// Where a save stands. Each stage asks the host for one file operation.
pub enum SaveStage {
    /// Making sure the storage directory exists.
    CreatingDir,
    /// Making sure the scratch directory for temporary files exists.
    CreatingScratchDir,
    /// Writing the bytes to the save's temporary file.
    WritingTemp,
    /// Moving the temporary file onto the stored path.
    Committing,
    /// Removing the temporary file after a failure, which is then reported.
    CleaningUp(PersistenceError),
    /// Done; holds what the caller gets.
    Finished(Result<String, PersistenceError>),
}

/// The mathematical value of a [`SaveStage`].
pub enum SaveStageView {
    CreatingDir,
    CreatingScratchDir,
    WritingTemp,
    Committing,
    CleaningUp(PersistenceErrorView),
    Finished(Result<Seq<char>, PersistenceErrorView>),
}

pub open spec fn result_view(r: Result<String, PersistenceError>) -> Result<Seq<char>, PersistenceErrorView> {
    match r {
        Ok(p) => Ok(p@),
        Err(e) => Err(e@),
    }
}

impl View for SaveStage {
    type V = SaveStageView;

    open spec fn view(&self) -> SaveStageView {
        match self {
            SaveStage::CreatingDir => SaveStageView::CreatingDir,
            SaveStage::CreatingScratchDir => SaveStageView::CreatingScratchDir,
            SaveStage::WritingTemp => SaveStageView::WritingTemp,
            SaveStage::Committing => SaveStageView::Committing,
            SaveStage::CleaningUp(e) => SaveStageView::CleaningUp(e@),
            SaveStage::Finished(r) => SaveStageView::Finished(result_view(*r)),
        }
    }
}

/// A file operation that the host performs for a save.
#[derive(Debug)]
pub enum FileOp {
    /// Create the directory if it is absent; an existing one is success.
    CreateDir(String),
    /// Write the whole payload to this path, replacing what is there.
    WriteTemp(String),
    /// Atomically move the first path onto the second.
    Rename(String, String),
    /// Remove this path.
    RemoveTemp(String),
    /// Nothing more to do: hand this result to the caller.
    Finish(Result<String, PersistenceError>),
}

/// The mathematical value of a [`FileOp`].
pub enum FileOpView {
    CreateDir(Seq<char>),
    WriteTemp(Seq<char>),
    Rename(Seq<char>, Seq<char>),
    RemoveTemp(Seq<char>),
    Finish(Result<Seq<char>, PersistenceErrorView>),
}

impl View for FileOp {
    type V = FileOpView;

    open spec fn view(&self) -> FileOpView {
        match self {
            FileOp::CreateDir(p) => FileOpView::CreateDir(p@),
            FileOp::WriteTemp(p) => FileOpView::WriteTemp(p@),
            FileOp::Rename(f, t) => FileOpView::Rename(f@, t@),
            FileOp::RemoveTemp(p) => FileOpView::RemoveTemp(p@),
            FileOp::Finish(r) => FileOpView::Finish(result_view(*r)),
        }
    }
}

/// One save of one clip, from validation to the reported result. The host
/// performs [`SaveJob::next_op`] and reports how it went to
/// [`SaveJob::advance`] until the operation is `Finish`.
pub struct SaveJob {
    name: String,
    ticket: u64,
    data: Vec<u8>,
    stage: SaveStage,
}

/// The mathematical value of a [`SaveJob`].
pub struct SaveJobView {
    pub name: Seq<char>,
    pub ticket: nat,
    pub data: Seq<u8>,
    pub stage: SaveStageView,
}

impl View for SaveJob {
    type V = SaveJobView;

    closed spec fn view(&self) -> SaveJobView {
        SaveJobView { name: self.name@, ticket: self.ticket as nat, data: self.data@, stage: self.stage@ }
    }
}

/// How the host reports a file operation: success, or its error message.
pub open spec fn outcome_view(o: Result<(), String>) -> Result<(), Seq<char>> {
    match o {
        Ok(_) => Ok(()),
        Err(m) => Err(m@),
    }
}

/// A save of `data` under `name` that has not yet touched the disk.
pub open spec fn initial_job(name: Seq<char>, ticket: nat, data: Seq<u8>) -> SaveJobView {
    SaveJobView { name, ticket, data, stage: SaveStageView::CreatingDir }
}

/// The operation that a save asks for in its present stage.
pub open spec fn next_op(j: SaveJobView) -> FileOpView {
    match j.stage {
        SaveStageView::CreatingDir => FileOpView::CreateDir(storage_dir()),
        SaveStageView::CreatingScratchDir => FileOpView::CreateDir(scratch_dir()),
        SaveStageView::WritingTemp => FileOpView::WriteTemp(temp_path(j.name, j.ticket)),
        SaveStageView::Committing => FileOpView::Rename(temp_path(j.name, j.ticket), stored_path(j.name)),
        SaveStageView::CleaningUp(_) => FileOpView::RemoveTemp(temp_path(j.name, j.ticket)),
        SaveStageView::Finished(r) => FileOpView::Finish(r),
    }
}

/// The stage that follows once the host reports `outcome` for the present
/// operation. No failure is retried; a failure after the temporary file may
/// exist first removes it.
pub open spec fn next_stage(j: SaveJobView, outcome: Result<(), Seq<char>>) -> SaveStageView {
    match j.stage {
        SaveStageView::CreatingDir => match outcome {
            Ok(_) => SaveStageView::CreatingScratchDir,
            Err(m) => SaveStageView::Finished(Err(PersistenceErrorView::DirectoryCreateFailed(m))),
        },
        SaveStageView::CreatingScratchDir => match outcome {
            Ok(_) => SaveStageView::WritingTemp,
            Err(m) => SaveStageView::Finished(Err(PersistenceErrorView::DirectoryCreateFailed(m))),
        },
        SaveStageView::WritingTemp => match outcome {
            Ok(_) => SaveStageView::Committing,
            Err(m) => SaveStageView::CleaningUp(PersistenceErrorView::WriteFailed(m)),
        },
        SaveStageView::Committing => match outcome {
            Ok(_) => SaveStageView::Finished(Ok(stored_path(j.name))),
            Err(m) => SaveStageView::CleaningUp(PersistenceErrorView::WriteFailed(m)),
        },
        SaveStageView::CleaningUp(e) => SaveStageView::Finished(Err(e)),
        SaveStageView::Finished(r) => SaveStageView::Finished(r),
    }
}

pub open spec fn step(j: SaveJobView, outcome: Result<(), Seq<char>>) -> SaveJobView {
    SaveJobView { stage: next_stage(j, outcome), ..j }
}

/// The files on disk, by path: the model in which saves are reasoned about.
pub type FileTree = Map<Seq<char>, Seq<u8>>;

/// Whether `after` is a state of the files that the host may leave when it
/// performs `op` for a save of `data` and reports success (`ok`) or failure.
/// A failed write or removal may leave anything at its own path, and nothing
/// elsewhere; a failed move changes nothing.
pub open spec fn op_effect(before: FileTree, op: FileOpView, data: Seq<u8>, ok: bool, after: FileTree) -> bool {
    match op {
        FileOpView::CreateDir(_) => after == before,
        FileOpView::WriteTemp(t) => if ok {
            after == before.insert(t, data)
        } else {
            after.remove(t) == before.remove(t)
        },
        FileOpView::Rename(f, t) => if ok {
            before.contains_key(f) && after == before.remove(f).insert(t, before[f])
        } else {
            after == before
        },
        FileOpView::RemoveTemp(t) => if ok {
            after == before.remove(t)
        } else {
            after.remove(t) == before.remove(t)
        },
        FileOpView::Finish(_) => after == before,
    }
}

impl SaveJob {
    /// Starts a save of `data` under `file_name`. `ticket` tells apart the
    /// temporary files of saves that run at the same time, so it must differ
    /// between such saves. A name that is not one safe path segment is
    /// refused before anything touches the disk.
    pub fn new(file_name: &str, ticket: u64, data: Vec<u8>) -> (r: Result<SaveJob, PersistenceError>)
        ensures
            match r {
                Ok(j) => is_valid_file_name(file_name@) && j@ == initial_job(file_name@, ticket as nat, data@),
                Err(e) => !is_valid_file_name(file_name@) && e@ == PersistenceErrorView::InvalidFileName,
            },
    {
        if !validate_file_name(file_name) {
            return Err(PersistenceError::InvalidFileName);
        }
        Ok(SaveJob { name: String::from_str(file_name), ticket, data, stage: SaveStage::CreatingDir })
    }

    /// The bytes to be written.
    pub fn payload(&self) -> (r: &Vec<u8>)
        ensures
            r@ == self@.data,
    {
        &self.data
    }

    /// Whether the save is over, its result being that of `next_op`.
    pub fn is_finished(&self) -> (r: bool)
        ensures
            r == (self@.stage is Finished),
    {
        match self.stage {
            SaveStage::Finished(_) => true,
            _ => false,
        }
    }

    /// The operation the host is to perform now.
    pub fn next_op(&self) -> (r: FileOp)
        ensures
            r@ == next_op(self@),
    {
        match &self.stage {
            SaveStage::CreatingDir => FileOp::CreateDir(storage_dir_string()),
            SaveStage::CreatingScratchDir => FileOp::CreateDir(scratch_dir_string()),
            SaveStage::WritingTemp => FileOp::WriteTemp(temp_path_string(self.name.as_str(), self.ticket)),
            SaveStage::Committing => FileOp::Rename(
                temp_path_string(self.name.as_str(), self.ticket),
                stored_path_string(self.name.as_str()),
            ),
            SaveStage::CleaningUp(_) => FileOp::RemoveTemp(temp_path_string(self.name.as_str(), self.ticket)),
            SaveStage::Finished(Ok(p)) => FileOp::Finish(Ok(p.clone())),
            SaveStage::Finished(Err(e)) => FileOp::Finish(Err(e.duplicate())),
        }
    }

    /// Takes the host's report on the operation of `next_op` and moves on.
    pub fn advance(&mut self, outcome: Result<(), String>)
        ensures
            final(self)@ == step(old(self)@, outcome_view(outcome)),
    {
        let next = match (&self.stage, outcome) {
            (SaveStage::CreatingDir, Ok(_)) => SaveStage::CreatingScratchDir,
            (SaveStage::CreatingDir, Err(m)) => SaveStage::Finished(Err(PersistenceError::DirectoryCreateFailed(m))),
            (SaveStage::CreatingScratchDir, Ok(_)) => SaveStage::WritingTemp,
            (SaveStage::CreatingScratchDir, Err(m)) => SaveStage::Finished(
                Err(PersistenceError::DirectoryCreateFailed(m)),
            ),
            (SaveStage::WritingTemp, Ok(_)) => SaveStage::Committing,
            (SaveStage::WritingTemp, Err(m)) => SaveStage::CleaningUp(PersistenceError::WriteFailed(m)),
            (SaveStage::Committing, Ok(_)) => SaveStage::Finished(Ok(stored_path_string(self.name.as_str()))),
            (SaveStage::Committing, Err(m)) => SaveStage::CleaningUp(PersistenceError::WriteFailed(m)),
            (SaveStage::CleaningUp(e), _) => SaveStage::Finished(Err(e.duplicate())),
            (SaveStage::Finished(Ok(p)), _) => SaveStage::Finished(Ok(p.clone())),
            (SaveStage::Finished(Err(e)), _) => SaveStage::Finished(Err(e.duplicate())),
        };
        self.stage = next;
    }
}

/// Four successful operations take a save of a valid name from its start
/// to success: the caller gets the stored path, reading that path gives
/// back exactly the saved bytes, and no other path is left changed.
pub proof fn lemma_round_trip(
    name: Seq<char>,
    ticket: nat,
    data: Seq<u8>,
    fs0: FileTree,
    fs1: FileTree,
    fs2: FileTree,
    fs3: FileTree,
    fs4: FileTree,
)
    requires
        is_valid_file_name(name),
        op_effect(fs0, next_op(initial_job(name, ticket, data)), data, true, fs1),
        op_effect(fs1, next_op(step(initial_job(name, ticket, data), Ok(()))), data, true, fs2),
        op_effect(fs2, next_op(step(step(initial_job(name, ticket, data), Ok(())), Ok(()))), data, true, fs3),
        op_effect(
            fs3,
            next_op(step(step(step(initial_job(name, ticket, data), Ok(())), Ok(())), Ok(()))),
            data,
            true,
            fs4,
        ),
    ensures
        next_op(step(step(step(step(initial_job(name, ticket, data), Ok(())), Ok(())), Ok(())), Ok(())))
            == FileOpView::Finish(Ok(stored_path(name))),
        fs4.contains_key(stored_path(name)),
        fs4[stored_path(name)] == data,
        fs4 == fs0.remove(temp_path(name, ticket)).insert(stored_path(name), data),
{
    lemma_temp_is_not_stored(name, name, ticket);
    assert(fs4 =~= fs0.remove(temp_path(name, ticket)).insert(stored_path(name), data));
}

/// A name that holds a `..` segment is refused as invalid input, so no
/// save starts and no file operation is asked for.
pub proof fn lemma_traversal_rejected(name: Seq<char>)
    requires
        has_traversal(name),
    ensures
        !is_valid_file_name(name),
        persistence_kind(PersistenceErrorView::InvalidFileName) == ErrorKind::InputValidation,
{
    lemma_traversal_is_invalid(name);
}

/// An operation of another save, successful or not, leaves this save's
/// temporary file and every stored path as they were, unless it is that
/// save's own successful move into place.
pub proof fn lemma_other_save_spares_temp(a: SaveJobView, b: SaveJobView, ok: bool, before: FileTree, after: FileTree)
    requires
        a.name != b.name || a.ticket != b.ticket,
        op_effect(before, next_op(b), b.data, ok, after),
    ensures
        after.contains_key(temp_path(a.name, a.ticket)) == before.contains_key(temp_path(a.name, a.ticket)),
        after[temp_path(a.name, a.ticket)] == before[temp_path(a.name, a.ticket)],
        !(ok && b.stage is Committing) ==> after.contains_key(stored_path(a.name)) == before.contains_key(
            stored_path(a.name),
        ) && after[stored_path(a.name)] == before[stored_path(a.name)],
{
    let t = temp_path(a.name, a.ticket);
    let p = stored_path(a.name);
    lemma_temp_paths_distinct(a.name, a.ticket, b.name, b.ticket);
    lemma_temp_is_not_stored(a.name, b.name, a.ticket);
    lemma_temp_is_not_stored(b.name, a.name, b.ticket);
    let tb = temp_path(b.name, b.ticket);
    if !ok && (b.stage is WritingTemp || b.stage is CleaningUp) {
        assert(after.remove(tb).contains_key(t) == before.remove(tb).contains_key(t));
        assert(after.remove(tb)[t] == before.remove(tb)[t]);
        assert(after.remove(tb).contains_key(p) == before.remove(tb).contains_key(p));
        assert(after.remove(tb)[p] == before.remove(tb)[p]);
    }
}

proof fn lemma_temp_survives(
    a: SaveJobView,
    others: Seq<SaveJobView>,
    oks: Seq<bool>,
    fs: Seq<FileTree>,
    i: int,
)
    requires
        0 <= i <= others.len(),
        fs.len() == others.len() + 3,
        oks.len() == others.len(),
        fs[1].contains_key(temp_path(a.name, a.ticket)),
        fs[1][temp_path(a.name, a.ticket)] == a.data,
        forall|j: int|
            0 <= j < others.len() ==> {
                &&& (#[trigger] others[j]).name != a.name || others[j].ticket != a.ticket
                &&& op_effect(fs[j + 1], next_op(others[j]), others[j].data, oks[j], fs[j + 2])
            },
    ensures
        fs[i + 1].contains_key(temp_path(a.name, a.ticket)),
        fs[i + 1][temp_path(a.name, a.ticket)] == a.data,
    decreases i,
{
    if i > 0 {
        lemma_temp_survives(a, others, oks, fs, i - 1);
        lemma_other_save_spares_temp(a, others[i - 1], oks[i - 1], fs[i], fs[i + 1]);
    }
}

/// Once a save has written its temporary file, any operations of other
/// saves with other tickets (of this name or another, successful or not)
/// may come before its move into place, and the stored path then holds
/// exactly its payload.
pub proof fn lemma_concurrent_saves_never_mix(
    a: SaveJobView,
    others: Seq<SaveJobView>,
    oks: Seq<bool>,
    fs: Seq<FileTree>,
)
    requires
        a.stage == SaveStageView::WritingTemp,
        fs.len() == others.len() + 3,
        oks.len() == others.len(),
        op_effect(fs[0], next_op(a), a.data, true, fs[1]),
        forall|j: int|
            0 <= j < others.len() ==> {
                &&& (#[trigger] others[j]).name != a.name || others[j].ticket != a.ticket
                &&& op_effect(fs[j + 1], next_op(others[j]), others[j].data, oks[j], fs[j + 2])
            },
        op_effect(fs[others.len() as int + 1], next_op(step(a, Ok(()))), a.data, true, fs[others.len() as int + 2]),
    ensures
        fs[others.len() as int + 2].contains_key(stored_path(a.name)),
        fs[others.len() as int + 2][stored_path(a.name)] == a.data,
{
    lemma_temp_survives(a, others, oks, fs, others.len() as int);
}

/// A move of one of two saves: which one moves (`true` for the first), and
/// what the host reported for its operation.
pub type SaveMove = (bool, Result<(), Seq<char>>);

/// The two saves after the moves of `moves`, in order.
pub open spec fn replay(a: SaveJobView, b: SaveJobView, moves: Seq<SaveMove>) -> (SaveJobView, SaveJobView)
    decreases moves.len(),
{
    if moves.len() == 0 {
        (a, b)
    } else {
        let (x, y) = replay(a, b, moves.drop_last());
        let m = moves.last();
        if m.0 {
            (step(x, m.1), y)
        } else {
            (x, step(y, m.1))
        }
    }
}

/// Whether `fs` is a history of the files while the two saves make the
/// moves of `moves`: each move's operation takes one state to the next.
pub open spec fn is_history(a: SaveJobView, b: SaveJobView, moves: Seq<SaveMove>, fs: Seq<FileTree>) -> bool {
    &&& fs.len() == moves.len() + 1
    &&& forall|i: int|
        0 <= i < moves.len() ==> {
            let (x, y) = replay(a, b, moves.take(i));
            let mover = if (#[trigger] moves[i]).0 { x } else { y };
            op_effect(fs[i], next_op(mover), mover.data, moves[i].1 is Ok, fs[i + 1])
        }
}

/// Whether the save has reported success.
pub open spec fn succeeded(j: SaveJobView) -> bool {
    match j.stage {
        SaveStageView::Finished(Ok(_)) => true,
        _ => false,
    }
}

pub open spec fn temp_ready(j: SaveJobView, fs: FileTree) -> bool {
    j.stage is Committing ==> fs.contains_key(temp_path(j.name, j.ticket)) && fs[temp_path(j.name, j.ticket)]
        == j.data
}

/// What holds at every point of two saves of one name: a save about to
/// move its file into place has its whole payload in its temporary file,
/// and once either has succeeded, the stored path holds one payload whole.
pub open spec fn never_mixed(a: SaveJobView, b: SaveJobView, fs: FileTree) -> bool {
    &&& temp_ready(a, fs)
    &&& temp_ready(b, fs)
    &&& (succeeded(a) || succeeded(b)) ==> fs.contains_key(stored_path(a.name)) && (fs[stored_path(a.name)]
        == a.data || fs[stored_path(a.name)] == b.data)
}

proof fn lemma_move_keeps_never_mixed(
    m: SaveJobView,
    o: SaveJobView,
    outcome: Result<(), Seq<char>>,
    before: FileTree,
    after: FileTree,
)
    requires
        m.name == o.name,
        m.ticket != o.ticket,
        never_mixed(m, o, before),
        op_effect(before, next_op(m), m.data, outcome is Ok, after),
    ensures
        never_mixed(step(m, outcome), o, after),
{
    lemma_other_save_spares_temp(o, m, outcome is Ok, before, after);
    lemma_temp_is_not_stored(m.name, m.name, m.ticket);
    let t = temp_path(m.name, m.ticket);
    let p = stored_path(m.name);
    if !(outcome is Ok) && (m.stage is WritingTemp || m.stage is CleaningUp) {
        assert(after.remove(t).contains_key(p) == before.remove(t).contains_key(p));
        assert(after.remove(t)[p] == before.remove(t)[p]);
    }
}

proof fn lemma_replay_fields(a: SaveJobView, b: SaveJobView, moves: Seq<SaveMove>)
    ensures
        replay(a, b, moves).0.name == a.name && replay(a, b, moves).0.ticket == a.ticket && replay(
            a,
            b,
            moves,
        ).0.data == a.data,
        replay(a, b, moves).1.name == b.name && replay(a, b, moves).1.ticket == b.ticket && replay(
            a,
            b,
            moves,
        ).1.data == b.data,
    decreases moves.len(),
{
    if moves.len() > 0 {
        lemma_replay_fields(a, b, moves.drop_last());
    }
}

proof fn lemma_history_never_mixed(a: SaveJobView, b: SaveJobView, moves: Seq<SaveMove>, fs: Seq<FileTree>, i: int)
    requires
        a.name == b.name,
        a.ticket != b.ticket,
        never_mixed(a, b, fs[0]),
        is_history(a, b, moves, fs),
        0 <= i <= moves.len(),
    ensures
        never_mixed(replay(a, b, moves.take(i)).0, replay(a, b, moves.take(i)).1, fs[i]),
    decreases i,
{
    if i == 0 {
        assert(moves.take(0) =~= Seq::<SaveMove>::empty());
    } else {
        lemma_history_never_mixed(a, b, moves, fs, i - 1);
        let pre = moves.take(i - 1);
        assert(moves.take(i).drop_last() =~= pre);
        assert(moves.take(i).last() == moves[i - 1]);
        lemma_replay_fields(a, b, pre);
        let (x, y) = replay(a, b, pre);
        let m = moves[i - 1];
        assert(op_effect(fs[i - 1], next_op(if m.0 { x } else { y }), (if m.0 { x } else { y }).data, m.1 is Ok, fs[i]));
        if m.0 {
            lemma_move_keeps_never_mixed(x, y, m.1, fs[i - 1], fs[i]);
        } else {
            lemma_move_keeps_never_mixed(y, x, m.1, fs[i - 1], fs[i]);
        }
    }
}

/// Two saves of one name with different tickets, their operations
/// interleaved in any order and each answered by the host in any way: once
/// either has reported success, the file holds one of the two payloads in
/// full, never a mix of both.
pub proof fn lemma_interleaved_saves_keep_one_payload(
    name: Seq<char>,
    t1: nat,
    d1: Seq<u8>,
    t2: nat,
    d2: Seq<u8>,
    moves: Seq<SaveMove>,
    fs: Seq<FileTree>,
)
    requires
        t1 != t2,
        is_history(initial_job(name, t1, d1), initial_job(name, t2, d2), moves, fs),
    ensures
        succeeded(replay(initial_job(name, t1, d1), initial_job(name, t2, d2), moves).0) || succeeded(
            replay(initial_job(name, t1, d1), initial_job(name, t2, d2), moves).1,
        ) ==> fs.last().contains_key(stored_path(name)) && (fs.last()[stored_path(name)] == d1
            || fs.last()[stored_path(name)] == d2),
{
    let a = initial_job(name, t1, d1);
    let b = initial_job(name, t2, d2);
    lemma_history_never_mixed(a, b, moves, fs, moves.len() as int);
    assert(moves.take(moves.len() as int) =~= moves);
    lemma_replay_fields(a, b, moves);
}

/// Two saves of one name, one after the other, both successful: the file
/// holds the second payload in full.
pub proof fn lemma_last_save_wins(
    name: Seq<char>,
    t1: nat,
    d1: Seq<u8>,
    t2: nat,
    d2: Seq<u8>,
    fs: Seq<FileTree>,
)
    requires
        is_valid_file_name(name),
        fs.len() == 9,
        op_effect(fs[0], next_op(initial_job(name, t1, d1)), d1, true, fs[1]),
        op_effect(fs[1], next_op(step(initial_job(name, t1, d1), Ok(()))), d1, true, fs[2]),
        op_effect(fs[2], next_op(step(step(initial_job(name, t1, d1), Ok(())), Ok(()))), d1, true, fs[3]),
        op_effect(
            fs[3],
            next_op(step(step(step(initial_job(name, t1, d1), Ok(())), Ok(())), Ok(()))),
            d1,
            true,
            fs[4],
        ),
        op_effect(fs[4], next_op(initial_job(name, t2, d2)), d2, true, fs[5]),
        op_effect(fs[5], next_op(step(initial_job(name, t2, d2), Ok(()))), d2, true, fs[6]),
        op_effect(fs[6], next_op(step(step(initial_job(name, t2, d2), Ok(())), Ok(()))), d2, true, fs[7]),
        op_effect(
            fs[7],
            next_op(step(step(step(initial_job(name, t2, d2), Ok(())), Ok(())), Ok(()))),
            d2,
            true,
            fs[8],
        ),
    ensures
        fs[8].contains_key(stored_path(name)),
        fs[8][stored_path(name)] == d2,
{
    lemma_round_trip(name, t1, d1, fs[0], fs[1], fs[2], fs[3], fs[4]);
    lemma_round_trip(name, t2, d2, fs[4], fs[5], fs[6], fs[7], fs[8]);
}

/// A save whose write fails reports the failure after removing its
/// temporary file: every other path is as it was, the stored one included,
/// so no truncated clip is left and the save can be retried.
pub proof fn lemma_failed_write_leaves_no_trace(
    name: Seq<char>,
    ticket: nat,
    data: Seq<u8>,
    message: Seq<char>,
    fs0: FileTree,
    fs1: FileTree,
    fs2: FileTree,
    fs3: FileTree,
    fs4: FileTree,
)
    requires
        op_effect(fs0, next_op(initial_job(name, ticket, data)), data, true, fs1),
        op_effect(fs1, next_op(step(initial_job(name, ticket, data), Ok(()))), data, true, fs2),
        op_effect(fs2, next_op(step(step(initial_job(name, ticket, data), Ok(())), Ok(()))), data, false, fs3),
        op_effect(
            fs3,
            next_op(step(step(step(initial_job(name, ticket, data), Ok(())), Ok(())), Err(message))),
            data,
            true,
            fs4,
        ),
    ensures
        next_op(step(step(step(step(initial_job(name, ticket, data), Ok(())), Ok(())), Err(message)), Ok(())))
            == FileOpView::Finish(Err(PersistenceErrorView::WriteFailed(message))),
        fs4 == fs0.remove(temp_path(name, ticket)),
{
    assert(fs4 =~= fs0.remove(temp_path(name, ticket)));
}

} // verus!
