//! Receiving what was shared: fetching the data that is not here yet, and saving the files in the
//! folder that the user picks.
//!
//! The receiver is a state machine: it takes what happened and says what to tell the user
//! interface and what to do next. The data, the network and the disk are the caller's.

use crate::crypto::hex_encode;
use crate::events::UiEvent;
use crate::path::{as_path, copy_path, get_export_path, picked_path, shown_text, Picked};
use std::path::PathBuf;
use vstd::prelude::*;
use vstd::string::StringExecFns;

verus! {

/// How many bytes the list of what is shared may have.
pub const LIST_LIMIT: u64 = 33554432;

/// A file of what was shared.
pub struct SharedFile {
    pub name: String,
    pub hash: [u8; 32],
}

/// A file of what was shared as the contracts speak of it.
pub struct Listed {
    pub name: Seq<char>,
    pub hash: Seq<u8>,
}

impl View for SharedFile {
    type V = Listed;

    open spec fn view(&self) -> Listed {
        Listed { name: self.name@, hash: self.hash@ }
    }
}

/// The files of what was shared, in order.
pub open spec fn listed(files: Seq<SharedFile>) -> Seq<Listed> {
    files.map_values(|f: SharedFile| f@)
}

/// The name of the folder for the data with this hash.
pub open spec fn recv_dir(hash: Seq<u8>) -> Seq<char> {
    ".halfcopy-recv-"@ + crate::crypto::hex_text(hash)
}

/// The sum of the sizes.
pub open spec fn total(sizes: Seq<u64>) -> nat
    decreases sizes.len(),
{
    if sizes.len() == 0 {
        0
    } else {
        total(sizes.drop_last()) + sizes.last() as nat
    }
}

proof fn lemma_total_grows(sizes: Seq<u64>, n: int)
    requires
        0 <= n <= sizes.len(),
    ensures
        total(sizes.take(n)) <= total(sizes),
    decreases sizes.len(),
{
    if n < sizes.len() {
        lemma_total_grows(sizes.drop_last(), n);
        assert(sizes.drop_last().take(n) =~= sizes.take(n));
    } else {
        assert(sizes.take(n) =~= sizes);
    }
}

/// Adds up the sizes. There is no sum if it is too large.
pub fn total_size(sizes: &[u64]) -> (r: Option<u64>)
    ensures
        r is Some <==> total(sizes@) <= u64::MAX,
        r matches Some(sum) ==> sum == total(sizes@),
{
    let mut sum: u64 = 0;
    let mut i: usize = 0;
    assert(sizes@.take(0) =~= seq![]);
    while i < sizes.len()
        invariant
            0 <= i <= sizes.len(),
            sum == total(sizes@.take(i as int)),
        decreases sizes.len() - i,
    {
        proof {
            assert(sizes@.take(i + 1).drop_last() =~= sizes@.take(i as int));
            assert(sizes@.take(i + 1).last() == sizes@[i as int]);
            lemma_total_grows(sizes@, i + 1);
        }
        match sum.checked_add(sizes[i]) {
            Some(next) => {
                sum = next;
            },
            None => {
                return None;
            },
        }
        i += 1;
    }
    assert(sizes@.take(sizes@.len() as int) =~= sizes@);
    Some(sum)
}

/// Why nothing, or not everything, was received.
#[derive(Debug)]
pub enum RecvError {
    /// Something else went wrong, in these words.
    Stopped(String),
    /// There is a file already where one was to be saved, at this path.
    TargetExists(String),
    /// The event does not belong to the state.
    OutOfOrder,
}

/// An error as the contracts speak of it.
pub enum RecvFailure {
    Stopped(Seq<char>),
    TargetExists(Seq<char>),
    OutOfOrder,
}

impl View for RecvError {
    type V = RecvFailure;

    open spec fn view(&self) -> RecvFailure {
        match self {
            RecvError::Stopped(text) => RecvFailure::Stopped(text@),
            RecvError::TargetExists(shown) => RecvFailure::TargetExists(shown@),
            RecvError::OutOfOrder => RecvFailure::OutOfOrder,
        }
    }
}

/// What the user is told of a failure.
pub open spec fn recv_words(why: RecvFailure) -> Seq<char> {
    match why {
        RecvFailure::Stopped(text) => text,
        RecvFailure::TargetExists(shown) => "target "@ + shown + " already exists"@,
        RecvFailure::OutOfOrder => "Unexpected event"@,
    }
}

impl RecvError {
    /// What to tell the user.
    pub fn describe(&self) -> (r: String)
        ensures
            r@ == recv_words(self@),
    {
        match self {
            RecvError::Stopped(text) => text.clone(),
            RecvError::TargetExists(shown) => "target ".to_owned().concat(shown.as_str()).concat(
                " already exists",
            ),
            RecvError::OutOfOrder => "Unexpected event".to_owned(),
        }
    }
}

/// Where the receiver stands.
pub enum RecvState {
    /// What is here already is being looked up.
    AwaitLocal,
    /// The peer is being asked for the sizes; so many bytes are here.
    AwaitSizes { position: u64 },
    /// The rest is being fetched; so many bytes were here before.
    Downloading { position: u64 },
    /// The list of the files is being read.
    AwaitCollection,
    /// The user is being asked for a folder.
    AwaitFolder { files: Vec<SharedFile> },
    /// It is being looked up whether there is something at the target of the file `at`.
    AwaitChecked { files: Vec<SharedFile>, root: PathBuf, at: usize, target: PathBuf },
    /// The file `at` is being saved.
    AwaitExported { files: Vec<SharedFile>, root: PathBuf, at: usize },
    /// The folder for the data is being removed.
    AwaitRemoved,
    /// It is over.
    Ended,
}

/// What happens to the receiver.
pub enum RecvEvent {
    /// Whether all the data is here, and how many bytes are.
    Local { complete: bool, bytes: u64 },
    /// The sizes of what is shared.
    Sizes(Vec<u64>),
    /// So many bytes were fetched.
    Progress(u64),
    /// Everything was fetched.
    Fetched,
    /// The files of what is shared.
    Collection(Vec<SharedFile>),
    /// The answer of the user who was asked for a folder.
    Folder(Picked<PathBuf>),
    /// Whether there is something at the target.
    Checked { exists: bool },
    /// The file was saved.
    Exported,
    /// The folder for the data was removed.
    Removed,
    /// What was to be done failed, in these words.
    Failed(String),
}

/// What the receiver does next.
pub enum RecvAction {
    /// Call the peer and ask for the sizes.
    AskSizes,
    /// Begin to fetch the data that is missing.
    Fetch,
    /// Wait for more of the data.
    AwaitMore,
    /// Read the list of the files.
    LoadCollection,
    /// Ask the user for a folder.
    PickFolder,
    /// Look up whether there is something at this path.
    CheckTarget(PathBuf),
    /// Save the data with this hash at this path.
    Export { hash: [u8; 32], target: PathBuf },
    /// Remove the folder for the data.
    RemoveDir,
    /// Stop: everything was received.
    Done,
    /// Stop.
    Fail(RecvError),
}

/// A step of the receiver: where it stands, what to tell the user interface first, and what to do
/// then.
pub struct RecvStep {
    pub state: RecvState,
    pub tell: Vec<UiEvent>,
    pub action: RecvAction,
}

/// A receiver's state as the contracts speak of it.
pub enum Saving {
    AwaitLocal,
    AwaitSizes { position: u64 },
    Downloading { position: u64 },
    AwaitCollection,
    AwaitFolder { files: Seq<Listed> },
    AwaitChecked {
        files: Seq<Listed>,
        root: crate::path::PathValue,
        at: nat,
        target: crate::path::PathValue,
    },
    AwaitExported { files: Seq<Listed>, root: crate::path::PathValue, at: nat },
    AwaitRemoved,
    Ended,
}

/// The answer of the user who was asked for a folder, as the contracts speak of it.
pub enum Folder {
    Path(crate::path::PathValue),
    Cancelled,
    Unknown(Seq<char>),
}

/// An event for the receiver as the contracts speak of it.
pub enum SaverHears {
    Local { complete: bool, bytes: u64 },
    Sizes(Seq<u64>),
    Progress(u64),
    Fetched,
    Collection(Seq<Listed>),
    Folder(Folder),
    Checked { exists: bool },
    Exported,
    Removed,
    Failed(Seq<char>),
}

/// An action of the receiver as the contracts speak of it.
pub enum SaverDoes {
    AskSizes,
    Fetch,
    AwaitMore,
    LoadCollection,
    PickFolder,
    CheckTarget(crate::path::PathValue),
    Export { hash: Seq<u8>, target: crate::path::PathValue },
    RemoveDir,
    Done,
    Fail(RecvFailure),
}

/// A step of the receiver as the contracts speak of it.
pub struct SavingStep {
    pub state: Saving,
    pub tell: Seq<crate::events::Told>,
    pub action: SaverDoes,
}

impl View for RecvState {
    type V = Saving;

    open spec fn view(&self) -> Saving {
        match self {
            RecvState::AwaitLocal => Saving::AwaitLocal,
            RecvState::AwaitSizes { position } => Saving::AwaitSizes { position: *position },
            RecvState::Downloading { position } => Saving::Downloading { position: *position },
            RecvState::AwaitCollection => Saving::AwaitCollection,
            RecvState::AwaitFolder { files } => Saving::AwaitFolder { files: listed(files@) },
            RecvState::AwaitChecked { files, root, at, target } => Saving::AwaitChecked {
                files: listed(files@),
                root: crate::path::path_value(*root),
                at: *at as nat,
                target: crate::path::path_value(*target),
            },
            RecvState::AwaitExported { files, root, at } => Saving::AwaitExported {
                files: listed(files@),
                root: crate::path::path_value(*root),
                at: *at as nat,
            },
            RecvState::AwaitRemoved => Saving::AwaitRemoved,
            RecvState::Ended => Saving::Ended,
        }
    }
}

/// What the user picked as the contracts speak of it.
pub open spec fn folder(picked: Picked<PathBuf>) -> Folder {
    match picked {
        Picked::Lost(text) => Folder::Unknown(text@),
        Picked::Cancelled => Folder::Cancelled,
        Picked::Unusable(text) => Folder::Unknown(text@),
        Picked::Path(path) => Folder::Path(crate::path::path_value(path)),
    }
}

impl View for RecvEvent {
    type V = SaverHears;

    open spec fn view(&self) -> SaverHears {
        match self {
            RecvEvent::Local { complete, bytes } => SaverHears::Local {
                complete: *complete,
                bytes: *bytes,
            },
            RecvEvent::Sizes(sizes) => SaverHears::Sizes(sizes@),
            RecvEvent::Progress(offset) => SaverHears::Progress(*offset),
            RecvEvent::Fetched => SaverHears::Fetched,
            RecvEvent::Collection(files) => SaverHears::Collection(listed(files@)),
            RecvEvent::Folder(picked) => SaverHears::Folder(folder(*picked)),
            RecvEvent::Checked { exists } => SaverHears::Checked { exists: *exists },
            RecvEvent::Exported => SaverHears::Exported,
            RecvEvent::Removed => SaverHears::Removed,
            RecvEvent::Failed(text) => SaverHears::Failed(text@),
        }
    }
}

impl View for RecvAction {
    type V = SaverDoes;

    open spec fn view(&self) -> SaverDoes {
        match self {
            RecvAction::AskSizes => SaverDoes::AskSizes,
            RecvAction::Fetch => SaverDoes::Fetch,
            RecvAction::AwaitMore => SaverDoes::AwaitMore,
            RecvAction::LoadCollection => SaverDoes::LoadCollection,
            RecvAction::PickFolder => SaverDoes::PickFolder,
            RecvAction::CheckTarget(target) => SaverDoes::CheckTarget(
                crate::path::path_value(*target),
            ),
            RecvAction::Export { hash, target } => SaverDoes::Export {
                hash: hash@,
                target: crate::path::path_value(*target),
            },
            RecvAction::RemoveDir => SaverDoes::RemoveDir,
            RecvAction::Done => SaverDoes::Done,
            RecvAction::Fail(e) => SaverDoes::Fail(e@),
        }
    }
}

impl View for RecvStep {
    type V = SavingStep;

    open spec fn view(&self) -> SavingStep {
        SavingStep {
            state: self.state@,
            tell: crate::events::told(self.tell@),
            action: self.action@,
        }
    }
}

/// Whether the state is one that the receiver can be in: where a target is being looked up or a
/// file is being saved, there is such a file, and the target is where the file is to be saved.
pub open spec fn saving_ok(state: Saving) -> bool {
    match state {
        Saving::AwaitChecked { files, root, at, target } => at < files.len()
            && target == crate::path::exported(root, files[at as int].name)
            && crate::path::exports_well(root, files[at as int].name),
        Saving::AwaitExported { files, root, at } => at < files.len(),
        _ => true,
    }
}

/// Whether the sums that a step makes are not too large.
pub open spec fn sums_fit(state: Saving, event: SaverHears) -> bool {
    match (state, event) {
        (Saving::AwaitSizes { .. }, SaverHears::Sizes(sizes)) => total(sizes) <= u64::MAX,
        (Saving::Downloading { position }, SaverHears::Progress(offset)) => position + offset
            <= u64::MAX,
        _ => true,
    }
}

/// A step that tells nothing.
pub open spec fn quietly(state: Saving, action: SaverDoes) -> SavingStep {
    SavingStep { state, tell: seq![], action }
}

/// The end of a receiver that failed.
pub open spec fn recv_fails(why: RecvFailure) -> SavingStep {
    quietly(Saving::Ended, SaverDoes::Fail(why))
}

/// What to do when the file `at` is the next to be saved.
pub open spec fn save_next(
    files: Seq<Listed>,
    root: crate::path::PathValue,
    at: nat,
    tell: Seq<crate::events::Told>,
) -> SavingStep {
    if at < files.len() {
        let target = crate::path::exported(root, files[at as int].name);
        SavingStep {
            state: Saving::AwaitChecked { files, root, at, target },
            tell: tell.push(crate::events::Told::ExportCurrent(at)),
            action: SaverDoes::CheckTarget(target),
        }
    } else {
        SavingStep { state: Saving::AwaitRemoved, tell, action: SaverDoes::RemoveDir }
    }
}

/// What the receiver makes of an event.
pub open spec fn recv_next(state: Saving, event: SaverHears) -> SavingStep {
    match (state, event) {
        (Saving::Ended, _) => recv_fails(RecvFailure::OutOfOrder),
        (_, SaverHears::Failed(text)) => recv_fails(RecvFailure::Stopped(text)),
        (Saving::AwaitLocal, SaverHears::Local { complete, bytes }) => if complete {
            quietly(Saving::AwaitCollection, SaverDoes::LoadCollection)
        } else {
            SavingStep {
                state: Saving::AwaitSizes { position: bytes },
                tell: seq![crate::events::Told::Connect],
                action: SaverDoes::AskSizes,
            }
        },
        (Saving::AwaitSizes { position }, SaverHears::Sizes(sizes)) => SavingStep {
            state: Saving::Downloading { position },
            tell: seq![
                crate::events::Told::TotalSize(total(sizes)),
                crate::events::Told::CurrentSize(position as nat),
            ],
            action: SaverDoes::Fetch,
        },
        (Saving::Downloading { position }, SaverHears::Progress(offset)) => SavingStep {
            state: Saving::Downloading { position },
            tell: seq![crate::events::Told::CurrentSize((position + offset) as nat)],
            action: SaverDoes::AwaitMore,
        },
        (Saving::Downloading { position }, SaverHears::Fetched) => quietly(
            Saving::AwaitCollection,
            SaverDoes::LoadCollection,
        ),
        (Saving::AwaitCollection, SaverHears::Collection(files)) => quietly(
            Saving::AwaitFolder { files },
            SaverDoes::PickFolder,
        ),
        (Saving::AwaitFolder { files }, SaverHears::Folder(picked)) => match picked {
            Folder::Unknown(text) => recv_fails(RecvFailure::Stopped(text)),
            Folder::Cancelled => recv_fails(RecvFailure::Stopped("Save cancelled!"@)),
            Folder::Path(root) => save_next(
                files,
                root,
                0,
                seq![crate::events::Told::ExportTotal(files.len())],
            ),
        },
        (
            Saving::AwaitChecked { files, root, at, target },
            SaverHears::Checked { exists },
        ) => if exists {
            recv_fails(RecvFailure::TargetExists(crate::path::value_shown(target)))
        } else {
            quietly(
                Saving::AwaitExported { files, root, at },
                SaverDoes::Export { hash: files[at as int].hash, target },
            )
        },
        (Saving::AwaitExported { files, root, at }, SaverHears::Exported) => save_next(
            files,
            root,
            at + 1,
            seq![],
        ),
        (Saving::AwaitRemoved, SaverHears::Removed) => quietly(Saving::Ended, SaverDoes::Done),
        _ => recv_fails(RecvFailure::OutOfOrder),
    }
}

/// Starts to receive the data with this hash. What is here already is to be looked up in the
/// folder with the name that is returned.
pub fn recv_start(hash: &[u8; 32]) -> (r: (RecvState, String))
    ensures
        r.0@ == Saving::AwaitLocal,
        r.1@ == recv_dir(hash@),
{
    let dir = ".halfcopy-recv-".to_owned().concat(hex_encode(hash.as_slice()).as_str());
    (RecvState::AwaitLocal, dir)
}

fn quiet(state: RecvState, action: RecvAction) -> (r: RecvStep)
    ensures
        r@ == quietly(state@, action@),
{
    let tell: Vec<UiEvent> = Vec::new();
    assert(crate::events::told(tell@) =~= seq![]);
    RecvStep { state, tell, action }
}

fn recv_fail(why: RecvError) -> (r: RecvStep)
    ensures
        r@ == recv_fails(why@),
{
    quiet(RecvState::Ended, RecvAction::Fail(why))
}

fn save_at(files: Vec<SharedFile>, root: PathBuf, at: usize, tell: Vec<UiEvent>) -> (r: RecvStep)
    ensures
        r@ == save_next(
            listed(files@),
            crate::path::path_value(root),
            at as nat,
            crate::events::told(tell@),
        ),
        saving_ok(r@.state),
{
    if at < files.len() {
        let target = get_export_path(as_path(&root), files[at].name.as_str()).unwrap();
        let checked = copy_path(&target);
        let mut tell = tell;
        let ghost before = tell@;
        tell.push(UiEvent::ExportCurrent(at));
        proof {
            assert(crate::events::told(tell@) =~= crate::events::told(before).push(
                crate::events::Told::ExportCurrent(at as nat),
            ));
            assert(listed(files@)[at as int] == files@[at as int]@);
        }
        RecvStep {
            state: RecvState::AwaitChecked { files, root, at, target },
            tell,
            action: RecvAction::CheckTarget(checked),
        }
    } else {
        RecvStep { state: RecvState::AwaitRemoved, tell, action: RecvAction::RemoveDir }
    }
}

/// Takes the receiver one step further.
pub fn recv_inner(state: RecvState, event: RecvEvent) -> (r: RecvStep)
    requires
        saving_ok(state@),
        sums_fit(state@, event@),
    ensures
        r@ == recv_next(state@, event@),
        saving_ok(r@.state),
{
    match (state, event) {
        (RecvState::Ended, _) => recv_fail(RecvError::OutOfOrder),
        (_, RecvEvent::Failed(text)) => recv_fail(RecvError::Stopped(text)),
        (RecvState::AwaitLocal, RecvEvent::Local { complete, bytes }) => {
            if complete {
                quiet(RecvState::AwaitCollection, RecvAction::LoadCollection)
            } else {
                let tell = vec![UiEvent::Connect];
                assert(crate::events::told(tell@) =~= seq![crate::events::Told::Connect]);
                RecvStep {
                    state: RecvState::AwaitSizes { position: bytes },
                    tell,
                    action: RecvAction::AskSizes,
                }
            }
        },
        (RecvState::AwaitSizes { position }, RecvEvent::Sizes(sizes)) => {
            let sum: u64 = total_size(sizes.as_slice()).unwrap();
            let tell = vec![UiEvent::TotalSize(sum), UiEvent::CurrentSize(position)];
            assert(crate::events::told(tell@) =~= seq![
                crate::events::Told::TotalSize(total(sizes@)),
                crate::events::Told::CurrentSize(position as nat),
            ]);
            RecvStep { state: RecvState::Downloading { position }, tell, action: RecvAction::Fetch }
        },
        (RecvState::Downloading { position }, RecvEvent::Progress(offset)) => {
            let tell = vec![UiEvent::CurrentSize(position + offset)];
            assert(crate::events::told(tell@) =~= seq![
                crate::events::Told::CurrentSize((position + offset) as nat),
            ]);
            RecvStep {
                state: RecvState::Downloading { position },
                tell,
                action: RecvAction::AwaitMore,
            }
        },
        (RecvState::Downloading { position: _ }, RecvEvent::Fetched) => quiet(
            RecvState::AwaitCollection,
            RecvAction::LoadCollection,
        ),
        (RecvState::AwaitCollection, RecvEvent::Collection(files)) => quiet(
            RecvState::AwaitFolder { files },
            RecvAction::PickFolder,
        ),
        (RecvState::AwaitFolder { files }, RecvEvent::Folder(picked)) => {
            match picked_path(picked, "Save cancelled!") {
                Err(text) => recv_fail(RecvError::Stopped(text)),
                Ok(root) => {
                    let tell = vec![UiEvent::ExportTotal(files.len())];
                    assert(crate::events::told(tell@) =~= seq![
                        crate::events::Told::ExportTotal(listed(files@).len()),
                    ]);
                    save_at(files, root, 0, tell)
                },
            }
        },
        (
            RecvState::AwaitChecked { files, root, at, target },
            RecvEvent::Checked { exists },
        ) => {
            if exists {
                recv_fail(RecvError::TargetExists(shown_text(as_path(&target))))
            } else {
                let hash = files[at].hash;
                assert(listed(files@)[at as int] == files@[at as int]@);
                quiet(
                    RecvState::AwaitExported { files, root, at },
                    RecvAction::Export { hash, target },
                )
            }
        },
        (RecvState::AwaitExported { files, root, at }, RecvEvent::Exported) => {
            let tell: Vec<UiEvent> = Vec::new();
            assert(crate::events::told(tell@) =~= seq![]);
            assert(at < files.len());
            save_at(files, root, at + 1, tell)
        },
        (RecvState::AwaitRemoved, RecvEvent::Removed) => quiet(RecvState::Ended, RecvAction::Done),
        _ => recv_fail(RecvError::OutOfOrder),
    }
}

/// Nothing is overwritten: a file is saved only at the path that was looked up just before and
/// found free, and that is where it is to be saved.
pub proof fn law_nothing_is_overwritten(state: Saving, event: SaverHears)
    requires
        saving_ok(state),
        recv_next(state, event).action is Export,
    ensures
        event == (SaverHears::Checked { exists: false }),
        state matches Saving::AwaitChecked { files, root, at, target } && recv_next(
            state,
            event,
        ).action == (SaverDoes::Export { hash: files[at as int].hash, target }) && target
            == crate::path::exported(root, files[at as int].name),
{
}

/// What is at a target stays: where there is something already, the receiver stops and says so,
/// naming the target.
pub proof fn law_taken_target_stops(
    files: Seq<Listed>,
    root: crate::path::PathValue,
    at: nat,
    target: crate::path::PathValue,
)
    ensures
        recv_next(
            Saving::AwaitChecked { files, root, at, target },
            SaverHears::Checked { exists: true },
        ) == recv_fails(RecvFailure::TargetExists(crate::path::value_shown(target))),
{
}

/// The data is kept until everything is saved: its folder is removed only when there was no file
/// to save or the last one has been saved.
pub proof fn law_data_is_kept_until_saved(state: Saving, event: SaverHears)
    requires
        saving_ok(state),
        recv_next(state, event).action is RemoveDir,
    ensures
        match state {
            Saving::AwaitFolder { files } => files.len() == 0,
            Saving::AwaitExported { files, root, at } => event is Exported && at + 1 == files.len(),
            _ => false,
        },
{
}

/// Data that is all here is not fetched again: the peer is not called, and nothing is told.
pub proof fn law_complete_data_is_not_fetched(bytes: u64)
    ensures
        recv_next(Saving::AwaitLocal, SaverHears::Local { complete: true, bytes }) == quietly(
            Saving::AwaitCollection,
            SaverDoes::LoadCollection,
        ),
{
}

/// A receiver that has stopped stays stopped: it tells nothing and does nothing more.
pub proof fn law_recv_ends(event: SaverHears)
    ensures
        recv_next(Saving::Ended, event) == recv_fails(RecvFailure::OutOfOrder),
{
}

/// The steps of a receiver that is about to save the file `at`, each target being free and each
/// file being saved well.
pub open spec fn save_steps(files: Seq<Listed>, root: crate::path::PathValue, at: nat) -> Seq<
    SavingStep,
>
    decreases files.len() - at,
{
    let here = save_next(files, root, at, seq![]).state;
    let saved = recv_next(here, SaverHears::Checked { exists: false });
    let next = recv_next(saved.state, SaverHears::Exported);
    if at + 1 < files.len() {
        seq![saved, next] + save_steps(files, root, at + 1)
    } else {
        seq![saved, next]
    }
}

/// The step in which the file `i` is saved.
pub open spec fn saved_step(
    files: Seq<Listed>,
    root: crate::path::PathValue,
    i: nat,
) -> SavingStep {
    quietly(
        Saving::AwaitExported { files, root, at: i },
        SaverDoes::Export {
            hash: files[i as int].hash,
            target: crate::path::exported(root, files[i as int].name),
        },
    )
}

/// Every file is saved, in order and once: if each target is free and each file is saved well,
/// then the files from `at` on are saved one after the other, the user interface being told of
/// each, and the folder for the data is removed behind the last.
pub proof fn law_every_file_is_saved(
    files: Seq<Listed>,
    root: crate::path::PathValue,
    at: nat,
)
    requires
        at < files.len(),
    ensures
        save_steps(files, root, at).len() == 2 * (files.len() - at),
        forall|i: int|
            at <= i < files.len() ==> #[trigger] save_steps(files, root, at)[2 * (i - at)]
                == saved_step(files, root, i as nat),
        forall|i: int|
            at <= i < files.len() ==> #[trigger] save_steps(files, root, at)[2 * (i - at) + 1]
                == save_next(files, root, (i + 1) as nat, seq![]),
    decreases files.len() - at,
{
    let steps = save_steps(files, root, at);
    if at + 1 < files.len() {
        let rest = save_steps(files, root, at + 1);
        law_every_file_is_saved(files, root, at + 1);
        assert forall|i: int| at <= i < files.len() implies #[trigger] steps[2 * (i - at)]
            == saved_step(files, root, i as nat) by {
            if i > at {
                assert(steps[2 * (i - at)] == rest[2 * (i - (at + 1))]);
            }
        }
        assert forall|i: int| at <= i < files.len() implies #[trigger] steps[2 * (i - at) + 1]
            == save_next(files, root, (i + 1) as nat, seq![]) by {
            if i > at {
                assert(steps[2 * (i - at) + 1] == rest[2 * (i - (at + 1)) + 1]);
            }
        }
    }
}

} // verus!
