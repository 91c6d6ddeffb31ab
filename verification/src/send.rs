//! Sharing a file or a folder: reading the files, listing them, handing out a coupon and serving
//! the peer who redeemed it.
//!
//! The sender is a state machine: it takes what happened and says what to tell the user interface
//! and what to do next. The data, the network and the disk are the caller's.

use crate::crypto::{hex_encode, random_suffix};
use crate::events::UiEvent;
use crate::path::{as_path, copy_path, same_path, share_name, source_below, Place};
use crate::recv::SharedFile;
use crate::sorting::{sort_by_name, ImportedFile};
use std::path::PathBuf;
use vstd::prelude::*;
use vstd::string::StringExecFns;

verus! {

/// How many seconds taking the share down may last.
pub const SHUTDOWN_SECONDS: u64 = 5;

/// A file to be shared: its path, and where it is.
pub struct SourceFile {
    pub path: PathBuf,
    pub place: Place,
}

/// A file to be shared as the contracts speak of it.
pub struct Source {
    pub path: crate::path::PathValue,
    pub place: crate::path::Placed,
}

impl View for SourceFile {
    type V = Source;

    open spec fn view(&self) -> Source {
        Source { path: crate::path::path_value(self.path), place: self.place@ }
    }
}

/// The files to be shared, in order.
pub open spec fn sources(files: Seq<SourceFile>) -> Seq<Source> {
    files.map_values(|f: SourceFile| f@)
}

/// What was found in the folder that was picked: its path, and whether it is a file.
pub struct Entry {
    pub path: PathBuf,
    pub is_file: bool,
}

/// What was found in the folder that was picked, as the contracts speak of it.
pub struct Found {
    pub path: crate::path::PathValue,
    pub is_file: bool,
}

impl View for Entry {
    type V = Found;

    open spec fn view(&self) -> Found {
        Found { path: crate::path::path_value(self.path), is_file: self.is_file }
    }
}

/// What was found in the folder that was picked, in order.
pub open spec fn entries(found: Seq<Entry>) -> Seq<Found> {
    found.map_values(|e: Entry| e@)
}

/// The paths of the files among what was found, in order.
pub open spec fn regular(found: Seq<Found>) -> Seq<crate::path::PathValue>
    decreases found.len(),
{
    if found.len() == 0 {
        seq![]
    } else if found.last().is_file {
        regular(found.drop_last()).push(found.last().path)
    } else {
        regular(found.drop_last())
    }
}

/// The files with these paths, as they are shared when `picked` was picked.
pub open spec fn sources_of(
    picked: crate::path::PathValue,
    paths: Seq<crate::path::PathValue>,
) -> Seq<Source> {
    paths.map_values(
        |path: crate::path::PathValue|
            Source { path, place: crate::path::place_of(picked, path)->0 },
    )
}

/// The name under which a file is shared; `None` if it cannot be.
pub open spec fn source_name(file: Source) -> Option<Seq<char>> {
    match file.place {
        crate::path::Placed::Below { parts, shown } => crate::path::shared_as(parts),
        crate::path::Placed::NotBelow(_) => None,
    }
}

/// How the path of a file is shown.
pub open spec fn source_shown(file: Source) -> Seq<char> {
    match file.place {
        crate::path::Placed::Below { parts, shown } => shown,
        crate::path::Placed::NotBelow(_) => seq![],
    }
}

/// Why a file cannot be shared, where it has no name.
pub open spec fn source_failure(file: Source) -> SendFailure {
    match file.place {
        crate::path::Placed::Below { parts, shown } => SendFailure::InvalidPath(shown),
        crate::path::Placed::NotBelow(why) => SendFailure::Stopped(why),
    }
}

/// The list of the files that were read.
pub open spec fn collection(files: Seq<crate::sorting::Imported>) -> Seq<crate::recv::Listed> {
    files.map_values(
        |f: crate::sorting::Imported| crate::recv::Listed { name: f.name, hash: f.hash },
    )
}

/// The name of the folder for the data, with this suffix.
pub open spec fn send_dir(suffix: Seq<u8>) -> Seq<char> {
    ".halfcopy-send-"@ + crate::crypto::hex_text(suffix)
}

/// Makes the name of the folder for the data out of a suffix.
pub fn send_dir_name(suffix: &[u8; 16]) -> (r: String)
    ensures
        r@ == send_dir(suffix@),
{
    ".halfcopy-send-".to_owned().concat(hex_encode(suffix.as_slice()).as_str())
}

/// Why nothing was shared.
#[derive(Debug)]
pub enum SendError {
    /// Something else went wrong, in these words.
    Stopped(String),
    /// What was picked is the folder that the data is kept in.
    CurrentDirectory,
    /// What was picked is not in a folder.
    NoParent,
    /// This path is not text.
    InvalidPath(String),
    /// The file with this path could not be read, in these words.
    ImportFailed { shown: String, cause: String },
    /// Reading a file came to no end.
    NoTag,
    /// The event does not belong to the state.
    OutOfOrder,
}

/// An error as the contracts speak of it.
pub enum SendFailure {
    Stopped(Seq<char>),
    CurrentDirectory,
    NoParent,
    InvalidPath(Seq<char>),
    ImportFailed { shown: Seq<char>, cause: Seq<char> },
    NoTag,
    OutOfOrder,
}

impl View for SendError {
    type V = SendFailure;

    open spec fn view(&self) -> SendFailure {
        match self {
            SendError::Stopped(text) => SendFailure::Stopped(text@),
            SendError::CurrentDirectory => SendFailure::CurrentDirectory,
            SendError::NoParent => SendFailure::NoParent,
            SendError::InvalidPath(shown) => SendFailure::InvalidPath(shown@),
            SendError::ImportFailed { shown, cause } => SendFailure::ImportFailed {
                shown: shown@,
                cause: cause@,
            },
            SendError::NoTag => SendFailure::NoTag,
            SendError::OutOfOrder => SendFailure::OutOfOrder,
        }
    }
}

/// What the user is told of a failure.
pub open spec fn send_words(why: SendFailure) -> Seq<char> {
    match why {
        SendFailure::Stopped(text) => text,
        SendFailure::CurrentDirectory => "can not share from the current directory"@,
        SendFailure::NoParent => "Shared path has no parent! Are you trying to share root?"@,
        SendFailure::InvalidPath(shown) => "Path "@ + shown + " is invalid for sharing!"@,
        SendFailure::ImportFailed { shown, cause } => "error importing "@ + shown + ": "@ + cause,
        SendFailure::NoTag => "import stream ended without a tag"@,
        SendFailure::OutOfOrder => "Unexpected event"@,
    }
}

impl SendError {
    /// What to tell the user.
    pub fn describe(&self) -> (r: String)
        ensures
            r@ == send_words(self@),
    {
        match self {
            SendError::Stopped(text) => text.clone(),
            SendError::CurrentDirectory => "can not share from the current directory".to_owned(),
            SendError::NoParent => {
                "Shared path has no parent! Are you trying to share root?".to_owned()
            },
            SendError::InvalidPath(shown) => {
                "Path ".to_owned().concat(shown.as_str()).concat(" is invalid for sharing!")
            },
            SendError::ImportFailed { shown, cause } => {
                "error importing ".to_owned().concat(shown.as_str()).concat(": ").concat(
                    cause.as_str(),
                )
            },
            SendError::NoTag => "import stream ended without a tag".to_owned(),
            SendError::OutOfOrder => "Unexpected event".to_owned(),
        }
    }
}

/// Where the sender stands.
pub enum SendState {
    /// It is being looked up whether the folder for the data is there already.
    AwaitDir,
    /// What was picked is being looked up.
    AwaitSource,
    /// The store for the data is being opened.
    AwaitStore { picked: PathBuf },
    /// The files in the folder that was picked are being looked up.
    AwaitWalk { picked: PathBuf },
    /// The file `at` is being read. It is shared under `name` and has, as far as is known, `size`
    /// bytes; the files before it are `done`.
    Importing {
        picked: PathBuf,
        files: Vec<SourceFile>,
        folder: bool,
        at: usize,
        name: String,
        size: u64,
        done: Vec<ImportedFile>,
    },
    /// The list of the files is being stored.
    AwaitStored,
    /// A coupon is being handed out.
    AwaitCoupon,
    /// The peer who redeemed the coupon is awaited.
    AwaitPeer { remote: [u8; 32] },
    /// The peer is being served.
    Serving,
    /// The share is being taken down.
    AwaitShutdown,
    /// The folder for the data is being removed.
    AwaitRemoved,
    /// It is over.
    Ended,
}

/// News of the file that is being read.
pub enum ImportItem {
    /// The file has so many bytes.
    Size(u64),
    /// The file could not be read, in these words.
    Error(String),
    /// The file was read and has this hash.
    Done([u8; 32]),
    /// Anything else.
    Other,
    /// There is no more news.
    End,
}

/// What came when a peer was awaited.
pub enum Arrival {
    /// No peer can come any more.
    Closed,
    /// A peer came, and the connection failed.
    Failed,
    /// The peer with this node id came.
    Node([u8; 32]),
}

/// What happens to the sender.
pub enum SendEvent {
    /// Whether the folder for the data is there already.
    DirChecked { exists: bool },
    /// The path of what was picked, and that of the folder that the data is kept in.
    Resolved { picked: PathBuf, current: PathBuf },
    /// The store was opened; this is whether what was picked is a file.
    Opened { is_file: bool },
    /// What was found in the folder that was picked.
    Walked(Vec<Entry>),
    /// News of the file that is being read.
    Item(ImportItem),
    /// The list of the files was stored.
    Stored,
    /// The coupon is made.
    Coupon(String),
    /// The coupon was redeemed by the node with this id.
    Redeemed([u8; 32]),
    /// A peer came, or none can any more.
    Arrived(Arrival),
    /// The peer was served.
    Served,
    /// The share was taken down.
    ShutDown,
    /// The folder for the data was removed.
    Removed,
    /// What was to be done failed, in these words.
    Failed(String),
}

/// What the sender does next.
pub enum SendAction {
    /// Look up whether there is a folder of this name already.
    CheckDir(String),
    /// Look up what was picked.
    Resolve,
    /// Open the store, and look up whether what was picked is a file.
    OpenStore,
    /// Look up what there is in the folder.
    Walk,
    /// Begin to read the file with this path.
    Import(PathBuf),
    /// Wait for more news of the file.
    AwaitItem,
    /// Store this list of the files.
    StoreCollection(Vec<SharedFile>),
    /// Hand out a coupon.
    ProvideCoupon,
    /// Go on handing out the coupon.
    AwaitRedeemed,
    /// Wait for a peer.
    Accept,
    /// Serve the peer who came.
    Serve,
    /// Take the share down.
    ShutDown,
    /// Remove the folder for the data.
    RemoveDir,
    /// Stop: everything was done.
    Done,
    /// Stop.
    Fail(SendError),
}

/// A step of the sender: where it stands, what to tell the user interface first, and what to do
/// then.
pub struct SendStep {
    pub state: SendState,
    pub tell: Vec<UiEvent>,
    pub action: SendAction,
}

/// A sender's state as the contracts speak of it.
pub enum Sharing {
    AwaitDir,
    AwaitSource,
    AwaitStore { picked: crate::path::PathValue },
    AwaitWalk { picked: crate::path::PathValue },
    Importing {
        picked: crate::path::PathValue,
        files: Seq<Source>,
        folder: bool,
        at: nat,
        name: Seq<char>,
        size: u64,
        done: Seq<crate::sorting::Imported>,
    },
    AwaitStored,
    AwaitCoupon,
    AwaitPeer { remote: Seq<u8> },
    Serving,
    AwaitShutdown,
    AwaitRemoved,
    Ended,
}

/// News of the file that is being read, as the contracts speak of it.
pub enum News {
    Size(u64),
    Error(Seq<char>),
    Done(Seq<u8>),
    Other,
    End,
}

/// What came when a peer was awaited, as the contracts speak of it.
pub enum Came {
    Closed,
    Failed,
    Node(Seq<u8>),
}

/// An event for the sender as the contracts speak of it.
pub enum SharerHears {
    DirChecked { exists: bool },
    Resolved { picked: crate::path::PathValue, current: crate::path::PathValue },
    Opened { is_file: bool },
    Walked(Seq<Found>),
    Item(News),
    Stored,
    Coupon(Seq<char>),
    Redeemed(Seq<u8>),
    Arrived(Came),
    Served,
    ShutDown,
    Removed,
    Failed(Seq<char>),
}

/// An action of the sender as the contracts speak of it.
pub enum SharerDoes {
    CheckDir(Seq<char>),
    Resolve,
    OpenStore,
    Walk,
    Import(crate::path::PathValue),
    AwaitItem,
    StoreCollection(Seq<crate::recv::Listed>),
    ProvideCoupon,
    AwaitRedeemed,
    Accept,
    Serve,
    ShutDown,
    RemoveDir,
    Done,
    Fail(SendFailure),
}

/// A step of the sender as the contracts speak of it.
pub struct SharingStep {
    pub state: Sharing,
    pub tell: Seq<crate::events::Told>,
    pub action: SharerDoes,
}

impl View for SendState {
    type V = Sharing;

    open spec fn view(&self) -> Sharing {
        match self {
            SendState::AwaitDir => Sharing::AwaitDir,
            SendState::AwaitSource => Sharing::AwaitSource,
            SendState::AwaitStore { picked } => Sharing::AwaitStore {
                picked: crate::path::path_value(*picked),
            },
            SendState::AwaitWalk { picked } => Sharing::AwaitWalk {
                picked: crate::path::path_value(*picked),
            },
            SendState::Importing { picked, files, folder, at, name, size, done } =>
                Sharing::Importing {
                picked: crate::path::path_value(*picked),
                files: sources(files@),
                folder: *folder,
                at: *at as nat,
                name: name@,
                size: *size,
                done: crate::sorting::imported(done@),
            },
            SendState::AwaitStored => Sharing::AwaitStored,
            SendState::AwaitCoupon => Sharing::AwaitCoupon,
            SendState::AwaitPeer { remote } => Sharing::AwaitPeer { remote: remote@ },
            SendState::Serving => Sharing::Serving,
            SendState::AwaitShutdown => Sharing::AwaitShutdown,
            SendState::AwaitRemoved => Sharing::AwaitRemoved,
            SendState::Ended => Sharing::Ended,
        }
    }
}

impl View for ImportItem {
    type V = News;

    open spec fn view(&self) -> News {
        match self {
            ImportItem::Size(size) => News::Size(*size),
            ImportItem::Error(cause) => News::Error(cause@),
            ImportItem::Done(hash) => News::Done(hash@),
            ImportItem::Other => News::Other,
            ImportItem::End => News::End,
        }
    }
}

impl View for Arrival {
    type V = Came;

    open spec fn view(&self) -> Came {
        match self {
            Arrival::Closed => Came::Closed,
            Arrival::Failed => Came::Failed,
            Arrival::Node(node_id) => Came::Node(node_id@),
        }
    }
}

impl View for SendEvent {
    type V = SharerHears;

    open spec fn view(&self) -> SharerHears {
        match self {
            SendEvent::DirChecked { exists } => SharerHears::DirChecked { exists: *exists },
            SendEvent::Resolved { picked, current } => SharerHears::Resolved {
                picked: crate::path::path_value(*picked),
                current: crate::path::path_value(*current),
            },
            SendEvent::Opened { is_file } => SharerHears::Opened { is_file: *is_file },
            SendEvent::Walked(found) => SharerHears::Walked(entries(found@)),
            SendEvent::Item(item) => SharerHears::Item(item@),
            SendEvent::Stored => SharerHears::Stored,
            SendEvent::Coupon(coupon) => SharerHears::Coupon(coupon@),
            SendEvent::Redeemed(remote) => SharerHears::Redeemed(remote@),
            SendEvent::Arrived(arrival) => SharerHears::Arrived(arrival@),
            SendEvent::Served => SharerHears::Served,
            SendEvent::ShutDown => SharerHears::ShutDown,
            SendEvent::Removed => SharerHears::Removed,
            SendEvent::Failed(text) => SharerHears::Failed(text@),
        }
    }
}

impl View for SendAction {
    type V = SharerDoes;

    open spec fn view(&self) -> SharerDoes {
        match self {
            SendAction::CheckDir(dir) => SharerDoes::CheckDir(dir@),
            SendAction::Resolve => SharerDoes::Resolve,
            SendAction::OpenStore => SharerDoes::OpenStore,
            SendAction::Walk => SharerDoes::Walk,
            SendAction::Import(path) => SharerDoes::Import(crate::path::path_value(*path)),
            SendAction::AwaitItem => SharerDoes::AwaitItem,
            SendAction::StoreCollection(files) => SharerDoes::StoreCollection(
                crate::recv::listed(files@),
            ),
            SendAction::ProvideCoupon => SharerDoes::ProvideCoupon,
            SendAction::AwaitRedeemed => SharerDoes::AwaitRedeemed,
            SendAction::Accept => SharerDoes::Accept,
            SendAction::Serve => SharerDoes::Serve,
            SendAction::ShutDown => SharerDoes::ShutDown,
            SendAction::RemoveDir => SharerDoes::RemoveDir,
            SendAction::Done => SharerDoes::Done,
            SendAction::Fail(e) => SharerDoes::Fail(e@),
        }
    }
}

impl View for SendStep {
    type V = SharingStep;

    open spec fn view(&self) -> SharingStep {
        SharingStep {
            state: self.state@,
            tell: crate::events::told(self.tell@),
            action: self.action@,
        }
    }
}

/// Whether the files that were read are the first of the files to be shared, each under the name
/// that its path gives it.
pub open spec fn read_so_far(files: Seq<Source>, done: Seq<crate::sorting::Imported>) -> bool {
    &&& done.len() <= files.len()
    &&& forall|i: int|
        0 <= i < done.len() ==> source_name(files[i]) == Some((#[trigger] done[i]).name)
}

/// Whether the files are where they are said to be when `picked` was picked, which is in a folder.
pub open spec fn sources_ok(picked: crate::path::PathValue, files: Seq<Source>) -> bool {
    &&& crate::path::value_parent(picked) is Some
    &&& forall|i: int|
        0 <= i < files.len() ==> crate::path::place_of(picked, (#[trigger] files[i]).path) == Some(
            files[i].place,
        ) && crate::path::places_well(picked, files[i].path)
}

/// Whether the state is one that the sender can be in: what was picked is in a folder; and where a
/// file is being read, there is such a file, it is shared under the name that its path gives it,
/// and the files before it were read.
pub open spec fn sharing_ok(state: Sharing) -> bool {
    match state {
        Sharing::Importing { picked, files, folder, at, name, size, done } => {
            &&& at < files.len()
            &&& source_name(files[at as int]) == Some(name)
            &&& done.len() == at
            &&& read_so_far(files, done)
            &&& sources_ok(picked, files)
        },
        Sharing::AwaitWalk { picked } => crate::path::value_parent(picked) is Some,
        _ => true,
    }
}

/// A step that tells nothing.
pub open spec fn quietly(state: Sharing, action: SharerDoes) -> SharingStep {
    SharingStep { state, tell: seq![], action }
}

/// A step that tells one thing.
pub open spec fn telling(
    state: Sharing,
    event: crate::events::Told,
    action: SharerDoes,
) -> SharingStep {
    SharingStep { state, tell: seq![event], action }
}

/// The end of a sender that failed.
pub open spec fn send_fails(why: SendFailure) -> SharingStep {
    quietly(Sharing::Ended, SharerDoes::Fail(why))
}

/// What to do when the file `at` is the next to be read, those before it being `done`. Behind the
/// last, the list of the files is stored in the order of their names.
pub open spec fn import_next(
    picked: crate::path::PathValue,
    files: Seq<Source>,
    folder: bool,
    at: nat,
    done: Seq<crate::sorting::Imported>,
    tell: Seq<crate::events::Told>,
) -> SharingStep {
    if at < files.len() {
        let tell = if folder {
            tell.push(crate::events::Told::ImportProgress(at))
        } else {
            tell
        };
        match source_name(files[at as int]) {
            None => SharingStep {
                state: Sharing::Ended,
                tell,
                action: SharerDoes::Fail(source_failure(files[at as int])),
            },
            Some(name) => SharingStep {
                state: Sharing::Importing { picked, files, folder, at, name, size: 0, done },
                tell,
                action: SharerDoes::Import(files[at as int].path),
            },
        }
    } else {
        SharingStep {
            state: Sharing::AwaitStored,
            tell,
            action: SharerDoes::StoreCollection(collection(crate::sorting::sorted(done))),
        }
    }
}

/// What the sender makes of news of the file that is being read.
pub open spec fn on_item(
    picked: crate::path::PathValue,
    files: Seq<Source>,
    folder: bool,
    at: nat,
    name: Seq<char>,
    size: u64,
    done: Seq<crate::sorting::Imported>,
    item: News,
) -> SharingStep {
    match item {
        News::Size(known) => quietly(
            Sharing::Importing { picked, files, folder, at, name, size: known, done },
            SharerDoes::AwaitItem,
        ),
        News::Error(cause) => send_fails(
            SendFailure::ImportFailed { shown: source_shown(files[at as int]), cause },
        ),
        News::Done(hash) => import_next(
            picked,
            files,
            folder,
            at + 1,
            done.push(crate::sorting::Imported { name, hash, size }),
            seq![],
        ),
        News::Other => quietly(
            Sharing::Importing { picked, files, folder, at, name, size, done },
            SharerDoes::AwaitItem,
        ),
        News::End => send_fails(SendFailure::NoTag),
    }
}

/// What the sender makes of a peer who came when the one with the id `remote` is awaited. Others
/// are passed over.
pub open spec fn on_arrival(remote: Seq<u8>, came: Came) -> SharingStep {
    match came {
        Came::Closed => telling(
            Sharing::AwaitShutdown,
            crate::events::Told::Teardown,
            SharerDoes::ShutDown,
        ),
        Came::Failed => quietly(Sharing::AwaitPeer { remote }, SharerDoes::Accept),
        Came::Node(node_id) => if node_id == remote {
            telling(Sharing::Serving, crate::events::Told::ConnectionGot, SharerDoes::Serve)
        } else {
            quietly(Sharing::AwaitPeer { remote }, SharerDoes::Accept)
        },
    }
}

/// What the sender makes of an event. Where the folder for the data has to get another name,
/// `suffix` is what the name is made of.
pub open spec fn send_next(state: Sharing, event: SharerHears, suffix: Seq<u8>) -> SharingStep {
    match (state, event) {
        (Sharing::Ended, _) => send_fails(SendFailure::OutOfOrder),
        (_, SharerHears::Failed(text)) => send_fails(SendFailure::Stopped(text)),
        (Sharing::AwaitDir, SharerHears::DirChecked { exists }) => if exists {
            quietly(Sharing::AwaitDir, SharerDoes::CheckDir(send_dir(suffix)))
        } else {
            quietly(Sharing::AwaitSource, SharerDoes::Resolve)
        },
        (Sharing::AwaitSource, SharerHears::Resolved { picked, current }) =>
            if crate::path::value_same(picked, current) {
            send_fails(SendFailure::CurrentDirectory)
        } else {
            quietly(Sharing::AwaitStore { picked }, SharerDoes::OpenStore)
        },
        (Sharing::AwaitStore { picked }, SharerHears::Opened { is_file }) =>
            if crate::path::value_parent(picked) is None {
            send_fails(SendFailure::NoParent)
        } else if is_file {
            import_next(picked, sources_of(picked, seq![picked]), false, 0, seq![], seq![])
        } else {
            quietly(Sharing::AwaitWalk { picked }, SharerDoes::Walk)
        },
        (Sharing::AwaitWalk { picked }, SharerHears::Walked(found)) => import_next(
            picked,
            sources_of(picked, regular(found)),
            true,
            0,
            seq![],
            seq![crate::events::Told::ImportStart(regular(found).len())],
        ),
        (
            Sharing::Importing { picked, files, folder, at, name, size, done },
            SharerHears::Item(item),
        ) => on_item(picked, files, folder, at, name, size, done, item),
        (Sharing::AwaitStored, SharerHears::Stored) => telling(
            Sharing::AwaitCoupon,
            crate::events::Told::CouponStart,
            SharerDoes::ProvideCoupon,
        ),
        (Sharing::AwaitCoupon, SharerHears::Coupon(coupon)) => telling(
            Sharing::AwaitCoupon,
            crate::events::Told::CouponAvailable(coupon),
            SharerDoes::AwaitRedeemed,
        ),
        (Sharing::AwaitCoupon, SharerHears::Redeemed(remote)) => telling(
            Sharing::AwaitPeer { remote },
            crate::events::Told::ConnectionWait,
            SharerDoes::Accept,
        ),
        (Sharing::AwaitPeer { remote }, SharerHears::Arrived(came)) => on_arrival(remote, came),
        (Sharing::Serving, SharerHears::Served) => telling(
            Sharing::AwaitShutdown,
            crate::events::Told::Teardown,
            SharerDoes::ShutDown,
        ),
        (Sharing::AwaitShutdown, SharerHears::ShutDown) => quietly(
            Sharing::AwaitRemoved,
            SharerDoes::RemoveDir,
        ),
        (Sharing::AwaitRemoved, SharerHears::Removed) => quietly(Sharing::Ended, SharerDoes::Done),
        _ => send_fails(SendFailure::OutOfOrder),
    }
}

fn quiet(state: SendState, action: SendAction) -> (r: SendStep)
    ensures
        r@ == quietly(state@, action@),
{
    let tell: Vec<UiEvent> = Vec::new();
    assert(crate::events::told(tell@) =~= seq![]);
    SendStep { state, tell, action }
}

fn tell_one(state: SendState, event: UiEvent, action: SendAction) -> (r: SendStep)
    ensures
        r@ == telling(state@, event@, action@),
{
    let tell = vec![event];
    assert(crate::events::told(tell@) =~= seq![event@]);
    SendStep { state, tell, action }
}

fn send_fail(why: SendError) -> (r: SendStep)
    ensures
        r@ == send_fails(why@),
{
    quiet(SendState::Ended, SendAction::Fail(why))
}

/// Makes the list of the files out of the files that were read.
fn collect(files: Vec<ImportedFile>) -> (r: Vec<SharedFile>)
    ensures
        crate::recv::listed(r@) == collection(crate::sorting::imported(files@)),
{
    let mut r: Vec<SharedFile> = Vec::new();
    let mut i: usize = 0;
    while i < files.len()
        invariant
            0 <= i <= files.len(),
            r@.len() == i,
            forall|j: int|
                0 <= j < i ==> (#[trigger] r@[j])@ == (crate::recv::Listed {
                    name: files@[j].name@,
                    hash: files@[j].hash@,
                }),
        decreases files.len() - i,
    {
        r.push(SharedFile { name: files[i].name.clone(), hash: files[i].hash });
        i += 1;
    }
    assert(crate::recv::listed(r@) =~= collection(crate::sorting::imported(files@)));
    r
}

/// The name under which a file is shared, or why it cannot be.
fn name_of(file: &SourceFile) -> (r: Result<String, SendError>)
    ensures
        r is Ok <==> source_name(file@) is Some,
        r matches Ok(name) ==> source_name(file@) == Some(name@),
        r matches Err(why) ==> why@ == source_failure(file@),
{
    match &file.place {
        Place::NotBelow(why) => Err(SendError::Stopped(why.clone())),
        Place::Below { parts, shown } => match share_name(parts.as_slice()) {
            None => Err(SendError::InvalidPath(shown.clone())),
            Some(name) => Ok(name),
        },
    }
}

/// How the path of a file is shown.
fn shown_of(file: &SourceFile) -> (r: String)
    ensures
        r@ == source_shown(file@),
{
    match &file.place {
        Place::Below { parts: _, shown } => shown.clone(),
        Place::NotBelow(_) => String::new(),
    }
}

/// The paths of the files among what was found.
fn files_in(found: &[Entry]) -> (r: Vec<PathBuf>)
    ensures
        r@.map_values(|p: PathBuf| crate::path::path_value(p)) == regular(entries(found@)),
{
    let ghost all = entries(found@);
    let ghost value = |p: PathBuf| crate::path::path_value(p);
    let mut r: Vec<PathBuf> = Vec::new();
    let mut i: usize = 0;
    assert(all.take(0) =~= seq![]);
    assert(r@.map_values(value) =~= seq![]);
    while i < found.len()
        invariant
            0 <= i <= found.len(),
            all == entries(found@),
            value == (|p: PathBuf| crate::path::path_value(p)),
            r@.map_values(value) == regular(all.take(i as int)),
        decreases found.len() - i,
    {
        let ghost before = r@;
        proof {
            assert(all.take(i + 1).drop_last() =~= all.take(i as int));
            assert(all.take(i + 1).last() == found@[i as int]@);
        }
        if found[i].is_file {
            r.push(copy_path(&found[i].path));
            assert(r@.map_values(value) =~= before.map_values(value).push(value(r@.last())));
        }
        i += 1;
    }
    assert(all.take(all.len() as int) =~= all);
    r
}

/// The files with these paths, as they are shared when `picked` was picked.
fn find_files(picked: &PathBuf, paths: Vec<PathBuf>) -> (r: Vec<SourceFile>)
    requires
        crate::path::value_parent(crate::path::path_value(*picked)) is Some,
    ensures
        sources(r@) == sources_of(
            crate::path::path_value(*picked),
            paths@.map_values(|p: PathBuf| crate::path::path_value(p)),
        ),
        sources_ok(crate::path::path_value(*picked), sources(r@)),
{
    let mut r: Vec<SourceFile> = Vec::new();
    let mut i: usize = 0;
    while i < paths.len()
        invariant
            crate::path::value_parent(crate::path::path_value(*picked)) is Some,
            0 <= i <= paths.len(),
            r@.len() == i,
            forall|j: int|
                0 <= j < i ==> (#[trigger] r@[j])@.path == crate::path::path_value(paths@[j])
                    && crate::path::place_of(crate::path::path_value(*picked), r@[j]@.path) == Some(
                    r@[j]@.place,
                ) && crate::path::places_well(crate::path::path_value(*picked), r@[j]@.path),
        decreases paths.len() - i,
    {
        let place = source_below(as_path(picked), as_path(&paths[i])).unwrap();
        r.push(SourceFile { path: copy_path(&paths[i]), place });
        i += 1;
    }
    proof {
        let made = sources_of(
            crate::path::path_value(*picked),
            paths@.map_values(|p: PathBuf| crate::path::path_value(p)),
        );
        assert forall|j: int| 0 <= j < made.len() implies sources(r@)[j] == #[trigger] made[j] by {
            assert(sources(r@)[j] == r@[j]@);
        }
        assert(sources(r@) =~= made);
    }
    r
}

fn import_at(
    picked: PathBuf,
    files: Vec<SourceFile>,
    folder: bool,
    at: usize,
    done: Vec<ImportedFile>,
    tell: Vec<UiEvent>,
) -> (r: SendStep)
    requires
        done@.len() == at,
        read_so_far(sources(files@), crate::sorting::imported(done@)),
        sources_ok(crate::path::path_value(picked), sources(files@)),
    ensures
        r@ == import_next(
            crate::path::path_value(picked),
            sources(files@),
            folder,
            at as nat,
            crate::sorting::imported(done@),
            crate::events::told(tell@),
        ),
        sharing_ok(r@.state),
{
    if at < files.len() {
        let mut tell = tell;
        let ghost before = tell@;
        if folder {
            tell.push(UiEvent::ImportProgress(at));
            assert(crate::events::told(tell@) =~= crate::events::told(before).push(
                crate::events::Told::ImportProgress(at as nat),
            ));
        }
        assert(sources(files@)[at as int] == files@[at as int]@);
        match name_of(&files[at]) {
            Err(why) => SendStep { state: SendState::Ended, tell, action: SendAction::Fail(why) },
            Ok(name) => {
                let path = copy_path(&files[at].path);
                SendStep {
                    state: SendState::Importing { picked, files, folder, at, name, size: 0, done },
                    tell,
                    action: SendAction::Import(path),
                }
            },
        }
    } else {
        let listed = collect(sort_by_name(done));
        SendStep {
            state: SendState::AwaitStored,
            tell,
            action: SendAction::StoreCollection(listed),
        }
    }
}

fn import_item(
    picked: PathBuf,
    files: Vec<SourceFile>,
    folder: bool,
    at: usize,
    name: String,
    size: u64,
    done: Vec<ImportedFile>,
    item: ImportItem,
) -> (r: SendStep)
    requires
        at < files@.len(),
        source_name(files@[at as int]@) == Some(name@),
        done@.len() == at,
        read_so_far(sources(files@), crate::sorting::imported(done@)),
        sources_ok(crate::path::path_value(picked), sources(files@)),
    ensures
        r@ == on_item(
            crate::path::path_value(picked),
            sources(files@),
            folder,
            at as nat,
            name@,
            size,
            crate::sorting::imported(done@),
            item@,
        ),
        sharing_ok(r@.state),
{
    assert(sources(files@)[at as int] == files@[at as int]@);
    match item {
        ImportItem::Size(known) => quiet(
            SendState::Importing { picked, files, folder, at, name, size: known, done },
            SendAction::AwaitItem,
        ),
        ImportItem::Error(cause) => send_fail(
            SendError::ImportFailed { shown: shown_of(&files[at]), cause },
        ),
        ImportItem::Done(hash) => {
            let mut done = done;
            let ghost before = crate::sorting::imported(done@);
            done.push(ImportedFile { name, hash, size });
            let tell: Vec<UiEvent> = Vec::new();
            proof {
                assert(crate::events::told(tell@) =~= seq![]);
                let file = crate::sorting::Imported { name: name@, hash: hash@, size };
                assert(crate::sorting::imported(done@) =~= before.push(file));
                assert(at < files.len());
            }
            import_at(picked, files, folder, at + 1, done, tell)
        },
        ImportItem::Other => quiet(
            SendState::Importing { picked, files, folder, at, name, size, done },
            SendAction::AwaitItem,
        ),
        ImportItem::End => send_fail(SendError::NoTag),
    }
}

fn same_node(a: &[u8; 32], b: &[u8; 32]) -> (r: bool)
    ensures
        r == (a@ == b@),
{
    let mut i: usize = 0;
    while i < 32
        invariant
            0 <= i <= 32,
            forall|j: int| 0 <= j < i ==> a@[j] == b@[j],
        decreases 32 - i,
    {
        if a[i] != b[i] {
            assert(a@[i as int] != b@[i as int]);
            return false;
        }
        i += 1;
    }
    assert(a@ =~= b@);
    true
}

fn arrived(remote: [u8; 32], arrival: Arrival) -> (r: SendStep)
    ensures
        r@ == on_arrival(remote@, arrival@),
{
    match arrival {
        Arrival::Closed => tell_one(
            SendState::AwaitShutdown,
            UiEvent::Teardown,
            SendAction::ShutDown,
        ),
        Arrival::Failed => quiet(SendState::AwaitPeer { remote }, SendAction::Accept),
        Arrival::Node(node_id) => {
            if same_node(&node_id, &remote) {
                tell_one(SendState::Serving, UiEvent::ConnectionGot, SendAction::Serve)
            } else {
                quiet(SendState::AwaitPeer { remote }, SendAction::Accept)
            }
        },
    }
}

/// Starts to share: picks a name for the folder for the data.
pub fn send_start() -> (r: SendStep)
    ensures
        exists|suffix: Seq<u8>|
            suffix.len() == 16 && r@ == quietly(
                Sharing::AwaitDir,
                SharerDoes::CheckDir(#[trigger] send_dir(suffix)),
            ),
{
    let suffix = random_suffix();
    let dir = send_dir_name(&suffix);
    assert(dir@ == send_dir(suffix@));
    quiet(SendState::AwaitDir, SendAction::CheckDir(dir))
}

/// Takes the sender one step further.
pub fn send_inner(state: SendState, event: SendEvent) -> (r: SendStep)
    requires
        sharing_ok(state@),
    ensures
        exists|suffix: Seq<u8>|
            suffix.len() == 16 && r@ == #[trigger] send_next(state@, event@, suffix),
        sharing_ok(r@.state),
{
    let suffix: [u8; 16] = match &event {
        SendEvent::DirChecked { exists: true } => random_suffix(),
        _ => [0u8; 16],
    };
    let r = send_step(state, event, suffix);
    assert(r@ == send_next(state@, event@, suffix@));
    r
}

/// Takes the sender one step further. Where the folder for the data has to get another name, it
/// is made of `suffix`.
pub fn send_step(state: SendState, event: SendEvent, suffix: [u8; 16]) -> (r: SendStep)
    requires
        sharing_ok(state@),
    ensures
        r@ == send_next(state@, event@, suffix@),
        sharing_ok(r@.state),
{
    match (state, event) {
        (SendState::Ended, _) => send_fail(SendError::OutOfOrder),
        (_, SendEvent::Failed(text)) => send_fail(SendError::Stopped(text)),
        (SendState::AwaitDir, SendEvent::DirChecked { exists }) => {
            if exists {
                quiet(SendState::AwaitDir, SendAction::CheckDir(send_dir_name(&suffix)))
            } else {
                quiet(SendState::AwaitSource, SendAction::Resolve)
            }
        },
        (SendState::AwaitSource, SendEvent::Resolved { picked, current }) => {
            if same_path(as_path(&picked), as_path(&current)) {
                send_fail(SendError::CurrentDirectory)
            } else {
                quiet(SendState::AwaitStore { picked }, SendAction::OpenStore)
            }
        },
        (SendState::AwaitStore { picked }, SendEvent::Opened { is_file }) => {
            match source_below(as_path(&picked), as_path(&picked)) {
                None => send_fail(SendError::NoParent),
                Some(_) => if is_file {
                    let paths = vec![copy_path(&picked)];
                    let files = find_files(&picked, paths);
                    let done: Vec<ImportedFile> = Vec::new();
                    let tell: Vec<UiEvent> = Vec::new();
                    proof {
                        assert(paths@.map_values(|p: PathBuf| crate::path::path_value(p)) =~= seq![
                            crate::path::path_value(picked),
                        ]);
                        assert(crate::sorting::imported(done@) =~= seq![]);
                        assert(crate::events::told(tell@) =~= seq![]);
                    }
                    import_at(picked, files, false, 0, done, tell)
                } else {
                    quiet(SendState::AwaitWalk { picked }, SendAction::Walk)
                },
            }
        },
        (SendState::AwaitWalk { picked }, SendEvent::Walked(found)) => {
            let paths = files_in(found.as_slice());
            let count: usize = paths.len();
            let files = find_files(&picked, paths);
            let done: Vec<ImportedFile> = Vec::new();
            let tell = vec![UiEvent::ImportStart(count)];
            proof {
                assert(crate::sorting::imported(done@) =~= seq![]);
                assert(crate::events::told(tell@) =~= seq![
                    crate::events::Told::ImportStart(regular(entries(found@)).len()),
                ]);
            }
            import_at(picked, files, true, 0, done, tell)
        },
        (
            SendState::Importing { picked, files, folder, at, name, size, done },
            SendEvent::Item(item),
        ) => {
            assert(sources(files@)[at as int] == files@[at as int]@);
            import_item(picked, files, folder, at, name, size, done, item)
        },
        (SendState::AwaitStored, SendEvent::Stored) => tell_one(
            SendState::AwaitCoupon,
            UiEvent::CouponStart,
            SendAction::ProvideCoupon,
        ),
        (SendState::AwaitCoupon, SendEvent::Coupon(coupon)) => tell_one(
            SendState::AwaitCoupon,
            UiEvent::CouponAvailable(coupon),
            SendAction::AwaitRedeemed,
        ),
        (SendState::AwaitCoupon, SendEvent::Redeemed(remote)) => tell_one(
            SendState::AwaitPeer { remote },
            UiEvent::ConnectionWait,
            SendAction::Accept,
        ),
        (SendState::AwaitPeer { remote }, SendEvent::Arrived(arrival)) => arrived(remote, arrival),
        (SendState::Serving, SendEvent::Served) => tell_one(
            SendState::AwaitShutdown,
            UiEvent::Teardown,
            SendAction::ShutDown,
        ),
        (SendState::AwaitShutdown, SendEvent::ShutDown) => quiet(
            SendState::AwaitRemoved,
            SendAction::RemoveDir,
        ),
        (SendState::AwaitRemoved, SendEvent::Removed) => quiet(SendState::Ended, SendAction::Done),
        _ => send_fail(SendError::OutOfOrder),
    }
}

/// Only the node that redeemed the coupon is served.
pub proof fn law_only_the_redeemer_is_served(
    state: Sharing,
    event: SharerHears,
    suffix: Seq<u8>,
)
    requires
        send_next(state, event, suffix).action is Serve,
    ensures
        state matches Sharing::AwaitPeer { remote } && event == SharerHears::Arrived(
            Came::Node(remote),
        ),
{
}

/// A peer who did not redeem the coupon changes nothing: the sender goes on waiting for the one
/// who did, and tells nothing.
pub proof fn law_other_peers_are_passed_over(
    remote: Seq<u8>,
    node_id: Seq<u8>,
    suffix: Seq<u8>,
)
    requires
        node_id != remote,
    ensures
        send_next(
            Sharing::AwaitPeer { remote },
            SharerHears::Arrived(Came::Node(node_id)),
            suffix,
        ) == quietly(Sharing::AwaitPeer { remote }, SharerDoes::Accept),
        send_next(Sharing::AwaitPeer { remote }, SharerHears::Arrived(Came::Failed), suffix)
            == quietly(Sharing::AwaitPeer { remote }, SharerDoes::Accept),
{
}

/// The files that are to be shared in the step that stores their list.
pub open spec fn to_share(state: Sharing) -> Seq<Source> {
    match state {
        Sharing::Importing { picked, files, folder, at, name, size, done } => files,
        _ => seq![],
    }
}

/// The files that were read when their list is stored, in the order in which they were read.
pub open spec fn all_read(state: Sharing, event: SharerHears) -> Seq<crate::sorting::Imported> {
    match (state, event) {
        (
            Sharing::Importing { picked, files, folder, at, name, size, done },
            SharerHears::Item(News::Done(hash)),
        ) => done.push(crate::sorting::Imported { name, hash, size }),
        _ => seq![],
    }
}

/// The files to be shared are those that were found in the folder that was picked, or the file
/// that was picked; and while they are being read, they stay the same, and so does what was
/// picked.
pub proof fn law_files_stay_the_same(state: Sharing, event: SharerHears, suffix: Seq<u8>)
    requires
        send_next(state, event, suffix).state is Importing,
    ensures
        send_next(state, event, suffix).state matches Sharing::Importing {
            picked,
            files,
            folder,
            at,
            name,
            size,
            done,
        } && match (state, event) {
            (Sharing::AwaitStore { picked: was }, _) => picked == was && files == sources_of(
                was,
                seq![was],
            ),
            (Sharing::AwaitWalk { picked: was }, SharerHears::Walked(found)) => picked == was
                && files == sources_of(was, regular(found)),
            (Sharing::Importing { picked: was, .. }, _) => picked == was && files == to_share(
                state,
            ),
            _ => false,
        },
{
}

/// Every file to be shared is in the list that is stored, with the hash that it was read with and
/// under the name that its path gives it, and nothing else is; and the list is in the order of the
/// names. If there is no file to be shared, the list is empty.
pub proof fn law_list_has_every_file(state: Sharing, event: SharerHears, suffix: Seq<u8>)
    requires
        sharing_ok(state),
        send_next(state, event, suffix).action is StoreCollection,
    ensures
        state is Importing || (state is AwaitWalk && (event matches SharerHears::Walked(found)
            && regular(found).len() == 0)),
        send_next(state, event, suffix).action matches SharerDoes::StoreCollection(listed) && {
            &&& all_read(state, event).len() == to_share(state).len()
            &&& read_so_far(to_share(state), all_read(state, event))
            &&& listed.len() == to_share(state).len()
            &&& listed.to_multiset() == collection(all_read(state, event)).to_multiset()
            &&& forall|i: int, j: int|
                0 <= i < j < listed.len() ==> crate::text::text_le(
                    (#[trigger] listed[i]).name,
                    (#[trigger] listed[j]).name,
                )
        },
{
    let done = all_read(state, event);
    let inner = crate::sorting::sorted(done);
    let listed = collection(inner);
    crate::sorting::law_sorting_keeps_the_files(done);
    crate::sorting::law_sorted_files_are_ordered(done);
    assert forall|i: int, j: int| 0 <= i < j < listed.len() implies crate::text::text_le(
        (#[trigger] listed[i]).name,
        (#[trigger] listed[j]).name,
    ) by {
        assert(crate::sorting::name_le(inner[i], inner[j]));
    }
    lemma_map_multiset(
        done,
        inner,
        |f: crate::sorting::Imported| crate::recv::Listed { name: f.name, hash: f.hash },
    );
}

proof fn lemma_map_multiset<A, B>(a: Seq<A>, b: Seq<A>, f: spec_fn(A) -> B)
    requires
        a.to_multiset() == b.to_multiset(),
    ensures
        a.map_values(f).to_multiset() == b.map_values(f).to_multiset(),
    decreases a.len(),
{
    broadcast use vstd::seq_lib::group_to_multiset_ensures;

    if a.len() == 0 {
        assert(a.to_multiset().len() == 0 && b.to_multiset().len() == 0);
        assert(a.map_values(f) =~= b.map_values(f));
    } else {
        let x = a.last();
        assert(a =~= a.drop_last().push(x));
        assert(a.to_multiset().count(x) > 0);
        assert(b.contains(x));
        let at = choose|at: int| 0 <= at < b.len() && b[at] == x;
        let rest = b.remove(at);
        assert(rest.to_multiset() =~= b.to_multiset().remove(x));
        assert(a.drop_last().to_multiset() =~= a.to_multiset().remove(x));
        lemma_map_multiset(a.drop_last(), rest, f);
        assert(a.map_values(f) =~= a.drop_last().map_values(f).push(f(x)));
        assert(rest.map_values(f) =~= b.map_values(f).remove(at));
        assert(b.map_values(f)[at] == f(x));
        assert(rest.map_values(f).to_multiset() =~= b.map_values(f).to_multiset().remove(f(x)));
        assert(b.map_values(f).to_multiset().count(f(x)) > 0) by {
            assert(b.map_values(f).contains(f(x)));
        }
        assert(b.map_values(f).to_multiset() =~= rest.map_values(f).to_multiset().insert(f(x)));
    }
}

/// The components of the path of a file below the folder that `picked` is in.
pub open spec fn tail_of(
    picked: crate::path::PathValue,
    file: crate::path::PathValue,
) -> Seq<crate::path::Part> {
    crate::path::value_parts(file).skip(crate::path::value_parts(picked).len() - 1)
}

/// Whether the entry `j` of the list is saved where the file was: below the root, with the path
/// that the file has below the folder that was picked from, and with the data that was read.
pub open spec fn saved_as_shared(
    picked: crate::path::PathValue,
    file: crate::path::PathValue,
    read: crate::sorting::Imported,
    listed: Seq<crate::recv::Listed>,
    root: crate::path::PathValue,
    j: int,
) -> bool {
    let target = crate::path::exported(root, listed[j].name);
    &&& crate::path::value_parts(target) == crate::path::value_parts(root) + tail_of(picked, file)
    &&& listed[j].hash == read.hash
    &&& crate::recv::save_steps(listed, root, 0)[2 * j].action == (
    crate::recv::SaverDoes::Export { hash: read.hash, target })
}

/// Whether some entry of the list is this file, and is saved where the file was.
pub open spec fn is_saved(
    picked: crate::path::PathValue,
    file: crate::path::PathValue,
    read: crate::sorting::Imported,
    listed: Seq<crate::recv::Listed>,
    root: crate::path::PathValue,
) -> bool {
    exists|j: int|
        0 <= j < listed.len() && #[trigger] saved_as_shared(picked, file, read, listed, root, j)
}

/// Whether the entry `j` of the list is some file that was shared, and is saved where that file
/// was.
pub open spec fn was_shared(
    picked: crate::path::PathValue,
    files: Seq<Source>,
    done: Seq<crate::sorting::Imported>,
    listed: Seq<crate::recv::Listed>,
    root: crate::path::PathValue,
    j: int,
) -> bool {
    exists|k: int|
        0 <= k < files.len() && #[trigger] saved_as_shared(
            picked,
            files[k].path,
            done[k],
            listed,
            root,
            j,
        )
}

/// Whether the path of a file can be followed from the folder that it was picked from to `root`:
/// behind that folder it is made of names alone, as canonical paths are, and each is one component
/// when it is pushed onto the root. Where the paths begin with `/`, every such path can be.
pub open spec fn can_follow(
    picked: crate::path::PathValue,
    file: crate::path::PathValue,
    root: crate::path::PathValue,
) -> bool {
    &&& crate::path::cuts_cleanly(
        crate::path::value_parts(file),
        crate::path::value_parts(picked).len() - 1,
    )
    &&& crate::path::proper_path(crate::path::value_parts(root), tail_of(picked, file))
}

/// What was shared is what is saved. Let `picked` be picked, let `files` be the files that were
/// found, and let `listed` be the list that the sender stores. Let the receiver save that list
/// below `root`, each target being free. Then each of the files is saved below the root with the
/// path that it has below the folder that `picked` is in, the last component of `picked` included,
/// and with the data that was read; and nothing else is saved. That `exports_well` holds is what
/// `get_export_path` ensures.
pub proof fn law_shared_files_are_saved(
    state: Sharing,
    event: SharerHears,
    suffix: Seq<u8>,
    picked: crate::path::PathValue,
    files: Seq<Source>,
    listed: Seq<crate::recv::Listed>,
    root: crate::path::PathValue,
)
    requires
        sharing_ok(state),
        state matches Sharing::Importing { picked: was, files: had, .. } && was == picked && had
            == files,
        send_next(state, event, suffix).action == SharerDoes::StoreCollection(listed),
        forall|k: int|
            0 <= k < files.len() ==> can_follow(picked, (#[trigger] files[k]).path, root),
        forall|j: int|
            0 <= j < listed.len() ==> crate::path::exports_well(root, (#[trigger] listed[j]).name),
    ensures
        listed.len() == files.len(),
        crate::recv::save_steps(listed, root, 0).len() == 2 * listed.len(),
        forall|k: int|
            0 <= k < files.len() ==> #[trigger] is_saved(
                picked,
                files[k].path,
                all_read(state, event)[k],
                listed,
                root,
            ),
        forall|j: int|
            0 <= j < listed.len() ==> #[trigger] was_shared(
                picked,
                files,
                all_read(state, event),
                listed,
                root,
                j,
            ),
{
    law_list_has_every_file(state, event, suffix);
    lemma_list_is_saved(picked, files, all_read(state, event), listed, root);
    crate::recv::law_every_file_is_saved(listed, root, 0);
}

proof fn lemma_list_is_saved(
    picked: crate::path::PathValue,
    files: Seq<Source>,
    done: Seq<crate::sorting::Imported>,
    listed: Seq<crate::recv::Listed>,
    root: crate::path::PathValue,
)
    requires
        sources_ok(picked, files),
        done.len() == files.len(),
        read_so_far(files, done),
        listed.to_multiset() == collection(done).to_multiset(),
        forall|k: int|
            0 <= k < files.len() ==> can_follow(picked, (#[trigger] files[k]).path, root),
        forall|j: int|
            0 <= j < listed.len() ==> crate::path::exports_well(root, (#[trigger] listed[j]).name),
    ensures
        forall|k: int|
            0 <= k < files.len() ==> #[trigger] is_saved(
                picked,
                files[k].path,
                done[k],
                listed,
                root,
            ),
        forall|j: int|
            0 <= j < listed.len() ==> #[trigger] was_shared(picked, files, done, listed, root, j),
{
    let read = collection(done);
    lemma_same_members(read, listed);
    lemma_same_members(listed, read);
    assert forall|k: int| 0 <= k < files.len() implies #[trigger] is_saved(
        picked,
        files[k].path,
        done[k],
        listed,
        root,
    ) by {
        assert(listed.contains(read[k]));
        let j = choose|j: int| 0 <= j < listed.len() && listed[j] == read[k];
        assert(crate::path::exports_well(root, listed[j].name));
        lemma_saved_as_shared(picked, files, done, listed, root, k, j);
    }
    assert forall|j: int| 0 <= j < listed.len() implies #[trigger] was_shared(
        picked,
        files,
        done,
        listed,
        root,
        j,
    ) by {
        assert(read.contains(listed[j]));
        let k = choose|k: int| 0 <= k < read.len() && read[k] == listed[j];
        assert(can_follow(picked, files[k].path, root));
        lemma_saved_as_shared(picked, files, done, listed, root, k, j);
    }
}

proof fn lemma_same_members<A>(a: Seq<A>, b: Seq<A>)
    requires
        a.to_multiset() == b.to_multiset(),
    ensures
        forall|i: int| 0 <= i < a.len() ==> b.contains(#[trigger] a[i]),
{
    broadcast use vstd::seq_lib::group_to_multiset_ensures;

    assert forall|i: int| 0 <= i < a.len() implies b.contains(#[trigger] a[i]) by {
        assert(a.contains(a[i]));
        assert(b.to_multiset().count(a[i]) > 0);
    }
}

proof fn lemma_saved_as_shared(
    picked: crate::path::PathValue,
    files: Seq<Source>,
    done: Seq<crate::sorting::Imported>,
    listed: Seq<crate::recv::Listed>,
    root: crate::path::PathValue,
    k: int,
    j: int,
)
    requires
        sources_ok(picked, files),
        done.len() == files.len(),
        read_so_far(files, done),
        0 <= k < files.len(),
        0 <= j < listed.len(),
        listed[j] == collection(done)[k],
        can_follow(picked, files[k].path, root),
        crate::path::exports_well(root, listed[j].name),
    ensures
        saved_as_shared(picked, files[k].path, done[k], listed, root, j),
{
    crate::recv::law_every_file_is_saved(listed, root, 0);
    assert(crate::recv::save_steps(listed, root, 0)[2 * (j - 0)] == crate::recv::saved_step(
        listed,
        root,
        j as nat,
    ));
    assert(source_name(files[k]) == Some(done[k].name));
    assert(crate::path::places_well(picked, files[k].path));
    crate::path::law_export_mirrors_share(root, tail_of(picked, files[k].path));
}

/// A coupon is handed out only when the list of the files has been stored.
pub proof fn law_coupon_comes_after_the_list(
    state: Sharing,
    event: SharerHears,
    suffix: Seq<u8>,
)
    requires
        send_next(state, event, suffix).action is ProvideCoupon,
    ensures
        state is AwaitStored,
        event is Stored,
{
}

/// The data is put in a folder of its own: as long as there is a folder with the name that was
/// picked, another name is picked, and only then is anything else done.
pub proof fn law_folder_for_the_data_is_new(
    event: SharerHears,
    suffix: Seq<u8>,
)
    ensures
        send_next(Sharing::AwaitDir, event, suffix).state is AwaitSource <==> event == (
        SharerHears::DirChecked { exists: false }),
        event == (SharerHears::DirChecked { exists: true }) ==> send_next(
            Sharing::AwaitDir,
            event,
            suffix,
        ) == quietly(Sharing::AwaitDir, SharerDoes::CheckDir(send_dir(suffix))),
{
}

/// A sender that has stopped stays stopped: it tells nothing and does nothing more.
pub proof fn law_send_ends(
    event: SharerHears,
    suffix: Seq<u8>,
)
    ensures
        send_next(Sharing::Ended, event, suffix) == send_fails(SendFailure::OutOfOrder),
{
}

} // verus!
