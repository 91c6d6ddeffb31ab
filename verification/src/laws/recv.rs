//! What the receiver is for.

use crate::events::Told;
use crate::path::{PathValue, Picked};
use crate::recv::{
    Folder, Listed, RecvAction, RecvError, RecvEvent, RecvFailure, RecvState, RecvStep, SaverDoes,
    SaverHears, Saving, SavingStep, SharedFile,
};
use vstd::prelude::*;

verus! {

/// The steps of a receiver to which these things happen, one after the other.
pub open spec fn run(state: Saving, events: Seq<SaverHears>) -> Seq<SavingStep>
    decreases events.len(),
{
    if events.len() == 0 {
        seq![]
    } else {
        let step = crate::recv::recv_next(state, events[0]);
        seq![step] + run(step.state, events.drop_first())
    }
}

/// What is saved in these steps, in order.
pub open spec fn exports(steps: Seq<SavingStep>) -> Seq<SaverDoes>
    decreases steps.len(),
{
    if steps.len() == 0 {
        seq![]
    } else if steps[0].action is Export {
        seq![steps[0].action] + exports(steps.drop_first())
    } else {
        exports(steps.drop_first())
    }
}

/// What the user interface is told in these steps, in order.
pub open spec fn tells(steps: Seq<SavingStep>) -> Seq<Told>
    decreases steps.len(),
{
    if steps.len() == 0 {
        seq![]
    } else {
        steps[0].tell + tells(steps.drop_first())
    }
}

/// What happens while `n` files are saved, each target being free: it is looked up, then the file
/// is saved.
pub open spec fn free_targets(n: nat) -> Seq<SaverHears>
    decreases n,
{
    if n == 0 {
        seq![]
    } else {
        seq![SaverHears::Checked { exists: false }, SaverHears::Exported] + free_targets(
            (n - 1) as nat,
        )
    }
}

/// What is saved of the files from `at` on, each below the root under its own name.
pub open spec fn each_below(files: Seq<Listed>, root: PathValue, at: nat) -> Seq<SaverDoes> {
    Seq::new(
        (files.len() - at) as nat,
        |i: int|
            SaverDoes::Export {
                hash: files[at + i].hash,
                target: crate::path::exported(root, files[at + i].name),
            },
    )
}

/// That the files from `at` on, up to the number `n`, are being saved, as it is told.
pub open spec fn each_told(n: nat, at: nat) -> Seq<Told> {
    Seq::new((n - at) as nat, |i: int| Told::ExportCurrent((at + i) as nat))
}

proof fn lemma_one_step(state: Saving, events: Seq<SaverHears>)
    requires
        events.len() > 0,
    ensures
        ({
            let step = crate::recv::recv_next(state, events[0]);
            let rest = run(step.state, events.drop_first());
            &&& run(state, events) == seq![step] + rest
            &&& exports(run(state, events)) == if step.action is Export {
                seq![step.action] + exports(rest)
            } else {
                exports(rest)
            }
            &&& tells(run(state, events)) == step.tell + tells(rest)
        }),
{
    let step = crate::recv::recv_next(state, events[0]);
    let rest = run(step.state, events.drop_first());
    let all = seq![step] + rest;
    assert(all.drop_first() =~= rest);
    assert(all[0] == step);
}

proof fn lemma_save_from(files: Seq<Listed>, root: PathValue, at: nat)
    requires
        at < files.len(),
    ensures
        ({
            let here = Saving::AwaitChecked {
                files,
                root,
                at,
                target: crate::path::exported(root, files[at as int].name),
            };
            let steps = run(
                here,
                free_targets((files.len() - at) as nat) + seq![SaverHears::Removed],
            );
            &&& exports(steps) == each_below(files, root, at)
            &&& tells(steps) == each_told(files.len(), at + 1)
            &&& steps.len() == 2 * (files.len() - at) + 1
            &&& steps[steps.len() - 2].action == SaverDoes::RemoveDir
            &&& steps[steps.len() - 1].action == SaverDoes::Done
            &&& steps[steps.len() - 1].state == Saving::Ended
        }),
    decreases files.len() - at,
{
    let here = Saving::AwaitChecked {
        files,
        root,
        at,
        target: crate::path::exported(root, files[at as int].name),
    };
    let n = (files.len() - at) as nat;
    let later = free_targets((n - 1) as nat) + seq![SaverHears::Removed];
    let events = free_targets(n) + seq![SaverHears::Removed];
    let (saved, next) = (SaverHears::Checked { exists: false }, SaverHears::Exported);
    assert(events =~= seq![saved, next] + later);
    assert(events.drop_first() =~= seq![next] + later);
    assert((seq![next] + later).drop_first() =~= later);
    lemma_one_step(here, events);
    let first = crate::recv::recv_next(here, saved);
    lemma_one_step(first.state, seq![next] + later);
    let second = crate::recv::recv_next(first.state, next);
    if n == 1 {
        assert(later =~= seq![SaverHears::Removed]);
        lemma_one_step(second.state, later);
        assert(later.drop_first() =~= seq![]);
        let third = crate::recv::recv_next(second.state, SaverHears::Removed);
        assert(run(third.state, later.drop_first()) =~= seq![]);
        assert(exports(run(here, events)) =~= each_below(files, root, at));
        assert(tells(run(here, events)) =~= each_told(files.len(), at + 1));
    } else {
        lemma_save_from(files, root, at + 1);
        assert(exports(run(here, events)) =~= each_below(files, root, at));
        assert(tells(run(here, events)) =~= each_told(files.len(), at + 1));
    }
}

/// Once a folder is picked, and if each target is free and each file is saved well, every file of
/// the list is saved below the folder under its own name: all of them, from the first on, in
/// order, each once, and nothing else. The user interface is told how many there are, and of each
/// as it comes. Then the data is removed, and that is the end.
pub proof fn law_picked_folder_gets_every_file(files: Seq<Listed>, root: PathValue)
    ensures
        ({
            let steps = run(
                Saving::AwaitFolder { files },
                seq![SaverHears::Folder(Folder::Path(root))] + free_targets(files.len()) + seq![
                    SaverHears::Removed,
                ],
            );
            &&& exports(steps) == each_below(files, root, 0)
            &&& tells(steps) == seq![Told::ExportTotal(files.len())] + each_told(files.len(), 0)
            &&& steps.len() == 2 * files.len() + 2
            &&& steps[steps.len() - 2].action == SaverDoes::RemoveDir
            &&& steps[steps.len() - 1].action == SaverDoes::Done
            &&& steps[steps.len() - 1].state == Saving::Ended
        }),
{
    let start = Saving::AwaitFolder { files };
    let pick = SaverHears::Folder(Folder::Path(root));
    let later = free_targets(files.len()) + seq![SaverHears::Removed];
    let events = seq![pick] + free_targets(files.len()) + seq![SaverHears::Removed];
    assert(events =~= seq![pick] + later);
    assert(events.drop_first() =~= later);
    lemma_one_step(start, events);
    let first = crate::recv::recv_next(start, pick);
    if files.len() == 0 {
        assert(later =~= seq![SaverHears::Removed]);
        lemma_one_step(first.state, later);
        assert(later.drop_first() =~= seq![]);
        let second = crate::recv::recv_next(first.state, SaverHears::Removed);
        assert(run(second.state, later.drop_first()) =~= seq![]);
        assert(exports(run(start, events)) =~= each_below(files, root, 0));
        assert(tells(run(start, events)) =~= seq![Told::ExportTotal(files.len())] + each_told(
            files.len(),
            0,
        ));
    } else {
        lemma_save_from(files, root, 0);
        assert(exports(run(start, events)) =~= each_below(files, root, 0));
        assert(tells(run(start, events)) =~= seq![Told::ExportTotal(files.len())] + each_told(
            files.len(),
            0,
        ));
    }
}

/// Whatever the file and the target, if there is something at the target the receiver stops and
/// names it; and if it is free, the data of that file is saved there.
pub proof fn law_only_a_free_target_is_written(
    files: Seq<Listed>,
    root: PathValue,
    at: nat,
    target: PathValue,
)
    ensures
        crate::recv::recv_next(
            Saving::AwaitChecked { files, root, at, target },
            SaverHears::Checked { exists: true },
        ) == (SavingStep {
            state: Saving::Ended,
            tell: seq![],
            action: SaverDoes::Fail(
                RecvFailure::TargetExists(crate::path::value_shown(target)),
            ),
        }),
        crate::recv::recv_next(
            Saving::AwaitChecked { files, root, at, target },
            SaverHears::Checked { exists: false },
        ) == (SavingStep {
            state: Saving::AwaitExported { files, root, at },
            tell: seq![],
            action: SaverDoes::Export { hash: files[at as int].hash, target },
        }),
{
}

/// That bytes are being fetched.
pub open spec fn progress(offsets: Seq<u64>) -> Seq<SaverHears> {
    offsets.map_values(|offset: u64| SaverHears::Progress(offset))
}

proof fn lemma_fetch_from(position: u64, offsets: Seq<u64>, files: Seq<Listed>)
    requires
        forall|i: int| 0 <= i < offsets.len() ==> position + (#[trigger] offsets[i]) <= u64::MAX,
    ensures
        ({
            let steps = run(
                Saving::Downloading { position },
                progress(offsets) + seq![SaverHears::Fetched, SaverHears::Collection(files)],
            );
            &&& tells(steps) == Seq::new(
                offsets.len(),
                |i: int| Told::CurrentSize((position + offsets[i]) as nat),
            )
            &&& steps.len() == offsets.len() + 2
            &&& forall|i: int|
                0 <= i < offsets.len() ==> (#[trigger] steps[i]).action == SaverDoes::AwaitMore
            &&& steps[steps.len() - 2].action == SaverDoes::LoadCollection
            &&& steps[steps.len() - 1].action == SaverDoes::PickFolder
            &&& steps[steps.len() - 1].state == (Saving::AwaitFolder { files })
        }),
    decreases offsets.len(),
{
    let here = Saving::Downloading { position };
    let end = seq![SaverHears::Fetched, SaverHears::Collection(files)];
    let events = progress(offsets) + end;
    lemma_one_step(here, events);
    let first = crate::recv::recv_next(here, events[0]);
    if offsets.len() == 0 {
        assert(events =~= end);
        assert(events.drop_first() =~= seq![SaverHears::Collection(files)]);
        lemma_one_step(first.state, events.drop_first());
        let second = crate::recv::recv_next(first.state, SaverHears::Collection(files));
        assert(events.drop_first().drop_first() =~= seq![]);
        assert(run(second.state, events.drop_first().drop_first()) =~= seq![]);
        assert(tells(run(here, events)) =~= seq![]);
    } else {
        let rest = offsets.drop_first();
        assert(events.drop_first() =~= progress(rest) + end);
        lemma_fetch_from(position, rest, files);
        let steps = run(here, events);
        let later = run(first.state, events.drop_first());
        assert(tells(steps) =~= Seq::new(
            offsets.len(),
            |i: int| Told::CurrentSize((position + offsets[i]) as nat),
        ));
        assert forall|i: int| 0 <= i < offsets.len() implies (#[trigger] steps[i]).action
            == SaverDoes::AwaitMore by {
            if i > 0 {
                assert(steps[i] == later[i - 1]);
            }
        }
    }
}

/// Data that is not all here is fetched, however much of it is here: the peer is called and asked
/// for the sizes, the rest is fetched, and only then is the list read and the user asked for a
/// folder to save it in. The user interface is told of the call, of the sum of the sizes, and of
/// how many bytes are here: those that were, and with them those that were fetched since.
pub proof fn law_missing_data_is_fetched(
    bytes: u64,
    sizes: Seq<u64>,
    offsets: Seq<u64>,
    files: Seq<Listed>,
)
    requires
        forall|i: int| 0 <= i < offsets.len() ==> bytes + (#[trigger] offsets[i]) <= u64::MAX,
    ensures
        ({
            let steps = run(
                Saving::AwaitLocal,
                seq![SaverHears::Local { complete: false, bytes }, SaverHears::Sizes(sizes)]
                    + progress(offsets) + seq![SaverHears::Fetched, SaverHears::Collection(files)],
            );
            &&& steps.len() == offsets.len() + 4
            &&& steps[0].action == SaverDoes::AskSizes
            &&& steps[0].state == (Saving::AwaitSizes { position: bytes })
            &&& steps[0].tell == seq![Told::Connect]
            &&& steps[1].action == SaverDoes::Fetch
            &&& steps[steps.len() - 2].action == SaverDoes::LoadCollection
            &&& steps[steps.len() - 1].action == SaverDoes::PickFolder
            &&& steps[steps.len() - 1].state == (Saving::AwaitFolder { files })
            &&& tells(steps) == seq![
                Told::Connect,
                Told::TotalSize(crate::recv::total(sizes)),
                Told::CurrentSize(bytes as nat),
            ] + Seq::new(
                offsets.len(),
                |i: int| Told::CurrentSize((bytes + offsets[i]) as nat),
            )
        }),
{
    let local = SaverHears::Local { complete: false, bytes };
    let end = seq![SaverHears::Fetched, SaverHears::Collection(files)];
    let events = seq![local, SaverHears::Sizes(sizes)] + progress(offsets) + end;
    assert(events.drop_first() =~= seq![SaverHears::Sizes(sizes)] + (progress(offsets) + end));
    assert(events.drop_first().drop_first() =~= progress(offsets) + end);
    lemma_one_step(Saving::AwaitLocal, events);
    let first = crate::recv::recv_next(Saving::AwaitLocal, local);
    lemma_one_step(first.state, events.drop_first());
    lemma_fetch_from(bytes, offsets, files);
    assert(tells(run(Saving::AwaitLocal, events)) =~= seq![
        Told::Connect,
        Told::TotalSize(crate::recv::total(sizes)),
        Told::CurrentSize(bytes as nat),
    ] + Seq::new(offsets.len(), |i: int| Told::CurrentSize((bytes + offsets[i]) as nat)));
}

/// Data that is all here leads straight to the user being asked for a folder; the peer is not
/// called, nothing is fetched, and nothing is told.
pub proof fn law_data_that_is_here_is_saved(bytes: u64, files: Seq<Listed>)
    ensures
        ({
            let steps = run(
                Saving::AwaitLocal,
                seq![SaverHears::Local { complete: true, bytes }, SaverHears::Collection(files)],
            );
            &&& steps.len() == 2
            &&& steps[0].action == SaverDoes::LoadCollection
            &&& steps[1].action == SaverDoes::PickFolder
            &&& steps[1].state == (Saving::AwaitFolder { files })
            &&& tells(steps) == Seq::<Told>::empty()
        }),
{
    let local = SaverHears::Local { complete: true, bytes };
    let events = seq![local, SaverHears::Collection(files)];
    lemma_one_step(Saving::AwaitLocal, events);
    assert(events.drop_first() =~= seq![SaverHears::Collection(files)]);
    let first = crate::recv::recv_next(Saving::AwaitLocal, local);
    lemma_one_step(first.state, events.drop_first());
    let second = crate::recv::recv_next(first.state, SaverHears::Collection(files));
    assert(events.drop_first().drop_first() =~= seq![]);
    assert(run(second.state, events.drop_first().drop_first()) =~= seq![]);
    assert(tells(run(Saving::AwaitLocal, events)) =~= seq![]);
}

/// The list is read only if the data is all here: it was reported complete, or it was fetched.
pub proof fn law_list_is_read_only_from_whole_data(state: Saving, event: SaverHears)
    requires
        crate::recv::recv_next(state, event).action is LoadCollection,
    ensures
        state is AwaitLocal && (event matches SaverHears::Local { complete, bytes } && complete)
            || state is Downloading && event is Fetched,
{
}

/// The receiver reports that everything was received only when the data has been removed, and the
/// data is removed only behind the last file.
pub proof fn law_done_comes_last(state: Saving, event: SaverHears)
    ensures
        crate::recv::recv_next(state, event).action is Done <==> state is AwaitRemoved
            && event is Removed,
        crate::recv::recv_next(state, event).state is AwaitRemoved <==> crate::recv::recv_next(
            state,
            event,
        ).action is RemoveDir,
{
}

/// Whatever fails, the receiver stops with the words of what failed, and says nothing else.
pub proof fn law_failures_stop_the_receiver(state: Saving, files: Seq<Listed>, text: Seq<char>)
    requires
        !(state is Ended),
    ensures
        crate::recv::recv_next(state, SaverHears::Failed(text)) == (SavingStep {
            state: Saving::Ended,
            tell: seq![],
            action: SaverDoes::Fail(RecvFailure::Stopped(text)),
        }),
        crate::recv::recv_next(
            Saving::AwaitFolder { files },
            SaverHears::Folder(Folder::Unknown(text)),
        ) == (SavingStep {
            state: Saving::Ended,
            tell: seq![],
            action: SaverDoes::Fail(RecvFailure::Stopped(text)),
        }),
        crate::recv::recv_next(
            Saving::AwaitFolder { files },
            SaverHears::Folder(Folder::Cancelled),
        ) == (SavingStep {
            state: Saving::Ended,
            tell: seq![],
            action: SaverDoes::Fail(RecvFailure::Stopped("Save cancelled!"@)),
        }),
{
}

/// A receiver ends exactly when it is done or fails, and it fails for no other reason than that
/// something failed, the user picked nothing, a target was taken, or an event came that the state
/// does not wait for.
pub proof fn law_receiver_fails_for_a_reason(state: Saving, event: SaverHears)
    ensures
        ({
            let step = crate::recv::recv_next(state, event);
            &&& step.state is Ended <==> step.action is Done || step.action is Fail
            &&& step.action is Fail ==> step.tell.len() == 0
            &&& step.action matches SaverDoes::Fail(why) ==> match why {
                RecvFailure::Stopped(text) => event == SaverHears::Failed(text) || (
                state is AwaitFolder && (event matches SaverHears::Folder(picked)
                    && !(picked is Path))),
                RecvFailure::TargetExists(shown) => state is AwaitChecked && event == (
                SaverHears::Checked { exists: true }),
                RecvFailure::OutOfOrder => match state {
                    Saving::AwaitLocal => !(event is Local),
                    Saving::AwaitSizes { .. } => !(event is Sizes),
                    Saving::Downloading { .. } => !(event is Progress) && !(event is Fetched),
                    Saving::AwaitCollection => !(event is Collection),
                    Saving::AwaitFolder { .. } => !(event is Folder),
                    Saving::AwaitChecked { .. } => !(event is Checked),
                    Saving::AwaitExported { .. } => !(event is Exported),
                    Saving::AwaitRemoved => !(event is Removed),
                    Saving::Ended => true,
                },
            }
        }),
{
}

/// An event that the state does not wait for ends the run, and so does every event once it has
/// ended.
pub proof fn law_other_events_end_the_run(state: Saving, event: SaverHears)
    requires
        match state {
            Saving::AwaitLocal => !(event is Local),
            Saving::AwaitSizes { .. } => !(event is Sizes),
            Saving::Downloading { .. } => !(event is Progress) && !(event is Fetched),
            Saving::AwaitCollection => !(event is Collection),
            Saving::AwaitFolder { .. } => !(event is Folder),
            Saving::AwaitChecked { .. } => !(event is Checked),
            Saving::AwaitExported { .. } => !(event is Exported),
            Saving::AwaitRemoved => !(event is Removed),
            Saving::Ended => true,
        },
        state is Ended || !(event is Failed),
    ensures
        crate::recv::recv_next(state, event) == (SavingStep {
            state: Saving::Ended,
            tell: seq![],
            action: SaverDoes::Fail(RecvFailure::OutOfOrder),
        }),
{
}

/// Every step can be taken but one whose sum does not fit in 64 bits: that of the sizes, or that
/// of the bytes that were here and those that were fetched.
pub proof fn law_only_overlong_sums_cannot_be_taken(state: Saving, event: SaverHears)
    ensures
        !crate::recv::sums_fit(state, event) <==> match event {
            SaverHears::Sizes(sizes) => state is AwaitSizes && crate::recv::total(sizes)
                > 0xffff_ffff_ffff_ffff,
            SaverHears::Progress(offset) => state matches Saving::Downloading { position }
                && position + offset > 0xffff_ffff_ffff_ffff,
            _ => false,
        },
{
}

/// What the user is told of a receiver that failed: the very words of what failed, or the path
/// that is taken.
pub proof fn law_failed_receiver_is_told_in_words(text: Seq<char>)
    ensures
        crate::recv::recv_words(RecvFailure::Stopped(text)) == text,
        crate::recv::recv_words(RecvFailure::TargetExists(text)) == "target "@ + text
            + " already exists"@,
        crate::recv::recv_words(RecvFailure::OutOfOrder) == "Unexpected event"@,
{
}

/// What the user interface is told as the total is the sum: nothing makes nothing, one size is the
/// total, and two lists add up.
pub proof fn law_total_adds_up(a: Seq<u64>, b: Seq<u64>, size: u64)
    ensures
        crate::recv::total(Seq::empty()) == 0,
        crate::recv::total(seq![size]) == size,
        crate::recv::total(a + b) == crate::recv::total(a) + crate::recv::total(b),
    decreases b.len(),
{
    assert(seq![size].drop_last() =~= Seq::<u64>::empty());
    assert(crate::recv::total(seq![size].drop_last()) == 0);
    if b.len() == 0 {
        assert(a + b =~= a);
    } else {
        law_total_adds_up(a, b.drop_last(), size);
        assert((a + b).drop_last() =~= a + b.drop_last());
    }
}

/// Data with different hashes is kept in different folders, and their names begin alike.
pub proof fn law_each_share_has_its_folder(a: Seq<u8>, b: Seq<u8>)
    ensures
        crate::recv::recv_dir(a).take(15) == ".halfcopy-recv-"@,
        crate::recv::recv_dir(a).skip(15) == crate::crypto::hex_text(a),
        crate::recv::recv_dir(a) == crate::recv::recv_dir(b) ==> a == b,
{
    reveal_strlit(".halfcopy-recv-");
    assert(crate::recv::recv_dir(a).take(15) =~= ".halfcopy-recv-"@);
    assert(crate::recv::recv_dir(a).skip(15) =~= crate::crypto::hex_text(a));
    assert(crate::recv::recv_dir(b).skip(15) =~= crate::crypto::hex_text(b));
    if crate::recv::recv_dir(a) == crate::recv::recv_dir(b) {
        crate::laws::wire::law_hex_is_read_back(a, b);
    }
}

/// The contracts speak of what the receiver is handed and hands out as it is: nothing is left out
/// of it or changed.
pub proof fn law_receiver_is_seen_as_it_is(
    state: RecvState,
    event: RecvEvent,
    step: RecvStep,
    error: RecvError,
    files: Seq<SharedFile>,
)
    ensures
        crate::recv::listed(files).len() == files.len(),
        forall|i: int|
            0 <= i < files.len() ==> (#[trigger] crate::recv::listed(files)[i]).name
                == files[i].name@ && crate::recv::listed(files)[i].hash == files[i].hash@,
        step@.state == step.state@,
        step@.action == step.action@,
        step@.tell.len() == step.tell@.len(),
        forall|i: int| 0 <= i < step.tell@.len() ==> (#[trigger] step@.tell[i]) == step.tell@[i]@,
        match step.action {
            RecvAction::AskSizes => step.action@ is AskSizes,
            RecvAction::Fetch => step.action@ is Fetch,
            RecvAction::AwaitMore => step.action@ is AwaitMore,
            RecvAction::LoadCollection => step.action@ is LoadCollection,
            RecvAction::PickFolder => step.action@ is PickFolder,
            RecvAction::CheckTarget(target) => step.action@ == SaverDoes::CheckTarget(
                crate::path::path_value(target),
            ),
            RecvAction::Export { hash, target } => step.action@ == (SaverDoes::Export {
                hash: hash@,
                target: crate::path::path_value(target),
            }),
            RecvAction::RemoveDir => step.action@ is RemoveDir,
            RecvAction::Done => step.action@ is Done,
            RecvAction::Fail(e) => step.action@ == SaverDoes::Fail(e@),
        },
        match error {
            RecvError::Stopped(text) => error@ == RecvFailure::Stopped(text@),
            RecvError::TargetExists(shown) => error@ == RecvFailure::TargetExists(shown@),
            RecvError::OutOfOrder => error@ is OutOfOrder,
        },
        match event {
            RecvEvent::Local { complete, bytes } => event@ == (SaverHears::Local {
                complete,
                bytes,
            }),
            RecvEvent::Sizes(sizes) => event@ == SaverHears::Sizes(sizes@),
            RecvEvent::Progress(offset) => event@ == SaverHears::Progress(offset),
            RecvEvent::Fetched => event@ is Fetched,
            RecvEvent::Collection(listed) => event@ == SaverHears::Collection(
                crate::recv::listed(listed@),
            ),
            RecvEvent::Folder(Picked::Path(path)) => event@ == SaverHears::Folder(
                Folder::Path(crate::path::path_value(path)),
            ),
            RecvEvent::Folder(Picked::Cancelled) => event@ == SaverHears::Folder(Folder::Cancelled),
            RecvEvent::Folder(Picked::Lost(text)) => event@ == SaverHears::Folder(
                Folder::Unknown(text@),
            ),
            RecvEvent::Folder(Picked::Unusable(text)) => event@ == SaverHears::Folder(
                Folder::Unknown(text@),
            ),
            RecvEvent::Checked { exists } => event@ == (SaverHears::Checked { exists }),
            RecvEvent::Exported => event@ is Exported,
            RecvEvent::Removed => event@ is Removed,
            RecvEvent::Failed(text) => event@ == SaverHears::Failed(text@),
        },
        match state {
            RecvState::AwaitLocal => state@ is AwaitLocal,
            RecvState::AwaitSizes { position } => state@ == (Saving::AwaitSizes { position }),
            RecvState::Downloading { position } => state@ == (Saving::Downloading { position }),
            RecvState::AwaitCollection => state@ is AwaitCollection,
            RecvState::AwaitFolder { files: had } => state@ == (Saving::AwaitFolder {
                files: crate::recv::listed(had@),
            }),
            RecvState::AwaitChecked { files: had, root, at, target } => state@ == (
            Saving::AwaitChecked {
                files: crate::recv::listed(had@),
                root: crate::path::path_value(root),
                at: at as nat,
                target: crate::path::path_value(target),
            }),
            RecvState::AwaitExported { files: had, root, at } => state@ == (Saving::AwaitExported {
                files: crate::recv::listed(had@),
                root: crate::path::path_value(root),
                at: at as nat,
            }),
            RecvState::AwaitRemoved => state@ is AwaitRemoved,
            RecvState::Ended => state@ is Ended,
        },
{
}

} // verus!
