//! What the sender is for.

use crate::events::Told;
use crate::path::{PathValue, Placed};
use crate::recv::Listed;
use crate::send::{
    Arrival, Came, Entry, Found, ImportItem, News, SendAction, SendError, SendEvent, SendFailure,
    SendState, SendStep, SharerDoes, SharerHears, Sharing, SharingStep, Source, SourceFile,
};
use crate::sorting::{Imported, ImportedFile};
use vstd::prelude::*;

verus! {

/// The steps of a sender to which these things happen, one after the other.
pub open spec fn run(state: Sharing, events: Seq<SharerHears>, suffix: Seq<u8>) -> Seq<SharingStep>
    decreases events.len(),
{
    if events.len() == 0 {
        seq![]
    } else {
        let step = crate::send::send_next(state, events[0], suffix);
        seq![step] + run(step.state, events.drop_first(), suffix)
    }
}

/// The paths of the files that are read in these steps, in order.
pub open spec fn reads(steps: Seq<SharingStep>) -> Seq<PathValue>
    decreases steps.len(),
{
    if steps.len() == 0 {
        seq![]
    } else {
        match steps[0].action {
            SharerDoes::Import(path) => seq![path] + reads(steps.drop_first()),
            _ => reads(steps.drop_first()),
        }
    }
}

/// What the user interface is told in these steps, in order.
pub open spec fn tells(steps: Seq<SharingStep>) -> Seq<Told>
    decreases steps.len(),
{
    if steps.len() == 0 {
        seq![]
    } else {
        steps[0].tell + tells(steps.drop_first())
    }
}

proof fn lemma_one_step(state: Sharing, events: Seq<SharerHears>, suffix: Seq<u8>)
    requires
        events.len() > 0,
    ensures
        ({
            let step = crate::send::send_next(state, events[0], suffix);
            let rest = run(step.state, events.drop_first(), suffix);
            let all = run(state, events, suffix);
            &&& all == seq![step] + rest
            &&& tells(all) == step.tell + tells(rest)
            &&& reads(all) == match step.action {
                SharerDoes::Import(path) => seq![path] + reads(rest),
                _ => reads(rest),
            }
        }),
{
    let step = crate::send::send_next(state, events[0], suffix);
    let rest = run(step.state, events.drop_first(), suffix);
    let all = seq![step] + rest;
    assert(all.drop_first() =~= rest);
    assert(all[0] == step);
}

/// Whether a file is shared under this name: it is below the folder that was picked from, and its
/// path from there gives the name.
pub open spec fn has_name(file: Source, name: Seq<char>) -> bool {
    file.place matches Placed::Below { parts, shown } && crate::path::shared_as(parts) == Some(name)
}

/// Whenever a file is about to be read, it is the file `at` of those to be shared, by its own
/// path, and it will be listed under the name that this path gives it.
pub proof fn law_named_file_is_the_one_read(
    state: Sharing,
    event: SharerHears,
    suffix: Seq<u8>,
    path: PathValue,
)
    requires
        crate::send::send_next(state, event, suffix).action == SharerDoes::Import(path),
    ensures
        crate::send::send_next(state, event, suffix).state matches Sharing::Importing {
            picked,
            files,
            folder,
            at,
            name,
            size,
            done,
        } && at < files.len() && path == files[at as int].path && has_name(files[at as int], name)
            && size == 0,
{
}

/// What was read is recorded: a hash that comes is that of the file which is being read, and is
/// listed under the name of that file behind those before it. Then the next file is read; one that
/// has no name stops the sender, and behind the last one the list is stored. In a folder, the user
/// interface is told of each file as it comes.
pub proof fn law_hash_is_recorded_with_its_name(
    picked: PathValue,
    files: Seq<Source>,
    folder: bool,
    at: nat,
    name: Seq<char>,
    size: u64,
    done: Seq<Imported>,
    hash: Seq<u8>,
    suffix: Seq<u8>,
    next: Seq<char>,
)
    ensures
        ({
            let step = crate::send::send_next(
                Sharing::Importing { picked, files, folder, at, name, size, done },
                SharerHears::Item(News::Done(hash)),
                suffix,
            );
            let now = done.push(Imported { name, hash, size });
            let n = (at + 1) as int;
            let tell = if folder {
                seq![Told::ImportProgress(at + 1)]
            } else {
                seq![]
            };
            &&& n < files.len() && has_name(files[n], next) ==> step == (SharingStep {
                state: Sharing::Importing {
                    picked,
                    files,
                    folder,
                    at: at + 1,
                    name: next,
                    size: 0,
                    done: now,
                },
                tell,
                action: SharerDoes::Import(files[n].path),
            })
            &&& n < files.len() ==> match files[n].place {
                Placed::NotBelow(why) => step == (SharingStep {
                    state: Sharing::Ended,
                    tell,
                    action: SharerDoes::Fail(SendFailure::Stopped(why)),
                }),
                Placed::Below { parts, shown } => crate::path::shared_as(parts) is None ==> step
                    == (SharingStep {
                    state: Sharing::Ended,
                    tell,
                    action: SharerDoes::Fail(SendFailure::InvalidPath(shown)),
                }),
            }
            &&& n >= files.len() ==> step.state is AwaitStored && step.tell.len() == 0 && (
            step.action matches SharerDoes::StoreCollection(listed) && lists(listed, now))
        }),
{
    let step = crate::send::send_next(
        Sharing::Importing { picked, files, folder, at, name, size, done },
        SharerHears::Item(News::Done(hash)),
        suffix,
    );
    let none = Seq::<Told>::empty();
    assert(none.push(Told::ImportProgress(at + 1)) =~= seq![
        Told::ImportProgress(at + 1),
    ]);
    assert(step.tell =~= if folder && at + 1 < files.len() {
        seq![Told::ImportProgress(at + 1)]
    } else {
        seq![]
    });
    lemma_lists(done.push(Imported { name, hash, size }));
}

/// What becomes of a file in the list: its name and its hash.
pub open spec fn as_listed(file: Imported) -> Listed {
    Listed { name: file.name, hash: file.hash }
}

/// Whether this is the list of these files: as many entries, the very ones, in the order of the
/// names, and in the order in which they were read where the names are the same.
pub open spec fn lists(listed: Seq<Listed>, done: Seq<Imported>) -> bool {
    let inner = crate::sorting::sorted(done);
    &&& listed.len() == done.len()
    &&& inner.len() == done.len()
    &&& forall|i: int| 0 <= i < listed.len() ==> (#[trigger] listed[i]) == as_listed(inner[i])
    &&& inner.to_multiset() == done.to_multiset()
    &&& forall|i: int, j: int|
        0 <= i < j < listed.len() ==> crate::text::text_le(
            (#[trigger] listed[i]).name,
            (#[trigger] listed[j]).name,
        )
}

proof fn lemma_lists(done: Seq<Imported>)
    ensures
        lists(crate::send::collection(crate::sorting::sorted(done)), done),
{
    broadcast use vstd::seq_lib::group_to_multiset_ensures;

    let inner = crate::sorting::sorted(done);
    let listed = crate::send::collection(inner);
    crate::sorting::law_sorting_keeps_the_files(done);
    crate::sorting::law_sorted_files_are_ordered(done);
    assert(inner.to_multiset().len() == done.to_multiset().len());
    assert forall|i: int, j: int| 0 <= i < j < listed.len() implies crate::text::text_le(
        (#[trigger] listed[i]).name,
        (#[trigger] listed[j]).name,
    ) by {
        assert(crate::sorting::name_le(inner[i], inner[j]));
    }
}

/// While a file is being read, its size is noted, whatever it is, and other news changes nothing;
/// both tell nothing. An error stops the sender with the path of that file and the words of the
/// error, and so does an end without a hash.
pub proof fn law_news_is_of_the_file_that_is_read(
    picked: PathValue,
    files: Seq<Source>,
    folder: bool,
    at: nat,
    name: Seq<char>,
    size: u64,
    done: Seq<Imported>,
    known: u64,
    cause: Seq<char>,
    suffix: Seq<u8>,
)
    ensures
        ({
            let here = Sharing::Importing { picked, files, folder, at, name, size, done };
            let on = |item: News| crate::send::send_next(here, SharerHears::Item(item), suffix);
            &&& on(News::Size(known)) == (SharingStep {
                state: Sharing::Importing { picked, files, folder, at, name, size: known, done },
                tell: seq![],
                action: SharerDoes::AwaitItem,
            })
            &&& on(News::Other) == (SharingStep {
                state: here,
                tell: seq![],
                action: SharerDoes::AwaitItem,
            })
            &&& files[at as int].place matches Placed::Below { parts, shown } ==> on(
                News::Error(cause),
            ) == (SharingStep {
                state: Sharing::Ended,
                tell: seq![],
                action: SharerDoes::Fail(SendFailure::ImportFailed { shown, cause }),
            })
            &&& on(News::End) == (SharingStep {
                state: Sharing::Ended,
                tell: seq![],
                action: SharerDoes::Fail(SendFailure::NoTag),
            })
        }),
{
}

/// Of what was found, the files are shared and nothing else, in order, each by its path.
pub proof fn law_only_files_are_shared(a: Seq<Found>, b: Seq<Found>, one: Found)
    ensures
        crate::send::regular(Seq::empty()).len() == 0,
        one.is_file ==> crate::send::regular(seq![one]) == seq![one.path],
        !one.is_file ==> crate::send::regular(seq![one]).len() == 0,
        crate::send::regular(a + b) == crate::send::regular(a) + crate::send::regular(b),
    decreases b.len(),
{
    assert(seq![one].drop_last() =~= Seq::<Found>::empty());
    assert(crate::send::regular(seq![one].drop_last()) =~= seq![]);
    if one.is_file {
        assert(crate::send::regular(seq![one]) =~= seq![one.path]);
    }
    if b.len() == 0 {
        assert(a + b =~= a);
        assert(crate::send::regular(a) + crate::send::regular(b) =~= crate::send::regular(a));
    } else {
        law_only_files_are_shared(a, b.drop_last(), one);
        assert((a + b).drop_last() =~= a + b.drop_last());
        assert(crate::send::regular(a + b) =~= crate::send::regular(a) + crate::send::regular(b));
    }
}

/// Whether these are the files with these paths, each where its path says when `picked` was
/// picked.
pub open spec fn files_at(picked: PathValue, files: Seq<Source>, paths: Seq<PathValue>) -> bool {
    &&& files.len() == paths.len()
    &&& forall|i: int|
        0 <= i < files.len() ==> (#[trigger] files[i]).path == paths[i]
            && crate::path::place_of(picked, paths[i]) == Some(files[i].place)
}

/// When a folder was walked, the files in it are what is to be shared, and the first of them is
/// read. The user interface is told how many there are. A folder without files makes an empty
/// list.
pub proof fn law_walked_folder_is_read_from_its_first_file(
    picked: PathValue,
    found: Seq<Found>,
    suffix: Seq<u8>,
)
    requires
        crate::path::value_parent(picked) is Some,
    ensures
        ({
            let paths = crate::send::regular(found);
            let step = crate::send::send_next(
                Sharing::AwaitWalk { picked },
                SharerHears::Walked(found),
                suffix,
            );
            &&& paths.len() == 0 ==> step == (SharingStep {
                state: Sharing::AwaitStored,
                tell: seq![Told::ImportStart(0)],
                action: SharerDoes::StoreCollection(seq![]),
            })
            &&& paths.len() > 0 ==> step.tell == seq![
                Told::ImportStart(paths.len()),
                Told::ImportProgress(0),
            ] && begins(step, picked, paths, true)
        }),
{
    let paths = crate::send::regular(found);
    let files = crate::send::sources_of(picked, paths);
    let step = crate::send::send_next(
        Sharing::AwaitWalk { picked },
        SharerHears::Walked(found),
        suffix,
    );
    lemma_lists(Seq::empty());
    if paths.len() == 0 {
        assert(crate::send::collection(crate::sorting::sorted(Seq::empty())) =~= seq![]);
    } else {
        assert(seq![Told::ImportStart(paths.len())].push(Told::ImportProgress(0)) =~= seq![
            Told::ImportStart(paths.len()),
            Told::ImportProgress(0),
        ]);
        assert(files_at(picked, files, paths));
    }
}

/// Whether this is the step that begins to read the files with these paths: the first of them is
/// read, if it has a name, and the files are kept; if it has none, that is the end.
pub open spec fn begins(
    step: SharingStep,
    picked: PathValue,
    paths: Seq<PathValue>,
    is_folder: bool,
) -> bool {
    match crate::path::place_of(picked, paths[0]) {
        Some(Placed::Below { parts, shown }) => match crate::path::shared_as(parts) {
            Some(shared) => {
                &&& step.action == SharerDoes::Import(paths[0])
                &&& step.state matches Sharing::Importing {
                    picked: was,
                    files,
                    folder,
                    at,
                    name,
                    size,
                    done,
                } && was == picked && files_at(picked, files, paths) && folder == is_folder && at
                    == 0 && name == shared && size == 0 && done.len() == 0
            },
            None => step.state is Ended && step.action == SharerDoes::Fail(
                SendFailure::InvalidPath(shown),
            ),
        },
        Some(Placed::NotBelow(why)) => step.state is Ended && step.action == SharerDoes::Fail(
            SendFailure::Stopped(why),
        ),
        None => false,
    }
}

/// How a share begins: the folder for the data gets a name that is free; what was picked must not
/// be the folder that the data is kept in, and must be in a folder. A file is read by its path,
/// and nothing is told; a folder is walked.
pub proof fn law_share_begins_with_what_was_picked(
    picked: PathValue,
    current: PathValue,
    suffix: Seq<u8>,
)
    ensures
        crate::send::send_next(
            Sharing::AwaitDir,
            SharerHears::DirChecked { exists: true },
            suffix,
        ) == (SharingStep {
            state: Sharing::AwaitDir,
            tell: seq![],
            action: SharerDoes::CheckDir(crate::send::send_dir(suffix)),
        }),
        crate::send::send_next(
            Sharing::AwaitDir,
            SharerHears::DirChecked { exists: false },
            suffix,
        ) == (SharingStep {
            state: Sharing::AwaitSource,
            tell: seq![],
            action: SharerDoes::Resolve,
        }),
        crate::send::send_next(
            Sharing::AwaitSource,
            SharerHears::Resolved { picked, current },
            suffix,
        ) == if crate::path::value_same(picked, current) {
            SharingStep {
                state: Sharing::Ended,
                tell: seq![],
                action: SharerDoes::Fail(SendFailure::CurrentDirectory),
            }
        } else {
            SharingStep {
                state: Sharing::AwaitStore { picked },
                tell: seq![],
                action: SharerDoes::OpenStore,
            }
        },
        ({
            let file = crate::send::send_next(
                Sharing::AwaitStore { picked },
                SharerHears::Opened { is_file: true },
                suffix,
            );
            let folder = crate::send::send_next(
                Sharing::AwaitStore { picked },
                SharerHears::Opened { is_file: false },
                suffix,
            );
            let refused = SharingStep {
                state: Sharing::Ended,
                tell: seq![],
                action: SharerDoes::Fail(SendFailure::NoParent),
            };
            &&& crate::path::value_parent(picked) is None ==> file == refused && folder == refused
            &&& crate::path::value_parent(picked) is Some ==> file.tell.len() == 0 && begins(
                file,
                picked,
                seq![picked],
                false,
            )
            &&& crate::path::value_parent(picked) is Some ==> folder == (SharingStep {
                state: Sharing::AwaitWalk { picked },
                tell: seq![],
                action: SharerDoes::Walk,
            })
        }),
{
    if crate::path::value_parent(picked) is Some {
        assert(files_at(picked, crate::send::sources_of(picked, seq![picked]), seq![picked]));
    }
}

/// That each of the files from `at` on is read: its size is known, then its hash.
pub open spec fn all_come(sizes: Seq<u64>, hashes: Seq<Seq<u8>>, at: nat) -> Seq<SharerHears>
    decreases hashes.len() - at,
{
    if at >= hashes.len() {
        seq![]
    } else {
        seq![
            SharerHears::Item(News::Size(sizes[at as int])),
            SharerHears::Item(News::Done(hashes[at as int])),
        ] + all_come(sizes, hashes, at + 1)
    }
}

/// What is known of the first files when they were read.
pub open spec fn first_read(
    names: Seq<Seq<char>>,
    sizes: Seq<u64>,
    hashes: Seq<Seq<u8>>,
    at: nat,
) -> Seq<Imported> {
    Seq::new(at, |i: int| Imported { name: names[i], hash: hashes[i], size: sizes[i] })
}

/// That the files from `at` on, up to the number `n`, are being read, as it is told.
pub open spec fn each_told(n: nat, at: nat) -> Seq<Told> {
    Seq::new((n - at) as nat, |i: int| Told::ImportProgress((at + i) as nat))
}

proof fn lemma_read_from(
    picked: PathValue,
    files: Seq<Source>,
    folder: bool,
    at: nat,
    names: Seq<Seq<char>>,
    sizes: Seq<u64>,
    hashes: Seq<Seq<u8>>,
    suffix: Seq<u8>,
)
    requires
        at < files.len(),
        names.len() == files.len(),
        sizes.len() == files.len(),
        hashes.len() == files.len(),
        forall|i: int| 0 <= i < files.len() ==> has_name(#[trigger] files[i], names[i]),
    ensures
        ({
            let steps = run(
                Sharing::Importing {
                    picked,
                    files,
                    folder,
                    at,
                    name: names[at as int],
                    size: 0,
                    done: first_read(names, sizes, hashes, at),
                },
                all_come(sizes, hashes, at),
                suffix,
            );
            &&& steps.len() == 2 * (files.len() - at)
            &&& reads(steps) == Seq::new(
                (files.len() - at - 1) as nat,
                |i: int| files[at + 1 + i].path,
            )
            &&& tells(steps) == if folder {
                each_told(files.len(), at + 1)
            } else {
                seq![]
            }
            &&& steps.last().state is AwaitStored
            &&& steps.last().action matches SharerDoes::StoreCollection(listed) && lists(
                listed,
                first_read(names, sizes, hashes, files.len()),
            )
        }),
    decreases files.len() - at,
{
    let done = first_read(names, sizes, hashes, at);
    let (name, size, hash) = (names[at as int], sizes[at as int], hashes[at as int]);
    let here = Sharing::Importing { picked, files, folder, at, name, size: 0, done };
    let events = all_come(sizes, hashes, at);
    let later = all_come(sizes, hashes, at + 1);
    let first = SharerHears::Item(News::Size(size));
    let second = SharerHears::Item(News::Done(hash));
    assert(events =~= seq![first, second] + later);
    assert(events.drop_first() =~= seq![second] + later);
    assert(events.drop_first().drop_first() =~= later);
    lemma_one_step(here, events, suffix);
    let sized = Sharing::Importing { picked, files, folder, at, name, size, done };
    law_news_is_of_the_file_that_is_read(
        picked,
        files,
        folder,
        at,
        name,
        0,
        done,
        size,
        seq![],
        suffix,
    );
    lemma_one_step(sized, events.drop_first(), suffix);
    let next = if at + 1 < files.len() {
        names[at as int + 1]
    } else {
        seq![]
    };
    law_hash_is_recorded_with_its_name(
        picked,
        files,
        folder,
        at,
        name,
        size,
        done,
        hash,
        suffix,
        next,
    );
    assert(done.push(Imported { name, hash, size }) =~= first_read(names, sizes, hashes, at + 1));
    let steps = run(here, events, suffix);
    if at + 1 < files.len() {
        assert(has_name(files[at as int + 1], names[at as int + 1]));
        lemma_read_from(picked, files, folder, at + 1, names, sizes, hashes, suffix);
        let after = crate::send::send_next(sized, second, suffix);
        let rest = run(after.state, later, suffix);
        assert(steps =~= seq![crate::send::send_next(here, first, suffix), after] + rest);
        assert(steps.last() == rest.last());
    } else {
        assert(later =~= seq![]);
    }
    assert(reads(steps) =~= Seq::new(
        (files.len() - at - 1) as nat,
        |i: int| files[at + 1 + i].path,
    ));
    assert(tells(steps) =~= if folder {
        each_told(files.len(), at + 1)
    } else {
        seq![]
    });
}

/// Whether the files with these paths are shared under these names when `picked` was picked.
pub open spec fn named_as(
    picked: PathValue,
    paths: Seq<PathValue>,
    names: Seq<Seq<char>>,
) -> bool {
    &&& names.len() == paths.len()
    &&& forall|i: int|
        0 <= i < paths.len() ==> (crate::path::place_of(picked, #[trigger] paths[i])
            matches Some(Placed::Below { parts, shown }) && crate::path::shared_as(parts) == Some(
            names[i],
        ))
}

/// A folder that was picked is shared whole. Let each file in it have a name, and let each be read
/// well. Then every file is read by its path, from the first on, in order, each once, and nothing
/// else is read. The user interface is told how many there are, and of each as it comes. At the
/// end the list is stored: each file under its own name with the hash that came when that file was
/// read, in the order of the names.
pub proof fn law_picked_folder_is_shared_whole(
    picked: PathValue,
    found: Seq<Found>,
    names: Seq<Seq<char>>,
    sizes: Seq<u64>,
    hashes: Seq<Seq<u8>>,
    suffix: Seq<u8>,
)
    requires
        crate::path::value_parent(picked) is Some,
        crate::send::regular(found).len() > 0,
        named_as(picked, crate::send::regular(found), names),
        sizes.len() == names.len(),
        hashes.len() == names.len(),
    ensures
        ({
            let paths = crate::send::regular(found);
            let steps = run(
                Sharing::AwaitWalk { picked },
                seq![SharerHears::Walked(found)] + all_come(sizes, hashes, 0),
                suffix,
            );
            &&& reads(steps) == paths
            &&& tells(steps) == seq![Told::ImportStart(paths.len())] + each_told(paths.len(), 0)
            &&& steps.last().state is AwaitStored
            &&& steps.last().action matches SharerDoes::StoreCollection(listed) && lists(
                listed,
                first_read(names, sizes, hashes, paths.len()),
            )
        }),
{
    let paths = crate::send::regular(found);
    let start = Sharing::AwaitWalk { picked };
    let walked = SharerHears::Walked(found);
    let later = all_come(sizes, hashes, 0);
    let events = seq![walked] + later;
    assert(events.drop_first() =~= later);
    lemma_one_step(start, events, suffix);
    law_walked_folder_is_read_from_its_first_file(picked, found, suffix);
    let first = crate::send::send_next(start, walked, suffix);
    assert(named_as(picked, paths, names) && crate::path::place_of(picked, paths[0]) is Some);
    let files = first.state->Importing_files;
    assert forall|i: int| 0 <= i < files.len() implies has_name(#[trigger] files[i], names[i]) by {
        assert(files[i].path == paths[i]);
    }
    assert(first.state->Importing_done =~= first_read(names, sizes, hashes, 0));
    lemma_read_from(picked, files, true, 0, names, sizes, hashes, suffix);
    let steps = run(start, events, suffix);
    assert(reads(steps) =~= paths);
    assert(tells(steps) =~= seq![Told::ImportStart(paths.len())] + each_told(paths.len(), 0));
    assert(steps.last() == run(first.state, later, suffix).last());
}

/// A file that was picked is shared: it is read by its path, once, nothing is told, and the list
/// is that file under its name with the hash that came.
pub proof fn law_picked_file_is_shared(
    picked: PathValue,
    name: Seq<char>,
    size: u64,
    hash: Seq<u8>,
    suffix: Seq<u8>,
)
    requires
        crate::path::value_parent(picked) is Some,
        named_as(picked, seq![picked], seq![name]),
    ensures
        ({
            let steps = run(
                Sharing::AwaitStore { picked },
                seq![
                    SharerHears::Opened { is_file: true },
                    SharerHears::Item(News::Size(size)),
                    SharerHears::Item(News::Done(hash)),
                ],
                suffix,
            );
            &&& reads(steps) == seq![picked]
            &&& tells(steps) == Seq::<Told>::empty()
            &&& steps.last().state is AwaitStored
            &&& steps.last().action == SharerDoes::StoreCollection(seq![Listed { name, hash }])
        }),
{
    broadcast use vstd::seq_lib::group_to_multiset_ensures;

    let paths = seq![picked];
    let (names, sizes, hashes) = (seq![name], seq![size], seq![hash]);
    let start = Sharing::AwaitStore { picked };
    let opened = SharerHears::Opened { is_file: true };
    let later = all_come(sizes, hashes, 0);
    assert(all_come(sizes, hashes, 1) =~= seq![]);
    let events = seq![
        opened,
        SharerHears::Item(News::Size(size)),
        SharerHears::Item(News::Done(hash)),
    ];
    assert(events.drop_first() =~= later);
    lemma_one_step(start, events, suffix);
    law_share_begins_with_what_was_picked(picked, picked, suffix);
    let first = crate::send::send_next(start, opened, suffix);
    assert(crate::path::place_of(picked, paths[0]) is Some);
    let files = first.state->Importing_files;
    assert forall|i: int| 0 <= i < files.len() implies has_name(#[trigger] files[i], names[i]) by {
        assert(files[i].path == paths[i]);
    }
    assert(first.state->Importing_done =~= first_read(names, sizes, hashes, 0));
    lemma_read_from(picked, files, false, 0, names, sizes, hashes, suffix);
    let steps = run(start, events, suffix);
    assert(reads(steps) =~= seq![picked]);
    assert(tells(steps) =~= seq![]);
    assert(steps.last() == run(first.state, later, suffix).last());
    let done = first_read(names, sizes, hashes, 1);
    let inner = crate::sorting::sorted(done);
    let listed = steps.last().action->StoreCollection_0;
    assert(inner.to_multiset().count(inner[0]) > 0) by {
        assert(inner.contains(inner[0]));
    }
    assert(done.contains(inner[0]));
    assert(listed =~= seq![Listed { name, hash }]);
}

/// Peers who did not redeem the coupon: the connection fails, or they have another id.
pub open spec fn strangers(events: Seq<SharerHears>, remote: Seq<u8>) -> bool {
    forall|i: int|
        0 <= i < events.len() ==> ((#[trigger] events[i]) == SharerHears::Arrived(Came::Failed) || (
        events[i] matches SharerHears::Arrived(Came::Node(id)) && id != remote))
}

proof fn lemma_peer_from(remote: Seq<u8>, others: Seq<SharerHears>, suffix: Seq<u8>)
    requires
        strangers(others, remote),
    ensures
        ({
            let steps = run(
                Sharing::AwaitPeer { remote },
                others + seq![
                    SharerHears::Arrived(Came::Node(remote)),
                    SharerHears::Served,
                    SharerHears::ShutDown,
                    SharerHears::Removed,
                ],
                suffix,
            );
            let n = others.len() as int;
            &&& steps.len() == n + 4
            &&& forall|i: int|
                0 <= i < n ==> (#[trigger] steps[i]) == (SharingStep {
                    state: Sharing::AwaitPeer { remote },
                    tell: seq![],
                    action: SharerDoes::Accept,
                })
            &&& tells(steps) == seq![Told::ConnectionGot, Told::Teardown]
            &&& steps[n].action is Serve
            &&& steps[n + 1].action is ShutDown
            &&& steps[n + 2].action is RemoveDir
            &&& steps[n + 3].action is Done
            &&& steps[n + 3].state is Ended
        }),
    decreases others.len(),
{
    let here = Sharing::AwaitPeer { remote };
    let end = seq![
        SharerHears::Arrived(Came::Node(remote)),
        SharerHears::Served,
        SharerHears::ShutDown,
        SharerHears::Removed,
    ];
    let events = others + end;
    let steps = run(here, events, suffix);
    lemma_one_step(here, events, suffix);
    if others.len() == 0 {
        assert(events =~= end);
        let after = seq![SharerHears::Served, SharerHears::ShutDown, SharerHears::Removed];
        let then = seq![SharerHears::ShutDown, SharerHears::Removed];
        assert(end.drop_first() =~= after);
        assert(after.drop_first() =~= then);
        assert(then.drop_first() =~= seq![SharerHears::Removed]);
        assert(seq![SharerHears::Removed].drop_first() =~= seq![]);
        lemma_one_step(Sharing::Serving, after, suffix);
        lemma_one_step(Sharing::AwaitShutdown, then, suffix);
        lemma_one_step(Sharing::AwaitRemoved, seq![SharerHears::Removed], suffix);
        assert(run(Sharing::Ended, seq![SharerHears::Removed].drop_first(), suffix) =~= seq![]);
        assert(tells(steps) =~= seq![Told::ConnectionGot, Told::Teardown]);
    } else {
        let rest = others.drop_first();
        assert(events.drop_first() =~= rest + end);
        assert(strangers(rest, remote)) by {
            assert forall|i: int| 0 <= i < rest.len() implies ((#[trigger] rest[i])
                == SharerHears::Arrived(Came::Failed) || (rest[i] matches SharerHears::Arrived(
                Came::Node(id),
            ) && id != remote)) by {
                assert(rest[i] == others[i + 1]);
            }
        }
        assert(others[0] == events[0]);
        lemma_peer_from(remote, rest, suffix);
        let later = run(here, rest + end, suffix);
        assert(steps[0].state == here);
        assert(steps =~= seq![steps[0]] + later);
        assert(tells(steps) =~= tells(later));
        let n = others.len() as int;
        assert forall|i: int| 0 <= i < n implies (#[trigger] steps[i]) == (SharingStep {
            state: Sharing::AwaitPeer { remote },
            tell: seq![],
            action: SharerDoes::Accept,
        }) by {
            if i > 0 {
                assert(steps[i] == later[i - 1]);
            }
        }
        assert(steps[n] == later[n - 1]);
        assert(steps[n + 1] == later[n]);
        assert(steps[n + 2] == later[n + 1]);
        assert(steps[n + 3] == later[n + 2]);
    }
}

/// Whoever redeemed the coupon is served, whatever the id. Once the list is stored, a coupon is
/// handed out and shown; the node that redeems it is awaited; whoever else comes before it is
/// passed over; and when that node comes it is served, the share is taken down, the data is
/// removed, and that is the end.
pub proof fn law_redeemer_is_served(
    coupon: Seq<char>,
    remote: Seq<u8>,
    others: Seq<SharerHears>,
    suffix: Seq<u8>,
)
    requires
        strangers(others, remote),
    ensures
        ({
            let steps = run(
                Sharing::AwaitStored,
                seq![
                    SharerHears::Stored,
                    SharerHears::Coupon(coupon),
                    SharerHears::Redeemed(remote),
                ] + (others + seq![
                    SharerHears::Arrived(Came::Node(remote)),
                    SharerHears::Served,
                    SharerHears::ShutDown,
                    SharerHears::Removed,
                ]),
                suffix,
            );
            let n = others.len() as int;
            &&& steps.len() == n + 7
            &&& steps[0].action is ProvideCoupon
            &&& steps[1].action is AwaitRedeemed
            &&& steps[2].action is Accept
            &&& steps[2].state == (Sharing::AwaitPeer { remote })
            &&& forall|i: int|
                3 <= i < n + 3 ==> (#[trigger] steps[i]) == (SharingStep {
                    state: Sharing::AwaitPeer { remote },
                    tell: seq![],
                    action: SharerDoes::Accept,
                })
            &&& steps[n + 3].action is Serve
            &&& steps[n + 4].action is ShutDown
            &&& steps[n + 5].action is RemoveDir
            &&& steps[n + 6].action is Done
            &&& steps[n + 6].state is Ended
            &&& tells(steps) == seq![
                Told::CouponStart,
                Told::CouponAvailable(coupon),
                Told::ConnectionWait,
                Told::ConnectionGot,
                Told::Teardown,
            ]
        }),
{
    let end = others + seq![
        SharerHears::Arrived(Came::Node(remote)),
        SharerHears::Served,
        SharerHears::ShutDown,
        SharerHears::Removed,
    ];
    let (made, redeemed) = (SharerHears::Coupon(coupon), SharerHears::Redeemed(remote));
    let events = seq![SharerHears::Stored, made, redeemed] + end;
    let second = seq![made, redeemed] + end;
    let third = seq![redeemed] + end;
    assert(events.drop_first() =~= second);
    assert(second.drop_first() =~= third);
    assert(third.drop_first() =~= end);
    lemma_one_step(Sharing::AwaitStored, events, suffix);
    lemma_one_step(Sharing::AwaitCoupon, second, suffix);
    lemma_one_step(Sharing::AwaitCoupon, third, suffix);
    lemma_peer_from(remote, others, suffix);
    let steps = run(Sharing::AwaitStored, events, suffix);
    let later = run(Sharing::AwaitPeer { remote }, end, suffix);
    assert(steps =~= seq![steps[0], steps[1], steps[2]] + later);
    let n = others.len() as int;
    assert forall|i: int| 3 <= i < n + 3 implies (#[trigger] steps[i]) == (SharingStep {
        state: Sharing::AwaitPeer { remote },
        tell: seq![],
        action: SharerDoes::Accept,
    }) by {
        assert(steps[i] == later[i - 3]);
    }
    assert(steps[n + 3] == later[n]);
    assert(steps[n + 4] == later[n + 1]);
    assert(steps[n + 5] == later[n + 2]);
    assert(steps[n + 6] == later[n + 3]);
    assert(tells(steps) =~= seq![
        Told::CouponStart,
        Told::CouponAvailable(coupon),
        Told::ConnectionWait,
        Told::ConnectionGot,
        Told::Teardown,
    ]);
}

/// The peer that is awaited is the one who redeemed the coupon: it is awaited from then on, and no
/// other ever is.
pub proof fn law_awaited_peer_redeemed_the_coupon(
    state: Sharing,
    event: SharerHears,
    suffix: Seq<u8>,
    remote: Seq<u8>,
)
    ensures
        crate::send::send_next(Sharing::AwaitCoupon, SharerHears::Redeemed(remote), suffix) == (
        SharingStep {
            state: Sharing::AwaitPeer { remote },
            tell: seq![Told::ConnectionWait],
            action: SharerDoes::Accept,
        }),
        crate::send::send_next(
            Sharing::AwaitPeer { remote },
            SharerHears::Arrived(Came::Node(remote)),
            suffix,
        ) == (SharingStep {
            state: Sharing::Serving,
            tell: seq![Told::ConnectionGot],
            action: SharerDoes::Serve,
        }),
        crate::send::send_next(state, event, suffix).state == (Sharing::AwaitPeer { remote }) ==> (
        state is AwaitCoupon && event == SharerHears::Redeemed(remote)) || (state == (
        Sharing::AwaitPeer { remote }) && event is Arrived),
{
}

/// If no peer can come any more, the share is taken down without one.
pub proof fn law_share_without_a_peer_is_taken_down(remote: Seq<u8>, suffix: Seq<u8>)
    ensures
        crate::send::send_next(
            Sharing::AwaitPeer { remote },
            SharerHears::Arrived(Came::Closed),
            suffix,
        ) == (SharingStep {
            state: Sharing::AwaitShutdown,
            tell: seq![Told::Teardown],
            action: SharerDoes::ShutDown,
        }),
{
}

/// Whatever fails, the sender stops with the words of what failed, and says nothing else.
pub proof fn law_failures_stop_the_sender(state: Sharing, text: Seq<char>, suffix: Seq<u8>)
    requires
        !(state is Ended),
    ensures
        crate::send::send_next(state, SharerHears::Failed(text), suffix) == (SharingStep {
            state: Sharing::Ended,
            tell: seq![],
            action: SharerDoes::Fail(SendFailure::Stopped(text)),
        }),
{
}

/// Whether the state waits for an event of this kind.
pub open spec fn awaits(state: Sharing, event: SharerHears) -> bool {
    match state {
        Sharing::AwaitDir => event is DirChecked,
        Sharing::AwaitSource => event is Resolved,
        Sharing::AwaitStore { .. } => event is Opened,
        Sharing::AwaitWalk { .. } => event is Walked,
        Sharing::Importing { .. } => event is Item,
        Sharing::AwaitStored => event is Stored,
        Sharing::AwaitCoupon => event is Coupon || event is Redeemed,
        Sharing::AwaitPeer { .. } => event is Arrived,
        Sharing::Serving => event is Served,
        Sharing::AwaitShutdown => event is ShutDown,
        Sharing::AwaitRemoved => event is Removed,
        Sharing::Ended => false,
    }
}

/// A sender ends exactly when it is done or fails; it is done only when the data was removed; and
/// it fails for no other reason than that something failed, that what was picked or a file in it
/// cannot be shared, or that an event came that the state does not wait for.
pub proof fn law_sender_fails_for_a_reason(state: Sharing, event: SharerHears, suffix: Seq<u8>)
    ensures
        ({
            let step = crate::send::send_next(state, event, suffix);
            &&& step.state is Ended <==> step.action is Done || step.action is Fail
            &&& step.action is Done <==> state is AwaitRemoved && event is Removed
            &&& step.action is RemoveDir <==> state is AwaitShutdown && event is ShutDown
            &&& !awaits(state, event) && !(event is Failed) ==> step == (SharingStep {
                state: Sharing::Ended,
                tell: seq![],
                action: SharerDoes::Fail(SendFailure::OutOfOrder),
            })
            &&& step.action matches SharerDoes::Fail(why) ==> match why {
                SendFailure::OutOfOrder => !awaits(state, event),
                SendFailure::CurrentDirectory => state is AwaitSource,
                SendFailure::NoParent => state is AwaitStore,
                SendFailure::InvalidPath(_) => state is AwaitStore || state is AwaitWalk
                    || state is Importing,
                SendFailure::ImportFailed { .. } => state is Importing && (
                event matches SharerHears::Item(item) && item is Error),
                SendFailure::NoTag => state is Importing && (event matches SharerHears::Item(item)
                    && item is End),
                SendFailure::Stopped(text) => event == SharerHears::Failed(text)
                    || state is AwaitStore || state is AwaitWalk || state is Importing,
            }
        }),
{
}

/// What the user is told of a sender that failed: the very words of what failed, or the path that
/// cannot be shared or read.
pub proof fn law_failed_sender_is_told_in_words(text: Seq<char>, cause: Seq<char>)
    ensures
        crate::send::send_words(SendFailure::Stopped(text)) == text,
        crate::send::send_words(SendFailure::CurrentDirectory)
            == "can not share from the current directory"@,
        crate::send::send_words(SendFailure::NoParent)
            == "Shared path has no parent! Are you trying to share root?"@,
        crate::send::send_words(SendFailure::InvalidPath(text)) == "Path "@ + text
            + " is invalid for sharing!"@,
        crate::send::send_words(SendFailure::ImportFailed { shown: text, cause })
            == "error importing "@ + text + ": "@ + cause,
        crate::send::send_words(SendFailure::NoTag) == "import stream ended without a tag"@,
        crate::send::send_words(SendFailure::OutOfOrder) == "Unexpected event"@,
{
}

/// Different suffixes make different folders for the data, and their names begin alike.
pub proof fn law_each_suffix_has_its_folder(a: Seq<u8>, b: Seq<u8>)
    ensures
        crate::send::send_dir(a).take(15) == ".halfcopy-send-"@,
        crate::send::send_dir(a).skip(15) == crate::crypto::hex_text(a),
        crate::send::send_dir(a) == crate::send::send_dir(b) ==> a == b,
{
    reveal_strlit(".halfcopy-send-");
    assert(crate::send::send_dir(a).take(15) =~= ".halfcopy-send-"@);
    assert(crate::send::send_dir(a).skip(15) =~= crate::crypto::hex_text(a));
    assert(crate::send::send_dir(b).skip(15) =~= crate::crypto::hex_text(b));
    if crate::send::send_dir(a) == crate::send::send_dir(b) {
        crate::laws::wire::law_hex_is_read_back(a, b);
    }
}

/// The contracts speak of what the sender hands out as it is: nothing is left out of it or
/// changed.
pub proof fn law_sender_is_seen_as_it_is(
    state: SendState,
    step: SendStep,
    error: SendError,
    files: Seq<SourceFile>,
    read: Seq<ImportedFile>,
)
    ensures
        crate::sorting::imported(read).len() == read.len(),
        forall|i: int|
            0 <= i < read.len() ==> (#[trigger] crate::sorting::imported(read)[i]) == (Imported {
                name: read[i].name@,
                hash: read[i].hash@,
                size: read[i].size,
            }),
        crate::send::sources(files).len() == files.len(),
        forall|i: int|
            0 <= i < files.len() ==> (#[trigger] crate::send::sources(files)[i]).path
                == crate::path::path_value(files[i].path) && crate::send::sources(files)[i].place
                == files[i].place@,
        step@.state == step.state@,
        step@.action == step.action@,
        step@.tell.len() == step.tell@.len(),
        forall|i: int| 0 <= i < step.tell@.len() ==> (#[trigger] step@.tell[i]) == step.tell@[i]@,
        match step.action {
            SendAction::CheckDir(dir) => step.action@ == SharerDoes::CheckDir(dir@),
            SendAction::Resolve => step.action@ is Resolve,
            SendAction::OpenStore => step.action@ is OpenStore,
            SendAction::Walk => step.action@ is Walk,
            SendAction::Import(path) => step.action@ == SharerDoes::Import(
                crate::path::path_value(path),
            ),
            SendAction::AwaitItem => step.action@ is AwaitItem,
            SendAction::StoreCollection(listed) => step.action@ == SharerDoes::StoreCollection(
                crate::recv::listed(listed@),
            ),
            SendAction::ProvideCoupon => step.action@ is ProvideCoupon,
            SendAction::AwaitRedeemed => step.action@ is AwaitRedeemed,
            SendAction::Accept => step.action@ is Accept,
            SendAction::Serve => step.action@ is Serve,
            SendAction::ShutDown => step.action@ is ShutDown,
            SendAction::RemoveDir => step.action@ is RemoveDir,
            SendAction::Done => step.action@ is Done,
            SendAction::Fail(e) => step.action@ == SharerDoes::Fail(e@),
        },
        match error {
            SendError::Stopped(text) => error@ == SendFailure::Stopped(text@),
            SendError::CurrentDirectory => error@ is CurrentDirectory,
            SendError::NoParent => error@ is NoParent,
            SendError::InvalidPath(shown) => error@ == SendFailure::InvalidPath(shown@),
            SendError::ImportFailed { shown, cause } => error@ == (SendFailure::ImportFailed {
                shown: shown@,
                cause: cause@,
            }),
            SendError::NoTag => error@ is NoTag,
            SendError::OutOfOrder => error@ is OutOfOrder,
        },
        match state {
            SendState::AwaitDir => state@ is AwaitDir,
            SendState::AwaitSource => state@ is AwaitSource,
            SendState::AwaitStore { picked } => state@ == (Sharing::AwaitStore {
                picked: crate::path::path_value(picked),
            }),
            SendState::AwaitWalk { picked } => state@ == (Sharing::AwaitWalk {
                picked: crate::path::path_value(picked),
            }),
            SendState::Importing { picked, files: had, folder, at, name, size, done } => state@ == (
            Sharing::Importing {
                picked: crate::path::path_value(picked),
                files: crate::send::sources(had@),
                folder,
                at: at as nat,
                name: name@,
                size,
                done: crate::sorting::imported(done@),
            }),
            SendState::AwaitStored => state@ is AwaitStored,
            SendState::AwaitCoupon => state@ is AwaitCoupon,
            SendState::AwaitPeer { remote } => state@ == (Sharing::AwaitPeer { remote: remote@ }),
            SendState::Serving => state@ is Serving,
            SendState::AwaitShutdown => state@ is AwaitShutdown,
            SendState::AwaitRemoved => state@ is AwaitRemoved,
            SendState::Ended => state@ is Ended,
        },
{
}

/// The contracts speak of what the sender is handed as it is: nothing is left out of it or changed.
pub proof fn law_sender_hears_what_happens(
    event: SendEvent,
    item: ImportItem,
    arrival: Arrival,
    found: Seq<Entry>,
)
    ensures
        crate::send::entries(found).len() == found.len(),
        forall|i: int|
            0 <= i < found.len() ==> (#[trigger] crate::send::entries(found)[i]).path
                == crate::path::path_value(found[i].path) && crate::send::entries(found)[i].is_file
                == found[i].is_file,
        match item {
            ImportItem::Size(size) => item@ == News::Size(size),
            ImportItem::Error(cause) => item@ == News::Error(cause@),
            ImportItem::Done(hash) => item@ == News::Done(hash@),
            ImportItem::Other => item@ is Other,
            ImportItem::End => item@ is End,
        },
        match arrival {
            Arrival::Closed => arrival@ is Closed,
            Arrival::Failed => arrival@ is Failed,
            Arrival::Node(id) => arrival@ == Came::Node(id@),
        },
        match event {
            SendEvent::DirChecked { exists } => event@ == (SharerHears::DirChecked { exists }),
            SendEvent::Resolved { picked, current } => event@ == (SharerHears::Resolved {
                picked: crate::path::path_value(picked),
                current: crate::path::path_value(current),
            }),
            SendEvent::Opened { is_file } => event@ == (SharerHears::Opened { is_file }),
            SendEvent::Walked(had) => event@ == SharerHears::Walked(crate::send::entries(had@)),
            SendEvent::Item(news) => event@ == SharerHears::Item(news@),
            SendEvent::Stored => event@ is Stored,
            SendEvent::Coupon(coupon) => event@ == SharerHears::Coupon(coupon@),
            SendEvent::Redeemed(remote) => event@ == SharerHears::Redeemed(remote@),
            SendEvent::Arrived(came) => event@ == SharerHears::Arrived(came@),
            SendEvent::Served => event@ is Served,
            SendEvent::ShutDown => event@ is ShutDown,
            SendEvent::Removed => event@ is Removed,
            SendEvent::Failed(text) => event@ == SharerHears::Failed(text@),
        },
{
}

} // verus!
