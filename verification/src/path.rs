//! The names under which files are shared, and where a shared file is saved.
//!
//! A file is shared under the names in its path below the folder that the share is in, with `/`
//! between them. The receiver cuts the name at each `/` and pushes the pieces onto the folder that
//! the user picked.

use crate::text::{chars_of, join, split};
use std::path::{Component, Path, PathBuf};
use vstd::prelude::*;

verus! {

#[verifier::external_type_specification]
#[verifier::external_body]
pub struct ExPath(std::path::Path);

#[verifier::external_type_specification]
#[verifier::external_body]
pub struct ExPathBuf(std::path::PathBuf);

/// What a path holds: its bytes, and the name of the system whose rules it is read by.
pub struct PathValue {
    pub system: Seq<char>,
    pub bytes: Seq<u8>,
}

/// A component of a path, with its text, or with its bytes where it is not Unicode.
pub enum PathPart {
    /// The name of a file or folder.
    Normal(Result<String, Vec<u8>>),
    /// Any other component: a root, a drive or another prefix, `.` or `..`.
    Other(Result<String, Vec<u8>>),
}

/// A component of a path as the contracts speak of it.
pub enum Part {
    Normal(Result<Seq<char>, Seq<u8>>),
    Other(Result<Seq<char>, Seq<u8>>),
}

/// The text of a component, or its bytes.
pub open spec fn text_or_bytes(text: Result<String, Vec<u8>>) -> Result<Seq<char>, Seq<u8>> {
    match text {
        Ok(text) => Ok(text@),
        Err(bytes) => Err(bytes@),
    }
}

impl View for PathPart {
    type V = Part;

    open spec fn view(&self) -> Part {
        match self {
            PathPart::Normal(text) => Part::Normal(text_or_bytes(*text)),
            PathPart::Other(text) => Part::Other(text_or_bytes(*text)),
        }
    }
}

/// The components of a path, in order.
pub open spec fn parts_of(parts: Seq<PathPart>) -> Seq<Part> {
    parts.map_values(|p: PathPart| p@)
}

/// What a path holds.
pub uninterp spec fn path_value(path: PathBuf) -> PathValue;

/// What a borrowed path holds.
pub uninterp spec fn borrowed_value(path: &Path) -> PathValue;

/// What `std::path::Path::components` gives, in order.
pub uninterp spec fn value_parts(path: PathValue) -> Seq<Part>;

/// What `std::path::Path::display` shows.
pub uninterp spec fn value_shown(path: PathValue) -> Seq<char>;

/// What `std::path::Path::parent` gives.
pub uninterp spec fn value_parent(path: PathValue) -> Option<PathValue>;

/// What `std::path::Path::strip_prefix` leaves of `file` behind `base`, or the words in which it
/// fails.
pub uninterp spec fn value_stripped(file: PathValue, base: PathValue) -> Result<
    PathValue,
    Seq<char>,
>;

/// What `std::path::PathBuf::push` makes of a path and a text.
pub uninterp spec fn value_pushed(path: PathValue, text: Seq<char>) -> PathValue;

/// Whether `std::path::Path` takes two paths for equal.
pub uninterp spec fn value_same(a: PathValue, b: PathValue) -> bool;

/// The component `..`.
pub open spec fn parent_part() -> Part {
    Part::Other(Ok(seq!['.', '.']))
}

/// Whether a path begins with the root `/`. It does so only on systems on which nothing but `/`
/// separates components; elsewhere the root is written as a backslash.
pub open spec fn slash_rooted(parts: Seq<Part>) -> bool {
    parts.len() > 0 && parts[0] == Part::Other(Ok(seq!['/']))
}

/// Whether a component is the root of a system on which a backslash separates components, or a
/// prefix that stands for a network share or a device, or is verbatim.
pub open spec fn foreign(part: Part) -> bool {
    match part {
        Part::Normal(_) => false,
        Part::Other(Err(_)) => true,
        Part::Other(Ok(text)) => text.len() == 0 || text[0] == '\\' || (text[0] == '/'
            && text.len() > 1),
    }
}

/// Whether a path does not begin with such a component.
pub open spec fn ordinary(parts: Seq<Part>) -> bool {
    parts.len() > 0 ==> !foreign(parts[0])
}

/// Whether a path begins with a network share, such as `\\server\share`, and its root.
pub open spec fn on_a_share(parts: Seq<Part>) -> bool {
    &&& parts.len() >= 2
    &&& parts[0] matches Part::Other(Ok(text)) && text.len() > 2 && text[2] != '?' && text[2]
        != '.'
    &&& parts[1] is Other
}

/// Whether a path has a component and is not a bare drive, so that `.` behind it means nothing.
pub open spec fn grounded(parts: Seq<Part>) -> bool {
    &&& parts.len() > 0
    &&& parts.len() == 1 ==> (parts[0] matches Part::Other(Ok(text)) ==> text.len() > 0
        && text.last() != ':')
}

/// Whether a text begins with what is a drive on some systems.
pub open spec fn drive_like(text: Seq<char>) -> bool {
    text.len() >= 2 && text[1] == ':'
}

/// Whether a text, pushed onto a path, is one component at most: it has no `/`, and where the
/// path does not begin with `/`, it has nothing that separates components or begins a path on any
/// system.
pub open spec fn joins(before: Seq<Part>, text: Seq<char>) -> bool {
    &&& !text.contains('/')
    &&& slash_rooted(before) || {
        &&& ordinary(before) || on_a_share(before)
        &&& !text.contains('\\')
        &&& !drive_like(text)
        &&& text == seq!['.'] ==> grounded(before)
    }
}

/// The components that such a text adds: none if it is empty or `.`, and itself otherwise.
pub open spec fn added(text: Seq<char>) -> Seq<Part> {
    if text.len() == 0 || text == seq!['.'] {
        seq![]
    } else if text == seq!['.', '.'] {
        seq![parent_part()]
    } else {
        seq![Part::Normal(Ok(text))]
    }
}

/// Whether the names in a path are names: they are not empty, and are not `.` or `..`; and they
/// have no `/` in them but, perhaps, behind a prefix.
pub open spec fn named_well(parts: Seq<Part>) -> bool {
    forall|i: int|
        0 <= i < parts.len() ==> ((#[trigger] parts[i]) matches Part::Normal(Ok(name)) ==> {
            &&& name.len() > 0
            &&& name != seq!['.']
            &&& name != seq!['.', '.']
            &&& ordinary(parts) ==> !name.contains('/')
        })
}

/// `std::path::Path::components`: the components, each with its text or its bytes. A name among
/// them is the name of a file or folder.
#[verifier::external_body]
fn components(path: &Path) -> (r: Vec<PathPart>)
    ensures
        parts_of(r@) == value_parts(borrowed_value(path)),
        named_well(parts_of(r@)),
{
    path.components()
        .map(|component| {
            let name = component.as_os_str();
            let text = name.to_str().map(|t| t.to_owned());
            let text = text.ok_or_else(|| name.as_encoded_bytes().to_vec());
            match component {
                Component::Normal(_) => PathPart::Normal(text),
                Component::Prefix(_) => PathPart::Other(text),
                Component::RootDir => PathPart::Other(text),
                Component::CurDir => PathPart::Other(text),
                Component::ParentDir => PathPart::Other(text),
            }
        })
        .collect()
}

/// Whether a path does not end in a root or a prefix, and is not empty.
pub open spec fn has_parent(parts: Seq<Part>) -> bool {
    &&& parts.len() > 0
    &&& parts.last() is Normal || parts.last() == parent_part() || parts.last() == Part::Other(
        Ok(seq!['.']),
    )
}

/// `std::path::Path::parent`: the path without its last component; `None` if it ends in a root or
/// a prefix or is empty.
#[verifier::external_body]
fn parent(path: &Path) -> (r: Option<&Path>)
    ensures
        r is Some <==> value_parent(borrowed_value(path)) is Some,
        r matches Some(folder) ==> value_parent(borrowed_value(path)) == Some(
            borrowed_value(folder),
        ),
        r is Some <==> has_parent(value_parts(borrowed_value(path))),
        r matches Some(folder) ==> value_parts(borrowed_value(folder)) == value_parts(
            borrowed_value(path),
        ).drop_last(),
{
    path.parent()
}

/// Whether `base` is the beginning of `file`, component by component. Roots and prefixes that are
/// written in different ways may mean the same.
pub open spec fn begins_with(file: Seq<Part>, base: Seq<Part>) -> bool {
    &&& base.len() <= file.len()
    &&& forall|i: int|
        0 <= i < base.len() ==> (#[trigger] file[i]) == base[i] || (file[i] is Other
            && base[i] is Other)
}

/// Whether what is left of a path behind its first `n` components has, by itself, the components
/// that it had there: on a system where nothing but `/` separates them, always; elsewhere, if what
/// is left does not begin like a path of its own, and is made of names where the path is verbatim.
pub open spec fn cuts_cleanly(file: Seq<Part>, n: int) -> bool {
    ||| slash_rooted(file)
    ||| n == 0
    ||| n == file.len()
    ||| {
        &&& 0 < n < file.len()
        &&& file[n] matches Part::Normal(Ok(name)) && !drive_like(name)
        &&& ordinary(file) || forall|i: int|
            n <= i < file.len() ==> ((#[trigger] file[i]) matches Part::Normal(Ok(name))
                && !name.contains('/'))
    }
}

/// `std::path::Path::strip_prefix`: what is left of `file` behind `base`. It fails where `base` is
/// not the beginning of `file`. Where two prefixes are not written alike, only the name says
/// whether it fails. What is left is text exactly if the components behind `base` are.
#[verifier::external_body]
fn strip_prefix<'a>(file: &'a Path, base: &Path) -> (r: Result<&'a Path, String>)
    ensures
        r is Ok <==> value_stripped(borrowed_value(file), borrowed_value(base)) is Ok,
        r matches Ok(rest) ==> value_stripped(borrowed_value(file), borrowed_value(base))->Ok_0
            == borrowed_value(rest),
        r matches Err(why) ==> value_stripped(borrowed_value(file), borrowed_value(base))->Err_0
            == why@,
        r is Ok ==> begins_with(
            value_parts(borrowed_value(file)),
            value_parts(borrowed_value(base)),
        ),
        r is Err ==> !value_parts(borrowed_value(base)).is_prefix_of(
            value_parts(borrowed_value(file)),
        ),
        r matches Ok(rest) ==> all_text(value_parts(borrowed_value(rest))) == all_text(
            value_parts(borrowed_value(file)).skip(
                value_parts(borrowed_value(base)).len() as int,
            ),
        ),
        r matches Ok(rest) ==> cuts_cleanly(
            value_parts(borrowed_value(file)),
            value_parts(borrowed_value(base)).len() as int,
        ) ==> value_parts(borrowed_value(rest)) == value_parts(borrowed_value(file)).skip(
            value_parts(borrowed_value(base)).len() as int,
        ),
{
    file.strip_prefix(base).map_err(|e| e.to_string())
}

/// `std::path::Path::display`: the path as it is shown.
#[verifier::external_body]
pub(crate) fn shown_text(path: &Path) -> (r: String)
    ensures
        r@ == value_shown(borrowed_value(path)),
{
    path.display().to_string()
}

/// `==` of `std::path::Path`: paths with the same components are equal, and equal paths have the
/// same components but, perhaps, for roots and prefixes that are written in different ways.
#[verifier::external_body]
pub(crate) fn same_path(a: &Path, b: &Path) -> (r: bool)
    ensures
        r == value_same(borrowed_value(a), borrowed_value(b)),
        value_parts(borrowed_value(a)) == value_parts(borrowed_value(b)) ==> r,
        r ==> begins_with(value_parts(borrowed_value(a)), value_parts(borrowed_value(b))),
        r ==> begins_with(value_parts(borrowed_value(b)), value_parts(borrowed_value(a))),
{
    a == b
}

/// `std::path::Path::to_path_buf`: an owned path that holds the same.
#[verifier::external_body]
fn to_path_buf(path: &Path) -> (r: PathBuf)
    ensures
        path_value(r) == borrowed_value(path),
{
    path.to_path_buf()
}

/// `std::path::PathBuf::as_path`: the same path, borrowed.
#[verifier::external_body]
pub(crate) fn as_path(path: &PathBuf) -> (r: &Path)
    ensures
        borrowed_value(r) == path_value(*path),
{
    path.as_path()
}

/// `std::path::PathBuf::push`: extends the path. A text that is one component at most adds that
/// component behind those that the path had; an empty text and `.` add none. What any other text
/// does depends on the rules of the system, and so does what a text does to a path that begins
/// with a backslash but for a network share: only the name says what comes of it. Nothing is said
/// of how the components are written.
#[verifier::external_body]
fn push(path: &mut PathBuf, text: &str)
    ensures
        path_value(*final(path)) == value_pushed(path_value(*old(path)), text@),
        joins(value_parts(path_value(*old(path))), text@) ==> value_parts(path_value(*final(path)))
            == value_parts(path_value(*old(path))) + added(text@),
{
    path.push(text)
}

/// Makes a copy of a path.
pub(crate) fn copy_path(path: &PathBuf) -> (r: PathBuf)
    ensures
        path_value(r) == path_value(*path),
{
    to_path_buf(as_path(path))
}

/// Why a component of a path was refused.
#[derive(Debug)]
pub enum PathError {
    /// The component has a separator in it.
    HasSeparator,
}

impl PathError {
    /// What to tell the user.
    pub fn describe(&self) -> (r: String)
        ensures
            r@ == "path components must not contain the only correct path separator, /"@,
    {
        "path components must not contain the only correct path separator, /".to_owned()
    }
}

/// Accepts a component of a path exactly if it has no `/` in it.
pub fn validate_path_component(component: &str) -> (r: Result<(), PathError>)
    ensures
        r is Ok <==> !component@.contains('/'),
{
    let chars = chars_of(component);
    let mut i: usize = 0;
    while i < chars.len()
        invariant
            chars@ == component@,
            0 <= i <= chars.len(),
            forall|j: int| 0 <= j < i ==> component@[j] != '/',
        decreases chars.len() - i,
    {
        if chars[i] == '/' {
            assert(component@[i as int] == '/');
            return Err(PathError::HasSeparator);
        }
        i += 1;
    }
    Ok(())
}

/// What comes of pushing the texts one after the other.
pub open spec fn pushed_all(path: PathValue, texts: Seq<Seq<char>>) -> PathValue
    decreases texts.len(),
{
    if texts.len() == 0 {
        path
    } else {
        value_pushed(pushed_all(path, texts.drop_last()), texts.last())
    }
}

/// Where a file that was shared as `name` is saved below `root`: the pieces of the name are pushed
/// onto the root one after the other.
pub open spec fn exported(root: PathValue, name: Seq<char>) -> PathValue {
    pushed_all(root, crate::text::pieces(name, '/'))
}

/// Whether each text is one component at most when it is pushed onto the path.
pub open spec fn all_join(before: Seq<Part>, texts: Seq<Seq<char>>) -> bool {
    forall|i: int| 0 <= i < texts.len() ==> joins(before, #[trigger] texts[i])
}

/// The components that such texts add, in order.
pub open spec fn added_all(texts: Seq<Seq<char>>) -> Seq<Part>
    decreases texts.len(),
{
    if texts.len() == 0 {
        seq![]
    } else {
        added_all(texts.drop_last()) + added(texts.last())
    }
}

/// The components that the name of a shared file adds to the folder that it is saved in.
pub open spec fn placed(name: Seq<char>) -> Seq<Part> {
    added_all(crate::text::pieces(name, '/'))
}

/// Whether the pieces of a name are one component at most, each, when they are pushed onto `root`.
pub open spec fn settles(root: Seq<Part>, name: Seq<char>) -> bool {
    all_join(root, crate::text::pieces(name, '/'))
}

/// Whether the pieces of a name, if they have their place below the root, are there: the target
/// has the components of the root, then those of the name.
pub open spec fn exports_well(root: PathValue, name: Seq<char>) -> bool {
    settles(value_parts(root), name) ==> value_parts(exported(root, name)) == value_parts(root)
        + placed(name)
}

proof fn lemma_added_parts(texts: Seq<Seq<char>>)
    ensures
        forall|i: int|
            0 <= i < added_all(texts).len() ==> (#[trigger] added_all(texts)[i]) is Normal
                || added_all(texts)[i] == parent_part(),
    decreases texts.len(),
{
    if texts.len() > 0 {
        lemma_added_parts(texts.drop_last());
    }
}

/// What could be pushed onto a path can be pushed onto it when others were before.
proof fn lemma_joins_behind(before: Seq<Part>, texts: Seq<Seq<char>>, text: Seq<char>)
    requires
        joins(before, text),
    ensures
        joins(before + added_all(texts), text),
{
    lemma_added_parts(texts);
    let all = before + added_all(texts);
    if before.len() > 0 {
        assert(all[0] == before[0]);
        if before.len() > 1 {
            assert(all[1] == before[1]);
        }
    } else if all.len() > 0 {
        assert(all[0] == added_all(texts)[0]);
    }
}

/// Where a file that was shared as `name` is saved below `root`.
pub fn get_export_path(root: &Path, name: &str) -> (r: Result<PathBuf, PathError>)
    ensures
        r is Ok,
        r matches Ok(path) ==> path_value(path) == exported(borrowed_value(root), name@),
        exports_well(borrowed_value(root), name@),
{
    let parts = split(name, '/');
    let mut path = to_path_buf(root);
    let ghost start = path_value(path);
    let ghost before = value_parts(start);
    let ghost all = crate::text::pieces(name@, '/');
    let mut i: usize = 0;
    proof {
        crate::text::law_pieces_have_no_separator(name@, '/');
        assert(all.take(0) =~= seq![]);
        assert(before + added_all(all.take(0)) =~= before);
    }
    while i < parts.len()
        invariant
            0 <= i <= parts.len(),
            before == value_parts(start),
            crate::text::texts(parts@) == all,
            forall|j: int| 0 <= j < all.len() ==> !(#[trigger] all[j]).contains('/'),
            path_value(path) == pushed_all(start, all.take(i as int)),
            all_join(before, all) ==> value_parts(path_value(path)) == before + added_all(
                all.take(i as int),
            ),
        decreases parts.len() - i,
    {
        let part = parts[i].as_str();
        proof {
            assert(part@ == all[i as int]);
        }
        match validate_path_component(part) {
            Ok(()) => {},
            Err(e) => {
                return Err(e);
            },
        }
        let ghost between = value_parts(path_value(path));
        push(&mut path, part);
        proof {
            let next = all.take(i + 1);
            assert(next.drop_last() =~= all.take(i as int));
            assert(next.last() == part@);
            if all_join(before, all) {
                assert(joins(before, all[i as int]));
                lemma_joins_behind(before, all.take(i as int), part@);
                assert(between + added(part@) =~= before + added_all(next));
            }
        }
        i += 1;
    }
    assert(all.take(all.len() as int) =~= all);
    Ok(path)
}

/// Whether every component of a path is text.
pub open spec fn all_text(parts: Seq<Part>) -> bool {
    forall|i: int|
        0 <= i < parts.len() ==> match #[trigger] parts[i] {
            Part::Normal(text) => text is Ok,
            Part::Other(text) => text is Ok,
        }
}

/// The names in a path, in order.
pub open spec fn names_in(parts: Seq<Part>) -> Seq<Seq<char>>
    decreases parts.len(),
{
    if parts.len() == 0 {
        seq![]
    } else {
        match parts.last() {
            Part::Normal(Ok(name)) => names_in(parts.drop_last()).push(name),
            _ => names_in(parts.drop_last()),
        }
    }
}

/// The name under which the file with this path is shared; `None` if it cannot be.
pub open spec fn shared_as(parts: Seq<Part>) -> Option<Seq<char>> {
    if all_text(parts) {
        Some(crate::text::joined(names_in(parts), "/"@))
    } else {
        None
    }
}

/// The name under which a file is shared: the names in its path with `/` between them. There is
/// none if a component of the path is not text.
pub fn share_name(parts: &[PathPart]) -> (r: Option<String>)
    ensures
        r is Some <==> shared_as(parts_of(parts@)) is Some,
        r matches Some(name) ==> shared_as(parts_of(parts@)) == Some(name@),
{
    let ghost all = parts_of(parts@);
    let mut names: Vec<String> = Vec::new();
    let mut i: usize = 0;
    assert(crate::text::texts(names@) =~= seq![]);
    assert(all.take(0) =~= seq![]);
    while i < parts.len()
        invariant
            0 <= i <= parts.len(),
            all == parts_of(parts@),
            all_text(all.take(i as int)),
            crate::text::texts(names@) == names_in(all.take(i as int)),
        decreases parts.len() - i,
    {
        proof {
            assert(all.take(i + 1).drop_last() =~= all.take(i as int));
            assert(all.take(i + 1).last() == all[i as int]);
            assert(all[i as int] == parts@[i as int]@);
        }
        let ghost before = crate::text::texts(names@);
        match &parts[i] {
            PathPart::Normal(Ok(name)) => {
                names.push(name.clone());
                assert(crate::text::texts(names@) =~= before.push(name@));
            },
            PathPart::Other(Ok(_)) => {},
            PathPart::Normal(Err(_)) => {
                return None;
            },
            PathPart::Other(Err(_)) => {
                return None;
            },
        }
        proof {
            let (front, next) = (all.take(i as int), all.take(i + 1));
            assert forall|j: int| 0 <= j < next.len() implies match #[trigger] next[j] {
                Part::Normal(text) => text is Ok,
                Part::Other(text) => text is Ok,
            } by {
                if j < i {
                    assert(next[j] == front[j]);
                }
            }
        }
        i += 1;
    }
    assert(all.take(all.len() as int) =~= all);
    Some(join(names.as_slice(), "/"))
}

/// Where a file to be shared is.
pub enum Place {
    /// Below the folder that the share is in: the components of its path there, and how to show
    /// that path.
    Below { parts: Vec<PathPart>, shown: String },
    /// Not below that folder, in these words.
    NotBelow(String),
}

/// Where a file to be shared is, as the contracts speak of it.
pub enum Placed {
    Below { parts: Seq<Part>, shown: Seq<char> },
    NotBelow(Seq<char>),
}

impl View for Place {
    type V = Placed;

    open spec fn view(&self) -> Placed {
        match self {
            Place::Below { parts, shown } => Placed::Below {
                parts: parts_of(parts@),
                shown: shown@,
            },
            Place::NotBelow(why) => Placed::NotBelow(why@),
        }
    }
}

/// Where `file` is when `picked` was picked: its path is taken below the folder that `picked` is
/// in. `None` if `picked` is not in a folder.
pub open spec fn place_of(picked: PathValue, file: PathValue) -> Option<Placed> {
    match value_parent(picked) {
        None => None,
        Some(above) => match value_stripped(file, above) {
            Err(why) => Some(Placed::NotBelow(why)),
            Ok(rest) => Some(
                Placed::Below { parts: value_parts(rest), shown: value_shown(rest) },
            ),
        },
    }
}

/// What is known of where a file is. There is a folder that `picked` is in exactly if `picked`
/// does not end in a root or a prefix. A file whose path begins with that of the folder is below
/// it, and one that is below it begins so. The path of a file that is below it is text exactly if
/// its components are that come behind the folder's, its names are names, and but for odd paths it
/// has these components, so that it begins with the last component of `picked`.
pub open spec fn places_well(picked: PathValue, file: PathValue) -> bool {
    let (p, f) = (value_parts(picked), value_parts(file));
    &&& place_of(picked, file) is Some <==> has_parent(p)
    &&& match place_of(picked, file) {
        None => true,
        Some(Placed::NotBelow(_)) => !p.drop_last().is_prefix_of(f),
        Some(Placed::Below { parts, shown }) => {
            &&& begins_with(f, p.drop_last())
            &&& all_text(parts) == all_text(f.skip(p.len() - 1))
            &&& named_well(parts)
            &&& cuts_cleanly(f, p.len() - 1) ==> parts == f.skip(p.len() - 1)
        },
    }
}

/// Where `file` is when `picked` was picked, which is the file or a folder that it is in. `None`
/// if `picked` is not in a folder.
pub fn source_below(picked: &Path, file: &Path) -> (r: Option<Place>)
    ensures
        r is Some <==> place_of(borrowed_value(picked), borrowed_value(file)) is Some,
        r matches Some(place) ==> place_of(borrowed_value(picked), borrowed_value(file)) == Some(
            place@,
        ),
        places_well(borrowed_value(picked), borrowed_value(file)),
{
    match parent(picked) {
        None => None,
        Some(root) => match strip_prefix(file, root) {
            Err(why) => Some(Place::NotBelow(why)),
            Ok(relative) => {
                let parts = components(relative);
                let shown = shown_text(relative);
                Some(Place::Below { parts, shown })
            },
        },
    }
}

/// What came of asking the user for a file or a folder.
pub enum Picked<P> {
    /// The answer was lost, in these words.
    Lost(String),
    /// The user picked nothing.
    Cancelled,
    /// What the user picked is not a path here, in these words.
    Unusable(String),
    /// The user picked this.
    Path(P),
}

/// Takes the path that the user picked, or says why there is none.
pub fn picked_path<P>(picked: Picked<P>, cancelled: &str) -> (r: Result<P, String>)
    ensures
        r is Ok <==> picked is Path,
        r matches Ok(path) ==> picked == Picked::Path(path),
        r matches Err(why) ==> why@ == match picked {
            Picked::Lost(text) => text@,
            Picked::Unusable(text) => text@,
            _ => cancelled@,
        },
{
    match picked {
        Picked::Lost(text) => Err(text),
        Picked::Cancelled => Err(cancelled.to_owned()),
        Picked::Unusable(text) => Err(text),
        Picked::Path(path) => Ok(path),
    }
}

/// A file is saved below the folder that was picked: the parts of the folder come first in those
/// of the target, whatever the name. `..` is kept as a part, and not resolved. That `exports_well`
/// holds is what `get_export_path` ensures.
pub proof fn law_export_stays_below_the_root(root: PathValue, name: Seq<char>)
    requires
        settles(value_parts(root), name),
        exports_well(root, name),
    ensures
        value_parts(root).is_prefix_of(value_parts(exported(root, name))),
        value_parts(exported(root, name)).skip(value_parts(root).len() as int) == placed(name),
{
    assert(value_parts(exported(root, name)).skip(value_parts(root).len() as int) =~= placed(name));
}

/// Below a folder whose path begins with `/`, every name has its place.
pub proof fn law_slash_rooted_folders_settle_every_name(root: Seq<Part>, name: Seq<char>)
    requires
        slash_rooted(root),
    ensures
        settles(root, name),
{
    crate::text::law_pieces_have_no_separator(name, '/');
}

proof fn lemma_added_all_of_two(a: Seq<Seq<char>>, b: Seq<Seq<char>>)
    ensures
        added_all(a + b) == added_all(a) + added_all(b),
    decreases b.len(),
{
    if b.len() == 0 {
        assert(a + b =~= a);
        assert(added_all(a) + added_all(b) =~= added_all(a));
    } else {
        assert((a + b).drop_last() =~= a + b.drop_last());
        assert((a + b).last() == b.last());
        lemma_added_all_of_two(a, b.drop_last());
        assert(added_all(a + b) =~= added_all(a) + added_all(b));
    }
}

/// Separators that follow one another count as one, and a separator at the beginning or at the
/// end of a name means nothing: in particular a name that begins with `/` is saved below the root.
pub proof fn law_empty_pieces_add_nothing(a: Seq<char>, b: Seq<char>)
    ensures
        placed(a + seq!['/', '/'] + b) == placed(a + seq!['/'] + b),
        placed(seq!['/'] + b) == placed(b),
        placed(a + seq!['/']) == placed(a),
{
    let none = Seq::<char>::empty();
    crate::text::lemma_find_is(none, '/', 0);
    assert(crate::text::pieces(none, '/') =~= seq![none]);
    assert(seq![none].drop_last() =~= Seq::<Seq<char>>::empty());
    assert(added_all(seq![none].drop_last()) =~= seq![]);
    assert(seq![none].last() == none);
    assert(added_all(seq![none]) =~= seq![]);
    let (p, q) = (crate::text::pieces(a, '/'), crate::text::pieces(b, '/'));
    crate::text::law_pieces_of_two(a, b, '/');
    lemma_added_all_of_two(p, q);
    crate::text::law_pieces_of_two(none, b, '/');
    assert(none + seq!['/'] + b =~= seq!['/'] + b);
    lemma_added_all_of_two(seq![none], q);
    assert(seq![] + added_all(q) =~= added_all(q));
    crate::text::law_pieces_of_two(a, none, '/');
    assert(a + seq!['/'] + none =~= a + seq!['/']);
    lemma_added_all_of_two(p, seq![none]);
    assert(added_all(p) + seq![] =~= added_all(p));
    crate::text::law_pieces_of_two(a, seq!['/'] + b, '/');
    assert(a + seq!['/'] + (seq!['/'] + b) =~= a + seq!['/', '/'] + b);
    lemma_added_all_of_two(p, seq![none] + q);
}

proof fn lemma_pushed_all_of_two(path: PathValue, a: Seq<Seq<char>>, b: Seq<Seq<char>>)
    ensures
        pushed_all(path, a + b) == pushed_all(pushed_all(path, a), b),
    decreases b.len(),
{
    if b.len() == 0 {
        assert(a + b =~= a);
    } else {
        assert((a + b).drop_last() =~= a + b.drop_last());
        assert((a + b).last() == b.last());
        lemma_pushed_all_of_two(path, a, b.drop_last());
    }
}

/// Saving a file with a compound name is saving its tail below where its head is saved: the two
/// ways lead to the same path, for every root and all names. And the components that the whole
/// name adds are those of the head, then those of the tail.
pub proof fn law_export_of_compound_name(root: PathValue, a: Seq<char>, b: Seq<char>)
    ensures
        exported(root, a + seq!['/'] + b) == exported(exported(root, a), b),
        placed(a + seq!['/'] + b) == placed(a) + placed(b),
{
    let (p, q) = (crate::text::pieces(a, '/'), crate::text::pieces(b, '/'));
    crate::text::law_pieces_of_two(a, b, '/');
    lemma_pushed_all_of_two(root, p, q);
    lemma_added_all_of_two(p, q);
}

/// A shared file is saved where it was: if the names in its path have no separator in them, as no
/// name of a file has, and there is one, then cutting the name under which it is shared gives
/// back the names in its path.
pub proof fn law_shared_name_keeps_the_path(parts: Seq<Part>)
    requires
        all_text(parts),
        names_in(parts).len() > 0,
        forall|i: int|
            0 <= i < names_in(parts).len() ==> !(#[trigger] names_in(parts)[i]).contains('/'),
    ensures
        shared_as(parts) matches Some(name) && crate::text::pieces(name, '/') == names_in(parts),
{
    reveal_strlit("/");
    assert("/"@ =~= seq!['/']);
    crate::text::law_pieces_of_join(names_in(parts), '/');
}

/// Two files with different names in their paths are shared under different names.
pub proof fn law_shared_names_differ(a: Seq<Part>, b: Seq<Part>)
    requires
        all_text(a),
        all_text(b),
        names_in(a).len() > 0,
        names_in(b).len() > 0,
        forall|i: int| 0 <= i < names_in(a).len() ==> !(#[trigger] names_in(a)[i]).contains('/'),
        forall|i: int| 0 <= i < names_in(b).len() ==> !(#[trigger] names_in(b)[i]).contains('/'),
        shared_as(a) == shared_as(b),
    ensures
        names_in(a) == names_in(b),
{
    law_shared_name_keeps_the_path(a);
    law_shared_name_keeps_the_path(b);
}

/// Whether a path below a folder is made of names alone, each of which is one component when it is
/// pushed onto `root`. Where the path of `root` begins with `/`, every name is.
pub open spec fn proper_path(root: Seq<Part>, parts: Seq<Part>) -> bool {
    &&& parts.len() > 0
    &&& forall|i: int| 0 <= i < parts.len() ==> (#[trigger] parts[i]) is Normal
    &&& slash_rooted(root) || forall|i: int|
        0 <= i < parts.len() ==> ((#[trigger] parts[i]) matches Part::Normal(Ok(name)) ==> joins(
            root,
            name,
        ))
}

proof fn lemma_names_of_proper_path(root: Seq<Part>, parts: Seq<Part>)
    requires
        forall|i: int|
            0 <= i < parts.len() ==> ((#[trigger] parts[i]) matches Part::Normal(Ok(name)) && joins(
                root,
                name,
            ) && added(name) == seq![parts[i]]),
    ensures
        all_join(root, names_in(parts)),
        added_all(names_in(parts)) == parts,
        names_in(parts).len() == parts.len(),
    decreases parts.len(),
{
    if parts.len() > 0 {
        let front = parts.drop_last();
        assert forall|i: int| 0 <= i < front.len() implies ((#[trigger] front[i])
            matches Part::Normal(Ok(name)) && joins(root, name) && added(name) == seq![
            front[i],
        ]) by {
            assert(front[i] == parts[i]);
        }
        lemma_names_of_proper_path(root, front);
        let last = parts[parts.len() - 1];
        let name = last->Normal_0->Ok_0;
        assert(last == Part::Normal(Ok(name)) && joins(root, name) && added(name) == seq![last]);
        assert(names_in(parts) == names_in(front).push(name));
        assert(names_in(parts).drop_last() =~= names_in(front));
        assert(parts =~= front + seq![last]);
    } else {
        assert(added_all(names_in(parts)) =~= parts);
    }
}

/// A file is saved below the folder that was picked with the path that it was shared with. That
/// `named_well` holds is what `source_below` ensures, and `exports_well` is what `get_export_path`
/// does.
pub proof fn law_export_mirrors_share(root: PathValue, parts: Seq<Part>)
    requires
        proper_path(value_parts(root), parts),
        named_well(parts),
        shared_as(parts) matches Some(name) && exports_well(root, name),
    ensures
        shared_as(parts) matches Some(name) && value_parts(exported(root, name)) == value_parts(
            root,
        ) + parts,
{
    let base = value_parts(root);
    assert(ordinary(parts)) by {
        assert(parts[0] is Normal);
    }
    assert forall|i: int| 0 <= i < parts.len() implies ((#[trigger] parts[i])
        matches Part::Normal(Ok(name)) && joins(base, name) && added(name) == seq![parts[i]]) by {
        assert(parts[i] is Normal);
        let name = parts[i]->Normal_0->Ok_0;
        assert(parts[i] == Part::Normal(Ok(name)));
    }
    lemma_names_of_proper_path(base, parts);
    assert forall|i: int| 0 <= i < names_in(parts).len() implies !(#[trigger] names_in(
        parts,
    )[i]).contains('/') by {
        assert(joins(base, names_in(parts)[i]));
    }
    law_shared_name_keeps_the_path(parts);
}

} // verus!
