//! What names and paths come to.

use crate::path::{Part, PathPart, PathValue, Place, Placed};
use vstd::prelude::*;

verus! {

/// A name without a separator is pushed as it is; so, with the law of compound names, every name
/// is pushed piece by piece.
pub proof fn law_simple_name_is_pushed(root: PathValue, name: Seq<char>)
    requires
        !name.contains('/'),
    ensures
        crate::path::exported(root, name) == crate::path::value_pushed(root, name),
        crate::path::placed(name) == crate::path::added(name),
{
    crate::text::lemma_find(name, '/');
    let at = crate::text::find(name, '/');
    if at < name.len() {
        assert(name[at] == '/');
        assert(name.contains('/'));
    }
    let all = crate::text::pieces(name, '/');
    assert(all =~= seq![name]);
    assert(all.drop_last() =~= Seq::<Seq<char>>::empty());
    assert(crate::path::pushed_all(root, all.drop_last()) == root);
    assert(crate::path::added_all(all.drop_last()) =~= seq![]);
    assert(crate::path::placed(name) =~= crate::path::added(name));
}

/// A text adds the component that it is: none where it is empty or `.`, the one above where it is
/// `..`, and otherwise the name.
pub proof fn law_text_adds_itself(text: Seq<char>)
    ensures
        text.len() == 0 || text == seq!['.'] <==> crate::path::added(text).len() == 0,
        text == seq!['.', '.'] ==> crate::path::added(text) == seq![
            Part::Other(Ok(seq!['.', '.'])),
        ],
        text.len() > 0 && text != seq!['.'] && text != seq!['.', '.'] ==> crate::path::added(text)
            == seq![Part::Normal(Ok(text))],
{
    if text == seq!['.', '.'] {
        assert(text.len() == 2);
        assert(seq!['.'].len() == 1);
    }
}

/// The names in two paths, one behind the other, are those of each; a name is its own, and what is
/// no name has none.
pub proof fn law_names_are_in_order(a: Seq<Part>, b: Seq<Part>, name: Seq<char>, part: Part)
    ensures
        crate::path::names_in(a + b) == crate::path::names_in(a) + crate::path::names_in(b),
        crate::path::names_in(seq![Part::Normal(Ok(name))]) == seq![name],
        part is Other ==> crate::path::names_in(seq![part]).len() == 0,
        crate::path::names_in(Seq::empty()).len() == 0,
    decreases b.len(),
{
    let one = seq![Part::Normal(Ok(name))];
    assert(one.drop_last() =~= Seq::<Part>::empty());
    assert(crate::path::names_in(one.drop_last()) =~= seq![]);
    assert(crate::path::names_in(one) =~= seq![name]);
    assert(seq![part].drop_last() =~= Seq::<Part>::empty());
    assert(crate::path::names_in(seq![part].drop_last()) =~= seq![]);
    if b.len() == 0 {
        assert(a + b =~= a);
        assert(crate::path::names_in(a) + crate::path::names_in(b) =~= crate::path::names_in(a));
    } else {
        law_names_are_in_order(a, b.drop_last(), name, part);
        assert((a + b).drop_last() =~= a + b.drop_last());
        assert(crate::path::names_in(a + b) =~= crate::path::names_in(a) + crate::path::names_in(
            b,
        ));
    }
}

/// A path can be shared exactly if all of it is text, and then under its names with `/` between
/// them.
pub proof fn law_path_that_is_text_is_shared(parts: Seq<Part>)
    ensures
        crate::path::shared_as(parts) is Some <==> forall|i: int|
            0 <= i < parts.len() ==> !((#[trigger] parts[i]) matches Part::Normal(Err(_)))
                && !(parts[i] matches Part::Other(Err(_))),
        crate::path::shared_as(parts) matches Some(name) ==> name == crate::text::joined(
            crate::path::names_in(parts),
            seq!['/'],
        ),
{
    reveal_strlit("/");
    assert("/"@ =~= seq!['/']);
    if crate::path::shared_as(parts) is Some {
        assert forall|i: int| 0 <= i < parts.len() implies !((#[trigger] parts[i])
            matches Part::Normal(Err(_))) && !(parts[i] matches Part::Other(Err(_))) by {
            assert(crate::path::all_text(parts));
        }
    }
}

/// A file is where its path says: below the folder that what was picked is in, with what is left
/// of its path behind that folder, as it is shown there; or not below it, in the words in which
/// that was refused. What is not in a folder has nothing below it.
pub proof fn law_file_is_where_its_path_says(picked: PathValue, file: PathValue)
    ensures
        crate::path::value_parent(picked) is None <==> crate::path::place_of(picked, file) is None,
        crate::path::value_parent(picked) matches Some(above) ==> match crate::path::value_stripped(
            file,
            above,
        ) {
            Ok(rest) => crate::path::place_of(picked, file) == Some(
                Placed::Below {
                    parts: crate::path::value_parts(rest),
                    shown: crate::path::value_shown(rest),
                },
            ),
            Err(why) => crate::path::place_of(picked, file) == Some(Placed::NotBelow(why)),
        },
{
}

/// The contracts speak of components and of places as they are.
pub proof fn law_parts_are_seen_as_they_are(part: PathPart, parts: Seq<PathPart>, place: Place)
    ensures
        crate::path::parts_of(parts).len() == parts.len(),
        forall|i: int|
            0 <= i < parts.len() ==> (#[trigger] crate::path::parts_of(parts)[i]) == parts[i]@,
        match part {
            PathPart::Normal(Ok(text)) => part@ == Part::Normal(Ok(text@)),
            PathPart::Normal(Err(bytes)) => part@ == Part::Normal(Err(bytes@)),
            PathPart::Other(Ok(text)) => part@ == Part::Other(Ok(text@)),
            PathPart::Other(Err(bytes)) => part@ == Part::Other(Err(bytes@)),
        },
        match place {
            Place::Below { parts: had, shown } => place@ == (Placed::Below {
                parts: crate::path::parts_of(had@),
                shown: shown@,
            }),
            Place::NotBelow(why) => place@ == Placed::NotBelow(why@),
        },
{
}

} // verus!
