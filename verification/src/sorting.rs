//! Putting the files of a share in the order of their names.

use crate::text::{chars_of, comes_first};
use vstd::prelude::*;

verus! {

/// A file that was read, under the name by which it is shared.
pub struct ImportedFile {
    pub name: String,
    pub hash: [u8; 32],
    pub size: u64,
}

/// A file that was read as the contracts speak of it.
pub struct Imported {
    pub name: Seq<char>,
    pub hash: Seq<u8>,
    pub size: u64,
}

impl View for ImportedFile {
    type V = Imported;

    open spec fn view(&self) -> Imported {
        Imported { name: self.name@, hash: self.hash@, size: self.size }
    }
}

/// The files that were read, in order.
pub open spec fn imported(files: Seq<ImportedFile>) -> Seq<Imported> {
    files.map_values(|f: ImportedFile| f@)
}

/// Whether the name of `a` comes before that of `b`, or is the same.
pub open spec fn name_le(a: Imported, b: Imported) -> bool {
    crate::text::text_le(a.name, b.name)
}

/// The files with one more, which is put behind the last whose name does not come behind its own.
pub open spec fn inserted(files: Seq<Imported>, file: Imported) -> Seq<Imported>
    decreases files.len(),
{
    if files.len() == 0 || name_le(files.last(), file) {
        files.push(file)
    } else {
        inserted(files.drop_last(), file).push(files.last())
    }
}

/// The files in the order of their names, those with the same name in the order that they had.
pub open spec fn sorted(files: Seq<Imported>) -> Seq<Imported>
    decreases files.len(),
{
    if files.len() == 0 {
        seq![]
    } else {
        inserted(sorted(files.drop_last()), files.last())
    }
}

/// Two ordered lists in one, what is in `a` before what has the same name in `b`.
pub open spec fn merged(a: Seq<Imported>, b: Seq<Imported>) -> Seq<Imported>
    decreases a.len() + b.len(),
{
    if a.len() == 0 {
        b
    } else if b.len() == 0 {
        a
    } else if name_le(a.last(), b.last()) {
        merged(a, b.drop_last()).push(b.last())
    } else {
        merged(a.drop_last(), b).push(a.last())
    }
}

proof fn lemma_inserted_last(files: Seq<Imported>, file: Imported)
    ensures
        inserted(files, file).len() == files.len() + 1,
        inserted(files, file).last() == file || (files.len() > 0 && inserted(files, file).last()
            == files.last()),
    decreases files.len(),
{
    if files.len() == 0 || name_le(files.last(), file) {
    } else {
        lemma_inserted_last(files.drop_last(), file);
    }
}

proof fn lemma_insert_into_merged(a: Seq<Imported>, b: Seq<Imported>, file: Imported)
    ensures
        inserted(merged(a, b), file) == merged(a, inserted(b, file)),
    decreases a.len() + b.len(),
{
    lemma_inserted_last(b, file);
    if a.len() == 0 {
    } else if b.len() == 0 {
        assert(inserted(b, file) =~= seq![file]);
        assert(seq![file].drop_last() =~= b);
        if name_le(a.last(), file) {
            assert(merged(a, seq![file]) == merged(a, b).push(file));
        } else {
            lemma_insert_into_merged(a.drop_last(), b, file);
            assert(merged(a.drop_last(), b) =~= a.drop_last());
        }
    } else if name_le(a.last(), b.last()) {
        let m = merged(a, b);
        assert(m.drop_last() =~= merged(a, b.drop_last()));
        if name_le(b.last(), file) {
            crate::text::lemma_text_le_transitive(a.last().name, b.last().name, file.name);
            assert(b.push(file).drop_last() =~= b);
        } else {
            lemma_insert_into_merged(a, b.drop_last(), file);
            assert(inserted(b, file).drop_last() =~= inserted(b.drop_last(), file));
        }
    } else {
        let m = merged(a, b);
        assert(m.drop_last() =~= merged(a.drop_last(), b));
        crate::text::lemma_text_le_total(a.last().name, b.last().name);
        if name_le(a.last(), file) {
            crate::text::lemma_text_le_transitive(b.last().name, a.last().name, file.name);
            assert(b.push(file).drop_last() =~= b);
        } else {
            lemma_insert_into_merged(a.drop_last(), b, file);
        }
    }
}

proof fn lemma_merged_is_sorted(a: Seq<Imported>, b: Seq<Imported>)
    ensures
        merged(sorted(a), sorted(b)) == sorted(a + b),
    decreases b.len(),
{
    if b.len() == 0 {
        assert(a + b =~= a);
    } else {
        lemma_merged_is_sorted(a, b.drop_last());
        assert((a + b).drop_last() =~= a + b.drop_last());
        assert((a + b).last() == b.last());
        lemma_insert_into_merged(sorted(a), sorted(b.drop_last()), b.last());
    }
}

/// Two ordered lists in one.
fn merge(a: Vec<ImportedFile>, b: Vec<ImportedFile>) -> (r: Vec<ImportedFile>)
    ensures
        imported(r@) == merged(imported(a@), imported(b@)),
{
    let ghost all = merged(imported(a@), imported(b@));
    let mut a = a;
    let mut b = b;
    let mut backwards: Vec<ImportedFile> = Vec::new();
    assert(all =~= all + imported(backwards@).reverse());
    while a.len() > 0 && b.len() > 0
        invariant
            all == merged(imported(a@), imported(b@)) + imported(backwards@).reverse(),
        decreases a.len() + b.len(),
    {
        let x = chars_of(a[a.len() - 1].name.as_str());
        let y = chars_of(b[b.len() - 1].name.as_str());
        let ghost before = imported(backwards@);
        let ghost (s, t) = (imported(a@), imported(b@));
        if comes_first(x.as_slice(), y.as_slice()) {
            let file = b.pop().unwrap();
            assert(imported(b@) =~= t.drop_last());
            backwards.push(file);
        } else {
            let file = a.pop().unwrap();
            assert(imported(a@) =~= s.drop_last());
            backwards.push(file);
        }
        proof {
            let after = imported(backwards@);
            assert(after =~= before.push(after.last()));
            assert(after.reverse() =~= seq![after.last()] + before.reverse());
            assert(merged(s, t) + before.reverse() =~= merged(imported(a@), imported(b@))
                + after.reverse());
        }
    }
    let mut r = if a.len() > 0 {
        a
    } else {
        b
    };
    while backwards.len() > 0
        invariant
            all == imported(r@) + imported(backwards@).reverse(),
        decreases backwards.len(),
    {
        let ghost before = imported(backwards@);
        let ghost so_far = imported(r@);
        let file = backwards.pop().unwrap();
        r.push(file);
        proof {
            assert(imported(backwards@) =~= before.drop_last());
            assert(imported(r@) =~= so_far.push(before.last()));
            assert(before.reverse() =~= seq![before.last()] + before.drop_last().reverse());
            assert(so_far + before.reverse() =~= imported(r@) + imported(backwards@).reverse());
        }
    }
    assert(all =~= imported(r@));
    r
}

/// Puts the files in the order of their names. Files with the same name stay in the order that
/// they had.
pub fn sort_by_name(files: Vec<ImportedFile>) -> (r: Vec<ImportedFile>)
    ensures
        imported(r@) == sorted(imported(files@)),
    decreases files.len(),
{
    if files.len() <= 1 {
        proof {
            let all = imported(files@);
            if all.len() == 1 {
                assert(all.drop_last() =~= seq![]);
                assert(sorted(all.drop_last()) =~= seq![]);
                assert(sorted(all) =~= all);
            } else {
                assert(sorted(all) =~= all);
            }
        }
        files
    } else {
        let ghost all = imported(files@);
        let mut front = files;
        let back = front.split_off(front.len() / 2);
        proof {
            assert(imported(front@) + imported(back@) =~= all);
            lemma_merged_is_sorted(imported(front@), imported(back@));
        }
        merge(sort_by_name(front), sort_by_name(back))
    }
}

proof fn lemma_inserted_multiset(files: Seq<Imported>, file: Imported)
    ensures
        inserted(files, file).to_multiset() == files.to_multiset().insert(file),
    decreases files.len(),
{
    broadcast use vstd::seq_lib::group_to_multiset_ensures;

    if files.len() == 0 || name_le(files.last(), file) {
    } else {
        lemma_inserted_multiset(files.drop_last(), file);
        assert(files =~= files.drop_last().push(files.last()));
        assert(files.drop_last().to_multiset().insert(file).insert(files.last())
            =~= files.drop_last().to_multiset().insert(files.last()).insert(file));
    }
}

/// Sorting neither loses a file nor adds one.
pub proof fn law_sorting_keeps_the_files(files: Seq<Imported>)
    ensures
        sorted(files).to_multiset() == files.to_multiset(),
        sorted(files).len() == files.len(),
    decreases files.len(),
{
    broadcast use vstd::seq_lib::group_to_multiset_ensures;

    if files.len() == 0 {
        assert(sorted(files) =~= files);
    } else {
        law_sorting_keeps_the_files(files.drop_last());
        lemma_inserted_multiset(sorted(files.drop_last()), files.last());
        lemma_inserted_last(sorted(files.drop_last()), files.last());
        assert(files =~= files.drop_last().push(files.last()));
    }
}

/// Whether the files are in the order of their names.
pub open spec fn ordered(files: Seq<Imported>) -> bool {
    forall|i: int, j: int|
        0 <= i < j < files.len() ==> name_le(#[trigger] files[i], #[trigger] files[j])
}

proof fn lemma_inserted_bounded(files: Seq<Imported>, file: Imported, bound: Imported)
    requires
        forall|i: int| 0 <= i < files.len() ==> name_le(#[trigger] files[i], bound),
        name_le(file, bound),
    ensures
        forall|i: int|
            0 <= i < inserted(files, file).len() ==> name_le(
                #[trigger] inserted(files, file)[i],
                bound,
            ),
    decreases files.len(),
{
    if files.len() == 0 || name_le(files.last(), file) {
    } else {
        let front = inserted(files.drop_last(), file);
        lemma_inserted_bounded(files.drop_last(), file, bound);
        assert(inserted(files, file) =~= front.push(files.last()));
        assert forall|i: int| 0 <= i < inserted(files, file).len() implies name_le(
            #[trigger] inserted(files, file)[i],
            bound,
        ) by {
            if i < front.len() {
                assert(name_le(front[i], bound));
            } else {
                assert(name_le(files[files.len() - 1], bound));
            }
        }
    }
}

proof fn lemma_inserted_ordered(files: Seq<Imported>, file: Imported)
    requires
        ordered(files),
    ensures
        ordered(inserted(files, file)),
    decreases files.len(),
{
    if files.len() == 0 {
    } else if name_le(files.last(), file) {
        assert forall|i: int| 0 <= i < files.len() implies name_le(#[trigger] files[i], file) by {
            if i < files.len() - 1 {
                crate::text::lemma_text_le_transitive(
                    files[i].name,
                    files.last().name,
                    file.name,
                );
            }
        }
    } else {
        let front = files.drop_last();
        lemma_inserted_ordered(front, file);
        crate::text::lemma_text_le_total(files.last().name, file.name);
        lemma_inserted_bounded(front, file, files.last());
    }
}

/// Sorted files are in the order of their names.
pub proof fn law_sorted_files_are_ordered(files: Seq<Imported>)
    ensures
        ordered(sorted(files)),
    decreases files.len(),
{
    if files.len() > 0 {
        law_sorted_files_are_ordered(files.drop_last());
        lemma_inserted_ordered(sorted(files.drop_last()), files.last());
    }
}

/// The files with this name, in order.
pub open spec fn named(files: Seq<Imported>, name: Seq<char>) -> Seq<Imported>
    decreases files.len(),
{
    if files.len() == 0 {
        seq![]
    } else if files.last().name == name {
        named(files.drop_last(), name).push(files.last())
    } else {
        named(files.drop_last(), name)
    }
}

proof fn lemma_inserted_named(files: Seq<Imported>, file: Imported, name: Seq<char>)
    ensures
        named(inserted(files, file), name) == named(files.push(file), name),
    decreases files.len(),
{
    if files.len() == 0 || name_le(files.last(), file) {
    } else {
        lemma_inserted_named(files.drop_last(), file, name);
        let all = inserted(files, file);
        assert(all.drop_last() =~= inserted(files.drop_last(), file));
        assert(files.push(file).drop_last() =~= files);
        assert(files.drop_last().push(file).drop_last() =~= files.drop_last());
        crate::text::lemma_text_le_total(files.last().name, file.name);
        assert(files.last().name != file.name);
        let front = named(files.drop_last(), name);
        assert(named(files.drop_last().push(file), name) == if file.name == name {
            front.push(file)
        } else {
            front
        });
        assert(named(files, name) == if files.last().name == name {
            front.push(files.last())
        } else {
            front
        });
    }
}

/// Sorting is stable: files with the same name stay in the order that they had.
pub proof fn law_sorting_is_stable(files: Seq<Imported>, name: Seq<char>)
    ensures
        named(sorted(files), name) == named(files, name),
    decreases files.len(),
{
    if files.len() > 0 {
        let front = files.drop_last();
        law_sorting_is_stable(front, name);
        lemma_inserted_named(sorted(front), files.last(), name);
        assert(sorted(front).push(files.last()).drop_last() =~= sorted(front));
    }
}

} // verus!
