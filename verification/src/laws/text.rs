//! What cutting, joining and comparing text come to.

use vstd::prelude::*;

verus! {

/// A text that has the separator is cut at the first one, and nothing is lost; a text without it
/// is not cut.
pub proof fn law_cut_is_at_the_first(t: Seq<char>, c: char)
    ensures
        match crate::text::cut(t, c) {
            Some((before, behind)) => t == before + seq![c] + behind && !before.contains(c),
            None => !t.contains(c),
        },
{
    crate::text::lemma_find(t, c);
    let at = crate::text::find(t, c);
    if at < t.len() {
        assert(t =~= t.take(at) + seq![c] + t.skip(at + 1));
    }
}

/// What is put together of two lists is what is put together of each, with the separator between;
/// one part is itself; and nothing makes nothing.
pub proof fn law_joined_of_two(
    a: Seq<Seq<char>>,
    b: Seq<Seq<char>>,
    part: Seq<char>,
    separator: Seq<char>,
)
    requires
        a.len() > 0,
        b.len() > 0,
    ensures
        crate::text::joined(a + b, separator) == crate::text::joined(a, separator) + separator
            + crate::text::joined(b, separator),
        crate::text::joined(seq![part], separator) == part,
        crate::text::joined(Seq::empty(), separator) == Seq::<char>::empty(),
    decreases b.len(),
{
    let all = a + b;
    assert(all.drop_last() =~= a + b.drop_last());
    assert(all.last() == b.last());
    if b.len() == 1 {
        assert(all.drop_last() =~= a);
    } else {
        law_joined_of_two(a, b.drop_last(), part, separator);
    }
    assert(crate::text::joined(all, separator) =~= crate::text::joined(a, separator) + separator
        + crate::text::joined(b, separator));
}

/// One text comes before another, or is the same, exactly if it is a beginning of the other or has
/// the smaller character at the first place where they differ.
pub proof fn law_text_order(a: Seq<char>, b: Seq<char>)
    ensures
        crate::text::text_le(a, b) <==> exists|i: int|
            #![trigger a.take(i)]
            0 <= i <= a.len() && i <= b.len() && a.take(i) == b.take(i) && (i == a.len() || (i
                < b.len() && a[i] < b[i])),
    decreases a.len(),
{
    if a.len() == 0 {
        assert(a.take(0) =~= b.take(0));
    } else if b.len() == 0 {
    } else if a[0] != b[0] {
        if a[0] < b[0] {
            assert(a.take(0) =~= b.take(0));
        }
        assert forall|i: int| 0 < i <= a.len() && i <= b.len() implies #[trigger] a.take(i)
            != b.take(i) by {
            assert(a.take(i)[0] == a[0] && b.take(i)[0] == b[0]);
        }
    } else {
        let (x, y) = (a.drop_first(), b.drop_first());
        law_text_order(x, y);
        if crate::text::text_le(x, y) {
            let i = choose|i: int|
                #![trigger x.take(i)]
                0 <= i <= x.len() && i <= y.len() && x.take(i) == y.take(i) && (i == x.len() || (i
                    < y.len() && x[i] < y[i]));
            let n = i + 1;
            assert forall|j: int| 0 <= j < n implies #[trigger] a.take(n)[j] == b.take(n)[j] by {
                if j > 0 {
                    assert(x.take(i)[j - 1] == y.take(i)[j - 1]);
                }
            }
            assert(a.take(n) =~= b.take(n));
        }
        if exists|i: int|
            #![trigger a.take(i)]
            0 <= i <= a.len() && i <= b.len() && a.take(i) == b.take(i) && (i == a.len() || (i
                < b.len() && a[i] < b[i])) {
            let i = choose|i: int|
                #![trigger a.take(i)]
                0 <= i <= a.len() && i <= b.len() && a.take(i) == b.take(i) && (i == a.len() || (i
                    < b.len() && a[i] < b[i]));
            assert(i > 0);
            let n = i - 1;
            assert forall|j: int| 0 <= j < n implies #[trigger] x.take(n)[j] == y.take(n)[j] by {
                assert(a.take(i)[j + 1] == b.take(i)[j + 1]);
            }
            assert(x.take(n) =~= y.take(n));
        }
    }
}

/// The texts of some strings are the texts of each.
pub proof fn law_texts_are_each(strings: Seq<String>)
    ensures
        crate::text::texts(strings).len() == strings.len(),
        forall|i: int|
            0 <= i < strings.len() ==> (#[trigger] crate::text::texts(strings)[i]) == strings[i]@,
{
}

} // verus!
