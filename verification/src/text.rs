//! Cutting text at a separator, putting it together again, and comparing it.

use vstd::prelude::*;
use vstd::string::{StrSliceExecFns, StringExecFns};

verus! {

/// The texts of a sequence of strings.
pub open spec fn texts(strings: Seq<String>) -> Seq<Seq<char>> {
    strings.map_values(|s: String| s@)
}

/// The place of the first `c` in `t`, or the length of `t` if there is none.
pub open spec fn find(t: Seq<char>, c: char) -> int
    decreases t.len(),
{
    if t.len() == 0 || t[0] == c {
        0
    } else {
        1 + find(t.drop_first(), c)
    }
}

/// What stands before and behind the first `c` in `t`.
pub open spec fn cut(t: Seq<char>, c: char) -> Option<(Seq<char>, Seq<char>)> {
    let at = find(t, c);
    if at < t.len() {
        Some((t.take(at), t.skip(at + 1)))
    } else {
        None
    }
}

/// The pieces of `t` between the places where it has `c`.
pub open spec fn pieces(t: Seq<char>, c: char) -> Seq<Seq<char>>
    decreases t.len(),
{
    let at = find(t, c);
    if 0 <= at < t.len() {
        seq![t.take(at)] + pieces(t.skip(at + 1), c)
    } else {
        seq![t]
    }
}

/// The parts in order, with `separator` between each two.
pub open spec fn joined(parts: Seq<Seq<char>>, separator: Seq<char>) -> Seq<char>
    decreases parts.len(),
{
    if parts.len() == 0 {
        seq![]
    } else if parts.len() == 1 {
        parts[0]
    } else {
        joined(parts.drop_last(), separator) + separator + parts.last()
    }
}

/// Whether `a` comes before `b`, or is `b`, in the order of strings: by the first character in
/// which they differ, or a beginning before what it begins.
pub open spec fn text_le(a: Seq<char>, b: Seq<char>) -> bool
    decreases a.len(),
{
    if a.len() == 0 {
        true
    } else if b.len() == 0 {
        false
    } else if a[0] != b[0] {
        a[0] < b[0]
    } else {
        text_le(a.drop_first(), b.drop_first())
    }
}

pub proof fn lemma_find(t: Seq<char>, c: char)
    ensures
        0 <= find(t, c) <= t.len(),
        find(t, c) < t.len() ==> t[find(t, c)] == c,
        forall|j: int| 0 <= j < find(t, c) ==> t[j] != c,
    decreases t.len(),
{
    if t.len() == 0 || t[0] == c {
    } else {
        let rest = t.drop_first();
        lemma_find(rest, c);
        assert forall|j: int| 0 <= j < find(t, c) implies t[j] != c by {
            if j > 0 {
                assert(t[j] == rest[j - 1]);
            }
        }
    }
}

pub proof fn lemma_find_is(t: Seq<char>, c: char, at: int)
    requires
        0 <= at <= t.len(),
        at < t.len() ==> t[at] == c,
        forall|j: int| 0 <= j < at ==> t[j] != c,
    ensures
        find(t, c) == at,
{
    lemma_find(t, c);
}

/// The characters of a string.
pub fn chars_of(text: &str) -> (r: Vec<char>)
    ensures
        r@ == text@,
{
    let mut r: Vec<char> = Vec::new();
    for c in it: text.chars()
        invariant
            it.seq() == text@,
            r@ == text@.take(it.index() as int),
    {
        r.push(c);
        assert(text@.take(it.index() as int).push(c) =~= text@.take(it.index() + 1));
    }
    assert(text@.take(text@.len() as int) =~= text@);
    r
}

/// Cuts `text` at the first `separator`.
pub fn split_once(text: &str, separator: char) -> (r: Option<(String, String)>)
    ensures
        r is Some <==> cut(text@, separator) is Some,
        r matches Some(p) ==> cut(text@, separator) == Some((p.0@, p.1@)),
{
    let chars = chars_of(text);
    let mut i: usize = 0;
    while i < chars.len()
        invariant
            chars@ == text@,
            0 <= i <= chars.len(),
            forall|j: int| 0 <= j < i ==> text@[j] != separator,
        decreases chars.len() - i,
    {
        if chars[i] == separator {
            proof {
                lemma_find_is(text@, separator, i as int);
            }
            let before = text.substring_char(0, i).to_owned();
            let behind = text.substring_char(i + 1, chars.len()).to_owned();
            assert(before@ =~= text@.take(i as int));
            assert(behind@ =~= text@.skip(i + 1));
            return Some((before, behind));
        }
        i += 1;
    }
    proof {
        lemma_find_is(text@, separator, text@.len() as int);
    }
    None
}

/// Cuts `text` at every `separator`.
pub fn split(text: &str, separator: char) -> (r: Vec<String>)
    ensures
        texts(r@) == pieces(text@, separator),
{
    let chars = chars_of(text);
    let mut r: Vec<String> = Vec::new();
    let mut start: usize = 0;
    let mut i: usize = 0;
    assert(text@.skip(0) =~= text@);
    assert(texts(r@) + pieces(text@, separator) =~= pieces(text@, separator));
    while i < chars.len()
        invariant
            chars@ == text@,
            0 <= start <= i <= chars.len(),
            forall|j: int| start <= j < i ==> text@[j] != separator,
            texts(r@) + pieces(text@.skip(start as int), separator) == pieces(text@, separator),
        decreases chars.len() - i,
    {
        if chars[i] == separator {
            let ghost tail = text@.skip(start as int);
            let piece = text.substring_char(start, i).to_owned();
            proof {
                assert forall|j: int| 0 <= j < i - start implies tail[j] != separator by {
                    assert(tail[j] == text@[start + j]);
                }
                lemma_find_is(tail, separator, i - start);
                assert(tail.take(i - start) =~= piece@);
                assert(tail.skip(i - start + 1) =~= text@.skip(i + 1));
            }
            let ghost before = r@;
            r.push(piece);
            proof {
                assert(texts(r@) =~= texts(before).push(piece@));
                assert(texts(r@) + pieces(text@.skip(i + 1), separator) =~= texts(before) + (
                seq![piece@] + pieces(text@.skip(i + 1), separator)));
            }
            start = i + 1;
        }
        i += 1;
    }
    let ghost tail = text@.skip(start as int);
    let piece = text.substring_char(start, chars.len()).to_owned();
    proof {
        assert forall|j: int| 0 <= j < tail.len() implies tail[j] != separator by {
            assert(tail[j] == text@[start + j]);
        }
        lemma_find_is(tail, separator, tail.len() as int);
        assert(piece@ =~= tail);
    }
    let ghost before = r@;
    r.push(piece);
    proof {
        assert(texts(r@) =~= texts(before) + seq![piece@]);
    }
    r
}

/// Puts `parts` together with `separator` between each two.
pub fn join(parts: &[String], separator: &str) -> (r: String)
    ensures
        r@ == joined(texts(parts@), separator@),
{
    let mut r = String::new();
    let mut i: usize = 0;
    assert(texts(parts@).take(0) =~= seq![]);
    while i < parts.len()
        invariant
            0 <= i <= parts.len(),
            r@ == joined(texts(parts@).take(i as int), separator@),
        decreases parts.len() - i,
    {
        let ghost so_far = texts(parts@).take(i as int);
        if i > 0 {
            r.append(separator);
        }
        r.append(parts[i].as_str());
        proof {
            let next = texts(parts@).take(i + 1);
            assert(next.drop_last() =~= so_far);
            assert(next.last() == parts@[i as int]@);
            if i == 0 {
                assert(r@ =~= next[0]);
            }
        }
        i += 1;
    }
    assert(texts(parts@).take(parts@.len() as int) =~= texts(parts@));
    r
}

/// Whether `a` comes before `b`, or is `b`, in the order of strings.
pub fn comes_first(a: &[char], b: &[char]) -> (r: bool)
    ensures
        r == text_le(a@, b@),
{
    let mut i: usize = 0;
    assert(a@.skip(0) =~= a@);
    assert(b@.skip(0) =~= b@);
    while i < a.len() && i < b.len()
        invariant
            0 <= i <= a.len(),
            i <= b.len(),
            text_le(a@, b@) == text_le(a@.skip(i as int), b@.skip(i as int)),
        decreases a.len() - i,
    {
        proof {
            assert(a@.skip(i as int)[0] == a@[i as int]);
            assert(b@.skip(i as int)[0] == b@[i as int]);
            assert(a@.skip(i as int).drop_first() =~= a@.skip(i + 1));
            assert(b@.skip(i as int).drop_first() =~= b@.skip(i + 1));
        }
        if a[i] != b[i] {
            return a[i] < b[i];
        }
        i += 1;
    }
    i == a.len()
}

proof fn lemma_joined_front(first: Seq<char>, rest: Seq<Seq<char>>, separator: Seq<char>)
    requires
        rest.len() > 0,
    ensures
        joined(seq![first] + rest, separator) == first + separator + joined(rest, separator),
    decreases rest.len(),
{
    let all = seq![first] + rest;
    assert(all.drop_last() =~= seq![first] + rest.drop_last());
    assert(all.last() == rest.last());
    if rest.len() == 1 {
        assert(all.drop_last() =~= seq![first]);
        assert(joined(seq![first], separator) == first);
    } else {
        lemma_joined_front(first, rest.drop_last(), separator);
        assert(joined(all, separator) =~= first + separator + joined(rest, separator));
    }
}

/// No piece of a text has the separator at which the text was cut, and there is always a piece.
pub proof fn law_pieces_have_no_separator(t: Seq<char>, c: char)
    ensures
        pieces(t, c).len() > 0,
        forall|i: int| 0 <= i < pieces(t, c).len() ==> !(#[trigger] pieces(t, c)[i]).contains(c),
    decreases t.len(),
{
    lemma_find(t, c);
    let at = find(t, c);
    if at < t.len() {
        law_pieces_have_no_separator(t.skip(at + 1), c);
        assert forall|i: int| 0 <= i < pieces(t, c).len() implies !(#[trigger] pieces(
            t,
            c,
        )[i]).contains(c) by {
            if i > 0 {
                assert(pieces(t, c)[i] == pieces(t.skip(at + 1), c)[i - 1]);
            }
        }
    }
}

/// The pieces of a text, put together with the separator, are the text.
pub proof fn law_join_of_pieces(t: Seq<char>, c: char)
    ensures
        joined(pieces(t, c), seq![c]) == t,
    decreases t.len(),
{
    lemma_find(t, c);
    let at = find(t, c);
    if at < t.len() {
        let rest = t.skip(at + 1);
        law_join_of_pieces(rest, c);
        law_pieces_have_no_separator(rest, c);
        lemma_joined_front(t.take(at), pieces(rest, c), seq![c]);
        assert(t =~= t.take(at) + seq![c] + rest);
    }
}

/// Parts that do not have the separator come back when what was put together is cut again.
pub proof fn law_pieces_of_join(parts: Seq<Seq<char>>, c: char)
    requires
        parts.len() > 0,
        forall|i: int| 0 <= i < parts.len() ==> !(#[trigger] parts[i]).contains(c),
    ensures
        pieces(joined(parts, seq![c]), c) == parts,
    decreases parts.len(),
{
    let first = parts[0];
    assert(forall|j: int| 0 <= j < first.len() ==> first[j] != c);
    if parts.len() == 1 {
        lemma_find_is(first, c, first.len() as int);
        assert(parts =~= seq![first]);
    } else {
        let rest = parts.drop_first();
        assert(parts =~= seq![first] + rest);
        lemma_joined_front(first, rest, seq![c]);
        assert forall|i: int| 0 <= i < rest.len() implies !(#[trigger] rest[i]).contains(c) by {
            assert(rest[i] == parts[i + 1]);
        }
        law_pieces_of_join(rest, c);
        let t = joined(parts, seq![c]);
        let at = first.len() as int;
        assert(t[at] == c);
        assert forall|j: int| 0 <= j < at implies t[j] != c by {
            assert(t[j] == first[j]);
        }
        lemma_find_is(t, c, at);
        assert(t.take(at) =~= first);
        assert(t.skip(at + 1) =~= joined(rest, seq![c]));
    }
}

/// The pieces of two texts with a separator between them are the pieces of the one, then those of
/// the other.
pub proof fn law_pieces_of_two(a: Seq<char>, b: Seq<char>, c: char)
    ensures
        pieces(a + seq![c] + b, c) == pieces(a, c) + pieces(b, c),
    decreases a.len(),
{
    lemma_find(a, c);
    let at = find(a, c);
    let t = a + seq![c] + b;
    assert forall|j: int| 0 <= j < at implies t[j] != c by {
        assert(t[j] == a[j]);
    }
    lemma_find_is(t, c, at);
    assert(t.take(at) =~= a.take(at));
    if at < a.len() {
        let rest = a.skip(at + 1);
        assert(t.skip(at + 1) =~= rest + seq![c] + b);
        law_pieces_of_two(rest, b, c);
        assert(pieces(t, c) =~= pieces(a, c) + pieces(b, c));
    } else {
        assert(a.take(at) =~= a);
        assert(t.skip(at + 1) =~= b);
        assert(pieces(t, c) =~= pieces(a, c) + pieces(b, c));
    }
}

/// Cutting at the first separator undoes putting it between two texts, if the first of them does
/// not have it.
pub proof fn law_cut_of_join(before: Seq<char>, behind: Seq<char>, c: char)
    requires
        !before.contains(c),
    ensures
        cut(before + seq![c] + behind, c) == Some((before, behind)),
{
    let t = before + seq![c] + behind;
    let at = before.len() as int;
    assert forall|j: int| 0 <= j < at implies t[j] != c by {
        assert(t[j] == before[j]);
    }
    lemma_find_is(t, c, at);
    assert(t.take(at) =~= before);
    assert(t.skip(at + 1) =~= behind);
}

pub proof fn lemma_text_le_total(a: Seq<char>, b: Seq<char>)
    ensures
        text_le(a, b) || text_le(b, a),
    decreases a.len(),
{
    if a.len() > 0 && b.len() > 0 && a[0] == b[0] {
        lemma_text_le_total(a.drop_first(), b.drop_first());
    }
}

pub proof fn lemma_text_le_transitive(a: Seq<char>, b: Seq<char>, c: Seq<char>)
    requires
        text_le(a, b),
        text_le(b, c),
    ensures
        text_le(a, c),
    decreases a.len(),
{
    if a.len() > 0 && a[0] == b[0] && b[0] == c[0] {
        lemma_text_le_transitive(a.drop_first(), b.drop_first(), c.drop_first());
    }
}

} // verus!
