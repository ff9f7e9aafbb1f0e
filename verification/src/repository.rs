//! The event folders under a root: the order in which they are taken, which
//! is the order of their names and so the same in every run.

use vstd::prelude::*;
use vstd::string::*;
use crate::text::texts;

verus! {

/// Whether the text `a` stands before `b` in a dictionary, or is `b`:
/// character by character, the first difference decides, and a text stands
/// before its extensions.
pub open spec fn text_le(a: Seq<char>, b: Seq<char>) -> bool
    decreases a.len(),
{
    if a.len() == 0 {
        true
    } else if b.len() == 0 {
        false
    } else if a[0] != b[0] {
        a[0] < b[0]
    } else {
        text_le(a.drop_first(), b.drop_first())
    }
}

/// Of two texts one stands before the other, or they are the same.
pub proof fn lemma_text_le_total(a: Seq<char>, b: Seq<char>)
    ensures
        text_le(a, b) || text_le(b, a),
        text_le(a, b) && text_le(b, a) ==> a == b,
        text_le(a, a),
    decreases a.len(),
{
    if a.len() > 0 && b.len() > 0 && a[0] == b[0] {
        lemma_text_le_total(a.drop_first(), b.drop_first());
        if text_le(a, b) && text_le(b, a) {
            assert(a =~= seq![a[0]] + a.drop_first());
            assert(b =~= seq![b[0]] + b.drop_first());
        }
    }
    if a.len() > 0 {
        lemma_text_le_total(a.drop_first(), a.drop_first());
    }
    if text_le(a, b) && text_le(b, a) && (a.len() == 0 || b.len() == 0) {
        assert(a =~= b);
    }
}

/// What stands before a text stands before all that the text stands before.
pub proof fn lemma_text_le_transitive(a: Seq<char>, b: Seq<char>, c: Seq<char>)
    requires
        text_le(a, b),
        text_le(b, c),
    ensures
        text_le(a, c),
    decreases a.len(),
{
    if a.len() > 0 && b.len() > 0 && c.len() > 0 && a[0] == b[0] && b[0] == c[0] {
        lemma_text_le_transitive(a.drop_first(), b.drop_first(), c.drop_first());
    }
}

/// Whether the names stand in the order of a dictionary.
pub open spec fn is_ordered(names: Seq<Seq<char>>) -> bool {
    forall|i: int, j: int| 0 <= i <= j < names.len() ==> text_le(names[i], names[j])
}

/// The place behind the last of `names` that stands before `name` or is it.
pub open spec fn place_of(names: Seq<Seq<char>>, name: Seq<char>) -> int
    decreases names.len(),
{
    if names.len() == 0 {
        0
    } else if text_le(names.last(), name) {
        names.len() as int
    } else {
        place_of(names.drop_last(), name)
    }
}

/// The names in the order of a dictionary.
pub open spec fn ordered(names: Seq<Seq<char>>) -> Seq<Seq<char>>
    decreases names.len(),
{
    if names.len() == 0 {
        names
    } else {
        let before = ordered(names.drop_last());
        before.insert(place_of(before, names.last()), names.last())
    }
}

/// Where [`place_of`] points in ordered names: all before that place stand
/// before `name` or are it, and `name` stands before all from it on.
pub proof fn lemma_place_of(names: Seq<Seq<char>>, name: Seq<char>)
    requires
        is_ordered(names),
    ensures
        0 <= place_of(names, name) <= names.len(),
        forall|i: int| 0 <= i < place_of(names, name) ==> text_le(#[trigger] names[i], name),
        forall|i: int| place_of(names, name) <= i < names.len() ==> text_le(name, #[trigger] names[i]),
    decreases names.len(),
{
    if names.len() > 0 {
        let head = names.drop_last();
        if text_le(names.last(), name) {
            assert forall|i: int| 0 <= i < names.len() implies text_le(#[trigger] names[i], name) by {
                assert(text_le(names[i], names[names.len() - 1]));
                lemma_text_le_transitive(names[i], names.last(), name);
            }
        } else {
            assert(is_ordered(head)) by {
                assert forall|i: int, j: int| 0 <= i <= j < head.len() implies text_le(head[i], head[j]) by {
                    assert(head[i] == names[i] && head[j] == names[j]);
                }
            }
            lemma_place_of(head, name);
            lemma_text_le_total(names.last(), name);
            assert forall|i: int| 0 <= i < place_of(names, name) implies text_le(#[trigger] names[i], name) by {
                assert(head[i] == names[i]);
            }
            assert forall|i: int| place_of(names, name) <= i < names.len() implies text_le(
                name,
                #[trigger] names[i],
            ) by {
                if i < head.len() {
                    assert(head[i] == names[i]);
                }
            }
        }
    }
}

/// The order of a dictionary, stated: the result is ordered and holds the
/// same names as often.
pub proof fn lemma_ordered(names: Seq<Seq<char>>)
    ensures
        is_ordered(ordered(names)),
        ordered(names).to_multiset() == names.to_multiset(),
        ordered(names).len() == names.len(),
    decreases names.len(),
{
    if names.len() > 0 {
        let before = ordered(names.drop_last());
        let x = names.last();
        lemma_ordered(names.drop_last());
        lemma_place_of(before, x);
        let at = place_of(before, x);
        let r = before.insert(at, x);
        lemma_text_le_total(x, x);
        assert forall|i: int, j: int| 0 <= i <= j < r.len() implies text_le(r[i], r[j]) by {
            if i < at {
                assert(r[i] == before[i]);
            } else if i > at {
                assert(r[i] == before[i - 1]);
            }
            if j < at {
                assert(r[j] == before[j]);
            } else if j > at {
                assert(r[j] == before[j - 1]);
            }
            if i < at && j > at {
                assert(text_le(before[i], before[j - 1]));
            }
        }
        vstd::seq_lib::to_multiset_insert(before, at, x);
        vstd::seq_lib::to_multiset_build(names.drop_last(), x);
        assert(names.drop_last().push(x) =~= names);
    }
}

/// Whether `a` stands before `b` in a dictionary, or is `b`.
pub fn precedes_or_same(a: &str, b: &str) -> (r: bool)
    ensures
        r == text_le(a@, b@),
{
    let n: usize = a.unicode_len();
    let m: usize = b.unicode_len();
    let mut i: usize = 0;
    assert(a@.skip(0) =~= a@ && b@.skip(0) =~= b@);
    while i < n && i < m
        invariant
            i <= n,
            i <= m,
            n == a@.len(),
            m == b@.len(),
            text_le(a@, b@) == text_le(a@.skip(i as int), b@.skip(i as int)),
        decreases n - i,
    {
        let x = a.get_char(i);
        let y = b.get_char(i);
        assert(a@.skip(i as int)[0] == x && b@.skip(i as int)[0] == y);
        if x != y {
            return x < y;
        }
        assert(a@.skip(i as int).drop_first() =~= a@.skip(i + 1));
        assert(b@.skip(i as int).drop_first() =~= b@.skip(i + 1));
        i += 1;
    }
    i == n
}

/// The place in `names` behind the last that stands before `name` or is it.
fn place_for(names: &Vec<String>, name: &str) -> (r: usize)
    ensures
        r as int == place_of(texts(names@), name@),
        r <= names.len(),
{
    let ghost all = texts(names@);
    let mut at: usize = names.len();
    assert(all.take(at as int) =~= all);
    while at > 0
        invariant
            at <= names.len(),
            all == texts(names@),
            place_of(all, name@) == place_of(all.take(at as int), name@),
        decreases at,
    {
        assert(all.take(at as int).last() == names@[at - 1]@);
        if precedes_or_same(names[at - 1].as_str(), name) {
            return at;
        }
        assert(all.take(at as int).drop_last() =~= all.take(at - 1));
        at -= 1;
    }
    0
}

/// Puts the names of the event folders in the order in which the events are
/// taken: the order of a dictionary, by the characters of the names.
pub fn order_folders(names: &Vec<String>) -> (r: Vec<String>)
    ensures
        texts(r@) == ordered(texts(names@)),
        is_ordered(texts(r@)),
        texts(r@).to_multiset() == texts(names@).to_multiset(),
        r@.len() == names@.len(),
{
    let ghost all = texts(names@);
    let mut r: Vec<String> = Vec::new();
    let mut i: usize = 0;
    assert(all.take(0) =~= Seq::<Seq<char>>::empty());
    assert(texts(r@) =~= ordered(all.take(0)));
    while i < names.len()
        invariant
            i <= names.len(),
            all == texts(names@),
            texts(r@) == ordered(all.take(i as int)),
        decreases names.len() - i,
    {
        let name = names[i].clone();
        let at: usize = place_for(&r, name.as_str());
        let ghost before = texts(r@);
        r.insert(at, name);
        proof {
            assert(texts(r@) =~= before.insert(at as int, names@[i as int]@));
            assert(all.take(i + 1).drop_last() =~= all.take(i as int));
            assert(all.take(i + 1).last() == names@[i as int]@);
        }
        i += 1;
    }
    proof {
        assert(all.take(i as int) =~= all);
        lemma_ordered(all);
    }
    r
}

} // verus!
