//! Lists of device names, in order and without repetition.

use crate::text;
use crate::text::{is_whitespace, to_chars};
use vstd::prelude::*;

verus! {

/// Whether `a` comes before `b` in the order of their characters.
pub open spec fn before(a: Seq<char>, b: Seq<char>) -> bool
    decreases a.len(),
{
    if b.len() == 0 {
        false
    } else if a.len() == 0 {
        true
    } else if a.first() != b.first() {
        (a.first() as int) < (b.first() as int)
    } else {
        before(a.drop_first(), b.drop_first())
    }
}

/// The texts of a list.
pub open spec fn texts(v: Seq<String>) -> Seq<Seq<char>> {
    v.map_values(|s: String| s@)
}

/// Whether a list is in order, with no text twice.
pub open spec fn in_order(v: Seq<Seq<char>>) -> bool {
    forall|i: int, j: int| 0 <= i < j < v.len() ==> before(#[trigger] v[i], #[trigger] v[j])
}

/// Whether a text has nothing but white space.
pub open spec fn blank(s: Seq<char>) -> bool {
    forall|i: int| 0 <= i < s.len() ==> text::whitespace(#[trigger] s[i])
}

proof fn lemma_not_before_itself(a: Seq<char>)
    ensures
        !before(a, a),
    decreases a.len(),
{
    if a.len() > 0 {
        lemma_not_before_itself(a.drop_first());
    }
}

proof fn lemma_before_is_transitive(a: Seq<char>, b: Seq<char>, c: Seq<char>)
    requires
        before(a, b),
        before(b, c),
    ensures
        before(a, c),
    decreases a.len(),
{
    if a.len() > 0 && b.len() > 0 && c.len() > 0 && a.first() == b.first() && b.first()
        == c.first() {
        lemma_before_is_transitive(a.drop_first(), b.drop_first(), c.drop_first());
    }
}

proof fn lemma_one_comes_first(a: Seq<char>, b: Seq<char>)
    ensures
        a == b || before(a, b) || before(b, a),
    decreases a.len(),
{
    if a.len() > 0 && b.len() > 0 && a.first() == b.first() {
        lemma_one_comes_first(a.drop_first(), b.drop_first());
        if a.drop_first() == b.drop_first() {
            assert(a =~= seq![a.first()] + a.drop_first());
            assert(b =~= seq![b.first()] + b.drop_first());
        }
    } else if a.len() == 0 && b.len() == 0 {
        assert(a =~= b);
    }
}

/// Texts are in a strict order: none comes before itself, of two different ones
/// exactly one comes first, and what comes before an earlier text comes before a
/// later one.
pub proof fn law_texts_are_ordered(a: Seq<char>, b: Seq<char>, c: Seq<char>)
    ensures
        !before(a, a),
        a != b ==> (before(a, b) <==> !before(b, a)),
        before(a, b) && before(b, c) ==> before(a, c),
{
    lemma_not_before_itself(a);
    lemma_one_comes_first(a, b);
    if before(a, b) && before(b, a) {
        lemma_before_is_transitive(a, b, a);
    }
    if before(a, b) && before(b, c) {
        lemma_before_is_transitive(a, b, c);
    }
}

/// A list in order is determined by the texts that occur in it.
pub proof fn law_ordered_lists_are_unique(u: Seq<Seq<char>>, v: Seq<Seq<char>>)
    requires
        in_order(u),
        in_order(v),
        forall|t: Seq<char>| u.contains(t) <==> #[trigger] v.contains(t),
    ensures
        u == v,
    decreases u.len(),
{
    if u.len() == 0 {
        if v.len() > 0 {
            assert(v.contains(v[0]));
        }
        assert(u =~= v);
    } else if v.len() == 0 {
        assert(u.contains(u[0]));
        assert(v.contains(u[0]));
    } else {
        let a = u.last();
        let b = v.last();
        assert(u.contains(a));
        assert(v.contains(b));
        assert(v.contains(a));
        assert(u.contains(b));
        let i = choose|i: int| 0 <= i < v.len() && v[i] == a;
        let j = choose|j: int| 0 <= j < u.len() && u[j] == b;
        if a != b {
            assert(before(v[i], v[v.len() - 1]));
            assert(before(u[j], u[u.len() - 1]));
            law_texts_are_ordered(a, b, a);
        }
        let x = u.drop_last();
        let y = v.drop_last();
        assert forall|t: Seq<char>| x.contains(t) <==> #[trigger] y.contains(t) by {
            if x.contains(t) {
                let k = choose|k: int| 0 <= k < x.len() && x[k] == t;
                assert(u[k] == t);
                assert(u.contains(t));
                assert(v.contains(t));
                let m = choose|m: int| 0 <= m < v.len() && v[m] == t;
                assert(before(u[k], u[u.len() - 1]));
                lemma_not_before_itself(t);
                assert(m < v.len() - 1);
                assert(y[m] == t);
            }
            if y.contains(t) {
                let m = choose|m: int| 0 <= m < y.len() && y[m] == t;
                assert(v[m] == t);
                assert(v.contains(t));
                assert(u.contains(t));
                let k = choose|k: int| 0 <= k < u.len() && u[k] == t;
                assert(before(v[m], v[v.len() - 1]));
                lemma_not_before_itself(t);
                assert(k < u.len() - 1);
                assert(x[k] == t);
            }
        }
        assert(in_order(x)) by {
            assert forall|p: int, q: int| 0 <= p < q < x.len() implies before(
                #[trigger] x[p],
                #[trigger] x[q],
            ) by {
                assert(before(u[p], u[q]));
            }
        }
        assert(in_order(y)) by {
            assert forall|p: int, q: int| 0 <= p < q < y.len() implies before(
                #[trigger] y[p],
                #[trigger] y[q],
            ) by {
                assert(before(v[p], v[q]));
            }
        }
        law_ordered_lists_are_unique(x, y);
        assert(u =~= x.push(a));
        assert(v =~= y.push(b));
    }
}

/// Whether one name comes before another.
pub fn comes_before(a: &String, b: &String) -> (r: bool)
    ensures
        r == before(a@, b@),
{
    let x = to_chars(a.as_str());
    let y = to_chars(b.as_str());
    let mut i: usize = 0;
    assert(a@.skip(0) =~= a@);
    assert(b@.skip(0) =~= b@);
    while i < x.len() && i < y.len()
        invariant
            x@ == a@,
            y@ == b@,
            i <= x@.len(),
            i <= y@.len(),
            before(a@.skip(i as int), b@.skip(i as int)) == before(a@, b@),
        decreases x@.len() - i,
    {
        let ghost p = a@.skip(i as int);
        let ghost q = b@.skip(i as int);
        assert(p.first() == x@[i as int] && q.first() == y@[i as int]);
        if x[i] != y[i] {
            return x[i] < y[i];
        }
        assert(p.drop_first() =~= a@.skip(i + 1));
        assert(q.drop_first() =~= b@.skip(i + 1));
        i = i + 1;
    }
    i < y.len()
}

/// Puts a name at its place in a list in order, unless it is there already.
fn insert_name(list: &mut Vec<String>, name: String)
    requires
        in_order(texts(old(list)@)),
    ensures
        in_order(texts(final(list)@)),
        forall|t: Seq<char>| #[trigger]
            texts(final(list)@).contains(t) <==> texts(old(list)@).contains(t) || t == name@,
{
    let mut i: usize = 0;
    while i < list.len() && comes_before(&list[i], &name)
        invariant
            i <= list@.len(),
            *list == *old(list),
            forall|j: int| 0 <= j < i ==> before(#[trigger] texts(list@)[j], name@),
        decreases list@.len() - i,
    {
        assert(texts(list@)[i as int] == list@[i as int]@);
        i = i + 1;
    }
    let ghost u = texts(list@);
    if i < list.len() {
        assert(u[i as int] == list@[i as int]@);
        if list[i] == name {
            assert(u.contains(name@));
            return;
        }
    }
    let ghost n = name@;
    list.insert(i, name);
    proof {
        let w = texts(list@);
        assert(w =~= u.insert(i as int, n));
        assert forall|p: int, q: int| 0 <= p < q < w.len() implies before(
            #[trigger] w[p],
            #[trigger] w[q],
        ) by {
            if p < i && q < i {
                assert(before(u[p], u[q]));
            } else if p < i && q == i {
                assert(before(u[p], n));
            } else if p < i {
                assert(before(u[p], u[q - 1]));
            } else {
                if i < u.len() {
                    lemma_one_comes_first(u[i as int], n);
                    assert(before(n, u[i as int]));
                }
                if p == i {
                    if q - 1 > i {
                        assert(before(u[i as int], u[q - 1]));
                        lemma_before_is_transitive(n, u[i as int], u[q - 1]);
                    }
                } else {
                    assert(before(u[p - 1], u[q - 1]));
                }
            }
        }
        assert forall|t: Seq<char>| #[trigger] w.contains(t) <==> u.contains(t) || t == n by {
            if w.contains(t) {
                let k = choose|k: int| 0 <= k < w.len() && w[k] == t;
                if k < i {
                    assert(u[k] == t);
                } else if k > i {
                    assert(u[k - 1] == t);
                }
            }
            if u.contains(t) {
                let k = choose|k: int| 0 <= k < u.len() && u[k] == t;
                if k < i {
                    assert(w[k] == t);
                } else {
                    assert(w[k + 1] == t);
                }
            }
            if t == n {
                assert(w[i as int] == t);
            }
        }
    }
}

/// The names in order, each of them once.
pub fn sorted_names(names: &Vec<String>) -> (r: Vec<String>)
    ensures
        in_order(texts(r@)),
        forall|t: Seq<char>| #[trigger] texts(r@).contains(t) <==> texts(names@).contains(t),
{
    let mut out: Vec<String> = Vec::new();
    let mut i: usize = 0;
    while i < names.len()
        invariant
            i <= names@.len(),
            in_order(texts(out@)),
            forall|t: Seq<char>| #[trigger]
                texts(out@).contains(t) <==> texts(names@.take(i as int)).contains(t),
        decreases names@.len() - i,
    {
        let ghost done = texts(names@.take(i as int));
        insert_name(&mut out, names[i].clone());
        i = i + 1;
        proof {
            let more = texts(names@.take(i as int));
            let n = names@[i - 1]@;
            assert(more =~= done.push(n));
            assert forall|t: Seq<char>| #[trigger] texts(out@).contains(t) <==> more.contains(t) by {
                if done.contains(t) {
                    let k = choose|k: int| 0 <= k < done.len() && done[k] == t;
                    assert(more[k] == t);
                }
                if t == n {
                    assert(more[i - 1] == t);
                }
                if more.contains(t) {
                    let k = choose|k: int| 0 <= k < more.len() && more[k] == t;
                    if k < done.len() {
                        assert(done[k] == t);
                    }
                }
            }
        }
    }
    assert(names@.take(names@.len() as int) =~= names@);
    out
}

/// Whether a name has nothing but white space.
fn is_blank(s: &String) -> (r: bool)
    ensures
        r == blank(s@),
{
    let v = to_chars(s.as_str());
    let mut i: usize = 0;
    while i < v.len()
        invariant
            v@ == s@,
            i <= v@.len(),
            forall|j: int| 0 <= j < i ==> text::whitespace(#[trigger] s@[j]),
        decreases v@.len() - i,
    {
        if !is_whitespace(v[i]) {
            return false;
        }
        i = i + 1;
    }
    true
}

/// Whether a name was read from an endpoint and shows something.
pub open spec fn shown(names: Seq<Option<String>>, t: Seq<char>) -> bool {
    !blank(t) && exists|i: int| 0 <= i < names.len() && (#[trigger] names[i] matches Some(n) && n@ == t)
}

/// The names of the endpoints that could be read and are not blank, in order,
/// each of them once.
pub fn endpoint_names(names: &Vec<Option<String>>) -> (r: Vec<String>)
    ensures
        in_order(texts(r@)),
        forall|t: Seq<char>| #[trigger] texts(r@).contains(t) <==> shown(names@, t),
{
    let mut out: Vec<String> = Vec::new();
    let mut i: usize = 0;
    while i < names.len()
        invariant
            i <= names@.len(),
            in_order(texts(out@)),
            forall|t: Seq<char>| #[trigger]
                texts(out@).contains(t) <==> shown(names@.take(i as int), t),
        decreases names@.len() - i,
    {
        let ghost done = names@.take(i as int);
        if let Some(name) = &names[i] {
            if !is_blank(name) {
                insert_name(&mut out, name.clone());
            }
        }
        i = i + 1;
        proof {
            let more = names@.take(i as int);
            assert(more =~= done.push(names@[i - 1]));
            assert forall|t: Seq<char>| #[trigger] texts(out@).contains(t) <==> shown(more, t) by {
                if shown(done, t) {
                    let k = choose|k: int|
                        0 <= k < done.len() && (#[trigger] done[k] matches Some(n) && n@ == t);
                    assert(more[k] == done[k]);
                }
                if shown(more, t) {
                    let k = choose|k: int|
                        0 <= k < more.len() && (#[trigger] more[k] matches Some(n) && n@ == t);
                    if k < done.len() {
                        assert(done[k] == more[k]);
                    }
                }
                assert(more[i - 1] == names@[i - 1]);
            }
        }
    }
    assert(names@.take(names@.len() as int) =~= names@);
    out
}

/// Texts are ordered as in a dictionary: a text comes before every longer one that begins
/// with it, and of two that share a beginning the one whose next character has the lower
/// code comes first.
pub proof fn law_order_is_by_the_first_difference(
    shared: Seq<char>,
    c: char,
    d: char,
    a: Seq<char>,
    b: Seq<char>,
)
    ensures
        before(shared, shared + seq![c] + a),
        !before(shared + seq![c] + a, shared),
        (c as int) < (d as int) ==> before(shared + seq![c] + a, shared + seq![d] + b),
        (c as int) > (d as int) ==> !before(shared + seq![c] + a, shared + seq![d] + b),
    decreases shared.len(),
{
    let x = shared + seq![c] + a;
    let y = shared + seq![d] + b;
    assert(x.len() > 0 && y.len() > 0);
    if shared.len() > 0 {
        let rest = shared.drop_first();
        law_order_is_by_the_first_difference(rest, c, d, a, b);
        assert(x.drop_first() =~= rest + seq![c] + a);
        assert(y.drop_first() =~= rest + seq![d] + b);
        assert(x.first() == shared.first() && y.first() == shared.first());
    } else {
        assert(x.first() == c && y.first() == d);
    }
}

/// A name is listed exactly if an endpoint told it and some character of it is not white
/// space.
pub proof fn law_listed_names(names: Seq<Option<String>>, i: int, t: Seq<char>, k: int)
    ensures
        0 <= i < names.len() && names[i] is Some && 0 <= k < names[i]->0@.len()
            && !text::whitespace(names[i]->0@[k]) ==> shown(names, names[i]->0@),
        shown(names, t) ==> exists|j: int|
            0 <= j < t.len() && !text::whitespace(#[trigger] t[j]),
        shown(names, t) ==> exists|j: int|
            0 <= j < names.len() && (#[trigger] names[j] matches Some(n) && n@ == t),
        t.len() == 0 ==> !shown(names, t),
{
}

} // verus!
