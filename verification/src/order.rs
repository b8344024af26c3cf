//! Lexicographic order on text (by code point, which is the order of `str`'s
//! `Ord`), strictly sorted lists of texts and insertion into them.
use vstd::prelude::*;
use crate::text::{owned, str_eq};

verus! {

/// `a` and `b` agree on their first `i` characters.
pub open spec fn agree_upto(a: Seq<char>, b: Seq<char>, i: int) -> bool {
    &&& 0 <= i <= a.len()
    &&& i <= b.len()
    &&& forall|j: int| 0 <= j < i ==> a[j] == b[j]
}

/// `i` is where `a` first falls below `b`: they agree before it, and there
/// `a` has ended while `b` goes on, or `a` has the smaller character.
pub open spec fn lt_at(a: Seq<char>, b: Seq<char>, i: int) -> bool {
    &&& agree_upto(a, b, i)
    &&& ((i == a.len() && i < b.len()) || (i < a.len() && i < b.len() && (a[i] as int) < (b[i] as int)))
}

/// `a` comes strictly before `b` in lexicographic order.
pub open spec fn text_lt(a: Seq<char>, b: Seq<char>) -> bool {
    exists|i: int| lt_at(a, b, i)
}

/// Nothing comes before itself.
pub proof fn lemma_text_lt_irreflexive(a: Seq<char>)
    ensures
        !text_lt(a, a),
{
}

/// The order is transitive.
pub proof fn lemma_text_lt_transitive(a: Seq<char>, b: Seq<char>, c: Seq<char>)
    requires
        text_lt(a, b),
        text_lt(b, c),
    ensures
        text_lt(a, c),
{
    let i = choose|i: int| lt_at(a, b, i);
    let k = choose|k: int| lt_at(b, c, k);
    if i < k {
        assert(lt_at(a, c, i));
    } else if k < i {
        assert(a[k] == b[k]);
        assert(lt_at(a, c, k));
    } else {
        assert(lt_at(a, c, i));
    }
}

/// Two different texts are ordered one way or the other.
pub proof fn lemma_text_lt_total(a: Seq<char>, b: Seq<char>)
    ensures
        a == b || text_lt(a, b) || text_lt(b, a),
    decreases a.len(),
{
    if a.len() == 0 {
        if b.len() == 0 {
            assert(a =~= b);
        } else {
            assert(lt_at(a, b, 0));
        }
    } else if b.len() == 0 {
        assert(lt_at(b, a, 0));
    } else if a[0] != b[0] {
        if (a[0] as int) < (b[0] as int) {
            assert(lt_at(a, b, 0));
        } else {
            assert(lt_at(b, a, 0));
        }
    } else {
        let a1 = a.drop_first();
        let b1 = b.drop_first();
        lemma_text_lt_total(a1, b1);
        if a1 == b1 {
            assert forall|k: int| 0 <= k < a.len() implies a[k] == b[k] by {
                if k > 0 {
                    assert(a[k] == a1[k - 1]);
                    assert(b[k] == b1[k - 1]);
                }
            }
            assert(a =~= b);
        } else if text_lt(a1, b1) {
            let i = choose|i: int| lt_at(a1, b1, i);
            assert forall|j: int| 0 <= j < i + 1 implies a[j] == b[j] by {
                if j > 0 {
                    assert(a[j] == a1[j - 1]);
                    assert(b[j] == b1[j - 1]);
                }
            }
            if i < a1.len() {
                assert(a[i + 1] == a1[i]);
            }
            if i < b1.len() {
                assert(b[i + 1] == b1[i]);
            }
            assert(lt_at(a, b, i + 1));
        } else {
            let i = choose|i: int| lt_at(b1, a1, i);
            assert forall|j: int| 0 <= j < i + 1 implies b[j] == a[j] by {
                if j > 0 {
                    assert(b[j] == b1[j - 1]);
                    assert(a[j] == a1[j - 1]);
                }
            }
            if i < b1.len() {
                assert(b[i + 1] == b1[i]);
            }
            if i < a1.len() {
                assert(a[i + 1] == a1[i]);
            }
            assert(lt_at(b, a, i + 1));
        }
    }
}

/// Whether `a` comes strictly before `b`.
pub fn text_less(a: &str, b: &str) -> (r: bool)
    ensures
        r == text_lt(a@, b@),
{
    let n = a.unicode_len();
    let m = b.unicode_len();
    let mut i: usize = 0;
    while i < n && i < m
        invariant
            n == a@.len(),
            m == b@.len(),
            agree_upto(a@, b@, i as int),
        decreases n - i,
    {
        let x = a.get_char(i);
        let y = b.get_char(i);
        if x != y {
            let r = (x as u32) < (y as u32);
            proof {
                if r {
                    assert(lt_at(a@, b@, i as int));
                } else {
                    assert forall|k: int| !lt_at(a@, b@, k) by {
                        if lt_at(a@, b@, k) && k > i {
                            assert(a@[i as int] == b@[i as int]);
                        }
                    }
                }
            }
            return r;
        }
        i = i + 1;
    }
    let r = n < m;
    proof {
        if r {
            assert(lt_at(a@, b@, i as int));
        } else {
            assert forall|k: int| !lt_at(a@, b@, k) by {}
        }
    }
    r
}

/// The texts of a list of strings.
pub open spec fn texts(v: Seq<String>) -> Seq<Seq<char>> {
    v.map_values(|s: String| s@)
}

/// Each text comes strictly before every later one.
pub open spec fn strictly_sorted(s: Seq<Seq<char>>) -> bool {
    forall|i: int, j: int| 0 <= i < j < s.len() ==> text_lt(#[trigger] s[i], #[trigger] s[j])
}

/// `i` is where `x` belongs in `l`: everything before it comes before `x`,
/// and the text at it (if any) does not.
pub open spec fn pos_ok(l: Seq<Seq<char>>, x: Seq<char>, i: int) -> bool {
    &&& 0 <= i <= l.len()
    &&& forall|j: int| 0 <= j < i ==> text_lt(#[trigger] l[j], x)
    &&& i < l.len() ==> !text_lt(l[i], x)
}

/// Where `x` belongs in `l`.
pub open spec fn insert_pos(l: Seq<Seq<char>>, x: Seq<char>) -> int {
    choose|i: int| pos_ok(l, x, i)
}

/// `l` with `x` put in its place, unless it is already there.
pub open spec fn sorted_insert(l: Seq<Seq<char>>, x: Seq<char>) -> Seq<Seq<char>> {
    let i = insert_pos(l, x);
    if i < l.len() && l[i] == x {
        l
    } else {
        l.insert(i, x)
    }
}

/// Only one place fits.
pub proof fn lemma_pos_unique(l: Seq<Seq<char>>, x: Seq<char>, i: int, k: int)
    requires
        pos_ok(l, x, i),
        pos_ok(l, x, k),
    ensures
        i == k,
{
    if i < k {
        assert(text_lt(l[i], x));
    } else if k < i {
        assert(text_lt(l[k], x));
    }
}

/// Some place fits.
pub proof fn lemma_pos_exists(l: Seq<Seq<char>>, x: Seq<char>)
    ensures
        pos_ok(l, x, insert_pos(l, x)),
    decreases l.len(),
{
    if l.len() == 0 {
        assert(pos_ok(l, x, 0));
    } else {
        let d = l.drop_last();
        lemma_pos_exists(d, x);
        let i = insert_pos(d, x);
        assert forall|j: int| 0 <= j < i implies text_lt(#[trigger] l[j], x) by {
            assert(d[j] == l[j]);
        }
        if i < d.len() {
            assert(l[i] == d[i]);
            assert(pos_ok(l, x, i));
        } else if text_lt(l[l.len() - 1], x) {
            assert(pos_ok(l, x, l.len() as int));
        } else {
            assert(pos_ok(l, x, l.len() - 1));
        }
    }
}

/// The place of a text in a sorted list that holds it is its own index.
pub proof fn lemma_pos_of_member(l: Seq<Seq<char>>, k: int)
    requires
        strictly_sorted(l),
        0 <= k < l.len(),
    ensures
        insert_pos(l, l[k]) == k,
        sorted_insert(l, l[k]) == l,
{
    lemma_text_lt_irreflexive(l[k]);
    assert(pos_ok(l, l[k], k));
    lemma_pos_exists(l, l[k]);
    lemma_pos_unique(l, l[k], k, insert_pos(l, l[k]));
}

/// Inserting keeps a list strictly sorted, adds `x` and nothing else.
pub proof fn lemma_sorted_insert(l: Seq<Seq<char>>, x: Seq<char>)
    requires
        strictly_sorted(l),
    ensures
        strictly_sorted(sorted_insert(l, x)),
        sorted_insert(l, x).to_set() == l.to_set().insert(x),
        l.contains(x) ==> sorted_insert(l, x) == l,
        !l.contains(x) ==> sorted_insert(l, x).len() == l.len() + 1,
{
    lemma_pos_exists(l, x);
    let i = insert_pos(l, x);
    if l.contains(x) {
        let k = choose|k: int| 0 <= k < l.len() && l[k] == x;
        lemma_pos_of_member(l, k);
        assert(l.to_set().insert(x) =~= l.to_set());
    }
    if i < l.len() && l[i] == x {
        assert(l.to_set().insert(x) =~= l.to_set());
    } else {
        let r = l.insert(i, x);
        if i < l.len() {
            lemma_text_lt_total(l[i], x);
        }
        assert forall|a: int, b: int| 0 <= a < b < r.len() implies text_lt(#[trigger] r[a], #[trigger] r[b]) by {
            if b < i {
                assert(r[a] == l[a] && r[b] == l[b]);
            } else if b == i {
                assert(r[a] == l[a]);
            } else if a < i {
                assert(r[a] == l[a] && r[b] == l[b - 1]);
                if b - 1 > i {
                    lemma_text_lt_transitive(l[a], x, l[i]);
                    lemma_text_lt_transitive(l[a], l[i], l[b - 1]);
                }
                if b - 1 == i {
                    lemma_text_lt_transitive(l[a], x, l[i]);
                }
            } else if a == i {
                assert(r[b] == l[b - 1]);
                if b - 1 > i {
                    lemma_text_lt_transitive(x, l[i], l[b - 1]);
                }
            } else {
                assert(r[a] == l[a - 1] && r[b] == l[b - 1]);
            }
        }
        assert forall|y: Seq<char>| r.to_set().contains(y) <==> l.to_set().insert(x).contains(y) by {
            if r.contains(y) {
                let k = choose|k: int| 0 <= k < r.len() && r[k] == y;
                if k < i {
                    assert(l[k] == y);
                } else if k > i {
                    assert(l[k - 1] == y);
                }
            }
            if l.contains(y) {
                let k = choose|k: int| 0 <= k < l.len() && l[k] == y;
                if k < i {
                    assert(r[k] == y);
                } else {
                    assert(r[k + 1] == y);
                }
            }
            if y == x {
                assert(r[i] == x);
            }
        }
        assert(r.to_set() =~= l.to_set().insert(x));
        if l.contains(x) {
            let k = choose|k: int| 0 <= k < l.len() && l[k] == x;
            lemma_pos_of_member(l, k);
        }
    }
}

/// Putting `x` where it belongs a second time changes nothing.
pub proof fn lemma_sorted_insert_twice(l: Seq<Seq<char>>, x: Seq<char>)
    ensures
        sorted_insert(sorted_insert(l, x), x) == sorted_insert(l, x),
{
    lemma_pos_exists(l, x);
    let i = insert_pos(l, x);
    let r = sorted_insert(l, x);
    lemma_text_lt_irreflexive(x);
    if !(i < l.len() && l[i] == x) {
        assert(pos_ok(r, x, i));
    } else {
        assert(pos_ok(r, x, i));
    }
    lemma_pos_exists(r, x);
    lemma_pos_unique(r, x, i, insert_pos(r, x));
}

/// Put `x` in its place in the sorted list `v`, unless it is already there.
pub fn insert_sorted(v: &mut Vec<String>, x: &str)
    ensures
        texts(final(v)@) == sorted_insert(texts(old(v)@), x@),
{
    let ghost l = texts(v@);
    let mut i: usize = 0;
    while i < v.len() && text_less(v[i].as_str(), x)
        invariant
            l == texts(v@),
            i <= v@.len(),
            forall|j: int| 0 <= j < i ==> text_lt(#[trigger] l[j], x@),
        decreases v@.len() - i,
    {
        i = i + 1;
    }
    proof {
        assert(pos_ok(l, x@, i as int));
        lemma_pos_exists(l, x@);
        lemma_pos_unique(l, x@, i as int, insert_pos(l, x@));
    }
    if i < v.len() && str_eq(v[i].as_str(), x) {
        return;
    }
    v.insert(i, owned(x));
    proof {
        assert(texts(v@) =~= l.insert(i as int, x@));
    }
}

/// Whether the list `v` holds the text `x`.
pub fn contains_text(v: &Vec<String>, x: &str) -> (r: bool)
    ensures
        r == texts(v@).contains(x@),
{
    let mut i: usize = 0;
    while i < v.len()
        invariant
            i <= v@.len(),
            forall|j: int| 0 <= j < i ==> (#[trigger] v@[j])@ != x@,
        decreases v@.len() - i,
    {
        if str_eq(v[i].as_str(), x) {
            proof {
                assert(texts(v@)[i as int] == x@);
            }
            return true;
        }
        i = i + 1;
    }
    proof {
        if texts(v@).contains(x@) {
            let k = choose|k: int| 0 <= k < texts(v@).len() && texts(v@)[k] == x@;
            assert(v@[k]@ == x@);
        }
    }
    false
}

} // verus!
