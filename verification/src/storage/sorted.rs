//! Sorted, duplicate-free lists standing for sets and maps: the order of
//! strings, and the map that a list of (key, value) pairs stands for.

use vstd::prelude::*;

use crate::text::chars_of;

verus! {

/// Lexicographic order of character sequences by code point, which is the
/// order of `String`'s `Ord` (the bytewise order of UTF-8).
pub open spec fn lex_lt(a: Seq<char>, b: Seq<char>) -> bool
    decreases a.len(),
{
    if a.len() == 0 {
        b.len() > 0
    } else if b.len() == 0 {
        false
    } else if (a[0] as int) < (b[0] as int) {
        true
    } else if a[0] == b[0] {
        lex_lt(a.drop_first(), b.drop_first())
    } else {
        false
    }
}

/// No sequence comes before itself.
pub proof fn lemma_lex_irreflexive(a: Seq<char>)
    ensures
        !lex_lt(a, a),
    decreases a.len(),
{
    if a.len() > 0 {
        lemma_lex_irreflexive(a.drop_first());
    }
}

/// The order is transitive.
pub proof fn lemma_lex_transitive(a: Seq<char>, b: Seq<char>, c: Seq<char>)
    requires
        lex_lt(a, b),
        lex_lt(b, c),
    ensures
        lex_lt(a, c),
    decreases a.len(),
{
    if a.len() > 0 && b.len() > 0 && c.len() > 0 {
        if a[0] == b[0] && b[0] == c[0] {
            lemma_lex_transitive(a.drop_first(), b.drop_first(), c.drop_first());
        }
    }
}

/// Two different sequences are ordered one way or the other.
pub proof fn lemma_lex_total(a: Seq<char>, b: Seq<char>)
    requires
        a != b,
    ensures
        lex_lt(a, b) || lex_lt(b, a),
    decreases a.len(),
{
    if a.len() == 0 {
        assert(b.len() > 0) by {
            if b.len() == 0 {
                assert(a =~= b);
            }
        }
    } else if b.len() > 0 && a[0] == b[0] {
        if a.drop_first() == b.drop_first() {
            assert(a =~= seq![a[0]] + a.drop_first());
            assert(b =~= seq![b[0]] + b.drop_first());
        }
        lemma_lex_total(a.drop_first(), b.drop_first());
    } else if b.len() > 0 {
        assert((a[0] as int) != (b[0] as int));
    }
}

/// Every element comes strictly before every later one.
pub open spec fn strictly_sorted(s: Seq<Seq<char>>) -> bool {
    forall|i: int, j: int| 0 <= i < j < s.len() ==> lex_lt(#[trigger] s[i], #[trigger] s[j])
}

/// A strictly sorted sequence holds no element twice.
pub proof fn lemma_sorted_no_duplicates(s: Seq<Seq<char>>)
    requires
        strictly_sorted(s),
    ensures
        s.no_duplicates(),
{
    assert forall|i: int, j: int| 0 <= i < s.len() && 0 <= j < s.len() && i != j implies s[i]
        != s[j] by {
        if i < j {
            assert(lex_lt(s[i], s[j]));
            lemma_lex_irreflexive(s[i]);
        } else {
            assert(lex_lt(s[j], s[i]));
            lemma_lex_irreflexive(s[j]);
        }
    }
}

/// Whether `a` comes strictly before `b`.
pub fn chars_lt(a: &Vec<char>, b: &Vec<char>) -> (r: bool)
    ensures
        r == lex_lt(a@, b@),
{
    let mut i: usize = 0;
    assert(a@.skip(0) =~= a@);
    assert(b@.skip(0) =~= b@);
    while i < a.len() && i < b.len() && a[i] == b[i]
        invariant
            i <= a@.len(),
            i <= b@.len(),
            lex_lt(a@, b@) == lex_lt(a@.skip(i as int), b@.skip(i as int)),
        decreases a@.len() - i,
    {
        assert(a@.skip(i + 1) =~= a@.skip(i as int).drop_first());
        assert(b@.skip(i + 1) =~= b@.skip(i as int).drop_first());
        i = i + 1;
    }
    let ghost x = a@.skip(i as int);
    let ghost y = b@.skip(i as int);
    assert(x.len() == a@.len() - i);
    assert(y.len() == b@.len() - i);
    if i == a.len() {
        i < b.len()
    } else if i == b.len() {
        false
    } else {
        let ca = a[i];
        let cb = b[i];
        assert(x[0] == a@[i as int]);
        assert(y[0] == b@[i as int]);
        let r = ca < cb;
        assert(r == ((ca as int) < (cb as int)));
        r
    }
}

/// Whether `a` comes strictly before `b`.
pub fn str_lt(a: &str, b: &str) -> (r: bool)
    ensures
        r == lex_lt(a@, b@),
{
    let x = chars_of(a);
    let y = chars_of(b);
    chars_lt(&x, &y)
}

/// The map that a list of (key, value) pairs stands for (a later pair
/// wins over an earlier one with the same key).
pub open spec fn assoc<K, V>(s: Seq<(K, V)>) -> Map<K, V>
    decreases s.len(),
{
    if s.len() == 0 {
        Map::empty()
    } else {
        assoc(s.drop_last()).insert(s.last().0, s.last().1)
    }
}

/// The keys of a list of pairs.
pub open spec fn keys<K, V>(s: Seq<(K, V)>) -> Seq<K> {
    s.map_values(|p: (K, V)| p.0)
}

/// The map of a list holds exactly the list's keys.
pub proof fn lemma_assoc_dom<K, V>(s: Seq<(K, V)>)
    ensures
        assoc(s).dom() == keys(s).to_set(),
    decreases s.len(),
{
    if s.len() > 0 {
        lemma_assoc_dom(s.drop_last());
        assert(keys(s) =~= keys(s.drop_last()).push(s.last().0));
        keys(s.drop_last()).lemma_push_to_set_commute(s.last().0);
    } else {
        assert(keys(s).to_set() =~= Set::empty());
    }
    assert(assoc(s).dom() =~= keys(s).to_set());
}

/// With no key twice, the map of a list gives each pair's value for its
/// key.
pub proof fn lemma_assoc_lookup<K, V>(s: Seq<(K, V)>, i: int)
    requires
        keys(s).no_duplicates(),
        0 <= i < s.len(),
    ensures
        assoc(s).contains_key(s[i].0),
        assoc(s)[s[i].0] == s[i].1,
    decreases s.len(),
{
    if i < s.len() - 1 {
        assert(keys(s.drop_last()) =~= keys(s).drop_last());
        assert(keys(s)[i] != keys(s)[s.len() - 1]);
        lemma_assoc_lookup(s.drop_last(), i);
    }
}

/// With no key twice, the map of a list is the map that holds exactly its
/// keys and gives each pair's value for its key.
pub proof fn lemma_assoc_is<K, V>(s: Seq<(K, V)>, m: Map<K, V>)
    requires
        keys(s).no_duplicates(),
        m.dom() == keys(s).to_set(),
        forall|i: int| 0 <= i < s.len() ==> #[trigger] m[s[i].0] == s[i].1,
    ensures
        assoc(s) == m,
{
    lemma_assoc_dom(s);
    assert forall|k: K| #[trigger] m.contains_key(k) implies assoc(s)[k] == m[k] by {
        assert(keys(s).contains(k));
        let i = choose|i: int| 0 <= i < keys(s).len() && keys(s)[i] == k;
        lemma_assoc_lookup(s, i);
    }
    assert(assoc(s) =~= m);
}

/// Inserting at `j` an element that fits between its neighbours keeps a
/// sequence strictly sorted.
pub proof fn lemma_sorted_insert(s: Seq<Seq<char>>, j: int, x: Seq<char>)
    requires
        strictly_sorted(s),
        0 <= j <= s.len(),
        forall|k: int| 0 <= k < j ==> lex_lt(#[trigger] s[k], x),
        j < s.len() ==> lex_lt(x, s[j]),
    ensures
        strictly_sorted(s.insert(j, x)),
        !s.contains(x),
{
    let t = s.insert(j, x);
    assert forall|a: int, b: int| 0 <= a < b < t.len() implies lex_lt(#[trigger] t[a], #[trigger] t[b]) by {
        if b < j {
            assert(t[a] == s[a] && t[b] == s[b]);
        } else if b == j {
            assert(t[a] == s[a]);
        } else if a == j {
            assert(t[b] == s[b - 1]);
            if b - 1 > j {
                assert(lex_lt(s[j], s[b - 1]));
                lemma_lex_transitive(x, s[j], s[b - 1]);
            }
        } else if a < j {
            assert(t[a] == s[a] && t[b] == s[b - 1]);
        } else {
            assert(t[a] == s[a - 1] && t[b] == s[b - 1]);
        }
    }
    if s.contains(x) {
        let k = choose|k: int| 0 <= k < s.len() && s[k] == x;
        lemma_lex_irreflexive(x);
        if k > j {
            assert(lex_lt(s[j], s[k]));
            lemma_lex_transitive(x, s[j], s[k]);
        }
    }
}

/// Removing an element keeps a sequence strictly sorted.
pub proof fn lemma_sorted_remove(s: Seq<Seq<char>>, j: int)
    requires
        strictly_sorted(s),
        0 <= j < s.len(),
    ensures
        strictly_sorted(s.remove(j)),
{
    let t = s.remove(j);
    assert forall|a: int, b: int| 0 <= a < b < t.len() implies lex_lt(#[trigger] t[a], #[trigger] t[b]) by {
        if b < j {
        } else if a < j {
            assert(t[b] == s[b + 1]);
        } else {
            assert(t[a] == s[a + 1] && t[b] == s[b + 1]);
        }
    }
}

/// The elements after inserting `x` are the elements before, and `x`.
pub proof fn lemma_insert_to_set<A>(s: Seq<A>, j: int, x: A)
    requires
        0 <= j <= s.len(),
    ensures
        s.insert(j, x).to_set() == s.to_set().insert(x),
{
    let t = s.insert(j, x);
    assert forall|y: A| t.to_set().contains(y) <==> s.to_set().insert(x).contains(y) by {
        if t.contains(y) {
            let k = choose|k: int| 0 <= k < t.len() && t[k] == y;
            if k < j {
                assert(s[k] == y);
            } else if k > j {
                assert(s[k - 1] == y);
            }
        }
        if s.contains(y) {
            let k = choose|k: int| 0 <= k < s.len() && s[k] == y;
            if k < j {
                assert(t[k] == y);
            } else {
                assert(t[k + 1] == y);
            }
        }
        if y == x {
            assert(t[j] == x);
        }
    }
    assert(t.to_set() =~= s.to_set().insert(x));
}

/// The elements after removing the one at `j` of a sequence without
/// repetitions are the elements before, without it.
pub proof fn lemma_remove_to_set<A>(s: Seq<A>, j: int)
    requires
        s.no_duplicates(),
        0 <= j < s.len(),
    ensures
        s.remove(j).to_set() == s.to_set().remove(s[j]),
{
    let t = s.remove(j);
    assert forall|y: A| t.to_set().contains(y) <==> s.to_set().remove(s[j]).contains(y) by {
        if t.contains(y) {
            let k = choose|k: int| 0 <= k < t.len() && t[k] == y;
            if k < j {
                assert(s[k] == y);
            } else {
                assert(s[k + 1] == y);
            }
        }
        if s.contains(y) && y != s[j] {
            let k = choose|k: int| 0 <= k < s.len() && s[k] == y;
            if k < j {
                assert(t[k] == y);
            } else {
                assert(k != j);
                assert(t[k - 1] == y);
            }
        }
    }
    assert(t.to_set() =~= s.to_set().remove(s[j]));
}

/// Inserting a pair with a new key into a list adds it to the list's map.
pub proof fn lemma_assoc_insert<K, V>(s: Seq<(K, V)>, j: int, p: (K, V))
    requires
        keys(s).no_duplicates(),
        !keys(s).contains(p.0),
        0 <= j <= s.len(),
    ensures
        keys(s.insert(j, p)).no_duplicates(),
        assoc(s.insert(j, p)) == assoc(s).insert(p.0, p.1),
{
    let t = s.insert(j, p);
    assert(keys(t) =~= keys(s).insert(j, p.0));
    assert forall|a: int, b: int| 0 <= a < keys(t).len() && 0 <= b < keys(t).len() && a != b
        implies keys(t)[a] != keys(t)[b] by {
        if a == j {
            if b < j {
                assert(keys(s)[b] == keys(t)[b]);
            } else {
                assert(keys(s)[b - 1] == keys(t)[b]);
            }
        } else if b == j {
            if a < j {
                assert(keys(s)[a] == keys(t)[a]);
            } else {
                assert(keys(s)[a - 1] == keys(t)[a]);
            }
        }
    }
    lemma_assoc_dom(s);
    lemma_insert_to_set(keys(s), j, p.0);
    let m = assoc(s).insert(p.0, p.1);
    assert forall|i: int| 0 <= i < t.len() implies #[trigger] m[t[i].0] == t[i].1 by {
        if i < j {
            lemma_assoc_lookup(s, i);
            assert(t[i] == s[i]);
            assert(keys(s)[i] != p.0);
        } else if i > j {
            lemma_assoc_lookup(s, i - 1);
            assert(t[i] == s[i - 1]);
            assert(keys(s)[i - 1] != p.0);
        }
    }
    lemma_assoc_is(t, m);
}

/// Replacing a pair's value in a list replaces it in the list's map.
pub proof fn lemma_assoc_update<K, V>(s: Seq<(K, V)>, j: int, v: V)
    requires
        keys(s).no_duplicates(),
        0 <= j < s.len(),
    ensures
        keys(s.update(j, (s[j].0, v))) == keys(s),
        assoc(s.update(j, (s[j].0, v))) == assoc(s).insert(s[j].0, v),
{
    let t = s.update(j, (s[j].0, v));
    assert(keys(t) =~= keys(s));
    lemma_assoc_dom(s);
    assert(keys(s).contains(s[j].0)) by {
        assert(keys(s)[j] == s[j].0);
    }
    let m = assoc(s).insert(s[j].0, v);
    assert(m.dom() =~= keys(t).to_set());
    assert forall|i: int| 0 <= i < t.len() implies #[trigger] m[t[i].0] == t[i].1 by {
        if i != j {
            lemma_assoc_lookup(s, i);
            assert(keys(s)[i] != keys(s)[j]);
        }
    }
    lemma_assoc_is(t, m);
}

/// Removing a pair from a list removes its key from the list's map.
pub proof fn lemma_assoc_remove<K, V>(s: Seq<(K, V)>, j: int)
    requires
        keys(s).no_duplicates(),
        0 <= j < s.len(),
    ensures
        keys(s.remove(j)).no_duplicates(),
        assoc(s.remove(j)) == assoc(s).remove(s[j].0),
{
    let t = s.remove(j);
    assert(keys(t) =~= keys(s).remove(j));
    assert forall|a: int, b: int| 0 <= a < keys(t).len() && 0 <= b < keys(t).len() && a != b
        implies keys(t)[a] != keys(t)[b] by {
        let a2 = if a < j { a } else { a + 1 };
        let b2 = if b < j { b } else { b + 1 };
        assert(keys(t)[a] == keys(s)[a2]);
        assert(keys(t)[b] == keys(s)[b2]);
    }
    lemma_assoc_dom(s);
    lemma_remove_to_set(keys(s), j);
    let m = assoc(s).remove(s[j].0);
    assert(m.dom() =~= keys(t).to_set()) by {
        assert(keys(s)[j] == s[j].0);
    }
    assert forall|i: int| 0 <= i < t.len() implies #[trigger] m[t[i].0] == t[i].1 by {
        let i2 = if i < j { i } else { i + 1 };
        lemma_assoc_lookup(s, i2);
        assert(t[i] == s[i2]);
        assert(keys(s)[i2] != keys(s)[j]);
    }
    lemma_assoc_is(t, m);
}

} // verus!
