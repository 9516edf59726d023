//! Laws that relate the operations of a [`StateRegistry`](super::StateRegistry).
//!
//! Each law is stated over the stack of maps that the registry's view is (top-most first),
//! in the exact form in which the operations' contracts describe their effect: an insertion
//! into the top-most map is `s.update(0, s[0].insert(key, value))`, a removal at depth `d` is
//! `s.update(d, s[d].remove(key))`, pushing a child is `seq![Map::empty()] + s` and popping
//! it is `s.drop_first()`.

use vstd::prelude::*;

use super::{depth_of, lemma_depth_of, lemma_depth_of_unique, lookup, stack_has, TypeKey};

verus! {

/// Two stacks that agree, level by level, on whether and what they hold for `key` give the
/// same result for every lookup of `key`.
pub(crate) proof fn lemma_agree_on_key<S>(s: Seq<Map<TypeKey, S>>, t: Seq<Map<TypeKey, S>>, key: TypeKey)
    requires
        s.len() == t.len(),
        forall|j: int|
            0 <= j < s.len() ==> (#[trigger] s[j].contains_key(key) <==> t[j].contains_key(key)),
        forall|j: int|
            0 <= j < s.len() && #[trigger] s[j].contains_key(key) ==> s[j][key] == t[j][key],
    ensures
        depth_of(s, key) == depth_of(t, key),
        lookup(s, key) == lookup(t, key),
        stack_has(s, key) == stack_has(t, key),
    decreases s.len(),
{
    if s.len() > 0 {
        let s1 = s.drop_first();
        let t1 = t.drop_first();
        assert forall|j: int| 0 <= j < s1.len() implies (#[trigger] s1[j].contains_key(key)
            <==> t1[j].contains_key(key)) by {
            assert(s1[j] == s[j + 1] && t1[j] == t[j + 1]);
        }
        assert forall|j: int| 0 <= j < s1.len() && #[trigger] s1[j].contains_key(key) implies s1[j][key]
            == t1[j][key] by {
            assert(s1[j] == s[j + 1] && t1[j] == t[j + 1]);
        }
        lemma_agree_on_key(s1, t1, key);
        assert(s[0].contains_key(key) <==> t[0].contains_key(key));
        lemma_depth_of(s, key);
    }
}

/// What is inserted is what a lookup of its key finds afterwards: an insertion into the
/// top-most map takes precedence over every map below it.
pub proof fn law_insert_then_lookup<S>(s: Seq<Map<TypeKey, S>>, key: TypeKey, value: S)
    requires
        s.len() >= 1,
    ensures
        lookup(s.update(0, s[0].insert(key, value)), key) == Some(value),
        stack_has(s.update(0, s[0].insert(key, value)), key),
{
    let t = s.update(0, s[0].insert(key, value));
    lemma_depth_of_unique(t, key, 0);
}

/// Inserting state of one key leaves what a lookup of any other key finds unchanged.
pub proof fn law_insert_other_key<S>(
    s: Seq<Map<TypeKey, S>>,
    key: TypeKey,
    value: S,
    other: TypeKey,
)
    requires
        s.len() >= 1,
        other != key,
    ensures
        lookup(s.update(0, s[0].insert(key, value)), other) == lookup(s, other),
        stack_has(s.update(0, s[0].insert(key, value)), other) == stack_has(s, other),
{
    let t = s.update(0, s[0].insert(key, value));
    assert forall|j: int| 0 <= j < t.len() implies (#[trigger] t[j].contains_key(other)
        <==> s[j].contains_key(other)) by {}
    lemma_agree_on_key(t, s, other);
}

/// State in the top-most registry is always found: `contains` implies `has`.
pub proof fn law_contains_implies_has<S>(s: Seq<Map<TypeKey, S>>, key: TypeKey)
    requires
        s.len() >= 1,
        s[0].contains_key(key),
    ensures
        stack_has(s, key),
        lookup(s, key) == Some(s[0][key]),
{
    lemma_depth_of_unique(s, key, 0);
}

/// Shadowing: state inserted into a freshly pushed child registry is what lookups find, and
/// popping the child restores the parent registry exactly as it was.
pub proof fn law_shadow_then_pop<S>(s: Seq<Map<TypeKey, S>>, key: TypeKey, value: S)
    ensures
        ({
            let c = seq![Map::<TypeKey, S>::empty()] + s;
            let c2 = c.update(0, c[0].insert(key, value));
            &&& lookup(c2, key) == Some(value)
            &&& c2.drop_first() == s
        }),
{
    let c = seq![Map::<TypeKey, S>::empty()] + s;
    let c2 = c.update(0, c[0].insert(key, value));
    law_insert_then_lookup(c, key, value);
    assert(c2.drop_first() =~= s);
}

/// Removing what was just inserted into the top-most registry, where the key was absent,
/// hands the inserted state back and restores the registry exactly.
pub proof fn law_insert_then_remove<S>(s: Seq<Map<TypeKey, S>>, key: TypeKey, value: S)
    requires
        s.len() >= 1,
        !s[0].contains_key(key),
    ensures
        ({
            let t = s.update(0, s[0].insert(key, value));
            &&& depth_of(t, key) == Some(0nat)
            &&& t[0][key] == value
            &&& t.update(0, t[0].remove(key)) == s
        }),
{
    let t = s.update(0, s[0].insert(key, value));
    lemma_depth_of_unique(t, key, 0);
    assert(t[0].remove(key) =~= s[0]);
    assert(t.update(0, t[0].remove(key)) =~= s);
}

/// Removing state from the registry that holds it uncovers the state of the same key that it
/// shadowed, if any: afterwards a lookup finds what a lookup below that registry found.
pub proof fn law_remove_uncovers<S>(s: Seq<Map<TypeKey, S>>, key: TypeKey)
    requires
        stack_has(s, key),
    ensures
        ({
            let d = depth_of(s, key)->0 as int;
            let t = s.update(d, s[d].remove(key));
            &&& lookup(t, key) == lookup(s.skip(d + 1), key)
            &&& stack_has(t, key) == stack_has(s.skip(d + 1), key)
        }),
{
    lemma_depth_of(s, key);
    let d = depth_of(s, key)->0 as int;
    let t = s.update(d, s[d].remove(key));
    let u = s.skip(d + 1);
    lemma_depth_of(u, key);
    lemma_depth_of(t, key);
    if depth_of(u, key) is Some {
        let e = depth_of(u, key)->0 as int;
        assert(t[d + 1 + e] == u[e]);
        assert forall|j: int| 0 <= j < d + 1 + e implies !#[trigger] t[j].contains_key(key) by {
            if j > d {
                assert(t[j] == u[j - d - 1]);
            }
        }
        lemma_depth_of_unique(t, key, d + 1 + e);
    } else {
        assert forall|j: int| 0 <= j < t.len() implies !#[trigger] t[j].contains_key(key) by {
            if j > d {
                assert(t[j] == u[j - d - 1]);
            }
        }
        if depth_of(t, key) is Some {
            let e = depth_of(t, key)->0 as int;
            assert(t[e].contains_key(key));
        }
    }
}

/// Setting the value of a key changes no key's presence, and what a lookup of that key finds
/// afterwards is the new value if the key was present at all.
pub proof fn law_set_value<S>(s: Seq<Map<TypeKey, S>>, key: TypeKey, value: S, other: TypeKey)
    requires
        stack_has(s, key),
    ensures
        ({
            let d = depth_of(s, key)->0 as int;
            let t = s.update(d, s[d].insert(key, value));
            &&& lookup(t, key) == Some(value)
            &&& stack_has(t, other) == stack_has(s, other)
        }),
{
    lemma_depth_of(s, key);
    let d = depth_of(s, key)->0 as int;
    let t = s.update(d, s[d].insert(key, value));
    assert forall|j: int| 0 <= j < d implies !#[trigger] t[j].contains_key(key) by {}
    lemma_depth_of_unique(t, key, d);
    if other != key {
        assert forall|j: int| 0 <= j < t.len() implies (#[trigger] t[j].contains_key(other)
            <==> s[j].contains_key(other)) by {}
        lemma_agree_on_key(t, s, other);
    } else {
        lemma_depth_of(t, key);
    }
}

} // verus!
