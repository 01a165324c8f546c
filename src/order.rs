//! The lexicographic order of sensor keys, in which pages list the keys that
//! one template matched.

use vstd::prelude::*;
use vstd::relations::{sorted_by, total_ordering};

verus! {

/// `a` comes no later than `b` when compared character by character, a
/// proper prefix first. This is the order of `String`'s `Ord`, as UTF-8 keeps
/// the order of code points in its bytes.
pub open spec fn key_le(a: Seq<char>, b: Seq<char>) -> bool
    decreases a.len(),
{
    if a.len() == 0 {
        true
    } else if b.len() == 0 {
        false
    } else if a[0] != b[0] {
        a[0] < b[0]
    } else {
        key_le(a.drop_first(), b.drop_first())
    }
}

pub open spec fn key_order() -> spec_fn(Seq<char>, Seq<char>) -> bool {
    |a: Seq<char>, b: Seq<char>| key_le(a, b)
}

proof fn lemma_key_le_reflexive(a: Seq<char>)
    ensures
        key_le(a, a),
    decreases a.len(),
{
    if a.len() > 0 {
        lemma_key_le_reflexive(a.drop_first());
    }
}

proof fn lemma_key_le_antisymmetric(a: Seq<char>, b: Seq<char>)
    requires
        key_le(a, b),
        key_le(b, a),
    ensures
        a == b,
    decreases a.len(),
{
    if a.len() > 0 && b.len() > 0 {
        lemma_key_le_antisymmetric(a.drop_first(), b.drop_first());
        assert(a =~= seq![a[0]] + a.drop_first());
        assert(b =~= seq![b[0]] + b.drop_first());
    }
}

proof fn lemma_key_le_transitive(a: Seq<char>, b: Seq<char>, c: Seq<char>)
    requires
        key_le(a, b),
        key_le(b, c),
    ensures
        key_le(a, c),
    decreases a.len(),
{
    if a.len() > 0 && b.len() > 0 && c.len() > 0 && a[0] == b[0] && b[0] == c[0] {
        lemma_key_le_transitive(a.drop_first(), b.drop_first(), c.drop_first());
    }
}

proof fn lemma_key_le_connected(a: Seq<char>, b: Seq<char>)
    ensures
        key_le(a, b) || key_le(b, a),
    decreases a.len(),
{
    if a.len() > 0 && b.len() > 0 && a[0] == b[0] {
        lemma_key_le_connected(a.drop_first(), b.drop_first());
    }
}

/// The key order is a total order.
pub proof fn lemma_key_order_total()
    ensures
        total_ordering(key_order()),
{
    assert forall|a: Seq<char>| #[trigger] key_order()(a, a) by {
        lemma_key_le_reflexive(a);
    }
    assert forall|a: Seq<char>, b: Seq<char>|
        #[trigger] key_order()(a, b) && #[trigger] key_order()(b, a) implies a == b by {
        lemma_key_le_antisymmetric(a, b);
    }
    assert forall|a: Seq<char>, b: Seq<char>, c: Seq<char>|
        #[trigger] key_order()(a, b) && #[trigger] key_order()(b, c) implies key_order()(a, c) by {
        lemma_key_le_transitive(a, b, c);
    }
    assert forall|a: Seq<char>, b: Seq<char>| #[trigger] key_order()(a, b) || #[trigger] key_order()(b, a) by {
        lemma_key_le_connected(a, b);
    }
}

/// Whether `s` lists the keys of `keys`, each once, in key order.
pub open spec fn lists_sorted(s: Seq<Seq<char>>, keys: Set<Seq<char>>) -> bool {
    s.no_duplicates() && s.to_set() == keys && sorted_by(s, key_order())
}

/// The keys of a finite set, each once, in key order.
pub open spec fn sorted_keys(keys: Set<Seq<char>>) -> Seq<Seq<char>> {
    keys.to_sorted_seq(key_order())
}

proof fn lemma_to_seq_no_duplicates(keys: Set<Seq<char>>)
    requires
        keys.finite(),
    ensures
        keys.to_seq().no_duplicates(),
        keys.to_seq().to_set() == keys,
    decreases keys.len(),
{
    keys.lemma_to_seq_to_set_id();
    if keys.len() > 0 {
        let x = keys.choose();
        let rest = keys.remove(x);
        lemma_to_seq_no_duplicates(rest);
        let s = keys.to_seq();
        assert(s == seq![x] + rest.to_seq());
        assert forall|a: int, b: int| 0 <= a < s.len() && 0 <= b < s.len() && a != b implies s[a] != s[b] by {
            if a > 0 && b > 0 {
                assert(s[a] == rest.to_seq()[a - 1] && s[b] == rest.to_seq()[b - 1]);
            } else if a == 0 {
                assert(s[b] == rest.to_seq()[b - 1]);
                assert(rest.to_seq().to_set().contains(s[b]));
            } else {
                assert(s[a] == rest.to_seq()[a - 1]);
                assert(rest.to_seq().to_set().contains(s[a]));
            }
        }
    }
}

/// `sorted_keys` lists the keys of a finite set, each once, in key order.
pub proof fn lemma_sorted_keys_lists(keys: Set<Seq<char>>)
    requires
        keys.finite(),
    ensures
        lists_sorted(sorted_keys(keys), keys),
{
    broadcast use vstd::seq_lib::group_to_multiset_ensures;

    lemma_key_order_total();
    lemma_to_seq_no_duplicates(keys);
    let base = keys.to_seq();
    let s = sorted_keys(keys);
    base.lemma_sort_by_ensures(key_order());
    assert forall|x: Seq<char>| s.to_multiset().contains(x) implies s.to_multiset().count(x) == 1 by {
        lemma_no_dup_multiset(base, x);
    }
    s.lemma_multiset_has_no_duplicates_conv();
    assert forall|x: Seq<char>| s.to_set().contains(x) <==> keys.contains(x) by {
        assert(s.contains(x) == s.to_multiset().contains(x));
        assert(base.contains(x) == base.to_multiset().contains(x));
        assert(base.to_set().contains(x) == base.contains(x));
    }
    assert(s.to_set() =~= keys);
}

proof fn lemma_no_dup_multiset(s: Seq<Seq<char>>, x: Seq<char>)
    requires
        s.no_duplicates(),
    ensures
        s.to_multiset().count(x) == if s.contains(x) { 1nat } else { 0nat },
{
    broadcast use vstd::seq_lib::group_to_multiset_ensures;

    s.lemma_multiset_has_no_duplicates();
}

/// A list of the keys in key order, each once, is the one that
/// `sorted_keys` names.
pub proof fn lemma_sorted_keys_unique(s: Seq<Seq<char>>, keys: Set<Seq<char>>)
    requires
        lists_sorted(s, keys),
    ensures
        sorted_keys(keys) == s,
{
    let t = sorted_keys(keys);
    assert(keys.finite()) by {
        assert(s.to_set() == keys);
    }
    lemma_sorted_keys_lists(keys);
    assert forall|x: Seq<char>| s.to_multiset().count(x) == t.to_multiset().count(x) by {
        lemma_no_dup_multiset(s, x);
        lemma_no_dup_multiset(t, x);
        assert(s.contains(x) == s.to_set().contains(x));
        assert(t.contains(x) == t.to_set().contains(x));
    }
    assert(s.to_multiset() =~= t.to_multiset());
    lemma_key_order_total();
    vstd::seq_lib::lemma_sorted_unique(s, t, key_order());
}

pub open spec fn string_views(v: Seq<String>) -> Seq<Seq<char>> {
    v.map_values(|s: String| s@)
}

/// Relies on `slice::sort` of `String`s: the same strings, in the order of
/// `String`'s `Ord`, which compares the texts lexicographically.
#[verifier::external_body]
fn sort_strings(v: &mut Vec<String>)
    ensures
        string_views(final(v)@).to_multiset() == string_views(old(v)@).to_multiset(),
        sorted_by(string_views(final(v)@), key_order()),
{
    v.sort();
}

/// Puts keys that are pairwise distinct into key order.
pub fn sort_keys(v: &mut Vec<String>)
    requires
        string_views(old(v)@).no_duplicates(),
    ensures
        lists_sorted(string_views(final(v)@), string_views(old(v)@).to_set()),
        string_views(final(v)@) == sorted_keys(string_views(old(v)@).to_set()),
{
    let ghost before = string_views(v@);
    sort_strings(v);
    proof {
        broadcast use vstd::seq_lib::group_to_multiset_ensures;

        let after = string_views(v@);
        assert forall|x: Seq<char>| after.to_multiset().contains(x) implies after.to_multiset().count(x) == 1 by {
            lemma_no_dup_multiset(before, x);
        }
        after.lemma_multiset_has_no_duplicates_conv();
        assert forall|x: Seq<char>| after.to_set().contains(x) <==> before.to_set().contains(x) by {
            assert(after.contains(x) == after.to_multiset().contains(x));
            assert(before.contains(x) == before.to_multiset().contains(x));
        }
        assert(after.to_set() =~= before.to_set());
        lemma_sorted_keys_unique(after, before.to_set());
    }
}

} // verus!
