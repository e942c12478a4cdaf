//! What holds of the registry's operations taken together.
use vstd::prelude::*;

use crate::codec::{key_of, lemma_key_injective, lemma_record_injective, record_bytes, record_fits};
use crate::profile::ProfileView;
use crate::registry::{is_record, listing_of, lookup, removed, saved, Lookup};

verus! {

/// The store once each profile of `ps` is saved in turn, starting from `m`.
pub open spec fn saved_all(m: Map<Seq<u8>, Seq<u8>>, ps: Seq<ProfileView>) -> Map<
    Seq<u8>,
    Seq<u8>,
>
    decreases ps.len(),
{
    if ps.len() == 0 {
        m
    } else {
        saved(saved_all(m, ps.drop_last()), ps.last())
    }
}

/// No two profiles of `ps` share a name.
pub open spec fn distinct_names(ps: Seq<ProfileView>) -> bool {
    forall|i: int, j: int| 0 <= i < j < ps.len() ==> ps[i].name != ps[j].name
}

/// A profile saved and then looked up by its name is found, equal in every
/// field to what was saved.
pub proof fn law_save_then_find(m: Map<Seq<u8>, Seq<u8>>, p: ProfileView)
    requires
        record_fits(p),
    ensures
        lookup(saved(m, p), p.name) == Lookup::Found(p),
{
    let b = record_bytes(p);
    assert(is_record(b));
    let c = choose|v: ProfileView| record_bytes(v) == b;
    lemma_record_injective(p, c);
}

/// Saving a second profile of the same name replaces the first whole: the
/// store is as if only the second was saved, and looking the name up finds
/// the second.
pub proof fn law_save_overwrites(m: Map<Seq<u8>, Seq<u8>>, p: ProfileView, q: ProfileView)
    requires
        p.name == q.name,
        record_fits(q),
    ensures
        saved(saved(m, p), q) == saved(m, q),
        lookup(saved(saved(m, p), q), q.name) == Lookup::Found(q),
{
    assert(saved(saved(m, p), q) =~= saved(m, q));
    law_save_then_find(m, q);
}

/// Removing a name that is absent leaves the store as it was, and removing
/// a name twice does what removing it once does.
pub proof fn law_remove_idempotent(m: Map<Seq<u8>, Seq<u8>>, name: Seq<char>)
    ensures
        lookup(m, name) is Absent ==> removed(m, name) == m,
        removed(removed(m, name), name) == removed(m, name),
{
    if lookup(m, name) is Absent {
        assert(removed(m, name) =~= m);
    }
    assert(removed(removed(m, name), name) =~= removed(m, name));
}

/// A name never saved, or removed since, is absent.
pub proof fn law_absent(m: Map<Seq<u8>, Seq<u8>>, name: Seq<char>)
    ensures
        lookup(Map::empty(), name) is Absent,
        lookup(removed(m, name), name) is Absent,
{
}

/// Where each profile of `ps` stands in the store that saving them all
/// makes, when their names differ.
proof fn lemma_saved_all(ps: Seq<ProfileView>)
    requires
        distinct_names(ps),
    ensures
        forall|k: Seq<u8>|
            saved_all(Map::empty(), ps).contains_key(k) <==> exists|i: int|
                0 <= i < ps.len() && key_of(#[trigger] ps[i].name) == k,
        forall|i: int|
            0 <= i < ps.len() ==> #[trigger] saved_all(Map::empty(), ps)[key_of(ps[i].name)]
                == record_bytes(ps[i]),
    decreases ps.len(),
{
    if ps.len() > 0 {
        let rest = ps.drop_last();
        let last = ps.len() - 1;
        assert(distinct_names(rest));
        lemma_saved_all(rest);
        let inner = saved_all(Map::empty(), rest);
        let m = saved_all(Map::empty(), ps);
        assert(m == inner.insert(key_of(ps[last].name), record_bytes(ps[last])));
        assert forall|k: Seq<u8>| m.contains_key(k) implies exists|i: int|
            0 <= i < ps.len() && key_of(#[trigger] ps[i].name) == k by {
            if k == key_of(ps[last].name) {
                assert(key_of(ps[last].name) == k);
            } else {
                assert(inner.contains_key(k));
                let i = choose|i: int| 0 <= i < rest.len() && key_of(#[trigger] rest[i].name) == k;
                assert(rest[i] == ps[i]);
                assert(key_of(ps[i].name) == k);
            }
        }
        assert forall|i: int| 0 <= i < ps.len() implies m.contains_key(key_of(#[trigger] ps[i].name)) by {
            if i < last {
                assert(rest[i] == ps[i]);
                assert(inner.contains_key(key_of(rest[i].name)));
            }
        }
        assert forall|i: int| 0 <= i < ps.len() implies #[trigger] m[key_of(ps[i].name)]
            == record_bytes(ps[i]) by {
            if i < last {
                assert(rest[i] == ps[i]);
                assert(inner[key_of(rest[i].name)] == record_bytes(rest[i]));
                if key_of(ps[i].name) == key_of(ps[last].name) {
                    lemma_key_injective(ps[i].name, ps[last].name);
                }
            }
        }
    }
}

/// Two sequences without repeats that hold the same items are equally long.
proof fn lemma_same_items_same_len(a: Seq<Seq<u8>>, b: Seq<Seq<u8>>)
    requires
        a.no_duplicates(),
        b.no_duplicates(),
        forall|k: Seq<u8>| a.contains(k) <==> b.contains(k),
    ensures
        a.len() == b.len(),
{
    assert(a.to_set() =~= b.to_set());
    a.unique_seq_to_set();
    b.unique_seq_to_set();
}

/// After profiles of distinct names are saved into an empty store, listing
/// it gives exactly those profiles, each once, in some order.
pub proof fn law_listing_complete(ps: Seq<ProfileView>, out: Seq<ProfileView>)
    requires
        distinct_names(ps),
        forall|i: int| 0 <= i < ps.len() ==> record_fits(#[trigger] ps[i]),
        listing_of(saved_all(Map::empty(), ps), out),
    ensures
        out.len() == ps.len(),
        forall|v: ProfileView| out.contains(v) <==> ps.contains(v),
{
    let m = saved_all(Map::empty(), ps);
    lemma_saved_all(ps);
    let keys = choose|keys: Seq<Seq<u8>>|
        {
            &&& keys.len() == out.len()
            &&& keys.no_duplicates()
            &&& forall|k: Seq<u8>| m.contains_key(k) <==> keys.contains(k)
            &&& forall|i: int| 0 <= i < keys.len() ==> m[keys[i]] == record_bytes(out[i])
        };
    let names = ps.map_values(|p: ProfileView| key_of(p.name));
    assert forall|i: int, j: int| 0 <= i < j < names.len() implies names[i] != names[j] by {
        if names[i] == names[j] {
            lemma_key_injective(ps[i].name, ps[j].name);
        }
    }
    assert forall|k: Seq<u8>| keys.contains(k) <==> names.contains(k) by {
        if names.contains(k) {
            let i = choose|i: int| 0 <= i < names.len() && names[i] == k;
            assert(key_of(ps[i].name) == k);
        }
        if m.contains_key(k) {
            let i = choose|i: int| 0 <= i < ps.len() && key_of(#[trigger] ps[i].name) == k;
            assert(names[i] == k);
        }
    }
    lemma_same_items_same_len(keys, names);
    assert forall|v: ProfileView| out.contains(v) implies ps.contains(v) by {
        let i = choose|i: int| 0 <= i < out.len() && out[i] == v;
        assert(keys.contains(keys[i]));
        assert(m.contains_key(keys[i]));
        let j = choose|j: int| 0 <= j < ps.len() && key_of(#[trigger] ps[j].name) == keys[i];
        assert(m[key_of(ps[j].name)] == record_bytes(ps[j]));
        lemma_record_injective(ps[j], v);
    }
    assert forall|v: ProfileView| ps.contains(v) implies out.contains(v) by {
        let j = choose|j: int| 0 <= j < ps.len() && ps[j] == v;
        let k = key_of(ps[j].name);
        assert(m.contains_key(k));
        assert(keys.contains(k));
        let i = choose|i: int| 0 <= i < keys.len() && keys[i] == k;
        assert(m[k] == record_bytes(ps[j]));
        assert(m[keys[i]] == record_bytes(out[i]));
        lemma_record_injective(v, out[i]);
        assert(out[i] == v);
    }
}

} // verus!
