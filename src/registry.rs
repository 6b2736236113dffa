//! A sequence of buffers with distinct identifiers, read as a map from
//! identifier to buffer.
use vstd::prelude::*;

use crate::buffer::{BufferID, BufferModel};

verus! {

/// No two buffers share an identifier.
pub open spec fn ids_unique(s: Seq<BufferModel>) -> bool {
    forall|i: int, j: int|
        0 <= i < s.len() && 0 <= j < s.len() && i != j ==> s[i].id != s[j].id
}

/// Some buffer of `s` has identifier `id`.
pub open spec fn has_id(s: Seq<BufferModel>, id: BufferID) -> bool {
    exists|i: int| 0 <= i < s.len() && s[i].id == id
}

/// The map from each identifier in `s` to its buffer.
pub open spec fn registry_of(s: Seq<BufferModel>) -> Map<BufferID, BufferModel> {
    Map::new(
        |id: BufferID| has_id(s, id),
        |id: BufferID| s[choose|i: int| 0 <= i < s.len() && s[i].id == id],
    )
}

/// In a sequence with distinct identifiers, the buffer at `i` is the one that
/// the map gives for its identifier.
pub proof fn lemma_lookup(s: Seq<BufferModel>, i: int)
    requires
        ids_unique(s),
        0 <= i < s.len(),
    ensures
        registry_of(s).dom().contains(s[i].id),
        registry_of(s)[s[i].id] == s[i],
{
    let id = s[i].id;
    assert(has_id(s, id));
    let j = choose|j: int| 0 <= j < s.len() && s[j].id == id;
    assert(j == i);
}

/// Replacing the buffer at `i` by one of the same identifier updates the map
/// at that identifier.
pub proof fn lemma_update(s: Seq<BufferModel>, i: int, b: BufferModel)
    requires
        ids_unique(s),
        0 <= i < s.len(),
        b.id == s[i].id,
    ensures
        ids_unique(s.update(i, b)),
        registry_of(s.update(i, b)) == registry_of(s).insert(b.id, b),
{
    let t = s.update(i, b);
    assert forall|id: BufferID| has_id(t, id) <==> has_id(s, id) by {
        if has_id(t, id) {
            let j = choose|j: int| 0 <= j < t.len() && t[j].id == id;
            assert(s[j].id == id);
        }
        if has_id(s, id) {
            let j = choose|j: int| 0 <= j < s.len() && s[j].id == id;
            assert(t[j].id == id);
        }
    }
    assert forall|id: BufferID| #[trigger] has_id(t, id) && id != b.id implies registry_of(
        t,
    )[id] == registry_of(s)[id] by {
        let j = choose|j: int| 0 <= j < t.len() && t[j].id == id;
        let k = choose|k: int| 0 <= k < s.len() && s[k].id == id;
        assert(s[j].id == id);
        assert(j == k);
    }
    lemma_lookup(t, i);
    assert(registry_of(t) =~= registry_of(s).insert(b.id, b));
}

/// Appending a buffer whose identifier is new adds it to the map.
pub proof fn lemma_push(s: Seq<BufferModel>, b: BufferModel)
    requires
        ids_unique(s),
        !has_id(s, b.id),
    ensures
        ids_unique(s.push(b)),
        registry_of(s.push(b)) == registry_of(s).insert(b.id, b),
{
    let t = s.push(b);
    assert forall|id: BufferID| has_id(t, id) <==> (has_id(s, id) || id == b.id) by {
        if has_id(t, id) {
            let j = choose|j: int| 0 <= j < t.len() && t[j].id == id;
            if j < s.len() {
                assert(s[j].id == id);
            }
        }
        if has_id(s, id) {
            let j = choose|j: int| 0 <= j < s.len() && s[j].id == id;
            assert(t[j].id == id);
        }
        if id == b.id {
            assert(t[s.len() as int].id == id);
        }
    }
    assert(ids_unique(t));
    assert forall|id: BufferID| #[trigger] has_id(t, id) && id != b.id implies registry_of(
        t,
    )[id] == registry_of(s)[id] by {
        let j = choose|j: int| 0 <= j < t.len() && t[j].id == id;
        let k = choose|k: int| 0 <= k < s.len() && s[k].id == id;
        assert(t[k].id == id);
        assert(j == k);
    }
    lemma_lookup(t, s.len() as int);
    assert(registry_of(t) =~= registry_of(s).insert(b.id, b));
}

/// Removing the buffer at `i` removes its identifier from the map.
pub proof fn lemma_remove(s: Seq<BufferModel>, i: int)
    requires
        ids_unique(s),
        0 <= i < s.len(),
    ensures
        ids_unique(s.remove(i)),
        registry_of(s.remove(i)) == registry_of(s).remove(s[i].id),
{
    let t = s.remove(i);
    let id0 = s[i].id;
    assert forall|a: int, c: int|
        0 <= a < t.len() && 0 <= c < t.len() && a != c implies t[a].id != t[c].id by {
        let a1 = if a < i { a } else { a + 1 };
        let c1 = if c < i { c } else { c + 1 };
        assert(t[a] == s[a1]);
        assert(t[c] == s[c1]);
    }
    assert forall|id: BufferID| has_id(t, id) <==> (has_id(s, id) && id != id0) by {
        if has_id(t, id) {
            let j = choose|j: int| 0 <= j < t.len() && t[j].id == id;
            let j1 = if j < i { j } else { j + 1 };
            assert(s[j1].id == id);
        }
        if has_id(s, id) && id != id0 {
            let j = choose|j: int| 0 <= j < s.len() && s[j].id == id;
            assert(j != i);
            let j1 = if j < i { j } else { j - 1 };
            assert(t[j1].id == id);
        }
    }
    assert forall|id: BufferID| #[trigger] has_id(t, id) implies registry_of(t)[id] == registry_of(
        s,
    )[id] by {
        let j = choose|j: int| 0 <= j < t.len() && t[j].id == id;
        let k = choose|k: int| 0 <= k < s.len() && s[k].id == id;
        let j1 = if j < i { j } else { j + 1 };
        assert(s[j1].id == id);
        assert(j1 == k);
    }
    assert(registry_of(t) =~= registry_of(s).remove(id0));
}

/// Each buffer of the map is stored under its own identifier.
pub proof fn lemma_keys(s: Seq<BufferModel>)
    ensures
        forall|id: BufferID| #[trigger] registry_of(s).dom().contains(id) ==> registry_of(s)[id].id
            == id,
{
    assert forall|id: BufferID| #[trigger] registry_of(s).dom().contains(id) implies registry_of(
        s,
    )[id].id == id by {
        let j = choose|j: int| 0 <= j < s.len() && s[j].id == id;
    }
}

} // verus!
