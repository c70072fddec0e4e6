use vstd::prelude::*;

use crate::book::BookModel;
use crate::store::{
    well_formed, has_id, index_of, after_create, after_update, after_delete, lemma_unique_is_first,
};

verus! {

/// Storing a record under a non-empty identifier that is not yet in use keeps
/// every identifier of the collection non-empty and distinct: the new
/// record's identifier differs from that of every record stored before it.
pub proof fn law_created_ids_distinct(s: Seq<BookModel>, b: BookModel, id: Seq<char>)
    requires
        well_formed(s),
        id.len() > 0,
        !has_id(s, id),
    ensures
        well_formed(after_create(s, b, id)),
        after_create(s, b, id).last().id == Some(id),
        forall|i: int| 0 <= i < s.len() ==> #[trigger] s[i].id != Some(id),
{
    let t = after_create(s, b, id);
    assert forall|i: int, j: int|
        0 <= i < t.len() && 0 <= j < t.len() && i != j implies #[trigger] t[i].id != #[trigger] t[j].id by {
        if i == s.len() {
            assert(s[j].id != Some(id));
        } else if j == s.len() {
            assert(s[i].id != Some(id));
        }
    }
}

/// A record stored under a fresh identifier is then found under that
/// identifier, with every other field as it was submitted.
pub proof fn law_create_then_get(s: Seq<BookModel>, b: BookModel, id: Seq<char>)
    requires
        well_formed(s),
        id.len() > 0,
        !has_id(s, id),
    ensures
        has_id(after_create(s, b, id), id),
        after_create(s, b, id)[index_of(after_create(s, b, id), id)] == b.stamped(id),
{
    law_created_ids_distinct(s, b, id);
    lemma_unique_is_first(after_create(s, b, id), id, s.len() as int);
}

/// An update leaves the length and every identifier in its position; only
/// the record named by the identifier changes.
pub proof fn law_update_keeps_order(s: Seq<BookModel>, id: Seq<char>, b: BookModel)
    requires
        well_formed(s),
    ensures
        after_update(s, id, b).len() == s.len(),
        forall|j: int| 0 <= j < s.len() ==> #[trigger] after_update(s, id, b)[j].id == s[j].id,
        forall|j: int|
            0 <= j < s.len() && s[j].id != Some(id) ==> #[trigger] after_update(s, id, b)[j] == s[j],
{
    if has_id(s, id) {
        let w = choose|i: int| 0 <= i < s.len() && #[trigger] s[i].id == Some(id);
        lemma_unique_is_first(s, id, w);
    }
}

proof fn lemma_filter_keeps_all(s: Seq<BookModel>, id: Seq<char>)
    requires
        !has_id(s, id),
    ensures
        s.filter(|m: BookModel| m.id != Some(id)) == s,
    decreases s.len(),
{
    reveal(Seq::filter);
    if s.len() > 0 {
        let d = s.drop_last();
        assert(!has_id(d, id)) by {
            if has_id(d, id) {
                let w = choose|i: int| 0 <= i < d.len() && #[trigger] d[i].id == Some(id);
                assert(s[w].id == Some(id));
            }
        }
        lemma_filter_keeps_all(d, id);
        assert(s.last().id != Some(id)) by {
            assert(s[s.len() - 1].id != Some(id));
        }
        assert(d.push(s.last()) =~= s);
    }
}

proof fn lemma_filter_removes_one(s: Seq<BookModel>, id: Seq<char>, k: int)
    requires
        well_formed(s),
        0 <= k < s.len(),
        s[k].id == Some(id),
    ensures
        s.filter(|m: BookModel| m.id != Some(id)) == s.remove(k),
    decreases s.len(),
{
    reveal(Seq::filter);
    let d = s.drop_last();
    assert(well_formed(d)) by {
        assert forall|i: int, j: int|
            0 <= i < d.len() && 0 <= j < d.len() && i != j implies #[trigger] d[i].id
            != #[trigger] d[j].id by {
            assert(s[i].id != s[j].id);
        }
    }
    if k == s.len() - 1 {
        assert(!has_id(d, id)) by {
            if has_id(d, id) {
                let w = choose|i: int| 0 <= i < d.len() && #[trigger] d[i].id == Some(id);
                assert(s[w].id != s[k].id);
            }
        }
        lemma_filter_keeps_all(d, id);
        assert(s.remove(k) =~= d);
    } else {
        lemma_filter_removes_one(d, id, k);
        assert(s.last().id != Some(id)) by {
            assert(s[s.len() - 1].id != s[k].id);
        }
        assert(d.remove(k).push(s.last()) =~= s.remove(k));
    }
}

/// After a delete the collection holds exactly the records whose identifier
/// differs from the deleted one, in their original order.
pub proof fn law_delete_keeps_order(s: Seq<BookModel>, id: Seq<char>)
    requires
        well_formed(s),
    ensures
        after_delete(s, id) == s.filter(|m: BookModel| m.id != Some(id)),
{
    if has_id(s, id) {
        let w = choose|i: int| 0 <= i < s.len() && #[trigger] s[i].id == Some(id);
        lemma_unique_is_first(s, id, w);
        lemma_filter_removes_one(s, id, w);
    } else {
        lemma_filter_keeps_all(s, id);
    }
}

/// Once a record is deleted its identifier names nothing, so a second delete
/// of the same identifier finds nothing and leaves the collection as the
/// first one left it.
pub proof fn law_delete_twice(s: Seq<BookModel>, id: Seq<char>)
    requires
        well_formed(s),
    ensures
        !has_id(after_delete(s, id), id),
        after_delete(after_delete(s, id), id) == after_delete(s, id),
{
    let t = after_delete(s, id);
    if has_id(s, id) {
        let w = choose|i: int| 0 <= i < s.len() && #[trigger] s[i].id == Some(id);
        lemma_unique_is_first(s, id, w);
        if has_id(t, id) {
            let v = choose|i: int| 0 <= i < t.len() && #[trigger] t[i].id == Some(id);
            let src = if v < w { v } else { v + 1 };
            assert(s[src].id == Some(id));
            assert(s[src].id != s[w].id);
        }
    }
}

} // verus!
