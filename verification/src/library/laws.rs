//! Properties of the library operations taken together, stated over the
//! models that the operations' contracts use.

use vstd::prelude::*;
use crate::library::types::{NotebookView, LibraryView, UpdateNotebookView};
use crate::library::notebook_library::{
    has_id, is_first_with_id, first_index, lookup, ids_distinct, active_valid, without_id,
    active_after_remove, updated, matching, hit, total_uses, lemma_first_index,
};
use crate::text::{has_sub, spec_to_lowercase};

verus! {

/// A notebook that was just added (under an id no other notebook carries) is
/// what a lookup of its id gives back.
pub proof fn law_get_after_add(before: Seq<NotebookView>, added: NotebookView)
    requires
        !has_id(before, added.id),
    ensures
        lookup(before.push(added), added.id) == Some(added),
{
    let after = before.push(added);
    let k = before.len() as int;
    assert forall|j: int| 0 <= j < k implies #[trigger] after[j].id != added.id by {
        assert(after[j] == before[j]);
    }
    lemma_first_index(after, added.id, k);
}

/// Adding a notebook under a fresh id keeps the ids of the library distinct.
pub proof fn law_add_keeps_ids_distinct(before: Seq<NotebookView>, added: NotebookView)
    requires
        ids_distinct(before),
        !has_id(before, added.id),
    ensures
        ids_distinct(before.push(added)),
{
    let after = before.push(added);
    assert forall|i: int, j: int| 0 <= i < after.len() && 0 <= j < after.len() && i != j implies #[trigger] after[i].id != #[trigger] after[j].id by {
        if i < before.len() && j < before.len() {
            assert(after[i] == before[i] && after[j] == before[j]);
        } else if i < before.len() {
            assert(after[i] == before[i]);
        } else {
            assert(after[j] == before[j]);
        }
    }
}

/// Adding a notebook keeps the active id valid: the first notebook becomes
/// active, later additions leave the active id as it was.
pub proof fn law_add_keeps_active_valid(before: LibraryView, after: LibraryView, added: NotebookView)
    requires
        active_valid(before),
        after.notebooks == before.notebooks.push(added),
        after.active_notebook_id == (if before.notebooks.len() == 0 {
            Some(added.id)
        } else {
            before.active_notebook_id
        }),
    ensures
        active_valid(after),
{
    if before.notebooks.len() == 0 {
        assert(after.notebooks[0].id == added.id);
    } else if let Some(a) = before.active_notebook_id {
        let k = choose|k: int| 0 <= k < before.notebooks.len() && #[trigger] before.notebooks[k].id == a;
        assert(after.notebooks[k] == before.notebooks[k]);
    }
}

/// After a removal no notebook carries the removed id, and every other id is
/// present exactly when it was before.
pub proof fn law_remove_then_absent(nbs: Seq<NotebookView>, id: Seq<char>, other: Seq<char>)
    requires
        other != id,
    ensures
        lookup(without_id(nbs, id), id).is_none(),
        has_id(without_id(nbs, id), other) == has_id(nbs, other),
{
    lemma_without_id_facts(nbs, id, other);
}

proof fn lemma_without_id_facts(nbs: Seq<NotebookView>, id: Seq<char>, other: Seq<char>)
    requires
        other != id,
    ensures
        !has_id(without_id(nbs, id), id),
        has_id(without_id(nbs, id), other) == has_id(nbs, other),
    decreases nbs.len(),
{
    if nbs.len() > 0 {
        let init = nbs.drop_last();
        lemma_without_id_facts(init, id, other);
        let rest = without_id(init, id);
        let w = without_id(nbs, id);
        if has_id(w, id) {
            let m = choose|m: int| 0 <= m < w.len() && #[trigger] w[m].id == id;
            if m < rest.len() {
                assert(rest[m] == w[m]);
            }
        }
        if has_id(w, other) {
            let m = choose|m: int| 0 <= m < w.len() && #[trigger] w[m].id == other;
            if m < rest.len() {
                assert(rest[m] == w[m]);
                assert(has_id(rest, other));
                let k = choose|k: int| 0 <= k < init.len() && #[trigger] init[k].id == other;
                assert(init[k] == nbs[k]);
            } else {
                assert(nbs[nbs.len() - 1].id == other);
            }
        }
        if has_id(nbs, other) {
            let k = choose|k: int| 0 <= k < nbs.len() && #[trigger] nbs[k].id == other;
            if k < init.len() {
                assert(init[k] == nbs[k]);
                assert(has_id(init, other));
                let m = choose|m: int| 0 <= m < rest.len() && #[trigger] rest[m].id == other;
                if nbs.last().id != id {
                    assert(rest.push(nbs.last())[m] == rest[m]);
                }
            } else {
                assert(nbs.last().id == other);
                assert(rest.push(nbs.last())[rest.len() as int].id == other);
            }
        }
    }
}

/// A removal keeps the active id valid: when the active notebook is removed,
/// the first remaining one (if any) becomes active.
pub proof fn law_remove_keeps_active_valid(before: LibraryView, after: LibraryView, id: Seq<char>)
    requires
        active_valid(before),
        after.notebooks == without_id(before.notebooks, id),
        after.active_notebook_id == active_after_remove(before.active_notebook_id, after.notebooks, id),
    ensures
        active_valid(after),
{
    match before.active_notebook_id {
        Some(a) => {
            if a == id {
                if after.notebooks.len() > 0 {
                    assert(after.notebooks[0].id == after.notebooks[0].id);
                }
            } else {
                lemma_without_id_facts(before.notebooks, id, a);
            }
        },
        None => {},
    }
}

/// Replacing the entry at a position by one with the same id keeps every id's
/// presence, and so keeps the active id valid and the ids distinct.
pub proof fn law_same_id_update_keeps_invariants(before: LibraryView, k: int, nb: NotebookView)
    requires
        0 <= k < before.notebooks.len(),
        nb.id == before.notebooks[k].id,
    ensures
        forall|x: Seq<char>| has_id(before.notebooks.update(k, nb), x) == has_id(before.notebooks, x),
        active_valid(before) ==> active_valid(LibraryView { notebooks: before.notebooks.update(k, nb), ..before }),
        ids_distinct(before.notebooks) ==> ids_distinct(before.notebooks.update(k, nb)),
{
    let after = before.notebooks.update(k, nb);
    assert forall|x: Seq<char>| has_id(after, x) == has_id(before.notebooks, x) by {
        if has_id(after, x) {
            let m = choose|m: int| 0 <= m < after.len() && #[trigger] after[m].id == x;
            assert(before.notebooks[m].id == x);
        }
        if has_id(before.notebooks, x) {
            let m = choose|m: int| 0 <= m < before.notebooks.len() && #[trigger] before.notebooks[m].id == x;
            assert(after[m].id == x);
        }
    }
    if ids_distinct(before.notebooks) {
        assert forall|i: int, j: int| 0 <= i < after.len() && 0 <= j < after.len() && i != j implies #[trigger] after[i].id != #[trigger] after[j].id by {
            assert(after[i].id == before.notebooks[i].id);
            assert(after[j].id == before.notebooks[j].id);
        }
    }
}

/// Selecting a notebook makes it the active one: the active notebook is then
/// the selected entry.
pub proof fn law_select_then_active(before: Seq<NotebookView>, id: Seq<char>, stamped: Seq<char>)
    requires
        has_id(before, id),
    ensures
        ({
            let k = first_index(before, id);
            let after = before.update(k, NotebookView { last_used: stamped, ..before[k] });
            lookup(after, id) == Some(after[k])
        }),
{
    let k = first_index(before, id);
    let w = choose|w: int| 0 <= w < before.len() && #[trigger] before[w].id == id;
    lemma_first_exists(before, id, w);
    let after = before.update(k, NotebookView { last_used: stamped, ..before[k] });
    assert forall|j: int| 0 <= j < k implies #[trigger] after[j].id != id by {
        assert(after[j] == before[j]);
    }
    lemma_first_index(after, id, k);
}

/// When some notebook carries `id`, there is a first one.
pub proof fn lemma_first_exists(nbs: Seq<NotebookView>, id: Seq<char>, w: int)
    requires
        0 <= w < nbs.len(),
        nbs[w].id == id,
    ensures
        is_first_with_id(nbs, id, first_index(nbs, id)),
    decreases w,
{
    if exists|j: int| 0 <= j < w && #[trigger] nbs[j].id == id {
        let j = choose|j: int| 0 <= j < w && #[trigger] nbs[j].id == id;
        lemma_first_exists(nbs, id, j);
    } else {
        assert(is_first_with_id(nbs, id, w));
    }
}

/// One more use of a notebook adds one to the library's total query count.
pub proof fn law_increment_adds_one_query(nbs: Seq<NotebookView>, k: int, stamped: Seq<char>)
    requires
        0 <= k < nbs.len(),
        nbs[k].use_count < u64::MAX,
    ensures
        total_uses(nbs.update(k, NotebookView {
            use_count: (nbs[k].use_count + 1) as u64,
            last_used: stamped,
            ..nbs[k]
        })) == total_uses(nbs) + 1,
    decreases nbs.len(),
{
    let nb = NotebookView { use_count: (nbs[k].use_count + 1) as u64, last_used: stamped, ..nbs[k] };
    let after = nbs.update(k, nb);
    if k == nbs.len() - 1 {
        assert(after.drop_last() =~= nbs.drop_last());
    } else {
        law_increment_adds_one_query(nbs.drop_last(), k, stamped);
        assert(after.drop_last() =~= nbs.drop_last().update(k, nb));
    }
}

/// An empty (lowercased) query matches every notebook: the search gives back
/// the whole library in order.
pub proof fn law_empty_query_matches_all(nbs: Seq<NotebookView>)
    ensures
        matching(nbs, Seq::<char>::empty()) == nbs,
    decreases nbs.len(),
{
    if nbs.len() > 0 {
        law_empty_query_matches_all(nbs.drop_last());
        let n = nbs.last().name;
        assert(hit(n, Seq::<char>::empty())) by {
            let l = crate::text::spec_to_lowercase(n);
            let e = Seq::<char>::empty();
            assert(l.subrange(0, 0 + e.len() as int) =~= e);
            assert(has_sub(l, e));
        }
        assert(nbs.drop_last().push(nbs.last()) =~= nbs);
    }
}

/// Every notebook that a search gives back matches the query, and it is a
/// notebook of the library.
pub proof fn law_search_results_match(nbs: Seq<NotebookView>, q: Seq<char>)
    ensures
        forall|i: int| 0 <= i < matching(nbs, q).len() ==>
            crate::library::notebook_library::matches_query(#[trigger] matching(nbs, q)[i], q)
            && nbs.contains(matching(nbs, q)[i]),
        matching(nbs, q).len() <= nbs.len(),
    decreases nbs.len(),
{
    if nbs.len() > 0 {
        let init = nbs.drop_last();
        law_search_results_match(init, q);
        let r = matching(init, q);
        assert forall|i: int| 0 <= i < matching(nbs, q).len() implies
            crate::library::notebook_library::matches_query(#[trigger] matching(nbs, q)[i], q)
            && nbs.contains(matching(nbs, q)[i]) by {
            if i < r.len() {
                assert(matching(nbs, q)[i] == r[i]);
                assert(init.contains(r[i]));
                let j = choose|j: int| 0 <= j < init.len() && init[j] == r[i];
                assert(nbs[j] == init[j]);
            } else {
                assert(matching(nbs, q)[i] == nbs.last());
                assert(nbs[nbs.len() - 1] == nbs.last());
            }
        }
    }
}

/// An update that names no field leaves the entry as it was.
pub proof fn law_empty_update_is_identity(nb: NotebookView, u: UpdateNotebookView)
    requires
        u.name.is_none(),
        u.description.is_none(),
        u.topics.is_none(),
        u.content_types.is_none(),
        u.use_cases.is_none(),
        u.tags.is_none(),
        u.url.is_none(),
    ensures
        updated(nb, u) == nb,
{
}

/// What the lowercased query is found in, for one notebook: its lowercased
/// name, description, one of its topics or one of its tags.
pub open spec fn found_in(nb: NotebookView, q: Seq<char>) -> bool {
    ||| has_sub(spec_to_lowercase(nb.name), q)
    ||| has_sub(spec_to_lowercase(nb.description), q)
    ||| (exists|j: int| 0 <= j < nb.topics.len() && has_sub(spec_to_lowercase(#[trigger] nb.topics[j]), q))
    ||| (nb.tags matches Some(tags)
        && exists|j: int| 0 <= j < tags.len() && has_sub(spec_to_lowercase(#[trigger] tags[j]), q))
}

/// The search is a full-text search: a notebook of the library is among the
/// results exactly when the query occurs, ignoring case, in its name,
/// description, a topic or a tag.
pub proof fn law_search_finds_every_field(nbs: Seq<NotebookView>, q: Seq<char>)
    ensures
        forall|i: int| 0 <= i < nbs.len() && found_in(#[trigger] nbs[i], q) ==> matching(nbs, q).contains(nbs[i]),
        forall|i: int| 0 <= i < matching(nbs, q).len() ==> found_in(#[trigger] matching(nbs, q)[i], q),
    decreases nbs.len(),
{
    law_search_results_match(nbs, q);
    if nbs.len() > 0 {
        let init = nbs.drop_last();
        law_search_finds_every_field(init, q);
        let r = matching(init, q);
        assert forall|i: int| 0 <= i < nbs.len() && found_in(#[trigger] nbs[i], q) implies matching(nbs, q).contains(nbs[i]) by {
            let nb = nbs[i];
            assert(crate::library::notebook_library::matches_query(nb, q)) by {
                if let Some(tags) = nb.tags {
                    if exists|j: int| 0 <= j < tags.len() && has_sub(spec_to_lowercase(#[trigger] tags[j]), q) {
                        let j = choose|j: int| 0 <= j < tags.len() && has_sub(spec_to_lowercase(#[trigger] tags[j]), q);
                        assert(hit(tags[j], q));
                    }
                }
                if exists|j: int| 0 <= j < nb.topics.len() && has_sub(spec_to_lowercase(#[trigger] nb.topics[j]), q) {
                    let j = choose|j: int| 0 <= j < nb.topics.len() && has_sub(spec_to_lowercase(#[trigger] nb.topics[j]), q);
                    assert(hit(nb.topics[j], q));
                }
            }
            if i < init.len() {
                assert(init[i] == nb);
                assert(r.contains(nb));
                let k = choose|k: int| 0 <= k < r.len() && r[k] == nb;
                assert(matching(nbs, q)[k] == r[k]);
            } else {
                assert(nb == nbs.last());
                assert(matching(nbs, q)[r.len() as int] == nb);
            }
        }
        assert forall|i: int| 0 <= i < matching(nbs, q).len() implies found_in(#[trigger] matching(nbs, q)[i], q) by {
            let nb = matching(nbs, q)[i];
            assert(crate::library::notebook_library::matches_query(nb, q));
            if crate::library::notebook_library::any_hit(nb.topics, q) {
                let j = choose|j: int| 0 <= j < nb.topics.len() && hit(#[trigger] nb.topics[j], q);
                assert(has_sub(spec_to_lowercase(nb.topics[j]), q));
            }
        }
    }
}

} // verus!
