//! Mathematical model of the to-do table: the rows as a sequence ordered by
//! id descending, and the effect of each store operation on that sequence.

use vstd::prelude::*;

verus! {

/// Model of one stored to-do row.
pub ghost struct ItemModel {
    pub id: int,
    pub name: Seq<char>,
    pub description: Seq<char>,
    pub status: bool,
    pub created_at: Seq<char>,
}

/// The listing order: ids strictly descending, so every id occurs at most once.
pub open spec fn sorted_desc(rows: Seq<ItemModel>) -> bool {
    forall|i: int, j: int| 0 <= i < j < rows.len() ==> rows[i].id > rows[j].id
}

/// Well-formed table contents: rows in listing order, every id positive,
/// below the next id to be assigned, and within SQLite's 64-bit rowid range.
pub open spec fn wf_table(rows: Seq<ItemModel>, next_id: int) -> bool {
    &&& sorted_desc(rows)
    &&& forall|i: int|
        0 <= i < rows.len() ==> 1 <= (#[trigger] rows[i]).id < next_id && rows[i].id <= i64::MAX
    &&& 1 <= next_id
}

/// Some row carries this id.
pub open spec fn has_id(rows: Seq<ItemModel>, id: int) -> bool {
    exists|i: int| 0 <= i < rows.len() && (#[trigger] rows[i]).id == id
}

/// The position of the row carrying `id` (meaningful when `has_id` holds
/// and the ids are distinct).
pub open spec fn index_of_id(rows: Seq<ItemModel>, id: int) -> int {
    choose|i: int| 0 <= i < rows.len() && (#[trigger] rows[i]).id == id
}

/// The status of the row carrying `id`.
pub open spec fn status_of(rows: Seq<ItemModel>, id: int) -> bool {
    rows[index_of_id(rows, id)].status
}

/// How many rows carry this id.
pub open spec fn count_id(rows: Seq<ItemModel>, id: int) -> nat
    decreases rows.len(),
{
    if rows.len() == 0 {
        0
    } else {
        count_id(rows.drop_last(), id) + (if rows.last().id == id {
            1nat
        } else {
            0nat
        })
    }
}

/// The table after setting the done flag of the row carrying `id`:
/// every other row, and every other field, is untouched.
pub open spec fn set_status_rows(rows: Seq<ItemModel>, id: int, status: bool) -> Seq<ItemModel> {
    Seq::new(
        rows.len(),
        |i: int|
            if rows[i].id == id {
                ItemModel { status, ..rows[i] }
            } else {
                rows[i]
            },
    )
}

/// The table after the conditional edit of the row carrying `id`: an empty
/// replacement value leaves the stored field unchanged.
pub open spec fn edit_rows(
    rows: Seq<ItemModel>,
    id: int,
    name: Seq<char>,
    description: Seq<char>,
) -> Seq<ItemModel> {
    Seq::new(
        rows.len(),
        |i: int|
            if rows[i].id == id {
                ItemModel {
                    name: if name.len() == 0 {
                        rows[i].name
                    } else {
                        name
                    },
                    description: if description.len() == 0 {
                        rows[i].description
                    } else {
                        description
                    },
                    ..rows[i]
                }
            } else {
                rows[i]
            },
    )
}

/// The table after deleting every row carrying `id`, the order of the
/// survivors kept.
pub open spec fn remove_id_rows(rows: Seq<ItemModel>, id: int) -> Seq<ItemModel>
    decreases rows.len(),
{
    if rows.len() == 0 {
        rows
    } else {
        remove_id_rows(rows.drop_last(), id) + (if rows.last().id == id {
            Seq::<ItemModel>::empty()
        } else {
            seq![rows.last()]
        })
    }
}

/// The window of at most `limit` rows starting `offset` rows into the table:
/// what `LIMIT limit OFFSET offset` selects from the listing order.
pub open spec fn window_of(rows: Seq<ItemModel>, offset: int, limit: int) -> Seq<ItemModel>
    recommends
        0 <= offset,
        1 <= limit,
{
    if offset >= rows.len() {
        Seq::<ItemModel>::empty()
    } else if offset + limit >= rows.len() {
        rows.subrange(offset, rows.len() as int)
    } else {
        rows.subrange(offset, offset + limit)
    }
}

/// The page-th block of `limit` rows, pages counted from 1.
pub open spec fn page_of(rows: Seq<ItemModel>, page: int, limit: int) -> Seq<ItemModel>
    recommends
        1 <= page,
        1 <= limit,
{
    window_of(rows, (page - 1) * limit, limit)
}

pub proof fn lemma_sorted_drop_last(rows: Seq<ItemModel>)
    requires
        sorted_desc(rows),
        rows.len() > 0,
    ensures
        sorted_desc(rows.drop_last()),
{
    assert forall|i: int, j: int|
        0 <= i < j < rows.drop_last().len() implies rows.drop_last()[i].id
        > rows.drop_last()[j].id by {
        assert(rows.drop_last()[i] == rows[i]);
        assert(rows.drop_last()[j] == rows[j]);
    }
}

/// In listing order no id repeats: two rows with the same id are one row.
pub proof fn lemma_id_index_unique(rows: Seq<ItemModel>, i: int, j: int)
    requires
        sorted_desc(rows),
        0 <= i < rows.len(),
        0 <= j < rows.len(),
        rows[i].id == rows[j].id,
    ensures
        i == j,
{
    if i < j {
        assert(rows[i].id > rows[j].id);
    } else if j < i {
        assert(rows[j].id > rows[i].id);
    }
}

pub proof fn lemma_count_id_zero(rows: Seq<ItemModel>, id: int)
    ensures
        (count_id(rows, id) == 0) <==> !has_id(rows, id),
    decreases rows.len(),
{
    if rows.len() == 0 {
        assert(!has_id(rows, id));
    } else {
        let dl = rows.drop_last();
        lemma_count_id_zero(dl, id);
        if rows.last().id == id {
            assert(rows[rows.len() - 1].id == id);
            assert(has_id(rows, id));
        } else {
            if has_id(rows, id) {
                let i = choose|i: int| 0 <= i < rows.len() && (#[trigger] rows[i]).id == id;
                assert(i < rows.len() - 1);
                assert(dl[i] == rows[i]);
                assert(has_id(dl, id));
            }
            if has_id(dl, id) {
                let i = choose|i: int| 0 <= i < dl.len() && (#[trigger] dl[i]).id == id;
                assert(rows[i] == dl[i]);
                assert(has_id(rows, id));
            }
        }
    }
}

/// With distinct ids a matching id is matched by exactly one row.
pub proof fn lemma_count_id_of_sorted(rows: Seq<ItemModel>, id: int)
    requires
        sorted_desc(rows),
    ensures
        count_id(rows, id) == if has_id(rows, id) {
            1nat
        } else {
            0nat
        },
    decreases rows.len(),
{
    lemma_count_id_zero(rows, id);
    if rows.len() > 0 {
        let dl = rows.drop_last();
        lemma_sorted_drop_last(rows);
        lemma_count_id_of_sorted(dl, id);
        lemma_count_id_zero(dl, id);
        if rows.last().id == id {
            assert(rows[rows.len() - 1].id == id);
            assert(has_id(rows, id));
            assert(!has_id(dl, id)) by {
                if has_id(dl, id) {
                    let i = choose|i: int| 0 <= i < dl.len() && (#[trigger] dl[i]).id == id;
                    assert(dl[i] == rows[i]);
                    assert(rows[i].id > rows[rows.len() - 1].id);
                }
            }
        } else {
            if has_id(rows, id) {
                let i = choose|i: int| 0 <= i < rows.len() && (#[trigger] rows[i]).id == id;
                assert(i < rows.len() - 1);
                assert(dl[i] == rows[i]);
                assert(has_id(dl, id));
            }
            if has_id(dl, id) {
                let i = choose|i: int| 0 <= i < dl.len() && (#[trigger] dl[i]).id == id;
                assert(rows[i] == dl[i]);
                assert(has_id(rows, id));
            }
        }
    }
}

/// Setting a status keeps the table well formed: ids and order are untouched.
pub proof fn lemma_set_status_wf(rows: Seq<ItemModel>, next_id: int, id: int, status: bool)
    requires
        wf_table(rows, next_id),
    ensures
        wf_table(set_status_rows(rows, id, status), next_id),
{
    let r2 = set_status_rows(rows, id, status);
    assert forall|i: int|
        0 <= i < r2.len() implies 1 <= (#[trigger] r2[i]).id < next_id && r2[i].id
        <= i64::MAX by {
        assert(r2[i].id == rows[i].id);
    }
    assert forall|i: int, j: int| 0 <= i < j < r2.len() implies r2[i].id > r2[j].id by {
        assert(r2[i].id == rows[i].id);
        assert(r2[j].id == rows[j].id);
    }
}

/// Setting the status of an id that no row carries changes nothing.
pub proof fn lemma_set_status_absent(rows: Seq<ItemModel>, id: int, status: bool)
    requires
        !has_id(rows, id),
    ensures
        set_status_rows(rows, id, status) == rows,
{
    let r2 = set_status_rows(rows, id, status);
    assert forall|i: int| 0 <= i < rows.len() implies r2[i] == rows[i] by {
        assert(rows[i].id != id);
    }
    assert(r2 =~= rows);
}

/// Law: setting a status and then setting it back to what it was restores
/// the table exactly — the round trip of marking done and not done.
pub proof fn lemma_set_status_roundtrip(rows: Seq<ItemModel>, id: int, mid: bool)
    requires
        sorted_desc(rows),
        has_id(rows, id),
    ensures
        set_status_rows(set_status_rows(rows, id, mid), id, status_of(rows, id)) == rows,
{
    let orig = status_of(rows, id);
    let r1 = set_status_rows(rows, id, mid);
    let r2 = set_status_rows(r1, id, orig);
    let w = index_of_id(rows, id);
    assert(0 <= w < rows.len() && rows[w].id == id);
    assert forall|i: int| 0 <= i < rows.len() implies r2[i] == rows[i] by {
        assert(r1[i].id == rows[i].id);
        if rows[i].id == id {
            lemma_id_index_unique(rows, i, w);
            assert(orig == rows[i].status);
        }
    }
    assert(r2 =~= rows);
}

/// An edit keeps the table well formed: ids and order are untouched.
pub proof fn lemma_edit_wf(
    rows: Seq<ItemModel>,
    next_id: int,
    id: int,
    name: Seq<char>,
    description: Seq<char>,
)
    requires
        wf_table(rows, next_id),
    ensures
        wf_table(edit_rows(rows, id, name, description), next_id),
{
    let r2 = edit_rows(rows, id, name, description);
    assert forall|i: int|
        0 <= i < r2.len() implies 1 <= (#[trigger] r2[i]).id < next_id && r2[i].id
        <= i64::MAX by {
        assert(r2[i].id == rows[i].id);
    }
    assert forall|i: int, j: int| 0 <= i < j < r2.len() implies r2[i].id > r2[j].id by {
        assert(r2[i].id == rows[i].id);
        assert(r2[j].id == rows[j].id);
    }
}

/// Editing an id that no row carries changes nothing.
pub proof fn lemma_edit_absent(rows: Seq<ItemModel>, id: int, name: Seq<char>, desc: Seq<char>)
    requires
        !has_id(rows, id),
    ensures
        edit_rows(rows, id, name, desc) == rows,
{
    let r2 = edit_rows(rows, id, name, desc);
    assert forall|i: int| 0 <= i < rows.len() implies r2[i] == rows[i] by {
        assert(rows[i].id != id);
    }
    assert(r2 =~= rows);
}

/// Law: an edit whose replacement name and description are both empty leaves
/// every row of the table unchanged, whatever id it aims at.
pub proof fn lemma_edit_empty_is_noop(rows: Seq<ItemModel>, id: int)
    ensures
        edit_rows(rows, id, Seq::<char>::empty(), Seq::<char>::empty()) == rows,
{
    let r2 = edit_rows(rows, id, Seq::<char>::empty(), Seq::<char>::empty());
    assert forall|i: int| 0 <= i < rows.len() implies r2[i] == rows[i] by {
    }
    assert(r2 =~= rows);
}

pub proof fn lemma_remove_id_props(rows: Seq<ItemModel>, id: int)
    ensures
        remove_id_rows(rows, id).len() == rows.len() - count_id(rows, id),
        !has_id(remove_id_rows(rows, id), id),
        forall|k: int|
            0 <= k < remove_id_rows(rows, id).len() ==> rows.contains(
                #[trigger] remove_id_rows(rows, id)[k],
            ),
        !has_id(rows, id) ==> remove_id_rows(rows, id) == rows,
    decreases rows.len(),
{
    let r = remove_id_rows(rows, id);
    if rows.len() == 0 {
        assert(!has_id(r, id));
    } else {
        let dl = rows.drop_last();
        let last = rows.last();
        lemma_remove_id_props(dl, id);
        let rdl = remove_id_rows(dl, id);
        assert(count_id(dl, id) <= dl.len());
        assert(!has_id(r, id)) by {
            if has_id(r, id) {
                let i = choose|i: int| 0 <= i < r.len() && (#[trigger] r[i]).id == id;
                if i < rdl.len() {
                    assert(r[i] == rdl[i]);
                    assert(has_id(rdl, id));
                } else {
                    assert(r[i] == last);
                    assert(last.id != id);
                }
            }
        }
        assert forall|k: int| 0 <= k < r.len() implies rows.contains(#[trigger] r[k]) by {
            if k < rdl.len() {
                assert(r[k] == rdl[k]);
                assert(dl.contains(rdl[k]));
                let i = choose|i: int| 0 <= i < dl.len() && dl[i] == rdl[k];
                assert(rows[i] == dl[i]);
            } else {
                assert(r[k] == last);
                assert(rows[rows.len() - 1] == last);
            }
        }
        if !has_id(rows, id) {
            assert(last.id != id) by {
                assert(rows[rows.len() - 1] == last);
            }
            assert(!has_id(dl, id)) by {
                if has_id(dl, id) {
                    let i = choose|i: int| 0 <= i < dl.len() && (#[trigger] dl[i]).id == id;
                    assert(rows[i] == dl[i]);
                    assert(has_id(rows, id));
                }
            }
            assert(r =~= rows);
        }
    }
}

/// Deleting an id keeps the survivors in listing order.
pub proof fn lemma_remove_id_sorted(rows: Seq<ItemModel>, id: int)
    requires
        sorted_desc(rows),
    ensures
        sorted_desc(remove_id_rows(rows, id)),
    decreases rows.len(),
{
    let r = remove_id_rows(rows, id);
    if rows.len() > 0 {
        let dl = rows.drop_last();
        let last = rows.last();
        lemma_sorted_drop_last(rows);
        lemma_remove_id_sorted(dl, id);
        lemma_remove_id_props(dl, id);
        let rdl = remove_id_rows(dl, id);
        assert forall|i: int, j: int| 0 <= i < j < r.len() implies r[i].id > r[j].id by {
            if j < rdl.len() {
                assert(r[i] == rdl[i]);
                assert(r[j] == rdl[j]);
            } else {
                assert(r[j] == last);
                assert(r[i] == rdl[i]);
                assert(dl.contains(rdl[i]));
                let w = choose|w: int| 0 <= w < dl.len() && dl[w] == rdl[i];
                assert(rows[w] == dl[w]);
                assert(rows[w].id > rows[rows.len() - 1].id);
            }
        }
    }
}

/// Deleting keeps the table well formed.
pub proof fn lemma_remove_id_wf(rows: Seq<ItemModel>, next_id: int, id: int)
    requires
        wf_table(rows, next_id),
    ensures
        wf_table(remove_id_rows(rows, id), next_id),
{
    lemma_remove_id_sorted(rows, id);
    lemma_remove_id_props(rows, id);
    let r = remove_id_rows(rows, id);
    assert forall|i: int|
        0 <= i < r.len() implies 1 <= (#[trigger] r[i]).id < next_id && r[i].id <= i64::MAX by {
        assert(rows.contains(r[i]));
        let w = choose|w: int| 0 <= w < rows.len() && rows[w] == r[i];
        assert(1 <= rows[w].id < next_id);
    }
}

/// Law: deleting an existing id removes exactly one row, and a second delete
/// of the same id finds nothing and changes nothing.
pub proof fn lemma_delete_exactly_one(rows: Seq<ItemModel>, id: int)
    requires
        sorted_desc(rows),
        has_id(rows, id),
    ensures
        remove_id_rows(rows, id).len() == rows.len() - 1,
        !has_id(remove_id_rows(rows, id), id),
        remove_id_rows(remove_id_rows(rows, id), id) == remove_id_rows(rows, id),
{
    lemma_count_id_of_sorted(rows, id);
    lemma_remove_id_props(rows, id);
    lemma_remove_id_props(remove_id_rows(rows, id), id);
}

pub proof fn lemma_sorted_ids_spread(rows: Seq<ItemModel>)
    requires
        sorted_desc(rows),
        rows.len() > 0,
    ensures
        rows[0].id >= rows[rows.len() - 1].id + rows.len() - 1,
    decreases rows.len(),
{
    if rows.len() > 1 {
        let dl = rows.drop_last();
        lemma_sorted_drop_last(rows);
        lemma_sorted_ids_spread(dl);
        assert(dl[0] == rows[0]);
        assert(dl[dl.len() - 1] == rows[rows.len() - 2]);
        assert(rows[rows.len() - 2].id > rows[rows.len() - 1].id);
    }
}

/// A well-formed table cannot hold more rows than there are distinct ids.
pub proof fn lemma_wf_len_bound(rows: Seq<ItemModel>, next_id: int)
    requires
        wf_table(rows, next_id),
    ensures
        rows.len() <= i64::MAX,
{
    if rows.len() > 0 {
        lemma_sorted_ids_spread(rows);
        assert(1 <= rows[rows.len() - 1].id);
        assert(rows[0].id <= i64::MAX);
    }
}

/// Law: a requested page is the contiguous window of the full listing that
/// starts `(page - 1) * limit` rows in, holds at most `limit` rows, and keeps
/// the listing order — row `k` of the page is row `(page - 1) * limit + k` of
/// the whole listing.
pub proof fn lemma_page_is_window(rows: Seq<ItemModel>, page: int, limit: int)
    requires
        1 <= page,
        1 <= limit,
    ensures
        page_of(rows, page, limit).len() <= limit,
        forall|k: int|
            0 <= k < page_of(rows, page, limit).len() ==> page_of(rows, page, limit)[k] == rows[(
            page - 1) * limit + k],
        page_of(rows, page, limit).len() == if (page - 1) * limit >= rows.len() {
            0int
        } else if (page - 1) * limit + limit >= rows.len() {
            rows.len() - (page - 1) * limit
        } else {
            limit
        },
{
    assert((page - 1) * limit >= 0) by (nonlinear_arith)
        requires
            page >= 1,
            limit >= 1,
    ;
}

} // verus!
