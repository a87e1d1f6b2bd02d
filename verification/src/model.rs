//! Mathematical model of the users table, restricted to the wealth fields.
//!
//! The table is a sequence of rows with pairwise distinct ids. Lookup,
//! the state transition of each update operation, and the lenient
//! retirement read are spec functions here; the executable store in
//! [`crate::service`] states its contracts over them.

use vstd::prelude::*;

verus! {

/// One row of the users table, restricted to the wealth fields this
/// service touches. Amounts are integers in minor currency units. The
/// retirement balance is optional: a record may lack a stored value.
#[derive(Clone, Copy, Debug)]
pub struct UserRow {
    pub id: u64,
    pub savings: i64,
    pub savings_goal: i64,
    pub retirement_savings: Option<i64>,
}

/// A stored optional amount is well formed when, if present, it is
/// non-negative.
pub open spec fn opt_amount_wf(a: Option<i64>) -> bool {
    match a {
        Some(v) => v >= 0,
        None => true,
    }
}

/// A row is well formed when every monetary field it stores is
/// non-negative.
pub open spec fn row_wf(r: UserRow) -> bool {
    r.savings >= 0 && r.savings_goal >= 0 && opt_amount_wf(r.retirement_savings)
}

/// No two rows share an id, so lookups and updates by id touch at most
/// one row.
pub open spec fn distinct_ids(rows: Seq<UserRow>) -> bool {
    forall|i: int, j: int| 0 <= i < j < rows.len() ==> rows[i].id != rows[j].id
}

/// The table invariant: ids are pairwise distinct and every row is well
/// formed.
pub open spec fn table_wf(rows: Seq<UserRow>) -> bool {
    &&& distinct_ids(rows)
    &&& forall|i: int| 0 <= i < rows.len() ==> row_wf(#[trigger] rows[i])
}

/// The identity resolves to a record.
pub open spec fn has_user(rows: Seq<UserRow>, id: u64) -> bool {
    exists|i: int| 0 <= i < rows.len() && (#[trigger] rows[i]).id == id
}

/// The position of the identity's row. Meaningful only under
/// `has_user(rows, id)`.
pub open spec fn row_index(rows: Seq<UserRow>, id: u64) -> int {
    choose|i: int| 0 <= i < rows.len() && (#[trigger] rows[i]).id == id
}

/// The identity's record. Meaningful only under `has_user(rows, id)`.
pub open spec fn record_of(rows: Seq<UserRow>, id: u64) -> UserRow {
    rows[row_index(rows, id)]
}

/// `r` with its liquid savings balance overwritten.
pub open spec fn row_with_savings(r: UserRow, v: i64) -> UserRow {
    UserRow { id: r.id, savings: v, savings_goal: r.savings_goal, retirement_savings: r.retirement_savings }
}

/// `r` with its savings goal overwritten.
pub open spec fn row_with_goal(r: UserRow, v: i64) -> UserRow {
    UserRow { id: r.id, savings: r.savings, savings_goal: v, retirement_savings: r.retirement_savings }
}

/// `r` with its retirement balance overwritten (and so present).
pub open spec fn row_with_retirement(r: UserRow, v: i64) -> UserRow {
    UserRow { id: r.id, savings: r.savings, savings_goal: r.savings_goal, retirement_savings: Some(v) }
}

/// The table after the identity's liquid savings balance is overwritten
/// with `v`. Meaningful only under `has_user(rows, id)`.
pub open spec fn with_savings(rows: Seq<UserRow>, id: u64, v: i64) -> Seq<UserRow> {
    rows.update(row_index(rows, id), row_with_savings(record_of(rows, id), v))
}

/// The table after the identity's savings goal is overwritten with `v`.
/// Meaningful only under `has_user(rows, id)`.
pub open spec fn with_goal(rows: Seq<UserRow>, id: u64, v: i64) -> Seq<UserRow> {
    rows.update(row_index(rows, id), row_with_goal(record_of(rows, id), v))
}

/// The table after the identity's retirement balance is overwritten with
/// `v`. Meaningful only under `has_user(rows, id)`.
pub open spec fn with_retirement(rows: Seq<UserRow>, id: u64, v: i64) -> Seq<UserRow> {
    rows.update(row_index(rows, id), row_with_retirement(record_of(rows, id), v))
}

/// What the lenient retirement read yields: the stored value where the
/// identity has a record that holds one, and the default of zero in every
/// other case (no record, or no stored value).
pub open spec fn retirement_view(rows: Seq<UserRow>, id: u64) -> i64 {
    if has_user(rows, id) {
        match record_of(rows, id).retirement_savings {
            Some(v) => v,
            None => 0,
        }
    } else {
        0
    }
}

/// Under distinct ids, a row holding `id` at position `i` is the row that
/// lookup by `id` finds.
pub proof fn lemma_row_index_is(rows: Seq<UserRow>, id: u64, i: int)
    requires
        distinct_ids(rows),
        0 <= i < rows.len(),
        rows[i].id == id,
    ensures
        has_user(rows, id),
        row_index(rows, id) == i,
        record_of(rows, id) == rows[i],
{
    assert(has_user(rows, id));
    let j = row_index(rows, id);
    assert(0 <= j < rows.len() && rows[j].id == id);
    if i < j {
        assert(rows[i].id != rows[j].id);
    } else if j < i {
        assert(rows[j].id != rows[i].id);
    }
}

/// Overwriting the identity's row with a well-formed row of the same id
/// keeps the table invariant, makes lookup of that id find the new row,
/// and leaves every other identity's record exactly as it was.
pub proof fn lemma_update_row(rows: Seq<UserRow>, id: u64, r2: UserRow)
    requires
        table_wf(rows),
        has_user(rows, id),
        r2.id == id,
        row_wf(r2),
    ensures
        ({
            let rows2 = rows.update(row_index(rows, id), r2);
            &&& rows2.len() == rows.len()
            &&& table_wf(rows2)
            &&& has_user(rows2, id)
            &&& record_of(rows2, id) == r2
            &&& forall|u: u64| u != id ==> has_user(rows2, u) == has_user(rows, u)
            &&& forall|u: u64| u != id && has_user(rows, u) ==> record_of(rows2, u) == record_of(rows, u)
        }),
{
    let i = row_index(rows, id);
    assert(0 <= i < rows.len() && rows[i].id == id);
    let rows2 = rows.update(i, r2);
    assert(forall|k: int| 0 <= k < rows.len() ==> (#[trigger] rows2[k]).id == rows[k].id);
    assert(distinct_ids(rows2));
    assert(forall|k: int| 0 <= k < rows2.len() ==> row_wf(#[trigger] rows2[k]));
    lemma_row_index_is(rows2, id, i);
    assert forall|u: u64| u != id implies has_user(rows2, u) == has_user(rows, u) by {
        if has_user(rows, u) {
            let k = row_index(rows, u);
            assert(0 <= k < rows.len() && rows[k].id == u);
            assert(rows2[k].id == u);
            assert(has_user(rows2, u));
        }
        if has_user(rows2, u) {
            let k = row_index(rows2, u);
            assert(0 <= k < rows2.len() && rows2[k].id == u);
            assert(rows[k].id == u);
            assert(has_user(rows, u));
        }
    }
    assert forall|u: u64| u != id && has_user(rows, u) implies record_of(rows2, u) == record_of(rows, u) by {
        let k = row_index(rows, u);
        assert(0 <= k < rows.len() && rows[k].id == u);
        assert(k != i);
        lemma_row_index_is(rows2, u, k);
    }
}

} // verus!
