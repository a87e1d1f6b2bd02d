//! Update-then-read properties of the savings operations, stated over
//! the table model and proved once for every table, identity and value.
//!
//! Each lemma links a write's transition to the reads that follow it:
//! the written field reads back exactly, the sibling fields are
//! unchanged, every other identity's record is untouched, and the table
//! invariant is preserved.

use vstd::prelude::*;

use crate::model::has_user;
use crate::model::lemma_update_row;
use crate::model::record_of;
use crate::model::retirement_view;
use crate::model::row_index;
use crate::model::row_wf;
use crate::model::row_with_goal;
use crate::model::row_with_retirement;
use crate::model::row_with_savings;
use crate::model::table_wf;
use crate::model::with_goal;
use crate::model::with_retirement;
use crate::model::with_savings;
use crate::model::UserRow;

verus! {

/// Updating the savings balance to a non-negative `s` and then reading
/// yields `s` for the balance and leaves the goal, the retirement
/// balance and every other identity's record unchanged.
pub proof fn lemma_update_savings_then_read(rows: Seq<UserRow>, id: u64, s: i64)
    requires
        table_wf(rows),
        has_user(rows, id),
        s >= 0,
    ensures
        ({
            let rows2 = with_savings(rows, id, s);
            &&& table_wf(rows2)
            &&& has_user(rows2, id)
            &&& record_of(rows2, id).savings == s
            &&& record_of(rows2, id).savings_goal == record_of(rows, id).savings_goal
            &&& record_of(rows2, id).retirement_savings == record_of(rows, id).retirement_savings
            &&& forall|u: u64| u != id ==> has_user(rows2, u) == has_user(rows, u)
            &&& forall|u: u64|
                u != id && has_user(rows, u) ==> record_of(rows2, u) == record_of(rows, u)
        }),
{
    let i = row_index(rows, id);
    assert(0 <= i < rows.len() && rows[i].id == id);
    assert(row_wf(rows[i]));
    lemma_update_row(rows, id, row_with_savings(record_of(rows, id), s));
}

/// Updating the savings goal to a non-negative `g` and then reading
/// yields `g` for the goal and leaves the savings balance, the
/// retirement balance and every other identity's record unchanged.
pub proof fn lemma_update_goal_then_read(rows: Seq<UserRow>, id: u64, g: i64)
    requires
        table_wf(rows),
        has_user(rows, id),
        g >= 0,
    ensures
        ({
            let rows2 = with_goal(rows, id, g);
            &&& table_wf(rows2)
            &&& has_user(rows2, id)
            &&& record_of(rows2, id).savings_goal == g
            &&& record_of(rows2, id).savings == record_of(rows, id).savings
            &&& record_of(rows2, id).retirement_savings == record_of(rows, id).retirement_savings
            &&& forall|u: u64| u != id ==> has_user(rows2, u) == has_user(rows, u)
            &&& forall|u: u64|
                u != id && has_user(rows, u) ==> record_of(rows2, u) == record_of(rows, u)
        }),
{
    let i = row_index(rows, id);
    assert(0 <= i < rows.len() && rows[i].id == id);
    assert(row_wf(rows[i]));
    lemma_update_row(rows, id, row_with_goal(record_of(rows, id), g));
}

/// Updating the retirement balance to a non-negative `v` and then
/// reading leniently yields exactly `v`, and leaves the savings balance,
/// the goal and every other identity's record unchanged.
pub proof fn lemma_update_retirement_then_read(rows: Seq<UserRow>, id: u64, v: i64)
    requires
        table_wf(rows),
        has_user(rows, id),
        v >= 0,
    ensures
        ({
            let rows2 = with_retirement(rows, id, v);
            &&& table_wf(rows2)
            &&& has_user(rows2, id)
            &&& retirement_view(rows2, id) == v
            &&& record_of(rows2, id).savings == record_of(rows, id).savings
            &&& record_of(rows2, id).savings_goal == record_of(rows, id).savings_goal
            &&& forall|u: u64| u != id ==> has_user(rows2, u) == has_user(rows, u)
            &&& forall|u: u64|
                u != id && has_user(rows, u) ==> record_of(rows2, u) == record_of(rows, u)
        }),
{
    let i = row_index(rows, id);
    assert(0 <= i < rows.len() && rows[i].id == id);
    assert(row_wf(rows[i]));
    lemma_update_row(rows, id, row_with_retirement(record_of(rows, id), v));
}

} // verus!
