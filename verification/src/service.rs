//! The savings record service: an in-memory users table and the verified
//! cores of the five request handlers.
//!
//! Each operation is keyed by the authenticated caller's identity,
//! validates its input before touching storage, and reports either the
//! committed values or an error. Contracts are stated over the table
//! model in [`crate::model`].

use vstd::prelude::*;

use crate::model::distinct_ids;
use crate::model::has_user;
use crate::model::lemma_row_index_is;
use crate::model::lemma_update_row;
use crate::model::opt_amount_wf;
use crate::model::record_of;
use crate::model::retirement_view;
use crate::model::row_wf;
use crate::model::row_with_goal;
use crate::model::row_with_retirement;
use crate::model::row_with_savings;
use crate::model::table_wf;
use crate::model::with_goal;
use crate::model::with_retirement;
use crate::model::with_savings;
use crate::model::UserRow;

verus! {

/// Savings balance and goal, as a read or a write reports them.
#[derive(Clone, Copy, Debug, PartialEq, Eq, Structural)]
pub struct SavingsResponse {
    pub savings: i64,
    pub savings_goal: i64,
}

/// Request body of a savings update.
#[derive(Clone, Copy, Debug, PartialEq, Eq, Structural)]
pub struct UpdateSavings {
    pub savings: i64,
}

/// Request body of a savings-goal update.
#[derive(Clone, Copy, Debug, PartialEq, Eq, Structural)]
pub struct UpdateSavingsGoal {
    pub savings_goal: i64,
}

/// Retirement balance, as a read or a write reports it.
#[derive(Clone, Copy, Debug, PartialEq, Eq, Structural)]
pub struct RetirementSavingsResponse {
    pub retirement_savings: i64,
}

/// Request body of a retirement-savings update.
#[derive(Clone, Copy, Debug, PartialEq, Eq, Structural)]
pub struct UpdateRetirementSavings {
    pub retirement_savings: i64,
}

/// The monetary field an input value belongs to, named in validation
/// errors so the caller can identify the offending field.
#[derive(Clone, Copy, Debug, PartialEq, Eq, Structural)]
pub enum WealthField {
    Savings,
    SavingsGoal,
    RetirementSavings,
}

/// Why an operation failed.
#[derive(Clone, Copy, Debug, PartialEq, Eq, Structural)]
pub enum SavingsError {
    /// The named input field is negative. Storage was not touched.
    Validation(WealthField),
    /// A storage read or lookup failed.
    Storage,
}

impl UpdateSavings {
    /// Range check at the input boundary: the new balance must be
    /// non-negative. Never mutates the input.
    pub fn validate(&self) -> (r: Result<(), SavingsError>)
        ensures
            self.savings >= 0 ==> r is Ok,
            self.savings < 0 ==> (r matches Err(e) && e == SavingsError::Validation(
                WealthField::Savings,
            )),
    {
        if self.savings >= 0 {
            Ok(())
        } else {
            Err(SavingsError::Validation(WealthField::Savings))
        }
    }
}

impl UpdateSavingsGoal {
    /// Range check at the input boundary: the new goal must be
    /// non-negative. Never mutates the input.
    pub fn validate(&self) -> (r: Result<(), SavingsError>)
        ensures
            self.savings_goal >= 0 ==> r is Ok,
            self.savings_goal < 0 ==> (r matches Err(e) && e == SavingsError::Validation(
                WealthField::SavingsGoal,
            )),
    {
        if self.savings_goal >= 0 {
            Ok(())
        } else {
            Err(SavingsError::Validation(WealthField::SavingsGoal))
        }
    }
}

impl UpdateRetirementSavings {
    /// Range check at the input boundary: the new balance must be
    /// non-negative. Never mutates the input.
    pub fn validate(&self) -> (r: Result<(), SavingsError>)
        ensures
            self.retirement_savings >= 0 ==> r is Ok,
            self.retirement_savings < 0 ==> (r matches Err(e) && e == SavingsError::Validation(
                WealthField::RetirementSavings,
            )),
    {
        if self.retirement_savings >= 0 {
            Ok(())
        } else {
            Err(SavingsError::Validation(WealthField::RetirementSavings))
        }
    }
}

/// The fallback at the call site of the lenient retirement read: a
/// failed read yields the default balance of zero in place of an error.
pub fn retirement_savings_or_default(read: Result<i64, SavingsError>) -> (r: i64)
    ensures
        read matches Ok(v) ==> r == v,
        read is Err ==> r == 0,
{
    match read {
        Ok(v) => v,
        Err(_) => 0,
    }
}

/// The users table held in memory, restricted to the wealth fields: the
/// verified stand-in for the relational table behind the service.
pub struct SavingsStore {
    rows: Vec<UserRow>,
}

impl View for SavingsStore {
    type V = Seq<UserRow>;

    closed spec fn view(&self) -> Seq<UserRow> {
        self.rows@
    }
}

impl SavingsStore {
    /// The table invariant, established at creation and carried through
    /// every operation.
    pub open spec fn wf(&self) -> bool {
        table_wf(self@)
    }

    /// An empty table.
    pub fn new() -> (s: SavingsStore)
        ensures
            s.wf(),
            s@.len() == 0,
    {
        SavingsStore { rows: Vec::new() }
    }

    /// The position of the identity's row, if the identity resolves to
    /// one.
    fn find_index(&self, id: u64) -> (r: Option<usize>)
        ensures
            match r {
                Some(i) => i < self@.len() && self@[i as int].id == id,
                None => !has_user(self@, id),
            },
    {
        let mut j: usize = 0;
        while j < self.rows.len()
            invariant
                j <= self.rows.len(),
                forall|k: int| 0 <= k < j ==> (#[trigger] self.rows@[k]).id != id,
            decreases self.rows.len() - j,
        {
            if self.rows[j].id == id {
                return Some(j);
            }
            j = j + 1;
        }
        None
    }

    /// Seed the table with a new identity's record, as account creation
    /// outside this service would. The record is added exactly when the
    /// id is fresh and every given amount is non-negative.
    pub fn add_user(
        &mut self,
        id: u64,
        savings: i64,
        savings_goal: i64,
        retirement_savings: Option<i64>,
    ) -> (added: bool)
        requires
            old(self).wf(),
        ensures
            final(self).wf(),
            added == (!has_user(old(self)@, id) && savings >= 0 && savings_goal >= 0
                && opt_amount_wf(retirement_savings)),
            added ==> final(self)@ == old(self)@.push(
                UserRow { id, savings, savings_goal, retirement_savings },
            ),
            !added ==> final(self)@ == old(self)@,
    {
        let idx = self.find_index(id);
        let fresh = idx.is_none();
        let retirement_ok = match retirement_savings {
            Some(v) => v >= 0,
            None => true,
        };
        if fresh && savings >= 0 && savings_goal >= 0 && retirement_ok {
            let row = UserRow { id, savings, savings_goal, retirement_savings };
            self.rows.push(row);
            proof {
                let rows0 = old(self)@;
                let rows2 = self@;
                assert forall|p: int, q: int|
                    0 <= p < q < rows2.len() implies (#[trigger] rows2[p]).id != (
                #[trigger] rows2[q]).id by {
                    if q < rows0.len() {
                        assert(rows2[p] == rows0[p] && rows2[q] == rows0[q]);
                    } else {
                        assert(rows2[q].id == id);
                        assert(rows2[p] == rows0[p]);
                        if rows0[p].id == id {
                            assert(has_user(rows0, id));
                        }
                    }
                }
                assert(forall|k: int|
                    0 <= k < rows2.len() ==> row_wf(#[trigger] rows2[k])) by {
                    assert(forall|k: int|
                        0 <= k < rows0.len() ==> row_wf(#[trigger] rows0[k]));
                    assert(rows2[rows0.len() as int] == row);
                    assert(forall|k: int|
                        0 <= k < rows0.len() ==> rows2[k] == #[trigger] rows0[k]);
                }
                assert(distinct_ids(rows2));
                assert(table_wf(rows2));
            }
            true
        } else {
            proof {
                match idx {
                    Some(i) => {
                        assert(old(self)@[i as int].id == id);
                        assert(has_user(old(self)@, id));
                    },
                    None => {},
                }
            }
            false
        }
    }

    /// Read the identity's savings balance and goal. A missing record
    /// surfaces as a storage error.
    pub fn get_savings(&self, id: u64) -> (r: Result<SavingsResponse, SavingsError>)
        requires
            self.wf(),
        ensures
            has_user(self@, id) ==> (r matches Ok(resp) && resp.savings == record_of(
                self@,
                id,
            ).savings && resp.savings_goal == record_of(self@, id).savings_goal),
            !has_user(self@, id) ==> (r matches Err(e) && e == SavingsError::Storage),
    {
        match self.find_index(id) {
            Some(i) => {
                proof {
                    lemma_row_index_is(self@, id, i as int);
                }
                let row = self.rows[i];
                Ok(SavingsResponse { savings: row.savings, savings_goal: row.savings_goal })
            },
            None => Err(SavingsError::Storage),
        }
    }

    /// Overwrite the identity's savings balance with a validated new
    /// value, then report it together with the goal as re-read from
    /// storage. A negative input is rejected before storage is touched;
    /// a missing record makes the write vacuous and the re-read fail.
    pub fn update_savings(&mut self, id: u64, payload: UpdateSavings) -> (r: Result<
        SavingsResponse,
        SavingsError,
    >)
        requires
            old(self).wf(),
        ensures
            final(self).wf(),
            payload.savings < 0 ==> (r matches Err(e) && e == SavingsError::Validation(
                WealthField::Savings,
            ) && final(self)@ == old(self)@),
            payload.savings >= 0 && !has_user(old(self)@, id) ==> (r matches Err(e) && e
                == SavingsError::Storage && final(self)@ == old(self)@),
            payload.savings >= 0 && has_user(old(self)@, id) ==> (r matches Ok(resp)
                && final(self)@ == with_savings(old(self)@, id, payload.savings)
                && resp.savings == payload.savings
                && resp.savings_goal == record_of(old(self)@, id).savings_goal),
    {
        if let Err(e) = payload.validate() {
            return Err(e);
        }
        match self.find_index(id) {
            Some(i) => {
                proof {
                    lemma_row_index_is(old(self)@, id, i as int);
                }
                let mut row = self.rows[i];
                row.savings = payload.savings;
                proof {
                    assert(row_wf(old(self)@[i as int]));
                    assert(row == row_with_savings(record_of(old(self)@, id), payload.savings));
                    lemma_update_row(old(self)@, id, row);
                }
                self.rows[i] = row;
                let goal: i64 = self.rows[i].savings_goal;
                Ok(SavingsResponse { savings: payload.savings, savings_goal: goal })
            },
            None => Err(SavingsError::Storage),
        }
    }

    /// Overwrite the identity's savings goal with a validated new value,
    /// then report it together with the balance as re-read from storage.
    /// A negative input is rejected before storage is touched; a missing
    /// record makes the write vacuous and the re-read fail.
    pub fn update_savings_goal(&mut self, id: u64, payload: UpdateSavingsGoal) -> (r: Result<
        SavingsResponse,
        SavingsError,
    >)
        requires
            old(self).wf(),
        ensures
            final(self).wf(),
            payload.savings_goal < 0 ==> (r matches Err(e) && e == SavingsError::Validation(
                WealthField::SavingsGoal,
            ) && final(self)@ == old(self)@),
            payload.savings_goal >= 0 && !has_user(old(self)@, id) ==> (r matches Err(e) && e
                == SavingsError::Storage && final(self)@ == old(self)@),
            payload.savings_goal >= 0 && has_user(old(self)@, id) ==> (r matches Ok(resp)
                && final(self)@ == with_goal(old(self)@, id, payload.savings_goal)
                && resp.savings == record_of(old(self)@, id).savings
                && resp.savings_goal == payload.savings_goal),
    {
        if let Err(e) = payload.validate() {
            return Err(e);
        }
        match self.find_index(id) {
            Some(i) => {
                proof {
                    lemma_row_index_is(old(self)@, id, i as int);
                }
                let mut row = self.rows[i];
                row.savings_goal = payload.savings_goal;
                proof {
                    assert(row_wf(old(self)@[i as int]));
                    assert(row == row_with_goal(record_of(old(self)@, id), payload.savings_goal));
                    lemma_update_row(old(self)@, id, row);
                }
                self.rows[i] = row;
                let savings: i64 = self.rows[i].savings;
                Ok(SavingsResponse { savings, savings_goal: payload.savings_goal })
            },
            None => Err(SavingsError::Storage),
        }
    }

    /// Strict read of the stored retirement balance: a missing record,
    /// or a record with no stored value, surfaces as a storage error.
    pub fn read_retirement_savings(&self, id: u64) -> (r: Result<i64, SavingsError>)
        requires
            self.wf(),
        ensures
            match r {
                Ok(v) => has_user(self@, id) && record_of(self@, id).retirement_savings == Some(v),
                Err(e) => e == SavingsError::Storage && (!has_user(self@, id) || record_of(
                    self@,
                    id,
                ).retirement_savings is None),
            },
    {
        match self.find_index(id) {
            Some(i) => {
                proof {
                    lemma_row_index_is(self@, id, i as int);
                }
                match self.rows[i].retirement_savings {
                    Some(v) => Ok(v),
                    None => Err(SavingsError::Storage),
                }
            },
            None => Err(SavingsError::Storage),
        }
    }

    /// Lenient read of the retirement balance: any failure of the strict
    /// read is converted to the default of zero, never to an error.
    pub fn get_retirement_savings(&self, id: u64) -> (resp: RetirementSavingsResponse)
        requires
            self.wf(),
        ensures
            resp.retirement_savings == retirement_view(self@, id),
    {
        let read = self.read_retirement_savings(id);
        RetirementSavingsResponse { retirement_savings: retirement_savings_or_default(read) }
    }

    /// Overwrite the identity's retirement balance with a validated new
    /// value and echo it back. A negative input is rejected before
    /// storage is touched; with no record the write is vacuous and, as
    /// no re-read follows, the operation still reports the new value.
    pub fn update_retirement_savings(&mut self, id: u64, payload: UpdateRetirementSavings) -> (r:
        Result<RetirementSavingsResponse, SavingsError>)
        requires
            old(self).wf(),
        ensures
            final(self).wf(),
            payload.retirement_savings < 0 ==> (r matches Err(e) && e == SavingsError::Validation(
                WealthField::RetirementSavings,
            ) && final(self)@ == old(self)@),
            payload.retirement_savings >= 0 ==> (r matches Ok(resp)
                && resp.retirement_savings == payload.retirement_savings
                && (has_user(old(self)@, id) ==> final(self)@ == with_retirement(
                old(self)@,
                id,
                payload.retirement_savings,
            )) && (!has_user(old(self)@, id) ==> final(self)@ == old(self)@)),
    {
        if let Err(e) = payload.validate() {
            return Err(e);
        }
        match self.find_index(id) {
            Some(i) => {
                proof {
                    lemma_row_index_is(old(self)@, id, i as int);
                }
                let mut row = self.rows[i];
                row.retirement_savings = Some(payload.retirement_savings);
                proof {
                    assert(row_wf(old(self)@[i as int]));
                    assert(row == row_with_retirement(
                        record_of(old(self)@, id),
                        payload.retirement_savings,
                    ));
                    lemma_update_row(old(self)@, id, row);
                }
                self.rows[i] = row;
                Ok(RetirementSavingsResponse { retirement_savings: payload.retirement_savings })
            },
            None => Ok(
                RetirementSavingsResponse { retirement_savings: payload.retirement_savings },
            ),
        }
    }
}

} // verus!
