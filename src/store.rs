use vstd::prelude::*;
use crate::account::Account;
use crate::budget::Budget;
use crate::error::StoreError;
use crate::record::Record;

verus! {

/// Budget ids are present and strictly increasing along the table.
pub open spec fn budget_ids_increasing(rows: Seq<Budget>) -> bool {
    &&& forall|i: int| 0 <= i < rows.len() ==> (#[trigger] rows[i]).budget_id is Some
    &&& forall|i: int, j: int|
        0 <= i < j < rows.len() ==> (#[trigger] rows[i]).budget_id->0 < (#[trigger] rows[j]).budget_id->0
}

/// No two budgets share a name.
pub open spec fn names_distinct(rows: Seq<Budget>) -> bool {
    forall|i: int, j: int|
        0 <= i < rows.len() && 0 <= j < rows.len() && i != j ==> (#[trigger] rows[i]).name@
            != (#[trigger] rows[j]).name@
}

/// Record ids are present and strictly increasing: the table is in the
/// order of insertion.
pub open spec fn record_ids_increasing(rows: Seq<Record>) -> bool {
    &&& forall|i: int| 0 <= i < rows.len() ==> (#[trigger] rows[i]).record_id is Some
    &&& forall|i: int, j: int|
        0 <= i < j < rows.len() ==> (#[trigger] rows[i]).record_id->0 < (#[trigger] rows[j]).record_id->0
}

/// Account ids are present, positive and strictly increasing.
pub open spec fn account_ids_increasing(rows: Seq<Account>) -> bool {
    &&& forall|i: int|
        0 <= i < rows.len() ==> (#[trigger] rows[i]).account_id is Some && rows[i].account_id->0 > 0
    &&& forall|i: int, j: int|
        0 <= i < j < rows.len() ==> (#[trigger] rows[i]).account_id->0 < (#[trigger] rows[j]).account_id->0
}

pub open spec fn has_budget(rows: Seq<Budget>, id: u32) -> bool {
    exists|i: int| 0 <= i < rows.len() && (#[trigger] rows[i]).budget_id == Some(id)
}

/// The position of the budget with the given id (meaningful when there is one).
pub open spec fn budget_index(rows: Seq<Budget>, id: u32) -> int {
    choose|i: int| 0 <= i < rows.len() && (#[trigger] rows[i]).budget_id == Some(id)
}

pub open spec fn name_taken(rows: Seq<Budget>, name: Seq<char>) -> bool {
    exists|i: int| 0 <= i < rows.len() && (#[trigger] rows[i]).name@ == name
}

/// Whether a name is held by some budget other than the one with id `id`.
pub open spec fn name_taken_by_other(rows: Seq<Budget>, name: Seq<char>, id: u32) -> bool {
    exists|i: int|
        0 <= i < rows.len() && (#[trigger] rows[i]).name@ == name && rows[i].budget_id != Some(id)
}

/// The id the next inserted budget receives: one past the largest, or none
/// when the largest is the last id there is.
pub open spec fn next_budget_id(rows: Seq<Budget>) -> Option<u32> {
    if rows.len() == 0 {
        Some(1)
    } else if rows.last().budget_id->0 == u32::MAX {
        None
    } else {
        Some((rows.last().budget_id->0 + 1) as u32)
    }
}

pub open spec fn next_record_id(rows: Seq<Record>) -> Option<u32> {
    if rows.len() == 0 {
        Some(1)
    } else if rows.last().record_id->0 == u32::MAX {
        None
    } else {
        Some((rows.last().record_id->0 + 1) as u32)
    }
}

pub open spec fn next_account_id(rows: Seq<Account>) -> Option<i32> {
    if rows.len() == 0 {
        Some(1)
    } else if rows.last().account_id->0 == i32::MAX {
        None
    } else {
        Some((rows.last().account_id->0 + 1) as i32)
    }
}

/// Whether some budget holds `name`, other than the one with id `except`
/// (when given).
pub(crate) fn name_in_use(rows: &Vec<Budget>, name: &String, except: Option<u32>) -> (r: bool)
    ensures
        r == (exists|i: int|
            0 <= i < rows@.len() && (#[trigger] rows@[i]).name@ == name@ && (except is None
                || rows@[i].budget_id != except)),
{
    let mut i: usize = 0;
    while i < rows.len()
        invariant
            i <= rows@.len(),
            forall|j: int|
                0 <= j < i ==> !((#[trigger] rows@[j]).name@ == name@ && (except is None
                    || rows@[j].budget_id != except)),
        decreases rows@.len() - i,
    {
        if rows[i].name == *name && (except.is_none() || rows[i].budget_id != except) {
            return true;
        }
        i = i + 1;
    }
    false
}

/// The tables of the budget manager: budgets, their audit records, and
/// accounts. Every write goes through a method that keeps `wf`.
pub struct Ledger {
    budgets: Vec<Budget>,
    records: Vec<Record>,
    accounts: Vec<Account>,
}

impl Ledger {
    pub closed spec fn budget_rows(&self) -> Seq<Budget> {
        self.budgets@
    }

    pub closed spec fn record_rows(&self) -> Seq<Record> {
        self.records@
    }

    pub closed spec fn account_rows(&self) -> Seq<Account> {
        self.accounts@
    }

    pub open spec fn wf(&self) -> bool {
        &&& budget_ids_increasing(self.budget_rows())
        &&& names_distinct(self.budget_rows())
        &&& record_ids_increasing(self.record_rows())
        &&& account_ids_increasing(self.account_rows())
    }

    /// An empty ledger.
    pub fn new() -> (r: Ledger)
        ensures
            r.wf(),
            r.budget_rows() == Seq::<Budget>::empty(),
            r.record_rows() == Seq::<Record>::empty(),
            r.account_rows() == Seq::<Account>::empty(),
    {
        Ledger { budgets: Vec::new(), records: Vec::new(), accounts: Vec::new() }
    }

    pub fn budgets(&self) -> (r: &Vec<Budget>)
        ensures
            r@ == self.budget_rows(),
    {
        &self.budgets
    }

    pub fn records(&self) -> (r: &Vec<Record>)
        ensures
            r@ == self.record_rows(),
    {
        &self.records
    }

    pub fn accounts(&self) -> (r: &Vec<Account>)
        ensures
            r@ == self.account_rows(),
    {
        &self.accounts
    }

    /// Adds a budget read back from storage, with the id it was stored
    /// under. It must come after every budget already loaded, in id order,
    /// and carry a name not in use; else `ConstraintViolation`, with
    /// nothing added.
    pub fn load_budget(&mut self, row: Budget) -> (r: Result<(), StoreError>)
        requires
            old(self).wf(),
        ensures
            final(self).wf(),
            final(self).record_rows() == old(self).record_rows(),
            final(self).account_rows() == old(self).account_rows(),
            ({
                let rows = old(self).budget_rows();
                let fits = row.budget_id is Some && (rows.len() == 0 || rows.last().budget_id->0
                    < row.budget_id->0) && !name_taken(rows, row.name@);
                if fits {
                    r is Ok && final(self).budget_rows() == rows.push(row)
                } else {
                    r == Err::<(), StoreError>(StoreError::ConstraintViolation)
                        && final(self).budget_rows() == rows
                }
            }),
    {
        let id = match row.budget_id {
            Some(id) => id,
            None => return Err(StoreError::ConstraintViolation),
        };
        let n = self.budgets.len();
        if n > 0 && self.budgets[n - 1].budget_id.unwrap() >= id {
            return Err(StoreError::ConstraintViolation);
        }
        if name_in_use(&self.budgets, &row.name, None) {
            return Err(StoreError::ConstraintViolation);
        }
        let ghost rows = self.budgets@;
        self.budgets.push(row);
        assert forall|i: int, j: int|
            0 <= i < self.budgets@.len() && 0 <= j < self.budgets@.len() && i != j implies
            (#[trigger] self.budgets@[i]).name@ != (#[trigger] self.budgets@[j]).name@ by {
            if i == rows.len() {
                assert(rows[j].name@ == self.budgets@[j].name@);
            } else if j == rows.len() {
                assert(rows[i].name@ == self.budgets@[i].name@);
            }
        }
        Ok(())
    }

    /// Adds a record read back from storage, with the id it was stored
    /// under; it must come after every record already loaded, in id order,
    /// else `ConstraintViolation`, with nothing added.
    pub fn load_record(&mut self, row: Record) -> (r: Result<(), StoreError>)
        requires
            old(self).wf(),
        ensures
            final(self).wf(),
            final(self).budget_rows() == old(self).budget_rows(),
            final(self).account_rows() == old(self).account_rows(),
            ({
                let rows = old(self).record_rows();
                let fits = row.record_id is Some && (rows.len() == 0 || rows.last().record_id->0
                    < row.record_id->0);
                if fits {
                    r is Ok && final(self).record_rows() == rows.push(row)
                } else {
                    r == Err::<(), StoreError>(StoreError::ConstraintViolation)
                        && final(self).record_rows() == rows
                }
            }),
    {
        let id = match row.record_id {
            Some(id) => id,
            None => return Err(StoreError::ConstraintViolation),
        };
        let n = self.records.len();
        if n > 0 && self.records[n - 1].record_id.unwrap() >= id {
            return Err(StoreError::ConstraintViolation);
        }
        self.records.push(row);
        Ok(())
    }

    /// The id the next inserted budget receives, if any is left.
    pub fn next_budget_id(&self) -> (r: Option<u32>)
        requires
            self.wf(),
        ensures
            r == next_budget_id(self.budget_rows()),
    {
        let n = self.budgets.len();
        if n == 0 {
            Some(1)
        } else {
            let last = self.budgets[n - 1].budget_id.unwrap();
            if last == u32::MAX {
                None
            } else {
                Some(last + 1)
            }
        }
    }

    /// The id the next inserted record receives, if any is left.
    pub fn next_record_id(&self) -> (r: Option<u32>)
        requires
            self.wf(),
        ensures
            r == next_record_id(self.record_rows()),
    {
        let n = self.records.len();
        if n == 0 {
            Some(1)
        } else {
            let last = self.records[n - 1].record_id.unwrap();
            if last == u32::MAX {
                None
            } else {
                Some(last + 1)
            }
        }
    }

    /// The id the next inserted account receives, if any is left.
    pub fn next_account_id(&self) -> (r: Option<i32>)
        requires
            self.wf(),
        ensures
            r == next_account_id(self.account_rows()),
    {
        let n = self.accounts.len();
        if n == 0 {
            Some(1)
        } else {
            let last = self.accounts[n - 1].account_id.unwrap();
            if last == i32::MAX {
                None
            } else {
                Some(last + 1)
            }
        }
    }

    /// Appends a budget that carries the next id and a name not in use.
    pub(crate) fn push_budget(&mut self, b: Budget)
        requires
            old(self).wf(),
            b.budget_id is Some,
            b.budget_id == next_budget_id(old(self).budget_rows()),
            !name_taken(old(self).budget_rows(), b.name@),
        ensures
            final(self).wf(),
            final(self).budget_rows() == old(self).budget_rows().push(b),
            final(self).record_rows() == old(self).record_rows(),
            final(self).account_rows() == old(self).account_rows(),
    {
        let ghost rows = self.budgets@;
        self.budgets.push(b);
        assert forall|i: int, j: int|
            0 <= i < self.budgets@.len() && 0 <= j < self.budgets@.len() && i != j implies
            (#[trigger] self.budgets@[i]).name@ != (#[trigger] self.budgets@[j]).name@ by {
            if i == rows.len() {
                assert(rows[j].name@ == self.budgets@[j].name@);
            } else if j == rows.len() {
                assert(rows[i].name@ == self.budgets@[i].name@);
            }
        }
    }

    /// Overwrites the budget at `i` with one of the same id whose name no
    /// other budget holds.
    pub(crate) fn replace_budget(&mut self, i: usize, b: Budget)
        requires
            old(self).wf(),
            i < old(self).budget_rows().len(),
            b.budget_id == old(self).budget_rows()[i as int].budget_id,
            !name_taken_by_other(old(self).budget_rows(), b.name@, b.budget_id->0),
        ensures
            final(self).wf(),
            final(self).budget_rows() == old(self).budget_rows().update(i as int, b),
            final(self).record_rows() == old(self).record_rows(),
            final(self).account_rows() == old(self).account_rows(),
    {
        let ghost rows = self.budgets@;
        self.budgets.set(i, b);
        assert forall|k: int, j: int|
            0 <= k < self.budgets@.len() && 0 <= j < self.budgets@.len() && k != j implies
            (#[trigger] self.budgets@[k]).name@ != (#[trigger] self.budgets@[j]).name@ by {
            if k == i {
                assert(rows[j].budget_id != b.budget_id);
                assert(rows[j].name@ == self.budgets@[j].name@);
            } else if j == i {
                assert(rows[k].budget_id != b.budget_id);
                assert(rows[k].name@ == self.budgets@[k].name@);
            }
        }
    }

    /// Removes the budget at `i`; its records stay.
    pub(crate) fn remove_budget(&mut self, i: usize)
        requires
            old(self).wf(),
            i < old(self).budget_rows().len(),
        ensures
            final(self).wf(),
            final(self).budget_rows() == old(self).budget_rows().remove(i as int),
            final(self).record_rows() == old(self).record_rows(),
            final(self).account_rows() == old(self).account_rows(),
    {
        let ghost rows = self.budgets@;
        self.budgets.remove(i);
        assert forall|k: int, j: int| 0 <= k < j < self.budgets@.len() implies
            (#[trigger] self.budgets@[k]).budget_id->0 < (#[trigger] self.budgets@[j]).budget_id->0 by {
            let k2 = if k < i { k } else { k + 1 };
            let j2 = if j < i { j } else { j + 1 };
            assert(self.budgets@[k] == rows[k2] && self.budgets@[j] == rows[j2]);
        }
        assert forall|k: int, j: int|
            0 <= k < self.budgets@.len() && 0 <= j < self.budgets@.len() && k != j implies
            (#[trigger] self.budgets@[k]).name@ != (#[trigger] self.budgets@[j]).name@ by {
            let k2 = if k < i { k } else { k + 1 };
            let j2 = if j < i { j } else { j + 1 };
            assert(self.budgets@[k] == rows[k2] && self.budgets@[j] == rows[j2]);
        }
    }

    /// Appends a record that carries the next id.
    pub(crate) fn push_record(&mut self, r: Record)
        requires
            old(self).wf(),
            r.record_id is Some,
            r.record_id == next_record_id(old(self).record_rows()),
        ensures
            final(self).wf(),
            final(self).budget_rows() == old(self).budget_rows(),
            final(self).record_rows() == old(self).record_rows().push(r),
            final(self).account_rows() == old(self).account_rows(),
    {
        self.records.push(r);
    }

    /// Removes the record at `i`.
    pub(crate) fn remove_record(&mut self, i: usize)
        requires
            old(self).wf(),
            i < old(self).record_rows().len(),
        ensures
            final(self).wf(),
            final(self).budget_rows() == old(self).budget_rows(),
            final(self).record_rows() == old(self).record_rows().remove(i as int),
            final(self).account_rows() == old(self).account_rows(),
    {
        let ghost rows = self.records@;
        self.records.remove(i);
        assert forall|k: int, j: int| 0 <= k < j < self.records@.len() implies
            (#[trigger] self.records@[k]).record_id->0 < (#[trigger] self.records@[j]).record_id->0 by {
            let k2 = if k < i { k } else { k + 1 };
            let j2 = if j < i { j } else { j + 1 };
            assert(self.records@[k] == rows[k2] && self.records@[j] == rows[j2]);
        }
    }

    /// Appends an account that carries the next id.
    pub(crate) fn push_account(&mut self, a: Account)
        requires
            old(self).wf(),
            a.account_id is Some,
            a.account_id == next_account_id(old(self).account_rows()),
        ensures
            final(self).wf(),
            final(self).budget_rows() == old(self).budget_rows(),
            final(self).record_rows() == old(self).record_rows(),
            final(self).account_rows() == old(self).account_rows().push(a),
    {
        self.accounts.push(a);
    }

    /// Overwrites the account at `i` with one of the same id.
    pub(crate) fn replace_account(&mut self, i: usize, a: Account)
        requires
            old(self).wf(),
            i < old(self).account_rows().len(),
            a.account_id == old(self).account_rows()[i as int].account_id,
        ensures
            final(self).wf(),
            final(self).budget_rows() == old(self).budget_rows(),
            final(self).record_rows() == old(self).record_rows(),
            final(self).account_rows() == old(self).account_rows().update(i as int, a),
    {
        self.accounts.set(i, a);
    }

    /// Removes the account at `i`.
    pub(crate) fn remove_account_at(&mut self, i: usize)
        requires
            old(self).wf(),
            i < old(self).account_rows().len(),
        ensures
            final(self).wf(),
            final(self).budget_rows() == old(self).budget_rows(),
            final(self).record_rows() == old(self).record_rows(),
            final(self).account_rows() == old(self).account_rows().remove(i as int),
    {
        let ghost rows = self.accounts@;
        self.accounts.remove(i);
        assert forall|k: int, j: int| 0 <= k < j < self.accounts@.len() implies
            (#[trigger] self.accounts@[k]).account_id->0 < (#[trigger] self.accounts@[j]).account_id->0 by {
            let k2 = if k < i { k } else { k + 1 };
            let j2 = if j < i { j } else { j + 1 };
            assert(self.accounts@[k] == rows[k2] && self.accounts@[j] == rows[j2]);
        }
    }
}

/// With increasing ids, the budget found at `i` is the one `budget_index` names.
pub proof fn lemma_budget_index(rows: Seq<Budget>, id: u32, i: int)
    requires
        budget_ids_increasing(rows),
        0 <= i < rows.len(),
        rows[i].budget_id == Some(id),
    ensures
        has_budget(rows, id),
        budget_index(rows, id) == i,
{
    assert(has_budget(rows, id));
    let j = budget_index(rows, id);
    if j < i {
        assert(rows[j].budget_id->0 < rows[i].budget_id->0);
    } else if i < j {
        assert(rows[i].budget_id->0 < rows[j].budget_id->0);
    }
}

} // verus!
