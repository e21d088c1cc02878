use vstd::prelude::*;
use crate::error::StoreError;
use crate::store::{
    budget_ids_increasing, budget_index, has_budget, lemma_budget_index, name_in_use, name_taken,
    name_taken_by_other, next_budget_id, Ledger,
};
use crate::utils::{upper, upper_spec};

verus! {

/// A named pool of money: `initial_funds` is what a reset returns to,
/// `current_funds` what is left now. Amounts are counts of cents.
#[derive(Debug, Clone, PartialEq, Eq)]
pub struct Budget {
    pub budget_id: Option<u32>,
    pub name: String,
    pub initial_funds: i64,
    pub current_funds: i64,
}

/// The mathematical picture of a budget.
pub struct BudgetView {
    pub budget_id: Option<u32>,
    pub name: Seq<char>,
    pub initial_funds: int,
    pub current_funds: int,
}

impl View for Budget {
    type V = BudgetView;

    open spec fn view(&self) -> BudgetView {
        BudgetView {
            budget_id: self.budget_id,
            name: self.name@,
            initial_funds: self.initial_funds as int,
            current_funds: self.current_funds as int,
        }
    }
}

/// Whether `v` can be held as a cent count.
pub open spec fn fits_i64(v: int) -> bool {
    i64::MIN <= v <= i64::MAX
}

impl BudgetView {
    pub open spec fn increased(self, amount: int) -> BudgetView {
        BudgetView { current_funds: self.current_funds + amount, ..self }
    }

    pub open spec fn reduced(self, amount: int) -> BudgetView {
        BudgetView { current_funds: self.current_funds - amount, ..self }
    }

    pub open spec fn reset(self) -> BudgetView {
        BudgetView { current_funds: self.initial_funds, ..self }
    }

    pub open spec fn with_current(self, amount: int) -> BudgetView {
        BudgetView { current_funds: amount, ..self }
    }

    pub open spec fn with_initial(self, amount: int) -> BudgetView {
        BudgetView { initial_funds: amount, ..self }
    }

    /// The budget under a new name, normalized as at creation.
    pub open spec fn renamed(self, new_name: Seq<char>) -> BudgetView {
        BudgetView { name: upper_spec(new_name), ..self }
    }
}

impl Budget {
    /// A budget not yet stored: no id, the name normalized, and both
    /// balances at `funds`.
    pub fn new(name: &str, funds: &i64) -> (r: Budget)
        ensures
            r@ == (BudgetView {
                budget_id: None,
                name: upper_spec(name@),
                initial_funds: *funds as int,
                current_funds: *funds as int,
            }),
    {
        Budget { budget_id: None, name: upper(name), initial_funds: *funds, current_funds: *funds }
    }

    /// Adds `amount` to the current funds.
    pub fn increase_funds(&mut self, amount: &i64)
        requires
            fits_i64(old(self).current_funds + *amount),
        ensures
            final(self)@ == old(self)@.increased(*amount as int),
    {
        self.current_funds = self.current_funds + *amount;
    }

    /// Takes `amount` from the current funds; the balance may go below zero.
    pub fn reduce_funds(&mut self, amount: &i64)
        requires
            fits_i64(old(self).current_funds - *amount),
        ensures
            final(self)@ == old(self)@.reduced(*amount as int),
    {
        self.current_funds = self.current_funds - *amount;
    }

    /// Brings the current funds back to the initial funds.
    pub fn reset_funds(&mut self)
        ensures
            final(self)@ == old(self)@.reset(),
    {
        self.current_funds = self.initial_funds;
    }

    /// Overwrites the current funds.
    pub fn set_current_funds(&mut self, amount: &i64)
        ensures
            final(self)@ == old(self)@.with_current(*amount as int),
    {
        self.current_funds = *amount;
    }

    /// Overwrites the initial funds.
    pub fn set_initial_funds(&mut self, amount: &i64)
        ensures
            final(self)@ == old(self)@.with_initial(*amount as int),
    {
        self.initial_funds = *amount;
    }

    /// Gives the budget a new name, normalized as at creation.
    pub fn rename(&mut self, new_name: &str)
        ensures
            final(self)@ == old(self)@.renamed(new_name@),
    {
        self.name = upper(new_name);
    }

    /// A copy of this budget, field for field.
    pub fn duplicate(&self) -> (r: Budget)
        ensures
            r == *self,
    {
        Budget {
            budget_id: self.budget_id,
            name: self.name.clone(),
            initial_funds: self.initial_funds,
            current_funds: self.current_funds,
        }
    }
}

/// The position of the budget with id `id`, if there is one.
pub(crate) fn find_budget(rows: &Vec<Budget>, id: u32) -> (r: Option<usize>)
    requires
        budget_ids_increasing(rows@),
    ensures
        match r {
            Some(i) => i < rows@.len() && i as int == budget_index(rows@, id) && has_budget(
                rows@,
                id,
            ),
            None => !has_budget(rows@, id),
        },
{
    let mut i: usize = 0;
    while i < rows.len()
        invariant
            i <= rows@.len(),
            budget_ids_increasing(rows@),
            forall|j: int| 0 <= j < i ==> (#[trigger] rows@[j]).budget_id != Some(id),
        decreases rows@.len() - i,
    {
        if rows[i].budget_id == Some(id) {
            proof {
                lemma_budget_index(rows@, id, i as int);
            }
            return Some(i);
        }
        i = i + 1;
    }
    None
}

impl Budget {
    /// Stores this budget under the next free id and returns that id. A
    /// name already in use is refused, as is an insert when no id is left.
    pub fn insert_budget(&self, ledger: &mut Ledger) -> (r: Result<usize, StoreError>)
        requires
            old(ledger).wf(),
        ensures
            final(ledger).wf(),
            final(ledger).record_rows() == old(ledger).record_rows(),
            final(ledger).account_rows() == old(ledger).account_rows(),
            match r {
                Ok(id) => {
                    &&& !name_taken(old(ledger).budget_rows(), self.name@)
                    &&& next_budget_id(old(ledger).budget_rows()) == Some(id as u32)
                    &&& id as int == next_budget_id(old(ledger).budget_rows())->0 as int
                    &&& final(ledger).budget_rows() == old(ledger).budget_rows().push(
                        Budget { budget_id: Some(id as u32), ..*self },
                    )
                },
                Err(e) => {
                    &&& final(ledger).budget_rows() == old(ledger).budget_rows()
                    &&& name_taken(old(ledger).budget_rows(), self.name@) ==> e
                        == StoreError::ConstraintViolation
                    &&& !name_taken(old(ledger).budget_rows(), self.name@) ==> e
                        == StoreError::StorageFull && next_budget_id(old(ledger).budget_rows())
                        is None
                },
            },
            r is Ok <==> !name_taken(old(ledger).budget_rows(), self.name@) && next_budget_id(
                old(ledger).budget_rows(),
            ) is Some,
    {
        if name_in_use(ledger.budgets(), &self.name, None) {
            return Err(StoreError::ConstraintViolation);
        }
        match ledger.next_budget_id() {
            None => Err(StoreError::StorageFull),
            Some(id) => {
                let row = Budget {
                    budget_id: Some(id),
                    name: self.name.clone(),
                    initial_funds: self.initial_funds,
                    current_funds: self.current_funds,
                };
                ledger.push_budget(row);
                Ok(id as usize)
            },
        }
    }

    /// The stored budget with id `budget_id`; `NotFound` when there is none.
    pub fn get_budget_by_id(ledger: &Ledger, budget_id: &u32) -> (r: Result<Budget, StoreError>)
        requires
            ledger.wf(),
        ensures
            r is Ok <==> has_budget(ledger.budget_rows(), *budget_id),
            match r {
                Ok(b) => b == ledger.budget_rows()[budget_index(ledger.budget_rows(), *budget_id)],
                Err(e) => e == StoreError::NotFound,
            },
    {
        match find_budget(ledger.budgets(), *budget_id) {
            Some(i) => Ok(ledger.budgets()[i].duplicate()),
            None => Err(StoreError::NotFound),
        }
    }

    /// All stored budgets, in the order of their ids.
    pub fn get_all_budgets(ledger: &Ledger) -> (r: Result<Vec<Budget>, StoreError>)
        ensures
            r is Ok,
            r matches Ok(v) && v@ == ledger.budget_rows(),
    {
        let rows = ledger.budgets();
        let mut out: Vec<Budget> = Vec::new();
        let mut i: usize = 0;
        while i < rows.len()
            invariant
                i <= rows@.len(),
                rows@ == ledger.budget_rows(),
                out@ == rows@.subrange(0, i as int),
            decreases rows@.len() - i,
        {
            out.push(rows[i].duplicate());
            i = i + 1;
            assert(out@ =~= rows@.subrange(0, i as int));
        }
        assert(out@ =~= rows@);
        Ok(out)
    }

    /// Writes this budget over the stored one with the same id and returns
    /// the number of rows changed: 0 when there is no such budget. A name
    /// held by another budget is refused.
    pub fn update_budget(&self, ledger: &mut Ledger) -> (r: Result<usize, StoreError>)
        requires
            old(ledger).wf(),
        ensures
            final(ledger).wf(),
            final(ledger).record_rows() == old(ledger).record_rows(),
            final(ledger).account_rows() == old(ledger).account_rows(),
            ({
                let rows = old(ledger).budget_rows();
                let id = self.budget_id->0;
                if self.budget_id is None || !has_budget(rows, id) {
                    r == Ok::<usize, StoreError>(0) && final(ledger).budget_rows() == rows
                } else if name_taken_by_other(rows, self.name@, id) {
                    r == Err::<usize, StoreError>(StoreError::ConstraintViolation)
                        && final(ledger).budget_rows() == rows
                } else {
                    r == Ok::<usize, StoreError>(1) && final(ledger).budget_rows() == rows.update(
                        budget_index(rows, id),
                        *self,
                    )
                }
            }),
    {
        let id = match self.budget_id {
            Some(id) => id,
            None => return Ok(0),
        };
        match find_budget(ledger.budgets(), id) {
            None => Ok(0),
            Some(i) => {
                if name_in_use(ledger.budgets(), &self.name, Some(id)) {
                    return Err(StoreError::ConstraintViolation);
                }
                ledger.replace_budget(i, self.duplicate());
                Ok(1)
            },
        }
    }

    /// Deletes the budget with id `budget_id` and returns the number of rows
    /// removed. Its audit records are kept.
    pub fn delete_budget_by_id(ledger: &mut Ledger, budget_id: &u32) -> (r: Result<
        usize,
        StoreError,
    >)
        requires
            old(ledger).wf(),
        ensures
            final(ledger).wf(),
            final(ledger).record_rows() == old(ledger).record_rows(),
            final(ledger).account_rows() == old(ledger).account_rows(),
            has_budget(old(ledger).budget_rows(), *budget_id) ==> r == Ok::<usize, StoreError>(1)
                && final(ledger).budget_rows() == old(ledger).budget_rows().remove(
                budget_index(old(ledger).budget_rows(), *budget_id),
            ),
            !has_budget(old(ledger).budget_rows(), *budget_id) ==> r == Ok::<usize, StoreError>(0)
                && final(ledger).budget_rows() == old(ledger).budget_rows(),
    {
        match find_budget(ledger.budgets(), *budget_id) {
            Some(i) => {
                ledger.remove_budget(i);
                Ok(1)
            },
            None => Ok(0),
        }
    }
}

/// One change of the current funds, as made by `increase_funds`,
/// `reduce_funds` or `set_current_funds`.
pub enum FundsChange {
    Increase(int),
    Reduce(int),
    SetCurrent(int),
}

/// The budget after the changes `changes`, in order.
pub open spec fn apply_changes(b: BudgetView, changes: Seq<FundsChange>) -> BudgetView
    decreases changes.len(),
{
    if changes.len() == 0 {
        b
    } else {
        let next = match changes[0] {
            FundsChange::Increase(a) => b.increased(a),
            FundsChange::Reduce(a) => b.reduced(a),
            FundsChange::SetCurrent(a) => b.with_current(a),
        };
        apply_changes(next, changes.drop_first())
    }
}

/// Whatever changes of the current funds came before, a reset leaves the
/// current funds equal to the initial funds the budget started with, and a
/// second reset changes nothing.
pub proof fn lemma_reset_after_changes(b: BudgetView, changes: Seq<FundsChange>)
    ensures
        apply_changes(b, changes).initial_funds == b.initial_funds,
        apply_changes(b, changes).reset().current_funds == b.initial_funds,
        apply_changes(b, changes).reset().reset() == apply_changes(b, changes).reset(),
    decreases changes.len(),
{
    if changes.len() > 0 {
        let next = match changes[0] {
            FundsChange::Increase(a) => b.increased(a),
            FundsChange::Reduce(a) => b.reduced(a),
            FundsChange::SetCurrent(a) => b.with_current(a),
        };
        lemma_reset_after_changes(next, changes.drop_first());
    }
}

/// Increasing by an amount and then reducing by the same amount gives the
/// budget back unchanged.
pub proof fn lemma_increase_then_reduce(b: BudgetView, amount: int)
    ensures
        b.increased(amount).reduced(amount) == b,
{
}

/// Renaming and then renaming to a name with the same normalized form
/// leaves the name of the first rename; renaming back to a name that
/// normalizes to the stored one restores the budget.
pub proof fn lemma_rename_back(b: BudgetView, first: Seq<char>, second: Seq<char>)
    requires
        upper_spec(first) == upper_spec(second),
    ensures
        b.renamed(first).renamed(second) == b.renamed(first),
        upper_spec(second) == b.name ==> b.renamed(first).renamed(second) == b,
{
}

} // verus!
