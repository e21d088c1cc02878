use vstd::prelude::*;
use crate::budget::{fits_i64, Budget, BudgetView};
use crate::command::Command;
use crate::error::StoreError;
use crate::history::{effective_limit, lines_of, newest_selection, History};
use crate::record::{records_of, Record};
use crate::store::{
    budget_ids_increasing, budget_index, has_budget, lemma_budget_index, name_taken,
    name_taken_by_other, names_distinct, next_budget_id, next_record_id, Ledger,
};
use crate::utils::upper_spec;

verus! {

/// The budget and record tables of `after` equal those of `before`.
pub open spec fn tables_unchanged(before: Ledger, after: Ledger) -> bool {
    after.budget_rows() == before.budget_rows() && after.record_rows() == before.record_rows()
}

/// `after` is `before` with the budget `id` turned into `new_row` and one
/// audit entry appended for it, which records the action `label`, the
/// amount, the value before and after, and the note.
pub open spec fn audited_change(
    before: Ledger,
    after: Ledger,
    id: u32,
    new_row: BudgetView,
    label: Seq<char>,
    amount: i64,
    old_value: int,
    new_value: int,
    description: Option<String>,
) -> bool {
    let rows = before.budget_rows();
    let i = budget_index(rows, id);
    let entry = after.record_rows().last();
    &&& after.budget_rows().len() == rows.len()
    &&& after.budget_rows()[i]@ == new_row
    &&& forall|j: int| 0 <= j < rows.len() && j != i ==> after.budget_rows()[j] == rows[j]
    &&& after.record_rows().len() == before.record_rows().len() + 1
    &&& after.record_rows().drop_last() == before.record_rows()
    &&& entry.record_id == next_record_id(before.record_rows())
    &&& entry.budget_id == id
    &&& entry.action@ == label
    &&& entry.amount == amount
    &&& entry.old_value == old_value
    &&& entry.new_value == new_value
    &&& entry.description == description
}

/// What a funds mutation of budget `id` owes: `NotFound` when there is no
/// such budget, `FundsOverflow` when the new value does not fit,
/// `StorageFull` when no record id is left — each with nothing written —
/// and otherwise one changed row, one new audit entry, and `Ok(1)`.
pub open spec fn mutation_outcome(
    before: Ledger,
    after: Ledger,
    r: Result<usize, StoreError>,
    id: u32,
    in_range: bool,
    new_row: BudgetView,
    label: Seq<char>,
    amount: i64,
    old_value: int,
    new_value: int,
    description: Option<String>,
) -> bool {
    if !has_budget(before.budget_rows(), id) {
        r == Err::<usize, StoreError>(StoreError::NotFound) && tables_unchanged(before, after)
    } else if !in_range {
        r == Err::<usize, StoreError>(StoreError::FundsOverflow) && tables_unchanged(before, after)
    } else if next_record_id(before.record_rows()) is None {
        r == Err::<usize, StoreError>(StoreError::StorageFull) && tables_unchanged(before, after)
    } else {
        r == Ok::<usize, StoreError>(1) && audited_change(
            before,
            after,
            id,
            new_row,
            label,
            amount,
            old_value,
            new_value,
            description,
        )
    }
}

/// A mutation that went through leaves exactly one new audit entry for the
/// budget it changed, carrying the values before and after, and no new
/// entry for any other budget.
pub proof fn lemma_one_new_entry(
    before: Ledger,
    after: Ledger,
    id: u32,
    new_row: BudgetView,
    label: Seq<char>,
    amount: i64,
    old_value: int,
    new_value: int,
    description: Option<String>,
)
    requires
        audited_change(before, after, id, new_row, label, amount, old_value, new_value, description),
    ensures
        records_of(after.record_rows(), id).len() == records_of(before.record_rows(), id).len() + 1,
        records_of(after.record_rows(), id).last().old_value == old_value,
        records_of(after.record_rows(), id).last().new_value == new_value,
        forall|other: u32|
            other != id ==> #[trigger] records_of(after.record_rows(), other) == records_of(
                before.record_rows(),
                other,
            ),
{
    let rows = after.record_rows();
    assert(rows.drop_last() == before.record_rows());
    reveal(Seq::filter);
    assert(records_of(rows, id) == records_of(before.record_rows(), id).push(rows.last()));
    assert forall|other: u32| other != id implies #[trigger] records_of(rows, other) == records_of(
        before.record_rows(),
        other,
    ) by {
        reveal(Seq::filter);
    }
}

/// The stored budget with id `id` in `l`.
pub open spec fn row_of(l: Ledger, id: u32) -> Budget {
    l.budget_rows()[budget_index(l.budget_rows(), id)]
}

proof fn lemma_own_name_free(rows: Seq<Budget>, id: u32)
    requires
        budget_ids_increasing(rows),
        names_distinct(rows),
        has_budget(rows, id),
    ensures
        !name_taken_by_other(rows, rows[budget_index(rows, id)].name@, id),
{
    let i = budget_index(rows, id);
    assert forall|j: int| 0 <= j < rows.len() && (#[trigger] rows[j]).name@ == rows[i].name@ implies rows[j].budget_id
        == Some(id) by {
        if j != i {
            assert(rows[j].name@ != rows[i].name@);
        }
    }
}

/// Writes `budget` over `before` (the stored row of the same id) and
/// appends `record`, as one unit: when the append fails the row is written
/// back, so either both changes stand or neither does.
fn persist_mutation(ledger: &mut Ledger, before: &Budget, budget: &Budget, record: &Record) -> (r:
    Result<usize, StoreError>)
    requires
        old(ledger).wf(),
        before.budget_id is Some,
        has_budget(old(ledger).budget_rows(), before.budget_id->0),
        *before == row_of(*old(ledger), before.budget_id->0),
        budget.budget_id == before.budget_id,
        budget.name@ == before.name@,
    ensures
        final(ledger).wf(),
        final(ledger).account_rows() == old(ledger).account_rows(),
        ({
            let id = before.budget_id->0;
            let rows = old(ledger).budget_rows();
            match r {
                Ok(n) => n == 1 && next_record_id(old(ledger).record_rows()) is Some
                    && final(ledger).budget_rows() == rows.update(budget_index(rows, id), *budget)
                    && final(ledger).record_rows() == old(ledger).record_rows().push(
                    Record { record_id: next_record_id(old(ledger).record_rows()), ..*record },
                ),
                Err(e) => e == StoreError::StorageFull && next_record_id(
                    old(ledger).record_rows(),
                ) is None && tables_unchanged(*old(ledger), *final(ledger)),
            }
        }),
{
    let ghost id = before.budget_id->0;
    let ghost rows = ledger.budget_rows();
    let ghost i = budget_index(rows, id);
    proof {
        lemma_own_name_free(rows, id);
    }
    let updated = budget.update_budget(ledger);
    let n = match updated {
        Ok(n) => n,
        Err(e) => return Err(e),
    };
    match record.insert_record(ledger) {
        Ok(_) => Ok(n),
        Err(e) => {
            let ghost rows1 = ledger.budget_rows();
            proof {
                lemma_budget_index(rows1, id, i);
                assert forall|j: int|
                    0 <= j < rows1.len() && (#[trigger] rows1[j]).name@ == before.name@ implies rows1[j].budget_id
                    == Some(id) by {
                    if j != i {
                        assert(rows1[j] == rows[j]);
                    }
                }
            }
            let _ = before.update_budget(ledger);
            assert(ledger.budget_rows() =~= rows);
            Err(e)
        },
    }
}

/// Restates what `persist_mutation` did in terms of `audited_change`.
proof fn lemma_persisted(
    before: Ledger,
    after: Ledger,
    r: Result<usize, StoreError>,
    prior: &Budget,
    budget: &Budget,
    record: &Record,
)
    requires
        before.wf(),
        prior.budget_id is Some,
        has_budget(before.budget_rows(), prior.budget_id->0),
        r is Ok ==> after.budget_rows() == before.budget_rows().update(
            budget_index(before.budget_rows(), prior.budget_id->0),
            *budget,
        ) && after.record_rows() == before.record_rows().push(
            Record { record_id: next_record_id(before.record_rows()), ..*record },
        ),
    ensures
        r is Ok ==> audited_change(
            before,
            after,
            prior.budget_id->0,
            budget@,
            record.action@,
            record.amount,
            record.old_value as int,
            record.new_value as int,
            record.description,
        ) || record.budget_id != prior.budget_id->0,
{
    if r is Ok {
        assert(after.record_rows().drop_last() =~= before.record_rows());
    }
}

/// Adds `amount` to the current funds of the budget the command names and
/// records the change.
pub fn increase_funds(ledger: &mut Ledger, command: &Command) -> (r: Result<usize, StoreError>)
    requires
        old(ledger).wf(),
    ensures
        final(ledger).wf(),
        final(ledger).account_rows() == old(ledger).account_rows(),
        match *command {
            Command::Increase { id, amount, description } => {
                let b = row_of(*old(ledger), id);
                mutation_outcome(
                    *old(ledger),
                    *final(ledger),
                    r,
                    id,
                    fits_i64(b.current_funds + amount),
                    b@.increased(amount as int),
                    "Increase funds"@,
                    amount,
                    b.current_funds as int,
                    b.current_funds + amount,
                    description,
                )
            },
            _ => r == Err::<usize, StoreError>(StoreError::InvalidCommand) && tables_unchanged(
                *old(ledger),
                *final(ledger),
            ),
        },
{
    match command {
        Command::Increase { id, amount, description } => {
            let before = match Budget::get_budget_by_id(ledger, id) {
                Ok(b) => b,
                Err(e) => return Err(e),
            };
            let old_value = before.current_funds;
            if old_value.checked_add(*amount).is_none() {
                return Err(StoreError::FundsOverflow);
            }
            let mut budget = before.duplicate();
            budget.increase_funds(amount);
            let new_value = budget.current_funds;
            let record = Record::new(*id, command.value(), *amount, old_value, new_value, description);
            let ghost prior = *ledger;
            let r = persist_mutation(ledger, &before, &budget, &record);
            proof {
                lemma_persisted(prior, *ledger, r, &before, &budget, &record);
            }
            r
        },
        _ => Err(StoreError::InvalidCommand),
    }
}

/// Takes `amount` from the current funds of the budget the command names
/// and records the change. Funds may go below zero.
pub fn reduce_funds(ledger: &mut Ledger, command: &Command) -> (r: Result<usize, StoreError>)
    requires
        old(ledger).wf(),
    ensures
        final(ledger).wf(),
        final(ledger).account_rows() == old(ledger).account_rows(),
        match *command {
            Command::Reduce { id, amount, description } => {
                let b = row_of(*old(ledger), id);
                mutation_outcome(
                    *old(ledger),
                    *final(ledger),
                    r,
                    id,
                    fits_i64(b.current_funds - amount),
                    b@.reduced(amount as int),
                    "Reduce funds"@,
                    amount,
                    b.current_funds as int,
                    b.current_funds - amount,
                    description,
                )
            },
            _ => r == Err::<usize, StoreError>(StoreError::InvalidCommand) && tables_unchanged(
                *old(ledger),
                *final(ledger),
            ),
        },
{
    match command {
        Command::Reduce { id, amount, description } => {
            let before = match Budget::get_budget_by_id(ledger, id) {
                Ok(b) => b,
                Err(e) => return Err(e),
            };
            let old_value = before.current_funds;
            if old_value.checked_sub(*amount).is_none() {
                return Err(StoreError::FundsOverflow);
            }
            let mut budget = before.duplicate();
            budget.reduce_funds(amount);
            let new_value = budget.current_funds;
            let record = Record::new(*id, command.value(), *amount, old_value, new_value, description);
            let ghost prior = *ledger;
            let r = persist_mutation(ledger, &before, &budget, &record);
            proof {
                lemma_persisted(prior, *ledger, r, &before, &budget, &record);
            }
            r
        },
        _ => Err(StoreError::InvalidCommand),
    }
}

/// Brings the current funds of the budget the command names back to its
/// initial funds and records the change, with an amount of zero.
pub fn reset_funds(ledger: &mut Ledger, command: &Command) -> (r: Result<usize, StoreError>)
    requires
        old(ledger).wf(),
    ensures
        final(ledger).wf(),
        final(ledger).account_rows() == old(ledger).account_rows(),
        match *command {
            Command::Reset { id, description } => {
                let b = row_of(*old(ledger), id);
                mutation_outcome(
                    *old(ledger),
                    *final(ledger),
                    r,
                    id,
                    true,
                    b@.reset(),
                    "Reset funds"@,
                    0i64,
                    b.current_funds as int,
                    b.initial_funds as int,
                    description,
                )
            },
            _ => r == Err::<usize, StoreError>(StoreError::InvalidCommand) && tables_unchanged(
                *old(ledger),
                *final(ledger),
            ),
        },
{
    match command {
        Command::Reset { id, description } => {
            let before = match Budget::get_budget_by_id(ledger, id) {
                Ok(b) => b,
                Err(e) => return Err(e),
            };
            let old_value = before.current_funds;
            let mut budget = before.duplicate();
            budget.reset_funds();
            let new_value = budget.current_funds;
            let record = Record::new(*id, command.value(), 0, old_value, new_value, description);
            let ghost prior = *ledger;
            let r = persist_mutation(ledger, &before, &budget, &record);
            proof {
                lemma_persisted(prior, *ledger, r, &before, &budget, &record);
            }
            r
        },
        _ => Err(StoreError::InvalidCommand),
    }
}

/// Sets the current funds of the budget the command names to `amount` and
/// records the change.
pub fn set_current_funds(ledger: &mut Ledger, command: &Command) -> (r: Result<usize, StoreError>)
    requires
        old(ledger).wf(),
    ensures
        final(ledger).wf(),
        final(ledger).account_rows() == old(ledger).account_rows(),
        match *command {
            Command::Current { id, amount, description } => {
                let b = row_of(*old(ledger), id);
                mutation_outcome(
                    *old(ledger),
                    *final(ledger),
                    r,
                    id,
                    true,
                    b@.with_current(amount as int),
                    "Set current funds"@,
                    amount,
                    b.current_funds as int,
                    amount as int,
                    description,
                )
            },
            _ => r == Err::<usize, StoreError>(StoreError::InvalidCommand) && tables_unchanged(
                *old(ledger),
                *final(ledger),
            ),
        },
{
    match command {
        Command::Current { id, amount, description } => {
            let before = match Budget::get_budget_by_id(ledger, id) {
                Ok(b) => b,
                Err(e) => return Err(e),
            };
            let old_value = before.current_funds;
            let mut budget = before.duplicate();
            budget.set_current_funds(amount);
            let new_value = budget.current_funds;
            let record = Record::new(*id, command.value(), *amount, old_value, new_value, description);
            let ghost prior = *ledger;
            let r = persist_mutation(ledger, &before, &budget, &record);
            proof {
                lemma_persisted(prior, *ledger, r, &before, &budget, &record);
            }
            r
        },
        _ => Err(StoreError::InvalidCommand),
    }
}

/// Sets the initial funds of the budget the command names to `amount` and
/// records the change of the initial funds.
pub fn set_initial_funds(ledger: &mut Ledger, command: &Command) -> (r: Result<usize, StoreError>)
    requires
        old(ledger).wf(),
    ensures
        final(ledger).wf(),
        final(ledger).account_rows() == old(ledger).account_rows(),
        match *command {
            Command::Initial { id, amount, description } => {
                let b = row_of(*old(ledger), id);
                mutation_outcome(
                    *old(ledger),
                    *final(ledger),
                    r,
                    id,
                    true,
                    b@.with_initial(amount as int),
                    "Set initial funds"@,
                    amount,
                    b.initial_funds as int,
                    amount as int,
                    description,
                )
            },
            _ => r == Err::<usize, StoreError>(StoreError::InvalidCommand) && tables_unchanged(
                *old(ledger),
                *final(ledger),
            ),
        },
{
    match command {
        Command::Initial { id, amount, description } => {
            let before = match Budget::get_budget_by_id(ledger, id) {
                Ok(b) => b,
                Err(e) => return Err(e),
            };
            let old_value = before.initial_funds;
            let mut budget = before.duplicate();
            budget.set_initial_funds(amount);
            let new_value = budget.initial_funds;
            let record = Record::new(*id, command.value(), *amount, old_value, new_value, description);
            let ghost prior = *ledger;
            let r = persist_mutation(ledger, &before, &budget, &record);
            proof {
                lemma_persisted(prior, *ledger, r, &before, &budget, &record);
            }
            r
        },
        _ => Err(StoreError::InvalidCommand),
    }
}

/// Creates a budget named `name` (normalized) with `funds` as both its
/// initial and current funds, and returns its id.
pub fn create_budget(ledger: &mut Ledger, name: &str, funds: &i64) -> (r: Result<usize, StoreError>)
    requires
        old(ledger).wf(),
    ensures
        final(ledger).wf(),
        final(ledger).record_rows() == old(ledger).record_rows(),
        final(ledger).account_rows() == old(ledger).account_rows(),
        ({
            let rows = old(ledger).budget_rows();
            let normalized = upper_spec(name@);
            if name_taken(rows, normalized) {
                r == Err::<usize, StoreError>(StoreError::ConstraintViolation)
                    && final(ledger).budget_rows() == rows
            } else if next_budget_id(rows) is None {
                r == Err::<usize, StoreError>(StoreError::StorageFull) && final(ledger).budget_rows()
                    == rows
            } else {
                &&& r matches Ok(id) && next_budget_id(rows) == Some(id as u32) && id as int
                    == next_budget_id(rows)->0 as int
                &&& final(ledger).budget_rows().len() == rows.len() + 1
                &&& final(ledger).budget_rows().drop_last() == rows
                &&& final(ledger).budget_rows().last()@ == (BudgetView {
                    budget_id: next_budget_id(rows),
                    name: normalized,
                    initial_funds: *funds as int,
                    current_funds: *funds as int,
                })
            }
        }),
{
    let budget = Budget::new(name, funds);
    let r = budget.insert_budget(ledger);
    assert(r is Ok ==> ledger.budget_rows().drop_last() =~= old(ledger).budget_rows());
    r
}

/// Deletes the budget with id `id` and returns the number of rows removed.
pub fn remove_budget(ledger: &mut Ledger, id: &u32) -> (r: Result<usize, StoreError>)
    requires
        old(ledger).wf(),
    ensures
        final(ledger).wf(),
        final(ledger).record_rows() == old(ledger).record_rows(),
        final(ledger).account_rows() == old(ledger).account_rows(),
        has_budget(old(ledger).budget_rows(), *id) ==> r == Ok::<usize, StoreError>(1)
            && final(ledger).budget_rows() == old(ledger).budget_rows().remove(
            budget_index(old(ledger).budget_rows(), *id),
        ),
        !has_budget(old(ledger).budget_rows(), *id) ==> r == Ok::<usize, StoreError>(0)
            && final(ledger).budget_rows() == old(ledger).budget_rows(),
{
    Budget::delete_budget_by_id(ledger, id)
}

/// Renames the budget with id `id` (the new name normalized) and returns
/// the number of rows changed. A name held by another budget is refused.
pub fn rename_budget(ledger: &mut Ledger, id: &u32, name: &str) -> (r: Result<usize, StoreError>)
    requires
        old(ledger).wf(),
    ensures
        final(ledger).wf(),
        final(ledger).record_rows() == old(ledger).record_rows(),
        final(ledger).account_rows() == old(ledger).account_rows(),
        ({
            let rows = old(ledger).budget_rows();
            let i = budget_index(rows, *id);
            if !has_budget(rows, *id) {
                r == Err::<usize, StoreError>(StoreError::NotFound) && final(ledger).budget_rows()
                    == rows
            } else if name_taken_by_other(rows, upper_spec(name@), *id) {
                r == Err::<usize, StoreError>(StoreError::ConstraintViolation)
                    && final(ledger).budget_rows() == rows
            } else {
                &&& r == Ok::<usize, StoreError>(1)
                &&& final(ledger).budget_rows().len() == rows.len()
                &&& final(ledger).budget_rows()[i]@ == rows[i]@.renamed(name@)
                &&& forall|j: int|
                    0 <= j < rows.len() && j != i ==> final(ledger).budget_rows()[j] == rows[j]
            }
        }),
{
    let mut budget = match Budget::get_budget_by_id(ledger, id) {
        Ok(b) => b,
        Err(e) => return Err(e),
    };
    budget.rename(name);
    budget.update_budget(ledger)
}

/// The audit history to show: of budget `id` when one is given, else of
/// all budgets; most recent first, at most `limit` lines (ten by default).
pub fn query_history(ledger: &Ledger, id: &Option<u32>, limit: &Option<u32>) -> (r: Result<
    Vec<History>,
    StoreError,
>)
    requires
        ledger.wf(),
    ensures
        r is Ok,
        r matches Ok(v) && exists|idx: Seq<int>|
            newest_selection(ledger.budget_rows(), ledger.record_rows(), *id, effective_limit(*limit), idx)
                && v@ == lines_of(ledger.budget_rows(), ledger.record_rows(), idx),
{
    match id {
        Some(id) => History::get_history_by_budget_id(ledger, *id, limit),
        None => History::get_all_history(ledger, limit),
    }
}

} // verus!
