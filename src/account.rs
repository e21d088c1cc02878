use vstd::prelude::*;
use crate::error::StoreError;
use crate::store::{account_ids_increasing, next_account_id, Ledger};

verus! {

/// An account: an amount in cents held by some entity, under a category.
#[derive(Debug, Clone, PartialEq, Eq)]
pub struct Account {
    pub account_id: Option<i32>,
    pub amount: i64,
    pub entity: String,
    pub category: String,
}

impl Account {
    /// An account not yet stored.
    pub fn new(amount: i64, entity: String, category: String) -> (r: Account)
        ensures
            r.account_id is None,
            r.amount == amount,
            r.entity == entity,
            r.category == category,
    {
        Account { account_id: None, amount, entity, category }
    }
}

pub open spec fn has_account(rows: Seq<Account>, id: i32) -> bool {
    exists|i: int| 0 <= i < rows.len() && (#[trigger] rows[i]).account_id == Some(id)
}

pub open spec fn account_index(rows: Seq<Account>, id: i32) -> int {
    choose|i: int| 0 <= i < rows.len() && (#[trigger] rows[i]).account_id == Some(id)
}

fn find_account(rows: &Vec<Account>, id: i32) -> (r: Option<usize>)
    requires
        account_ids_increasing(rows@),
    ensures
        match r {
            Some(i) => i < rows@.len() && i as int == account_index(rows@, id) && has_account(
                rows@,
                id,
            ),
            None => !has_account(rows@, id),
        },
{
    let mut i: usize = 0;
    while i < rows.len()
        invariant
            i <= rows@.len(),
            account_ids_increasing(rows@),
            forall|j: int| 0 <= j < i ==> (#[trigger] rows@[j]).account_id != Some(id),
        decreases rows@.len() - i,
    {
        if rows[i].account_id == Some(id) {
            proof {
                let ii = i as int;
                assert(has_account(rows@, id));
                let j = account_index(rows@, id);
                if j < ii {
                    assert(rows@[j].account_id->0 < rows@[ii].account_id->0);
                } else if ii < j {
                    assert(rows@[ii].account_id->0 < rows@[j].account_id->0);
                }
            }
            return Some(i);
        }
        i = i + 1;
    }
    None
}

/// Stores `account` under the next free id and returns the number of rows
/// inserted; `StorageFull` when no id is left.
pub fn add_account(ledger: &mut Ledger, account: Account) -> (r: Result<usize, StoreError>)
    requires
        old(ledger).wf(),
    ensures
        final(ledger).wf(),
        final(ledger).budget_rows() == old(ledger).budget_rows(),
        final(ledger).record_rows() == old(ledger).record_rows(),
        match r {
            Ok(n) => n == 1 && next_account_id(old(ledger).account_rows()) is Some
                && final(ledger).account_rows() == old(ledger).account_rows().push(
                Account { account_id: next_account_id(old(ledger).account_rows()), ..account },
            ),
            Err(e) => e == StoreError::StorageFull && next_account_id(old(ledger).account_rows())
                is None && final(ledger).account_rows() == old(ledger).account_rows(),
        },
{
    match ledger.next_account_id() {
        None => Err(StoreError::StorageFull),
        Some(id) => {
            let row = Account { account_id: Some(id), ..account };
            ledger.push_account(row);
            Ok(1)
        },
    }
}

/// Writes `account` over the stored one with the same id and returns the
/// number of rows changed: 0 when there is no such account.
pub fn update_account(ledger: &mut Ledger, account: Account) -> (r: usize)
    requires
        old(ledger).wf(),
    ensures
        final(ledger).wf(),
        final(ledger).budget_rows() == old(ledger).budget_rows(),
        final(ledger).record_rows() == old(ledger).record_rows(),
        ({
            let rows = old(ledger).account_rows();
            if account.account_id is Some && has_account(rows, account.account_id->0) {
                r == 1 && final(ledger).account_rows() == rows.update(
                    account_index(rows, account.account_id->0),
                    account,
                )
            } else {
                r == 0 && final(ledger).account_rows() == rows
            }
        }),
{
    let id = match account.account_id {
        Some(id) => id,
        None => return 0,
    };
    match find_account(ledger.accounts(), id) {
        Some(i) => {
            ledger.replace_account(i, account);
            1
        },
        None => 0,
    }
}

/// Deletes the account with id `account_id` and returns the number of rows
/// removed.
pub fn remove_account(ledger: &mut Ledger, account_id: i32) -> (r: usize)
    requires
        old(ledger).wf(),
    ensures
        final(ledger).wf(),
        final(ledger).budget_rows() == old(ledger).budget_rows(),
        final(ledger).record_rows() == old(ledger).record_rows(),
        ({
            let rows = old(ledger).account_rows();
            if has_account(rows, account_id) {
                r == 1 && final(ledger).account_rows() == rows.remove(account_index(rows, account_id))
            } else {
                r == 0 && final(ledger).account_rows() == rows
            }
        }),
{
    match find_account(ledger.accounts(), account_id) {
        Some(i) => {
            ledger.remove_account_at(i);
            1
        },
        None => 0,
    }
}

} // verus!
