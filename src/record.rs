use vstd::prelude::*;
use crate::error::StoreError;
use crate::store::{next_record_id, record_ids_increasing, Ledger};
use crate::utils::copy_text;

verus! {

/// One audit entry: which budget changed, by which action, by how much,
/// its value before and after, an optional note, and when (seconds since
/// the Unix epoch).
#[derive(Debug, Clone, PartialEq, Eq)]
pub struct Record {
    pub record_id: Option<u32>,
    pub budget_id: u32,
    pub action: String,
    pub amount: i64,
    pub old_value: i64,
    pub new_value: i64,
    pub description: Option<String>,
    pub created_at: i64,
}

/// Relies on chrono's `From<SystemTime> for DateTime<Utc>` (with
/// `DateTime::timestamp`) applied to `SystemTime::now`: the current time in
/// seconds since the Unix epoch. The conversion takes clocks set before 1970
/// as negative seconds instead of failing. Nothing is promised of the value.
#[verifier::external_body]
fn now_timestamp() -> (r: i64) {
    chrono::DateTime::<chrono::Utc>::from(std::time::SystemTime::now()).timestamp()
}

impl Record {
    /// An entry not yet stored, stamped with the current time.
    pub fn new(
        budget_id: u32,
        action: &str,
        amount: i64,
        old_value: i64,
        new_value: i64,
        desc: &Option<String>,
    ) -> (r: Record)
        ensures
            r.record_id is None,
            r.budget_id == budget_id,
            r.action@ == action@,
            r.amount == amount,
            r.old_value == old_value,
            r.new_value == new_value,
            r.description == *desc,
    {
        Record {
            record_id: None,
            budget_id,
            action: action.to_string(),
            amount,
            old_value,
            new_value,
            description: copy_text(desc),
            created_at: now_timestamp(),
        }
    }

    /// A copy of this entry, field for field.
    pub fn duplicate(&self) -> (r: Record)
        ensures
            r == *self,
    {
        Record {
            record_id: self.record_id,
            budget_id: self.budget_id,
            action: self.action.clone(),
            amount: self.amount,
            old_value: self.old_value,
            new_value: self.new_value,
            description: copy_text(&self.description),
            created_at: self.created_at,
        }
    }
}

pub open spec fn has_record(rows: Seq<Record>, id: u32) -> bool {
    exists|i: int| 0 <= i < rows.len() && (#[trigger] rows[i]).record_id == Some(id)
}

pub open spec fn record_index(rows: Seq<Record>, id: u32) -> int {
    choose|i: int| 0 <= i < rows.len() && (#[trigger] rows[i]).record_id == Some(id)
}

/// The records of one budget, in the order of insertion.
pub open spec fn records_of(rows: Seq<Record>, budget_id: u32) -> Seq<Record> {
    rows.filter(|r: Record| r.budget_id == budget_id)
}

proof fn lemma_record_index(rows: Seq<Record>, id: u32, i: int)
    requires
        record_ids_increasing(rows),
        0 <= i < rows.len(),
        rows[i].record_id == Some(id),
    ensures
        has_record(rows, id),
        record_index(rows, id) == i,
{
    assert(has_record(rows, id));
    let j = record_index(rows, id);
    if j < i {
        assert(rows[j].record_id->0 < rows[i].record_id->0);
    } else if i < j {
        assert(rows[i].record_id->0 < rows[j].record_id->0);
    }
}

fn find_record(rows: &Vec<Record>, id: u32) -> (r: Option<usize>)
    requires
        record_ids_increasing(rows@),
    ensures
        match r {
            Some(i) => i < rows@.len() && i as int == record_index(rows@, id) && has_record(
                rows@,
                id,
            ),
            None => !has_record(rows@, id),
        },
{
    let mut i: usize = 0;
    while i < rows.len()
        invariant
            i <= rows@.len(),
            record_ids_increasing(rows@),
            forall|j: int| 0 <= j < i ==> (#[trigger] rows@[j]).record_id != Some(id),
        decreases rows@.len() - i,
    {
        if rows[i].record_id == Some(id) {
            proof {
                lemma_record_index(rows@, id, i as int);
            }
            return Some(i);
        }
        i = i + 1;
    }
    None
}

impl Record {
    /// Appends this entry under the next free id and returns that id;
    /// `StorageFull` when no id is left, with nothing written.
    pub fn insert_record(&self, ledger: &mut Ledger) -> (r: Result<u32, StoreError>)
        requires
            old(ledger).wf(),
        ensures
            final(ledger).wf(),
            final(ledger).budget_rows() == old(ledger).budget_rows(),
            final(ledger).account_rows() == old(ledger).account_rows(),
            match r {
                Ok(id) => next_record_id(old(ledger).record_rows()) == Some(id)
                    && final(ledger).record_rows() == old(ledger).record_rows().push(
                    Record { record_id: Some(id), ..*self },
                ),
                Err(e) => next_record_id(old(ledger).record_rows()) is None && e
                    == StoreError::StorageFull && final(ledger).record_rows() == old(
                    ledger,
                ).record_rows(),
            },
    {
        match ledger.next_record_id() {
            None => Err(StoreError::StorageFull),
            Some(id) => {
                let mut row = self.duplicate();
                row.record_id = Some(id);
                ledger.push_record(row);
                Ok(id)
            },
        }
    }

    /// The stored entry with id `record_id`; `NotFound` when there is none.
    pub fn get_record_by_id(ledger: &Ledger, record_id: u32) -> (r: Result<Record, StoreError>)
        requires
            ledger.wf(),
        ensures
            r is Ok <==> has_record(ledger.record_rows(), record_id),
            match r {
                Ok(rec) => rec == ledger.record_rows()[record_index(ledger.record_rows(), record_id)],
                Err(e) => e == StoreError::NotFound,
            },
    {
        match find_record(ledger.records(), record_id) {
            Some(i) => Ok(ledger.records()[i].duplicate()),
            None => Err(StoreError::NotFound),
        }
    }

    /// All stored entries, in the order of insertion.
    pub fn get_all_records(ledger: &Ledger) -> (r: Result<Vec<Record>, StoreError>)
        ensures
            r is Ok,
            r matches Ok(v) && v@ == ledger.record_rows(),
    {
        let rows = ledger.records();
        let mut out: Vec<Record> = Vec::new();
        let mut i: usize = 0;
        while i < rows.len()
            invariant
                i <= rows@.len(),
                rows@ == ledger.record_rows(),
                out@ == rows@.subrange(0, i as int),
            decreases rows@.len() - i,
        {
            out.push(rows[i].duplicate());
            i = i + 1;
            assert(out@ =~= rows@.subrange(0, i as int));
        }
        assert(out@ =~= rows@);
        Ok(out)
    }

    /// The stored entries of one budget, in the order of insertion.
    pub fn get_records_by_budget_id(ledger: &Ledger, budget_id: u32) -> (r: Result<
        Vec<Record>,
        StoreError,
    >)
        ensures
            r is Ok,
            r matches Ok(v) && v@ == records_of(ledger.record_rows(), budget_id),
    {
        let rows = ledger.records();
        let mut out: Vec<Record> = Vec::new();
        let mut i: usize = 0;
        while i < rows.len()
            invariant
                i <= rows@.len(),
                rows@ == ledger.record_rows(),
                out@ == records_of(rows@.subrange(0, i as int), budget_id),
            decreases rows@.len() - i,
        {
            proof {
                let s = rows@.subrange(0, i + 1);
                assert(s.drop_last() =~= rows@.subrange(0, i as int));
                reveal(Seq::filter);
            }
            if rows[i].budget_id == budget_id {
                out.push(rows[i].duplicate());
            }
            i = i + 1;
        }
        assert(rows@.subrange(0, rows@.len() as int) =~= rows@);
        Ok(out)
    }

    /// Deletes the entry with id `record_id` and returns the number of rows
    /// removed.
    pub fn delete_record_by_id(ledger: &mut Ledger, record_id: u32) -> (r: Result<
        usize,
        StoreError,
    >)
        requires
            old(ledger).wf(),
        ensures
            final(ledger).wf(),
            final(ledger).budget_rows() == old(ledger).budget_rows(),
            final(ledger).account_rows() == old(ledger).account_rows(),
            has_record(old(ledger).record_rows(), record_id) ==> r == Ok::<usize, StoreError>(1)
                && final(ledger).record_rows() == old(ledger).record_rows().remove(
                record_index(old(ledger).record_rows(), record_id),
            ),
            !has_record(old(ledger).record_rows(), record_id) ==> r == Ok::<usize, StoreError>(0)
                && final(ledger).record_rows() == old(ledger).record_rows(),
    {
        match find_record(ledger.records(), record_id) {
            Some(i) => {
                ledger.remove_record(i);
                Ok(1)
            },
            None => Ok(0),
        }
    }
}

} // verus!
