use vstd::prelude::*;
use crate::budget::{find_budget, Budget};
use crate::error::StoreError;
use crate::record::Record;
use crate::store::{budget_ids_increasing, budget_index, has_budget, record_ids_increasing, Ledger};
use crate::utils::copy_text;

verus! {

/// How many history lines a query returns when the caller gives no limit.
pub const DEFAULT_HISTORY_LIMIT: u32 = 10;

/// One line of the audit history: when, which budget (by its current
/// name), which action, the amount involved, and the note.
#[derive(Debug, Clone, PartialEq, Eq)]
pub struct History {
    pub date: i64,
    pub budget_name: String,
    pub action_name: String,
    pub value: i64,
    pub description: Option<String>,
}

/// Whether record `r` shows in a history of `filter` (one budget, or all
/// when `None`): its budget must still exist.
pub open spec fn shown(budgets: Seq<Budget>, r: Record, filter: Option<u32>) -> bool {
    has_budget(budgets, r.budget_id) && (filter is None || filter == Some(r.budget_id))
}

pub open spec fn history_line(budgets: Seq<Budget>, r: Record) -> History {
    History {
        date: r.created_at,
        budget_name: budgets[budget_index(budgets, r.budget_id)].name,
        action_name: r.action,
        value: r.amount,
        description: r.description,
    }
}

/// How recent a record is: later `created_at` first, and among equal times
/// the later record id. Record ids are below 2^32, so this orders by time
/// and then by id.
pub open spec fn recency(r: Record) -> int {
    r.created_at * 4294967296 + r.record_id->0
}

/// The limit a query applies: the given one, or the default.
pub open spec fn effective_limit(limit: Option<u32>) -> nat {
    match limit {
        Some(n) => n as nat,
        None => DEFAULT_HISTORY_LIMIT as nat,
    }
}

/// `idx` picks the positions of the `limit` most recent records of
/// `records` that show in the history of `filter`, most recent first: at most
/// `limit` of them, each shown, in strictly decreasing recency, and any
/// shown record left out is older than every one picked, which happens only
/// once `limit` are picked.
pub open spec fn newest_selection(
    budgets: Seq<Budget>,
    records: Seq<Record>,
    filter: Option<u32>,
    limit: nat,
    idx: Seq<int>,
) -> bool {
    &&& idx.len() <= limit
    &&& forall|j: int|
        0 <= j < idx.len() ==> 0 <= #[trigger] idx[j] < records.len() && shown(
            budgets,
            records[idx[j]],
            filter,
        )
    &&& forall|j: int, k: int|
        0 <= j < k < idx.len() ==> recency(records[#[trigger] idx[j]]) > recency(
            records[#[trigger] idx[k]],
        )
    &&& forall|i: int|
        0 <= i < records.len() && #[trigger] shown(budgets, records[i], filter) && !idx.contains(
            i,
        ) ==> idx.len() == limit && (idx.len() > 0 ==> recency(records[i]) < recency(
            records[idx.last()],
        ))
}

/// The history lines of the records at positions `idx`, in that order.
pub open spec fn lines_of(budgets: Seq<Budget>, records: Seq<Record>, idx: Seq<int>) -> Seq<
    History,
> {
    idx.map_values(|i: int| history_line(budgets, records[i]))
}

/// Distinct records of a table have distinct recency.
proof fn lemma_recency_distinct(records: Seq<Record>, i: int, j: int)
    requires
        record_ids_increasing(records),
        0 <= i < records.len(),
        0 <= j < records.len(),
        i != j,
    ensures
        recency(records[i]) != recency(records[j]),
{
    let (a, b) = if i < j { (i, j) } else { (j, i) };
    assert(records[a].record_id->0 < records[b].record_id->0);
}

/// Where two selections agree below position `p`, the record the first
/// picks at `p` is no more recent than the one the second picks there.
proof fn lemma_pick_not_more_recent(
    budgets: Seq<Budget>,
    records: Seq<Record>,
    filter: Option<u32>,
    limit: nat,
    x: Seq<int>,
    y: Seq<int>,
    p: int,
)
    requires
        record_ids_increasing(records),
        newest_selection(budgets, records, filter, limit, x),
        newest_selection(budgets, records, filter, limit, y),
        0 <= p < x.len(),
        p < y.len(),
        forall|m: int| 0 <= m < p ==> x[m] == y[m],
    ensures
        recency(records[x[p]]) <= recency(records[y[p]]),
{
    if recency(records[x[p]]) > recency(records[y[p]]) {
        assert(shown(budgets, records[x[p]], filter));
        if y.contains(x[p]) {
            let m = choose|m: int| 0 <= m < y.len() && y[m] == x[p];
            if m < p {
                assert(x[m] == x[p]);
                assert(recency(records[x[m]]) > recency(records[x[p]]));
            } else if m > p {
                assert(recency(records[y[p]]) > recency(records[y[m]]));
            }
        } else {
            if y.len() - 1 > p {
                assert(recency(records[y[p]]) > recency(records[y[y.len() - 1]]));
            }
        }
    }
}

/// Where two selections agree on their common length, the first is no
/// longer than the second (and so, by symmetry, they are equally long).
proof fn lemma_no_longer(
    budgets: Seq<Budget>,
    records: Seq<Record>,
    filter: Option<u32>,
    limit: nat,
    x: Seq<int>,
    y: Seq<int>,
)
    requires
        newest_selection(budgets, records, filter, limit, x),
        newest_selection(budgets, records, filter, limit, y),
        forall|m: int| 0 <= m < y.len() && m < x.len() ==> x[m] == y[m],
    ensures
        x.len() <= y.len(),
{
    if y.len() < x.len() {
        let p = y.len() as int;
        assert(shown(budgets, records[x[p]], filter));
        if y.contains(x[p]) {
            let m = choose|m: int| 0 <= m < y.len() && y[m] == x[p];
            assert(x[m] == x[p]);
            assert(recency(records[x[m]]) > recency(records[x[p]]));
        }
    }
}

proof fn lemma_agree_below(
    budgets: Seq<Budget>,
    records: Seq<Record>,
    filter: Option<u32>,
    limit: nat,
    x: Seq<int>,
    y: Seq<int>,
    k: int,
)
    requires
        record_ids_increasing(records),
        newest_selection(budgets, records, filter, limit, x),
        newest_selection(budgets, records, filter, limit, y),
        0 <= k <= x.len(),
        k <= y.len(),
    ensures
        forall|m: int| 0 <= m < k ==> x[m] == y[m],
    decreases k,
{
    if k > 0 {
        let p = k - 1;
        lemma_agree_below(budgets, records, filter, limit, x, y, p);
        lemma_pick_not_more_recent(budgets, records, filter, limit, x, y, p);
        lemma_pick_not_more_recent(budgets, records, filter, limit, y, x, p);
        if x[p] != y[p] {
            lemma_recency_distinct(records, x[p], y[p]);
        }
    }
}

/// At most one selection meets `newest_selection`: the history lines a
/// query returns are fully determined by the tables, the filter and the
/// limit.
pub proof fn lemma_newest_selection_unique(
    budgets: Seq<Budget>,
    records: Seq<Record>,
    filter: Option<u32>,
    limit: nat,
    x: Seq<int>,
    y: Seq<int>,
)
    requires
        record_ids_increasing(records),
        newest_selection(budgets, records, filter, limit, x),
        newest_selection(budgets, records, filter, limit, y),
    ensures
        x == y,
{
    let k = if x.len() <= y.len() { x.len() as int } else { y.len() as int };
    lemma_agree_below(budgets, records, filter, limit, x, y, k);
    lemma_no_longer(budgets, records, filter, limit, x, y);
    lemma_no_longer(budgets, records, filter, limit, y, x);
    assert(x =~= y);
}

fn recency_of(r: &Record) -> (k: i128)
    requires
        r.record_id is Some,
    ensures
        k == recency(*r),
{
    let id = r.record_id.unwrap();
    (r.created_at as i128) * 4294967296i128 + id as i128
}

fn is_shown(budgets: &Vec<Budget>, r: &Record, filter: Option<u32>) -> (b: bool)
    requires
        budget_ids_increasing(budgets@),
    ensures
        b == shown(budgets@, *r, filter),
{
    let wanted = match filter {
        Some(id) => r.budget_id == id,
        None => true,
    };
    wanted && find_budget(budgets, r.budget_id).is_some()
}

/// The position of the most recent shown record older than `bound` (any
/// shown record when `bound` is `None`), if there is one.
fn newest_below(budgets: &Vec<Budget>, records: &Vec<Record>, filter: Option<u32>, bound: Option<
    i128,
>) -> (r: Option<usize>)
    requires
        budget_ids_increasing(budgets@),
        record_ids_increasing(records@),
    ensures
        match r {
            Some(b) => {
                &&& b < records@.len()
                &&& shown(budgets@, records@[b as int], filter)
                &&& (bound is None || recency(records@[b as int]) < bound->0)
                &&& forall|t: int|
                    0 <= t < records@.len() && #[trigger] shown(budgets@, records@[t], filter) && (
                    bound is None || recency(records@[t]) < bound->0) ==> recency(records@[t])
                        <= recency(records@[b as int])
            },
            None => forall|t: int|
                0 <= t < records@.len() && #[trigger] shown(budgets@, records@[t], filter) ==> !(
                bound is None || recency(records@[t]) < bound->0),
        },
{
    let mut best: Option<usize> = None;
    let mut best_key: i128 = 0;
    let mut i: usize = 0;
    while i < records.len()
        invariant
            i <= records@.len(),
            budget_ids_increasing(budgets@),
            record_ids_increasing(records@),
            match best {
                Some(b) => b < i && shown(budgets@, records@[b as int], filter) && (bound is None
                    || recency(records@[b as int]) < bound->0) && best_key == recency(
                    records@[b as int],
                ),
                None => true,
            },
            forall|t: int|
                0 <= t < i && #[trigger] shown(budgets@, records@[t], filter) && (bound is None
                    || recency(records@[t]) < bound->0) ==> best is Some && recency(records@[t])
                    <= best_key,
        decreases records@.len() - i,
    {
        let rec = &records[i];
        if is_shown(budgets, rec, filter) {
            let k = recency_of(rec);
            let below = match bound {
                Some(limit) => k < limit,
                None => true,
            };
            if below && (best.is_none() || k > best_key) {
                best = Some(i);
                best_key = k;
            }
        }
        i = i + 1;
    }
    best
}

fn collect_history(ledger: &Ledger, filter: Option<u32>, limit: u32) -> (r: Vec<History>)
    requires
        ledger.wf(),
    ensures
        exists|idx: Seq<int>|
            newest_selection(ledger.budget_rows(), ledger.record_rows(), filter, limit as nat, idx)
                && r@ == lines_of(ledger.budget_rows(), ledger.record_rows(), idx),
{
    let budgets = ledger.budgets();
    let records = ledger.records();
    let ghost mut idx: Seq<int> = Seq::empty();
    let mut out: Vec<History> = Vec::new();
    let mut bound: Option<i128> = None;
    let mut done = false;
    while !done && out.len() < limit as usize
        invariant
            budgets@ == ledger.budget_rows(),
            records@ == ledger.record_rows(),
            budget_ids_increasing(budgets@),
            record_ids_increasing(records@),
            out@ == lines_of(budgets@, records@, idx),
            idx.len() <= limit,
            forall|j: int|
                0 <= j < idx.len() ==> 0 <= #[trigger] idx[j] < records@.len() && shown(
                    budgets@,
                    records@[idx[j]],
                    filter,
                ),
            forall|j: int, k: int|
                0 <= j < k < idx.len() ==> recency(records@[#[trigger] idx[j]]) > recency(
                    records@[#[trigger] idx[k]],
                ),
            bound is None <==> idx.len() == 0,
            idx.len() > 0 ==> bound == Some(recency(records@[idx.last()]) as i128),
            forall|i: int|
                0 <= i < records@.len() && #[trigger] shown(budgets@, records@[i], filter)
                    && !idx.contains(i) ==> !done && (idx.len() > 0 ==> recency(records@[i])
                    < recency(records@[idx.last()])),
        decreases limit - idx.len() + if done { 0int } else { 1int },
    {
        match newest_below(budgets, records, filter, bound) {
            None => {
                done = true;
            },
            Some(b) => {
                let rec = &records[b];
                let k = find_budget(budgets, rec.budget_id).unwrap();
                let line = History {
                    date: rec.created_at,
                    budget_name: budgets[k].name.clone(),
                    action_name: rec.action.clone(),
                    value: rec.amount,
                    description: copy_text(&rec.description),
                };
                out.push(line);
                let ghost old_idx = idx;
                proof {
                    idx = idx.push(b as int);
                    assert(out@ =~= lines_of(budgets@, records@, idx));
                    assert forall|i: int|
                        0 <= i < records@.len() && #[trigger] shown(budgets@, records@[i], filter)
                            && !idx.contains(i) implies recency(records@[i]) < recency(
                        records@[idx.last()],
                    ) by {
                        if old_idx.contains(i) {
                            let j = choose|j: int| 0 <= j < old_idx.len() && old_idx[j] == i;
                            assert(idx[j] == i);
                        }
                        assert(idx[idx.len() - 1] == b as int);
                        assert(i != b);
                        lemma_recency_distinct(records@, i, b as int);
                    }
                    assert forall|j: int, k2: int|
                        0 <= j < k2 < idx.len() implies recency(records@[#[trigger] idx[j]])
                        > recency(records@[#[trigger] idx[k2]]) by {
                        if k2 == idx.len() - 1 && j < old_idx.len() - 1 {
                            assert(recency(records@[old_idx[j]]) > recency(
                                records@[old_idx.last()],
                            ));
                        }
                    }
                }
                bound = Some(recency_of(rec));
            },
        }
    }
    proof {
        assert(newest_selection(budgets@, records@, filter, limit as nat, idx));
    }
    out
}

impl History {
    /// The most recent history lines over all budgets (by date, then by
    /// record id), most recent first, at most `limit` of them (ten when no
    /// limit is given).
    pub fn get_all_history(ledger: &Ledger, limit: &Option<u32>) -> (r: Result<Vec<History>, StoreError>)
        requires
            ledger.wf(),
        ensures
            r is Ok,
            r matches Ok(v) && exists|idx: Seq<int>|
                newest_selection(
                    ledger.budget_rows(),
                    ledger.record_rows(),
                    None,
                    effective_limit(*limit),
                    idx,
                ) && v@ == lines_of(ledger.budget_rows(), ledger.record_rows(), idx),
    {
        let n = match limit {
            Some(n) => *n,
            None => DEFAULT_HISTORY_LIMIT,
        };
        Ok(collect_history(ledger, None, n))
    }

    /// The most recent history lines of one budget (by date, then by record
    /// id), most recent first, at most `limit` of them (ten when no limit is
    /// given).
    pub fn get_history_by_budget_id(ledger: &Ledger, budget_id: u32, limit: &Option<u32>) -> (r:
        Result<Vec<History>, StoreError>)
        requires
            ledger.wf(),
        ensures
            r is Ok,
            r matches Ok(v) && exists|idx: Seq<int>|
                newest_selection(
                    ledger.budget_rows(),
                    ledger.record_rows(),
                    Some(budget_id),
                    effective_limit(*limit),
                    idx,
                ) && v@ == lines_of(ledger.budget_rows(), ledger.record_rows(), idx),
    {
        let n = match limit {
            Some(n) => *n,
            None => DEFAULT_HISTORY_LIMIT,
        };
        Ok(collect_history(ledger, Some(budget_id), n))
    }
}

} // verus!
