//! The record store: a table of notifications keyed by their remote
//! id.
//!
//! A resync that finds an existing id overwrites every field except
//! `score_boost`, which is preserved, and unconditionally resets
//! `done` to `false`: a reappearance signals fresh remote activity.

use vstd::prelude::*;
use crate::models::Notification;
use crate::text::chars_eq;
use crate::text::chars_of;
use crate::time::Timestamp;

verus! {

/// No two rows share an id.
pub open spec fn unique_ids(rows: Seq<Notification>) -> bool {
    forall|i: int, j: int|
        0 <= i < j < rows.len() ==> (#[trigger] rows[i]).id@ != (#[trigger] rows[j]).id@
}

/// Every row carries a valid timestamp.
pub open spec fn all_wf_times(rows: Seq<Notification>) -> bool {
    forall|i: int| 0 <= i < rows.len() ==> (#[trigger] rows[i]).updated_at.wf()
}

/// The fresh record with the old row's boost kept and `done` reset.
pub open spec fn merged(fresh: Notification, old_row: Notification) -> Notification {
    Notification { score_boost: old_row.score_boost, done: false, ..fresh }
}

/// `row` with its `done` flag set to `value`.
pub open spec fn with_done(row: Notification, value: bool) -> Notification {
    Notification { done: value, ..row }
}

/// `row` with its `unread` flag set to `value`.
pub open spec fn with_unread(row: Notification, value: bool) -> Notification {
    Notification { unread: value, ..row }
}

/// Saturating signed 64-bit addition.
pub open spec fn sat_add_i64(a: int, b: int) -> int {
    if a + b > i64::MAX {
        i64::MAX as int
    } else if a + b < i64::MIN {
        i64::MIN as int
    } else {
        a + b
    }
}

/// `row` with `delta` added to its manual boost.
pub open spec fn with_boost(row: Notification, delta: int) -> Notification {
    Notification { score_boost: sat_add_i64(row.score_boost as int, delta) as i64, ..row }
}

/// The first row at or after `i` whose id is `id`.
pub open spec fn id_index_at(rows: Seq<Notification>, id: Seq<char>, i: int) -> Option<int>
    decreases rows.len() - i,
{
    if !(0 <= i < rows.len()) {
        None
    } else if rows[i].id@ == id {
        Some(i)
    } else {
        id_index_at(rows, id, i + 1)
    }
}

pub proof fn lemma_id_index(rows: Seq<Notification>, id: Seq<char>, i: int)
    requires
        0 <= i,
    ensures
        id_index_at(rows, id, i) matches Some(j) ==> i <= j < rows.len() && rows[j].id@ == id,
        (id_index_at(rows, id, i) is None) ==> forall|k: int|
            i <= k < rows.len() ==> (#[trigger] rows[k]).id@ != id,
    decreases rows.len() - i,
{
    if 0 <= i < rows.len() && rows[i].id@ != id {
        lemma_id_index(rows, id, i + 1);
    }
}

/// The effect of one upsert on the table.
pub open spec fn upsert_rows(rows: Seq<Notification>, n: Notification) -> Seq<Notification> {
    match id_index_at(rows, n.id@, 0) {
        Some(j) => rows.update(j, merged(n, rows[j])),
        None => rows.push(n),
    }
}

/// The effect of upserting a batch of records, in order.
pub open spec fn upsert_all(rows: Seq<Notification>, recs: Seq<Notification>) -> Seq<
    Notification,
>
    decreases recs.len(),
{
    if recs.len() == 0 {
        rows
    } else {
        upsert_all(upsert_rows(rows, recs[0]), recs.drop_first())
    }
}

/// Appending one record to a batch upserts it last.
pub proof fn lemma_upsert_all_snoc(rows: Seq<Notification>, recs: Seq<Notification>, x: Notification)
    ensures
        upsert_all(rows, recs.push(x)) == upsert_rows(upsert_all(rows, recs), x),
    decreases recs.len(),
{
    if recs.len() == 0 {
        assert(recs.push(x)[0] == x);
        assert(recs.push(x).drop_first() =~= Seq::<Notification>::empty());
        assert(upsert_all(rows, recs.push(x)) == upsert_all(
            upsert_rows(rows, x),
            recs.push(x).drop_first(),
        ));
    } else {
        assert(recs.push(x)[0] == recs[0]);
        assert(recs.push(x).drop_first() =~= recs.drop_first().push(x));
        lemma_upsert_all_snoc(upsert_rows(rows, recs[0]), recs.drop_first(), x);
    }
}

/// One upsert keeps ids unique.
pub proof fn lemma_upsert_rows_unique(rows: Seq<Notification>, n: Notification)
    requires
        unique_ids(rows),
    ensures
        unique_ids(upsert_rows(rows, n)),
        all_wf_times(rows) && n.updated_at.wf() ==> all_wf_times(upsert_rows(rows, n)),
{
    lemma_id_index(rows, n.id@, 0);
    match id_index_at(rows, n.id@, 0) {
        Some(j) => {
            let out = rows.update(j, merged(n, rows[j]));
            assert forall|a: int, b: int| 0 <= a < b < out.len() implies (#[trigger] out[a]).id@
                != (#[trigger] out[b]).id@ by {
                assert(rows[a].id@ != rows[b].id@);
            }
        },
        None => {
            let out = rows.push(n);
            assert forall|a: int, b: int| 0 <= a < b < out.len() implies (#[trigger] out[a]).id@
                != (#[trigger] out[b]).id@ by {
                if b == rows.len() as int {
                    assert(rows[a].id@ != n.id@);
                } else {
                    assert(rows[a].id@ != rows[b].id@);
                }
            }
        },
    }
}

/// The table already holds the record: some row with its id agrees
/// with it on every field but the boost, with `done` reset.
pub open spec fn absorbed(rows: Seq<Notification>, n: Notification) -> bool {
    exists|j: int|
        0 <= j < rows.len() && (#[trigger] rows[j]).id@ == n.id@ && rows[j] == merged(n, rows[j])
}

/// Upserting a record the table has absorbed changes nothing.
pub proof fn lemma_absorb(rows: Seq<Notification>, n: Notification)
    requires
        unique_ids(rows),
        absorbed(rows, n),
    ensures
        upsert_rows(rows, n) == rows,
{
    lemma_id_index(rows, n.id@, 0);
    let j = choose|j: int|
        0 <= j < rows.len() && (#[trigger] rows[j]).id@ == n.id@ && rows[j] == merged(n, rows[j]);
    match id_index_at(rows, n.id@, 0) {
        None => {
            assert(false);
        },
        Some(k) => {
            if k != j {
                assert(rows[k].id@ == rows[j].id@);
                assert(false);
            }
            assert(merged(n, rows[k]) == rows[k]);
            assert(rows.update(k, merged(n, rows[k])) =~= rows);
        },
    }
}

/// After upserting a record whose `done` is clear, the table has
/// absorbed it.
pub proof fn lemma_establish(rows: Seq<Notification>, n: Notification)
    requires
        unique_ids(rows),
        n.done == false,
    ensures
        absorbed(upsert_rows(rows, n), n),
{
    lemma_id_index(rows, n.id@, 0);
    match id_index_at(rows, n.id@, 0) {
        Some(j) => {
            let out = rows.update(j, merged(n, rows[j]));
            assert(out[j].id@ == n.id@);
            assert(out[j] == merged(n, out[j]));
        },
        None => {
            let out = rows.push(n);
            let j = rows.len() as int;
            assert(out[j] == n);
            assert(out[j] == merged(n, out[j]));
        },
    }
}

/// Upserting a record with another id keeps an absorbed record
/// absorbed.
pub proof fn lemma_preserve(rows: Seq<Notification>, m: Notification, n: Notification)
    requires
        unique_ids(rows),
        absorbed(rows, n),
        m.id@ != n.id@,
    ensures
        absorbed(upsert_rows(rows, m), n),
{
    lemma_id_index(rows, m.id@, 0);
    let j = choose|j: int|
        0 <= j < rows.len() && (#[trigger] rows[j]).id@ == n.id@ && rows[j] == merged(n, rows[j]);
    match id_index_at(rows, m.id@, 0) {
        Some(k) => {
            let out = rows.update(k, merged(m, rows[k]));
            assert(k != j);
            assert(out[j] == rows[j]);
            assert(out[j].id@ == n.id@ && out[j] == merged(n, out[j]));
        },
        None => {
            let out = rows.push(m);
            assert(out[j] == rows[j]);
            assert(out[j].id@ == n.id@ && out[j] == merged(n, out[j]));
        },
    }
}

/// A whole batch of other-id records keeps an absorbed record
/// absorbed.
pub proof fn lemma_preserve_all(rows: Seq<Notification>, recs: Seq<Notification>, n: Notification)
    requires
        unique_ids(rows),
        absorbed(rows, n),
        forall|i: int| 0 <= i < recs.len() ==> (#[trigger] recs[i]).id@ != n.id@,
    ensures
        absorbed(upsert_all(rows, recs), n),
    decreases recs.len(),
{
    if recs.len() > 0 {
        lemma_preserve(rows, recs[0], n);
        lemma_upsert_rows_unique(rows, recs[0]);
        lemma_preserve_all(upsert_rows(rows, recs[0]), recs.drop_first(), n);
    }
}

/// Batch upserts keep ids unique.
pub proof fn lemma_upsert_all_unique(rows: Seq<Notification>, recs: Seq<Notification>)
    requires
        unique_ids(rows),
    ensures
        unique_ids(upsert_all(rows, recs)),
    decreases recs.len(),
{
    if recs.len() > 0 {
        lemma_upsert_rows_unique(rows, recs[0]);
        lemma_upsert_all_unique(upsert_rows(rows, recs[0]), recs.drop_first());
    }
}

/// After a batch of records with distinct ids and clear `done`
/// flags, the table has absorbed every one of them.
pub proof fn lemma_all_absorbed(rows: Seq<Notification>, recs: Seq<Notification>)
    requires
        unique_ids(rows),
        unique_ids(recs),
        forall|i: int| 0 <= i < recs.len() ==> (#[trigger] recs[i]).done == false,
    ensures
        forall|i: int| 0 <= i < recs.len() ==> absorbed(upsert_all(rows, recs), #[trigger] recs[i]),
    decreases recs.len(),
{
    if recs.len() > 0 {
        let rows1 = upsert_rows(rows, recs[0]);
        lemma_establish(rows, recs[0]);
        lemma_upsert_rows_unique(rows, recs[0]);
        assert forall|i: int|
            0 <= i < recs.drop_first().len() implies (#[trigger] recs.drop_first()[i]).id@
            != recs[0].id@ by {
            assert(recs.drop_first()[i] == recs[i + 1]);
        }
        lemma_preserve_all(rows1, recs.drop_first(), recs[0]);
        lemma_all_absorbed(rows1, recs.drop_first());
        assert forall|i: int| 0 <= i < recs.len() implies absorbed(
            upsert_all(rows, recs),
            #[trigger] recs[i],
        ) by {
            if i > 0 {
                assert(recs.drop_first()[i - 1] == recs[i]);
                assert(absorbed(upsert_all(rows1, recs.drop_first()), recs.drop_first()[i - 1]));
            }
        }
    }
}

/// Upserting a batch the table has absorbed changes nothing.
pub proof fn lemma_noop_when_absorbed(rows: Seq<Notification>, recs: Seq<Notification>)
    requires
        unique_ids(rows),
        forall|i: int| 0 <= i < recs.len() ==> absorbed(rows, #[trigger] recs[i]),
    ensures
        upsert_all(rows, recs) == rows,
    decreases recs.len(),
{
    if recs.len() > 0 {
        lemma_absorb(rows, recs[0]);
        assert forall|i: int|
            0 <= i < recs.drop_first().len() implies absorbed(
            rows,
            #[trigger] recs.drop_first()[i],
        ) by {
            assert(recs.drop_first()[i] == recs[i + 1]);
        }
        lemma_noop_when_absorbed(rows, recs.drop_first());
    }
}

/// Upserting the same batch of remote records twice leaves exactly
/// the table that one upsert leaves: in particular the row count and
/// every row's manual boost are unchanged by the second run.
pub proof fn lemma_upsert_all_idempotent(rows: Seq<Notification>, recs: Seq<Notification>)
    requires
        unique_ids(rows),
        unique_ids(recs),
        forall|i: int| 0 <= i < recs.len() ==> (#[trigger] recs[i]).done == false,
    ensures
        upsert_all(upsert_all(rows, recs), recs) == upsert_all(rows, recs),
{
    let y = upsert_all(rows, recs);
    lemma_upsert_all_unique(rows, recs);
    lemma_all_absorbed(rows, recs);
    lemma_noop_when_absorbed(y, recs);
}

/// An upsert with another id leaves a row exactly in place.
pub proof fn lemma_upsert_rows_other_id(rows: Seq<Notification>, m: Notification, j: int)
    requires
        unique_ids(rows),
        0 <= j < rows.len(),
        m.id@ != rows[j].id@,
    ensures
        rows.len() <= upsert_rows(rows, m).len(),
        upsert_rows(rows, m)[j] == rows[j],
{
    lemma_id_index(rows, m.id@, 0);
    match id_index_at(rows, m.id@, 0) {
        Some(k) => {
            assert(rows[k].id@ == m.id@);
            assert(k != j);
        },
        None => {},
    }
}

/// A whole batch of other-id records leaves a row exactly in place.
pub proof fn lemma_other_ids_keep_row(rows: Seq<Notification>, recs: Seq<Notification>, j: int)
    requires
        unique_ids(rows),
        0 <= j < rows.len(),
        forall|i: int| 0 <= i < recs.len() ==> (#[trigger] recs[i]).id@ != rows[j].id@,
    ensures
        j < upsert_all(rows, recs).len(),
        upsert_all(rows, recs)[j] == rows[j],
    decreases recs.len(),
{
    if recs.len() > 0 {
        lemma_upsert_rows_other_id(rows, recs[0], j);
        lemma_upsert_rows_unique(rows, recs[0]);
        let rows1 = upsert_rows(rows, recs[0]);
        assert forall|i: int|
            0 <= i < recs.drop_first().len() implies (#[trigger] recs.drop_first()[i]).id@
            != rows1[j].id@ by {
            assert(recs.drop_first()[i] == recs[i + 1]);
        }
        lemma_other_ids_keep_row(rows1, recs.drop_first(), j);
    }
}

/// A re-sync overwrites a stored row from its fresh record exactly:
/// the table ends with a row that carries the record's fields, the
/// old row's manual boost, and a cleared `done` flag — whatever else
/// the batch holds, as long as remote ids are pairwise distinct.
pub proof fn lemma_resync_row(rows: Seq<Notification>, recs: Seq<Notification>, j: int, k: int)
    requires
        unique_ids(rows),
        unique_ids(recs),
        0 <= j < rows.len(),
        0 <= k < recs.len(),
        rows[j].id@ == recs[k].id@,
    ensures
        exists|j2: int|
            0 <= j2 < upsert_all(rows, recs).len() && #[trigger] upsert_all(rows, recs)[j2]
                == merged(recs[k], rows[j]),
    decreases k,
{
    let rows1 = upsert_rows(rows, recs[0]);
    lemma_upsert_rows_unique(rows, recs[0]);
    if k == 0 {
        lemma_id_index(rows, recs[0].id@, 0);
        match id_index_at(rows, recs[0].id@, 0) {
            Some(idx) => {
                assert(rows[idx].id@ == rows[j].id@);
                if idx != j {
                    assert(false);
                }
                assert(rows1[j] == merged(recs[0], rows[j]));
            },
            None => {
                assert(false);
            },
        }
        assert forall|i: int|
            0 <= i < recs.drop_first().len() implies (#[trigger] recs.drop_first()[i]).id@
            != rows1[j].id@ by {
            assert(recs.drop_first()[i] == recs[i + 1]);
            assert(rows1[j].id@ == recs[0].id@);
        }
        lemma_other_ids_keep_row(rows1, recs.drop_first(), j);
        assert(upsert_all(rows, recs)[j] == merged(recs[k], rows[j]));
    } else {
        assert(recs[0].id@ != rows[j].id@) by {
            assert(recs[0].id@ == recs[k].id@ ==> false);
        }
        lemma_upsert_rows_other_id(rows, recs[0], j);
        assert(rows1[j] == rows[j]);
        assert(recs.drop_first()[k - 1] == recs[k]);
        lemma_resync_row(rows1, recs.drop_first(), j, k - 1);
        assert(upsert_all(rows, recs) == upsert_all(rows1, recs.drop_first()));
    }
}

/// A stored row's manual boost survives any batch of upserts: the
/// table keeps a row with that id and that boost.
pub proof fn lemma_boost_survives(rows: Seq<Notification>, recs: Seq<Notification>, j: int)
    requires
        unique_ids(rows),
        0 <= j < rows.len(),
    ensures
        exists|j2: int|
            0 <= j2 < upsert_all(rows, recs).len() && (#[trigger] upsert_all(rows, recs)[j2]).id@
                == rows[j].id@ && upsert_all(rows, recs)[j2].score_boost == rows[j].score_boost,
    decreases recs.len(),
{
    if recs.len() == 0 {
        assert(upsert_all(rows, recs)[j].id@ == rows[j].id@);
    } else {
        let rows1 = upsert_rows(rows, recs[0]);
        lemma_id_index(rows, recs[0].id@, 0);
        lemma_upsert_rows_unique(rows, recs[0]);
        match id_index_at(rows, recs[0].id@, 0) {
            Some(k) => {
                assert(rows1[j].id@ == rows[j].id@ && rows1[j].score_boost
                    == rows[j].score_boost);
            },
            None => {
                assert(rows1[j] == rows[j]);
            },
        }
        lemma_boost_survives(rows1, recs.drop_first(), j);
    }
}

/// The notification table.
pub struct Store {
    pub rows: Vec<Notification>,
}

impl Store {
    /// Rows have pairwise distinct ids and valid timestamps.
    pub open spec fn wf(self) -> bool {
        &&& unique_ids(self.rows@)
        &&& all_wf_times(self.rows@)
    }

    pub open spec fn has_id(self, id: Seq<char>) -> bool {
        exists|i: int| 0 <= i < self.rows@.len() && (#[trigger] self.rows@[i]).id@ == id
    }

    /// An empty store.
    pub fn new() -> (r: Store)
        ensures
            r.wf(),
            r.rows@.len() == 0,
    {
        Store { rows: Vec::new() }
    }

    pub fn len(&self) -> (r: usize)
        ensures
            r == self.rows@.len(),
    {
        self.rows.len()
    }

    /// The position of the row with this id.
    pub fn find_by_id(&self, id: &str) -> (r: Option<usize>)
        ensures
            r matches Some(j) ==> j < self.rows@.len() && self.rows@[j as int].id@ == id@,
            (r is None) == !self.has_id(id@),
    {
        let idc = chars_of(id);
        let n = self.rows.len();
        let mut i: usize = 0;
        while i < n
            invariant
                n == self.rows@.len(),
                i <= n,
                idc@ == id@,
                forall|j: int| 0 <= j < i ==> (#[trigger] self.rows@[j]).id@ != id@,
            decreases n - i,
        {
            let rc = chars_of(self.rows[i].id.as_str());
            if chars_eq(rc.as_slice(), idc.as_slice()) {
                return Some(i);
            }
            i = i + 1;
        }
        None
    }

    /// Inserts the record, or overwrites the row with the same id
    /// while preserving its manual boost and resetting `done`.
    pub fn upsert(&mut self, n: Notification)
        requires
            old(self).wf(),
            n.updated_at.wf(),
        ensures
            final(self).wf(),
            final(self).rows@ == upsert_rows(old(self).rows@, n),
            old(self).has_id(n.id@) ==> {
                &&& final(self).rows@.len() == old(self).rows@.len()
                &&& forall|i: int|
                    0 <= i < old(self).rows@.len() && (#[trigger] old(self).rows@[i]).id@ != n.id@
                        ==> final(self).rows@[i] == old(self).rows@[i]
                &&& forall|i: int|
                    0 <= i < old(self).rows@.len() && (#[trigger] old(self).rows@[i]).id@ == n.id@
                        ==> final(self).rows@[i] == merged(n, old(self).rows@[i])
            },
            !old(self).has_id(n.id@) ==> final(self).rows@ == old(self).rows@.push(n),
    {
        let idx = self.find_by_id(n.id.as_str());
        proof {
            lemma_id_index(old(self).rows@, n.id@, 0);
        }
        match idx {
            Some(j) => {
                proof {
                    let j0 = id_index_at(old(self).rows@, n.id@, 0)->Some_0;
                    if j0 != j as int {
                        assert(old(self).rows@[j0].id@ == old(self).rows@[j as int].id@);
                    }
                    assert(id_index_at(old(self).rows@, n.id@, 0) == Some(j as int));
                }
                let boost = self.rows[j].score_boost;
                let row = Notification { score_boost: boost, done: false, ..n };
                self.rows.set(j, row);
                proof {
                    assert(final(self).rows@[j as int] == merged(n, old(self).rows@[j as int]));
                    assert forall|i: int|
                        0 <= i < old(self).rows@.len() && (#[trigger] old(
                            self,
                        ).rows@[i]).id@ == n.id@ implies final(self).rows@[i] == merged(
                        n,
                        old(self).rows@[i],
                    ) by {
                        if i != j {
                            assert(old(self).rows@[i].id@ == old(self).rows@[j as int].id@);
                        }
                    }
                }
            },
            None => {
                self.rows.push(n);
            },
        }
    }

    /// The latest `updated_at` across the stored rows: the sync
    /// watermark.
    pub fn recent_update(&self) -> (r: Option<Timestamp>)
        requires
            self.wf(),
        ensures
            (r is None) == (self.rows@.len() == 0),
            r matches Some(t) ==> (exists|i: int|
                0 <= i < self.rows@.len() && (#[trigger] self.rows@[i]).updated_at == t) && (
            forall|i: int|
                0 <= i < self.rows@.len() ==> (#[trigger] self.rows@[i]).updated_at.key()
                    <= t.key()) && t.wf(),
    {
        let n = self.rows.len();
        if n == 0 {
            return None;
        }
        let mut best: Timestamp = self.rows[0].updated_at;
        let mut i: usize = 1;
        while i < n
            invariant
                n == self.rows@.len(),
                1 <= i <= n,
                all_wf_times(self.rows@),
                best.wf(),
                exists|j: int|
                    0 <= j < i && (#[trigger] self.rows@[j]).updated_at == best,
                forall|j: int|
                    0 <= j < i ==> (#[trigger] self.rows@[j]).updated_at.key() <= best.key(),
            decreases n - i,
        {
            let t = self.rows[i].updated_at;
            if best.le(&t) {
                best = t;
            }
            i = i + 1;
        }
        Some(best)
    }

    /// Sets the `done` flag of the row with this id.
    pub fn set_done(&mut self, id: &str, value: bool) -> (found: bool)
        requires
            old(self).wf(),
        ensures
            final(self).wf(),
            found == old(self).has_id(id@),
            final(self).rows@.len() == old(self).rows@.len(),
            forall|i: int|
                0 <= i < old(self).rows@.len() && (#[trigger] old(self).rows@[i]).id@ != id@
                    ==> final(self).rows@[i] == old(self).rows@[i],
            forall|i: int|
                0 <= i < old(self).rows@.len() && (#[trigger] old(self).rows@[i]).id@ == id@
                    ==> final(self).rows@[i] == with_done(old(self).rows@[i], value),
    {
        match self.find_by_id(id) {
            Some(j) => {
                let row = &self.rows[j];
                let updated = Notification { done: value, ..row.duplicate() };
                self.rows.set(j, updated);
                proof {
                    assert forall|i: int|
                        0 <= i < old(self).rows@.len() && (#[trigger] old(
                            self,
                        ).rows@[i]).id@ == id@ implies final(self).rows@[i] == with_done(
                        old(self).rows@[i],
                        value,
                    ) by {
                        if i != j {
                            assert(old(self).rows@[i].id@ == old(self).rows@[j as int].id@);
                        }
                    }
                }
                true
            },
            None => false,
        }
    }

    /// Sets the `unread` flag of the row with this id.
    pub fn set_unread(&mut self, id: &str, value: bool) -> (found: bool)
        requires
            old(self).wf(),
        ensures
            final(self).wf(),
            found == old(self).has_id(id@),
            final(self).rows@.len() == old(self).rows@.len(),
            forall|i: int|
                0 <= i < old(self).rows@.len() && (#[trigger] old(self).rows@[i]).id@ != id@
                    ==> final(self).rows@[i] == old(self).rows@[i],
            forall|i: int|
                0 <= i < old(self).rows@.len() && (#[trigger] old(self).rows@[i]).id@ == id@
                    ==> final(self).rows@[i] == with_unread(old(self).rows@[i], value),
    {
        match self.find_by_id(id) {
            Some(j) => {
                let row = &self.rows[j];
                let updated = Notification { unread: value, ..row.duplicate() };
                self.rows.set(j, updated);
                proof {
                    assert forall|i: int|
                        0 <= i < old(self).rows@.len() && (#[trigger] old(
                            self,
                        ).rows@[i]).id@ == id@ implies final(self).rows@[i] == with_unread(
                        old(self).rows@[i],
                        value,
                    ) by {
                        if i != j {
                            assert(old(self).rows@[i].id@ == old(self).rows@[j as int].id@);
                        }
                    }
                }
                true
            },
            None => false,
        }
    }

    /// Adds `delta` to the manual boost of the row with this id,
    /// saturating at the numeric limits.
    pub fn add_boost(&mut self, id: &str, delta: i64) -> (found: bool)
        requires
            old(self).wf(),
        ensures
            final(self).wf(),
            found == old(self).has_id(id@),
            final(self).rows@.len() == old(self).rows@.len(),
            forall|i: int|
                0 <= i < old(self).rows@.len() && (#[trigger] old(self).rows@[i]).id@ != id@
                    ==> final(self).rows@[i] == old(self).rows@[i],
            forall|i: int|
                0 <= i < old(self).rows@.len() && (#[trigger] old(self).rows@[i]).id@ == id@
                    ==> final(self).rows@[i] == with_boost(old(self).rows@[i], delta as int),
    {
        match self.find_by_id(id) {
            Some(j) => {
                let row = &self.rows[j];
                let cur = row.score_boost;
                let summed: i64 = if delta >= 0 {
                    if cur > i64::MAX - delta {
                        i64::MAX
                    } else {
                        cur + delta
                    }
                } else {
                    if cur < i64::MIN - delta {
                        i64::MIN
                    } else {
                        cur + delta
                    }
                };
                let updated = Notification { score_boost: summed, ..row.duplicate() };
                self.rows.set(j, updated);
                proof {
                    assert forall|i: int|
                        0 <= i < old(self).rows@.len() && (#[trigger] old(
                            self,
                        ).rows@[i]).id@ == id@ implies final(self).rows@[i] == with_boost(
                        old(self).rows@[i],
                        delta as int,
                    ) by {
                        if i != j {
                            assert(old(self).rows@[i].id@ == old(self).rows@[j as int].id@);
                        }
                    }
                }
                true
            },
            None => false,
        }
    }
}

} // verus!
