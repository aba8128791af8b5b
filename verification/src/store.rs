//! The verified device table.
//!
//! [`DeviceStore`] models the persistence layer's single table: ids are
//! unique and the rows are kept ordered by purchase date, newest first
//! (byte-wise lexicographic order on the date text, descending). Insertion
//! and deletion are specified by the recursive functions
//! [`insert_sorted_model`] and [`remove_id_model`], so every caller knows
//! the exact sequence of rows that results.

use vstd::prelude::*;

use crate::device::{clone_bytes, Device, DeviceModel};
use crate::order::{lemma_lex_le_total, lemma_lex_le_trans, lex_le, lex_le_spec};

verus! {

/// The models of a sequence of rows.
pub open spec fn models(rows: Seq<Device>) -> Seq<DeviceModel> {
    rows.map_values(|d: Device| d@)
}

/// Rows are ordered by purchase date, newest (lexicographically largest)
/// first.
pub open spec fn sorted_by_date_desc(s: Seq<DeviceModel>) -> bool {
    forall|i: int, j: int|
        0 <= i < j < s.len() ==> lex_le_spec(#[trigger] s[j].purchase_date, #[trigger] s[i].purchase_date)
}

/// No two rows share an id.
pub open spec fn ids_unique(s: Seq<DeviceModel>) -> bool {
    forall|i: int, j: int| 0 <= i < j < s.len() ==> #[trigger] s[i].id != #[trigger] s[j].id
}

/// Some row carries the given id.
pub open spec fn has_id(s: Seq<DeviceModel>, id: Seq<u8>) -> bool {
    exists|i: int| 0 <= i < s.len() && #[trigger] s[i].id == id
}

/// Where a new row lands: after every row whose date is greater than or
/// equal to its own, before the first strictly older one.
pub open spec fn insert_sorted_model(s: Seq<DeviceModel>, m: DeviceModel) -> Seq<DeviceModel>
    decreases s.len(),
{
    if s.len() == 0 {
        seq![m]
    } else if lex_le_spec(m.purchase_date, s[0].purchase_date) {
        seq![s[0]] + insert_sorted_model(s.skip(1), m)
    } else {
        seq![m] + s
    }
}

/// All rows except those carrying the given id, in order.
pub open spec fn remove_id_model(s: Seq<DeviceModel>, id: Seq<u8>) -> Seq<DeviceModel>
    decreases s.len(),
{
    if s.len() == 0 {
        Seq::<DeviceModel>::empty()
    } else if s[0].id == id {
        remove_id_model(s.skip(1), id)
    } else {
        seq![s[0]] + remove_id_model(s.skip(1), id)
    }
}

/// Inserting is inserting at the position the scan finds: if every row
/// before `k` has a date at least the new one's and row `k` (if any) is
/// strictly older, the result is `s` with `m` at index `k`.
proof fn lemma_insert_sorted_model_at(s: Seq<DeviceModel>, m: DeviceModel, k: int)
    requires
        0 <= k <= s.len(),
        forall|i: int| 0 <= i < k ==> lex_le_spec(m.purchase_date, #[trigger] s[i].purchase_date),
        k < s.len() ==> !lex_le_spec(m.purchase_date, s[k].purchase_date),
    ensures
        insert_sorted_model(s, m) == s.insert(k, m),
    decreases s.len(),
{
    if s.len() == 0 {
        assert(insert_sorted_model(s, m) =~= s.insert(0, m));
    } else if k == 0 {
        assert(insert_sorted_model(s, m) =~= s.insert(0, m));
    } else {
        assert(lex_le_spec(m.purchase_date, s[0].purchase_date));
        lemma_insert_sorted_model_at(s.skip(1), m, k - 1);
        assert(insert_sorted_model(s, m) =~= s.insert(k, m));
    }
}

/// The new row always lands at some index, with everything else kept.
pub proof fn lemma_insert_sorted_model_is_insert(s: Seq<DeviceModel>, m: DeviceModel)
    ensures
        exists|k: int|
            0 <= k <= s.len() && insert_sorted_model(s, m) == #[trigger] s.insert(k, m),
    decreases s.len(),
{
    if s.len() == 0 {
        assert(insert_sorted_model(s, m) =~= s.insert(0, m));
    } else if lex_le_spec(m.purchase_date, s[0].purchase_date) {
        lemma_insert_sorted_model_is_insert(s.skip(1), m);
        let k = choose|k: int|
            0 <= k <= s.skip(1).len() && insert_sorted_model(s.skip(1), m) == #[trigger] s.skip(
                1,
            ).insert(k, m);
        assert(insert_sorted_model(s, m) =~= s.insert(k + 1, m));
    } else {
        assert(insert_sorted_model(s, m) =~= s.insert(0, m));
    }
}

/// Inserting grows the row count by one.
pub proof fn lemma_insert_sorted_model_len(s: Seq<DeviceModel>, m: DeviceModel)
    ensures
        insert_sorted_model(s, m).len() == s.len() + 1,
    decreases s.len(),
{
    if s.len() > 0 && lex_le_spec(m.purchase_date, s[0].purchase_date) {
        lemma_insert_sorted_model_len(s.skip(1), m);
    }
}

/// The tail of a date-ordered sequence is date-ordered.
proof fn lemma_sorted_skip_one(s: Seq<DeviceModel>)
    requires
        sorted_by_date_desc(s),
        s.len() > 0,
    ensures
        sorted_by_date_desc(s.skip(1)),
{
    assert forall|i: int, j: int| 0 <= i < j < s.skip(1).len() implies lex_le_spec(
        #[trigger] s.skip(1)[j].purchase_date,
        #[trigger] s.skip(1)[i].purchase_date,
    ) by {
        assert(s.skip(1)[j] == s[j + 1]);
        assert(s.skip(1)[i] == s[i + 1]);
    }
}

/// Inserting keeps the descending date order.
pub proof fn lemma_insert_sorted_model_keeps_sorted(s: Seq<DeviceModel>, m: DeviceModel)
    requires
        sorted_by_date_desc(s),
    ensures
        sorted_by_date_desc(insert_sorted_model(s, m)),
    decreases s.len(),
{
    let r = insert_sorted_model(s, m);
    if s.len() == 0 {
        assert(sorted_by_date_desc(r));
    } else if lex_le_spec(m.purchase_date, s[0].purchase_date) {
        lemma_sorted_skip_one(s);
        lemma_insert_sorted_model_keeps_sorted(s.skip(1), m);
        lemma_insert_sorted_model_is_insert(s.skip(1), m);
        let t = insert_sorted_model(s.skip(1), m);
        let k = choose|k: int|
            0 <= k <= s.skip(1).len() && t == #[trigger] s.skip(1).insert(k, m);
        assert forall|i: int, j: int| 0 <= i < j < r.len() implies lex_le_spec(
            #[trigger] r[j].purchase_date,
            #[trigger] r[i].purchase_date,
        ) by {
            if i == 0 {
                // the old first row is at least as new as everything below it
                let x = r[j];
                assert(x == t[j - 1]);
                if j - 1 == k {
                    assert(x == m);
                } else if j - 1 < k {
                    assert(x == s.skip(1)[j - 1]);
                    assert(x == s[j]);
                } else {
                    assert(x == s.skip(1)[j - 2]);
                    assert(x == s[j - 1]);
                }
            } else {
                assert(r[j] == t[j - 1]);
                assert(r[i] == t[i - 1]);
            }
        }
    } else {
        lemma_lex_le_total(m.purchase_date, s[0].purchase_date);
        assert forall|i: int, j: int| 0 <= i < j < r.len() implies lex_le_spec(
            #[trigger] r[j].purchase_date,
            #[trigger] r[i].purchase_date,
        ) by {
            if i == 0 {
                // every old row is at least as old as the first, hence as m
                assert(r[j] == s[j - 1]);
                if j - 1 > 0 {
                    lemma_lex_le_trans(s[j - 1].purchase_date, s[0].purchase_date, m.purchase_date);
                }
            } else {
                assert(r[j] == s[j - 1]);
                assert(r[i] == s[i - 1]);
            }
        }
    }
}

/// Inserting a fresh id keeps the ids unique.
pub proof fn lemma_insert_sorted_model_keeps_unique(s: Seq<DeviceModel>, m: DeviceModel)
    requires
        ids_unique(s),
        !has_id(s, m.id),
    ensures
        ids_unique(insert_sorted_model(s, m)),
{
    lemma_insert_sorted_model_is_insert(s, m);
    let k = choose|k: int| 0 <= k <= s.len() && insert_sorted_model(s, m) == #[trigger] s.insert(k, m);
    let t = s.insert(k, m);
    assert forall|i: int, j: int| 0 <= i < j < t.len() implies #[trigger] t[i].id
        != #[trigger] t[j].id by {
        if i == k {
            assert(t[j] == s[j - 1]);
        } else if j == k {
            assert(t[i] == s[i]);
        }
    }
}

/// A well-formed store: rows ordered newest first, ids unique.
pub struct DeviceStore {
    rows: Vec<Device>,
}

impl View for DeviceStore {
    type V = Seq<DeviceModel>;

    closed spec fn view(&self) -> Seq<DeviceModel> {
        models(self.rows@)
    }
}

impl DeviceStore {
    /// Rows ordered by purchase date descending, ids unique.
    pub open spec fn wf(&self) -> bool {
        sorted_by_date_desc(self@) && ids_unique(self@)
    }

    /// An empty table.
    pub fn new() -> (s: Self)
        ensures
            s@ =~= Seq::<DeviceModel>::empty(),
            s.wf(),
    {
        DeviceStore { rows: Vec::new() }
    }

    /// How many rows are stored.
    pub fn len(&self) -> (n: usize)
        ensures
            n == self@.len(),
    {
        self.rows.len()
    }

    /// Whether some stored row carries this id.
    pub fn contains_id(&self, id: &Vec<u8>) -> (r: bool)
        ensures
            r == has_id(self@, id@),
    {
        let mut i: usize = 0;
        while i < self.rows.len()
            invariant
                i <= self.rows.len(),
                forall|j: int| 0 <= j < i ==> #[trigger] models(self.rows@)[j].id != id@,
            decreases self.rows.len() - i,
        {
            if bytes_eq(&self.rows[i].id, id) {
                proof {
                    assert(models(self.rows@)[i as int].id == id@);
                }
                return true;
            }
            i = i + 1;
        }
        false
    }

    /// Files a new row at its place in the date order. The caller rules out
    /// a duplicate id, as the table's primary key would.
    pub fn insert(&mut self, d: Device)
        requires
            old(self).wf(),
            !has_id(old(self)@, d@.id),
        ensures
            final(self)@ == insert_sorted_model(old(self)@, d@),
            final(self).wf(),
            final(self)@.len() == old(self)@.len() + 1,
    {
        let ghost s0 = self@;
        insert_sorted(&mut self.rows, d);
        proof {
            lemma_insert_sorted_model_keeps_sorted(s0, d@);
            lemma_insert_sorted_model_keeps_unique(s0, d@);
            lemma_insert_sorted_model_len(s0, d@);
        }
    }

    /// Removes the row with this id, if one is stored; removing an absent
    /// id leaves the table unchanged.
    pub fn delete_by_id(&mut self, id: &Vec<u8>)
        ensures
            final(self)@ == remove_id_model(old(self)@, id@),
            old(self).wf() ==> final(self).wf(),
    {
        let ghost s = models(self.rows@);
        let mut kept: Vec<Device> = Vec::new();
        let mut i: usize = 0;
        proof {
            assert(s.skip(0) =~= s);
        }
        while i < self.rows.len()
            invariant
                i <= self.rows.len(),
                s == models(self.rows@),
                models(kept@) + remove_id_model(s.skip(i as int), id@) == remove_id_model(s, id@),
            decreases self.rows.len() - i,
        {
            proof {
                assert(s.skip(i as int)[0] == s[i as int]);
                assert(s.skip(i as int).skip(1) =~= s.skip(i + 1));
            }
            let row = &self.rows[i];
            if bytes_eq(&row.id, id) {
                // this row is the one being deleted
            } else {
                let copy = row.clone();
                kept.push(copy);
                proof {
                    assert(models(kept@) =~= models(kept@.drop_last()).push(s[i as int]));
                    assert(models(kept@) + remove_id_model(s.skip(i + 1), id@) =~= models(
                        kept@.drop_last(),
                    ) + remove_id_model(s.skip(i as int), id@));
                }
            }
            i = i + 1;
        }
        proof {
            assert(s.skip(i as int) =~= Seq::<DeviceModel>::empty());
            assert(models(kept@) + remove_id_model(s.skip(i as int), id@) =~= models(kept@));
        }
        self.rows = kept;
        proof {
            if sorted_by_date_desc(s) && ids_unique(s) {
                lemma_remove_id_model_keeps_wf(s, id@);
            }
        }
    }

    /// Every stored row, newest purchase date first.
    pub fn list_all(&self) -> (r: Vec<Device>)
        ensures
            models(r@) == self@,
    {
        let mut out: Vec<Device> = Vec::new();
        let mut i: usize = 0;
        while i < self.rows.len()
            invariant
                i <= self.rows.len(),
                out@.len() == i,
                forall|j: int| 0 <= j < i ==> #[trigger] out@[j]@ == self.rows@[j]@,
            decreases self.rows.len() - i,
        {
            let copy = self.rows[i].clone();
            out.push(copy);
            i = i + 1;
        }
        proof {
            assert(models(out@) =~= models(self.rows@));
        }
        out
    }
}

/// Compares two byte strings for equality.
pub fn bytes_eq(a: &Vec<u8>, b: &Vec<u8>) -> (r: bool)
    ensures
        r == (a@ == b@),
{
    if a.len() != b.len() {
        return false;
    }
    let mut i: usize = 0;
    while i < a.len()
        invariant
            a.len() == b.len(),
            i <= a.len(),
            forall|j: int| 0 <= j < i ==> a@[j] == b@[j],
        decreases a.len() - i,
    {
        if a[i] != b[i] {
            return false;
        }
        i = i + 1;
    }
    proof {
        assert(a@ =~= b@);
    }
    true
}

/// Files a row into a date-ordered sequence of rows, by scanning past every
/// row at least as new and inserting before the first strictly older one.
pub fn insert_sorted(rows: &mut Vec<Device>, d: Device)
    ensures
        models(final(rows)@) == insert_sorted_model(models(old(rows)@), d@),
{
    let ghost s = models(rows@);
    let mut k: usize = 0;
    while k < rows.len() && lex_le(&d.purchase_date, &rows[k].purchase_date)
        invariant
            k <= rows.len(),
            s == models(rows@),
            forall|i: int| 0 <= i < k ==> lex_le_spec(d@.purchase_date, #[trigger] s[i].purchase_date),
        decreases rows.len() - k,
    {
        k = k + 1;
    }
    rows.insert(k, d);
    proof {
        lemma_insert_sorted_model_at(s, d@, k as int);
        assert(models(rows@) =~= s.insert(k as int, d@));
    }
}

/// Rows whose id differs survive a removal unchanged and in order, so
/// removal keeps the store well-formed.
proof fn lemma_remove_id_model_keeps_wf(s: Seq<DeviceModel>, id: Seq<u8>)
    requires
        sorted_by_date_desc(s),
        ids_unique(s),
    ensures
        sorted_by_date_desc(remove_id_model(s, id)),
        ids_unique(remove_id_model(s, id)),
    decreases s.len(),
{
    lemma_remove_id_model_le(s, id);
    if s.len() == 0 {
    } else {
        assert(sorted_by_date_desc(s.skip(1))) by {
            assert forall|i: int, j: int| 0 <= i < j < s.skip(1).len() implies lex_le_spec(
                #[trigger] s.skip(1)[j].purchase_date,
                #[trigger] s.skip(1)[i].purchase_date,
            ) by {
                assert(s.skip(1)[j] == s[j + 1]);
                assert(s.skip(1)[i] == s[i + 1]);
            }
        }
        assert(ids_unique(s.skip(1))) by {
            assert forall|i: int, j: int| 0 <= i < j < s.skip(1).len() implies #[trigger] s.skip(
                1,
            )[i].id != #[trigger] s.skip(1)[j].id by {
                assert(s.skip(1)[j] == s[j + 1]);
                assert(s.skip(1)[i] == s[i + 1]);
            }
        }
        lemma_remove_id_model_keeps_wf(s.skip(1), id);
        if s[0].id == id {
        } else {
            let r = seq![s[0]] + remove_id_model(s.skip(1), id);
            lemma_remove_id_model_le(s.skip(1), id);
            assert forall|i: int, j: int| 0 <= i < j < r.len() implies lex_le_spec(
                #[trigger] r[j].purchase_date,
                #[trigger] r[i].purchase_date,
            ) by {
                if i == 0 {
                    let m = r[j];
                    lemma_remove_id_model_membership(s.skip(1), id, j - 1);
                    let w = choose|w: int|
                        0 <= w < s.skip(1).len() && #[trigger] s.skip(1)[w] == m;
                    assert(s[w + 1] == m);
                }
            }
            assert forall|i: int, j: int| 0 <= i < j < r.len() implies #[trigger] r[i].id
                != #[trigger] r[j].id by {
                if i == 0 {
                    let m = r[j];
                    lemma_remove_id_model_membership(s.skip(1), id, j - 1);
                    let w = choose|w: int|
                        0 <= w < s.skip(1).len() && #[trigger] s.skip(1)[w] == m;
                    assert(s[w + 1] == m);
                }
            }
        }
    }
}

/// What removal keeps is never longer than what was there.
proof fn lemma_remove_id_model_le(s: Seq<DeviceModel>, id: Seq<u8>)
    ensures
        remove_id_model(s, id).len() <= s.len(),
    decreases s.len(),
{
    if s.len() > 0 {
        lemma_remove_id_model_le(s.skip(1), id);
    }
}

/// Every row removal keeps was already stored.
proof fn lemma_remove_id_model_membership(s: Seq<DeviceModel>, id: Seq<u8>, j: int)
    requires
        0 <= j < remove_id_model(s, id).len(),
    ensures
        exists|w: int| 0 <= w < s.len() && #[trigger] s[w] == remove_id_model(s, id)[j],
    decreases s.len(),
{
    if s.len() == 0 {
    } else if s[0].id == id {
        lemma_remove_id_model_membership(s.skip(1), id, j);
        let w = choose|w: int|
            0 <= w < s.skip(1).len() && #[trigger] s.skip(1)[w] == remove_id_model(s.skip(1), id)[j];
        assert(s[w + 1] == remove_id_model(s, id)[j]);
    } else if j == 0 {
        assert(s[0] == remove_id_model(s, id)[0]);
    } else {
        lemma_remove_id_model_membership(s.skip(1), id, j - 1);
        let w = choose|w: int|
            0 <= w < s.skip(1).len() && #[trigger] s.skip(1)[w] == remove_id_model(s.skip(1), id)[
                j - 1
            ];
        assert(s[w + 1] == remove_id_model(s, id)[j]);
    }
}

} // verus!
