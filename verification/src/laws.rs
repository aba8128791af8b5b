//! The service-level laws, proved once over the store's model.
//!
//! Each proof function states one guarantee of the request/response path
//! in terms of the same spec functions the handlers' contracts use.

use vstd::prelude::*;

use crate::device::DeviceModel;
use crate::store::{has_id, ids_unique, insert_sorted_model, lemma_insert_sorted_model_is_insert,
    remove_id_model, DeviceStore};

verus! {

/// A read changes nothing: what a list call returns is a function of the
/// stored rows alone, so two list calls with no intervening write return
/// the same rows.
pub proof fn lemma_list_idempotent(s: DeviceStore, r1: Seq<DeviceModel>, r2: Seq<DeviceModel>)
    requires
        r1 == s@,
        r2 == s@,
    ensures
        r1 == r2,
{
}

/// After a device is created, the listing holds exactly one row equal to
/// it — at the place its date puts it — and every prior row unchanged.
pub proof fn lemma_create_then_list(s: Seq<DeviceModel>, d: DeviceModel)
    requires
        !has_id(s, d.id),
    ensures
        exists|k: int|
            {
                let t = insert_sorted_model(s, d);
                &&& 0 <= k <= s.len()
                &&& t == #[trigger] s.insert(k, d)
                &&& t[k] == d
                &&& forall|j: int| 0 <= j < t.len() && j != k ==> t[j] != d
            },
{
    lemma_insert_sorted_model_is_insert(s, d);
    let k = choose|k: int| 0 <= k <= s.len() && insert_sorted_model(s, d) == #[trigger] s.insert(
        k,
        d,
    );
    let t = s.insert(k, d);
    assert forall|j: int| 0 <= j < t.len() && j != k implies t[j] != d by {
        if j < k {
            assert(t[j] == s[j]);
            if s[j].id == d.id {
                assert(has_id(s, d.id));
            }
        } else {
            assert(t[j] == s[j - 1]);
            if s[j - 1].id == d.id {
                assert(has_id(s, d.id));
            }
        }
    }
    assert(t[k] == d);
}

/// No row with a removed id survives a delete.
pub proof fn lemma_delete_removes_id(s: Seq<DeviceModel>, x: Seq<u8>)
    ensures
        !has_id(remove_id_model(s, x), x),
    decreases s.len(),
{
    if s.len() == 0 {
    } else {
        lemma_delete_removes_id(s.skip(1), x);
        if s[0].id == x {
        } else {
            let r = seq![s[0]] + remove_id_model(s.skip(1), x);
            assert forall|i: int| 0 <= i < r.len() implies #[trigger] r[i].id != x by {
                if i > 0 {
                    assert(r[i] == remove_id_model(s.skip(1), x)[i - 1]);
                    if r[i].id == x {
                        assert(has_id(remove_id_model(s.skip(1), x), x));
                    }
                }
            }
        }
    }
}

/// Deleting an id that no row carries changes nothing.
pub proof fn lemma_delete_absent_id(s: Seq<DeviceModel>, x: Seq<u8>)
    requires
        !has_id(s, x),
    ensures
        remove_id_model(s, x) == s,
    decreases s.len(),
{
    if s.len() == 0 {
        assert(remove_id_model(s, x) =~= s);
    } else {
        if s[0].id == x {
            assert(has_id(s, x));
        }
        assert(!has_id(s.skip(1), x)) by {
            if has_id(s.skip(1), x) {
                let i = choose|i: int| 0 <= i < s.skip(1).len() && #[trigger] s.skip(1)[i].id == x;
                assert(s[i + 1].id == x);
            }
        }
        lemma_delete_absent_id(s.skip(1), x);
        assert(remove_id_model(s, x) =~= s);
    }
}

/// Deleting the same id a second time changes nothing further (and the
/// handler acknowledges it with the same fixed body regardless).
pub proof fn lemma_delete_idempotent(s: Seq<DeviceModel>, x: Seq<u8>)
    ensures
        remove_id_model(remove_id_model(s, x), x) == remove_id_model(s, x),
{
    lemma_delete_removes_id(s, x);
    lemma_delete_absent_id(remove_id_model(s, x), x);
}

/// Two creates that both succeeded drew distinct ids, so they stored two
/// distinct rows — even for identical payloads.
pub proof fn lemma_consecutive_creates_distinct(
    s: Seq<DeviceModel>,
    d1: DeviceModel,
    d2: DeviceModel,
)
    requires
        !has_id(s, d1.id),
        !has_id(insert_sorted_model(s, d1), d2.id),
    ensures
        d1.id != d2.id,
        d1 != d2,
{
    lemma_insert_sorted_model_is_insert(s, d1);
    let k = choose|k: int| 0 <= k <= s.len() && insert_sorted_model(s, d1) == #[trigger] s.insert(
        k,
        d1,
    );
    assert(insert_sorted_model(s, d1)[k] == d1);
    if d1.id == d2.id {
        assert(has_id(insert_sorted_model(s, d1), d2.id));
    }
}

} // verus!
