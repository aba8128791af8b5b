//! The three request handlers, as functions from plain values to response
//! bodies.
//!
//! The surrounding server hands in what it read (a fetched row set, a
//! decoded payload, a path id) and sends back the bytes these functions
//! return. Listing degrades to an empty array when the fetch failed;
//! creation assigns a fresh random id and refuses only an id collision;
//! deletion always answers the fixed acknowledgment.

use vstd::prelude::*;

use crate::device::{device_of, Device, DeviceModel, NewDevice};
use crate::json::{delete_ok_body, delete_ok_spec, device_json, device_json_spec, devices_json,
    devices_json_spec};
use crate::store::{has_id, insert_sorted, insert_sorted_model, models, remove_id_model,
    DeviceStore, lemma_insert_sorted_model_keeps_sorted};

verus! {

/// A storage call that did not complete.
pub struct DbError;

/// Why a create request was refused: the id drawn for the new row was
/// already stored, which the table's primary key forbids.
pub enum CreateError {
    IdTaken(Vec<u8>),
}

/// The shape of the text form of a v4 UUID: 36 bytes, hyphens at the four
/// fixed positions, lower-case hexadecimal digits everywhere else.
pub open spec fn uuid_text_format(s: Seq<u8>) -> bool {
    &&& s.len() == 36
    &&& forall|i: int|
        0 <= i < 36 ==> (if i == 8 || i == 13 || i == 18 || i == 23 {
            s[i] == 45
        } else {
            (48 <= #[trigger] s[i] <= 57) || (97 <= s[i] <= 102)
        })
}

/// Relies on `uuid::Uuid::new_v4` and its `Display` impl: a freshly drawn
/// random v4 UUID, written as 36 bytes of lower-case hexadecimal with
/// hyphens at positions 8, 13, 18 and 23. The value itself is random, so
/// nothing relates two draws.
#[verifier::external_body]
fn uuid_v4_bytes() -> (r: Vec<u8>)
    ensures
        uuid_text_format(r@),
{
    uuid::Uuid::new_v4().to_string().into_bytes()
}

/// Where every row of an unordered fetch lands: filed one by one into the
/// descending date order.
pub open spec fn sort_by_date_model(s: Seq<DeviceModel>) -> Seq<DeviceModel>
    decreases s.len(),
{
    if s.len() == 0 {
        Seq::<DeviceModel>::empty()
    } else {
        insert_sorted_model(sort_by_date_model(s.drop_last()), s.last())
    }
}

/// The sorted row set is ordered by purchase date, newest first.
pub proof fn lemma_sort_by_date_model_sorted(s: Seq<DeviceModel>)
    ensures
        crate::store::sorted_by_date_desc(sort_by_date_model(s)),
    decreases s.len(),
{
    if s.len() == 0 {
    } else {
        lemma_sort_by_date_model_sorted(s.drop_last());
        lemma_insert_sorted_model_keeps_sorted(sort_by_date_model(s.drop_last()), s.last());
    }
}

/// Orders rows by purchase date, newest first.
pub fn sort_by_date(rows: Vec<Device>) -> (r: Vec<Device>)
    ensures
        models(r@) == sort_by_date_model(models(rows@)),
{
    let ghost s = models(rows@);
    let mut out: Vec<Device> = Vec::new();
    let mut i: usize = 0;
    let mut rest = rows;
    proof {
        assert(models(rest@).take(0) =~= Seq::<DeviceModel>::empty());
        assert(sort_by_date_model(Seq::<DeviceModel>::empty()) =~= models(out@));
    }
    while i < rest.len()
        invariant
            i <= rest.len(),
            s == models(rest@),
            models(out@) == sort_by_date_model(s.take(i as int)),
        decreases rest.len() - i,
    {
        let d = rest[i].clone();
        proof {
            assert(s.take(i + 1).drop_last() =~= s.take(i as int));
            assert(s.take(i + 1).last() == s[i as int]);
            assert(d@ == s[i as int]);
        }
        insert_sorted(&mut out, d);
        i = i + 1;
    }
    proof {
        assert(s.take(i as int) =~= s);
    }
    out
}

/// Answers a list request. A fetched row set comes back as the JSON array
/// of its rows, ordered by purchase date descending; a failed fetch
/// degrades to the empty array rather than an error.
pub fn get_devices(fetched: Result<Vec<Device>, DbError>) -> (body: Vec<u8>)
    ensures
        body@ == (match fetched {
            Ok(rows) => devices_json_spec(sort_by_date_model(models(rows@))),
            Err(e) => devices_json_spec(Seq::<DeviceModel>::empty()),
        }),
{
    match fetched {
        Ok(rows) => {
            let ordered = sort_by_date(rows);
            devices_json(&ordered)
        },
        Err(e) => {
            let empty: Vec<Device> = Vec::new();
            proof {
                assert(models(empty@) =~= Seq::<DeviceModel>::empty());
            }
            devices_json(&empty)
        },
    }
}

/// Stores a new device under the given id. Succeeds exactly when no stored
/// row carries that id; then the row is filed in date order and the
/// response body is its JSON object with the server-assigned id.
pub fn add_device_with_id(store: &mut DeviceStore, id: Vec<u8>, payload: NewDevice) -> (r: Result<
    (Device, Vec<u8>),
    CreateError,
>)
    requires
        old(store).wf(),
    ensures
        final(store).wf(),
        match r {
            Ok(p) => {
                &&& p.0@ == device_of(id@, payload@)
                &&& !has_id(old(store)@, id@)
                &&& final(store)@ == insert_sorted_model(old(store)@, p.0@)
                &&& p.1@ == device_json_spec(p.0@)
            },
            Err(e) => {
                &&& e matches CreateError::IdTaken(t) && t@ == id@
                &&& has_id(old(store)@, id@)
                &&& final(store)@ == old(store)@
            },
        },
{
    if store.contains_id(&id) {
        return Err(CreateError::IdTaken(id));
    }
    let device = Device {
        id: id,
        name: payload.name,
        price: payload.price,
        purchase_date: payload.purchase_date,
        icon_type: payload.icon_type,
    };
    let body = device_json(&device);
    let stored = device.clone();
    store.insert(stored);
    Ok((device, body))
}

/// Answers a create request: draws a fresh random id, stores the device
/// and returns it with its response body. Refused only when the drawn id
/// collides with a stored one, as the table's primary key would refuse it;
/// the store is then unchanged.
pub fn add_device(store: &mut DeviceStore, payload: NewDevice) -> (r: Result<
    (Device, Vec<u8>),
    CreateError,
>)
    requires
        old(store).wf(),
    ensures
        final(store).wf(),
        match r {
            Ok(p) => {
                &&& uuid_text_format(p.0@.id)
                &&& p.0@ == device_of(p.0@.id, payload@)
                &&& !has_id(old(store)@, p.0@.id)
                &&& final(store)@ == insert_sorted_model(old(store)@, p.0@)
                &&& p.1@ == device_json_spec(p.0@)
            },
            Err(e) => {
                &&& e matches CreateError::IdTaken(t) && uuid_text_format(t@) && has_id(
                    old(store)@,
                    t@,
                )
                &&& final(store)@ == old(store)@
            },
        },
{
    let id = uuid_v4_bytes();
    add_device_with_id(store, id, payload)
}

/// Builds what a create request stores and answers, without a store: the
/// device under a fresh random id, and its JSON response body. The caller
/// persists the returned device.
pub fn new_device_response(payload: NewDevice) -> (r: (Device, Vec<u8>))
    ensures
        uuid_text_format(r.0@.id),
        r.0@ == device_of(r.0@.id, payload@),
        r.1@ == device_json_spec(r.0@),
{
    let id = uuid_v4_bytes();
    let device = Device {
        id: id,
        name: payload.name,
        price: payload.price,
        purchase_date: payload.purchase_date,
        icon_type: payload.icon_type,
    };
    let body = device_json(&device);
    (device, body)
}

/// Answers a delete request: removes the row with the given id, if any,
/// and acknowledges with the fixed `{"status":"ok"}` body either way.
pub fn delete_device(store: &mut DeviceStore, id: &Vec<u8>) -> (body: Vec<u8>)
    ensures
        final(store)@ == remove_id_model(old(store)@, id@),
        old(store).wf() ==> final(store).wf(),
        body@ == delete_ok_spec(),
{
    store.delete_by_id(id);
    delete_ok_body()
}

} // verus!
