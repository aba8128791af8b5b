//! The device record.
//!
//! A device is five text fields. The service treats every field as opaque
//! bytes: the name, the price (the decimal text of the number as it appears
//! in JSON) and the two label fields are stored and returned as received,
//! and the id is assigned by the server at creation. Field values are kept
//! as UTF-8 byte strings so that contracts can speak of their exact bytes.

use vstd::prelude::*;

verus! {

/// The mathematical value of a [`Device`]: its five fields as byte strings.
pub struct DeviceModel {
    pub id: Seq<u8>,
    pub name: Seq<u8>,
    pub price: Seq<u8>,
    pub purchase_date: Seq<u8>,
    pub icon_type: Seq<u8>,
}

/// One stored asset record.
pub struct Device {
    /// Server-assigned unique identifier, in text form.
    pub id: Vec<u8>,
    /// Free-text label.
    pub name: Vec<u8>,
    /// The decimal text of the monetary amount, kept exactly as received.
    pub price: Vec<u8>,
    /// An opaque date string; no date format is enforced.
    pub purchase_date: Vec<u8>,
    /// An opaque client-side icon category.
    pub icon_type: Vec<u8>,
}

impl View for Device {
    type V = DeviceModel;

    open spec fn view(&self) -> DeviceModel {
        DeviceModel {
            id: self.id@,
            name: self.name@,
            price: self.price@,
            purchase_date: self.purchase_date@,
            icon_type: self.icon_type@,
        }
    }
}

/// The mathematical value of a [`NewDevice`] payload.
pub struct NewDeviceModel {
    pub name: Seq<u8>,
    pub price: Seq<u8>,
    pub purchase_date: Seq<u8>,
    pub icon_type: Seq<u8>,
}

/// What a client sends to create a device: the four fields it may choose.
/// The id is never the client's to pick.
pub struct NewDevice {
    pub name: Vec<u8>,
    pub price: Vec<u8>,
    pub purchase_date: Vec<u8>,
    pub icon_type: Vec<u8>,
}

impl View for NewDevice {
    type V = NewDeviceModel;

    open spec fn view(&self) -> NewDeviceModel {
        NewDeviceModel {
            name: self.name@,
            price: self.price@,
            purchase_date: self.purchase_date@,
            icon_type: self.icon_type@,
        }
    }
}

/// The device a payload becomes once the server assigns it an id.
pub open spec fn device_of(id: Seq<u8>, p: NewDeviceModel) -> DeviceModel {
    DeviceModel {
        id: id,
        name: p.name,
        price: p.price,
        purchase_date: p.purchase_date,
        icon_type: p.icon_type,
    }
}

/// Copies a byte string.
pub fn clone_bytes(v: &Vec<u8>) -> (r: Vec<u8>)
    ensures
        r@ == v@,
{
    let r = v.clone();
    proof {
        assert(r@ =~= v@);
    }
    r
}

impl Clone for Device {
    fn clone(&self) -> (r: Self)
        ensures
            r@ == self@,
    {
        Device {
            id: clone_bytes(&self.id),
            name: clone_bytes(&self.name),
            price: clone_bytes(&self.price),
            purchase_date: clone_bytes(&self.purchase_date),
            icon_type: clone_bytes(&self.icon_type),
        }
    }
}

} // verus!
