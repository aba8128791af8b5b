//! JSON response framing.
//!
//! The service answers with JSON bodies whose exact bytes are pinned down
//! here: a device object with the external lower-camel-case keys (`id`,
//! `name`, `price`, `purchaseDate`, `iconType`), the array of devices for a
//! listing, and the fixed `{"status":"ok"}` acknowledgment for a delete.
//! String fields are escaped as JSON strings; the price field is the
//! decimal text of the number and is emitted as it stands.

use vstd::prelude::*;

use crate::device::{Device, DeviceModel};
use crate::store::models;

verus! {

/// The byte for a hexadecimal digit, lower case.
pub open spec fn hex_digit_spec(n: u8) -> u8 {
    if n < 10 {
        (48 + n) as u8
    } else {
        (87 + n) as u8
    }
}

/// How one byte of a string field appears inside a JSON string literal:
/// quote and backslash get a backslash, control bytes get the `\u00XX`
/// form, everything else stands as it is.
pub open spec fn esc_byte_spec(b: u8) -> Seq<u8> {
    if b == 34 {
        seq![92u8, 34u8]
    } else if b == 92 {
        seq![92u8, 92u8]
    } else if b < 32 {
        seq![92u8, 117u8, 48u8, 48u8, hex_digit_spec(b / 16), hex_digit_spec(b % 16)]
    } else {
        seq![b]
    }
}

/// A whole string field, escaped byte for byte.
pub open spec fn escaped_spec(s: Seq<u8>) -> Seq<u8>
    decreases s.len(),
{
    if s.len() == 0 {
        Seq::<u8>::empty()
    } else {
        escaped_spec(s.drop_last()) + esc_byte_spec(s.last())
    }
}

/// A JSON string literal: the escaped bytes between double quotes.
pub open spec fn quoted_spec(s: Seq<u8>) -> Seq<u8> {
    seq![34u8] + escaped_spec(s) + seq![34u8]
}

/// `{"id":` — the object opening together with the first key.
pub open spec fn key_id_spec() -> Seq<u8> {
    seq![123u8, 34u8, 105u8, 100u8, 34u8, 58u8]
}

/// `,"name":`
pub open spec fn key_name_spec() -> Seq<u8> {
    seq![44u8, 34u8, 110u8, 97u8, 109u8, 101u8, 34u8, 58u8]
}

/// `,"price":`
pub open spec fn key_price_spec() -> Seq<u8> {
    seq![44u8, 34u8, 112u8, 114u8, 105u8, 99u8, 101u8, 34u8, 58u8]
}

/// `,"purchaseDate":` — the external camel-case key.
pub open spec fn key_purchase_date_spec() -> Seq<u8> {
    seq![
        44u8, 34u8, 112u8, 117u8, 114u8, 99u8, 104u8, 97u8, 115u8, 101u8, 68u8, 97u8, 116u8,
        101u8, 34u8, 58u8,
    ]
}

/// `,"iconType":` — the external camel-case key.
pub open spec fn key_icon_type_spec() -> Seq<u8> {
    seq![44u8, 34u8, 105u8, 99u8, 111u8, 110u8, 84u8, 121u8, 112u8, 101u8, 34u8, 58u8]
}

/// One device as a JSON object, keys in the fixed external order
/// `id, name, price, purchaseDate, iconType`.
pub open spec fn device_json_spec(m: DeviceModel) -> Seq<u8> {
    key_id_spec() + quoted_spec(m.id) + key_name_spec() + quoted_spec(m.name) + key_price_spec()
        + m.price + key_purchase_date_spec() + quoted_spec(m.purchase_date) + key_icon_type_spec()
        + quoted_spec(m.icon_type) + seq![125u8]
}

/// The comma-separated device objects of a listing.
pub open spec fn items_spec(s: Seq<DeviceModel>) -> Seq<u8>
    decreases s.len(),
{
    if s.len() == 0 {
        Seq::<u8>::empty()
    } else if s.len() == 1 {
        device_json_spec(s[0])
    } else {
        items_spec(s.drop_last()) + seq![44u8] + device_json_spec(s.last())
    }
}

/// A listing as a JSON array of device objects, in the order given.
pub open spec fn devices_json_spec(s: Seq<DeviceModel>) -> Seq<u8> {
    seq![91u8] + items_spec(s) + seq![93u8]
}

/// `{"status":"ok"}` — the fixed delete acknowledgment.
pub open spec fn delete_ok_spec() -> Seq<u8> {
    seq![
        123u8, 34u8, 115u8, 116u8, 97u8, 116u8, 117u8, 115u8, 34u8, 58u8, 34u8, 111u8, 107u8,
        34u8, 125u8,
    ]
}

/// Appends a string field as a JSON string literal.
fn push_quoted(out: &mut Vec<u8>, s: &Vec<u8>)
    ensures
        final(out)@ == old(out)@ + quoted_spec(s@),
{
    let ghost base = out@;
    out.push(34);
    let mut i: usize = 0;
    proof {
        assert(out@ =~= base + seq![34u8] + escaped_spec(s@.take(0)));
    }
    while i < s.len()
        invariant
            i <= s.len(),
            out@ == base + seq![34u8] + escaped_spec(s@.take(i as int)),
        decreases s.len() - i,
    {
        let b = s[i];
        proof {
            assert(s@.take(i + 1).drop_last() =~= s@.take(i as int));
            assert(s@.take(i + 1).last() == s@[i as int]);
        }
        if b == 34 {
            out.push(92);
            out.push(34);
        } else if b == 92 {
            out.push(92);
            out.push(92);
        } else if b < 32 {
            out.push(92);
            out.push(117);
            out.push(48);
            out.push(48);
            out.push(hex_digit(b / 16));
            out.push(hex_digit(b % 16));
        } else {
            out.push(b);
        }
        proof {
            assert(out@ =~= base + seq![34u8] + escaped_spec(s@.take(i + 1)));
        }
        i = i + 1;
    }
    out.push(34);
    proof {
        assert(s@.take(i as int) =~= s@);
        assert(out@ =~= base + quoted_spec(s@));
    }
}

/// The byte for a hexadecimal digit, lower case.
fn hex_digit(n: u8) -> (r: u8)
    requires
        n < 16,
    ensures
        r == hex_digit_spec(n),
{
    if n < 10 {
        48 + n
    } else {
        87 + n
    }
}

/// Appends every byte of a field as it stands (used for the price, whose
/// decimal text is already JSON).
fn push_raw(out: &mut Vec<u8>, s: &Vec<u8>)
    ensures
        final(out)@ == old(out)@ + s@,
{
    let ghost base = out@;
    let mut i: usize = 0;
    proof {
        assert(out@ =~= base + s@.take(0));
    }
    while i < s.len()
        invariant
            i <= s.len(),
            out@ == base + s@.take(i as int),
        decreases s.len() - i,
    {
        out.push(s[i]);
        proof {
            assert(out@ =~= base + s@.take(i + 1));
        }
        i = i + 1;
    }
    proof {
        assert(s@.take(i as int) =~= s@);
    }
}

/// Appends `{"id":`.
fn push_key_id(out: &mut Vec<u8>)
    ensures
        final(out)@ == old(out)@ + key_id_spec(),
{
    let ghost base = out@;
    out.push(123);
    out.push(34);
    out.push(105);
    out.push(100);
    out.push(34);
    out.push(58);
    proof {
        assert(out@ =~= base + key_id_spec());
    }
}

/// Appends `,"name":`.
fn push_key_name(out: &mut Vec<u8>)
    ensures
        final(out)@ == old(out)@ + key_name_spec(),
{
    let ghost base = out@;
    out.push(44);
    out.push(34);
    out.push(110);
    out.push(97);
    out.push(109);
    out.push(101);
    out.push(34);
    out.push(58);
    proof {
        assert(out@ =~= base + key_name_spec());
    }
}

/// Appends `,"price":`.
fn push_key_price(out: &mut Vec<u8>)
    ensures
        final(out)@ == old(out)@ + key_price_spec(),
{
    let ghost base = out@;
    out.push(44);
    out.push(34);
    out.push(112);
    out.push(114);
    out.push(105);
    out.push(99);
    out.push(101);
    out.push(34);
    out.push(58);
    proof {
        assert(out@ =~= base + key_price_spec());
    }
}

/// Appends `,"purchaseDate":`.
fn push_key_purchase_date(out: &mut Vec<u8>)
    ensures
        final(out)@ == old(out)@ + key_purchase_date_spec(),
{
    let ghost base = out@;
    out.push(44);
    out.push(34);
    out.push(112);
    out.push(117);
    out.push(114);
    out.push(99);
    out.push(104);
    out.push(97);
    out.push(115);
    out.push(101);
    out.push(68);
    out.push(97);
    out.push(116);
    out.push(101);
    out.push(34);
    out.push(58);
    proof {
        assert(out@ =~= base + key_purchase_date_spec());
    }
}

/// Appends `,"iconType":`.
fn push_key_icon_type(out: &mut Vec<u8>)
    ensures
        final(out)@ == old(out)@ + key_icon_type_spec(),
{
    let ghost base = out@;
    out.push(44);
    out.push(34);
    out.push(105);
    out.push(99);
    out.push(111);
    out.push(110);
    out.push(84);
    out.push(121);
    out.push(112);
    out.push(101);
    out.push(34);
    out.push(58);
    proof {
        assert(out@ =~= base + key_icon_type_spec());
    }
}

/// Appends one device as a JSON object with the external field names.
#[verifier::rlimit(50)]
fn push_device(out: &mut Vec<u8>, d: &Device)
    ensures
        final(out)@ == old(out)@ + device_json_spec(d@),
{
    let ghost base = out@;
    push_key_id(out);
    push_quoted(out, &d.id);
    push_key_name(out);
    push_quoted(out, &d.name);
    proof {
        assert(out@ =~= base + (key_id_spec() + quoted_spec(d@.id) + key_name_spec()
            + quoted_spec(d@.name)));
    }
    push_key_price(out);
    push_raw(out, &d.price);
    push_key_purchase_date(out);
    proof {
        assert(out@ =~= base + (key_id_spec() + quoted_spec(d@.id) + key_name_spec()
            + quoted_spec(d@.name) + key_price_spec() + d@.price + key_purchase_date_spec()));
    }
    push_quoted(out, &d.purchase_date);
    push_key_icon_type(out);
    push_quoted(out, &d.icon_type);
    out.push(125);
    proof {
        assert(out@ =~= base + device_json_spec(d@));
    }
}

/// One device as a JSON object with the external field names.
pub fn device_json(d: &Device) -> (body: Vec<u8>)
    ensures
        body@ == device_json_spec(d@),
{
    let mut out: Vec<u8> = Vec::new();
    push_device(&mut out, d);
    proof {
        assert(out@ =~= device_json_spec(d@));
    }
    out
}

/// A listing as a JSON array of device objects, in the order given.
pub fn devices_json(rows: &Vec<Device>) -> (body: Vec<u8>)
    ensures
        body@ == devices_json_spec(models(rows@)),
{
    let ghost s = models(rows@);
    let mut out: Vec<u8> = Vec::new();
    out.push(91);
    let mut i: usize = 0;
    proof {
        assert(out@ =~= seq![91u8] + items_spec(s.take(0)));
    }
    while i < rows.len()
        invariant
            i <= rows.len(),
            s == models(rows@),
            out@ == seq![91u8] + items_spec(s.take(i as int)),
        decreases rows.len() - i,
    {
        proof {
            assert(s.take(i + 1).drop_last() =~= s.take(i as int));
            assert(s.take(i + 1).last() == s[i as int]);
        }
        if i > 0 {
            out.push(44);
        }
        push_device(&mut out, &rows[i]);
        proof {
            assert(out@ =~= seq![91u8] + items_spec(s.take(i + 1)));
        }
        i = i + 1;
    }
    out.push(93);
    proof {
        assert(s.take(i as int) =~= s);
        assert(out@ =~= devices_json_spec(s));
    }
    out
}

/// The fixed `{"status":"ok"}` acknowledgment body.
pub fn delete_ok_body() -> (body: Vec<u8>)
    ensures
        body@ == delete_ok_spec(),
{
    let mut out: Vec<u8> = Vec::new();
    out.push(123);
    out.push(34);
    out.push(115);
    out.push(116);
    out.push(97);
    out.push(116);
    out.push(117);
    out.push(115);
    out.push(34);
    out.push(58);
    out.push(34);
    out.push(111);
    out.push(107);
    out.push(34);
    out.push(125);
    proof {
        assert(out@ =~= delete_ok_spec());
    }
    out
}

} // verus!
