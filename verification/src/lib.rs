//! A verified core for a small device-inventory service.
//!
//! Devices (an id, a name, a price, a purchase date, an icon type) are kept
//! in a table ordered by purchase date, newest first; the service answers
//! list, create and delete requests with JSON bodies. Everything that
//! computes — ordering, the store's invariants, response framing, routing —
//! lives here with contracts; sockets and the on-disk database live outside.

pub mod device;
pub mod handlers;
pub mod http;
pub mod json;
pub mod laws;
pub mod order;
pub mod store;

pub use device::{clone_bytes, Device, DeviceModel, NewDevice, NewDeviceModel};
pub use handlers::{add_device, add_device_with_id, delete_device, get_devices,
    lemma_sort_by_date_model_sorted, new_device_response, sort_by_date, CreateError, DbError};
pub use http::{cors_method_allowed, origin_allowed, route, HttpMethod, Route, RouteModel};
pub use json::{delete_ok_body, device_json, devices_json};
pub use laws::{lemma_consecutive_creates_distinct, lemma_create_then_list,
    lemma_delete_absent_id, lemma_delete_idempotent, lemma_delete_removes_id,
    lemma_list_idempotent};
pub use order::lex_le;
pub use store::{bytes_eq, insert_sorted, DeviceStore};
