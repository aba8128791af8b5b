//! Routing and the cross-origin policy.
//!
//! The service has exactly three routes, dispatched by method and path:
//! GET and POST on `/api/devices`, and DELETE on `/api/devices/{id}` where
//! the id is one non-empty path segment. The cross-origin policy is the
//! open development one: every origin is allowed, every header is allowed,
//! and the allowed methods are GET, POST and DELETE.

use vstd::prelude::*;

verus! {

/// The request methods the router tells apart.
#[derive(Clone, Copy, PartialEq, Eq, Structural, Debug)]
pub enum HttpMethod {
    Get,
    Post,
    Delete,
    Other,
}

/// Where a request is dispatched.
#[derive(Debug)]
pub enum Route {
    /// GET `/api/devices`
    ListDevices,
    /// POST `/api/devices`
    CreateDevice,
    /// DELETE `/api/devices/{id}`, carrying the id segment.
    DeleteDevice(Vec<u8>),
    /// Anything else.
    NotFound,
}

/// The mathematical value of a [`Route`].
pub enum RouteModel {
    ListDevices,
    CreateDevice,
    DeleteDevice(Seq<u8>),
    NotFound,
}

impl View for Route {
    type V = RouteModel;

    open spec fn view(&self) -> RouteModel {
        match self {
            Route::ListDevices => RouteModel::ListDevices,
            Route::CreateDevice => RouteModel::CreateDevice,
            Route::DeleteDevice(id) => RouteModel::DeleteDevice(id@),
            Route::NotFound => RouteModel::NotFound,
        }
    }
}

/// The bytes of `/api/devices`.
pub open spec fn api_devices_path_spec() -> Seq<u8> {
    seq![47u8, 97u8, 112u8, 105u8, 47u8, 100u8, 101u8, 118u8, 105u8, 99u8, 101u8, 115u8]
}

/// A path names one device when it is `/api/devices/` followed by one
/// non-empty segment: more bytes after the slash, none of them a slash.
pub open spec fn is_device_path(p: Seq<u8>) -> bool {
    &&& p.len() > 13
    &&& p.take(12) == api_devices_path_spec()
    &&& p[12] == 47
    &&& forall|i: int| 13 <= i < p.len() ==> #[trigger] p[i] != 47
}

/// The id segment of a device path.
pub open spec fn device_path_id(p: Seq<u8>) -> Seq<u8> {
    p.skip(13)
}

/// The routing table: method-exact dispatch over the three routes.
pub open spec fn route_spec(m: HttpMethod, p: Seq<u8>) -> RouteModel {
    if p == api_devices_path_spec() && m is Get {
        RouteModel::ListDevices
    } else if p == api_devices_path_spec() && m is Post {
        RouteModel::CreateDevice
    } else if is_device_path(p) && m is Delete {
        RouteModel::DeleteDevice(device_path_id(p))
    } else {
        RouteModel::NotFound
    }
}

/// Compares the first `n` bytes of `p` with the route prefix
/// `/api/devices`.
fn path_prefix_matches(p: &Vec<u8>) -> (r: bool)
    ensures
        r == (p@.len() >= 12 && p@.take(12) == api_devices_path_spec()),
{
    if p.len() < 12 {
        return false;
    }
    let prefix: [u8; 12] = [47, 97, 112, 105, 47, 100, 101, 118, 105, 99, 101, 115];
    proof {
        assert(prefix@ =~= api_devices_path_spec());
    }
    let mut i: usize = 0;
    while i < 12
        invariant
            i <= 12,
            p@.len() >= 12,
            prefix@ == api_devices_path_spec(),
            forall|j: int| 0 <= j < i ==> p@[j] == api_devices_path_spec()[j],
        decreases 12 - i,
    {
        if p[i] != prefix[i] {
            proof {
                assert(p@.take(12)[i as int] != api_devices_path_spec()[i as int]);
            }
            return false;
        }
        i = i + 1;
    }
    proof {
        assert(p@.take(12) =~= api_devices_path_spec());
    }
    true
}

/// Dispatches a request to its route, method-exact: GET lists, POST
/// creates, DELETE with an id segment deletes; everything else misses.
pub fn route(m: HttpMethod, p: &Vec<u8>) -> (r: Route)
    ensures
        r@ == route_spec(m, p@),
{
    if !path_prefix_matches(p) {
        proof {
            if p@ == api_devices_path_spec() {
                assert(p@.take(12) =~= p@);
            }
        }
        return Route::NotFound;
    }
    if p.len() == 12 {
        proof {
            assert(p@.take(12) =~= p@);
        }
        return match m {
            HttpMethod::Get => Route::ListDevices,
            HttpMethod::Post => Route::CreateDevice,
            _ => Route::NotFound,
        };
    }
    proof {
        assert(p@ != api_devices_path_spec());
    }
    if p[12] != 47 || p.len() == 13 {
        return Route::NotFound;
    }
    // scan the segment for a further slash and collect the id bytes
    let mut id: Vec<u8> = Vec::new();
    let mut i: usize = 13;
    while i < p.len()
        invariant
            13 <= i <= p@.len(),
            id@ == p@.skip(13).take(i - 13),
            forall|j: int| 13 <= j < i ==> #[trigger] p@[j] != 47,
        decreases p.len() - i,
    {
        let b = p[i];
        if b == 47 {
            proof {
                assert(p@[i as int] == 47);
                assert(!is_device_path(p@));
            }
            return Route::NotFound;
        }
        id.push(b);
        proof {
            assert(id@ =~= p@.skip(13).take(i + 1 - 13));
        }
        i = i + 1;
    }
    proof {
        assert(id@ =~= p@.skip(13));
    }
    match m {
        HttpMethod::Delete => Route::DeleteDevice(id),
        _ => Route::NotFound,
    }
}

/// No origin is rejected: the policy allows them all.
pub fn origin_allowed(origin: &Vec<u8>) -> (r: bool)
    ensures
        r,
{
    true
}

/// Whether a method is within the cross-origin policy: exactly GET, POST
/// and DELETE are.
pub fn cors_method_allowed(m: HttpMethod) -> (r: bool)
    ensures
        r == (m is Get || m is Post || m is Delete),
{
    match m {
        HttpMethod::Get => true,
        HttpMethod::Post => true,
        HttpMethod::Delete => true,
        HttpMethod::Other => false,
    }
}

} // verus!
