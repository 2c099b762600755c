//! The choices made while opening the device, over plain descriptor values
//! that the application reads from the USB stack.
use vstd::prelude::*;

use crate::codec::FpError;
use crate::session::{FADERPUNK_PID, FADERPUNK_VID, USB_CLASS_VENDOR};

verus! {

/// One interface of the active configuration.
#[derive(Clone, Debug, PartialEq, Eq)]
pub struct InterfaceDesc {
    pub number: u8,
    /// Class code of each alternate setting.
    pub alt_classes: Vec<u8>,
}

/// One endpoint of the interface's first alternate setting.
#[derive(Clone, Copy, Debug, PartialEq, Eq)]
pub struct EndpointDesc {
    pub address: u8,
    /// Device to host.
    pub is_in: bool,
}

/// Endpoint addresses found once at open and kept for the connection.
#[derive(Clone, Copy, Debug, PartialEq, Eq)]
pub struct Endpoints {
    pub bulk_out: u8,
    pub bulk_in: u8,
}

/// Index of the first device that carries the controller's vendor and
/// product id.
pub fn find_device(ids: &[(u16, u16)]) -> (r: Result<usize, FpError>)
    ensures
        match r {
            Ok(i) => i < ids@.len() && ids@[i as int] == (FADERPUNK_VID, FADERPUNK_PID) && forall|k: int|
                0 <= k < i ==> #[trigger] ids@[k] != (FADERPUNK_VID, FADERPUNK_PID),
            Err(e) => e == FpError::DeviceNotFound && forall|k: int|
                0 <= k < ids@.len() ==> #[trigger] ids@[k] != (FADERPUNK_VID, FADERPUNK_PID),
        },
{
    let mut i: usize = 0;
    while i < ids.len()
        invariant
            i <= ids@.len(),
            forall|k: int| 0 <= k < i ==> #[trigger] ids@[k] != (FADERPUNK_VID, FADERPUNK_PID),
        decreases ids@.len() - i,
    {
        let (vid, pid) = ids[i];
        if vid == FADERPUNK_VID && pid == FADERPUNK_PID {
            return Ok(i);
        }
        i = i + 1;
    }
    Err(FpError::DeviceNotFound)
}

/// Some alternate setting of the interface is vendor specific.
pub open spec fn is_vendor(d: InterfaceDesc) -> bool {
    exists|j: int| 0 <= j < d.alt_classes@.len() && d.alt_classes@[j] == USB_CLASS_VENDOR
}

fn has_vendor_class(d: &InterfaceDesc) -> (r: bool)
    ensures
        r == is_vendor(*d),
{
    let mut j: usize = 0;
    while j < d.alt_classes.len()
        invariant
            j <= d.alt_classes@.len(),
            forall|k: int| 0 <= k < j ==> d.alt_classes@[k] != USB_CLASS_VENDOR,
        decreases d.alt_classes@.len() - j,
    {
        if d.alt_classes[j] == USB_CLASS_VENDOR {
            return true;
        }
        j = j + 1;
    }
    false
}

/// Number of the first vendor-specific interface.
pub fn find_vendor_interface(ifaces: &[InterfaceDesc]) -> (r: Result<u8, FpError>)
    ensures
        match r {
            Ok(n) => exists|i: int|
                0 <= i < ifaces@.len() && is_vendor(ifaces@[i]) && ifaces@[i].number == n
                    && forall|k: int| 0 <= k < i ==> !is_vendor(#[trigger] ifaces@[k]),
            Err(e) => e == FpError::InterfaceNotFound && forall|k: int|
                0 <= k < ifaces@.len() ==> !is_vendor(#[trigger] ifaces@[k]),
        },
{
    let mut i: usize = 0;
    while i < ifaces.len()
        invariant
            i <= ifaces@.len(),
            forall|k: int| 0 <= k < i ==> !is_vendor(#[trigger] ifaces@[k]),
        decreases ifaces@.len() - i,
    {
        if has_vendor_class(&ifaces[i]) {
            return Ok(ifaces[i].number);
        }
        i = i + 1;
    }
    Err(FpError::InterfaceNotFound)
}

/// Index of the first endpoint in direction `is_in`.
pub open spec fn first_in_direction(eps: Seq<EndpointDesc>, is_in: bool, i: int) -> bool {
    0 <= i < eps.len() && eps[i].is_in == is_in && forall|k: int|
        0 <= k < i ==> (#[trigger] eps[k]).is_in != is_in
}

fn find_direction(eps: &[EndpointDesc], is_in: bool) -> (r: Option<usize>)
    ensures
        match r {
            Some(i) => first_in_direction(eps@, is_in, i as int),
            None => forall|k: int| 0 <= k < eps@.len() ==> (#[trigger] eps@[k]).is_in != is_in,
        },
{
    let mut i: usize = 0;
    while i < eps.len()
        invariant
            i <= eps@.len(),
            forall|k: int| 0 <= k < i ==> (#[trigger] eps@[k]).is_in != is_in,
        decreases eps@.len() - i,
    {
        if eps[i].is_in == is_in {
            return Some(i);
        }
        i = i + 1;
    }
    None
}

/// The first OUT and the first IN endpoint.
pub fn find_endpoints(eps: &[EndpointDesc]) -> (r: Result<Endpoints, FpError>)
    ensures
        match r {
            Ok(found) => (exists|i: int|
                first_in_direction(eps@, false, i) && eps@[i].address == found.bulk_out) && (exists|
                i: int,
            | first_in_direction(eps@, true, i) && eps@[i].address == found.bulk_in),
            Err(e) => e == FpError::EndpointNotFound && ((forall|k: int|
                0 <= k < eps@.len() ==> (#[trigger] eps@[k]).is_in) || (forall|k: int|
                0 <= k < eps@.len() ==> !(#[trigger] eps@[k]).is_in)),
        },
{
    let out = match find_direction(eps, false) {
        Some(i) => i,
        None => return Err(FpError::EndpointNotFound),
    };
    let inn = match find_direction(eps, true) {
        Some(i) => i,
        None => return Err(FpError::EndpointNotFound),
    };
    Ok(Endpoints { bulk_out: eps[out].address, bulk_in: eps[inn].address })
}

} // verus!
