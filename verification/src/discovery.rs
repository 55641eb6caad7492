//! Device discovery: which of the serial ports of the machine the device
//! is on.

use vstd::prelude::*;
use vstd::string::*;

verus! {

/// What kind of port a serial port is.
#[derive(Debug, PartialEq, Eq)]
pub enum PortKind {
    /// A port on the USB bus, with the manufacturer that its bridge chip
    /// reports, if it reports one.
    Usb { manufacturer: Option<String> },
    /// Any other port.
    Other,
}

/// One serial port of the machine.
#[derive(Debug, PartialEq, Eq)]
pub struct PortEntry {
    /// The name under which the port is opened.
    pub name: String,
    /// The kind of the port.
    pub kind: PortKind,
}

/// The manufacturer of the USB bridge chip of the device.
pub open spec fn device_vendor() -> Seq<char> {
    "Silicon Labs"@
}

/// Whether the device is on this port: a USB port whose bridge chip reports
/// exactly the vendor of the device.
pub open spec fn is_device_port(port: PortEntry) -> bool {
    port.kind matches PortKind::Usb { manufacturer: Some(m) } && m@ == device_vendor()
}

/// Whether the device is on `port`.
pub fn is_device(port: &PortEntry) -> (yes: bool)
    ensures
        yes == is_device_port(*port),
{
    match &port.kind {
        PortKind::Usb { manufacturer: Some(m) } => {
            let vendor = String::from_str("Silicon Labs");
            *m == vendor
        },
        _ => false,
    }
}

/// The position of the first port that the device is on, if it is on any.
pub fn find_device(ports: &Vec<PortEntry>) -> (found: Option<usize>)
    ensures
        match found {
            Some(at) => {
                &&& at < ports.len()
                &&& is_device_port(ports[at as int])
                &&& forall|i: int| 0 <= i < at ==> !is_device_port(#[trigger] ports[i])
            },
            None => forall|i: int| 0 <= i < ports.len() ==> !is_device_port(#[trigger] ports[i]),
        },
{
    let mut at: usize = 0;
    while at < ports.len()
        invariant
            at <= ports.len(),
            forall|i: int| 0 <= i < at ==> !is_device_port(#[trigger] ports[i]),
        decreases ports.len() - at,
    {
        if is_device(&ports[at]) {
            return Some(at);
        }
        at += 1;
    }
    None
}

} // verus!
