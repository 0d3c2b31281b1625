use vstd::prelude::*;

verus! {

/// Which device a per-device request is routed to. Each variant carries the
/// exact host request that selects it.
#[derive(Clone, Debug)]
pub enum DeviceTransport {
    Any(String),
    EmulatorAny(String),
    UsbAny(String),
    Usb(String),
}

pub open spec fn transport_any_command() -> Seq<char> {
    "host:transport-any"@
}

pub open spec fn transport_usb_command() -> Seq<char> {
    "host:transport-usb"@
}

pub open spec fn transport_local_command() -> Seq<char> {
    "host:transport-local"@
}

pub open spec fn transport_serial_command(serial: Seq<char>) -> Seq<char> {
    "host:transport:"@ + serial
}

impl DeviceTransport {
    /// The host request that this transport stands for.
    pub open spec fn command(&self) -> Seq<char> {
        match self {
            DeviceTransport::Any(s) => s@,
            DeviceTransport::EmulatorAny(s) => s@,
            DeviceTransport::UsbAny(s) => s@,
            DeviceTransport::Usb(s) => s@,
        }
    }

    /// Any attached device.
    pub fn default() -> (r: DeviceTransport)
        ensures
            r is Any,
            r.command() == transport_any_command(),
    {
        DeviceTransport::Any(String::from_str("host:transport-any"))
    }

    /// The only device attached over USB.
    pub fn default_usb() -> (r: DeviceTransport)
        ensures
            r is UsbAny,
            r.command() == transport_usb_command(),
    {
        DeviceTransport::UsbAny(String::from_str("host:transport-usb"))
    }

    /// The only running emulator.
    pub fn default_emulator() -> (r: DeviceTransport)
        ensures
            r is EmulatorAny,
            r.command() == transport_local_command(),
    {
        DeviceTransport::EmulatorAny(String::from_str("host:transport-local"))
    }

    /// The device with the given serial number.
    pub fn usb(serial: String) -> (r: DeviceTransport)
        ensures
            r is Usb,
            r.command() == transport_serial_command(serial@),
    {
        DeviceTransport::Usb(String::from_str("host:transport:").concat(serial.as_str()))
    }

    pub fn get_device_transport(&self) -> (r: &str)
        ensures
            r@ == self.command(),
    {
        match self {
            DeviceTransport::Any(s) => s.as_str(),
            DeviceTransport::EmulatorAny(s) => s.as_str(),
            DeviceTransport::UsbAny(s) => s.as_str(),
            DeviceTransport::Usb(s) => s.as_str(),
        }
    }
}

} // verus!
