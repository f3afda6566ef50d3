use vstd::prelude::*;

verus! {

/// Power state of one light. On the wire it is the integer 0 (off) or 1 (on).
#[derive(Debug, Clone, Copy, PartialEq, Eq, Structural)]
pub enum Power {
    Off,
    On,
}

/// The opposite power state.
pub open spec fn flipped(p: Power) -> Power {
    match p {
        Power::Off => Power::On,
        Power::On => Power::Off,
    }
}

impl Power {
    /// Turns the state around: `On` becomes `Off` and `Off` becomes `On`.
    pub fn flip(self) -> (r: Power)
        ensures
            r == flipped(self),
    {
        match self {
            Power::Off => Power::On,
            Power::On => Power::Off,
        }
    }
}

/// One controllable light of a device.
#[derive(Debug, Clone, Copy, PartialEq, Eq, Structural)]
pub struct LightSettings {
    pub on: Power,
    /// Brightness, 0 to 100 expected; not checked.
    pub brightness: u8,
    /// Colour temperature in the device's own units; not checked.
    pub temperature: u16,
}

/// The full control state of one device, as its HTTP API reads and writes it.
#[derive(Debug, Clone, PartialEq, Eq)]
pub struct DeviceState {
    /// The light count the device reports; not checked against `lights`.
    pub number_of_lights: u8,
    pub lights: Vec<LightSettings>,
}

/// Mathematical value of a `DeviceState`.
pub struct DeviceStateView {
    pub number_of_lights: u8,
    pub lights: Seq<LightSettings>,
}

impl View for DeviceState {
    type V = DeviceStateView;

    open spec fn view(&self) -> DeviceStateView {
        DeviceStateView { number_of_lights: self.number_of_lights, lights: self.lights@ }
    }
}

impl DeviceState {
    /// Builds a state from its parts.
    pub fn new(number_of_lights: u8, lights: Vec<LightSettings>) -> (r: DeviceState)
        ensures
            r.number_of_lights == number_of_lights,
            r.lights@ == lights@,
    {
        DeviceState { number_of_lights, lights }
    }

    /// A copy that keeps every field.
    pub fn duplicate(&self) -> (r: DeviceState)
        ensures
            r@ == self@,
    {
        DeviceState { number_of_lights: self.number_of_lights, lights: self.lights.clone() }
    }
}

/// An IPv4 address of a device, octet by octet (`a.b.c.d`).
#[derive(Debug, Clone, Copy, PartialEq, Eq, Structural)]
pub struct DeviceAddress {
    pub a: u8,
    pub b: u8,
    pub c: u8,
    pub d: u8,
}

impl DeviceAddress {
    /// The address `a.b.c.d`.
    pub fn new(a: u8, b: u8, c: u8, d: u8) -> (r: DeviceAddress)
        ensures
            r == (DeviceAddress { a, b, c, d }),
    {
        DeviceAddress { a, b, c, d }
    }
}

} // verus!
