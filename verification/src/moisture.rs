use vstd::prelude::*;

pub mod constants;

use crate::protocols::i2c::{be16, rd1, rd2, wr0, wr1, I2CWrapper, I2cTransport, Txn};

verus! {

/// Failure of a moisture-sensor operation, with a description of what was
/// being attempted.
#[derive(Debug)]
pub enum MoistureError {
    ConversionError(String),
    IOError(String),
}

/// The on-board LED: driven by writing its command code.
#[derive(Clone, Copy, PartialEq, Eq, Structural, Debug)]
pub enum Led {
    Off,
    On,
}

/// The command code of each LED state.
pub open spec fn led_code(l: Led) -> u8 {
    match l {
        Led::Off => 0,
        Led::On => 1,
    }
}

impl Led {
    pub fn encode(&self) -> (r: u8)
        ensures
            r == led_code(*self),
    {
        match self {
            Led::Off => 0,
            Led::On => 1,
        }
    }
}

/// The error bit of the status register.
#[derive(Clone, Copy, PartialEq, Eq, Structural, Debug)]
pub enum ErrorStatus {
    Off,
    On,
}

/// The code of each error-status state.
pub open spec fn error_status_code(s: ErrorStatus) -> u8 {
    match s {
        ErrorStatus::Off => 0,
        ErrorStatus::On => 1,
    }
}

/// The error status a status bit denotes; meaningful for a single bit.
pub open spec fn spec_error_status_decode(bit: u8) -> ErrorStatus {
    if bit == 0 {
        ErrorStatus::Off
    } else {
        ErrorStatus::On
    }
}

impl From<ErrorStatus> for u8 {
    fn from(item: ErrorStatus) -> (r: u8) {
        match item {
            ErrorStatus::Off => 0,
            ErrorStatus::On => 1,
        }
    }
}

impl vstd::std_specs::convert::FromSpecImpl<ErrorStatus> for u8 {
    open spec fn obeys_from_spec() -> bool {
        true
    }

    open spec fn from_spec(item: ErrorStatus) -> u8 {
        error_status_code(item)
    }
}

/// The sensor's one 7-bit device address.
#[derive(Clone, Copy, PartialEq, Eq, Structural, Debug)]
pub enum Address {
    Default,
}

impl From<Address> for u8 {
    fn from(item: Address) -> (r: u8) {
        match item {
            Address::Default => constants::DEFAULT,
        }
    }
}

impl vstd::std_specs::convert::FromSpecImpl<Address> for u8 {
    open spec fn obeys_from_spec() -> bool {
        true
    }

    open spec fn from_spec(item: Address) -> u8 {
        match item {
            Address::Default => constants::DEFAULT,
        }
    }
}

/// One soil-moisture sensor on the bus: the register bus with the device
/// address chosen at construction.
pub struct Moisture<T> {
    dev: I2CWrapper<T>,
}

impl<T: I2cTransport> Moisture<T> {
    /// The device address every transaction is directed at.
    pub closed spec fn addr(&self) -> u8 {
        self.dev.addr()
    }

    /// The transactions completed on the underlying transport, oldest first.
    pub closed spec fn log(&self) -> Seq<Txn> {
        self.dev.log()
    }

    pub fn new(dev: T, address: u8) -> (r: Moisture<T>)
        ensures
            r.addr() == address,
            r.log() == dev.log(),
    {
        let wrapper = I2CWrapper::new(dev, address);
        Moisture { dev: wrapper }
    }

    pub fn build(dev: T, address: u8) -> (r: Moisture<T>)
        ensures
            r.addr() == address,
            r.log() == dev.log(),
    {
        let sensor = Moisture::new(dev, address);
        sensor
    }

    /// Read the current moisture level: two bytes from the value command,
    /// combined big-endian.
    pub fn get_moisture_level(&mut self) -> (r: Result<u16, MoistureError>)
        ensures
            final(self).addr() == old(self).addr(),
            match r {
                Ok(v) => exists|b0: u8, b1: u8|
                    final(self).log() == old(self).log() + seq![
                        #[trigger] rd2(old(self).addr(), constants::COMMAND_GET_VALUE, b0, b1),
                    ] && v == be16(b0, b1),
                Err(e) => e is IOError && final(self).log() == old(self).log(),
            },
    {
        let result = self.dev.read_from_register(constants::COMMAND_GET_VALUE, 2);
        match result {
            Ok(buffer) => {
                let v = (buffer[0] as u16) * 256 + (buffer[1] as u16);
                proof {
                    assert(buffer@ =~= seq![buffer@[0], buffer@[1]]);
                    assert(self.log() =~= old(self).log() + seq![
                        rd2(
                            old(self).addr(),
                            constants::COMMAND_GET_VALUE,
                            buffer@[0],
                            buffer@[1],
                        ),
                    ]);
                }
                Ok(v)
            },
            Err(_) => Err(
                MoistureError::IOError("Error reading moisture level.".to_owned()),
            ),
        }
    }

    /// Drive the LED: one transaction carrying only the LED command code.
    pub fn set_led(&mut self, led: Led) -> (r: Result<(), MoistureError>)
        ensures
            final(self).addr() == old(self).addr(),
            match r {
                Ok(_) => final(self).log() == old(self).log() + seq![
                    wr0(old(self).addr(), led_code(led)),
                ],
                Err(e) => e is IOError && final(self).log() == old(self).log(),
            },
    {
        let payload: Vec<u8> = Vec::new();
        let result = self.dev.write_to_register(led.encode(), &payload);
        match result {
            Ok(_) => {
                proof {
                    assert(seq![led_code(led)] + payload@ =~= seq![led_code(led)]);
                    assert(self.log() =~= old(self).log() + seq![
                        wr0(old(self).addr(), led_code(led)),
                    ]);
                }
                Ok(())
            },
            Err(_) => Err(MoistureError::IOError("Error setting the LED.".to_owned())),
        }
    }

    /// Read the error bit of the status register.
    pub fn get_error_status(&mut self) -> (r: Result<ErrorStatus, MoistureError>)
        ensures
            final(self).addr() == old(self).addr(),
            match r {
                Ok(s) => exists|b: u8|
                    final(self).log() == old(self).log() + seq![
                        #[trigger] rd1(old(self).addr(), constants::SENSOR_STATUS, b),
                    ] && s == spec_error_status_decode(b & 0x01),
                Err(e) => e is IOError && final(self).log() == old(self).log(),
            },
    {
        let result = self.dev.read_from_register(constants::SENSOR_STATUS, 1);
        match result {
            Ok(buffer) => {
                let bit = buffer[0] & 0x01;
                let status = if bit == 0 {
                    ErrorStatus::Off
                } else {
                    ErrorStatus::On
                };
                proof {
                    assert(buffer@ =~= seq![buffer@[0]]);
                    assert(self.log() =~= old(self).log() + seq![
                        rd1(old(self).addr(), constants::SENSOR_STATUS, buffer@[0]),
                    ]);
                }
                Ok(status)
            },
            Err(_) => Err(
                MoistureError::IOError("Error reading error status.".to_owned()),
            ),
        }
    }

    /// Reassign the sensor's bus address: the change-address command with
    /// the new address as payload.
    pub fn set_address(&mut self, address: u8) -> (r: Result<(), MoistureError>)
        ensures
            final(self).addr() == old(self).addr(),
            match r {
                Ok(_) => final(self).log() == old(self).log() + seq![
                    wr1(old(self).addr(), constants::COMMAND_CHANGE_ADDRESS, address),
                ],
                Err(e) => e is IOError && final(self).log() == old(self).log(),
            },
    {
        let mut payload: Vec<u8> = Vec::new();
        payload.push(address);
        let result = self.dev.write_to_register(constants::COMMAND_CHANGE_ADDRESS, &payload);
        match result {
            Ok(_) => {
                proof {
                    assert(seq![constants::COMMAND_CHANGE_ADDRESS] + payload@ =~= seq![
                        constants::COMMAND_CHANGE_ADDRESS,
                        address,
                    ]);
                    assert(self.log() =~= old(self).log() + seq![
                        wr1(old(self).addr(), constants::COMMAND_CHANGE_ADDRESS, address),
                    ]);
                }
                Ok(())
            },
            Err(_) => Err(MoistureError::IOError("Error setting address".to_owned())),
        }
    }
}

} // verus!
