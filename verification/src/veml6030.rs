use vstd::prelude::*;

pub mod constants;

use crate::protocols::i2c::{
    be16, rd2, u16_hi, u16_lo, wr2, I2CWrapper, I2cTransport, Txn,
};

verus! {

/// Failure of a light-sensor operation: a bus transaction failed, or a
/// register field held a code outside its defined set.
#[derive(Clone, Copy, PartialEq, Eq, Structural, Debug)]
pub enum VEML6030Error {
    ConversionError,
    IOError,
}

/// The `length` low bits of a 32-bit word, all set.
pub open spec fn low_mask32(length: u16) -> u32 {
    ((1u32 << length) - 1) as u32
}

/// The mask that selects a bitfield of `length` bits starting `trailing_zeros`
/// bits from the bottom of a 16-bit register.
pub open spec fn mask_spec(trailing_zeros: u16, length: u16) -> u16 {
    ((low_mask32(length) << trailing_zeros) & 0xFFFF) as u16
}

/// The value held by the bitfield of `length` bits starting `trailing_zeros`
/// bits from the bottom of `state`.
pub open spec fn field_get_spec(state: u16, trailing_zeros: u16, length: u16) -> u16 {
    (((state >> trailing_zeros) as u32) & low_mask32(length)) as u16
}

/// `state` with the bitfield of `length` bits starting `trailing_zeros` bits
/// from the bottom replaced by the low bits of `value`.
pub open spec fn field_set_spec(state: u16, trailing_zeros: u16, length: u16, value: u16) -> u16 {
    (state & !mask_spec(trailing_zeros, length)) | ((value << trailing_zeros) & mask_spec(
        trailing_zeros,
        length,
    ))
}

/// Build the mask that selects a bitfield: `length` one bits, shifted up by
/// `trailing_zeros`.
pub fn create_mask(trailing_zeros: u16, length: u16) -> (r: u16)
    requires
        trailing_zeros + length <= 16,
        trailing_zeros < 16,
    ensures
        r == mask_spec(trailing_zeros, length),
{
    let mut mask = 0u16;
    let mut i: u16 = 0;
    proof {
        assert(low_mask32(0) == 0) by (bit_vector);
    }
    while i < length
        invariant
            i <= length,
            length <= 16,
            mask as u32 == low_mask32(i),
        decreases length - i,
    {
        proof {
            let m = mask;
            let ii = i;
            assert(((m << 1) + 1) as u32 == low_mask32((ii + 1) as u16) && ((m << 1) as u32) + 1
                < 0x10000) by (bit_vector)
                requires
                    m as u32 == low_mask32(ii),
                    ii < 16u16,
            ;
        }
        mask = (mask << 1) + 1;
        i = i + 1;
    }
    let r = mask << trailing_zeros;
    proof {
        let m = mask;
        let tz = trailing_zeros;
        let len = length;
        assert((m << tz) == mask_spec(tz, len)) by (bit_vector)
            requires
                m as u32 == low_mask32(len),
                tz + len <= 16u16,
                tz < 16u16,
        ;
    }
    r
}

/// Extract a bitfield: mask `state` down to the field and shift it to the
/// bottom.
pub fn clip_u16(state: u16, trailing_zeros: u16, length: u16) -> (r: u16)
    requires
        trailing_zeros + length <= 16,
        trailing_zeros < 16,
    ensures
        r == field_get_spec(state, trailing_zeros, length),
        (r as u32) < (1u32 << length),
{
    let mask = create_mask(trailing_zeros, length);
    let r = (state & mask) >> trailing_zeros;
    proof {
        let s = state;
        let tz = trailing_zeros;
        let len = length;
        assert((s & mask_spec(tz, len)) >> tz == field_get_spec(s, tz, len) && (field_get_spec(
            s,
            tz,
            len,
        ) as u32) < (1u32 << len)) by (bit_vector)
            requires
                tz + len <= 16u16,
                tz < 16u16,
        ;
    }
    r
}

/// Replace a bitfield: clear the field in `state` and or in the low bits of
/// `value`, shifted into place. Bits outside the field keep their value, and
/// the field afterwards holds the low `length` bits of `value`.
pub fn insert_u16(state: u16, trailing_zeros: u16, length: u16, value: u16) -> (r: u16)
    requires
        trailing_zeros + length <= 16,
        trailing_zeros < 16,
    ensures
        r == field_set_spec(state, trailing_zeros, length, value),
        field_get_spec(r, trailing_zeros, length) as u32 == (value as u32) & low_mask32(length),
        r & !mask_spec(trailing_zeros, length) == state & !mask_spec(trailing_zeros, length),
{
    let mask = create_mask(trailing_zeros, length);
    let r = (state & !mask) | ((value << trailing_zeros) & mask);
    proof {
        let s = state;
        let tz = trailing_zeros;
        let len = length;
        let v = value;
        let m = mask_spec(tz, len);
        let rr = (s & !m) | ((v << tz) & m);
        assert(field_get_spec(rr, tz, len) as u32 == (v as u32) & low_mask32(len) && (rr & !m) == (
        s & !m)) by (bit_vector)
            requires
                m == mask_spec(tz, len),
                rr == (s & !m) | ((v << tz) & m),
                tz + len <= 16u16,
                tz < 16u16,
        ;
    }
    r
}

/// The ambient-light gain setting: a 2-bit field.
#[derive(Clone, Copy, PartialEq, Eq, Structural, Debug)]
pub enum Gain {
    X1,
    X2,
    X1_8,
    X1_4,
}

/// The code written to the gain field for each gain.
pub open spec fn gain_code(g: Gain) -> u16 {
    match g {
        Gain::X1 => 0,
        Gain::X2 => 1,
        Gain::X1_8 => 2,
        Gain::X1_4 => 3,
    }
}

/// The gain a 2-bit code denotes, if it is a defined code.
pub open spec fn spec_gain_decode(code: u16) -> Option<Gain> {
    if code == 0 {
        Some(Gain::X1)
    } else if code == 1 {
        Some(Gain::X2)
    } else if code == 2 {
        Some(Gain::X1_8)
    } else if code == 3 {
        Some(Gain::X1_4)
    } else {
        None
    }
}

impl Gain {
    pub fn encode(&self) -> (r: u16)
        ensures
            r == gain_code(*self),
            r <= 3,
    {
        match self {
            Gain::X1 => 0,
            Gain::X2 => 1,
            Gain::X1_8 => 2,
            Gain::X1_4 => 3,
        }
    }

    pub fn decode(code: u16) -> (r: Result<Gain, VEML6030Error>)
        ensures
            match r {
                Ok(v) => spec_gain_decode(code) == Some(v),
                Err(e) => spec_gain_decode(code) is None && e == VEML6030Error::ConversionError,
            },
    {
        match code {
            0 => Ok(Gain::X1),
            1 => Ok(Gain::X2),
            2 => Ok(Gain::X1_8),
            3 => Ok(Gain::X1_4),
            _ => Err(VEML6030Error::ConversionError),
        }
    }
}

/// The integration time of one light conversion: a 4-bit field with six
/// defined codes.
#[derive(Clone, Copy, PartialEq, Eq, Structural, Debug)]
pub enum IntegrationTime {
    Ms25,
    Ms50,
    Ms100,
    Ms200,
    Ms400,
    Ms800,
}

/// The code written to the integration-time field for each time.
pub open spec fn integration_time_code(t: IntegrationTime) -> u16 {
    match t {
        IntegrationTime::Ms25 => 0b1100,
        IntegrationTime::Ms50 => 0b1000,
        IntegrationTime::Ms100 => 0b0000,
        IntegrationTime::Ms200 => 0b0001,
        IntegrationTime::Ms400 => 0b0010,
        IntegrationTime::Ms800 => 0b0011,
    }
}

/// The integration time a 4-bit code denotes, if it is a defined code.
pub open spec fn spec_integration_time_decode(code: u16) -> Option<IntegrationTime> {
    if code == 0b1100 {
        Some(IntegrationTime::Ms25)
    } else if code == 0b1000 {
        Some(IntegrationTime::Ms50)
    } else if code == 0b0000 {
        Some(IntegrationTime::Ms100)
    } else if code == 0b0001 {
        Some(IntegrationTime::Ms200)
    } else if code == 0b0010 {
        Some(IntegrationTime::Ms400)
    } else if code == 0b0011 {
        Some(IntegrationTime::Ms800)
    } else {
        None
    }
}

impl IntegrationTime {
    pub fn encode(&self) -> (r: u16)
        ensures
            r == integration_time_code(*self),
            r <= 12,
    {
        match self {
            IntegrationTime::Ms25 => 0b1100,
            IntegrationTime::Ms50 => 0b1000,
            IntegrationTime::Ms100 => 0b0000,
            IntegrationTime::Ms200 => 0b0001,
            IntegrationTime::Ms400 => 0b0010,
            IntegrationTime::Ms800 => 0b0011,
        }
    }

    /// Decode an integration-time code; a code outside the six defined ones
    /// is rejected rather than aborted on.
    pub fn decode(code: u16) -> (r: Result<IntegrationTime, VEML6030Error>)
        ensures
            match r {
                Ok(v) => spec_integration_time_decode(code) == Some(v),
                Err(e) => spec_integration_time_decode(code) is None && e
                    == VEML6030Error::ConversionError,
            },
    {
        match code {
            0b1100 => Ok(IntegrationTime::Ms25),
            0b1000 => Ok(IntegrationTime::Ms50),
            0b0000 => Ok(IntegrationTime::Ms100),
            0b0001 => Ok(IntegrationTime::Ms200),
            0b0010 => Ok(IntegrationTime::Ms400),
            0b0011 => Ok(IntegrationTime::Ms800),
            _ => Err(VEML6030Error::ConversionError),
        }
    }
}

/// How many consecutive out-of-threshold readings raise the interrupt: a
/// 2-bit field.
#[derive(Clone, Copy, PartialEq, Eq, Structural, Debug)]
pub enum PersistenceProtectNumber {
    N1,
    N2,
    N4,
    N8,
}

/// The code written to the persistence field for each setting.
pub open spec fn persistence_code(p: PersistenceProtectNumber) -> u16 {
    match p {
        PersistenceProtectNumber::N1 => 0,
        PersistenceProtectNumber::N2 => 1,
        PersistenceProtectNumber::N4 => 2,
        PersistenceProtectNumber::N8 => 3,
    }
}

/// The persistence setting a 2-bit code denotes, if it is a defined code.
pub open spec fn spec_persistence_decode(code: u16) -> Option<PersistenceProtectNumber> {
    if code == 0 {
        Some(PersistenceProtectNumber::N1)
    } else if code == 1 {
        Some(PersistenceProtectNumber::N2)
    } else if code == 2 {
        Some(PersistenceProtectNumber::N4)
    } else if code == 3 {
        Some(PersistenceProtectNumber::N8)
    } else {
        None
    }
}

impl PersistenceProtectNumber {
    pub fn encode(&self) -> (r: u16)
        ensures
            r == persistence_code(*self),
            r <= 3,
    {
        match self {
            PersistenceProtectNumber::N1 => 0,
            PersistenceProtectNumber::N2 => 1,
            PersistenceProtectNumber::N4 => 2,
            PersistenceProtectNumber::N8 => 3,
        }
    }

    pub fn decode(code: u16) -> (r: Result<PersistenceProtectNumber, VEML6030Error>)
        ensures
            match r {
                Ok(v) => spec_persistence_decode(code) == Some(v),
                Err(e) => spec_persistence_decode(code) is None && e
                    == VEML6030Error::ConversionError,
            },
    {
        match code {
            0 => Ok(PersistenceProtectNumber::N1),
            1 => Ok(PersistenceProtectNumber::N2),
            2 => Ok(PersistenceProtectNumber::N4),
            3 => Ok(PersistenceProtectNumber::N8),
            _ => Err(VEML6030Error::ConversionError),
        }
    }
}

/// The power-saving mode: a 2-bit field trading refresh rate for current.
#[derive(Clone, Copy, PartialEq, Eq, Structural, Debug)]
pub enum PowerSavingMode {
    M1,
    M2,
    M3,
    M4,
}

/// The code written to the power-saving-mode field for each mode.
pub open spec fn power_saving_mode_code(m: PowerSavingMode) -> u16 {
    match m {
        PowerSavingMode::M1 => 0,
        PowerSavingMode::M2 => 1,
        PowerSavingMode::M3 => 2,
        PowerSavingMode::M4 => 3,
    }
}

/// The power-saving mode a 2-bit code denotes, if it is a defined code.
pub open spec fn spec_power_saving_mode_decode(code: u16) -> Option<PowerSavingMode> {
    if code == 0 {
        Some(PowerSavingMode::M1)
    } else if code == 1 {
        Some(PowerSavingMode::M2)
    } else if code == 2 {
        Some(PowerSavingMode::M3)
    } else if code == 3 {
        Some(PowerSavingMode::M4)
    } else {
        None
    }
}

impl PowerSavingMode {
    pub fn encode(&self) -> (r: u16)
        ensures
            r == power_saving_mode_code(*self),
            r <= 3,
    {
        match self {
            PowerSavingMode::M1 => 0,
            PowerSavingMode::M2 => 1,
            PowerSavingMode::M3 => 2,
            PowerSavingMode::M4 => 3,
        }
    }

    pub fn decode(code: u16) -> (r: Result<PowerSavingMode, VEML6030Error>)
        ensures
            match r {
                Ok(v) => spec_power_saving_mode_decode(code) == Some(v),
                Err(e) => spec_power_saving_mode_decode(code) is None && e
                    == VEML6030Error::ConversionError,
            },
    {
        match code {
            0 => Ok(PowerSavingMode::M1),
            1 => Ok(PowerSavingMode::M2),
            2 => Ok(PowerSavingMode::M3),
            3 => Ok(PowerSavingMode::M4),
            _ => Err(VEML6030Error::ConversionError),
        }
    }
}

/// Whether the power-saving mode is enabled: a 1-bit field.
#[derive(Clone, Copy, PartialEq, Eq, Structural, Debug)]
pub enum PowerSavingModeEnable {
    Disable,
    Enable,
}

/// The code written to the power-saving-enable bit.
pub open spec fn power_saving_enable_code(e: PowerSavingModeEnable) -> u16 {
    match e {
        PowerSavingModeEnable::Disable => 0,
        PowerSavingModeEnable::Enable => 1,
    }
}

/// The power-saving-enable setting a 1-bit code denotes, if defined.
pub open spec fn spec_power_saving_enable_decode(code: u16) -> Option<PowerSavingModeEnable> {
    if code == 0 {
        Some(PowerSavingModeEnable::Disable)
    } else if code == 1 {
        Some(PowerSavingModeEnable::Enable)
    } else {
        None
    }
}

impl PowerSavingModeEnable {
    pub fn encode(&self) -> (r: u16)
        ensures
            r == power_saving_enable_code(*self),
            r <= 1,
    {
        match self {
            PowerSavingModeEnable::Disable => 0,
            PowerSavingModeEnable::Enable => 1,
        }
    }

    pub fn decode(code: u16) -> (r: Result<PowerSavingModeEnable, VEML6030Error>)
        ensures
            match r {
                Ok(v) => spec_power_saving_enable_decode(code) == Some(v),
                Err(e) => spec_power_saving_enable_decode(code) is None && e
                    == VEML6030Error::ConversionError,
            },
    {
        match code {
            0 => Ok(PowerSavingModeEnable::Disable),
            1 => Ok(PowerSavingModeEnable::Enable),
            _ => Err(VEML6030Error::ConversionError),
        }
    }
}

/// Whether the threshold interrupt is enabled: a 1-bit field.
#[derive(Clone, Copy, PartialEq, Eq, Structural, Debug)]
pub enum InterruptEnable {
    Disable,
    Enable,
}

/// The code written to the interrupt-enable bit.
pub open spec fn interrupt_enable_code(e: InterruptEnable) -> u16 {
    match e {
        InterruptEnable::Disable => 0,
        InterruptEnable::Enable => 1,
    }
}

/// The interrupt-enable setting a 1-bit code denotes, if defined.
pub open spec fn spec_interrupt_enable_decode(code: u16) -> Option<InterruptEnable> {
    if code == 0 {
        Some(InterruptEnable::Disable)
    } else if code == 1 {
        Some(InterruptEnable::Enable)
    } else {
        None
    }
}

impl InterruptEnable {
    pub fn encode(&self) -> (r: u16)
        ensures
            r == interrupt_enable_code(*self),
            r <= 1,
    {
        match self {
            InterruptEnable::Disable => 0,
            InterruptEnable::Enable => 1,
        }
    }

    pub fn decode(code: u16) -> (r: Result<InterruptEnable, VEML6030Error>)
        ensures
            match r {
                Ok(v) => spec_interrupt_enable_decode(code) == Some(v),
                Err(e) => spec_interrupt_enable_decode(code) is None && e
                    == VEML6030Error::ConversionError,
            },
    {
        match code {
            0 => Ok(InterruptEnable::Disable),
            1 => Ok(InterruptEnable::Enable),
            _ => Err(VEML6030Error::ConversionError),
        }
    }
}

/// Whether the sensor is shut down: a 1-bit field.
#[derive(Clone, Copy, PartialEq, Eq, Structural, Debug)]
pub enum Shutdown {
    PowerOn,
    PowerOff,
}

/// The code written to the shutdown bit.
pub open spec fn shutdown_code(s: Shutdown) -> u16 {
    match s {
        Shutdown::PowerOn => 0,
        Shutdown::PowerOff => 1,
    }
}

/// The shutdown setting a 1-bit code denotes, if defined.
pub open spec fn spec_shutdown_decode(code: u16) -> Option<Shutdown> {
    if code == 0 {
        Some(Shutdown::PowerOn)
    } else if code == 1 {
        Some(Shutdown::PowerOff)
    } else {
        None
    }
}

impl Shutdown {
    pub fn encode(&self) -> (r: u16)
        ensures
            r == shutdown_code(*self),
            r <= 1,
    {
        match self {
            Shutdown::PowerOn => 0,
            Shutdown::PowerOff => 1,
        }
    }

    pub fn decode(code: u16) -> (r: Result<Shutdown, VEML6030Error>)
        ensures
            match r {
                Ok(v) => spec_shutdown_decode(code) == Some(v),
                Err(e) => spec_shutdown_decode(code) is None && e == VEML6030Error::ConversionError,
            },
    {
        match code {
            0 => Ok(Shutdown::PowerOn),
            1 => Ok(Shutdown::PowerOff),
            _ => Err(VEML6030Error::ConversionError),
        }
    }
}

/// Whether a threshold was crossed: a 1-bit field of the interrupt register.
#[derive(Clone, Copy, PartialEq, Eq, Structural, Debug)]
pub enum Threshold {
    NotExceeded,
    Exceeded,
}

/// The code of each threshold state.
pub open spec fn threshold_code(t: Threshold) -> u16 {
    match t {
        Threshold::NotExceeded => 0,
        Threshold::Exceeded => 1,
    }
}

/// The threshold state a 1-bit code denotes, if defined.
pub open spec fn spec_threshold_decode(code: u16) -> Option<Threshold> {
    if code == 0 {
        Some(Threshold::NotExceeded)
    } else if code == 1 {
        Some(Threshold::Exceeded)
    } else {
        None
    }
}

impl Threshold {
    pub fn encode(&self) -> (r: u16)
        ensures
            r == threshold_code(*self),
            r <= 1,
    {
        match self {
            Threshold::NotExceeded => 0,
            Threshold::Exceeded => 1,
        }
    }

    pub fn decode(code: u16) -> (r: Result<Threshold, VEML6030Error>)
        ensures
            match r {
                Ok(v) => spec_threshold_decode(code) == Some(v),
                Err(e) => spec_threshold_decode(code) is None && e
                    == VEML6030Error::ConversionError,
            },
    {
        match code {
            0 => Ok(Threshold::NotExceeded),
            1 => Ok(Threshold::Exceeded),
            _ => Err(VEML6030Error::ConversionError),
        }
    }
}

/// The two selectable 7-bit device addresses.
#[derive(Clone, Copy, PartialEq, Eq, Structural, Debug)]
pub enum Address {
    Default,
    Alternative,
}

impl From<Address> for u8 {
    fn from(item: Address) -> (r: u8) {
        match item {
            Address::Default => constants::DEFAULT,
            Address::Alternative => constants::ALTERNATIVE,
        }
    }
}

impl vstd::std_specs::convert::FromSpecImpl<Address> for u8 {
    open spec fn obeys_from_spec() -> bool {
        true
    }

    open spec fn from_spec(item: Address) -> u8 {
        match item {
            Address::Default => constants::DEFAULT,
            Address::Alternative => constants::ALTERNATIVE,
        }
    }
}


/// The read-modify-write transaction pair of a 16-bit register: read the
/// register big-endian (answered by `b0`, `b1`), write back the new state.
pub open spec fn rmw16_txns(a: u8, reg: u8, b0: u8, b1: u8, ns: u16) -> Seq<Txn> {
    seq![rd2(a, reg, b0, b1), wr2(a, reg, u16_hi(ns), u16_lo(ns))]
}

/// One ambient-light sensor on the bus: the register bus with the device
/// address chosen at construction. Every getter re-reads its register; no
/// state is cached.
pub struct VEML6030<T> {
    dev: I2CWrapper<T>,
}

impl<T: I2cTransport> VEML6030<T> {
    /// The device address every transaction is directed at.
    pub closed spec fn addr(&self) -> u8 {
        self.dev.addr()
    }

    /// The transactions completed on the underlying transport, oldest first.
    pub closed spec fn log(&self) -> Seq<Txn> {
        self.dev.log()
    }

    pub fn new(dev: T, address: u8) -> (r: VEML6030<T>)
        ensures
            r.addr() == address,
            r.log() == dev.log(),
    {
        let i2c_wrapper = I2CWrapper::new(dev, address);
        VEML6030 { dev: i2c_wrapper }
    }

    /// Create a device handle and bring the sensor up: power on, quarter
    /// gain, 50 ms integration time, in that exact order on the bus.
    pub fn build(dev: T, address: u8) -> (r: Result<VEML6030<T>, VEML6030Error>)
        ensures
            match r {
                Ok(s) => {
                    &&& s.addr() == address
                    &&& exists|b0: u8, b1: u8, c0: u8, c1: u8, d0: u8, d1: u8|
                        #![trigger rmw16_txns(address, constants::SETTING_REG, b0, b1, field_set_spec(be16(b0, b1), 1, 1, shutdown_code(Shutdown::PowerOn))), rmw16_txns(address, constants::SETTING_REG, c0, c1, field_set_spec(be16(c0, c1), 11, 2, gain_code(Gain::X1_4))), rmw16_txns(address, constants::SETTING_REG, d0, d1, field_set_spec(be16(d0, d1), 6, 4, integration_time_code(IntegrationTime::Ms50)))]
                        s.log() == dev.log() + rmw16_txns(
                            address,
                            constants::SETTING_REG,
                            b0,
                            b1,
                            field_set_spec(be16(b0, b1), 1, 1, shutdown_code(Shutdown::PowerOn)),
                        ) + rmw16_txns(
                            address,
                            constants::SETTING_REG,
                            c0,
                            c1,
                            field_set_spec(be16(c0, c1), 11, 2, gain_code(Gain::X1_4)),
                        ) + rmw16_txns(
                            address,
                            constants::SETTING_REG,
                            d0,
                            d1,
                            field_set_spec(
                                be16(d0, d1),
                                6,
                                4,
                                integration_time_code(IntegrationTime::Ms50),
                            ),
                        )
                },
                Err(e) => e == VEML6030Error::IOError,
            },
    {
        let mut sensor = Self::new(dev, address);
        let ghost log0 = sensor.log();
        sensor.set_shutdown(Shutdown::PowerOn)?;
        let ghost log1 = sensor.log();
        sensor.set_gain(Gain::X1_4)?;
        let ghost log2 = sensor.log();
        sensor.set_integration_time(IntegrationTime::Ms50)?;
        proof {
            let (b0, b1) = choose|b0: u8, b1: u8|
                log1 == log0 + #[trigger] rmw16_txns(
                    address,
                    constants::SETTING_REG,
                    b0,
                    b1,
                    field_set_spec(be16(b0, b1), 1, 1, shutdown_code(Shutdown::PowerOn)),
                );
            let (c0, c1) = choose|b0: u8, b1: u8|
                log2 == log1 + #[trigger] rmw16_txns(
                    address,
                    constants::SETTING_REG,
                    b0,
                    b1,
                    field_set_spec(be16(b0, b1), 11, 2, gain_code(Gain::X1_4)),
                );
            let (d0, d1) = choose|b0: u8, b1: u8|
                sensor.log() == log2 + #[trigger] rmw16_txns(
                    address,
                    constants::SETTING_REG,
                    b0,
                    b1,
                    field_set_spec(
                        be16(b0, b1),
                        6,
                        4,
                        integration_time_code(IntegrationTime::Ms50),
                    ),
                );
            assert(sensor.log() == log0 + rmw16_txns(
                address,
                constants::SETTING_REG,
                b0,
                b1,
                field_set_spec(be16(b0, b1), 1, 1, shutdown_code(Shutdown::PowerOn)),
            ) + rmw16_txns(
                address,
                constants::SETTING_REG,
                c0,
                c1,
                field_set_spec(be16(c0, c1), 11, 2, gain_code(Gain::X1_4)),
            ) + rmw16_txns(
                address,
                constants::SETTING_REG,
                d0,
                d1,
                field_set_spec(be16(d0, d1), 6, 4, integration_time_code(IntegrationTime::Ms50)),
            ));
        }
        Ok(sensor)
    }

    /// Read the gain field of the settings register.
    pub fn get_gain(&mut self) -> (r: Result<Gain, VEML6030Error>)
        ensures
            final(self).addr() == old(self).addr(),
            match r {
                Ok(v) => exists|b0: u8, b1: u8|
                    final(self).log() == old(self).log() + seq![
                        #[trigger] rd2(old(self).addr(), constants::SETTING_REG, b0, b1),
                    ] && spec_gain_decode(field_get_spec(be16(b0, b1), 11, 2)) == Some(v),
                Err(e) => e == VEML6030Error::IOError && final(self).log() == old(self).log(),
            },
    {
        let state = self.read_and_convert_to_u16(constants::SETTING_REG)?;
        let code = clip_u16(state, 11, 2);
        proof {
            assert((1u32 << 2u16) == 4) by (bit_vector);
        }
        match Gain::decode(code) {
            Ok(v) => {
                proof {
                    let (b0, b1) = choose|b0: u8, b1: u8|
                        self.log() == old(self).log() + seq![
                            #[trigger] rd2(old(self).addr(), constants::SETTING_REG, b0, b1),
                        ] && state == be16(b0, b1);
                    assert(spec_gain_decode(field_get_spec(be16(b0, b1), 11, 2)) == Some(v));
                }
                Ok(v)
            },
            Err(e) => Err(e),
        }
    }

    /// Read the integration-time field of the settings register; an
    /// undefined code is rejected rather than aborted on.
    pub fn get_integration_time(&mut self) -> (r: Result<IntegrationTime, VEML6030Error>)
        ensures
            final(self).addr() == old(self).addr(),
            match r {
                Ok(v) => exists|b0: u8, b1: u8|
                    final(self).log() == old(self).log() + seq![
                        #[trigger] rd2(old(self).addr(), constants::SETTING_REG, b0, b1),
                    ] && spec_integration_time_decode(field_get_spec(be16(b0, b1), 6, 4)) == Some(v),
                Err(e) => {
                    &&& e == VEML6030Error::IOError || e == VEML6030Error::ConversionError
                    &&& e == VEML6030Error::IOError ==> final(self).log() == old(self).log()
                    &&& e == VEML6030Error::ConversionError ==> exists|b0: u8, b1: u8|
                        final(self).log() == old(self).log() + seq![
                            #[trigger] rd2(old(self).addr(), constants::SETTING_REG, b0, b1),
                        ] && spec_integration_time_decode(field_get_spec(be16(b0, b1), 6, 4)) is None
                },
            },
    {
        let state = self.read_and_convert_to_u16(constants::SETTING_REG)?;
        let code = clip_u16(state, 6, 4);
        proof {
            assert((1u32 << 4u16) == 16) by (bit_vector);
        }
        match IntegrationTime::decode(code) {
            Ok(v) => {
                proof {
                    let (b0, b1) = choose|b0: u8, b1: u8|
                        self.log() == old(self).log() + seq![
                            #[trigger] rd2(old(self).addr(), constants::SETTING_REG, b0, b1),
                        ] && state == be16(b0, b1);
                    assert(spec_integration_time_decode(field_get_spec(be16(b0, b1), 6, 4)) == Some(v));
                }
                Ok(v)
            },
            Err(e) => {
                proof {
                    let (b0, b1) = choose|b0: u8, b1: u8|
                        self.log() == old(self).log() + seq![
                            #[trigger] rd2(old(self).addr(), constants::SETTING_REG, b0, b1),
                        ] && state == be16(b0, b1);
                }
                Err(e)
            },
        }
    }

    /// Read the persistence field of the settings register.
    pub fn get_persist_protect_number(&mut self) -> (r: Result<PersistenceProtectNumber, VEML6030Error>)
        ensures
            final(self).addr() == old(self).addr(),
            match r {
                Ok(v) => exists|b0: u8, b1: u8|
                    final(self).log() == old(self).log() + seq![
                        #[trigger] rd2(old(self).addr(), constants::SETTING_REG, b0, b1),
                    ] && spec_persistence_decode(field_get_spec(be16(b0, b1), 4, 2)) == Some(v),
                Err(e) => e == VEML6030Error::IOError && final(self).log() == old(self).log(),
            },
    {
        let state = self.read_and_convert_to_u16(constants::SETTING_REG)?;
        let code = clip_u16(state, 4, 2);
        proof {
            assert((1u32 << 2u16) == 4) by (bit_vector);
        }
        match PersistenceProtectNumber::decode(code) {
            Ok(v) => {
                proof {
                    let (b0, b1) = choose|b0: u8, b1: u8|
                        self.log() == old(self).log() + seq![
                            #[trigger] rd2(old(self).addr(), constants::SETTING_REG, b0, b1),
                        ] && state == be16(b0, b1);
                    assert(spec_persistence_decode(field_get_spec(be16(b0, b1), 4, 2)) == Some(v));
                }
                Ok(v)
            },
            Err(e) => Err(e),
        }
    }

    /// Read the interrupt-enable bit of the settings register.
    pub fn get_interrupt_enabled(&mut self) -> (r: Result<InterruptEnable, VEML6030Error>)
        ensures
            final(self).addr() == old(self).addr(),
            match r {
                Ok(v) => exists|b0: u8, b1: u8|
                    final(self).log() == old(self).log() + seq![
                        #[trigger] rd2(old(self).addr(), constants::SETTING_REG, b0, b1),
                    ] && spec_interrupt_enable_decode(field_get_spec(be16(b0, b1), 1, 1)) == Some(v),
                Err(e) => e == VEML6030Error::IOError && final(self).log() == old(self).log(),
            },
    {
        let state = self.read_and_convert_to_u16(constants::SETTING_REG)?;
        let code = clip_u16(state, 1, 1);
        proof {
            assert((1u32 << 1u16) == 2) by (bit_vector);
        }
        match InterruptEnable::decode(code) {
            Ok(v) => {
                proof {
                    let (b0, b1) = choose|b0: u8, b1: u8|
                        self.log() == old(self).log() + seq![
                            #[trigger] rd2(old(self).addr(), constants::SETTING_REG, b0, b1),
                        ] && state == be16(b0, b1);
                    assert(spec_interrupt_enable_decode(field_get_spec(be16(b0, b1), 1, 1)) == Some(v));
                }
                Ok(v)
            },
            Err(e) => Err(e),
        }
    }

    /// Read the shutdown bit of the settings register.
    pub fn get_shutdown(&mut self) -> (r: Result<Shutdown, VEML6030Error>)
        ensures
            final(self).addr() == old(self).addr(),
            match r {
                Ok(v) => exists|b0: u8, b1: u8|
                    final(self).log() == old(self).log() + seq![
                        #[trigger] rd2(old(self).addr(), constants::SETTING_REG, b0, b1),
                    ] && spec_shutdown_decode(field_get_spec(be16(b0, b1), 0, 1)) == Some(v),
                Err(e) => e == VEML6030Error::IOError && final(self).log() == old(self).log(),
            },
    {
        let state = self.read_and_convert_to_u16(constants::SETTING_REG)?;
        let code = clip_u16(state, 0, 1);
        proof {
            assert((1u32 << 1u16) == 2) by (bit_vector);
        }
        match Shutdown::decode(code) {
            Ok(v) => {
                proof {
                    let (b0, b1) = choose|b0: u8, b1: u8|
                        self.log() == old(self).log() + seq![
                            #[trigger] rd2(old(self).addr(), constants::SETTING_REG, b0, b1),
                        ] && state == be16(b0, b1);
                    assert(spec_shutdown_decode(field_get_spec(be16(b0, b1), 0, 1)) == Some(v));
                }
                Ok(v)
            },
            Err(e) => Err(e),
        }
    }

    /// Read the mode field of the power-saving register.
    pub fn get_power_saving_mode(&mut self) -> (r: Result<PowerSavingMode, VEML6030Error>)
        ensures
            final(self).addr() == old(self).addr(),
            match r {
                Ok(v) => exists|b0: u8, b1: u8|
                    final(self).log() == old(self).log() + seq![
                        #[trigger] rd2(old(self).addr(), constants::POWER_SAVE_REG, b0, b1),
                    ] && spec_power_saving_mode_decode(field_get_spec(be16(b0, b1), 1, 2)) == Some(v),
                Err(e) => e == VEML6030Error::IOError && final(self).log() == old(self).log(),
            },
    {
        let state = self.read_and_convert_to_u16(constants::POWER_SAVE_REG)?;
        let code = clip_u16(state, 1, 2);
        proof {
            assert((1u32 << 2u16) == 4) by (bit_vector);
        }
        match PowerSavingMode::decode(code) {
            Ok(v) => {
                proof {
                    let (b0, b1) = choose|b0: u8, b1: u8|
                        self.log() == old(self).log() + seq![
                            #[trigger] rd2(old(self).addr(), constants::POWER_SAVE_REG, b0, b1),
                        ] && state == be16(b0, b1);
                    assert(spec_power_saving_mode_decode(field_get_spec(be16(b0, b1), 1, 2)) == Some(v));
                }
                Ok(v)
            },
            Err(e) => Err(e),
        }
    }

    /// Read the enable bit of the power-saving register.
    pub fn get_power_saving_mode_enabled(&mut self) -> (r: Result<PowerSavingModeEnable, VEML6030Error>)
        ensures
            final(self).addr() == old(self).addr(),
            match r {
                Ok(v) => exists|b0: u8, b1: u8|
                    final(self).log() == old(self).log() + seq![
                        #[trigger] rd2(old(self).addr(), constants::POWER_SAVE_REG, b0, b1),
                    ] && spec_power_saving_enable_decode(field_get_spec(be16(b0, b1), 0, 1)) == Some(v),
                Err(e) => e == VEML6030Error::IOError && final(self).log() == old(self).log(),
            },
    {
        let state = self.read_and_convert_to_u16(constants::POWER_SAVE_REG)?;
        let code = clip_u16(state, 0, 1);
        proof {
            assert((1u32 << 1u16) == 2) by (bit_vector);
        }
        match PowerSavingModeEnable::decode(code) {
            Ok(v) => {
                proof {
                    let (b0, b1) = choose|b0: u8, b1: u8|
                        self.log() == old(self).log() + seq![
                            #[trigger] rd2(old(self).addr(), constants::POWER_SAVE_REG, b0, b1),
                        ] && state == be16(b0, b1);
                    assert(spec_power_saving_enable_decode(field_get_spec(be16(b0, b1), 0, 1)) == Some(v));
                }
                Ok(v)
            },
            Err(e) => Err(e),
        }
    }

    /// Read the low-threshold bit of the interrupt register.
    pub fn get_low_threshold_exceeded(&mut self) -> (r: Result<Threshold, VEML6030Error>)
        ensures
            final(self).addr() == old(self).addr(),
            match r {
                Ok(v) => exists|b0: u8, b1: u8|
                    final(self).log() == old(self).log() + seq![
                        #[trigger] rd2(old(self).addr(), constants::INTERRUPT_REG, b0, b1),
                    ] && spec_threshold_decode(field_get_spec(be16(b0, b1), 15, 1)) == Some(v),
                Err(e) => e == VEML6030Error::IOError && final(self).log() == old(self).log(),
            },
    {
        let state = self.read_and_convert_to_u16(constants::INTERRUPT_REG)?;
        let code = clip_u16(state, 15, 1);
        proof {
            assert((1u32 << 1u16) == 2) by (bit_vector);
        }
        match Threshold::decode(code) {
            Ok(v) => {
                proof {
                    let (b0, b1) = choose|b0: u8, b1: u8|
                        self.log() == old(self).log() + seq![
                            #[trigger] rd2(old(self).addr(), constants::INTERRUPT_REG, b0, b1),
                        ] && state == be16(b0, b1);
                    assert(spec_threshold_decode(field_get_spec(be16(b0, b1), 15, 1)) == Some(v));
                }
                Ok(v)
            },
            Err(e) => Err(e),
        }
    }

    /// Read the high-threshold bit of the interrupt register.
    pub fn get_high_threshold_exceeded(&mut self) -> (r: Result<Threshold, VEML6030Error>)
        ensures
            final(self).addr() == old(self).addr(),
            match r {
                Ok(v) => exists|b0: u8, b1: u8|
                    final(self).log() == old(self).log() + seq![
                        #[trigger] rd2(old(self).addr(), constants::INTERRUPT_REG, b0, b1),
                    ] && spec_threshold_decode(field_get_spec(be16(b0, b1), 14, 1)) == Some(v),
                Err(e) => e == VEML6030Error::IOError && final(self).log() == old(self).log(),
            },
    {
        let state = self.read_and_convert_to_u16(constants::INTERRUPT_REG)?;
        let code = clip_u16(state, 14, 1);
        proof {
            assert((1u32 << 1u16) == 2) by (bit_vector);
        }
        match Threshold::decode(code) {
            Ok(v) => {
                proof {
                    let (b0, b1) = choose|b0: u8, b1: u8|
                        self.log() == old(self).log() + seq![
                            #[trigger] rd2(old(self).addr(), constants::INTERRUPT_REG, b0, b1),
                        ] && state == be16(b0, b1);
                    assert(spec_threshold_decode(field_get_spec(be16(b0, b1), 14, 1)) == Some(v));
                }
                Ok(v)
            },
            Err(e) => Err(e),
        }
    }


    /// Read-modify-write the gain field of the settings register.
    pub fn set_gain(&mut self, gain: Gain) -> (r: Result<(), VEML6030Error>)
        ensures
            final(self).addr() == old(self).addr(),
            match r {
                Ok(_) => exists|b0: u8, b1: u8|
                    final(self).log() == old(self).log() + #[trigger] rmw16_txns(
                        old(self).addr(),
                        constants::SETTING_REG,
                        b0,
                        b1,
                        field_set_spec(be16(b0, b1), 11, 2, gain_code(gain)),
                    ),
                Err(e) => e == VEML6030Error::IOError && old(self).log().is_prefix_of(
                    final(self).log(),
                ),
            },
    {
        let old_state = self.read_and_convert_to_u16(constants::SETTING_REG)?;
        let ghost log1 = self.log();
        let new_state = insert_u16(old_state, 11, 2, gain.encode());
        self.convert_and_write_u16(constants::SETTING_REG, new_state)?;
        proof {
            let a = old(self).addr();
            let (b0, b1) = choose|b0: u8, b1: u8|
                log1 == old(self).log() + seq![#[trigger] rd2(a, constants::SETTING_REG, b0, b1)]
                    && old_state == be16(b0, b1);
            assert(self.log() =~= old(self).log() + rmw16_txns(
                a,
                constants::SETTING_REG,
                b0,
                b1,
                new_state,
            ));
        }
        Ok(())
    }

    /// Read-modify-write the integration-time field of the settings
    /// register.
    pub fn set_integration_time(&mut self, integration_time: IntegrationTime) -> (r: Result<(), VEML6030Error>)
        ensures
            final(self).addr() == old(self).addr(),
            match r {
                Ok(_) => exists|b0: u8, b1: u8|
                    final(self).log() == old(self).log() + #[trigger] rmw16_txns(
                        old(self).addr(),
                        constants::SETTING_REG,
                        b0,
                        b1,
                        field_set_spec(be16(b0, b1), 6, 4, integration_time_code(integration_time)),
                    ),
                Err(e) => e == VEML6030Error::IOError && old(self).log().is_prefix_of(
                    final(self).log(),
                ),
            },
    {
        let old_state = self.read_and_convert_to_u16(constants::SETTING_REG)?;
        let ghost log1 = self.log();
        let new_state = insert_u16(old_state, 6, 4, integration_time.encode());
        self.convert_and_write_u16(constants::SETTING_REG, new_state)?;
        proof {
            let a = old(self).addr();
            let (b0, b1) = choose|b0: u8, b1: u8|
                log1 == old(self).log() + seq![#[trigger] rd2(a, constants::SETTING_REG, b0, b1)]
                    && old_state == be16(b0, b1);
            assert(self.log() =~= old(self).log() + rmw16_txns(
                a,
                constants::SETTING_REG,
                b0,
                b1,
                new_state,
            ));
        }
        Ok(())
    }

    /// Read-modify-write the persistence field of the settings register.
    pub fn set_persist_protect_number(&mut self, persistence_protect_number: PersistenceProtectNumber) -> (r: Result<(), VEML6030Error>)
        ensures
            final(self).addr() == old(self).addr(),
            match r {
                Ok(_) => exists|b0: u8, b1: u8|
                    final(self).log() == old(self).log() + #[trigger] rmw16_txns(
                        old(self).addr(),
                        constants::SETTING_REG,
                        b0,
                        b1,
                        field_set_spec(be16(b0, b1), 4, 2, persistence_code(persistence_protect_number)),
                    ),
                Err(e) => e == VEML6030Error::IOError && old(self).log().is_prefix_of(
                    final(self).log(),
                ),
            },
    {
        let old_state = self.read_and_convert_to_u16(constants::SETTING_REG)?;
        let ghost log1 = self.log();
        let new_state = insert_u16(old_state, 4, 2, persistence_protect_number.encode());
        self.convert_and_write_u16(constants::SETTING_REG, new_state)?;
        proof {
            let a = old(self).addr();
            let (b0, b1) = choose|b0: u8, b1: u8|
                log1 == old(self).log() + seq![#[trigger] rd2(a, constants::SETTING_REG, b0, b1)]
                    && old_state == be16(b0, b1);
            assert(self.log() =~= old(self).log() + rmw16_txns(
                a,
                constants::SETTING_REG,
                b0,
                b1,
                new_state,
            ));
        }
        Ok(())
    }

    /// Read-modify-write the interrupt-enable bit of the settings register.
    pub fn set_interrupt_enabled(&mut self, interrupt_enable: InterruptEnable) -> (r: Result<(), VEML6030Error>)
        ensures
            final(self).addr() == old(self).addr(),
            match r {
                Ok(_) => exists|b0: u8, b1: u8|
                    final(self).log() == old(self).log() + #[trigger] rmw16_txns(
                        old(self).addr(),
                        constants::SETTING_REG,
                        b0,
                        b1,
                        field_set_spec(be16(b0, b1), 1, 1, interrupt_enable_code(interrupt_enable)),
                    ),
                Err(e) => e == VEML6030Error::IOError && old(self).log().is_prefix_of(
                    final(self).log(),
                ),
            },
    {
        let old_state = self.read_and_convert_to_u16(constants::SETTING_REG)?;
        let ghost log1 = self.log();
        let new_state = insert_u16(old_state, 1, 1, interrupt_enable.encode());
        self.convert_and_write_u16(constants::SETTING_REG, new_state)?;
        proof {
            let a = old(self).addr();
            let (b0, b1) = choose|b0: u8, b1: u8|
                log1 == old(self).log() + seq![#[trigger] rd2(a, constants::SETTING_REG, b0, b1)]
                    && old_state == be16(b0, b1);
            assert(self.log() =~= old(self).log() + rmw16_txns(
                a,
                constants::SETTING_REG,
                b0,
                b1,
                new_state,
            ));
        }
        Ok(())
    }

    /// Write the shutdown setting. The write lands one bit above the bit
    /// the getter reads, exactly as the device bring-up sequence drives it.
    pub fn set_shutdown(&mut self, shutdown: Shutdown) -> (r: Result<(), VEML6030Error>)
        ensures
            final(self).addr() == old(self).addr(),
            match r {
                Ok(_) => exists|b0: u8, b1: u8|
                    final(self).log() == old(self).log() + #[trigger] rmw16_txns(
                        old(self).addr(),
                        constants::SETTING_REG,
                        b0,
                        b1,
                        field_set_spec(be16(b0, b1), 1, 1, shutdown_code(shutdown)),
                    ),
                Err(e) => e == VEML6030Error::IOError && old(self).log().is_prefix_of(
                    final(self).log(),
                ),
            },
    {
        let old_state = self.read_and_convert_to_u16(constants::SETTING_REG)?;
        let ghost log1 = self.log();
        let new_state = insert_u16(old_state, 1, 1, shutdown.encode());
        self.convert_and_write_u16(constants::SETTING_REG, new_state)?;
        proof {
            let a = old(self).addr();
            let (b0, b1) = choose|b0: u8, b1: u8|
                log1 == old(self).log() + seq![#[trigger] rd2(a, constants::SETTING_REG, b0, b1)]
                    && old_state == be16(b0, b1);
            assert(self.log() =~= old(self).log() + rmw16_txns(
                a,
                constants::SETTING_REG,
                b0,
                b1,
                new_state,
            ));
        }
        Ok(())
    }

    /// Read-modify-write the mode field of the power-saving register.
    pub fn set_power_saving_mode(&mut self, mode: PowerSavingMode) -> (r: Result<(), VEML6030Error>)
        ensures
            final(self).addr() == old(self).addr(),
            match r {
                Ok(_) => exists|b0: u8, b1: u8|
                    final(self).log() == old(self).log() + #[trigger] rmw16_txns(
                        old(self).addr(),
                        constants::POWER_SAVE_REG,
                        b0,
                        b1,
                        field_set_spec(be16(b0, b1), 1, 2, power_saving_mode_code(mode)),
                    ),
                Err(e) => e == VEML6030Error::IOError && old(self).log().is_prefix_of(
                    final(self).log(),
                ),
            },
    {
        let old_state = self.read_and_convert_to_u16(constants::POWER_SAVE_REG)?;
        let ghost log1 = self.log();
        let new_state = insert_u16(old_state, 1, 2, mode.encode());
        self.convert_and_write_u16(constants::POWER_SAVE_REG, new_state)?;
        proof {
            let a = old(self).addr();
            let (b0, b1) = choose|b0: u8, b1: u8|
                log1 == old(self).log() + seq![#[trigger] rd2(a, constants::POWER_SAVE_REG, b0, b1)]
                    && old_state == be16(b0, b1);
            assert(self.log() =~= old(self).log() + rmw16_txns(
                a,
                constants::POWER_SAVE_REG,
                b0,
                b1,
                new_state,
            ));
        }
        Ok(())
    }

    /// Read-modify-write the enable bit of the power-saving register.
    pub fn set_power_saving_mode_enabled(&mut self, enable: PowerSavingModeEnable) -> (r: Result<(), VEML6030Error>)
        ensures
            final(self).addr() == old(self).addr(),
            match r {
                Ok(_) => exists|b0: u8, b1: u8|
                    final(self).log() == old(self).log() + #[trigger] rmw16_txns(
                        old(self).addr(),
                        constants::POWER_SAVE_REG,
                        b0,
                        b1,
                        field_set_spec(be16(b0, b1), 0, 1, power_saving_enable_code(enable)),
                    ),
                Err(e) => e == VEML6030Error::IOError && old(self).log().is_prefix_of(
                    final(self).log(),
                ),
            },
    {
        let old_state = self.read_and_convert_to_u16(constants::POWER_SAVE_REG)?;
        let ghost log1 = self.log();
        let new_state = insert_u16(old_state, 0, 1, enable.encode());
        self.convert_and_write_u16(constants::POWER_SAVE_REG, new_state)?;
        proof {
            let a = old(self).addr();
            let (b0, b1) = choose|b0: u8, b1: u8|
                log1 == old(self).log() + seq![#[trigger] rd2(a, constants::POWER_SAVE_REG, b0, b1)]
                    && old_state == be16(b0, b1);
            assert(self.log() =~= old(self).log() + rmw16_txns(
                a,
                constants::POWER_SAVE_REG,
                b0,
                b1,
                new_state,
            ));
        }
        Ok(())
    }


    /// Read the high threshold of the interrupt window.
    pub fn get_high_threshold_window(&mut self) -> (r: Result<u16, VEML6030Error>)
        ensures
            final(self).addr() == old(self).addr(),
            match r {
                Ok(w) => exists|b0: u8, b1: u8|
                    final(self).log() == old(self).log() + seq![
                        #[trigger] rd2(old(self).addr(), constants::H_THRESH_REG, b0, b1),
                    ] && w == be16(b0, b1),
                Err(e) => e == VEML6030Error::IOError && final(self).log() == old(self).log(),
            },
    {
        self.read_and_convert_to_u16(constants::H_THRESH_REG)
    }

    /// Read the low threshold of the interrupt window.
    pub fn get_low_threshold_window(&mut self) -> (r: Result<u16, VEML6030Error>)
        ensures
            final(self).addr() == old(self).addr(),
            match r {
                Ok(w) => exists|b0: u8, b1: u8|
                    final(self).log() == old(self).log() + seq![
                        #[trigger] rd2(old(self).addr(), constants::L_THRESH_REG, b0, b1),
                    ] && w == be16(b0, b1),
                Err(e) => e == VEML6030Error::IOError && final(self).log() == old(self).log(),
            },
    {
        self.read_and_convert_to_u16(constants::L_THRESH_REG)
    }

    /// Read the latest ambient-light conversion.
    pub fn get_ambient_light_output(&mut self) -> (r: Result<u16, VEML6030Error>)
        ensures
            final(self).addr() == old(self).addr(),
            match r {
                Ok(w) => exists|b0: u8, b1: u8|
                    final(self).log() == old(self).log() + seq![
                        #[trigger] rd2(old(self).addr(), constants::AMBIENT_LIGHT_DATA_REG, b0, b1),
                    ] && w == be16(b0, b1),
                Err(e) => e == VEML6030Error::IOError && final(self).log() == old(self).log(),
            },
    {
        self.read_and_convert_to_u16(constants::AMBIENT_LIGHT_DATA_REG)
    }

    /// Read the latest white-light conversion.
    pub fn get_white_light_output(&mut self) -> (r: Result<u16, VEML6030Error>)
        ensures
            final(self).addr() == old(self).addr(),
            match r {
                Ok(w) => exists|b0: u8, b1: u8|
                    final(self).log() == old(self).log() + seq![
                        #[trigger] rd2(old(self).addr(), constants::WHITE_LIGHT_DATA_REG, b0, b1),
                    ] && w == be16(b0, b1),
                Err(e) => e == VEML6030Error::IOError && final(self).log() == old(self).log(),
            },
    {
        self.read_and_convert_to_u16(constants::WHITE_LIGHT_DATA_REG)
    }

    /// Write the high threshold of the interrupt window.
    pub fn set_high_threshold_window(&mut self, threshold: u16) -> (r: Result<(), VEML6030Error>)
        ensures
            final(self).addr() == old(self).addr(),
            match r {
                Ok(_) => final(self).log() == old(self).log() + seq![
                    wr2(
                        old(self).addr(),
                        constants::H_THRESH_REG,
                        u16_hi(threshold),
                        u16_lo(threshold),
                    ),
                ],
                Err(e) => e == VEML6030Error::IOError && final(self).log() == old(self).log(),
            },
    {
        self.convert_and_write_u16(constants::H_THRESH_REG, threshold)
    }

    /// Write the low threshold of the interrupt window.
    pub fn set_low_threshold_window(&mut self, threshold: u16) -> (r: Result<(), VEML6030Error>)
        ensures
            final(self).addr() == old(self).addr(),
            match r {
                Ok(_) => final(self).log() == old(self).log() + seq![
                    wr2(
                        old(self).addr(),
                        constants::L_THRESH_REG,
                        u16_hi(threshold),
                        u16_lo(threshold),
                    ),
                ],
                Err(e) => e == VEML6030Error::IOError && final(self).log() == old(self).log(),
            },
    {
        self.convert_and_write_u16(constants::L_THRESH_REG, threshold)
    }

    /// Read a 16-bit register: two bytes in one transaction, big-endian.
    fn read_and_convert_to_u16(&mut self, register: u8) -> (r: Result<u16, VEML6030Error>)
        ensures
            final(self).addr() == old(self).addr(),
            match r {
                Ok(w) => exists|b0: u8, b1: u8|
                    final(self).log() == old(self).log() + seq![
                        #[trigger] rd2(old(self).addr(), register, b0, b1),
                    ] && w == be16(b0, b1),
                Err(e) => e == VEML6030Error::IOError && final(self).log() == old(self).log(),
            },
    {
        let buffer = match self.dev.read_from_register(register, 2) {
            Ok(b) => b,
            Err(_) => {
                return Err(VEML6030Error::IOError);
            },
        };
        let state = convert_buffer_to_u16(&buffer);
        proof {
            assert(buffer@ =~= seq![buffer@[0], buffer@[1]]);
            assert(self.log() =~= old(self).log() + seq![
                rd2(old(self).addr(), register, buffer@[0], buffer@[1]),
            ]);
        }
        Ok(state)
    }

    /// Write a 16-bit register: the register address and two bytes,
    /// big-endian, in one transaction.
    fn convert_and_write_u16(&mut self, register: u8, state: u16) -> (r: Result<
        (),
        VEML6030Error,
    >)
        ensures
            final(self).addr() == old(self).addr(),
            match r {
                Ok(_) => final(self).log() == old(self).log() + seq![
                    wr2(old(self).addr(), register, u16_hi(state), u16_lo(state)),
                ],
                Err(e) => e == VEML6030Error::IOError && final(self).log() == old(self).log(),
            },
    {
        let mut buffer: Vec<u8> = Vec::new();
        convert_u16_to_buffer(&mut buffer, state);
        match self.dev.write_to_register(register, &buffer) {
            Ok(_) => {
                proof {
                    assert(seq![register] + buffer@ =~= seq![
                        register,
                        u16_hi(state),
                        u16_lo(state),
                    ]);
                    assert(self.log() =~= old(self).log() + seq![
                        wr2(old(self).addr(), register, u16_hi(state), u16_lo(state)),
                    ]);
                }
                Ok(())
            },
            Err(_) => Err(VEML6030Error::IOError),
        }
    }
}

/// Interpret two bytes read from a register as a big-endian 16-bit word.
fn convert_buffer_to_u16(buffer: &Vec<u8>) -> (r: u16)
    requires
        buffer@.len() == 2,
    ensures
        r == be16(buffer@[0], buffer@[1]),
{
    (buffer[0] as u16) * 256 + (buffer[1] as u16)
}

/// Lay a 16-bit word out as two bytes for the wire, big-endian.
fn convert_u16_to_buffer(buffer: &mut Vec<u8>, num: u16)
    requires
        old(buffer)@.len() == 0,
    ensures
        final(buffer)@ == seq![u16_hi(num), u16_lo(num)],
{
    let hi = (num >> 8) as u8;
    let lo = (num & 0xFF) as u8;
    proof {
        assert((num >> 8) == num / 256 && (num & 0xFF) == num % 256 && num / 256 < 256 && num % 256
            < 256) by (bit_vector);
    }
    buffer.push(hi);
    buffer.push(lo);
    proof {
        assert(buffer@ =~= seq![u16_hi(num), u16_lo(num)]);
    }
}

} // verus!
