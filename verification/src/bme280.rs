use vstd::prelude::*;

pub mod calibration;
pub mod constants;
pub mod i2c;

use crate::protocols::i2c::{rd1, wr1, I2CWrapper, I2cTransport, Txn};
use calibration::{
    div_floor, humidity_fields, humidity_read_txns, pressure_fields, pressure_read_txns,
    spec_t_fine, t_fine_in_range, temperature_fields, temperature_read_txns, Calibration,
};

verus! {

/// Failure of a driver operation, per the driver's error taxonomy: a bus
/// transaction failed, the chip-identity register held an unexpected value,
/// or a register field held a code outside its defined set.
#[derive(Clone, Copy, PartialEq, Eq, Structural, Debug)]
pub enum BME280Error {
    IOError,
    IdentityMismatch,
    InvalidEncoding,
}

/// The power mode of the device: the two low bits of the
/// measurement-control register.
#[derive(Clone, Copy, PartialEq, Eq, Structural, Debug)]
pub enum Mode {
    Sleep,
    Forced,
    Normal,
}

/// The code written to the mode bits for each mode.
pub open spec fn mode_code(m: Mode) -> u8 {
    match m {
        Mode::Sleep => 0,
        Mode::Forced => 1,
        Mode::Normal => 3,
    }
}

/// The mode a 2-bit register code denotes. The chip defines both code 1 and
/// code 2 as the forced mode, so the two decode to the same variant and
/// code 2 does not survive a decode-encode round trip.
pub open spec fn spec_mode_decode(code: u8) -> Mode {
    if code == 0 {
        Mode::Sleep
    } else if code == 1 || code == 2 {
        Mode::Forced
    } else {
        Mode::Normal
    }
}

impl Mode {
    pub fn encode(&self) -> (r: u8)
        ensures
            r == mode_code(*self),
            r <= 3,
    {
        match self {
            Mode::Sleep => 0,
            Mode::Forced => 1,
            Mode::Normal => 3,
        }
    }

    /// Decode a 2-bit mode code; a code above 3 is outside the register
    /// field and is rejected rather than aborted on.
    pub fn decode(code: u8) -> (r: Result<Mode, BME280Error>)
        ensures
            match r {
                Ok(m) => code <= 3 && m == spec_mode_decode(code),
                Err(e) => code > 3 && e == BME280Error::InvalidEncoding,
            },
    {
        match code {
            0 => Ok(Mode::Sleep),
            1 => Ok(Mode::Forced),
            2 => Ok(Mode::Forced),
            3 => Ok(Mode::Normal),
            _ => Err(BME280Error::InvalidEncoding),
        }
    }
}

/// Decoding the code of any mode gives that mode back. Code 2 also decodes,
/// to `Forced`, whose own code is 1: the collapse mirrors the chip's two
/// equivalent forced codes.
pub proof fn lemma_mode_round_trip(m: Mode)
    ensures
        spec_mode_decode(mode_code(m)) == m,
{
}

/// Hardware-side averaging of sample conversions: a 3-bit register field
/// with six defined codes.
#[derive(Clone, Copy, PartialEq, Eq, Structural, Debug)]
pub enum Oversampling {
    Skipped,
    Ox1,
    Ox2,
    Ox4,
    Ox8,
    Ox16,
}

/// The code written to an oversampling field for each rate.
pub open spec fn oversampling_code(r: Oversampling) -> u8 {
    match r {
        Oversampling::Skipped => 0,
        Oversampling::Ox1 => 1,
        Oversampling::Ox2 => 2,
        Oversampling::Ox4 => 3,
        Oversampling::Ox8 => 4,
        Oversampling::Ox16 => 5,
    }
}

/// The rate a 3-bit oversampling code denotes, if it is a defined code.
pub open spec fn spec_oversampling_decode(code: u8) -> Option<Oversampling> {
    if code == 0 {
        Some(Oversampling::Skipped)
    } else if code == 1 {
        Some(Oversampling::Ox1)
    } else if code == 2 {
        Some(Oversampling::Ox2)
    } else if code == 3 {
        Some(Oversampling::Ox4)
    } else if code == 4 {
        Some(Oversampling::Ox8)
    } else if code == 5 {
        Some(Oversampling::Ox16)
    } else {
        None
    }
}

impl Oversampling {
    pub fn encode(&self) -> (r: u8)
        ensures
            r == oversampling_code(*self),
            r <= 5,
    {
        match self {
            Oversampling::Skipped => 0,
            Oversampling::Ox1 => 1,
            Oversampling::Ox2 => 2,
            Oversampling::Ox4 => 3,
            Oversampling::Ox8 => 4,
            Oversampling::Ox16 => 5,
        }
    }

    /// Decode an oversampling code; a code outside the six defined ones is
    /// rejected rather than aborted on.
    pub fn decode(code: u8) -> (r: Result<Oversampling, BME280Error>)
        ensures
            match r {
                Ok(v) => spec_oversampling_decode(code) == Some(v),
                Err(e) => spec_oversampling_decode(code) is None && e
                    == BME280Error::InvalidEncoding,
            },
    {
        match code {
            0 => Ok(Oversampling::Skipped),
            1 => Ok(Oversampling::Ox1),
            2 => Ok(Oversampling::Ox2),
            3 => Ok(Oversampling::Ox4),
            4 => Ok(Oversampling::Ox8),
            5 => Ok(Oversampling::Ox16),
            _ => Err(BME280Error::InvalidEncoding),
        }
    }
}

/// Decoding the code of any oversampling rate gives that rate back.
pub proof fn lemma_oversampling_round_trip(r: Oversampling)
    ensures
        spec_oversampling_decode(oversampling_code(r)) == Some(r),
{
}

/// Re-encoding a decoded oversampling code gives that code back: the
/// defined codes and the rates are in exact correspondence.
pub proof fn lemma_oversampling_code_round_trip(code: u8)
    requires
        spec_oversampling_decode(code) is Some,
    ensures
        oversampling_code(spec_oversampling_decode(code)->Some_0) == code,
{
}

/// The idle time between measurements in normal mode: a 3-bit register
/// field with eight defined codes.
#[derive(Clone, Copy, PartialEq, Eq, Structural, Debug)]
pub enum StandyTime {
    Ms0_5,
    Ms62_5,
    Ms125,
    Ms250,
    Ms500,
    Ms1000,
    Ms10,
    Ms20,
}

/// The code written to the standby field for each standby time.
pub open spec fn standby_code(t: StandyTime) -> u8 {
    match t {
        StandyTime::Ms0_5 => 0,
        StandyTime::Ms62_5 => 1,
        StandyTime::Ms125 => 2,
        StandyTime::Ms250 => 3,
        StandyTime::Ms500 => 4,
        StandyTime::Ms1000 => 5,
        StandyTime::Ms10 => 6,
        StandyTime::Ms20 => 7,
    }
}

/// The standby time a 3-bit code denotes, if it is a defined code.
pub open spec fn spec_standby_decode(code: u8) -> Option<StandyTime> {
    if code == 0 {
        Some(StandyTime::Ms0_5)
    } else if code == 1 {
        Some(StandyTime::Ms62_5)
    } else if code == 2 {
        Some(StandyTime::Ms125)
    } else if code == 3 {
        Some(StandyTime::Ms250)
    } else if code == 4 {
        Some(StandyTime::Ms500)
    } else if code == 5 {
        Some(StandyTime::Ms1000)
    } else if code == 6 {
        Some(StandyTime::Ms10)
    } else if code == 7 {
        Some(StandyTime::Ms20)
    } else {
        None
    }
}

impl StandyTime {
    pub fn encode(&self) -> (r: u8)
        ensures
            r == standby_code(*self),
            r <= 7,
    {
        match self {
            StandyTime::Ms0_5 => 0,
            StandyTime::Ms62_5 => 1,
            StandyTime::Ms125 => 2,
            StandyTime::Ms250 => 3,
            StandyTime::Ms500 => 4,
            StandyTime::Ms1000 => 5,
            StandyTime::Ms10 => 6,
            StandyTime::Ms20 => 7,
        }
    }

    /// Decode a standby-time code; a code above 7 is outside the register
    /// field and is rejected rather than aborted on.
    pub fn decode(code: u8) -> (r: Result<StandyTime, BME280Error>)
        ensures
            match r {
                Ok(v) => spec_standby_decode(code) == Some(v),
                Err(e) => spec_standby_decode(code) is None && e == BME280Error::InvalidEncoding,
            },
    {
        match code {
            0 => Ok(StandyTime::Ms0_5),
            1 => Ok(StandyTime::Ms62_5),
            2 => Ok(StandyTime::Ms125),
            3 => Ok(StandyTime::Ms250),
            4 => Ok(StandyTime::Ms500),
            5 => Ok(StandyTime::Ms1000),
            6 => Ok(StandyTime::Ms10),
            7 => Ok(StandyTime::Ms20),
            _ => Err(BME280Error::InvalidEncoding),
        }
    }
}

/// Decoding the code of any standby time gives that standby time back.
pub proof fn lemma_standby_round_trip(t: StandyTime)
    ensures
        spec_standby_decode(standby_code(t)) == Some(t),
{
}

/// Re-encoding a decoded standby code gives that code back: the eight
/// defined codes and the standby times are in exact correspondence.
pub proof fn lemma_standby_code_round_trip(code: u8)
    requires
        spec_standby_decode(code) is Some,
    ensures
        standby_code(spec_standby_decode(code)->Some_0) == code,
{
}

/// The on-chip IIR filter coefficient: a 3-bit register field with five
/// defined codes.
#[derive(Clone, Copy, PartialEq, Eq, Structural, Debug)]
pub enum Filter {
    Off,
    C2,
    C4,
    C8,
    C16,
}

/// The code written to the filter field for each coefficient.
pub open spec fn filter_code(f: Filter) -> u8 {
    match f {
        Filter::Off => 0,
        Filter::C2 => 1,
        Filter::C4 => 2,
        Filter::C8 => 3,
        Filter::C16 => 4,
    }
}

/// The filter coefficient a 3-bit code denotes, if it is a defined code.
pub open spec fn spec_filter_decode(code: u8) -> Option<Filter> {
    if code == 0 {
        Some(Filter::Off)
    } else if code == 1 {
        Some(Filter::C2)
    } else if code == 2 {
        Some(Filter::C4)
    } else if code == 3 {
        Some(Filter::C8)
    } else if code == 4 {
        Some(Filter::C16)
    } else {
        None
    }
}

impl Filter {
    pub fn encode(&self) -> (r: u8)
        ensures
            r == filter_code(*self),
            r <= 4,
    {
        match self {
            Filter::Off => 0,
            Filter::C2 => 1,
            Filter::C4 => 2,
            Filter::C8 => 3,
            Filter::C16 => 4,
        }
    }

    /// Decode a filter code; a code outside the five defined ones is
    /// rejected rather than aborted on.
    pub fn decode(code: u8) -> (r: Result<Filter, BME280Error>)
        ensures
            match r {
                Ok(v) => spec_filter_decode(code) == Some(v),
                Err(e) => spec_filter_decode(code) is None && e == BME280Error::InvalidEncoding,
            },
    {
        match code {
            0 => Ok(Filter::Off),
            1 => Ok(Filter::C2),
            2 => Ok(Filter::C4),
            3 => Ok(Filter::C8),
            4 => Ok(Filter::C16),
            _ => Err(BME280Error::InvalidEncoding),
        }
    }
}

/// Decoding the code of any filter coefficient gives that coefficient back.
pub proof fn lemma_filter_round_trip(f: Filter)
    ensures
        spec_filter_decode(filter_code(f)) == Some(f),
{
}

/// Re-encoding a decoded filter code gives that code back: the five
/// defined codes and the coefficients are in exact correspondence.
pub proof fn lemma_filter_code_round_trip(code: u8)
    requires
        spec_filter_decode(code) is Some,
    ensures
        filter_code(spec_filter_decode(code)->Some_0) == code,
{
}

/// The two selectable 7-bit device addresses.
#[derive(Clone, Copy, PartialEq, Eq, Structural, Debug)]
pub enum Address {
    Default,
    Alternative,
}

impl From<Address> for u8 {
    fn from(value: Address) -> (r: u8) {
        match value {
            Address::Default => constants::DEFAULT,
            Address::Alternative => constants::ALTERNATIVE,
        }
    }
}

impl vstd::std_specs::convert::FromSpecImpl<Address> for u8 {
    open spec fn obeys_from_spec() -> bool {
        true
    }

    open spec fn from_spec(value: Address) -> u8 {
        match value {
            Address::Default => constants::DEFAULT,
            Address::Alternative => constants::ALTERNATIVE,
        }
    }
}

/// The read-modify-write transaction pair that sets the mode bits: read the
/// measurement-control register (answered by `s`), write it back with the
/// mode bits replaced.
pub open spec fn mode_txns(a: u8, m: Mode, s: u8) -> Seq<Txn> {
    seq![
        rd1(a, constants::CTRL_MEAS_REG, s),
        wr1(a, constants::CTRL_MEAS_REG, (s & 0xFC) | mode_code(m)),
    ]
}

/// The read-modify-write transaction pair that sets the standby field.
pub open spec fn standby_txns(a: u8, code: u8, s: u8) -> Seq<Txn> {
    seq![
        rd1(a, constants::CONFIG_REG, s),
        wr1(a, constants::CONFIG_REG, (s & 0x1F) | (code << 5)),
    ]
}

/// The read-modify-write transaction pair that sets the filter field.
pub open spec fn filter_txns(a: u8, code: u8, s: u8) -> Seq<Txn> {
    seq![
        rd1(a, constants::CONFIG_REG, s),
        wr1(a, constants::CONFIG_REG, (s & 0xE3) | (code << 2)),
    ]
}

/// The quiesce sequence of the temperature-oversampling setter: read the
/// current mode (answered by `b1`), force sleep, rewrite the field, restore
/// the mode that `b1` encoded.
pub open spec fn temperature_oversample_txns(
    a: u8,
    code: u8,
    b1: u8,
    b2: u8,
    bf: u8,
    b3: u8,
) -> Seq<Txn> {
    seq![rd1(a, constants::CTRL_MEAS_REG, b1)] + mode_txns(a, Mode::Sleep, b2) + seq![
        rd1(a, constants::CTRL_MEAS_REG, bf),
        wr1(a, constants::CTRL_MEAS_REG, (bf & 0x1F) | (code << 5)),
    ] + mode_txns(a, spec_mode_decode(b1 & 3), b3)
}

/// The quiesce sequence of the pressure-oversampling setter.
pub open spec fn pressure_oversample_txns(
    a: u8,
    code: u8,
    b1: u8,
    b2: u8,
    bf: u8,
    b3: u8,
) -> Seq<Txn> {
    seq![rd1(a, constants::CTRL_MEAS_REG, b1)] + mode_txns(a, Mode::Sleep, b2) + seq![
        rd1(a, constants::CTRL_MEAS_REG, bf),
        wr1(a, constants::CTRL_MEAS_REG, (bf & 0xE3) | (code << 2)),
    ] + mode_txns(a, spec_mode_decode(b1 & 3), b3)
}

/// The quiesce sequence of the humidity-oversampling setter; the field
/// lives in the separate humidity-control register.
pub open spec fn humidity_oversample_txns(
    a: u8,
    code: u8,
    b1: u8,
    b2: u8,
    bf: u8,
    b3: u8,
) -> Seq<Txn> {
    seq![rd1(a, constants::CTRL_MEAS_REG, b1)] + mode_txns(a, Mode::Sleep, b2) + seq![
        rd1(a, constants::CTRL_HUMIDITY_REG, bf),
        wr1(a, constants::CTRL_HUMIDITY_REG, (bf & 0xF8) | code),
    ] + mode_txns(a, spec_mode_decode(b1 & 3), b3)
}

/// Every quiesce sequence ends by restoring the mode that its first read
/// returned: the mode bits of the final write decode to the same mode as
/// the initially read byte, whatever both register bytes held.
pub proof fn lemma_quiesce_restores_mode(b1: u8, b3: u8)
    ensures
        spec_mode_decode(((b3 & 0xFC) | mode_code(spec_mode_decode(b1 & 3))) & 3)
            == spec_mode_decode(b1 & 3),
{
    let m = spec_mode_decode(b1 & 3);
    let c = mode_code(m);
    assert(c == 0 || c == 1 || c == 3);
    assert(((b3 & 0xFC) | c) & 3 == c) by (bit_vector)
        requires
            c == 0 || c == 1 || c == 3,
    ;
    lemma_mode_round_trip(m);
}

/// One temperature/pressure/humidity sensor on the bus: the register bus,
/// the calibration constants read once at construction, and the `t_fine`
/// intermediate of the most recent temperature compensation, which pressure
/// and humidity compensation consume. Temperature must therefore be
/// measured before pressure or humidity in a sampling cycle; until the
/// first temperature measurement `t_fine` is zero.
pub struct BME280<T> {
    dev: I2CWrapper<T>,
    calibration: Calibration,
    t_fine: i32,
}

impl<T: I2cTransport> BME280<T> {
    /// Well-formedness of a device handle: the stored `t_fine` lies in the
    /// range temperature compensation can produce. Constructors establish
    /// it and every method keeps it.
    pub open spec fn wf(&self) -> bool {
        t_fine_in_range(self.t_fine() as int)
    }

    /// The device address every transaction is directed at.
    pub closed spec fn addr(&self) -> u8 {
        self.dev.addr()
    }

    /// The transactions completed on the underlying transport, oldest first.
    pub closed spec fn log(&self) -> Seq<Txn> {
        self.dev.log()
    }

    /// The calibration constants read at construction.
    pub closed spec fn calibration(&self) -> Calibration {
        self.calibration
    }

    /// The `t_fine` intermediate of the most recent temperature
    /// compensation, zero before the first one.
    pub closed spec fn t_fine(&self) -> i32 {
        self.t_fine
    }

    /// Create a device handle: wrap the transport with the device address
    /// and read every calibration constant, in the fixed order.
    pub fn new(dev: T, address: u8) -> (r: Result<BME280<T>, BME280Error>)
        ensures
            match r {
                Ok(s) => {
                    &&& s.wf()
                    &&& s.addr() == address
                    &&& s.t_fine() == 0
                    &&& exists|bt: Seq<u8>, bp: Seq<u8>, bh: Seq<u8>|
                        #![trigger temperature_read_txns(address, bt), pressure_read_txns(address, bp), humidity_read_txns(address, bh)]
                    {
                        &&& bt.len() == 6
                        &&& bp.len() == 18
                        &&& bh.len() == 8
                        &&& s.log() == dev.log() + temperature_read_txns(address, bt)
                            + pressure_read_txns(address, bp) + humidity_read_txns(address, bh)
                        &&& temperature_fields(s.calibration().temperature, bt)
                        &&& pressure_fields(s.calibration().pressure, bp)
                        &&& humidity_fields(s.calibration().humidity, bh)
                    }
                },
                Err(e) => e == BME280Error::IOError,
            },
    {
        let mut wrapper = I2CWrapper::new(dev, address);
        let calibration = match Calibration::build(&mut wrapper) {
            Ok(c) => c,
            Err(_) => {
                return Err(BME280Error::IOError);
            },
        };
        Ok(BME280 { dev: wrapper, calibration, t_fine: 0 })
    }

    /// Create a device handle and bring the device up with the default
    /// configuration.
    pub fn build(dev: T, address: u8) -> (r: Result<BME280<T>, BME280Error>)
        ensures
            match r {
                Ok(s) => {
                    &&& s.wf()
                    &&& s.addr() == address
                    &&& s.t_fine() == 0
                    &&& dev.log().is_prefix_of(s.log())
                    &&& exists|bt: Seq<u8>, bp: Seq<u8>, bh: Seq<u8>|
                        #![trigger temperature_read_txns(address, bt), pressure_read_txns(address, bp), humidity_read_txns(address, bh)]
                    {
                        &&& bt.len() == 6
                        &&& bp.len() == 18
                        &&& bh.len() == 8
                        &&& temperature_fields(s.calibration().temperature, bt)
                        &&& pressure_fields(s.calibration().pressure, bp)
                        &&& humidity_fields(s.calibration().humidity, bh)
                    }
                },
                Err(e) => e == BME280Error::IOError,
            },
    {
        let mut sensor = BME280::new(dev, address)?;
        sensor.start()?;
        Ok(sensor)
    }

    /// Bring the device up: standby 0.5 ms, filter off, one-fold
    /// oversampling on all three channels, then normal mode, in that exact
    /// order on the bus.
    pub fn start(&mut self) -> (r: Result<(), BME280Error>)
        ensures
            final(self).addr() == old(self).addr(),
            final(self).t_fine() == old(self).t_fine(),
            final(self).calibration() == old(self).calibration(),
            match r {
                Ok(_) => exists|
                    s1: u8,
                    s2: u8,
                    t1: u8,
                    t2: u8,
                    t3: u8,
                    t4: u8,
                    p1: u8,
                    p2: u8,
                    p3: u8,
                    p4: u8,
                    h1: u8,
                    h2: u8,
                    h3: u8,
                    h4: u8,
                    sm: u8,
                |
                    #![trigger standby_txns(old(self).addr(), standby_code(StandyTime::Ms0_5), s1), filter_txns(old(self).addr(), filter_code(Filter::Off), s2), temperature_oversample_txns(old(self).addr(), oversampling_code(Oversampling::Ox1), t1, t2, t3, t4), pressure_oversample_txns(old(self).addr(), oversampling_code(Oversampling::Ox1), p1, p2, p3, p4), humidity_oversample_txns(old(self).addr(), oversampling_code(Oversampling::Ox1), h1, h2, h3, h4), mode_txns(old(self).addr(), Mode::Normal, sm)]
                    final(self).log() == old(self).log() + standby_txns(
                        old(self).addr(),
                        standby_code(StandyTime::Ms0_5),
                        s1,
                    ) + filter_txns(old(self).addr(), filter_code(Filter::Off), s2)
                        + temperature_oversample_txns(
                        old(self).addr(),
                        oversampling_code(Oversampling::Ox1),
                        t1,
                        t2,
                        t3,
                        t4,
                    ) + pressure_oversample_txns(
                        old(self).addr(),
                        oversampling_code(Oversampling::Ox1),
                        p1,
                        p2,
                        p3,
                        p4,
                    ) + humidity_oversample_txns(
                        old(self).addr(),
                        oversampling_code(Oversampling::Ox1),
                        h1,
                        h2,
                        h3,
                        h4,
                    ) + mode_txns(old(self).addr(), Mode::Normal, sm),
                Err(e) => e == BME280Error::IOError && old(self).log().is_prefix_of(
                    final(self).log(),
                ),
            },
    {
        let ghost a = self.addr();
        let ghost log0 = self.log();
        self.set_standby_time(StandyTime::Ms0_5)?;
        let ghost log1 = self.log();
        self.set_filter(Filter::Off)?;
        let ghost log2 = self.log();
        self.set_temperature_oversample(Oversampling::Ox1)?;
        let ghost log3 = self.log();
        self.set_pressure_oversample(Oversampling::Ox1)?;
        let ghost log4 = self.log();
        self.set_humidity_oversample(Oversampling::Ox1)?;
        let ghost log5 = self.log();
        self.set_mode(Mode::Normal)?;
        proof {
            let s1 = choose|s: u8|
                log1 == log0 + #[trigger] standby_txns(a, standby_code(StandyTime::Ms0_5), s);
            let s2 = choose|s: u8|
                log2 == log1 + #[trigger] filter_txns(a, filter_code(Filter::Off), s);
            let (t1, t2, t3, t4) = choose|b1: u8, b2: u8, bf: u8, b3: u8|
                log3 == log2 + #[trigger] temperature_oversample_txns(
                    a,
                    oversampling_code(Oversampling::Ox1),
                    b1,
                    b2,
                    bf,
                    b3,
                );
            let (p1, p2, p3, p4) = choose|b1: u8, b2: u8, bf: u8, b3: u8|
                log4 == log3 + #[trigger] pressure_oversample_txns(
                    a,
                    oversampling_code(Oversampling::Ox1),
                    b1,
                    b2,
                    bf,
                    b3,
                );
            let (h1, h2, h3, h4) = choose|b1: u8, b2: u8, bf: u8, b3: u8|
                log5 == log4 + #[trigger] humidity_oversample_txns(
                    a,
                    oversampling_code(Oversampling::Ox1),
                    b1,
                    b2,
                    bf,
                    b3,
                );
            let sm = choose|s: u8| self.log() == log5 + #[trigger] mode_txns(a, Mode::Normal, s);
            assert(self.log() == log0 + standby_txns(a, standby_code(StandyTime::Ms0_5), s1)
                + filter_txns(a, filter_code(Filter::Off), s2) + temperature_oversample_txns(
                a,
                oversampling_code(Oversampling::Ox1),
                t1,
                t2,
                t3,
                t4,
            ) + pressure_oversample_txns(a, oversampling_code(Oversampling::Ox1), p1, p2, p3, p4)
                + humidity_oversample_txns(a, oversampling_code(Oversampling::Ox1), h1, h2, h3, h4)
                + mode_txns(a, Mode::Normal, sm));
        }
        Ok(())
    }

    /// Put the device to sleep.
    pub fn stop(&mut self) -> (r: Result<(), BME280Error>)
        ensures
            final(self).addr() == old(self).addr(),
            final(self).t_fine() == old(self).t_fine(),
            final(self).calibration() == old(self).calibration(),
            match r {
                Ok(_) => exists|s: u8|
                    final(self).log() == old(self).log() + #[trigger] mode_txns(
                        old(self).addr(),
                        Mode::Sleep,
                        s,
                    ),
                Err(e) => e == BME280Error::IOError && old(self).log().is_prefix_of(
                    final(self).log(),
                ),
            },
    {
        self.set_mode(Mode::Sleep)
    }

    /// Read the chip-identity register; a value other than the expected
    /// chip id is reported as an identity mismatch, which does not block
    /// later register access.
    pub fn get_id(&mut self) -> (r: Result<u8, BME280Error>)
        ensures
            final(self).addr() == old(self).addr(),
            final(self).t_fine() == old(self).t_fine(),
            final(self).calibration() == old(self).calibration(),
            match r {
                Ok(id) => id == constants::CHIP_ID && final(self).log() == old(self).log().push(
                    rd1(old(self).addr(), constants::CHIP_ID_REG, constants::CHIP_ID),
                ),
                Err(e) => {
                    &&& (e == BME280Error::IOError || e == BME280Error::IdentityMismatch)
                    &&& e == BME280Error::IOError ==> final(self).log() == old(self).log()
                    &&& e == BME280Error::IdentityMismatch ==> exists|b: u8|
                        b != constants::CHIP_ID && final(self).log() == old(self).log().push(
                            #[trigger] rd1(old(self).addr(), constants::CHIP_ID_REG, b),
                        )
                },
            },
    {
        let id = match i2c::read_id(&mut self.dev) {
            Ok(b) => b,
            Err(_) => {
                return Err(BME280Error::IOError);
            },
        };
        if id != constants::CHIP_ID {
            return Err(BME280Error::IdentityMismatch);
        }
        Ok(id)
    }

    /// Write the soft-reset command.
    pub fn reset(&mut self) -> (r: Result<(), BME280Error>)
        ensures
            final(self).addr() == old(self).addr(),
            final(self).t_fine() == old(self).t_fine(),
            final(self).calibration() == old(self).calibration(),
            match r {
                Ok(_) => final(self).log() == old(self).log().push(
                    wr1(old(self).addr(), constants::RST_REG, constants::SOFT_RESET),
                ),
                Err(e) => e == BME280Error::IOError && final(self).log() == old(self).log(),
            },
    {
        match i2c::write_reset(&mut self.dev) {
            Ok(_) => Ok(()),
            Err(_) => Err(BME280Error::IOError),
        }
    }

    /// Read the current mode from the device; the device is re-read on
    /// every call, no copy is cached.
    pub fn get_mode(&mut self) -> (r: Result<Mode, BME280Error>)
        ensures
            final(self).addr() == old(self).addr(),
            final(self).t_fine() == old(self).t_fine(),
            final(self).calibration() == old(self).calibration(),
            match r {
                Ok(m) => exists|s: u8|
                    final(self).log() == old(self).log() + seq![
                        #[trigger] rd1(old(self).addr(), constants::CTRL_MEAS_REG, s),
                    ] && m == spec_mode_decode(s & 3),
                Err(e) => e == BME280Error::IOError && final(self).log() == old(self).log(),
            },
    {
        let code = match i2c::read_mode(&mut self.dev) {
            Ok(b) => b,
            Err(_) => {
                return Err(BME280Error::IOError);
            },
        };
        let mode = match Mode::decode(code) {
            Ok(m) => m,
            Err(e) => {
                return Err(e);
            },
        };
        proof {
            let s = choose|s: u8|
                self.log() == old(self).log().push(
                    #[trigger] rd1(old(self).addr(), constants::CTRL_MEAS_REG, s),
                ) && code == s & 0x03;
            assert(self.log() =~= old(self).log() + seq![
                rd1(old(self).addr(), constants::CTRL_MEAS_REG, s),
            ]);
        }
        Ok(mode)
    }

    /// Read-modify-write the mode bits.
    pub fn set_mode(&mut self, mode: Mode) -> (r: Result<(), BME280Error>)
        ensures
            final(self).addr() == old(self).addr(),
            final(self).t_fine() == old(self).t_fine(),
            final(self).calibration() == old(self).calibration(),
            match r {
                Ok(_) => exists|s: u8|
                    final(self).log() == old(self).log() + #[trigger] mode_txns(
                        old(self).addr(),
                        mode,
                        s,
                    ),
                Err(e) => e == BME280Error::IOError && old(self).log().is_prefix_of(
                    final(self).log(),
                ),
            },
    {
        let code = mode.encode();
        match i2c::write_mode(&mut self.dev, code) {
            Ok(_) => {
                proof {
                    let s = choose|s: u8|
                        self.log() == old(self).log().push(
                            #[trigger] rd1(old(self).addr(), constants::CTRL_MEAS_REG, s),
                        ).push(
                            wr1(old(self).addr(), constants::CTRL_MEAS_REG, (s & 0xFC) | code),
                        );
                    assert(self.log() =~= old(self).log() + mode_txns(old(self).addr(), mode, s));
                }
                Ok(())
            },
            Err(_) => Err(BME280Error::IOError),
        }
    }

    /// Read the measuring bit of the status register: whether a conversion
    /// is running.
    pub fn is_measuring(&mut self) -> (r: Result<bool, BME280Error>)
        ensures
            final(self).addr() == old(self).addr(),
            final(self).t_fine() == old(self).t_fine(),
            final(self).calibration() == old(self).calibration(),
            match r {
                Ok(b) => exists|s: u8|
                    final(self).log() == old(self).log().push(
                        #[trigger] rd1(old(self).addr(), constants::STAT_REG, s),
                    ) && b == ((s & 0x04) >> 2 == 1),
                Err(e) => e == BME280Error::IOError && final(self).log() == old(self).log(),
            },
    {
        match i2c::read_measuring_bit(&mut self.dev) {
            Ok(b) => {
                proof {
                    let s = choose|s: u8|
                        self.log() == old(self).log().push(
                            #[trigger] rd1(old(self).addr(), constants::STAT_REG, s),
                        ) && b == (s & 0x04) >> 2;
                    assert((b == 1) == ((s & 0x04) >> 2 == 1));
                }
                Ok(b == 1)
            },
            Err(_) => Err(BME280Error::IOError),
        }
    }

    /// Read the update bit of the status register: whether calibration data
    /// is being copied from non-volatile memory.
    pub fn is_updating(&mut self) -> (r: Result<bool, BME280Error>)
        ensures
            final(self).addr() == old(self).addr(),
            final(self).t_fine() == old(self).t_fine(),
            final(self).calibration() == old(self).calibration(),
            match r {
                Ok(b) => exists|s: u8|
                    final(self).log() == old(self).log().push(
                        #[trigger] rd1(old(self).addr(), constants::STAT_REG, s),
                    ) && b == (s & 0x01 == 1),
                Err(e) => e == BME280Error::IOError && final(self).log() == old(self).log(),
            },
    {
        match i2c::read_updating_bit(&mut self.dev) {
            Ok(b) => {
                proof {
                    let s = choose|s: u8|
                        self.log() == old(self).log().push(
                            #[trigger] rd1(old(self).addr(), constants::STAT_REG, s),
                        ) && b == s & 0x01;
                    assert((b == 1) == (s & 0x01 == 1));
                }
                Ok(b == 1)
            },
            Err(_) => Err(BME280Error::IOError),
        }
    }

    /// Set the humidity-oversampling field under the quiesce protocol:
    /// save the mode, force sleep, rewrite the field, restore the saved
    /// mode. The field is latched while the device samples, so the write
    /// only takes effect from sleep.
    pub fn set_humidity_oversample(&mut self, rate: Oversampling) -> (r: Result<(), BME280Error>)
        ensures
            final(self).addr() == old(self).addr(),
            final(self).t_fine() == old(self).t_fine(),
            final(self).calibration() == old(self).calibration(),
            match r {
                Ok(_) => exists|b1: u8, b2: u8, bf: u8, b3: u8|
                    final(self).log() == old(self).log() + #[trigger] humidity_oversample_txns(
                        old(self).addr(),
                        oversampling_code(rate),
                        b1,
                        b2,
                        bf,
                        b3,
                    ),
                Err(e) => e == BME280Error::IOError && old(self).log().is_prefix_of(
                    final(self).log(),
                ),
            },
    {
        let ghost a = self.addr();
        let ghost log0 = self.log();
        let device_mode = self.get_mode()?;
        let ghost log1 = self.log();
        self.set_mode(Mode::Sleep)?;
        let ghost log2 = self.log();
        let code = rate.encode();
        match i2c::write_humidity_oversample(&mut self.dev, code) {
            Ok(_) => (),
            Err(_) => {
                return Err(BME280Error::IOError);
            },
        }
        let ghost log3 = self.log();
        self.set_mode(device_mode)?;
        proof {
            let b1 = choose|s: u8|
                log1 == log0 + seq![#[trigger] rd1(a, constants::CTRL_MEAS_REG, s)] && device_mode
                    == spec_mode_decode(s & 3);
            let b2 = choose|s: u8| log2 == log1 + #[trigger] mode_txns(a, Mode::Sleep, s);
            let bf = choose|s: u8|
                log3 == log2.push(#[trigger] rd1(a, constants::CTRL_HUMIDITY_REG, s)).push(
                    wr1(a, constants::CTRL_HUMIDITY_REG, (s & 0xF8) | code),
                );
            let b3 = choose|s: u8|
                self.log() == log3 + #[trigger] mode_txns(a, device_mode, s);
            assert(self.log() =~= log0 + humidity_oversample_txns(
                a,
                oversampling_code(rate),
                b1,
                b2,
                bf,
                b3,
            ));
        }
        Ok(())
    }

    /// Set the temperature-oversampling field under the quiesce protocol:
    /// save the mode, force sleep, rewrite the field, restore the saved
    /// mode.
    pub fn set_temperature_oversample(&mut self, rate: Oversampling) -> (r: Result<
        (),
        BME280Error,
    >)
        ensures
            final(self).addr() == old(self).addr(),
            final(self).t_fine() == old(self).t_fine(),
            final(self).calibration() == old(self).calibration(),
            match r {
                Ok(_) => exists|b1: u8, b2: u8, bf: u8, b3: u8|
                    final(self).log() == old(self).log() + #[trigger] temperature_oversample_txns(
                        old(self).addr(),
                        oversampling_code(rate),
                        b1,
                        b2,
                        bf,
                        b3,
                    ),
                Err(e) => e == BME280Error::IOError && old(self).log().is_prefix_of(
                    final(self).log(),
                ),
            },
    {
        let ghost a = self.addr();
        let ghost log0 = self.log();
        let device_mode = self.get_mode()?;
        let ghost log1 = self.log();
        self.set_mode(Mode::Sleep)?;
        let ghost log2 = self.log();
        let code = rate.encode();
        match i2c::write_temperature_oversample(&mut self.dev, code) {
            Ok(_) => (),
            Err(_) => {
                return Err(BME280Error::IOError);
            },
        }
        let ghost log3 = self.log();
        self.set_mode(device_mode)?;
        proof {
            let b1 = choose|s: u8|
                log1 == log0 + seq![#[trigger] rd1(a, constants::CTRL_MEAS_REG, s)] && device_mode
                    == spec_mode_decode(s & 3);
            let b2 = choose|s: u8| log2 == log1 + #[trigger] mode_txns(a, Mode::Sleep, s);
            let bf = choose|s: u8|
                log3 == log2.push(#[trigger] rd1(a, constants::CTRL_MEAS_REG, s)).push(
                    wr1(a, constants::CTRL_MEAS_REG, (s & 0x1F) | (code << 5)),
                );
            let b3 = choose|s: u8|
                self.log() == log3 + #[trigger] mode_txns(a, device_mode, s);
            assert(self.log() =~= log0 + temperature_oversample_txns(
                a,
                oversampling_code(rate),
                b1,
                b2,
                bf,
                b3,
            ));
        }
        Ok(())
    }

    /// Set the pressure-oversampling field under the quiesce protocol:
    /// save the mode, force sleep, rewrite the field, restore the saved
    /// mode.
    pub fn set_pressure_oversample(&mut self, rate: Oversampling) -> (r: Result<(), BME280Error>)
        ensures
            final(self).addr() == old(self).addr(),
            final(self).t_fine() == old(self).t_fine(),
            final(self).calibration() == old(self).calibration(),
            match r {
                Ok(_) => exists|b1: u8, b2: u8, bf: u8, b3: u8|
                    final(self).log() == old(self).log() + #[trigger] pressure_oversample_txns(
                        old(self).addr(),
                        oversampling_code(rate),
                        b1,
                        b2,
                        bf,
                        b3,
                    ),
                Err(e) => e == BME280Error::IOError && old(self).log().is_prefix_of(
                    final(self).log(),
                ),
            },
    {
        let ghost a = self.addr();
        let ghost log0 = self.log();
        let device_mode = self.get_mode()?;
        let ghost log1 = self.log();
        self.set_mode(Mode::Sleep)?;
        let ghost log2 = self.log();
        let code = rate.encode();
        match i2c::write_pressure_oversample(&mut self.dev, code) {
            Ok(_) => (),
            Err(_) => {
                return Err(BME280Error::IOError);
            },
        }
        let ghost log3 = self.log();
        self.set_mode(device_mode)?;
        proof {
            let b1 = choose|s: u8|
                log1 == log0 + seq![#[trigger] rd1(a, constants::CTRL_MEAS_REG, s)] && device_mode
                    == spec_mode_decode(s & 3);
            let b2 = choose|s: u8| log2 == log1 + #[trigger] mode_txns(a, Mode::Sleep, s);
            let bf = choose|s: u8|
                log3 == log2.push(#[trigger] rd1(a, constants::CTRL_MEAS_REG, s)).push(
                    wr1(a, constants::CTRL_MEAS_REG, (s & 0xE3) | (code << 2)),
                );
            let b3 = choose|s: u8|
                self.log() == log3 + #[trigger] mode_txns(a, device_mode, s);
            assert(self.log() =~= log0 + pressure_oversample_txns(
                a,
                oversampling_code(rate),
                b1,
                b2,
                bf,
                b3,
            ));
        }
        Ok(())
    }

    /// Read-modify-write the standby-time field; it is not latched during
    /// sampling, so no quiesce is needed.
    pub fn set_standby_time(&mut self, standby: StandyTime) -> (r: Result<(), BME280Error>)
        ensures
            final(self).addr() == old(self).addr(),
            final(self).t_fine() == old(self).t_fine(),
            final(self).calibration() == old(self).calibration(),
            match r {
                Ok(_) => exists|s: u8|
                    final(self).log() == old(self).log() + #[trigger] standby_txns(
                        old(self).addr(),
                        standby_code(standby),
                        s,
                    ),
                Err(e) => e == BME280Error::IOError && old(self).log().is_prefix_of(
                    final(self).log(),
                ),
            },
    {
        let code = standby.encode();
        match i2c::write_standby_time(&mut self.dev, code) {
            Ok(_) => {
                proof {
                    let s = choose|s: u8|
                        self.log() == old(self).log().push(
                            #[trigger] rd1(old(self).addr(), constants::CONFIG_REG, s),
                        ).push(
                            wr1(
                                old(self).addr(),
                                constants::CONFIG_REG,
                                (s & 0x1F) | (code << 5),
                            ),
                        );
                    assert(self.log() =~= old(self).log() + standby_txns(
                        old(self).addr(),
                        code,
                        s,
                    ));
                }
                Ok(())
            },
            Err(_) => Err(BME280Error::IOError),
        }
    }

    /// Read-modify-write the filter field; it is not latched during
    /// sampling, so no quiesce is needed.
    pub fn set_filter(&mut self, filter: Filter) -> (r: Result<(), BME280Error>)
        ensures
            final(self).addr() == old(self).addr(),
            final(self).t_fine() == old(self).t_fine(),
            final(self).calibration() == old(self).calibration(),
            match r {
                Ok(_) => exists|s: u8|
                    final(self).log() == old(self).log() + #[trigger] filter_txns(
                        old(self).addr(),
                        filter_code(filter),
                        s,
                    ),
                Err(e) => e == BME280Error::IOError && old(self).log().is_prefix_of(
                    final(self).log(),
                ),
            },
    {
        let code = filter.encode();
        match i2c::write_filter(&mut self.dev, code) {
            Ok(_) => {
                proof {
                    let s = choose|s: u8|
                        self.log() == old(self).log().push(
                            #[trigger] rd1(old(self).addr(), constants::CONFIG_REG, s),
                        ).push(
                            wr1(
                                old(self).addr(),
                                constants::CONFIG_REG,
                                (s & 0xE3) | (code << 2),
                            ),
                        );
                    assert(self.log() =~= old(self).log() + filter_txns(
                        old(self).addr(),
                        code,
                        s,
                    ));
                }
                Ok(())
            },
            Err(_) => Err(BME280Error::IOError),
        }
    }

    /// Measure temperature: read the three temperature ADC registers,
    /// compensate the sample, store the new `t_fine`, and return the
    /// temperature in hundredths of a degree Celsius.
    pub fn get_temperature_scaled(&mut self) -> (r: Result<i32, BME280Error>)
        requires
            old(self).wf(),
        ensures
            final(self).wf(),
            final(self).addr() == old(self).addr(),
            final(self).calibration() == old(self).calibration(),
            match r {
                Ok(t) => exists|b0: u8, b1: u8, b2: u8|
                    {
                        &&& final(self).log() == old(self).log().push(
                            rd1(old(self).addr(), constants::TEMPERATURE_MSB_REG, b0),
                        ).push(rd1(old(self).addr(), constants::TEMPERATURE_LSB_REG, b1)).push(
                            rd1(old(self).addr(), constants::TEMPERATURE_XLSB_REG, b2),
                        )
                        &&& final(self).t_fine() == spec_t_fine(
                            old(self).calibration().temperature.t1() as int,
                            old(self).calibration().temperature.t2() as int,
                            old(self).calibration().temperature.t3() as int,
                            #[trigger] i2c::raw20(b0, b1, b2) as int,
                        )
                        &&& t == (final(self).t_fine() * 5 + 128) / 256
                    },
                Err(e) => e == BME280Error::IOError && final(self).t_fine() == old(
                    self,
                ).t_fine() && old(self).log().is_prefix_of(final(self).log()),
            },
    {
        let adc_t = match i2c::get_temperature_raw(&mut self.dev) {
            Ok(v) => v,
            Err(_) => {
                return Err(BME280Error::IOError);
            },
        };
        let t_fine = self.calibration.temperature.compensate_temperature(adc_t as i32);
        self.t_fine = t_fine;
        let output = div_floor((t_fine as i128) * 5 + 128, 256) as i32;
        Ok(output)
    }

    /// Measure pressure: read the three pressure ADC registers, compensate
    /// the sample against the most recent `t_fine`, and return pressure in
    /// units of 1/256 pascal.
    pub fn get_pressure_scaled(&mut self) -> (r: Result<u32, BME280Error>)
        requires
            old(self).wf(),
        ensures
            final(self).wf(),
            final(self).addr() == old(self).addr(),
            final(self).calibration() == old(self).calibration(),
            final(self).t_fine() == old(self).t_fine(),
            match r {
                Ok(p) => exists|b0: u8, b1: u8, b2: u8|
                    {
                        &&& final(self).log() == old(self).log().push(
                            rd1(old(self).addr(), constants::PRESSURE_MSB_REG, b0),
                        ).push(rd1(old(self).addr(), constants::PRESSURE_LSB_REG, b1)).push(
                            rd1(old(self).addr(), constants::PRESSURE_XLSB_REG, b2),
                        )
                        &&& p == old(self).calibration().pressure.spec_compensate(
                            #[trigger] i2c::raw20(b0, b1, b2) as int,
                            old(self).t_fine() as int,
                        )
                    },
                Err(e) => e == BME280Error::IOError && old(self).log().is_prefix_of(
                    final(self).log(),
                ),
            },
    {
        let adc_p = match i2c::get_pressure_raw(&mut self.dev) {
            Ok(v) => v,
            Err(_) => {
                return Err(BME280Error::IOError);
            },
        };
        let pressure = self.calibration.pressure.compensate_pressure(adc_p as i32, self.t_fine);
        Ok(pressure)
    }

    /// Measure humidity: read the two humidity ADC registers, compensate
    /// the sample against the most recent `t_fine`, and return relative
    /// humidity in units of 1/1024 percent.
    pub fn get_humidity_scaled(&mut self) -> (r: Result<u32, BME280Error>)
        requires
            old(self).wf(),
        ensures
            final(self).wf(),
            final(self).addr() == old(self).addr(),
            final(self).calibration() == old(self).calibration(),
            final(self).t_fine() == old(self).t_fine(),
            match r {
                Ok(h) => h <= 102400 && exists|b0: u8, b1: u8|
                    {
                        &&& final(self).log() == old(self).log().push(
                            rd1(old(self).addr(), constants::HUMIDITY_MSB_REG, b0),
                        ).push(rd1(old(self).addr(), constants::HUMIDITY_LSB_REG, b1))
                        &&& h == old(self).calibration().humidity.spec_compensate(
                            #[trigger] i2c::raw16(b0, b1) as int,
                            old(self).t_fine() as int,
                        )
                    },
                Err(e) => e == BME280Error::IOError && old(self).log().is_prefix_of(
                    final(self).log(),
                ),
            },
    {
        let adc_h = match i2c::get_humidity_raw(&mut self.dev) {
            Ok(v) => v,
            Err(_) => {
                return Err(BME280Error::IOError);
            },
        };
        let humidity = self.calibration.humidity.compensate_humidity(adc_h as i32, self.t_fine);
        Ok(humidity)
    }
}

} // verus!
