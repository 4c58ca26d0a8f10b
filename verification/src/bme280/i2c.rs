use vstd::prelude::*;

use crate::bme280::constants;
use crate::protocols::i2c::{rd1, wr1, I2CError, I2CWrapper, I2cTransport, Txn};

verus! {

/// A 20-bit ADC sample assembled from MSB, LSB and the high nibble of XLSB.
pub open spec fn raw20(b0: u8, b1: u8, b2: u8) -> u32 {
    ((b0 as u32) << 12) | ((b1 as u32) << 4) | (((b2 as u32) >> 4) & 0x0F)
}

/// A humidity ADC sample assembled from MSB and LSB with the low nibble
/// dropped.
pub open spec fn raw16(b0: u8, b1: u8) -> u32 {
    ((b0 as u32) << 8) | ((b1 as u32) << 4)
}

/// Read one byte from one register.
pub fn read_register_byte<T: I2cTransport>(dev: &mut I2CWrapper<T>, register: u8) -> (r: Result<
    u8,
    I2CError,
>)
    ensures
        final(dev).addr() == old(dev).addr(),
        match r {
            Ok(b) => final(dev).log() == old(dev).log().push(rd1(old(dev).addr(), register, b)),
            Err(e) => e == I2CError::IOError && final(dev).log() == old(dev).log(),
        },
{
    let buffer = dev.read_from_register(register, 1)?;
    let b = buffer[0];
    proof {
        assert(buffer@ =~= seq![b]);
    }
    Ok(b)
}

/// Write one byte to one register.
pub fn write_register_byte<T: I2cTransport>(dev: &mut I2CWrapper<T>, register: u8, value: u8) -> (r:
    Result<(), I2CError>)
    ensures
        final(dev).addr() == old(dev).addr(),
        match r {
            Ok(_) => final(dev).log() == old(dev).log().push(
                wr1(old(dev).addr(), register, value),
            ),
            Err(e) => e == I2CError::IOError && final(dev).log() == old(dev).log(),
        },
{
    let mut payload: Vec<u8> = Vec::new();
    payload.push(value);
    proof {
        assert(seq![register] + payload@ =~= seq![register, value]);
    }
    dev.write_to_register(register, &payload)
}

/// Read the chip identification register.
pub fn read_id<T: I2cTransport>(dev: &mut I2CWrapper<T>) -> (r: Result<u8, I2CError>)
    ensures
        final(dev).addr() == old(dev).addr(),
        match r {
            Ok(b) => final(dev).log() == old(dev).log().push(
                rd1(old(dev).addr(), constants::CHIP_ID_REG, b),
            ),
            Err(e) => e == I2CError::IOError && final(dev).log() == old(dev).log(),
        },
{
    read_register_byte(dev, constants::CHIP_ID_REG)
}

/// Write the soft-reset command to the reset register.
pub fn write_reset<T: I2cTransport>(dev: &mut I2CWrapper<T>) -> (r: Result<(), I2CError>)
    ensures
        final(dev).addr() == old(dev).addr(),
        match r {
            Ok(_) => final(dev).log() == old(dev).log().push(
                wr1(old(dev).addr(), constants::RST_REG, constants::SOFT_RESET),
            ),
            Err(e) => e == I2CError::IOError && final(dev).log() == old(dev).log(),
        },
{
    write_register_byte(dev, constants::RST_REG, constants::SOFT_RESET)
}

/// Read the status register.
pub fn read_status<T: I2cTransport>(dev: &mut I2CWrapper<T>) -> (r: Result<u8, I2CError>)
    ensures
        final(dev).addr() == old(dev).addr(),
        match r {
            Ok(b) => final(dev).log() == old(dev).log().push(
                rd1(old(dev).addr(), constants::STAT_REG, b),
            ),
            Err(e) => e == I2CError::IOError && final(dev).log() == old(dev).log(),
        },
{
    read_register_byte(dev, constants::STAT_REG)
}

/// Read the measuring bit of the status register.
pub fn read_measuring_bit<T: I2cTransport>(dev: &mut I2CWrapper<T>) -> (r: Result<u8, I2CError>)
    ensures
        final(dev).addr() == old(dev).addr(),
        match r {
            Ok(b) => exists|s: u8|
                final(dev).log() == old(dev).log().push(
                    #[trigger] rd1(old(dev).addr(), constants::STAT_REG, s),
                ) && b == (s & 0x04) >> 2,
            Err(e) => e == I2CError::IOError && final(dev).log() == old(dev).log(),
        },
{
    let s = read_status(dev)?;
    Ok((s & 0x04) >> 2)
}

/// Read the register-update bit of the status register.
pub fn read_updating_bit<T: I2cTransport>(dev: &mut I2CWrapper<T>) -> (r: Result<u8, I2CError>)
    ensures
        final(dev).addr() == old(dev).addr(),
        match r {
            Ok(b) => exists|s: u8|
                final(dev).log() == old(dev).log().push(
                    #[trigger] rd1(old(dev).addr(), constants::STAT_REG, s),
                ) && b == s & 0x01,
            Err(e) => e == I2CError::IOError && final(dev).log() == old(dev).log(),
        },
{
    let s = read_status(dev)?;
    Ok(s & 0x01)
}

/// Read the two mode bits of the measurement-control register.
pub fn read_mode<T: I2cTransport>(dev: &mut I2CWrapper<T>) -> (r: Result<u8, I2CError>)
    ensures
        final(dev).addr() == old(dev).addr(),
        match r {
            Ok(b) => b <= 3 && exists|s: u8|
                final(dev).log() == old(dev).log().push(
                    #[trigger] rd1(old(dev).addr(), constants::CTRL_MEAS_REG, s),
                ) && b == s & 0x03,
            Err(e) => e == I2CError::IOError && final(dev).log() == old(dev).log(),
        },
{
    let s = read_register_byte(dev, constants::CTRL_MEAS_REG)?;
    proof {
        assert(s & 0x03 <= 3) by (bit_vector);
    }
    Ok(s & 0x03)
}

/// Read-modify-write the two mode bits of the measurement-control register.
pub fn write_mode<T: I2cTransport>(dev: &mut I2CWrapper<T>, mode: u8) -> (r: Result<(), I2CError>)
    requires
        mode <= 3,
    ensures
        final(dev).addr() == old(dev).addr(),
        match r {
            Ok(_) => exists|s: u8|
                final(dev).log() == old(dev).log().push(
                    #[trigger] rd1(old(dev).addr(), constants::CTRL_MEAS_REG, s),
                ).push(wr1(old(dev).addr(), constants::CTRL_MEAS_REG, (s & 0xFC) | mode)),
            Err(e) => e == I2CError::IOError && old(dev).log().is_prefix_of(final(dev).log()),
        },
{
    let s = read_register_byte(dev, constants::CTRL_MEAS_REG)?;
    let new_state = (s & 0xFC) | mode;
    write_register_byte(dev, constants::CTRL_MEAS_REG, new_state)
}

/// Read-modify-write the humidity-oversampling field: the three low bits
/// of the humidity-control register.
pub fn write_humidity_oversample<T: I2cTransport>(dev: &mut I2CWrapper<T>, rate: u8) -> (r: Result<
    (),
    I2CError,
>)
    requires
        rate <= 7,
    ensures
        final(dev).addr() == old(dev).addr(),
        match r {
            Ok(_) => exists|s: u8|
                final(dev).log() == old(dev).log().push(
                    #[trigger] rd1(old(dev).addr(), constants::CTRL_HUMIDITY_REG, s),
                ).push(wr1(old(dev).addr(), constants::CTRL_HUMIDITY_REG, (s & 0xF8) | rate)),
            Err(e) => e == I2CError::IOError && old(dev).log().is_prefix_of(final(dev).log()),
        },
{
    let s = read_register_byte(dev, constants::CTRL_HUMIDITY_REG)?;
    let new_state = (s & 0xF8) | rate;
    write_register_byte(dev, constants::CTRL_HUMIDITY_REG, new_state)
}

/// Read-modify-write the temperature-oversampling field: bits 7 to 5 of the
/// measurement-control register.
pub fn write_temperature_oversample<T: I2cTransport>(dev: &mut I2CWrapper<T>, rate: u8) -> (r:
    Result<(), I2CError>)
    requires
        rate <= 7,
    ensures
        final(dev).addr() == old(dev).addr(),
        match r {
            Ok(_) => exists|s: u8|
                final(dev).log() == old(dev).log().push(
                    #[trigger] rd1(old(dev).addr(), constants::CTRL_MEAS_REG, s),
                ).push(wr1(old(dev).addr(), constants::CTRL_MEAS_REG, (s & 0x1F) | (rate << 5))),
            Err(e) => e == I2CError::IOError && old(dev).log().is_prefix_of(final(dev).log()),
        },
{
    let s = read_register_byte(dev, constants::CTRL_MEAS_REG)?;
    let new_state = (s & 0x1F) | (rate << 5);
    write_register_byte(dev, constants::CTRL_MEAS_REG, new_state)
}

/// Read-modify-write the pressure-oversampling field: bits 4 to 2 of the
/// measurement-control register.
pub fn write_pressure_oversample<T: I2cTransport>(dev: &mut I2CWrapper<T>, rate: u8) -> (r: Result<
    (),
    I2CError,
>)
    requires
        rate <= 7,
    ensures
        final(dev).addr() == old(dev).addr(),
        match r {
            Ok(_) => exists|s: u8|
                final(dev).log() == old(dev).log().push(
                    #[trigger] rd1(old(dev).addr(), constants::CTRL_MEAS_REG, s),
                ).push(wr1(old(dev).addr(), constants::CTRL_MEAS_REG, (s & 0xE3) | (rate << 2))),
            Err(e) => e == I2CError::IOError && old(dev).log().is_prefix_of(final(dev).log()),
        },
{
    let s = read_register_byte(dev, constants::CTRL_MEAS_REG)?;
    let new_state = (s & 0xE3) | (rate << 2);
    write_register_byte(dev, constants::CTRL_MEAS_REG, new_state)
}

/// Read-modify-write the standby-time field: bits 7 to 5 of the
/// configuration register.
pub fn write_standby_time<T: I2cTransport>(dev: &mut I2CWrapper<T>, standby: u8) -> (r: Result<
    (),
    I2CError,
>)
    requires
        standby <= 7,
    ensures
        final(dev).addr() == old(dev).addr(),
        match r {
            Ok(_) => exists|s: u8|
                final(dev).log() == old(dev).log().push(
                    #[trigger] rd1(old(dev).addr(), constants::CONFIG_REG, s),
                ).push(wr1(old(dev).addr(), constants::CONFIG_REG, (s & 0x1F) | (standby << 5))),
            Err(e) => e == I2CError::IOError && old(dev).log().is_prefix_of(final(dev).log()),
        },
{
    let s = read_register_byte(dev, constants::CONFIG_REG)?;
    let new_state = (s & 0x1F) | (standby << 5);
    write_register_byte(dev, constants::CONFIG_REG, new_state)
}

/// Read-modify-write the filter-coefficient field: bits 4 to 2 of the
/// configuration register.
pub fn write_filter<T: I2cTransport>(dev: &mut I2CWrapper<T>, filter: u8) -> (r: Result<
    (),
    I2CError,
>)
    requires
        filter <= 7,
    ensures
        final(dev).addr() == old(dev).addr(),
        match r {
            Ok(_) => exists|s: u8|
                final(dev).log() == old(dev).log().push(
                    #[trigger] rd1(old(dev).addr(), constants::CONFIG_REG, s),
                ).push(wr1(old(dev).addr(), constants::CONFIG_REG, (s & 0xE3) | (filter << 2))),
            Err(e) => e == I2CError::IOError && old(dev).log().is_prefix_of(final(dev).log()),
        },
{
    let s = read_register_byte(dev, constants::CONFIG_REG)?;
    let new_state = (s & 0xE3) | (filter << 2);
    write_register_byte(dev, constants::CONFIG_REG, new_state)
}

/// Read the three temperature ADC registers and assemble the 20-bit sample.
pub fn get_temperature_raw<T: I2cTransport>(dev: &mut I2CWrapper<T>) -> (r: Result<u32, I2CError>)
    ensures
        final(dev).addr() == old(dev).addr(),
        match r {
            Ok(v) => v < 0x100000 && exists|b0: u8, b1: u8, b2: u8|
                final(dev).log() == old(dev).log().push(
                    rd1(old(dev).addr(), constants::TEMPERATURE_MSB_REG, b0),
                ).push(rd1(old(dev).addr(), constants::TEMPERATURE_LSB_REG, b1)).push(
                    rd1(old(dev).addr(), constants::TEMPERATURE_XLSB_REG, b2),
                ) && v == #[trigger] raw20(b0, b1, b2),
            Err(e) => e == I2CError::IOError && old(dev).log().is_prefix_of(final(dev).log()),
        },
{
    let b0 = read_register_byte(dev, constants::TEMPERATURE_MSB_REG)?;
    let b1 = read_register_byte(dev, constants::TEMPERATURE_LSB_REG)?;
    let b2 = read_register_byte(dev, constants::TEMPERATURE_XLSB_REG)?;
    let v = ((b0 as u32) << 12) | ((b1 as u32) << 4) | (((b2 as u32) >> 4) & 0x0F);
    proof {
        assert(((b0 as u32) << 12) | ((b1 as u32) << 4) | (((b2 as u32) >> 4) & 0x0F)
            < 0x100000) by (bit_vector);
        assert(v == raw20(b0, b1, b2));
    }
    Ok(v)
}

/// Read the three pressure ADC registers and assemble the 20-bit sample.
pub fn get_pressure_raw<T: I2cTransport>(dev: &mut I2CWrapper<T>) -> (r: Result<u32, I2CError>)
    ensures
        final(dev).addr() == old(dev).addr(),
        match r {
            Ok(v) => v < 0x100000 && exists|b0: u8, b1: u8, b2: u8|
                final(dev).log() == old(dev).log().push(
                    rd1(old(dev).addr(), constants::PRESSURE_MSB_REG, b0),
                ).push(rd1(old(dev).addr(), constants::PRESSURE_LSB_REG, b1)).push(
                    rd1(old(dev).addr(), constants::PRESSURE_XLSB_REG, b2),
                ) && v == #[trigger] raw20(b0, b1, b2),
            Err(e) => e == I2CError::IOError && old(dev).log().is_prefix_of(final(dev).log()),
        },
{
    let b0 = read_register_byte(dev, constants::PRESSURE_MSB_REG)?;
    let b1 = read_register_byte(dev, constants::PRESSURE_LSB_REG)?;
    let b2 = read_register_byte(dev, constants::PRESSURE_XLSB_REG)?;
    let v = ((b0 as u32) << 12) | ((b1 as u32) << 4) | (((b2 as u32) >> 4) & 0x0F);
    proof {
        assert(((b0 as u32) << 12) | ((b1 as u32) << 4) | (((b2 as u32) >> 4) & 0x0F)
            < 0x100000) by (bit_vector);
        assert(v == raw20(b0, b1, b2));
    }
    Ok(v)
}

/// Read the two humidity ADC registers and assemble the sample with its low
/// nibble dropped.
pub fn get_humidity_raw<T: I2cTransport>(dev: &mut I2CWrapper<T>) -> (r: Result<u32, I2CError>)
    ensures
        final(dev).addr() == old(dev).addr(),
        match r {
            Ok(v) => v < 0x10000 && exists|b0: u8, b1: u8|
                final(dev).log() == old(dev).log().push(
                    rd1(old(dev).addr(), constants::HUMIDITY_MSB_REG, b0),
                ).push(rd1(old(dev).addr(), constants::HUMIDITY_LSB_REG, b1)) && v == #[trigger] raw16(
                    b0,
                    b1,
                ),
            Err(e) => e == I2CError::IOError && old(dev).log().is_prefix_of(final(dev).log()),
        },
{
    let b0 = read_register_byte(dev, constants::HUMIDITY_MSB_REG)?;
    let b1 = read_register_byte(dev, constants::HUMIDITY_LSB_REG)?;
    let v = ((b0 as u32) << 8) | ((b1 as u32) << 4);
    proof {
        assert(((b0 as u32) << 8) | ((b1 as u32) << 4) < 0x10000) by (bit_vector);
        assert(v == raw16(b0, b1));
    }
    Ok(v)
}

} // verus!
