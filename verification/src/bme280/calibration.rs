use vstd::arithmetic::div_mod::{
    lemma_fundamental_div_mod, lemma_fundamental_div_mod_converse, lemma_mod_division_less_than_divisor,
};
use vstd::math::abs;
use vstd::prelude::*;

use crate::bme280::constants;
use crate::bme280::i2c::read_register_byte;
use crate::protocols::i2c::{rd1, I2CError, I2CWrapper, I2cTransport, Txn};

verus! {

/// The value of a 16-bit word reinterpreted as two's-complement signed.
pub open spec fn sgn16(u: int) -> int {
    if u >= 32768 {
        u - 65536
    } else {
        u
    }
}

/// The value of an 8-bit byte reinterpreted as two's-complement signed.
pub open spec fn sgn8(u: int) -> int {
    if u >= 128 {
        u - 256
    } else {
        u
    }
}

/// A 16-bit word assembled little-endian from two register bytes.
pub open spec fn le16(lsb: u8, msb: u8) -> int {
    msb * 256 + lsb
}

/// Truncating division, as machine division rounds: toward zero.
pub open spec fn spec_tdiv(a: int, b: int) -> int {
    if b == 0 {
        0
    } else if a >= 0 {
        if b > 0 {
            a / b
        } else {
            -(a / -b)
        }
    } else {
        if b > 0 {
            -(-a / b)
        } else {
            -a / -b
        }
    }
}

/// Flooring division by a positive divisor, computed in unsigned arithmetic.
/// Matches what an arithmetic right shift by `log2(d)` computes.
pub(crate) fn div_floor(x: i128, d: i128) -> (r: i128)
    requires
        1 <= d <= 0x1000000000000,
        x >= -0x7fffffffffffffffffffffffffffffffi128,
    ensures
        r == x as int / d as int,
        d * r <= x < d * (r + 1),
{
    let r = if x >= 0 {
        let q = (x as u128) / (d as u128);
        proof {
            vstd::arithmetic::div_mod::lemma_div_nonincreasing(x as int, d as int);
            vstd::arithmetic::div_mod::lemma_div_pos_is_pos(x as int, d as int);
        }
        q as i128
    } else {
        let n = (-x) as u128;
        let dd = d as u128;
        let q = (n + (dd - 1)) / dd;
        proof {
            let ni = n as int;
            let di = d as int;
            let q0 = (ni + di - 1) / di;
            lemma_fundamental_div_mod(ni + di - 1, di);
            lemma_mod_division_less_than_divisor(ni + di - 1, di);
            let r0 = (ni + di - 1) % di;
            assert(ni + di - 1 == di * q0 + r0);
            assert(x as int == (-q0) * di + ((di - 1) - r0)) by (nonlinear_arith)
                requires
                    ni + di - 1 == di * q0 + r0,
                    x as int == -ni,
            ;
            lemma_fundamental_div_mod_converse(x as int, di, -q0, (di - 1) - r0);
            assert(x as int / di == -q0);
            assert(q0 <= ni) by (nonlinear_arith)
                requires
                    di * q0 + r0 == ni + di - 1,
                    r0 >= 0,
                    di >= 1,
                    ni >= 0,
            ;
        }
        -(q as i128)
    };
    proof {
        lemma_fundamental_div_mod(x as int, d as int);
        lemma_mod_division_less_than_divisor(x as int, d as int);
        assert(d * (r + 1) == d * r + d) by (nonlinear_arith);
    }
    r
}

/// Truncating division, as the machine's signed division rounds.
fn tdiv(a: i128, b: i128) -> (r: i128)
    requires
        b != 0,
        a >= -0x7fffffffffffffffffffffffffffffffi128,
        b >= -0x7fffffffffffffffffffffffffffffffi128,
    ensures
        r == spec_tdiv(a as int, b as int),
        -abs(a as int) <= r <= abs(a as int),
{
    let negate = (a < 0) != (b < 0);
    let ua = if a >= 0 {
        a as u128
    } else {
        (-a) as u128
    };
    let ub = if b >= 0 {
        b as u128
    } else {
        (-b) as u128
    };
    let q = ua / ub;
    proof {
        vstd::arithmetic::div_mod::lemma_div_nonincreasing(ua as int, ub as int);
        vstd::arithmetic::div_mod::lemma_div_pos_is_pos(ua as int, ub as int);
    }
    let qi = q as i128;
    if negate {
        -qi
    } else {
        qi
    }
}

/// The product of two values bounded in magnitude is bounded by the product
/// of the bounds.
proof fn lemma_mul_abs_bound(a: int, b: int, aa: int, bb: int)
    by (nonlinear_arith)
    requires
        -aa <= a <= aa,
        -bb <= b <= bb,
    ensures
        -(aa * bb) <= a * b <= aa * bb,
{
}

/// The temperature-compensation intermediate `t_fine`, as the datasheet's
/// fixed-point algorithm defines it: every right shift of the algorithm is
/// a flooring division by the matching power of two.
pub open spec fn spec_t_fine(t1: int, t2: int, t3: int, adc_t: int) -> int {
    let var1 = ((adc_t / 8 - t1 * 2) * t2) / 2048;
    let var2 = ((((adc_t / 16 - t1) * (adc_t / 16 - t1)) / 4096) * t3) / 16384;
    var1 + var2
}

/// Every `t_fine` that temperature compensation can produce lies in this
/// range; pressure and humidity compensation rely on it.
pub open spec fn t_fine_in_range(t: int) -> bool {
    -4200000 <= t <= 4200000
}

/// The transactions of the pressure-calibration read sequence, in the
/// exact order `build` issues them, answered by the eighteen bytes of `bs`.
pub open spec fn pressure_read_txns(a: u8, bs: Seq<u8>) -> Seq<Txn> {
    seq![
        rd1(a, constants::DIG_P1_LSB_REG, bs[0]),
        rd1(a, constants::DIG_P1_MSB_REG, bs[1]),
        rd1(a, constants::DIG_P2_LSB_REG, bs[2]),
        rd1(a, constants::DIG_P2_MSB_REG, bs[3]),
        rd1(a, constants::DIG_P3_LSB_REG, bs[4]),
        rd1(a, constants::DIG_P3_MSB_REG, bs[5]),
        rd1(a, constants::DIG_P4_LSB_REG, bs[6]),
        rd1(a, constants::DIG_P4_MSB_REG, bs[7]),
        rd1(a, constants::DIG_P5_LSB_REG, bs[8]),
        rd1(a, constants::DIG_P5_MSB_REG, bs[9]),
        rd1(a, constants::DIG_P6_LSB_REG, bs[10]),
        rd1(a, constants::DIG_P6_MSB_REG, bs[11]),
        rd1(a, constants::DIG_P7_LSB_REG, bs[12]),
        rd1(a, constants::DIG_P7_MSB_REG, bs[13]),
        rd1(a, constants::DIG_P8_LSB_REG, bs[14]),
        rd1(a, constants::DIG_P8_MSB_REG, bs[15]),
        rd1(a, constants::DIG_P9_LSB_REG, bs[16]),
        rd1(a, constants::DIG_P9_MSB_REG, bs[17]),
    ]
}

/// The pressure constants that the eighteen calibration bytes of `bs` encode.
pub open spec fn pressure_fields(c: PressureCalibration, bs: Seq<u8>) -> bool {
    &&& c.p1() as int == le16(bs[0], bs[1])
    &&& c.p2() as int == sgn16(le16(bs[2], bs[3]))
    &&& c.p3() as int == sgn16(le16(bs[4], bs[5]))
    &&& c.p4() as int == sgn16(le16(bs[6], bs[7]))
    &&& c.p5() as int == sgn16(le16(bs[8], bs[9]))
    &&& c.p6() as int == sgn16(le16(bs[10], bs[11]))
    &&& c.p7() as int == sgn16(le16(bs[12], bs[13]))
    &&& c.p8() as int == sgn16(le16(bs[14], bs[15]))
    &&& c.p9() as int == sgn16(le16(bs[16], bs[17]))
}

/// The denominator of the pressure-compensation formula: the intentional
/// zero sentinel of the algorithm. A zero denominator makes the compensated
/// pressure exactly zero instead of dividing.
pub open spec fn spec_pressure_denominator(p1: int, p2: int, p3: int, t_fine: int) -> int {
    let v1 = t_fine - 128000;
    let v1b = (v1 * v1 * p3) / 256 + (v1 * p2) * 4096;
    ((140737488355328 + v1b) * p1) / 8589934592
}

/// The compensated pressure, as the datasheet's 64-bit fixed-point algorithm
/// defines it: right shifts are flooring divisions by powers of two, the one
/// genuine division truncates toward zero as machine division does, and the
/// result is the low 32 bits of the final value.
pub open spec fn spec_pressure(
    p1: int,
    p2: int,
    p3: int,
    p4: int,
    p5: int,
    p6: int,
    p7: int,
    p8: int,
    p9: int,
    adc_p: int,
    t_fine: int,
) -> int {
    let v1 = t_fine - 128000;
    let v2 = v1 * v1 * p6 + (v1 * p5) * 131072 + p4 * 34359738368;
    let den = spec_pressure_denominator(p1, p2, p3, t_fine);
    if den == 0 {
        0
    } else {
        let pb = spec_tdiv(((1048576 - adc_p) * 2147483648 - v2) * 3125, den);
        let q13 = pb / 8192;
        let va = (p9 * q13 * q13) / 33554432;
        let vb = (p8 * pb) / 524288;
        let pc = (pb + va + vb) / 256 + p7 * 16;
        pc % 4294967296
    }
}

/// The transactions of the temperature-calibration read sequence, in the
/// exact order `build` issues them, answered by the six bytes of `bs`.
pub open spec fn temperature_read_txns(a: u8, bs: Seq<u8>) -> Seq<Txn> {
    seq![
        rd1(a, constants::DIG_T1_LSB_REG, bs[0]),
        rd1(a, constants::DIG_T1_MSB_REG, bs[1]),
        rd1(a, constants::DIG_T2_LSB_REG, bs[2]),
        rd1(a, constants::DIG_T2_MSB_REG, bs[3]),
        rd1(a, constants::DIG_T3_LSB_REG, bs[4]),
        rd1(a, constants::DIG_T3_MSB_REG, bs[5]),
    ]
}

/// The temperature constants that the six calibration bytes of `bs` encode.
pub open spec fn temperature_fields(c: TemperatureCalibration, bs: Seq<u8>) -> bool {
    &&& c.t1() as int == le16(bs[0], bs[1])
    &&& c.t2() as int == sgn16(le16(bs[2], bs[3]))
    &&& c.t3() as int == sgn16(le16(bs[4], bs[5]))
}

/// Read a 16-bit word little-endian: the byte at the numerically lower
/// register address is the low byte. Each byte is fetched in its own
/// transaction.
fn read_u16_le<T: I2cTransport>(dev: &mut I2CWrapper<T>, lsb_reg: u8, msb_reg: u8) -> (r: Result<
    u16,
    I2CError,
>)
    ensures
        final(dev).addr() == old(dev).addr(),
        match r {
            Ok(v) => exists|l: u8, m: u8|
                final(dev).log() == old(dev).log().push(rd1(old(dev).addr(), lsb_reg, l)).push(
                    rd1(old(dev).addr(), msb_reg, m),
                ) && v as int == #[trigger] le16(l, m),
            Err(e) => e == I2CError::IOError && old(dev).log().is_prefix_of(final(dev).log()),
        },
{
    let l = read_register_byte(dev, lsb_reg)?;
    let m = read_register_byte(dev, msb_reg)?;
    let v: u16 = (m as u16) * 256 + (l as u16);
    proof {
        assert(v as int == le16(l, m));
    }
    Ok(v)
}

/// Read a 16-bit word little-endian and reinterpret it as signed.
fn read_i16_le<T: I2cTransport>(dev: &mut I2CWrapper<T>, lsb_reg: u8, msb_reg: u8) -> (r: Result<
    i16,
    I2CError,
>)
    ensures
        final(dev).addr() == old(dev).addr(),
        match r {
            Ok(v) => exists|l: u8, m: u8|
                final(dev).log() == old(dev).log().push(rd1(old(dev).addr(), lsb_reg, l)).push(
                    rd1(old(dev).addr(), msb_reg, m),
                ) && v as int == sgn16(#[trigger] le16(l, m)),
            Err(e) => e == I2CError::IOError && old(dev).log().is_prefix_of(final(dev).log()),
        },
{
    let u = read_u16_le(dev, lsb_reg, msb_reg)?;
    let s: i32 = if u >= 32768 {
        (u as i32) - 65536
    } else {
        u as i32
    };
    proof {
        let (l, m) = choose|l: u8, m: u8|
            dev.log() == old(dev).log().push(rd1(old(dev).addr(), lsb_reg, l)).push(
                rd1(old(dev).addr(), msb_reg, m),
            ) && u as int == #[trigger] le16(l, m);
        assert(s as int == sgn16(le16(l, m)));
    }
    Ok(s as i16)
}

/// The temperature calibration constants of one device.
pub struct TemperatureCalibration {
    t1: u16,
    t2: i16,
    t3: i16,
}

impl TemperatureCalibration {
    pub closed spec fn t1(&self) -> u16 {
        self.t1
    }

    pub closed spec fn t2(&self) -> i16 {
        self.t2
    }

    pub closed spec fn t3(&self) -> i16 {
        self.t3
    }

    pub fn new(t1: u16, t2: i16, t3: i16) -> (r: TemperatureCalibration)
        ensures
            r.t1() == t1,
            r.t2() == t2,
            r.t3() == t3,
    {
        TemperatureCalibration { t1, t2, t3 }
    }

    /// Acquire the temperature constants by the fixed read sequence.
    fn build<T: I2cTransport>(dev: &mut I2CWrapper<T>) -> (r: Result<
        TemperatureCalibration,
        I2CError,
    >)
        ensures
            final(dev).addr() == old(dev).addr(),
            match r {
                Ok(c) => exists|bs: Seq<u8>|
                    bs.len() == 6 && final(dev).log() == old(dev).log()
                        + #[trigger] temperature_read_txns(old(dev).addr(), bs)
                        && temperature_fields(c, bs),
                Err(e) => e == I2CError::IOError && old(dev).log().is_prefix_of(final(dev).log()),
            },
    {
        let t1 = Self::read_register_t1(dev)?;
        let ghost log1 = dev.log();
        let t2 = Self::read_register_t2(dev)?;
        let ghost log2 = dev.log();
        let t3 = Self::read_register_t3(dev)?;
        let c = Self::new(t1, t2, t3);
        proof {
            let a = old(dev).addr();
            let (l0, m0) = choose|l: u8, m: u8|
                log1 == old(dev).log().push(rd1(a, constants::DIG_T1_LSB_REG, l)).push(
                    rd1(a, constants::DIG_T1_MSB_REG, m),
                ) && t1 as int == #[trigger] le16(l, m);
            let (l1, m1) = choose|l: u8, m: u8|
                log2 == log1.push(rd1(a, constants::DIG_T2_LSB_REG, l)).push(
                    rd1(a, constants::DIG_T2_MSB_REG, m),
                ) && t2 as int == sgn16(#[trigger] le16(l, m));
            let (l2, m2) = choose|l: u8, m: u8|
                dev.log() == log2.push(rd1(a, constants::DIG_T3_LSB_REG, l)).push(
                    rd1(a, constants::DIG_T3_MSB_REG, m),
                ) && t3 as int == sgn16(#[trigger] le16(l, m));
            let bs = seq![l0, m0, l1, m1, l2, m2];
            assert(dev.log() =~= old(dev).log() + temperature_read_txns(a, bs));
            assert(temperature_fields(c, bs));
        }
        Ok(c)
    }

    fn read_register_t1<T: I2cTransport>(dev: &mut I2CWrapper<T>) -> (r: Result<u16, I2CError>)
        ensures
            final(dev).addr() == old(dev).addr(),
            match r {
                Ok(v) => exists|l: u8, m: u8|
                    final(dev).log() == old(dev).log().push(
                        rd1(old(dev).addr(), constants::DIG_T1_LSB_REG, l),
                    ).push(rd1(old(dev).addr(), constants::DIG_T1_MSB_REG, m)) && v as int
                        == #[trigger] le16(l, m),
                Err(e) => e == I2CError::IOError && old(dev).log().is_prefix_of(final(dev).log()),
            },
    {
        read_u16_le(dev, constants::DIG_T1_LSB_REG, constants::DIG_T1_MSB_REG)
    }

    fn read_register_t2<T: I2cTransport>(dev: &mut I2CWrapper<T>) -> (r: Result<i16, I2CError>)
        ensures
            final(dev).addr() == old(dev).addr(),
            match r {
                Ok(v) => exists|l: u8, m: u8|
                    final(dev).log() == old(dev).log().push(
                        rd1(old(dev).addr(), constants::DIG_T2_LSB_REG, l),
                    ).push(rd1(old(dev).addr(), constants::DIG_T2_MSB_REG, m)) && v as int == sgn16(
                        #[trigger] le16(l, m),
                    ),
                Err(e) => e == I2CError::IOError && old(dev).log().is_prefix_of(final(dev).log()),
            },
    {
        read_i16_le(dev, constants::DIG_T2_LSB_REG, constants::DIG_T2_MSB_REG)
    }

    fn read_register_t3<T: I2cTransport>(dev: &mut I2CWrapper<T>) -> (r: Result<i16, I2CError>)
        ensures
            final(dev).addr() == old(dev).addr(),
            match r {
                Ok(v) => exists|l: u8, m: u8|
                    final(dev).log() == old(dev).log().push(
                        rd1(old(dev).addr(), constants::DIG_T3_LSB_REG, l),
                    ).push(rd1(old(dev).addr(), constants::DIG_T3_MSB_REG, m)) && v as int == sgn16(
                        #[trigger] le16(l, m),
                    ),
                Err(e) => e == I2CError::IOError && old(dev).log().is_prefix_of(final(dev).log()),
            },
    {
        read_i16_le(dev, constants::DIG_T3_LSB_REG, constants::DIG_T3_MSB_REG)
    }

    /// Convert a raw 20-bit temperature sample to the `t_fine` intermediate
    /// that pressure and humidity compensation consume.
    pub fn compensate_temperature(self: &Self, adc_t: i32) -> (r: i32)
        requires
            0 <= adc_t < 0x100000,
        ensures
            r == spec_t_fine(self.t1() as int, self.t2() as int, self.t3() as int, adc_t as int),
            t_fine_in_range(r as int),
    {
        let a: i128 = adc_t as i128;
        let t1: i128 = self.t1 as i128;
        let t2: i128 = self.t2 as i128;
        let t3: i128 = self.t3 as i128;
        let a8 = div_floor(a, 8);
        let d1 = a8 - t1 * 2;
        proof {
            assert(0 <= a8 <= 131071);
            assert(-131070 <= d1 <= 131071);
            lemma_mul_abs_bound(d1 as int, t2 as int, 131071, 32768);
        }
        let m1 = d1 * t2;
        let var1 = div_floor(m1, 2048);
        let a16 = div_floor(a, 16);
        let d2 = a16 - t1;
        proof {
            assert(0 <= a16 <= 65535);
            assert(-65535 <= d2 <= 65535);
            assert(-2097137 <= var1 <= 2097137);
            lemma_mul_abs_bound(d2 as int, d2 as int, 65535, 65535);
        }
        let m2 = d2 * d2;
        let sq = div_floor(m2, 4096);
        proof {
            assert(-1048545 <= sq <= 1048545);
            lemma_mul_abs_bound(sq as int, t3 as int, 1048545, 32768);
        }
        let m3 = sq * t3;
        let var2 = div_floor(m3, 16384);
        proof {
            assert(-2097095 <= var2 <= 2097095);
        }
        let t_fine = var1 + var2;
        proof {
            assert(t_fine == spec_t_fine(
                self.t1() as int,
                self.t2() as int,
                self.t3() as int,
                adc_t as int,
            ));
        }
        t_fine as i32
    }
}

/// The pressure calibration constants of one device.
pub struct PressureCalibration {
    p1: u16,
    p2: i16,
    p3: i16,
    p4: i16,
    p5: i16,
    p6: i16,
    p7: i16,
    p8: i16,
    p9: i16,
}

impl PressureCalibration {
    pub closed spec fn p1(&self) -> u16 {
        self.p1
    }

    pub closed spec fn p2(&self) -> i16 {
        self.p2
    }

    pub closed spec fn p3(&self) -> i16 {
        self.p3
    }

    pub closed spec fn p4(&self) -> i16 {
        self.p4
    }

    pub closed spec fn p5(&self) -> i16 {
        self.p5
    }

    pub closed spec fn p6(&self) -> i16 {
        self.p6
    }

    pub closed spec fn p7(&self) -> i16 {
        self.p7
    }

    pub closed spec fn p8(&self) -> i16 {
        self.p8
    }

    pub closed spec fn p9(&self) -> i16 {
        self.p9
    }

    /// The compensated pressure this calibration gives, over the model
    /// values of its constants.
    pub open spec fn spec_compensate(&self, adc_p: int, t_fine: int) -> int {
        spec_pressure(
            self.p1() as int,
            self.p2() as int,
            self.p3() as int,
            self.p4() as int,
            self.p5() as int,
            self.p6() as int,
            self.p7() as int,
            self.p8() as int,
            self.p9() as int,
            adc_p,
            t_fine,
        )
    }

    pub fn new(
        p1: u16,
        p2: i16,
        p3: i16,
        p4: i16,
        p5: i16,
        p6: i16,
        p7: i16,
        p8: i16,
        p9: i16,
    ) -> (r: PressureCalibration)
        ensures
            r.p1() == p1,
            r.p2() == p2,
            r.p3() == p3,
            r.p4() == p4,
            r.p5() == p5,
            r.p6() == p6,
            r.p7() == p7,
            r.p8() == p8,
            r.p9() == p9,
    {
        PressureCalibration { p1, p2, p3, p4, p5, p6, p7, p8, p9 }
    }


    /// Acquire the pressure constants by the fixed read sequence.
    fn build<T: I2cTransport>(dev: &mut I2CWrapper<T>) -> (r: Result<
        PressureCalibration,
        I2CError,
    >)
        ensures
            final(dev).addr() == old(dev).addr(),
            match r {
                Ok(c) => exists|bs: Seq<u8>|
                    bs.len() == 18 && final(dev).log() == old(dev).log()
                        + #[trigger] pressure_read_txns(old(dev).addr(), bs)
                        && pressure_fields(c, bs),
                Err(e) => e == I2CError::IOError && old(dev).log().is_prefix_of(final(dev).log()),
            },
    {
        let p1 = Self::read_register_p1(dev)?;
        let ghost log1 = dev.log();
        let p2 = Self::read_register_p2(dev)?;
        let ghost log2 = dev.log();
        let p3 = Self::read_register_p3(dev)?;
        let ghost log3 = dev.log();
        let p4 = Self::read_register_p4(dev)?;
        let ghost log4 = dev.log();
        let p5 = Self::read_register_p5(dev)?;
        let ghost log5 = dev.log();
        let p6 = Self::read_register_p6(dev)?;
        let ghost log6 = dev.log();
        let p7 = Self::read_register_p7(dev)?;
        let ghost log7 = dev.log();
        let p8 = Self::read_register_p8(dev)?;
        let ghost log8 = dev.log();
        let p9 = Self::read_register_p9(dev)?;
        let c = Self::new(p1, p2, p3, p4, p5, p6, p7, p8, p9);
        proof {
            let a = old(dev).addr();
            let (l1, m1) = choose|l: u8, m: u8|
                log1 == old(dev).log().push(rd1(a, constants::DIG_P1_LSB_REG, l)).push(
                    rd1(a, constants::DIG_P1_MSB_REG, m),
                ) && p1 as int == #[trigger] le16(l, m);
            let (l2, m2) = choose|l: u8, m: u8|
                log2 == log1.push(rd1(a, constants::DIG_P2_LSB_REG, l)).push(
                    rd1(a, constants::DIG_P2_MSB_REG, m),
                ) && p2 as int == sgn16(#[trigger] le16(l, m));
            let (l3, m3) = choose|l: u8, m: u8|
                log3 == log2.push(rd1(a, constants::DIG_P3_LSB_REG, l)).push(
                    rd1(a, constants::DIG_P3_MSB_REG, m),
                ) && p3 as int == sgn16(#[trigger] le16(l, m));
            let (l4, m4) = choose|l: u8, m: u8|
                log4 == log3.push(rd1(a, constants::DIG_P4_LSB_REG, l)).push(
                    rd1(a, constants::DIG_P4_MSB_REG, m),
                ) && p4 as int == sgn16(#[trigger] le16(l, m));
            let (l5, m5) = choose|l: u8, m: u8|
                log5 == log4.push(rd1(a, constants::DIG_P5_LSB_REG, l)).push(
                    rd1(a, constants::DIG_P5_MSB_REG, m),
                ) && p5 as int == sgn16(#[trigger] le16(l, m));
            let (l6, m6) = choose|l: u8, m: u8|
                log6 == log5.push(rd1(a, constants::DIG_P6_LSB_REG, l)).push(
                    rd1(a, constants::DIG_P6_MSB_REG, m),
                ) && p6 as int == sgn16(#[trigger] le16(l, m));
            let (l7, m7) = choose|l: u8, m: u8|
                log7 == log6.push(rd1(a, constants::DIG_P7_LSB_REG, l)).push(
                    rd1(a, constants::DIG_P7_MSB_REG, m),
                ) && p7 as int == sgn16(#[trigger] le16(l, m));
            let (l8, m8) = choose|l: u8, m: u8|
                log8 == log7.push(rd1(a, constants::DIG_P8_LSB_REG, l)).push(
                    rd1(a, constants::DIG_P8_MSB_REG, m),
                ) && p8 as int == sgn16(#[trigger] le16(l, m));
            let (l9, m9) = choose|l: u8, m: u8|
                dev.log() == log8.push(rd1(a, constants::DIG_P9_LSB_REG, l)).push(
                    rd1(a, constants::DIG_P9_MSB_REG, m),
                ) && p9 as int == sgn16(#[trigger] le16(l, m));
            let bs = seq![l1, m1, l2, m2, l3, m3, l4, m4, l5, m5, l6, m6, l7, m7, l8, m8, l9, m9];
            assert(dev.log() =~= old(dev).log() + pressure_read_txns(a, bs));
            assert(pressure_fields(c, bs));
        }
        Ok(c)
    }

    fn read_register_p1<T: I2cTransport>(dev: &mut I2CWrapper<T>) -> (r: Result<u16, I2CError>)
        ensures
            final(dev).addr() == old(dev).addr(),
            match r {
                Ok(v) => exists|l: u8, m: u8|
                    final(dev).log() == old(dev).log().push(
                        rd1(old(dev).addr(), constants::DIG_P1_LSB_REG, l),
                    ).push(rd1(old(dev).addr(), constants::DIG_P1_MSB_REG, m)) && v as int
                        == #[trigger] le16(l, m),
                Err(e) => e == I2CError::IOError && old(dev).log().is_prefix_of(final(dev).log()),
            },
    {
        read_u16_le(dev, constants::DIG_P1_LSB_REG, constants::DIG_P1_MSB_REG)
    }

    fn read_register_p2<T: I2cTransport>(dev: &mut I2CWrapper<T>) -> (r: Result<i16, I2CError>)
        ensures
            final(dev).addr() == old(dev).addr(),
            match r {
                Ok(v) => exists|l: u8, m: u8|
                    final(dev).log() == old(dev).log().push(
                        rd1(old(dev).addr(), constants::DIG_P2_LSB_REG, l),
                    ).push(rd1(old(dev).addr(), constants::DIG_P2_MSB_REG, m)) && v as int == sgn16(
                        #[trigger] le16(l, m),
                    ),
                Err(e) => e == I2CError::IOError && old(dev).log().is_prefix_of(final(dev).log()),
            },
    {
        read_i16_le(dev, constants::DIG_P2_LSB_REG, constants::DIG_P2_MSB_REG)
    }

    fn read_register_p3<T: I2cTransport>(dev: &mut I2CWrapper<T>) -> (r: Result<i16, I2CError>)
        ensures
            final(dev).addr() == old(dev).addr(),
            match r {
                Ok(v) => exists|l: u8, m: u8|
                    final(dev).log() == old(dev).log().push(
                        rd1(old(dev).addr(), constants::DIG_P3_LSB_REG, l),
                    ).push(rd1(old(dev).addr(), constants::DIG_P3_MSB_REG, m)) && v as int == sgn16(
                        #[trigger] le16(l, m),
                    ),
                Err(e) => e == I2CError::IOError && old(dev).log().is_prefix_of(final(dev).log()),
            },
    {
        read_i16_le(dev, constants::DIG_P3_LSB_REG, constants::DIG_P3_MSB_REG)
    }

    fn read_register_p4<T: I2cTransport>(dev: &mut I2CWrapper<T>) -> (r: Result<i16, I2CError>)
        ensures
            final(dev).addr() == old(dev).addr(),
            match r {
                Ok(v) => exists|l: u8, m: u8|
                    final(dev).log() == old(dev).log().push(
                        rd1(old(dev).addr(), constants::DIG_P4_LSB_REG, l),
                    ).push(rd1(old(dev).addr(), constants::DIG_P4_MSB_REG, m)) && v as int == sgn16(
                        #[trigger] le16(l, m),
                    ),
                Err(e) => e == I2CError::IOError && old(dev).log().is_prefix_of(final(dev).log()),
            },
    {
        read_i16_le(dev, constants::DIG_P4_LSB_REG, constants::DIG_P4_MSB_REG)
    }

    fn read_register_p5<T: I2cTransport>(dev: &mut I2CWrapper<T>) -> (r: Result<i16, I2CError>)
        ensures
            final(dev).addr() == old(dev).addr(),
            match r {
                Ok(v) => exists|l: u8, m: u8|
                    final(dev).log() == old(dev).log().push(
                        rd1(old(dev).addr(), constants::DIG_P5_LSB_REG, l),
                    ).push(rd1(old(dev).addr(), constants::DIG_P5_MSB_REG, m)) && v as int == sgn16(
                        #[trigger] le16(l, m),
                    ),
                Err(e) => e == I2CError::IOError && old(dev).log().is_prefix_of(final(dev).log()),
            },
    {
        read_i16_le(dev, constants::DIG_P5_LSB_REG, constants::DIG_P5_MSB_REG)
    }

    fn read_register_p6<T: I2cTransport>(dev: &mut I2CWrapper<T>) -> (r: Result<i16, I2CError>)
        ensures
            final(dev).addr() == old(dev).addr(),
            match r {
                Ok(v) => exists|l: u8, m: u8|
                    final(dev).log() == old(dev).log().push(
                        rd1(old(dev).addr(), constants::DIG_P6_LSB_REG, l),
                    ).push(rd1(old(dev).addr(), constants::DIG_P6_MSB_REG, m)) && v as int == sgn16(
                        #[trigger] le16(l, m),
                    ),
                Err(e) => e == I2CError::IOError && old(dev).log().is_prefix_of(final(dev).log()),
            },
    {
        read_i16_le(dev, constants::DIG_P6_LSB_REG, constants::DIG_P6_MSB_REG)
    }

    fn read_register_p7<T: I2cTransport>(dev: &mut I2CWrapper<T>) -> (r: Result<i16, I2CError>)
        ensures
            final(dev).addr() == old(dev).addr(),
            match r {
                Ok(v) => exists|l: u8, m: u8|
                    final(dev).log() == old(dev).log().push(
                        rd1(old(dev).addr(), constants::DIG_P7_LSB_REG, l),
                    ).push(rd1(old(dev).addr(), constants::DIG_P7_MSB_REG, m)) && v as int == sgn16(
                        #[trigger] le16(l, m),
                    ),
                Err(e) => e == I2CError::IOError && old(dev).log().is_prefix_of(final(dev).log()),
            },
    {
        read_i16_le(dev, constants::DIG_P7_LSB_REG, constants::DIG_P7_MSB_REG)
    }

    fn read_register_p8<T: I2cTransport>(dev: &mut I2CWrapper<T>) -> (r: Result<i16, I2CError>)
        ensures
            final(dev).addr() == old(dev).addr(),
            match r {
                Ok(v) => exists|l: u8, m: u8|
                    final(dev).log() == old(dev).log().push(
                        rd1(old(dev).addr(), constants::DIG_P8_LSB_REG, l),
                    ).push(rd1(old(dev).addr(), constants::DIG_P8_MSB_REG, m)) && v as int == sgn16(
                        #[trigger] le16(l, m),
                    ),
                Err(e) => e == I2CError::IOError && old(dev).log().is_prefix_of(final(dev).log()),
            },
    {
        read_i16_le(dev, constants::DIG_P8_LSB_REG, constants::DIG_P8_MSB_REG)
    }

    fn read_register_p9<T: I2cTransport>(dev: &mut I2CWrapper<T>) -> (r: Result<i16, I2CError>)
        ensures
            final(dev).addr() == old(dev).addr(),
            match r {
                Ok(v) => exists|l: u8, m: u8|
                    final(dev).log() == old(dev).log().push(
                        rd1(old(dev).addr(), constants::DIG_P9_LSB_REG, l),
                    ).push(rd1(old(dev).addr(), constants::DIG_P9_MSB_REG, m)) && v as int == sgn16(
                        #[trigger] le16(l, m),
                    ),
                Err(e) => e == I2CError::IOError && old(dev).log().is_prefix_of(final(dev).log()),
            },
    {
        read_i16_le(dev, constants::DIG_P9_LSB_REG, constants::DIG_P9_MSB_REG)
    }

    /// Convert a raw 20-bit pressure sample to pressure in units of 1/256
    /// pascal, consuming the `t_fine` intermediate of the most recent
    /// temperature compensation. Returns exactly zero when the denominator
    /// of the algorithm is zero, never dividing by it.
    pub fn compensate_pressure(self: &Self, adc_p: i32, t_fine: i32) -> (r: u32)
        requires
            0 <= adc_p < 0x100000,
            t_fine_in_range(t_fine as int),
        ensures
            r == self.spec_compensate(adc_p as int, t_fine as int),
            spec_pressure_denominator(
                self.p1() as int,
                self.p2() as int,
                self.p3() as int,
                t_fine as int,
            ) == 0 ==> r == 0,
    {
        let p1: i128 = self.p1 as i128;
        let p2: i128 = self.p2 as i128;
        let p3: i128 = self.p3 as i128;
        let p4: i128 = self.p4 as i128;
        let p5: i128 = self.p5 as i128;
        let p6: i128 = self.p6 as i128;
        let p7: i128 = self.p7 as i128;
        let p8: i128 = self.p8 as i128;
        let p9: i128 = self.p9 as i128;
        let v1: i128 = (t_fine as i128) - 128000;
        proof {
            assert(-4328000 <= v1 <= 4328000);
            lemma_mul_abs_bound(v1 as int, v1 as int, 4328000, 4328000);
        }
        let v1sq = v1 * v1;
        proof {
            lemma_mul_abs_bound(v1sq as int, p6 as int, 18731584000000, 32768);
            lemma_mul_abs_bound(v1 as int, p5 as int, 4328000, 32768);
        }
        let m_p6 = v1sq * p6;
        let m_p5 = (v1 * p5) * 131072;
        let m_p4 = p4 * 34359738368;
        let v2 = m_p6 + m_p5 + m_p4;
        proof {
            assert(-634000000000000000 <= v2 <= 634000000000000000);
            lemma_mul_abs_bound(v1sq as int, p3 as int, 18731584000000, 32768);
            lemma_mul_abs_bound(v1 as int, p2 as int, 4328000, 32768);
        }
        let m_p3 = v1sq * p3;
        let t_a = div_floor(m_p3, 256);
        let m_p2 = (v1 * p2) * 4096;
        let v1b = t_a + m_p2;
        let s = 140737488355328 + v1b;
        proof {
            assert(-3120000000000000 <= s <= 3120000000000000);
            lemma_mul_abs_bound(s as int, p1 as int, 3120000000000000, 65535);
        }
        let m_p1 = s * p1;
        let den = div_floor(m_p1, 8589934592);
        if den == 0 {
            return 0;
        }
        let pa: i128 = 1048576 - (adc_p as i128);
        let m_a = pa * 2147483648;
        let num0 = m_a - v2;
        proof {
            assert(-637000000000000000 <= num0 <= 637000000000000000);
        }
        let num = num0 * 3125;
        let pb = tdiv(num, den);
        proof {
            assert(-1990625000000000000000 <= pb <= 1990625000000000000000);
        }
        let q13 = div_floor(pb, 8192);
        proof {
            assert(-242997000000000000 <= q13 <= 242997000000000000);
            lemma_mul_abs_bound(p9 as int, q13 as int, 32768, 242997000000000000);
        }
        let m_p9q = p9 * q13;
        // The square `m_p9q * q13` can exceed the machine word, so the
        // flooring division by 2^25 is distributed over the high and low
        // parts of `q13` first: for d > 0,
        // (a * (hi * d + lo)) / d == a * hi + (a * lo) / d.
        let q13_hi = div_floor(q13, 33554432);
        let q13_lo = q13 - q13_hi * 33554432;
        proof {
            assert(0 <= q13_lo < 33554432);
            assert(-7242000000000 <= q13_hi <= 7242000000000);
            lemma_mul_abs_bound(m_p9q as int, q13_hi as int, 7963000000000000000000, 7242000000000);
            lemma_mul_abs_bound(m_p9q as int, q13_lo as int, 7963000000000000000000, 33554432);
        }
        let t_hi = m_p9q * q13_hi;
        let m_lo = m_p9q * q13_lo;
        let t_lo = div_floor(m_lo, 33554432);
        let va = t_hi + t_lo;
        proof {
            let x = m_p9q as int * q13 as int;
            assert(x == t_hi as int * 33554432 + m_lo as int) by (nonlinear_arith)
                requires
                    x == m_p9q as int * q13 as int,
                    q13 as int == q13_hi as int * 33554432 + q13_lo as int,
                    t_hi as int == m_p9q as int * q13_hi as int,
                    m_lo as int == m_p9q as int * q13_lo as int,
            ;
            lemma_fundamental_div_mod(m_lo as int, 33554432);
            lemma_mod_division_less_than_divisor(m_lo as int, 33554432);
            assert(x == (t_hi as int + t_lo as int) * 33554432 + m_lo as int % 33554432)
                by (nonlinear_arith)
                requires
                    x == t_hi as int * 33554432 + m_lo as int,
                    m_lo as int == 33554432 * (t_lo as int) + m_lo as int % 33554432,
            ;
            lemma_fundamental_div_mod_converse(
                x,
                33554432,
                t_hi as int + t_lo as int,
                m_lo as int % 33554432,
            );
            assert(va == x / 33554432);
            lemma_mul_abs_bound(p8 as int, pb as int, 32768, 1990625000000000000000);
        }
        let m_p8 = p8 * pb;
        let vb = div_floor(m_p8, 524288);
        let sum = pb + va + vb;
        let t_c = div_floor(sum, 256);
        let pc = t_c + p7 * 16;
        let w = div_floor(pc, 4294967296);
        let m = pc - w * 4294967296;
        proof {
            assert(0 <= m < 4294967296);
            lemma_fundamental_div_mod(pc as int, 4294967296);
            assert(m == pc as int % 4294967296);
            assert(m == self.spec_compensate(adc_p as int, t_fine as int));
        }
        m as u32
    }
}

/// The transactions of the humidity-calibration read sequence, in the exact
/// order `build` issues them, answered by the eight bytes of `bs`. The byte
/// at the shared H4/H5 register is fetched once and both constants are
/// derived from it.
pub open spec fn humidity_read_txns(a: u8, bs: Seq<u8>) -> Seq<Txn> {
    seq![
        rd1(a, constants::DIG_H1_REG, bs[0]),
        rd1(a, constants::DIG_H2_LSB_REG, bs[1]),
        rd1(a, constants::DIG_H2_MSB_REG, bs[2]),
        rd1(a, constants::DIG_H3_REG, bs[3]),
        rd1(a, constants::DIG_H4_MSB_REG, bs[4]),
        rd1(a, constants::DIG_H4_LSB_REG, bs[5]),
        rd1(a, constants::DIG_H5_MSB_REG, bs[6]),
        rd1(a, constants::DIG_H6_REG, bs[7]),
    ]
}

/// The humidity constants that the eight calibration bytes of `bs` encode:
/// H4 takes the high byte shifted by a nibble plus the low nibble of the
/// shared byte, H5 takes its own high byte shifted by a nibble plus the high
/// nibble of the same shared byte, and H6 is reinterpreted as signed.
pub open spec fn humidity_fields(c: HumidityCalibration, bs: Seq<u8>) -> bool {
    &&& c.h1() == bs[0]
    &&& c.h2() as int == sgn16(le16(bs[1], bs[2]))
    &&& c.h3() == bs[3]
    &&& c.h4() as int == bs[4] * 16 + bs[5] as int % 16
    &&& c.h5() as int == bs[6] * 16 + bs[5] as int / 16
    &&& c.h6() as int == sgn8(bs[7] as int)
}

/// Assemble H4 from its high byte and the low nibble of the shared byte.
pub fn extract_h4(h4_msb: u8, h4_lsb: u8) -> (r: i16)
    ensures
        r == h4_msb * 16 + h4_lsb as int % 16,
        0 <= r < 4096,
{
    let v: u16 = ((h4_msb as u16) << 4) | ((h4_lsb as u16) & 0x0F);
    proof {
        assert((((h4_msb as u16) << 4) | ((h4_lsb as u16) & 0x0F)) == (h4_msb as u16) * 16 + (
        h4_lsb as u16) % 16 && (((h4_msb as u16) << 4) | ((h4_lsb as u16) & 0x0F))
            < 4096) by (bit_vector);
    }
    v as i16
}

/// Assemble H5 from its high byte and the high nibble of the shared byte.
pub fn extract_h5(h5_msb: u8, h4_lsb: u8) -> (r: i16)
    ensures
        r == h5_msb * 16 + h4_lsb as int / 16,
        0 <= r < 4096,
{
    let v: u16 = ((h5_msb as u16) << 4) | (((h4_lsb as u16) >> 4) & 0x0F);
    proof {
        assert((((h5_msb as u16) << 4) | (((h4_lsb as u16) >> 4) & 0x0F)) == (h5_msb as u16) * 16
            + (h4_lsb as u16) / 16 && (((h5_msb as u16) << 4) | (((h4_lsb as u16) >> 4) & 0x0F))
            < 4096) by (bit_vector);
    }
    v as i16
}

/// The compensated humidity, as the datasheet's 32-bit fixed-point algorithm
/// defines it, computed exactly: right shifts are flooring divisions by
/// powers of two, and the intermediate is clamped to [0, 419430400] before
/// the final division by 2^12.
pub open spec fn spec_humidity(
    h1: int,
    h2: int,
    h3: int,
    h4: int,
    h5: int,
    h6: int,
    adc_h: int,
    t_fine: int,
) -> int {
    let v = t_fine - 76800;
    let x = ((adc_h * 16384 - h4 * 1048576 - h5 * v + 16384) / 32768) * (((((v * h6 / 1024) * (v
        * h3 / 2048 + 32768)) / 1024 + 2097152) * h2 + 8192) / 16384);
    let y = x - ((x / 32768) * (x / 32768) / 128 * h1) / 16;
    let c = if y < 0 {
        0
    } else if y > 419430400 {
        419430400
    } else {
        y
    };
    c / 4096
}

/// The humidity calibration constants of one device.
pub struct HumidityCalibration {
    h1: u8,
    h2: i16,
    h3: u8,
    h4: i16,
    h5: i16,
    h6: i8,
}

impl HumidityCalibration {
    pub closed spec fn h1(&self) -> u8 {
        self.h1
    }

    pub closed spec fn h2(&self) -> i16 {
        self.h2
    }

    pub closed spec fn h3(&self) -> u8 {
        self.h3
    }

    pub closed spec fn h4(&self) -> i16 {
        self.h4
    }

    pub closed spec fn h5(&self) -> i16 {
        self.h5
    }

    pub closed spec fn h6(&self) -> i8 {
        self.h6
    }

    /// The compensated humidity this calibration gives, over the model
    /// values of its constants.
    pub open spec fn spec_compensate(&self, adc_h: int, t_fine: int) -> int {
        spec_humidity(
            self.h1() as int,
            self.h2() as int,
            self.h3() as int,
            self.h4() as int,
            self.h5() as int,
            self.h6() as int,
            adc_h,
            t_fine,
        )
    }

    pub fn new(h1: u8, h2: i16, h3: u8, h4: i16, h5: i16, h6: i8) -> (r: HumidityCalibration)
        ensures
            r.h1() == h1,
            r.h2() == h2,
            r.h3() == h3,
            r.h4() == h4,
            r.h5() == h5,
            r.h6() == h6,
    {
        HumidityCalibration { h1, h2, h3, h4, h5, h6 }
    }


    /// Acquire the humidity constants by the fixed read sequence, fetching
    /// the shared H4/H5 byte once and splitting its nibbles.
    pub fn build<T: I2cTransport>(dev: &mut I2CWrapper<T>) -> (r: Result<
        HumidityCalibration,
        I2CError,
    >)
        ensures
            final(dev).addr() == old(dev).addr(),
            match r {
                Ok(c) => exists|bs: Seq<u8>|
                    bs.len() == 8 && final(dev).log() == old(dev).log()
                        + #[trigger] humidity_read_txns(old(dev).addr(), bs)
                        && humidity_fields(c, bs),
                Err(e) => e == I2CError::IOError && old(dev).log().is_prefix_of(final(dev).log()),
            },
    {
        let h1 = read_register_byte(dev, constants::DIG_H1_REG)?;
        let ghost log1 = dev.log();
        let h2 = read_i16_le(dev, constants::DIG_H2_LSB_REG, constants::DIG_H2_MSB_REG)?;
        let ghost log2 = dev.log();
        let h3 = read_register_byte(dev, constants::DIG_H3_REG)?;
        let h4_msb = read_register_byte(dev, constants::DIG_H4_MSB_REG)?;
        let h4_lsb = read_register_byte(dev, constants::DIG_H4_LSB_REG)?;
        let h5_msb = read_register_byte(dev, constants::DIG_H5_MSB_REG)?;
        let h6_raw = read_register_byte(dev, constants::DIG_H6_REG)?;
        let h4 = extract_h4(h4_msb, h4_lsb);
        let h5 = extract_h5(h5_msb, h4_lsb);
        let h6s: i32 = if h6_raw >= 128 {
            (h6_raw as i32) - 256
        } else {
            h6_raw as i32
        };
        let c = Self::new(h1, h2, h3, h4, h5, h6s as i8);
        proof {
            let a = old(dev).addr();
            let (l, m) = choose|l: u8, m: u8|
                log2 == log1.push(rd1(a, constants::DIG_H2_LSB_REG, l)).push(
                    rd1(a, constants::DIG_H2_MSB_REG, m),
                ) && h2 as int == sgn16(#[trigger] le16(l, m));
            let bs = seq![h1, l, m, h3, h4_msb, h4_lsb, h5_msb, h6_raw];
            assert(dev.log() =~= old(dev).log() + humidity_read_txns(a, bs));
            assert(humidity_fields(c, bs));
        }
        Ok(c)
    }

    /// Convert a raw humidity sample to relative humidity in units of
    /// 1/1024 percent, consuming the `t_fine` intermediate of the most
    /// recent temperature compensation.
    pub fn compensate_humidity(self: &Self, adc_h: i32, t_fine: i32) -> (r: u32)
        requires
            0 <= adc_h < 0x10000,
            t_fine_in_range(t_fine as int),
        ensures
            r == self.spec_compensate(adc_h as int, t_fine as int),
            r <= 102400,
    {
        let h1: i128 = self.h1 as i128;
        let h2: i128 = self.h2 as i128;
        let h3: i128 = self.h3 as i128;
        let h4: i128 = self.h4 as i128;
        let h5: i128 = self.h5 as i128;
        let h6: i128 = self.h6 as i128;
        let v: i128 = (t_fine as i128) - 76800;
        proof {
            assert(-4280000 <= v <= 4280000);
            lemma_mul_abs_bound(h5 as int, v as int, 32768, 4280000);
        }
        let a14 = (adc_h as i128) * 16384;
        let h4m = h4 * 1048576;
        let h5v = h5 * v;
        let n1 = a14 - h4m - h5v + 16384;
        proof {
            assert(-176000000000 <= n1 <= 176000000000);
            lemma_mul_abs_bound(v as int, h6 as int, 4280000, 128);
            lemma_mul_abs_bound(v as int, h3 as int, 4280000, 255);
        }
        let t1h = div_floor(n1, 32768);
        let vh6 = v * h6;
        let u1 = div_floor(vh6, 1024);
        let vh3 = v * h3;
        let u2 = div_floor(vh3, 2048) + 32768;
        proof {
            assert(-535000 <= u1 <= 535000);
            assert(-500200 <= u2 <= 565700);
            lemma_mul_abs_bound(u1 as int, u2 as int, 535000, 565700);
        }
        let u3 = u1 * u2;
        let u4 = div_floor(u3, 1024) + 2097152;
        proof {
            assert(-293500000 <= u4 <= 297700000);
            lemma_mul_abs_bound(u4 as int, h2 as int, 297700000, 32768);
        }
        let u5 = u4 * h2;
        let u6 = div_floor(u5 + 8192, 16384);
        proof {
            assert(-5372000 <= t1h <= 5372000);
            assert(-596000000000 <= u6 <= 596000000000);
            lemma_mul_abs_bound(t1h as int, u6 as int, 5372000, 596000000000);
        }
        let x = t1h * u6;
        let x15 = div_floor(x, 32768);
        proof {
            assert(-97720000000000 <= x15 <= 97720000000000);
            lemma_mul_abs_bound(x15 as int, x15 as int, 97720000000000, 97720000000000);
        }
        let sqx = x15 * x15;
        let s7 = div_floor(sqx, 128);
        proof {
            assert(-74620000000000000000000000 <= s7 <= 74620000000000000000000000);
            lemma_mul_abs_bound(s7 as int, h1 as int, 74620000000000000000000000, 255);
        }
        let sh1 = s7 * h1;
        let s4 = div_floor(sh1, 16);
        let y = x - s4;
        let c: i128 = if y < 0 {
            0
        } else if y > 419430400 {
            419430400
        } else {
            y
        };
        let r = div_floor(c, 4096);
        proof {
            assert(0 <= r <= 102400);
            assert(r == self.spec_compensate(adc_h as int, t_fine as int));
        }
        r as u32
    }
}


/// The full calibration store of one device: built exactly once per device
/// handle, in temperature, pressure, humidity order, and never rebuilt.
pub struct Calibration {
    pub temperature: TemperatureCalibration,
    pub pressure: PressureCalibration,
    pub humidity: HumidityCalibration,
}

impl Calibration {
    pub fn new(
        temperature: TemperatureCalibration,
        pressure: PressureCalibration,
        humidity: HumidityCalibration,
    ) -> (r: Calibration)
        ensures
            r.temperature == temperature,
            r.pressure == pressure,
            r.humidity == humidity,
    {
        Calibration { temperature, pressure, humidity }
    }

    /// Acquire every calibration constant by one fixed sequence of
    /// single-register reads: temperature, then pressure, then humidity.
    pub fn build<T: I2cTransport>(dev: &mut I2CWrapper<T>) -> (r: Result<Calibration, I2CError>)
        ensures
            final(dev).addr() == old(dev).addr(),
            match r {
                Ok(c) => exists|bt: Seq<u8>, bp: Seq<u8>, bh: Seq<u8>|
                    #![trigger temperature_read_txns(old(dev).addr(), bt), pressure_read_txns(old(dev).addr(), bp), humidity_read_txns(old(dev).addr(), bh)]
                    {
                        &&& bt.len() == 6
                        &&& bp.len() == 18
                        &&& bh.len() == 8
                        &&& final(dev).log() == old(dev).log() + temperature_read_txns(
                            old(dev).addr(),
                            bt,
                        ) + pressure_read_txns(old(dev).addr(), bp) + humidity_read_txns(
                            old(dev).addr(),
                            bh,
                        )
                        &&& temperature_fields(c.temperature, bt)
                        &&& pressure_fields(c.pressure, bp)
                        &&& humidity_fields(c.humidity, bh)
                    },
                Err(e) => e == I2CError::IOError && old(dev).log().is_prefix_of(final(dev).log()),
            },
    {
        let temperature = TemperatureCalibration::build(dev)?;
        let ghost log1 = dev.log();
        let pressure = PressureCalibration::build(dev)?;
        let ghost log2 = dev.log();
        let humidity = HumidityCalibration::build(dev)?;
        let c = Self::new(temperature, pressure, humidity);
        proof {
            let a = old(dev).addr();
            let bt = choose|bs: Seq<u8>|
                bs.len() == 6 && log1 == old(dev).log() + #[trigger] temperature_read_txns(a, bs)
                    && temperature_fields(temperature, bs);
            let bp = choose|bs: Seq<u8>|
                bs.len() == 18 && log2 == log1 + #[trigger] pressure_read_txns(a, bs)
                    && pressure_fields(pressure, bs);
            let bh = choose|bs: Seq<u8>|
                bs.len() == 8 && dev.log() == log2 + #[trigger] humidity_read_txns(a, bs)
                    && humidity_fields(humidity, bs);
            assert(dev.log() == old(dev).log() + temperature_read_txns(a, bt) + pressure_read_txns(
                a,
                bp,
            ) + humidity_read_txns(a, bh));
        }
        Ok(c)
    }
}

} // verus!
