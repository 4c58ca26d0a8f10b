use vstd::prelude::*;

verus! {

pub const SOFT_RESET: u8 = 0xB6;

pub const CHIP_ID: u8 = 0x60;

pub const DEFAULT: u8 = 0x77;

pub const ALTERNATIVE: u8 = 0x76;

pub const DIG_T1_LSB_REG: u8 = 0x88;

pub const DIG_T1_MSB_REG: u8 = 0x89;

pub const DIG_T2_LSB_REG: u8 = 0x8A;

pub const DIG_T2_MSB_REG: u8 = 0x8B;

pub const DIG_T3_LSB_REG: u8 = 0x8C;

pub const DIG_T3_MSB_REG: u8 = 0x8D;

pub const DIG_P1_LSB_REG: u8 = 0x8E;

pub const DIG_P1_MSB_REG: u8 = 0x8F;

pub const DIG_P2_LSB_REG: u8 = 0x90;

pub const DIG_P2_MSB_REG: u8 = 0x91;

pub const DIG_P3_LSB_REG: u8 = 0x92;

pub const DIG_P3_MSB_REG: u8 = 0x93;

pub const DIG_P4_LSB_REG: u8 = 0x94;

pub const DIG_P4_MSB_REG: u8 = 0x95;

pub const DIG_P5_LSB_REG: u8 = 0x96;

pub const DIG_P5_MSB_REG: u8 = 0x97;

pub const DIG_P6_LSB_REG: u8 = 0x98;

pub const DIG_P6_MSB_REG: u8 = 0x99;

pub const DIG_P7_LSB_REG: u8 = 0x9A;

pub const DIG_P7_MSB_REG: u8 = 0x9B;

pub const DIG_P8_LSB_REG: u8 = 0x9C;

pub const DIG_P8_MSB_REG: u8 = 0x9D;

pub const DIG_P9_LSB_REG: u8 = 0x9E;

pub const DIG_P9_MSB_REG: u8 = 0x9F;

pub const DIG_H1_REG: u8 = 0xA1;

pub const DIG_H2_LSB_REG: u8 = 0xE1;

pub const DIG_H2_MSB_REG: u8 = 0xE2;

pub const DIG_H3_REG: u8 = 0xE3;

pub const DIG_H4_MSB_REG: u8 = 0xE4;

pub const DIG_H4_LSB_REG: u8 = 0xE5;

pub const DIG_H5_MSB_REG: u8 = 0xE6;

pub const DIG_H6_REG: u8 = 0xE7;

pub const TEMPERATURE_MSB_REG: u8 = 0xFA;

pub const TEMPERATURE_LSB_REG: u8 = 0xFB;

pub const TEMPERATURE_XLSB_REG: u8 = 0xFC;

pub const PRESSURE_MSB_REG: u8 = 0xF7;

pub const PRESSURE_LSB_REG: u8 = 0xF8;

pub const PRESSURE_XLSB_REG: u8 = 0xF9;

pub const HUMIDITY_MSB_REG: u8 = 0xFD;

pub const HUMIDITY_LSB_REG: u8 = 0xFE;

pub const CTRL_HUMIDITY_REG: u8 = 0xF2;

pub const STAT_REG: u8 = 0xF3;

pub const CTRL_MEAS_REG: u8 = 0xF4;

pub const CONFIG_REG: u8 = 0xF5;

pub const CHIP_ID_REG: u8 = 0xD0;

pub const RST_REG: u8 = 0xE0;

} // verus!
