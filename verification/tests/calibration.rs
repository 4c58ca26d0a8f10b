use byteorder::{BigEndian, ByteOrder};

use hello_i2c::bme280::calibration::{
    extract_h4, extract_h5, HumidityCalibration, PressureCalibration, TemperatureCalibration,
};

fn create_temperature_calibration() -> TemperatureCalibration {
    TemperatureCalibration::new(28485_i64 as u16, 26735_i64 as i16, 50_i64 as i16)
}

#[test]
fn temperature_calibration() {
    let t_cal = create_temperature_calibration();
    let t_buffer = BigEndian::read_u32(&[0, 128, 189, 0]) >> 4;
    let t_fine = t_cal.compensate_temperature(t_buffer as i32);
    assert_eq!(t_fine, 116770);
}

fn create_pressure_calibration() -> PressureCalibration {
    PressureCalibration::new(
        36738_i64 as u16,
        -10635_i64 as i16,
        3024_i64 as i16,
        6980_i64 as i16,
        -4_i64 as i16,
        -7_i64 as i16,
        9900_i64 as i16,
        -10230_i64 as i16,
        4285_i64 as i16,
    )
}

#[test]
fn pressure_calibration() {
    let p_cal = create_pressure_calibration();
    let p_buffer = BigEndian::read_u32(&[0, 82, 79, 0]) >> 4;
    let p_comp = p_cal.compensate_pressure(p_buffer as i32, 120035);
    assert!(p_comp == 26036801);
}

fn create_humidity_calibration() -> HumidityCalibration {
    HumidityCalibration::new(
        75_i64 as u8,
        365_i64 as i16,
        0_i64 as u8,
        312_i64 as i16,
        50_i64 as i16,
        30_i64 as i8,
    )
}

#[test]
fn humidity_calibration_test() {
    let h_cal = create_humidity_calibration();
    let h_buffer = BigEndian::read_u16(&[117, 97]);
    let h_comp = h_cal.compensate_humidity(h_buffer as i32, 116770);
    assert_eq!(h_comp, 57350)
}

#[test]
fn pressure_zero_denominator_gives_zero() {
    // A zero P1 makes the denominator of the algorithm exactly zero; the
    // compensation must return zero rather than divide.
    let p_cal = PressureCalibration::new(0, -10635, 3024, 6980, -4, -7, 9900, -10230, 4285);
    assert_eq!(p_cal.compensate_pressure(337136, 120035), 0);
    assert_eq!(p_cal.compensate_pressure(0, 0), 0);
}

#[test]
fn h4_h5_extraction_shares_one_byte() {
    // H4 takes the low nibble and H5 the high nibble of the same byte.
    assert_eq!(extract_h4(19, 40), (19 << 4) | (40 & 0xF));
    assert_eq!(extract_h4(19, 40), 312);
    assert_eq!(extract_h5(3, 40), (3 << 4) | ((40 >> 4) & 0xF));
    assert_eq!(extract_h5(3, 40), 50);
}

#[test]
fn temperature_compensation_is_pure() {
    let t_cal = create_temperature_calibration();
    let adc = 527312;
    let first = t_cal.compensate_temperature(adc);
    let second = t_cal.compensate_temperature(adc);
    assert_eq!(first, second);
    assert_eq!(first, 116770);
}

#[test]
fn temperature_output_scaling() {
    // t_fine 116770 scales to 22.81 degrees in hundredths.
    let t_fine = 116770;
    assert_eq!((t_fine * 5 + 128) >> 8, 2281);
}
