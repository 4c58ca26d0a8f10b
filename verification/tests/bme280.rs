use hello_i2c::bme280::{constants, Address, BME280Error, Filter, Mode, Oversampling, StandyTime, BME280};
use hello_i2c::protocols::mock::{ScriptItem, ScriptedI2c};

fn get_mock_calibration(address: u8) -> Vec<ScriptItem> {
    let expectations = vec![
        ScriptItem::write_read(address, vec![constants::DIG_T1_LSB_REG], ((28485_i64 & 0xFF) as u8).to_be_bytes().to_vec()),
        ScriptItem::write_read(address, vec![constants::DIG_T1_MSB_REG], ((28485_i64 & 0xFF00 >> 8) as u8).to_be_bytes().to_vec()),
        // T2 calibration
        ScriptItem::write_read(address, vec![constants::DIG_T2_LSB_REG], ((26735_i64 & 0xFF) as u8).to_be_bytes().to_vec()),
        ScriptItem::write_read(address, vec![constants::DIG_T2_MSB_REG], ((26735_i64 & 0xFF00 >> 8) as u8).to_be_bytes().to_vec()),
        // T3 calibration
        ScriptItem::write_read(address, vec![constants::DIG_T3_LSB_REG], ((50_i64 & 0xFF) as u8).to_be_bytes().to_vec()),
        ScriptItem::write_read(address, vec![constants::DIG_T3_MSB_REG], ((50_i64 & 0xFF00 >> 8) as u8).to_be_bytes().to_vec()),
        // Pressure calibration
        // P1 calibration
        ScriptItem::write_read(address, vec![0x8E], ((36738_i64 & 0xFF) as u8).to_be_bytes().to_vec()),
        ScriptItem::write_read(address, vec![0x8F], ((36738_i64 & 0xFF00 >> 8) as u8).to_be_bytes().to_vec()),
        // P2 calibration
        ScriptItem::write_read(address, vec![0x90], ((-10635_i64 & 0xFF) as u8).to_be_bytes().to_vec()),
        ScriptItem::write_read(address, vec![0x91], ((-10635_i64 & 0xFF00 >> 8) as u8).to_be_bytes().to_vec()),
        // P3 calibration
        ScriptItem::write_read(address, vec![0x92], ((3024_i64 & 0xFF) as u8).to_be_bytes().to_vec()),
        ScriptItem::write_read(address, vec![0x93], ((3024_i64 & 0xFF00 >> 8) as u8).to_be_bytes().to_vec()),
        // P4 calibration
        ScriptItem::write_read(address, vec![0x94], ((6980_i64 & 0xFF) as u8).to_be_bytes().to_vec()),
        ScriptItem::write_read(address, vec![0x95], ((6980_i64 & 0xFF00 >> 8) as u8).to_be_bytes().to_vec()),
        // P5 calibration
        ScriptItem::write_read(address, vec![0x96], ((-4_i64 & 0xFF) as u8).to_be_bytes().to_vec()),
        ScriptItem::write_read(address, vec![0x97], ((-4_i64 & 0xFF00 >> 8) as u8).to_be_bytes().to_vec()),
        // P6 calibration
        ScriptItem::write_read(address, vec![0x98], ((-7_i64 & 0xFF) as u8).to_be_bytes().to_vec()),
        ScriptItem::write_read(address, vec![0x99], ((-7_i64 & 0xFF00 >> 8) as u8).to_be_bytes().to_vec()),
        // P7 calibration
        ScriptItem::write_read(address, vec![0x9A], ((9900_i64 & 0xFF) as u8).to_be_bytes().to_vec()),
        ScriptItem::write_read(address, vec![0x9B], ((9900_i64 & 0xFF00 >> 8) as u8).to_be_bytes().to_vec()),
        // P8 calibration
        ScriptItem::write_read(address, vec![0x9C], ((-10230_i64 & 0xFF) as u8).to_be_bytes().to_vec()),
        ScriptItem::write_read(address, vec![0x9D], ((-10230_i64 & 0xFF00 >> 8) as u8).to_be_bytes().to_vec()),
        // P9 calibration
        ScriptItem::write_read(address, vec![0x9E], ((4285_i64 & 0xFF) as u8).to_be_bytes().to_vec()),
        ScriptItem::write_read(address, vec![0x9F], ((4285_i64 & 0xFF00 >> 8) as u8).to_be_bytes().to_vec()),
        // Humidity calibration
        // H1 calibration
        ScriptItem::write_read(address, vec![constants::DIG_H1_REG], ((75_i64 & 0xFF) as u8).to_be_bytes().to_vec()),
        // H2 calibration
        ScriptItem::write_read(address, vec![constants::DIG_H2_LSB_REG], ((109 & 0xFF) as u8).to_be_bytes().to_vec()),
        ScriptItem::write_read(address, vec![constants::DIG_H2_MSB_REG], ((1 & 0xFF) as u8).to_be_bytes().to_vec()),
        // H3 calibration
        ScriptItem::write_read(address, vec![constants::DIG_H3_REG], ((0 & 0xFF) as u8).to_be_bytes().to_vec()),
        // H4 calibration, sharing its low byte with H5
        ScriptItem::write_read(address, vec![constants::DIG_H4_MSB_REG], ((19 & 0xFF) as u8).to_be_bytes().to_vec()),
        ScriptItem::write_read(address, vec![constants::DIG_H4_LSB_REG], ((40 & 0xFF) as u8).to_be_bytes().to_vec()),
        // H5 calibration
        ScriptItem::write_read(address, vec![constants::DIG_H5_MSB_REG], ((3 & 0xFF) as u8).to_be_bytes().to_vec()),
        // H6 calibration
        ScriptItem::write_read(address, vec![constants::DIG_H6_REG], ((30 & 0xFF) as u8).to_be_bytes().to_vec()),
    ];
    return expectations;
}

#[test]
fn read_humidity() {
    let address: u8 = Address::Default.into();
    let mut expectations = get_mock_calibration(address);
    expectations.push(ScriptItem::write_read(address, vec![0xFD], vec![110]));
    expectations.push(ScriptItem::write_read(address, vec![0xFE], vec![213]));

    let i2c = ScriptedI2c::new(expectations);

    let mut bme280_sensor = BME280::new(i2c, address).unwrap();
    let humidity = bme280_sensor.get_humidity_scaled().unwrap() as f64 / 1024.0;

    assert!((humidity - 46.8056640625).abs() < 0.1);
}

#[test]
fn read_temperature() {
    let address: u8 = Address::Default.into();
    let mut expectations = get_mock_calibration(address);
    expectations.push(ScriptItem::write_read(
        address,
        vec![constants::TEMPERATURE_MSB_REG],
        vec![0],
    ));
    expectations.push(ScriptItem::write_read(
        address,
        vec![constants::TEMPERATURE_LSB_REG],
        vec![0],
    ));
    expectations.push(ScriptItem::write_read(
        address,
        vec![constants::TEMPERATURE_XLSB_REG],
        vec![0],
    ));

    let i2c = ScriptedI2c::new(expectations);

    let mut bme280_sensor = BME280::new(i2c, address).unwrap();
    let temperature = bme280_sensor.get_temperature_scaled().unwrap() as f64 / 100.0;

    assert!(temperature > -100.);
    assert!(temperature < 100.);
}

#[test]
fn read_pressure() {
    let address: u8 = Address::Default.into();
    let mut expectations = get_mock_calibration(address);
    expectations.push(ScriptItem::write_read(
        address,
        vec![constants::PRESSURE_MSB_REG],
        vec![0],
    ));
    expectations.push(ScriptItem::write_read(
        address,
        vec![constants::PRESSURE_LSB_REG],
        vec![0],
    ));
    expectations.push(ScriptItem::write_read(
        address,
        vec![constants::PRESSURE_XLSB_REG],
        vec![0],
    ));

    let i2c = ScriptedI2c::new(expectations);

    let mut bme280_sensor = BME280::new(i2c, address).unwrap();
    let pressure = bme280_sensor.get_pressure_scaled().unwrap() as f64 / 256.0;

    assert!(pressure > 0.0);
}

#[test]
fn random() {
    println!("{:?}", (((50_i64 & 0xFF)) as u8).to_be_bytes().to_vec());
    println!("{:?}", (((50_i64 & 0xFF00) >> 8) as u8).to_be_bytes().to_vec());
}

#[test]
fn mode_codes_round_trip() {
    assert!(matches!(Mode::decode(Mode::Sleep.encode()), Ok(Mode::Sleep)));
    assert!(matches!(Mode::decode(Mode::Forced.encode()), Ok(Mode::Forced)));
    assert!(matches!(Mode::decode(Mode::Normal.encode()), Ok(Mode::Normal)));
    // The chip defines both code 1 and code 2 as the forced mode.
    assert!(matches!(Mode::decode(2), Ok(Mode::Forced)));
    assert_eq!(Mode::Forced.encode(), 1);
    assert!(matches!(Mode::decode(4), Err(BME280Error::InvalidEncoding)));
}

#[test]
fn oversampling_codes_round_trip() {
    let rates = [
        Oversampling::Skipped,
        Oversampling::Ox1,
        Oversampling::Ox2,
        Oversampling::Ox4,
        Oversampling::Ox8,
        Oversampling::Ox16,
    ];
    for rate in rates {
        assert_eq!(Oversampling::decode(rate.encode()).unwrap(), rate);
    }
    assert!(matches!(
        Oversampling::decode(6),
        Err(BME280Error::InvalidEncoding)
    ));
}

#[test]
fn standby_codes_round_trip() {
    let times = [
        StandyTime::Ms0_5,
        StandyTime::Ms62_5,
        StandyTime::Ms125,
        StandyTime::Ms250,
        StandyTime::Ms500,
        StandyTime::Ms1000,
        StandyTime::Ms10,
        StandyTime::Ms20,
    ];
    for time in times {
        assert_eq!(StandyTime::decode(time.encode()).unwrap(), time);
    }
    assert!(matches!(
        StandyTime::decode(8),
        Err(BME280Error::InvalidEncoding)
    ));
}

#[test]
fn filter_codes_round_trip() {
    let filters = [Filter::Off, Filter::C2, Filter::C4, Filter::C8, Filter::C16];
    for filter in filters {
        assert_eq!(Filter::decode(filter.encode()).unwrap(), filter);
    }
    assert!(matches!(
        Filter::decode(5),
        Err(BME280Error::InvalidEncoding)
    ));
}

#[test]
fn get_id_checks_chip_identity() {
    let address: u8 = Address::Default.into();
    let mut expectations = get_mock_calibration(address);
    expectations.push(ScriptItem::write_read(address, vec![0xD0], vec![0x60]));
    let mut sensor = BME280::new(ScriptedI2c::new(expectations), address).unwrap();
    assert_eq!(sensor.get_id().unwrap(), 0x60);

    let mut expectations = get_mock_calibration(address);
    expectations.push(ScriptItem::write_read(address, vec![0xD0], vec![0x61]));
    let mut sensor = BME280::new(ScriptedI2c::new(expectations), address).unwrap();
    assert!(matches!(
        sensor.get_id(),
        Err(BME280Error::IdentityMismatch)
    ));
}

#[test]
fn oversample_setter_restores_mode() {
    // The device starts in normal mode (mode bits 0b11). The setter must
    // read the mode, force sleep, write the field, and write normal back;
    // a wrong restore byte would not match the script. The final read
    // confirms the whole script was consumed in order.
    let address: u8 = Address::Default.into();
    let mut expectations = get_mock_calibration(address);
    expectations.push(ScriptItem::write_read(address, vec![0xF4], vec![0x03]));
    expectations.push(ScriptItem::write_read(address, vec![0xF4], vec![0x03]));
    expectations.push(ScriptItem::write(address, vec![0xF4, 0x00]));
    expectations.push(ScriptItem::write_read(address, vec![0xF4], vec![0x00]));
    expectations.push(ScriptItem::write(address, vec![0xF4, 0x40]));
    expectations.push(ScriptItem::write_read(address, vec![0xF4], vec![0x40]));
    expectations.push(ScriptItem::write(address, vec![0xF4, 0x43]));
    expectations.push(ScriptItem::write_read(address, vec![0xF4], vec![0x43]));

    let mut sensor = BME280::new(ScriptedI2c::new(expectations), address).unwrap();
    sensor.set_temperature_oversample(Oversampling::Ox2).unwrap();
    assert!(matches!(sensor.get_mode().unwrap(), Mode::Normal));
}

#[test]
fn start_emits_bring_up_sequence() {
    let address: u8 = Address::Default.into();
    let mut expectations = get_mock_calibration(address);
    let more = vec![
        // Standby
        ScriptItem::write_read(address, vec![0xF5], vec![0x00]),
        ScriptItem::write(address, vec![0xF5, 0x00]),
        // Filter
        ScriptItem::write_read(address, vec![0xF5], vec![0x00]),
        ScriptItem::write(address, vec![0xF5, 0x00]),
        // Temperature oversample under the quiesce protocol
        ScriptItem::write_read(address, vec![0xF4], vec![0x00]),
        ScriptItem::write_read(address, vec![0xF4], vec![0x00]),
        ScriptItem::write(address, vec![0xF4, 0x00]),
        ScriptItem::write_read(address, vec![0xF4], vec![0x00]),
        ScriptItem::write(address, vec![0xF4, 0x01 << 5]),
        ScriptItem::write_read(address, vec![0xF4], vec![0x00]),
        ScriptItem::write(address, vec![0xF4, 0x00]),
        // Pressure oversample under the quiesce protocol
        ScriptItem::write_read(address, vec![0xF4], vec![0x00]),
        ScriptItem::write_read(address, vec![0xF4], vec![0x00]),
        ScriptItem::write(address, vec![0xF4, 0x00]),
        ScriptItem::write_read(address, vec![0xF4], vec![0x00]),
        ScriptItem::write(address, vec![0xF4, 0x01 << 2]),
        ScriptItem::write_read(address, vec![0xF4], vec![0x00]),
        ScriptItem::write(address, vec![0xF4, 0x00]),
        // Humidity oversample under the quiesce protocol
        ScriptItem::write_read(address, vec![0xF4], vec![0x00]),
        ScriptItem::write_read(address, vec![0xF4], vec![0x00]),
        ScriptItem::write(address, vec![0xF4, 0x00]),
        ScriptItem::write_read(address, vec![0xF2], vec![0x00]),
        ScriptItem::write(address, vec![0xF2, 0x01]),
        ScriptItem::write_read(address, vec![0xF4], vec![0x00]),
        ScriptItem::write(address, vec![0xF4, 0x00]),
        // Mode normal
        ScriptItem::write_read(address, vec![0xF4], vec![0x00]),
        ScriptItem::write(address, vec![0xF4, 0x03]),
        // Read temperature
        ScriptItem::write_read(address, vec![0xFA], vec![0x00]),
        ScriptItem::write_read(address, vec![0xFB], vec![0x00]),
        ScriptItem::write_read(address, vec![0xFC], vec![0x00]),
    ];
    expectations.extend(more);

    let mut sensor = BME280::build(ScriptedI2c::new(expectations), address).unwrap();
    let temperature = sensor.get_temperature_scaled().unwrap();
    assert_eq!(temperature, -8473);
}

#[test]
fn construction_fails_on_bus_error() {
    // An empty script makes the very first calibration read fail; the
    // transport error surfaces immediately.
    let address: u8 = Address::Default.into();
    assert!(matches!(
        BME280::new(ScriptedI2c::new(vec![]), address),
        Err(BME280Error::IOError)
    ));
}

#[test]
fn status_and_config_operations() {
    let address: u8 = Address::Default.into();
    let mut expectations = get_mock_calibration(address);
    let more = vec![
        // Reset
        ScriptItem::write(address, vec![0xE0, 0xB6]),
        // Status bits: measuring (bit 2) set, updating (bit 0) clear
        ScriptItem::write_read(address, vec![0xF3], vec![0x04]),
        ScriptItem::write_read(address, vec![0xF3], vec![0x04]),
        // Standby time 62.5 ms into a register that already holds filter bits
        ScriptItem::write_read(address, vec![0xF5], vec![0x08]),
        ScriptItem::write(address, vec![0xF5, 0x28]),
        // Filter coefficient 4 into a register that already holds standby bits
        ScriptItem::write_read(address, vec![0xF5], vec![0x28]),
        ScriptItem::write(address, vec![0xF5, 0x28]),
        // Mode round trip on the device
        ScriptItem::write_read(address, vec![0xF4], vec![0x00]),
        ScriptItem::write(address, vec![0xF4, 0x03]),
        ScriptItem::write_read(address, vec![0xF4], vec![0x03]),
        // Stop: back to sleep
        ScriptItem::write_read(address, vec![0xF4], vec![0x03]),
        ScriptItem::write(address, vec![0xF4, 0x00]),
    ];
    expectations.extend(more);

    let mut sensor = BME280::new(ScriptedI2c::new(expectations), address).unwrap();
    sensor.reset().unwrap();
    assert!(sensor.is_measuring().unwrap());
    assert!(!sensor.is_updating().unwrap());
    sensor.set_standby_time(StandyTime::Ms62_5).unwrap();
    sensor.set_filter(Filter::C4).unwrap();
    sensor.set_mode(Mode::Normal).unwrap();
    assert!(matches!(sensor.get_mode().unwrap(), Mode::Normal));
    sensor.stop().unwrap();
}
